//! How JSON and the prose around it are written, and that extraction finds
//! every JSON list and object that is written so, whole.

use vstd::prelude::*;

use crate::json_extractor;
use crate::json_extractor::Lex;

verus! {

// ---------------------------------------------------------------------------
// The grammar
// ---------------------------------------------------------------------------

/// White space and comments between two tokens.
pub enum Gap {
    /// Nothing.
    Empty,
    /// A byte of white space, then more.
    White(u8, Box<Gap>),
    /// A comment up to the end of its line, then more.
    Line(Seq<u8>, Box<Gap>),
    /// A comment between its marks, then more.
    Block(Seq<u8>, Box<Gap>),
}

/// A JSON value as it is written.
pub enum Json {
    /// A number, or one of the three words.
    Word(Seq<u8>),
    /// A string; holds what stands between its quotes.
    Text(Seq<u8>),
    /// A list.
    List(Box<Items>),
    /// An object.
    Object(Box<Members>),
}

/// What stands between the brackets of a list.
pub enum Items {
    /// No value.
    Nothing(Gap),
    /// The last value.
    Last(Gap, Json, Gap),
    /// A value, a comma, and more.
    More(Gap, Json, Gap, Box<Items>),
}

/// What stands between the braces of an object.
pub enum Members {
    /// No member.
    Nothing(Gap),
    /// The last key with its value.
    Last(Gap, Seq<u8>, Gap, Gap, Json, Gap),
    /// A key with its value, a comma, and more.
    More(Gap, Seq<u8>, Gap, Gap, Json, Gap, Box<Members>),
}

/// A space, a tab, a line feed or a carriage return.
pub open spec fn is_blank(c: u8) -> bool {
    c == 0x20 || c == 0x09 || c == 0x0a || c == 0x0d
}

/// A gap as it is written.
pub open spec fn gap_bytes(g: Gap) -> Seq<u8>
    decreases g,
{
    match g {
        Gap::Empty => Seq::empty(),
        Gap::White(c, more) => seq![c] + gap_bytes(*more),
        Gap::Line(s, more) => seq![0x2fu8, 0x2fu8] + s + seq![0x0au8] + gap_bytes(*more),
        Gap::Block(s, more) => seq![0x2fu8, 0x2au8] + s + seq![0x2au8, 0x2fu8] + gap_bytes(*more),
    }
}

/// Every byte of white space is one, and every comment ends where it says.
pub open spec fn gap_ok(g: Gap) -> bool
    decreases g,
{
    match g {
        Gap::Empty => true,
        Gap::White(c, more) => is_blank(c) && gap_ok(*more),
        Gap::Line(s, more) => gap_ok(*more) && forall|k: int|
            0 <= k < s.len() ==> #[trigger] s[k] != 0x0a,
        Gap::Block(s, more) => gap_ok(*more) && forall|k: int|
            0 <= k && k + 1 < s.len() ==> !(#[trigger] s[k] == 0x2a && s[k + 1] == 0x2f),
    }
}

/// A gap without comments.
pub open spec fn no_comments(g: Gap) -> bool
    decreases g,
{
    match g {
        Gap::Empty => true,
        Gap::White(_, more) => no_comments(*more),
        _ => false,
    }
}

/// What stands between the quotes of a string: no quote and no backslash but
/// in an escape, a backslash with the byte behind it.
pub open spec fn inner_ok(s: Seq<u8>) -> bool
    decreases s.len(),
{
    if s.len() == 0 {
        true
    } else if s[0] == 0x5c {
        s.len() >= 2 && inner_ok(s.skip(2))
    } else {
        s[0] != 0x22 && inner_ok(s.skip(1))
    }
}

/// A string as it is written.
pub open spec fn quoted(s: Seq<u8>) -> Seq<u8> {
    seq![0x22u8] + s + seq![0x22u8]
}

/// A byte of a number or of a word: a letter, a digit, a sign or a point.
pub open spec fn word_byte(c: u8) -> bool {
    0x61 <= c <= 0x7a || c == 0x45 || 0x30 <= c <= 0x39 || c == 0x2d || c == 0x2b || c == 0x2e
}

/// A number begins with a digit or a minus sign, the words with the letters
/// of `true`, `false` and `null`.
pub open spec fn word_ok(s: Seq<u8>) -> bool {
    &&& s.len() > 0
    &&& s[0] == 0x2d || 0x30 <= s[0] <= 0x39 || s[0] == 0x74 || s[0] == 0x66 || s[0] == 0x6e
    &&& forall|k: int| 0 <= k < s.len() ==> word_byte(#[trigger] s[k])
}

/// A value as it is written.
pub open spec fn json_bytes(j: Json) -> Seq<u8>
    decreases j,
{
    match j {
        Json::Word(s) => s,
        Json::Text(s) => quoted(s),
        Json::List(items) => seq![0x5bu8] + items_bytes(*items) + seq![0x5du8],
        Json::Object(members) => seq![0x7bu8] + members_bytes(*members) + seq![0x7du8],
    }
}

/// What stands between brackets, as it is written.
pub open spec fn items_bytes(items: Items) -> Seq<u8>
    decreases items,
{
    match items {
        Items::Nothing(g) => gap_bytes(g),
        Items::Last(g, j, h) => gap_bytes(g) + (json_bytes(j) + gap_bytes(h)),
        Items::More(g, j, h, more) => gap_bytes(g) + (json_bytes(j) + (gap_bytes(h) + (
        seq![0x2cu8] + items_bytes(*more)))),
    }
}

/// What stands between braces, as it is written.
pub open spec fn members_bytes(members: Members) -> Seq<u8>
    decreases members,
{
    match members {
        Members::Nothing(g) => gap_bytes(g),
        Members::Last(g, key, h, i, j, k) => gap_bytes(g) + (quoted(key) + (gap_bytes(h) + (
        seq![0x3au8] + (gap_bytes(i) + (json_bytes(j) + gap_bytes(k)))))),
        Members::More(g, key, h, i, j, k, more) => gap_bytes(g) + (quoted(key) + (gap_bytes(h) + (
        seq![0x3au8] + (gap_bytes(i) + (json_bytes(j) + (gap_bytes(k) + (seq![0x2cu8]
            + members_bytes(*more)))))))),
    }
}

/// The value is JSON.
pub open spec fn json_ok(j: Json) -> bool
    decreases j,
{
    match j {
        Json::Word(s) => word_ok(s),
        Json::Text(s) => inner_ok(s),
        Json::List(items) => items_ok(*items),
        Json::Object(members) => members_ok(*members),
    }
}

/// The values are JSON, and one follows each comma.
pub open spec fn items_ok(items: Items) -> bool
    decreases items,
{
    match items {
        Items::Nothing(g) => gap_ok(g),
        Items::Last(g, j, h) => gap_ok(g) && json_ok(j) && gap_ok(h),
        Items::More(g, j, h, more) => gap_ok(g) && json_ok(j) && gap_ok(h) && items_ok(*more)
            && !(*more is Nothing),
    }
}

/// The members are JSON, and one follows each comma.
pub open spec fn members_ok(members: Members) -> bool
    decreases members,
{
    match members {
        Members::Nothing(g) => gap_ok(g),
        Members::Last(g, key, h, i, j, k) => gap_ok(g) && inner_ok(key) && gap_ok(h) && gap_ok(i)
            && json_ok(j) && gap_ok(k),
        Members::More(g, key, h, i, j, k, more) => gap_ok(g) && inner_ok(key) && gap_ok(h)
            && gap_ok(i) && json_ok(j) && gap_ok(k) && members_ok(*more) && !(*more is Nothing),
    }
}

/// The gap right behind the bracket or brace that opens a value.
pub open spec fn first_gap(j: Json) -> Gap {
    match j {
        Json::List(items) => match *items {
            Items::Nothing(g) => g,
            Items::Last(g, _, _) => g,
            Items::More(g, _, _, _) => g,
        },
        Json::Object(members) => match *members {
            Members::Nothing(g) => g,
            Members::Last(g, _, _, _, _, _) => g,
            Members::More(g, _, _, _, _, _, _) => g,
        },
        _ => Gap::Empty,
    }
}

/// Prose in front of a value.
pub enum Prose {
    /// Nothing.
    Empty,
    /// A byte that is no quote, no slash and opens nothing, then more.
    Plain(u8, Box<Prose>),
    /// A slash that begins no comment, with the byte behind it, then more.
    Slash(u8, Box<Prose>),
    /// A brace or bracket right behind a printed character, then more.
    Glued(u8, u8, Box<Prose>),
    /// A quotation, then more.
    Quote(Seq<u8>, Box<Prose>),
    /// A comment up to the end of its line, then more.
    Line(Seq<u8>, Box<Prose>),
    /// A comment between its marks, then more.
    Block(Seq<u8>, Box<Prose>),
}

/// Prose as it is written.
pub open spec fn prose_bytes(p: Prose) -> Seq<u8>
    decreases p,
{
    match p {
        Prose::Empty => Seq::empty(),
        Prose::Plain(c, more) => seq![c] + prose_bytes(*more),
        Prose::Slash(c, more) => seq![0x2fu8, c] + prose_bytes(*more),
        Prose::Glued(a, c, more) => seq![a, c] + prose_bytes(*more),
        Prose::Quote(s, more) => quoted(s) + prose_bytes(*more),
        Prose::Line(s, more) => seq![0x2fu8, 0x2fu8] + s + seq![0x0au8] + prose_bytes(*more),
        Prose::Block(s, more) => seq![0x2fu8, 0x2au8] + s + seq![0x2au8, 0x2fu8] + prose_bytes(
            *more,
        ),
    }
}

/// A byte that is no quote, no slash and opens nothing.
pub open spec fn plain(c: u8) -> bool {
    c != 0x22 && c != 0x2f && c != 0x7b && c != 0x5b
}

/// Each part of the prose is what it says.
pub open spec fn prose_ok(p: Prose) -> bool
    decreases p,
{
    match p {
        Prose::Empty => true,
        Prose::Plain(c, more) => plain(c) && prose_ok(*more),
        Prose::Slash(c, more) => plain(c) && c != 0x2a && prose_ok(*more),
        Prose::Glued(a, c, more) => 0x21 <= a <= 0x7e && plain(a) && (c == 0x7b || c == 0x5b)
            && prose_ok(*more),
        Prose::Quote(s, more) => inner_ok(s) && prose_ok(*more),
        Prose::Line(s, more) => prose_ok(*more) && forall|k: int|
            0 <= k < s.len() ==> #[trigger] s[k] != 0x0a,
        Prose::Block(s, more) => prose_ok(*more) && forall|k: int|
            0 <= k && k + 1 < s.len() ==> !(#[trigger] s[k] == 0x2a && s[k + 1] == 0x2f),
    }
}

/// Bytes that a value may follow: none, or some that end in white space and do
/// not begin as a byte order mark does.
pub open spec fn leads_in(s: Seq<u8>) -> bool {
    s.len() > 0 ==> s[0] != 0xef && is_blank(s.last())
}

// ---------------------------------------------------------------------------
// Passing over what is written
// ---------------------------------------------------------------------------

/// `x` stands in `b` at `i`.
spec fn stands(b: Seq<u8>, i: int, x: Seq<u8>) -> bool {
    &&& 0 <= i
    &&& i + x.len() <= b.len()
    &&& forall|k: int| 0 <= k < x.len() ==> b[i + k] == #[trigger] x[k]
}

proof fn lemma_parts(b: Seq<u8>, i: int, x: Seq<u8>, y: Seq<u8>)
    requires
        stands(b, i, x + y),
    ensures
        stands(b, i, x),
        stands(b, i + x.len(), y),
{
    assert forall|k: int| 0 <= k < x.len() implies b[i + k] == #[trigger] x[k] by {
        assert((x + y)[k] == x[k]);
    }
    assert forall|k: int| 0 <= k < y.len() implies b[i + x.len() + k] == #[trigger] y[k] by {
        assert((x + y)[x.len() + k] == y[k]);
    }
}

spec fn is_open(c: u8) -> bool {
    c == 0x7b || c == 0x5b
}

proof fn lemma_line(b: Seq<u8>, i: int, s: Seq<u8>)
    requires
        stands(b, i, s),
        i + s.len() < b.len(),
        b[i + s.len()] == 0x0a,
        forall|k: int| 0 <= k < s.len() ==> #[trigger] s[k] != 0x0a,
    ensures
        json_extractor::line_end(b, i) == i + s.len(),
    decreases s.len(),
{
    if s.len() > 0 {
        assert(b[i + 0] == s[0]);
        let t = s.skip(1);
        assert forall|k: int| 0 <= k < t.len() implies b[i + 1 + k] == #[trigger] t[k] && t[k]
            != 0x0a by {
            assert(s[k + 1] == t[k]);
            assert(b[i + (k + 1)] == s[k + 1]);
        }
        lemma_line(b, i + 1, t);
    }
}

proof fn lemma_block(b: Seq<u8>, i: int, s: Seq<u8>)
    requires
        stands(b, i, s),
        i + s.len() + 1 < b.len(),
        b[i + s.len()] == 0x2a,
        b[i + s.len() + 1] == 0x2f,
        forall|k: int| 0 <= k && k + 1 < s.len() ==> !(#[trigger] s[k] == 0x2a && s[k + 1] == 0x2f),
    ensures
        json_extractor::block_end(b, i) == i + s.len() + 2,
    decreases s.len(),
{
    if s.len() > 0 {
        assert(b[i + 0] == s[0]);
        if s.len() > 1 {
            assert(b[i + 1] == s[1]);
        }
        let t = s.skip(1);
        assert forall|k: int| 0 <= k < t.len() implies b[i + 1 + k] == #[trigger] t[k] by {
            assert(s[k + 1] == t[k]);
            assert(b[i + (k + 1)] == s[k + 1]);
        }
        assert forall|k: int| 0 <= k && k + 1 < t.len() implies !(#[trigger] t[k] == 0x2a && t[k + 1]
            == 0x2f) by {
            assert(s[k + 1] == t[k]);
        }
        lemma_block(b, i + 1, t);
    }
}

/// A scan inside a string passes over what stands between its quotes.
proof fn lemma_pass_inner(b: Seq<u8>, i: int, s: Seq<u8>, d: int, open: u8, start: int)
    requires
        stands(b, i, s),
        inner_ok(s),
        d >= 1,
    ensures
        json_extractor::closing(b, i, Lex::Text, d, open) == json_extractor::closing(
            b,
            i + s.len(),
            Lex::Text,
            d,
            open,
        ),
        json_extractor::opening(b, start, i, Lex::Text) == json_extractor::opening(
            b,
            start,
            i + s.len(),
            Lex::Text,
        ),
    decreases s.len(),
{
    if s.len() > 0 {
        assert(b[i + 0] == s[0]);
        let n: int = if s[0] == 0x5c {
            2
        } else {
            1
        };
        let t = s.skip(n);
        assert forall|k: int| 0 <= k < t.len() implies b[i + n + k] == #[trigger] t[k] by {
            assert(s[k + n] == t[k]);
            assert(b[i + (k + n)] == s[k + n]);
        }
        if n == 2 {
            assert(json_extractor::step(b, i, Lex::Text) == (i + 1, Lex::Escaped));
            assert(json_extractor::step(b, i + 1, Lex::Escaped) == (i + 2, Lex::Text));
            assert(json_extractor::closing(b, i, Lex::Text, d, open) == json_extractor::closing(
                b,
                i + 1,
                Lex::Escaped,
                d,
                open,
            ));
            assert(json_extractor::opening(b, start, i, Lex::Text) == json_extractor::opening(
                b,
                start,
                i + 1,
                Lex::Escaped,
            ));
        }
        lemma_pass_inner(b, i + n, t, d, open, start);
    }
}

proof fn lemma_pass_quoted(b: Seq<u8>, i: int, s: Seq<u8>, d: int, open: u8, start: int)
    requires
        stands(b, i, quoted(s)),
        inner_ok(s),
        d >= 1,
        is_open(open),
    ensures
        json_extractor::closing(b, i, Lex::Code, d, open) == json_extractor::closing(
            b,
            i + quoted(s).len(),
            Lex::Code,
            d,
            open,
        ),
        json_extractor::opening(b, start, i, Lex::Code) == json_extractor::opening(
            b,
            start,
            i + quoted(s).len(),
            Lex::Code,
        ),
{
    let q = seq![0x22u8];
    assert(quoted(s) =~= q + (s + q));
    lemma_parts(b, i, q, s + q);
    lemma_parts(b, i + 1, s, q);
    assert(q[0] == 0x22);
    assert(b[i + 0] == 0x22);
    assert(b[i + 1 + s.len() + 0] == 0x22);
    lemma_pass_inner(b, i + 1, s, d, open, start);
}

/// A scan of code passes over a byte that means nothing to it.
proof fn lemma_pass_byte(b: Seq<u8>, i: int, d: int, open: u8)
    requires
        0 <= i < b.len(),
        b[i] != 0x22 && b[i] != 0x2f && b[i] != 0x7b && b[i] != 0x7d && b[i] != 0x5b && b[i]
            != 0x5d,
        d >= 1,
        is_open(open),
    ensures
        json_extractor::closing(b, i, Lex::Code, d, open) == json_extractor::closing(
            b,
            i + 1,
            Lex::Code,
            d,
            open,
        ),
{
}

/// A comment with its marks is passed over.
proof fn lemma_pass_comment(b: Seq<u8>, i: int, s: Seq<u8>, line: bool, d: int, open: u8, start: int)
    requires
        if line {
            stands(b, i, seq![0x2fu8, 0x2fu8] + s + seq![0x0au8]) && forall|k: int|
                0 <= k < s.len() ==> #[trigger] s[k] != 0x0a
        } else {
            stands(b, i, seq![0x2fu8, 0x2au8] + s + seq![0x2au8, 0x2fu8]) && forall|k: int|
                0 <= k && k + 1 < s.len() ==> !(#[trigger] s[k] == 0x2a && s[k + 1] == 0x2f)
        },
        d >= 1,
        is_open(open),
    ensures
        ({
            let end = i + s.len() + if line {
                3int
            } else {
                4int
            };
            &&& json_extractor::closing(b, i, Lex::Code, d, open) == json_extractor::closing(
                b,
                end,
                Lex::Code,
                d,
                open,
            )
            &&& json_extractor::opening(b, start, i, Lex::Code) == json_extractor::opening(
                b,
                start,
                end,
                Lex::Code,
            )
        }),
{
    if line {
        let m = seq![0x2fu8, 0x2fu8];
        let e = seq![0x0au8];
        lemma_parts(b, i, m + s, e);
        lemma_parts(b, i, m, s);
        assert(m[0] == 0x2f && m[1] == 0x2f && e[0] == 0x0a);
        assert(b[i + 0] == 0x2f && b[i + 1] == 0x2f);
        assert((m + s).len() == 2 + s.len());
        assert(b[i + (m + s).len() + 0] == 0x0a);
        lemma_line(b, i + 2, s);
        let n = i + 2 + s.len();
        assert(json_extractor::comment_end(b, i) == Some(n));
        assert(json_extractor::step(b, i, Lex::Code) == (n, Lex::Code));
        assert(json_extractor::step(b, n, Lex::Code) == (n + 1, Lex::Code));
        assert(json_extractor::opening(b, start, i, Lex::Code) == json_extractor::opening(
            b,
            start,
            n,
            Lex::Code,
        ));
        assert(json_extractor::closing(b, i, Lex::Code, d, open) == json_extractor::closing(
            b,
            n,
            Lex::Code,
            d,
            open,
        ));
    } else {
        let m = seq![0x2fu8, 0x2au8];
        let e = seq![0x2au8, 0x2fu8];
        lemma_parts(b, i, m + s, e);
        lemma_parts(b, i, m, s);
        assert(m[0] == 0x2f && m[1] == 0x2a && e[0] == 0x2a && e[1] == 0x2f);
        assert(b[i + 0] == 0x2f && b[i + 1] == 0x2a);
        assert((m + s).len() == 2 + s.len());
        assert(b[i + (m + s).len() + 0] == 0x2a);
        assert(b[i + (m + s).len() + 1] == 0x2f);
        lemma_block(b, i + 2, s);
        assert(json_extractor::comment_end(b, i) == Some(i + 2 + s.len() + 2));
    }
}

proof fn lemma_pass_gap(b: Seq<u8>, i: int, g: Gap, d: int, open: u8)
    requires
        stands(b, i, gap_bytes(g)),
        gap_ok(g),
        d >= 1,
        is_open(open),
    ensures
        json_extractor::closing(b, i, Lex::Code, d, open) == json_extractor::closing(
            b,
            i + gap_bytes(g).len(),
            Lex::Code,
            d,
            open,
        ),
    decreases g,
{
    match g {
        Gap::Empty => {},
        Gap::White(c, more) => {
            lemma_parts(b, i, seq![c], gap_bytes(*more));
            assert(seq![c][0] == c);
            assert(b[i + 0] == c);
            lemma_pass_byte(b, i, d, open);
            lemma_pass_gap(b, i + 1, *more, d, open);
        },
        Gap::Line(s, more) => {
            let whole = seq![0x2fu8, 0x2fu8] + s + seq![0x0au8];
            lemma_parts(b, i, whole, gap_bytes(*more));
            lemma_pass_comment(b, i, s, true, d, open, 0);
            lemma_pass_gap(b, i + whole.len(), *more, d, open);
        },
        Gap::Block(s, more) => {
            let whole = seq![0x2fu8, 0x2au8] + s + seq![0x2au8, 0x2fu8];
            lemma_parts(b, i, whole, gap_bytes(*more));
            lemma_pass_comment(b, i, s, false, d, open, 0);
            lemma_pass_gap(b, i + whole.len(), *more, d, open);
        },
    }
}

proof fn lemma_pass_word(b: Seq<u8>, i: int, s: Seq<u8>, d: int, open: u8)
    requires
        stands(b, i, s),
        forall|k: int| 0 <= k < s.len() ==> word_byte(#[trigger] s[k]),
        d >= 1,
        is_open(open),
    ensures
        json_extractor::closing(b, i, Lex::Code, d, open) == json_extractor::closing(
            b,
            i + s.len(),
            Lex::Code,
            d,
            open,
        ),
    decreases s.len(),
{
    if s.len() > 0 {
        assert(b[i + 0] == s[0]);
        assert(word_byte(s[0]));
        lemma_pass_byte(b, i, d, open);
        let t = s.skip(1);
        assert forall|k: int| 0 <= k < t.len() implies b[i + 1 + k] == #[trigger] t[k] && word_byte(
            t[k],
        ) by {
            assert(s[k + 1] == t[k]);
            assert(b[i + (k + 1)] == s[k + 1]);
        }
        lemma_pass_word(b, i + 1, t, d, open);
    }
}

proof fn lemma_pass_mark(b: Seq<u8>, i: int, c: u8, d: int, open: u8)
    requires
        stands(b, i, seq![c]),
        c == 0x2c || c == 0x3a,
        d >= 1,
        is_open(open),
    ensures
        json_extractor::closing(b, i, Lex::Code, d, open) == json_extractor::closing(
            b,
            i + 1,
            Lex::Code,
            d,
            open,
        ),
{
    assert(seq![c][0] == c);
    assert(b[i + 0] == c);
    lemma_pass_byte(b, i, d, open);
}

/// The depth inside a value that opens with `c`, where the scan counts `open`.
spec fn deeper(d: int, c: u8, open: u8) -> int {
    if c == open {
        d + 1
    } else {
        d
    }
}

/// A bracket or brace that opens goes one deeper where it is counted.
proof fn lemma_pass_open(b: Seq<u8>, i: int, c: u8, d: int, open: u8)
    requires
        stands(b, i, seq![c]),
        is_open(c),
        d >= 1,
        is_open(open),
    ensures
        json_extractor::closing(b, i, Lex::Code, d, open) == json_extractor::closing(
            b,
            i + 1,
            Lex::Code,
            deeper(d, c, open),
            open,
        ),
{
    assert(seq![c][0] == c);
    assert(b[i + 0] == c);
}

/// What closes it comes back.
proof fn lemma_pass_close(b: Seq<u8>, i: int, c: u8, e: u8, d: int, open: u8)
    requires
        stands(b, i, seq![e]),
        (c == 0x7b && e == 0x7d) || (c == 0x5b && e == 0x5d),
        d >= 1,
        is_open(open),
    ensures
        json_extractor::closing(b, i, Lex::Code, deeper(d, c, open), open)
            == json_extractor::closing(b, i + 1, Lex::Code, d, open),
{
    assert(seq![e][0] == e);
    assert(b[i + 0] == e);
}

proof fn lemma_pass_json(b: Seq<u8>, i: int, j: Json, d: int, open: u8)
    requires
        stands(b, i, json_bytes(j)),
        json_ok(j),
        d >= 1,
        is_open(open),
    ensures
        json_extractor::closing(b, i, Lex::Code, d, open) == json_extractor::closing(
            b,
            i + json_bytes(j).len(),
            Lex::Code,
            d,
            open,
        ),
    decreases j,
{
    match j {
        Json::Word(s) => {
            lemma_pass_word(b, i, s, d, open);
        },
        Json::Text(s) => {
            lemma_pass_quoted(b, i, s, d, open, 0);
        },
        Json::List(items) => {
            let x = items_bytes(*items);
            lemma_parts(b, i, seq![0x5bu8] + x, seq![0x5du8]);
            lemma_parts(b, i, seq![0x5bu8], x);
            lemma_pass_open(b, i, 0x5b, d, open);
            lemma_pass_items(b, i + 1, *items, deeper(d, 0x5b, open), open);
            lemma_pass_close(b, i + 1 + x.len(), 0x5b, 0x5d, d, open);
        },
        Json::Object(members) => {
            let x = members_bytes(*members);
            lemma_parts(b, i, seq![0x7bu8] + x, seq![0x7du8]);
            lemma_parts(b, i, seq![0x7bu8], x);
            lemma_pass_open(b, i, 0x7b, d, open);
            lemma_pass_members(b, i + 1, *members, deeper(d, 0x7b, open), open);
            lemma_pass_close(b, i + 1 + x.len(), 0x7b, 0x7d, d, open);
        },
    }
}

proof fn lemma_pass_items(b: Seq<u8>, at: int, items: Items, d: int, open: u8)
    requires
        stands(b, at, items_bytes(items)),
        items_ok(items),
        d >= 1,
        is_open(open),
    ensures
        json_extractor::closing(b, at, Lex::Code, d, open) == json_extractor::closing(
            b,
            at + items_bytes(items).len(),
            Lex::Code,
            d,
            open,
        ),
    decreases items,
{
    match items {
        Items::Nothing(g) => {
            lemma_pass_gap(b, at, g, d, open);
        },
        Items::Last(g, j, h) => {
            let x = gap_bytes(g);
            let y = json_bytes(j);
            let z = gap_bytes(h);
            lemma_parts(b, at, x, y + z);
            lemma_parts(b, at + x.len(), y, z);
            lemma_pass_gap(b, at, g, d, open);
            lemma_pass_json(b, at + x.len(), j, d, open);
            lemma_pass_gap(b, at + x.len() + y.len(), h, d, open);
        },
        Items::More(g, j, h, more) => {
            let x = gap_bytes(g);
            let y = json_bytes(j);
            let z = gap_bytes(h);
            let c = seq![0x2cu8];
            let w = items_bytes(*more);
            lemma_parts(b, at, x, y + (z + (c + w)));
            lemma_parts(b, at + x.len(), y, z + (c + w));
            lemma_parts(b, at + x.len() + y.len(), z, c + w);
            lemma_parts(b, at + x.len() + y.len() + z.len(), c, w);
            lemma_pass_gap(b, at, g, d, open);
            lemma_pass_json(b, at + x.len(), j, d, open);
            lemma_pass_gap(b, at + x.len() + y.len(), h, d, open);
            lemma_pass_mark(b, at + x.len() + y.len() + z.len(), 0x2c, d, open);
            lemma_pass_items(b, at + x.len() + y.len() + z.len() + 1, *more, d, open);
        },
    }
}

proof fn lemma_pass_members(b: Seq<u8>, at: int, members: Members, d: int, open: u8)
    requires
        stands(b, at, members_bytes(members)),
        members_ok(members),
        d >= 1,
        is_open(open),
    ensures
        json_extractor::closing(b, at, Lex::Code, d, open) == json_extractor::closing(
            b,
            at + members_bytes(members).len(),
            Lex::Code,
            d,
            open,
        ),
    decreases members,
{
    match members {
        Members::Nothing(g) => {
            lemma_pass_gap(b, at, g, d, open);
        },
        Members::Last(g, key, h, i, j, k) => {
            lemma_pass_member(b, at, g, key, h, i, j, gap_bytes(k), d, open);
            let n = at + gap_bytes(g).len() + quoted(key).len() + gap_bytes(h).len() + 1 + gap_bytes(
                i,
            ).len();
            lemma_pass_json(b, n, j, d, open);
            lemma_pass_gap(b, n + json_bytes(j).len(), k, d, open);
        },
        Members::More(g, key, h, i, j, k, more) => {
            let rest = gap_bytes(k) + (seq![0x2cu8] + members_bytes(*more));
            lemma_pass_member(b, at, g, key, h, i, j, rest, d, open);
            let n = at + gap_bytes(g).len() + quoted(key).len() + gap_bytes(h).len() + 1 + gap_bytes(
                i,
            ).len();
            let m = n + json_bytes(j).len();
            lemma_pass_json(b, n, j, d, open);
            lemma_parts(b, m, gap_bytes(k), seq![0x2cu8] + members_bytes(*more));
            lemma_parts(b, m + gap_bytes(k).len(), seq![0x2cu8], members_bytes(*more));
            lemma_pass_gap(b, m, k, d, open);
            lemma_pass_mark(b, m + gap_bytes(k).len(), 0x2c, d, open);
            lemma_pass_members(b, m + gap_bytes(k).len() + 1, *more, d, open);
        },
    }
}

/// A key with its colon is passed over, up to the value.
proof fn lemma_pass_member(
    b: Seq<u8>,
    at: int,
    g: Gap,
    key: Seq<u8>,
    h: Gap,
    i: Gap,
    j: Json,
    rest: Seq<u8>,
    d: int,
    open: u8,
)
    requires
        stands(
            b,
            at,
            gap_bytes(g) + (quoted(key) + (gap_bytes(h) + (seq![0x3au8] + (gap_bytes(i) + (
            json_bytes(j) + rest))))),
        ),
        gap_ok(g),
        inner_ok(key),
        gap_ok(h),
        gap_ok(i),
        d >= 1,
        is_open(open),
    ensures
        ({
            let n = at + gap_bytes(g).len() + quoted(key).len() + gap_bytes(h).len() + 1 + gap_bytes(
                i,
            ).len();
            &&& json_extractor::closing(b, at, Lex::Code, d, open) == json_extractor::closing(
                b,
                n,
                Lex::Code,
                d,
                open,
            )
            &&& stands(b, n, json_bytes(j))
            &&& stands(b, n + json_bytes(j).len(), rest)
        }),
{
    let x = gap_bytes(g);
    let q = quoted(key);
    let y = gap_bytes(h);
    let c = seq![0x3au8];
    let z = gap_bytes(i);
    let v = json_bytes(j);
    lemma_parts(b, at, x, q + (y + (c + (z + (v + rest)))));
    lemma_parts(b, at + x.len(), q, y + (c + (z + (v + rest))));
    lemma_parts(b, at + x.len() + q.len(), y, c + (z + (v + rest)));
    lemma_parts(b, at + x.len() + q.len() + y.len(), c, z + (v + rest));
    lemma_parts(b, at + x.len() + q.len() + y.len() + 1, z, v + rest);
    lemma_parts(b, at + x.len() + q.len() + y.len() + 1 + z.len(), v, rest);
    lemma_pass_gap(b, at, g, d, open);
    lemma_pass_quoted(b, at + x.len(), key, d, open, 0);
    lemma_pass_gap(b, at + x.len() + q.len(), h, d, open);
    lemma_pass_mark(b, at + x.len() + q.len() + y.len(), 0x3a, d, open);
    lemma_pass_gap(b, at + x.len() + q.len() + y.len() + 1, i, d, open);
}

/// Prose opens no value.
proof fn lemma_pass_prose(b: Seq<u8>, i: int, p: Prose, start: int)
    requires
        stands(b, i, prose_bytes(p)),
        prose_ok(p),
        0 <= start <= i,
    ensures
        json_extractor::opening(b, start, i, Lex::Code) == json_extractor::opening(
            b,
            start,
            i + prose_bytes(p).len(),
            Lex::Code,
        ),
    decreases p,
{
    match p {
        Prose::Empty => {},
        Prose::Plain(c, more) => {
            lemma_parts(b, i, seq![c], prose_bytes(*more));
            assert(seq![c][0] == c);
            assert(b[i + 0] == c);
            lemma_pass_prose(b, i + 1, *more, start);
        },
        Prose::Slash(c, more) => {
            let x = seq![0x2fu8, c];
            lemma_parts(b, i, x, prose_bytes(*more));
            assert(x[0] == 0x2f && x[1] == c);
            assert(b[i + 0] == 0x2f && b[i + 1] == c);
            assert(json_extractor::step(b, i, Lex::Code) == (i + 1, Lex::Code));
            assert(json_extractor::step(b, i + 1, Lex::Code) == (i + 2, Lex::Code));
            assert(json_extractor::opening(b, start, i, Lex::Code) == json_extractor::opening(
                b,
                start,
                i + 1,
                Lex::Code,
            ));
            lemma_pass_prose(b, i + 2, *more, start);
        },
        Prose::Glued(a, c, more) => {
            let x = seq![a, c];
            lemma_parts(b, i, x, prose_bytes(*more));
            assert(x[0] == a && x[1] == c);
            assert(b[i + 0] == a && b[i + 1] == c);
            assert(json_extractor::step(b, i, Lex::Code) == (i + 1, Lex::Code));
            assert(!json_extractor::opens(b, start, i + 1));
            assert(json_extractor::step(b, i + 1, Lex::Code) == (i + 2, Lex::Code));
            assert(json_extractor::opening(b, start, i, Lex::Code) == json_extractor::opening(
                b,
                start,
                i + 1,
                Lex::Code,
            ));
            lemma_pass_prose(b, i + 2, *more, start);
        },
        Prose::Quote(s, more) => {
            lemma_parts(b, i, quoted(s), prose_bytes(*more));
            lemma_pass_quoted(b, i, s, 1, 0x7b, start);
            lemma_pass_prose(b, i + quoted(s).len(), *more, start);
        },
        Prose::Line(s, more) => {
            let whole = seq![0x2fu8, 0x2fu8] + s + seq![0x0au8];
            lemma_parts(b, i, whole, prose_bytes(*more));
            lemma_pass_comment(b, i, s, true, 1, 0x7b, start);
            lemma_pass_prose(b, i + whole.len(), *more, start);
        },
        Prose::Block(s, more) => {
            let whole = seq![0x2fu8, 0x2au8] + s + seq![0x2au8, 0x2fu8];
            lemma_parts(b, i, whole, prose_bytes(*more));
            lemma_pass_comment(b, i, s, false, 1, 0x7b, start);
            lemma_pass_prose(b, i + whole.len(), *more, start);
        },
    }
}

/// White space is skipped before what follows the opening delimiter is judged.
proof fn lemma_past_gap(b: Seq<u8>, i: int, g: Gap)
    requires
        stands(b, i, gap_bytes(g)),
        gap_ok(g),
        no_comments(g),
        i + gap_bytes(g).len() < b.len(),
        b[i + gap_bytes(g).len()] > 0x20,
    ensures
        json_extractor::past_white(b, i) == i + gap_bytes(g).len(),
    decreases g,
{
    match g {
        Gap::White(c, more) => {
            lemma_parts(b, i, seq![c], gap_bytes(*more));
            assert(seq![c][0] == c);
            assert(b[i + 0] == c);
            lemma_past_gap(b, i + 1, *more);
        },
        _ => {},
    }
}

// ---------------------------------------------------------------------------
// What extraction finds
// ---------------------------------------------------------------------------

/// What stands between the delimiters of a list or an object.
spec fn inside(j: Json) -> Seq<u8> {
    match j {
        Json::List(items) => items_bytes(*items),
        Json::Object(members) => members_bytes(*members),
        _ => Seq::empty(),
    }
}

/// The byte of a JSON value's start.
proof fn lemma_first_byte(j: Json)
    requires
        json_ok(j),
    ensures
        json_bytes(j).len() > 0,
        ({
            let c = json_bytes(j)[0];
            c == 0x22 || c == 0x5b || c == 0x7b || c == 0x2d || 0x30 <= c <= 0x39 || c == 0x74 || c
                == 0x66 || c == 0x6e
        }),
{
}

/// What stands behind the first gap of a value can follow its delimiter.
proof fn lemma_plausible(b: Seq<u8>, at: int, j: Json)
    requires
        stands(b, at, json_bytes(j)),
        json_ok(j),
        j is List || j is Object,
        no_comments(first_gap(j)),
    ensures
        json_extractor::plausible(b, at + 1, b[at]),
{
    let g = first_gap(j);
    let x = gap_bytes(g);
    match j {
        Json::List(items) => {
            let w = items_bytes(*items);
            lemma_parts(b, at, seq![0x5bu8] + w, seq![0x5du8]);
            lemma_parts(b, at, seq![0x5bu8], w);
            assert(seq![0x5bu8][0] == 0x5b && seq![0x5du8][0] == 0x5d);
            assert(b[at + 0] == 0x5b);
            let e = at + (seq![0x5bu8] + w).len();
            assert(b[e + 0] == 0x5d);
            match *items {
                Items::Nothing(_) => {},
                Items::Last(_, v, h) => {
                    lemma_parts(b, at + 1, x, json_bytes(v) + gap_bytes(h));
                    lemma_parts(b, at + 1 + x.len(), json_bytes(v), gap_bytes(h));
                    lemma_first_byte(v);
                    assert(b[at + 1 + x.len() + 0] == json_bytes(v)[0]);
                },
                Items::More(_, v, h, more) => {
                    let rest = gap_bytes(h) + (seq![0x2cu8] + items_bytes(*more));
                    lemma_parts(b, at + 1, x, json_bytes(v) + rest);
                    lemma_parts(b, at + 1 + x.len(), json_bytes(v), rest);
                    lemma_first_byte(v);
                    assert(b[at + 1 + x.len() + 0] == json_bytes(v)[0]);
                },
            }
        },
        Json::Object(members) => {
            let w = members_bytes(*members);
            lemma_parts(b, at, seq![0x7bu8] + w, seq![0x7du8]);
            lemma_parts(b, at, seq![0x7bu8], w);
            assert(seq![0x7bu8][0] == 0x7b && seq![0x7du8][0] == 0x7d);
            assert(b[at + 0] == 0x7b);
            let e = at + (seq![0x7bu8] + w).len();
            assert(b[e + 0] == 0x7d);
            match *members {
                Members::Nothing(_) => {},
                Members::Last(_, key, h, i, v, k) => {
                    let rest = gap_bytes(h) + (seq![0x3au8] + (gap_bytes(i) + (json_bytes(v)
                        + gap_bytes(k))));
                    lemma_parts(b, at + 1, x, quoted(key) + rest);
                    lemma_parts(b, at + 1 + x.len(), quoted(key), rest);
                    assert(quoted(key)[0] == 0x22);
                    assert(b[at + 1 + x.len() + 0] == 0x22);
                },
                Members::More(_, key, h, i, v, k, more) => {
                    let rest = gap_bytes(h) + (seq![0x3au8] + (gap_bytes(i) + (json_bytes(v) + (
                    gap_bytes(k) + (seq![0x2cu8] + members_bytes(*more))))));
                    lemma_parts(b, at + 1, x, quoted(key) + rest);
                    lemma_parts(b, at + 1 + x.len(), quoted(key), rest);
                    assert(quoted(key)[0] == 0x22);
                    assert(b[at + 1 + x.len() + 0] == 0x22);
                },
            }
        },
        _ => {},
    }
    lemma_past_gap(b, at + 1, g);
}

/// Where prose that leads in ends, the next brace or bracket opens.
proof fn lemma_starts(b: Seq<u8>, p: Prose)
    requires
        stands(b, 0, prose_bytes(p)),
        prose_ok(p),
        leads_in(prose_bytes(p)),
        prose_bytes(p).len() < b.len(),
        is_open(b[prose_bytes(p).len() as int]),
    ensures
        json_extractor::json_start(b) == Some(prose_bytes(p).len() as int),
        json_extractor::bom_len(b) == 0,
{
    let x = prose_bytes(p);
    let n = x.len() as int;
    if n > 0 {
        assert(b[0int + 0int] == x[0]);
        assert(b[0int + (n - 1)] == x[n - 1]);
    }
    lemma_pass_prose(b, 0, p, 0);
    assert(json_extractor::opens(b, 0, n));
}

/// Every JSON list and object is found whole, from its opening delimiter to
/// the one that closes it: nested as deep as may be, with any strings, numbers
/// and words in it, with white space and comments between its tokens, behind
/// any prose that leads in, and whatever follows. Only right behind its
/// opening delimiter must there be no comment.
pub proof fn law_json_is_found(p: Prose, j: Json, tail: Seq<u8>)
    requires
        prose_ok(p),
        leads_in(prose_bytes(p)),
        json_ok(j),
        j is List || j is Object,
        no_comments(first_gap(j)),
    ensures
        json_extractor::json_range(prose_bytes(p) + json_bytes(j) + tail) == Some(
            (
                prose_bytes(p).len() as int,
                (prose_bytes(p).len() + json_bytes(j).len()) as int,
            ),
        ),
{
    let x = prose_bytes(p);
    let y = json_bytes(j);
    let b = x + y + tail;
    let n = x.len() as int;
    assert(stands(b, 0, x + y + tail));
    lemma_parts(b, 0, x + y, tail);
    lemma_parts(b, 0, x, y);
    let w = inside(j);
    match j {
        Json::List(items) => {
            lemma_parts(b, n, seq![0x5bu8] + w, seq![0x5du8]);
            lemma_parts(b, n, seq![0x5bu8], w);
            assert(seq![0x5bu8][0] == 0x5b && seq![0x5du8][0] == 0x5d);
            assert(b[n + 0] == 0x5b);
            let e = n + 1 + w.len();
            assert(b[e + 0] == 0x5d);
            lemma_pass_items(b, n + 1, *items, 1, 0x5b);
            assert(json_extractor::closing(b, e, Lex::Code, 1, 0x5b) == Some(e + 1));
        },
        Json::Object(members) => {
            lemma_parts(b, n, seq![0x7bu8] + w, seq![0x7du8]);
            lemma_parts(b, n, seq![0x7bu8], w);
            assert(seq![0x7bu8][0] == 0x7b && seq![0x7du8][0] == 0x7d);
            assert(b[n + 0] == 0x7b);
            let e = n + 1 + w.len();
            assert(b[e + 0] == 0x7d);
            lemma_pass_members(b, n + 1, *members, 1, 0x7b);
            assert(json_extractor::closing(b, e, Lex::Code, 1, 0x7b) == Some(e + 1));
        },
        _ => {},
    }
    lemma_starts(b, p);
    lemma_plausible(b, n, j);
}

/// Prose alone holds no JSON.
pub proof fn law_prose_holds_no_json(p: Prose)
    requires
        prose_ok(p),
        prose_bytes(p).len() > 0 ==> prose_bytes(p)[0] != 0xef,
    ensures
        json_extractor::json_start(prose_bytes(p)) is None,
        json_extractor::json_range(prose_bytes(p)) is None,
{
    lemma_pass_prose(prose_bytes(p), 0, p, 0);
}

/// A byte that no JSON value begins with, and that does not close the
/// delimiter `open` either.
pub open spec fn cannot_follow(open: u8, c: u8) -> bool {
    if open == 0x7b {
        c != 0x22 && c != 0x7d && c != 0x7b
    } else {
        &&& c != 0x22 && c != 0x5d && c != 0x5b && c != 0x7b
        &&& c != 0x2d && c != 0x2b && c != 0x2e && !(0x30 <= c <= 0x39)
        &&& c != 0x74 && c != 0x66 && c != 0x6e
    }
}

/// A brace or bracket that opens, but is followed by something with which no
/// value goes on, is not taken for one, and neither is anything behind it.
pub proof fn law_implausible_is_refused(p: Prose, open: u8, g: Gap, c: u8, tail: Seq<u8>)
    requires
        prose_ok(p),
        leads_in(prose_bytes(p)),
        open == 0x7b || open == 0x5b,
        gap_ok(g),
        no_comments(g),
        c > 0x20,
        cannot_follow(open, c),
    ensures
        ({
            let b = prose_bytes(p) + (seq![open] + (gap_bytes(g) + (seq![c] + tail)));
            &&& json_extractor::json_start(b) == Some(prose_bytes(p).len() as int)
            &&& json_extractor::json_range(b) is None
        }),
{
    let x = prose_bytes(p);
    let n = x.len() as int;
    let y = gap_bytes(g);
    let b = x + (seq![open] + (y + (seq![c] + tail)));
    assert(stands(b, 0, x + (seq![open] + (y + (seq![c] + tail)))));
    lemma_parts(b, 0, x, seq![open] + (y + (seq![c] + tail)));
    lemma_parts(b, n, seq![open], y + (seq![c] + tail));
    lemma_parts(b, n + 1, y, seq![c] + tail);
    lemma_parts(b, n + 1 + y.len(), seq![c], tail);
    assert(seq![open][0] == open && seq![c][0] == c);
    assert(b[n + 0] == open);
    assert(b[n + 1 + y.len() + 0] == c);
    lemma_starts(b, p);
    lemma_past_gap(b, n + 1, g);
}

// ---------------------------------------------------------------------------
// Text that is balanced, but need not be JSON
// ---------------------------------------------------------------------------

/// Text between delimiters.
pub enum Code {
    /// Nothing.
    Empty,
    /// A byte that is no quote, no slash and no delimiter, then more.
    Plain(u8, Box<Code>),
    /// A quotation, then more.
    Quote(Seq<u8>, Box<Code>),
    /// Text in brackets, then more.
    Brackets(Box<Code>, Box<Code>),
    /// Text in braces, then more.
    Braces(Box<Code>, Box<Code>),
}

/// Text between delimiters, as it is written.
pub open spec fn code_bytes(x: Code) -> Seq<u8>
    decreases x,
{
    match x {
        Code::Empty => Seq::empty(),
        Code::Plain(c, more) => seq![c] + code_bytes(*more),
        Code::Quote(s, more) => quoted(s) + code_bytes(*more),
        Code::Brackets(y, more) => seq![0x5bu8] + (code_bytes(*y) + (seq![0x5du8] + code_bytes(
            *more,
        ))),
        Code::Braces(y, more) => seq![0x7bu8] + (code_bytes(*y) + (seq![0x7du8] + code_bytes(
            *more,
        ))),
    }
}

/// Each part of the text is what it says.
pub open spec fn code_ok(x: Code) -> bool
    decreases x,
{
    match x {
        Code::Empty => true,
        Code::Plain(c, more) => c != 0x22 && c != 0x2f && c != 0x7b && c != 0x7d && c != 0x5b && c
            != 0x5d && code_ok(*more),
        Code::Quote(s, more) => inner_ok(s) && code_ok(*more),
        Code::Brackets(y, more) => code_ok(*y) && code_ok(*more),
        Code::Braces(y, more) => code_ok(*y) && code_ok(*more),
    }
}

proof fn lemma_pass_code(b: Seq<u8>, i: int, x: Code, d: int, open: u8)
    requires
        stands(b, i, code_bytes(x)),
        code_ok(x),
        d >= 1,
        is_open(open),
    ensures
        json_extractor::closing(b, i, Lex::Code, d, open) == json_extractor::closing(
            b,
            i + code_bytes(x).len(),
            Lex::Code,
            d,
            open,
        ),
    decreases x,
{
    match x {
        Code::Empty => {},
        Code::Plain(c, more) => {
            lemma_parts(b, i, seq![c], code_bytes(*more));
            assert(seq![c][0] == c);
            assert(b[i + 0] == c);
            lemma_pass_byte(b, i, d, open);
            lemma_pass_code(b, i + 1, *more, d, open);
        },
        Code::Quote(s, more) => {
            lemma_parts(b, i, quoted(s), code_bytes(*more));
            lemma_pass_quoted(b, i, s, d, open, 0);
            lemma_pass_code(b, i + quoted(s).len(), *more, d, open);
        },
        Code::Brackets(y, more) => {
            let w = code_bytes(*y);
            let z = code_bytes(*more);
            lemma_parts(b, i, seq![0x5bu8], w + (seq![0x5du8] + z));
            lemma_parts(b, i + 1, w, seq![0x5du8] + z);
            lemma_parts(b, i + 1 + w.len(), seq![0x5du8], z);
            lemma_pass_open(b, i, 0x5b, d, open);
            lemma_pass_code(b, i + 1, *y, deeper(d, 0x5b, open), open);
            lemma_pass_close(b, i + 1 + w.len(), 0x5b, 0x5d, d, open);
            lemma_pass_code(b, i + 1 + w.len() + 1, *more, d, open);
        },
        Code::Braces(y, more) => {
            let w = code_bytes(*y);
            let z = code_bytes(*more);
            lemma_parts(b, i, seq![0x7bu8], w + (seq![0x7du8] + z));
            lemma_parts(b, i + 1, w, seq![0x7du8] + z);
            lemma_parts(b, i + 1 + w.len(), seq![0x7du8], z);
            lemma_pass_open(b, i, 0x7b, d, open);
            lemma_pass_code(b, i + 1, *y, deeper(d, 0x7b, open), open);
            lemma_pass_close(b, i + 1 + w.len(), 0x7b, 0x7d, d, open);
            lemma_pass_code(b, i + 1 + w.len() + 1, *more, d, open);
        },
    }
}

/// Text in braces or brackets is found whole where it is balanced, whatever
/// else it is, as long as a value could begin with the first byte behind the
/// opening delimiter: it is for the parser to say what is wrong with it.
pub proof fn law_balanced_text_is_found(p: Prose, open: u8, g: Gap, x: Code, tail: Seq<u8>)
    requires
        prose_ok(p),
        leads_in(prose_bytes(p)),
        open == 0x7b || open == 0x5b,
        gap_ok(g),
        no_comments(g),
        code_ok(x),
        code_bytes(x).len() > 0 ==> code_bytes(x)[0] > 0x20 && !cannot_follow(
            open,
            code_bytes(x)[0],
        ),
    ensures
        ({
            let close = if open == 0x7b {
                0x7du8
            } else {
                0x5du8
            };
            let value = seq![open] + (gap_bytes(g) + (code_bytes(x) + seq![close]));
            json_extractor::json_range(prose_bytes(p) + (value + tail)) == Some(
                (prose_bytes(p).len() as int, (prose_bytes(p).len() + value.len()) as int),
            )
        }),
{
    let close = if open == 0x7b {
        0x7du8
    } else {
        0x5du8
    };
    let s = prose_bytes(p);
    let n = s.len() as int;
    let y = gap_bytes(g);
    let w = code_bytes(x);
    let value = seq![open] + (y + (w + seq![close]));
    let b = s + (value + tail);
    assert(stands(b, 0, s + (value + tail)));
    lemma_parts(b, 0, s, value + tail);
    lemma_parts(b, n, value, tail);
    lemma_parts(b, n, seq![open], y + (w + seq![close]));
    lemma_parts(b, n + 1, y, w + seq![close]);
    lemma_parts(b, n + 1 + y.len(), w, seq![close]);
    assert(seq![open][0] == open && seq![close][0] == close);
    assert(b[n + 0] == open);
    let e = n + 1 + y.len() + w.len();
    assert(b[e + 0] == close);
    if w.len() > 0 {
        assert(b[n + 1 + y.len() + 0] == w[0]);
    }
    lemma_starts(b, p);
    lemma_past_gap(b, n + 1, g);
    lemma_pass_gap(b, n + 1, g, 1, open);
    lemma_pass_code(b, n + 1 + y.len(), x, 1, open);
    assert(json_extractor::closing(b, e, Lex::Code, 1, open) == Some(e + 1));
}

proof fn lemma_pass_foreign(b: Seq<u8>, i: int, x: Seq<u8>, open: u8, close: u8)
    requires
        stands(b, i, x),
        (open == 0x7b && close == 0x7d) || (open == 0x5b && close == 0x5d),
        forall|k: int|
            0 <= k < x.len() ==> #[trigger] x[k] != 0x22 && x[k] != 0x2f && x[k] != open && x[k]
                != close,
    ensures
        json_extractor::closing(b, i, Lex::Code, 1, open) == json_extractor::closing(
            b,
            i + x.len(),
            Lex::Code,
            1,
            open,
        ),
    decreases x.len(),
{
    if x.len() > 0 {
        assert(b[i + 0] == x[0]);
        let t = x.skip(1);
        assert forall|k: int| 0 <= k < t.len() implies b[i + 1 + k] == #[trigger] t[k] && t[k] != 0x22
            && t[k] != 0x2f && t[k] != open && t[k] != close by {
            assert(x[k + 1] == t[k]);
            assert(b[i + (k + 1)] == x[k + 1]);
        }
        lemma_pass_foreign(b, i + 1, t, open, close);
    }
}

/// Only delimiters of its own kind count towards the balance of a value: those
/// of the other kind may stand in it in any number.
pub proof fn law_other_delimiters_do_not_count(open: u8, close: u8, x: Seq<u8>, tail: Seq<u8>)
    requires
        (open == 0x7b && close == 0x7d) || (open == 0x5b && close == 0x5d),
        forall|k: int|
            0 <= k < x.len() ==> #[trigger] x[k] != 0x22 && x[k] != 0x2f && x[k] != open && x[k]
                != close,
        x.len() > 0,
        x[0] > 0x20,
        !cannot_follow(open, x[0]),
    ensures
        json_extractor::json_range(seq![open] + (x + (seq![close] + tail))) == Some(
            (0int, x.len() + 2int),
        ),
{
    let b = seq![open] + (x + (seq![close] + tail));
    assert(stands(b, 0, b));
    lemma_parts(b, 0, seq![open], x + (seq![close] + tail));
    lemma_parts(b, 1, x, seq![close] + tail);
    lemma_parts(b, 1int + x.len(), seq![close], tail);
    assert(seq![open][0] == open && seq![close][0] == close);
    assert(b[0int + 0int] == open);
    assert(b[1int + 0int] == x[0]);
    let e = 1 + x.len() as int;
    assert(b[e + 0] == close);
    assert(json_extractor::json_start(b) == Some(0int));
    lemma_pass_foreign(b, 1, x, open, close);
    assert(json_extractor::past_white(b, 1) == 1);
    assert(json_extractor::closing(b, e, Lex::Code, 1, open) == Some(e + 1));
}

} // verus!
