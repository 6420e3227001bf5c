//! What trimming, searching, lower-casing, reading numbers and ordering do to
//! every text.

use vstd::prelude::*;

use crate::text;

verus! {

/// All of `s` is white space.
pub open spec fn blank(s: Seq<char>) -> bool {
    forall|i: int| 0 <= i < s.len() ==> text::is_white(#[trigger] s[i])
}

/// White space among the ASCII characters is the space and the five controls
/// from the tab to the carriage return. No printed ASCII character is white.
pub proof fn law_white_space(c: char)
    ensures
        (c as u32) < 0x80 ==> (text::is_white(c) <==> c == ' ' || ('\t' <= c <= '\r')),
        '!' <= c <= '~' ==> !text::is_white(c),
        c == '\u{a0}' || c == '\u{85}' || c == '\u{1680}' || c == '\u{2028}' || c == '\u{2029}' || c
            == '\u{202f}' || c == '\u{205f}' || c == '\u{3000}' || '\u{2000}' <= c <= '\u{200a}'
            ==> text::is_white(c),
        c == '\u{200b}' || c == '\u{feff}' || c == '\u{180e}' || c == '\u{2060}' ==> !text::is_white(
            c,
        ),
{
}

/// White space in front of a text is trimmed off.
pub proof fn lemma_trim_start(a: Seq<char>, s: Seq<char>)
    requires
        blank(a),
        s.len() > 0 ==> !text::is_white(s[0]),
    ensures
        text::trim_start(a + s) == s,
    decreases a.len(),
{
    if a.len() == 0 {
        assert(a + s =~= s);
    } else {
        assert(text::is_white(a[0]));
        assert((a + s)[0] == a[0]);
        assert((a + s).skip(1) =~= a.skip(1) + s);
        assert(blank(a.skip(1))) by {
            assert forall|i: int| 0 <= i < a.skip(1).len() implies text::is_white(
                #[trigger] a.skip(1)[i],
            ) by {
                assert(text::is_white(a[i + 1]));
            }
        }
        lemma_trim_start(a.skip(1), s);
    }
}

proof fn lemma_trim_end(s: Seq<char>, b: Seq<char>)
    requires
        blank(b),
        s.len() > 0 ==> !text::is_white(s.last()),
    ensures
        text::trim_end(s + b) == s,
    decreases b.len(),
{
    if b.len() == 0 {
        assert(s + b =~= s);
    } else {
        assert(text::is_white(b[b.len() - 1]));
        assert((s + b).last() == b.last());
        assert((s + b).drop_last() =~= s + b.drop_last());
        assert(blank(b.drop_last())) by {
            assert forall|i: int| 0 <= i < b.drop_last().len() implies text::is_white(
                #[trigger] b.drop_last()[i],
            ) by {
                assert(text::is_white(b[i]));
            }
        }
        lemma_trim_end(s, b.drop_last());
    }
}

/// Trimming takes away the white space around a text, all of it, and nothing
/// of the text.
pub proof fn law_trim(a: Seq<char>, s: Seq<char>, b: Seq<char>)
    requires
        blank(a),
        blank(b),
        s.len() > 0 ==> !text::is_white(s[0]) && !text::is_white(s.last()),
    ensures
        text::trim(a + s + b) == s,
        text::trim_start(a + s) == s,
        text::trim_end(s + b) == s,
{
    lemma_trim_start(a, s);
    lemma_trim_end(s, b);
    if s.len() > 0 {
        assert(a + s + b =~= a + (s + b));
        assert((s + b)[0] == s[0]);
        lemma_trim_start(a, s + b);
    } else {
        assert(a + s + b =~= (a + b) + s);
        assert(blank(a + b)) by {
            assert forall|i: int| 0 <= i < (a + b).len() implies text::is_white(
                #[trigger] (a + b)[i],
            ) by {
                if i < a.len() {
                    assert(text::is_white(a[i]));
                } else {
                    assert(text::is_white(b[i - a.len()]));
                }
            }
        }
        lemma_trim_start(a + b, s);
        lemma_trim_end(s, Seq::empty());
        assert(s + Seq::<char>::empty() =~= s);
    }
}

/// `n` times the character `c`.
pub open spec fn run(c: char, n: nat) -> Seq<char> {
    Seq::new(n, |i: int| c)
}

/// Trimming a character takes away the run of it at the one end, all of it,
/// and nothing else.
pub proof fn law_trim_char(c: char, n: nat, s: Seq<char>)
    ensures
        s.len() > 0 ==> s[0] != c ==> text::trim_start_char(run(c, n) + s, c) == s,
        s.len() > 0 ==> s.last() != c ==> text::trim_end_char(s + run(c, n), c) == s,
        text::trim_start_char(run(c, n), c) == Seq::<char>::empty(),
        text::trim_end_char(run(c, n), c) == Seq::<char>::empty(),
    decreases n,
{
    let r = run(c, n);
    if n == 0 {
        assert(r + s =~= s);
        assert(s + r =~= s);
    } else {
        let less = run(c, (n - 1) as nat);
        law_trim_char(c, (n - 1) as nat, s);
        assert(r.skip(1) =~= less);
        assert(r.drop_last() =~= less);
        assert((r + s)[0] == c);
        assert((r + s).skip(1) =~= less + s);
        assert((s + r).last() == c);
        assert((s + r).drop_last() =~= s + less);
    }
}

/// A text occurs in another one exactly where that one is made of something,
/// the text, and something more.
pub proof fn law_occurs(hay: Seq<char>, needle: Seq<char>)
    ensures
        text::occurs(hay, needle) <==> exists|a: Seq<char>, b: Seq<char>|
            hay == #[trigger] (a + needle + b),
{
    if text::occurs(hay, needle) {
        let i = choose|i: int| text::stands_at(hay, needle, i);
        let a = hay.take(i);
        let b = hay.skip(i + needle.len());
        assert(hay =~= a + needle + b) by {
            assert forall|k: int| 0 <= k < hay.len() implies hay[k] == (a + needle + b)[k] by {
                if i <= k < i + needle.len() {
                    assert(hay.subrange(i, i + needle.len())[k - i] == needle[k - i]);
                }
            }
        }
    }
    if exists|a: Seq<char>, b: Seq<char>| hay == #[trigger] (a + needle + b) {
        let (a, b) = choose|a: Seq<char>, b: Seq<char>| hay == #[trigger] (a + needle + b);
        lemma_stands(a, needle, b);
    }
}

proof fn lemma_stands(a: Seq<char>, needle: Seq<char>, b: Seq<char>)
    ensures
        text::stands_at(a + needle + b, needle, a.len() as int),
{
    let hay = a + needle + b;
    assert(hay.subrange(a.len() as int, (a.len() + needle.len()) as int) =~= needle);
}

/// What follows the first occurrence of a separator is what was put behind
/// it, where the separator does not occur earlier.
pub proof fn law_tail_after(a: Seq<char>, sep: Seq<char>, b: Seq<char>)
    requires
        sep.len() > 0,
        forall|i: int| 0 <= i < a.len() ==> #[trigger] a[i] != sep[0],
    ensures
        text::tail_after(a + sep + b, sep) == Some(b),
{
    let s = a + sep + b;
    lemma_stands(a, sep, b);
    assert forall|j: int| 0 <= j < a.len() implies !text::stands_at(s, sep, j) by {
        if text::stands_at(s, sep, j) {
            assert(s.subrange(j, j + sep.len())[0] == s[j]);
            assert(s[j] == a[j]);
        }
    }
    text::lemma_index_of(s, sep, a.len() as int);
    assert(s.skip((a.len() + sep.len()) as int) =~= b);
}

/// A text without the separator has nothing behind it.
pub proof fn law_no_tail(s: Seq<char>, sep: Seq<char>)
    requires
        sep.len() > 0,
        forall|i: int| 0 <= i < s.len() ==> #[trigger] s[i] != sep[0],
    ensures
        text::tail_after(s, sep) is None,
{
    if text::occurs(s, sep) {
        let i = choose|i: int| text::stands_at(s, sep, i);
        assert(s.subrange(i, i + sep.len())[0] == s[i]);
    }
}

/// Prefixes and suffixes are what a text begins and ends with.
pub proof fn law_prefix_and_suffix(a: Seq<char>, b: Seq<char>)
    ensures
        text::has_prefix(a + b, a),
        text::has_suffix(a + b, b),
{
    assert((a + b).take(a.len() as int) =~= a);
    assert((a + b).skip((a + b).len() - b.len()) =~= b);
}

/// Lower-casing maps the letters `A` to `Z` onto `a` to `z`, in order, and
/// keeps every other character. Upper-casing does the reverse.
pub proof fn law_case(s: Seq<char>, i: int)
    requires
        0 <= i < s.len(),
    ensures
        text::lower(s).len() == s.len(),
        text::upper(s).len() == s.len(),
        'A' <= s[i] <= 'Z' ==> text::lower(s)[i] as int - 'a' as int == s[i] as int - 'A' as int,
        'a' <= s[i] <= 'z' ==> text::upper(s)[i] as int - 'A' as int == s[i] as int - 'a' as int,
        !('A' <= s[i] <= 'Z') ==> text::lower(s)[i] == s[i],
        !('a' <= s[i] <= 'z') ==> text::upper(s)[i] == s[i],
        text::lower(text::lower(s)) == text::lower(s),
        text::lower(text::upper(s)) == text::lower(s),
{
    assert forall|k: int| 0 <= k < s.len() implies text::lower(text::lower(s))[k] == text::lower(
        s,
    )[k] && text::lower(text::upper(s))[k] == text::lower(s)[k] by {}
    assert(text::lower(text::lower(s)) =~= text::lower(s));
    assert(text::lower(text::upper(s)) =~= text::lower(s));
}

/// A run of digits reads as in the decimal system: one more digit at its end
/// counts for itself, and what stands before it for ten times as much. A plus
/// sign in front changes nothing; an empty text, and one with anything but
/// digits behind that sign, read as nothing.
pub proof fn law_parsed(s: Seq<char>, d: char, max: nat)
    requires
        '0' <= d <= '9',
    ensures
        text::parsed(seq![d], 9) == Some((d as int - '0' as int) as nat),
        text::parsed(s, max) matches Some(n) ==> text::parsed(s.push(d), 10 * max + 9) == Some(
            (10 * n + (d as int - '0' as int)) as nat,
        ) && n <= max,
        text::parsed(Seq::empty(), max) is None,
        s.len() > 0 && s[0] != '+' ==> text::parsed(seq!['+'] + s, max) == text::parsed(s, max),
        (exists|i: int|
            0 <= i < s.len() && !('0' <= #[trigger] s[i] <= '9') && (i > 0 || s[i] != '+'))
            ==> text::parsed(s, max) is None,
{
    reveal_with_fuel(text::number, 2);
    let one = seq![d];
    assert(text::unsigned_part(one) == one);
    assert(one.drop_last() =~= Seq::<char>::empty());
    assert(text::all_digits(one));
    assert(text::number(one) == text::number(Seq::<char>::empty()) * 10 + text::digit_value(d));
    if text::parsed(s, max) is Some {
        let body = text::unsigned_part(s);
        assert(text::is_digit(body[0]));
        assert(text::unsigned_part(s.push(d)) =~= body.push(d));
        assert(body.push(d).drop_last() =~= body);
        assert(text::all_digits(body.push(d)));
    }
    assert(text::unsigned_part(seq!['+'] + s) =~= s);
    if exists|i: int| 0 <= i < s.len() && !('0' <= #[trigger] s[i] <= '9') && (i > 0 || s[i] != '+') {
        let i = choose|i: int|
            0 <= i < s.len() && !('0' <= #[trigger] s[i] <= '9') && (i > 0 || s[i] != '+');
        let body = text::unsigned_part(s);
        if s[0] == '+' {
            assert(body[i - 1] == s[i]);
        } else {
            assert(body[i] == s[i]);
        }
    }
}

/// A number in decimal form ends in its last digit, and what stands before
/// that is the decimal form of its tenth.
pub proof fn law_decimal(n: nat, d: nat)
    requires
        d < 10,
    ensures
        text::decimal(d) == seq![(('0' as int + d) as u32) as char],
        n > 0 ==> text::decimal(10 * n + d) == text::decimal(n) + text::decimal(d),
{
    if n > 0 {
        assert((10 * n + d) / 10 == n);
        assert((10 * n + d) % 10 == d);
        assert(text::decimal(10 * n + d) =~= text::decimal(n) + text::decimal(d));
    }
}

/// The order of texts goes by the first character in which they differ, and a
/// text comes before every longer one that it begins.
pub proof fn law_order(p: Seq<char>, x: char, a: Seq<char>, y: char, b: Seq<char>)
    ensures
        x != y ==> (text::precedes(p + seq![x] + a, p + seq![y] + b) <==> x < y),
        text::precedes(p, p + seq![x] + a),
        !text::precedes(p + seq![x] + a, p),
        !text::precedes(p, p),
    decreases p.len(),
{
    let l = p + seq![x] + a;
    let r = p + seq![y] + b;
    if p.len() > 0 {
        law_order(p.skip(1), x, a, y, b);
        assert(l.skip(1) =~= p.skip(1) + seq![x] + a);
        assert(r.skip(1) =~= p.skip(1) + seq![y] + b);
        assert(l[0] == p[0] && r[0] == p[0]);
    } else {
        assert(l[0] == x && r[0] == y);
    }
}

proof fn lemma_blank_parts(s: Seq<char>)
    requires
        !blank(s),
    ensures
        text::is_white(s[0]) ==> !blank(s.skip(1)),
        text::is_white(s.last()) ==> !blank(s.drop_last()),
{
    let i = choose|i: int| 0 <= i < s.len() && !text::is_white(#[trigger] s[i]);
    if text::is_white(s[0]) {
        assert(s.skip(1)[i - 1] == s[i]);
    }
    if text::is_white(s.last()) {
        assert(s.drop_last()[i] == s[i]);
    }
}

/// Trimming leaves something of a text that is not blank.
pub proof fn lemma_trim_keeps_print(s: Seq<char>)
    requires
        !blank(s),
    ensures
        text::trim(s).len() > 0,
{
    lemma_start_keeps_print(s);
    lemma_end_keeps_print(text::trim_start(s));
}

proof fn lemma_start_keeps_print(s: Seq<char>)
    requires
        !blank(s),
    ensures
        !blank(text::trim_start(s)),
    decreases s.len(),
{
    lemma_blank_parts(s);
    if s.len() > 0 && text::is_white(s[0]) {
        lemma_start_keeps_print(s.skip(1));
    }
}

proof fn lemma_end_keeps_print(s: Seq<char>)
    requires
        !blank(s),
    ensures
        text::trim_end(s).len() > 0,
    decreases s.len(),
{
    lemma_blank_parts(s);
    if s.len() > 0 && text::is_white(s.last()) {
        lemma_end_keeps_print(s.drop_last());
    }
}

/// The texts of a list stand in its order.
pub proof fn law_views(list: Seq<String>, i: int)
    requires
        0 <= i < list.len(),
    ensures
        text::views(list).len() == list.len(),
        text::views(list)[i] == list[i]@,
{
}

/// A number above the largest one that is allowed reads as nothing.
pub proof fn law_too_large(n: nat, max: nat)
    requires
        n > max,
    ensures
        text::parsed(text::decimal(n), max) is None,
{
    text::lemma_decimal(n);
    let s = text::decimal(n);
    assert(text::is_digit(s[0]));
    assert(text::unsigned_part(s) == s);
}

} // verus!
