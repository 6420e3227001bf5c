//! Tolerant JSON extraction for model replies that wrap their JSON in prose.
//!
//! The scan walks the bytes of the reply once, skips JavaScript comments and
//! everything inside string literals, finds the first opening delimiter and
//! then its matching close. Offsets are byte offsets into the input, so the
//! caller can slice the input with them.

use vstd::prelude::*;
use vstd::string::*;
use vstd::utf8::*;

use crate::json;
use crate::json_strategy::JsonRecoveryStrategy;
use crate::text;
use crate::text_laws;
use crate::wire::Request;

verus! {

/// Errors of [`extract_tolerant_json`] and [`extract_and_parse`].
#[derive(Debug, Clone, PartialEq, Eq)]
pub enum ExtractError {
    /// No opening delimiter was found.
    NoJsonFound,
    /// An opening delimiter was found, but nothing plausible follows it or
    /// its matching close is missing.
    UnbalancedBraces,
    /// The extracted text is not JSON; holds the parser's message.
    ParseFailed(String),
}

impl ExtractError {
    /// The message shown to a user.
    pub open spec fn text(&self) -> Seq<char> {
        match self {
            ExtractError::NoJsonFound => "no JSON delimiter found in input"@,
            ExtractError::UnbalancedBraces => "unbalanced braces in candidate JSON"@,
            ExtractError::ParseFailed(m) => "JSON parse failed: "@ + m@,
        }
    }

    /// Renders the error for a user.
    pub fn to_string(&self) -> (r: String)
        ensures
            r@ == self.text(),
    {
        match self {
            ExtractError::NoJsonFound => "no JSON delimiter found in input".to_owned(),
            ExtractError::UnbalancedBraces => "unbalanced braces in candidate JSON".to_owned(),
            ExtractError::ParseFailed(m) => "JSON parse failed: ".to_owned().concat(m.as_str()),
        }
    }
}

// ---------------------------------------------------------------------------
// The lexical model
// ---------------------------------------------------------------------------

/// Where a scan stands.
#[derive(Clone, Copy, PartialEq, Eq, Structural)]
pub enum Lex {
    /// Outside any string literal.
    Code,
    /// Inside a string literal.
    Text,
    /// Inside a string literal, right behind a backslash.
    Escaped,
}

/// A byte that is white space by itself: ASCII white space.
pub open spec fn white_byte(b: u8) -> bool {
    0x09 <= b <= 0x0d || b == 0x20
}

/// Two bytes that encode a white-space character: U+0085 or U+00A0.
pub open spec fn white_pair(a: u8, b: u8) -> bool {
    a == 0xc2 && (b == 0x85 || b == 0xa0)
}

/// Three bytes that encode a white-space character: U+1680, U+2000 to U+200A,
/// U+2028, U+2029, U+202F, U+205F or U+3000.
pub open spec fn white_triple(a: u8, b: u8, c: u8) -> bool {
    ||| a == 0xe1 && b == 0x9a && c == 0x80
    ||| a == 0xe2 && b == 0x80 && (0x80 <= c <= 0x8a || c == 0xa8 || c == 0xa9 || c == 0xaf)
    ||| a == 0xe2 && b == 0x81 && c == 0x9f
    ||| a == 0xe3 && b == 0x80 && c == 0x80
}

/// The bytes from `lo` up to `i` end with a white-space character.
pub open spec fn white_before(b: Seq<u8>, lo: int, i: int) -> bool {
    ||| lo <= i - 1 && white_byte(b[i - 1])
    ||| lo <= i - 2 && white_pair(b[i - 2], b[i - 1])
    ||| lo <= i - 3 && white_triple(b[i - 3], b[i - 2], b[i - 1])
}

/// The first newline at or behind `i`, or the end of the input.
pub open spec fn line_end(b: Seq<u8>, i: int) -> int
    decreases b.len() - i,
{
    if i >= b.len() {
        b.len() as int
    } else if b[i] == 10 {
        i
    } else {
        line_end(b, i + 1)
    }
}

/// Just past the first `*/` at or behind `i`, or the end of the input.
pub open spec fn block_end(b: Seq<u8>, i: int) -> int
    decreases b.len() - i,
{
    if i + 1 >= b.len() {
        b.len() as int
    } else if b[i] == 42 && b[i + 1] == 47 {
        i + 2
    } else {
        block_end(b, i + 1)
    }
}

/// Where the comment that begins at `i` ends, if one begins there. A line
/// comment ends before its newline.
pub open spec fn comment_end(b: Seq<u8>, i: int) -> Option<int> {
    if i + 1 < b.len() && b[i] == 47 && b[i + 1] == 47 {
        Some(line_end(b, i + 2))
    } else if i + 1 < b.len() && b[i] == 47 && b[i + 1] == 42 {
        Some(block_end(b, i + 2))
    } else {
        None
    }
}

/// Offset `i` holds a byte of code: it lies outside string literals and no
/// comment begins there.
pub open spec fn structural(b: Seq<u8>, i: int, lex: Lex) -> bool {
    lex == Lex::Code && comment_end(b, i) is None
}

/// One step of the scan: where it goes from offset `i`, and in which state.
pub open spec fn step(b: Seq<u8>, i: int, lex: Lex) -> (int, Lex) {
    if lex == Lex::Code && comment_end(b, i) is Some {
        (comment_end(b, i)->0, Lex::Code)
    } else if lex == Lex::Escaped {
        (i + 1, Lex::Text)
    } else if lex == Lex::Text && b[i] == 92 {
        (i + 1, Lex::Escaped)
    } else if b[i] == 34 {
        (i + 1, if lex == Lex::Code { Lex::Text } else { Lex::Code })
    } else {
        (i + 1, lex)
    }
}

proof fn lemma_line_end(b: Seq<u8>, i: int)
    requires
        0 <= i <= b.len(),
    ensures
        i <= line_end(b, i) <= b.len(),
    decreases b.len() - i,
{
    if i < b.len() && b[i] != 10 {
        lemma_line_end(b, i + 1);
    }
}

proof fn lemma_block_end(b: Seq<u8>, i: int)
    requires
        0 <= i <= b.len(),
    ensures
        i <= block_end(b, i) <= b.len(),
    decreases b.len() - i,
{
    if i + 1 < b.len() && !(b[i] == 42 && b[i + 1] == 47) {
        lemma_block_end(b, i + 1);
    }
}

/// A step goes forward and stays within the input.
pub proof fn lemma_step(b: Seq<u8>, i: int, lex: Lex)
    requires
        0 <= i < b.len(),
    ensures
        i < step(b, i, lex).0 <= b.len(),
{
    if comment_end(b, i) is Some {
        lemma_line_end(b, i + 2);
        lemma_block_end(b, i + 2);
    }
}

/// Offset `i` opens a JSON value in a scan that began at `start`: a brace or
/// bracket at the scan's start or behind white space.
pub open spec fn opens(b: Seq<u8>, start: int, i: int) -> bool {
    (b[i] == 123 || b[i] == 91) && (i <= start || white_before(b, start, i))
}

/// The first structural offset at or behind `i` that opens a JSON value.
pub open spec fn opening(b: Seq<u8>, start: int, i: int, lex: Lex) -> Option<int>
    decreases b.len() - i,
{
    if i < 0 || i >= b.len() {
        None
    } else if structural(b, i, lex) && opens(b, start, i) {
        Some(i)
    } else {
        proof {
            lemma_step(b, i, lex);
        }
        opening(b, start, step(b, i, lex).0, step(b, i, lex).1)
    }
}

/// The byte that closes `open`.
pub open spec fn closer(open: u8) -> u8 {
    if open == 123 {
        125
    } else {
        93
    }
}

/// The nesting depth behind offset `i`, counting `open` and its closer only.
pub open spec fn depth_after(b: Seq<u8>, i: int, lex: Lex, depth: int, open: u8) -> int {
    if structural(b, i, lex) && b[i] == open {
        depth + 1
    } else if structural(b, i, lex) && b[i] == closer(open) {
        depth - 1
    } else {
        depth
    }
}

/// Just past the structural offset at which the depth, `depth` at `i`,
/// returns to zero.
pub open spec fn closing(b: Seq<u8>, i: int, lex: Lex, depth: int, open: u8) -> Option<int>
    decreases b.len() - i,
{
    if i < 0 || i >= b.len() {
        None
    } else if depth_after(b, i, lex, depth, open) == 0 {
        Some(i + 1)
    } else {
        proof {
            lemma_step(b, i, lex);
        }
        closing(
            b,
            step(b, i, lex).0,
            step(b, i, lex).1,
            depth_after(b, i, lex, depth, open),
            open,
        )
    }
}

/// The first offset at or behind `i` that does not hold a byte of white space.
pub open spec fn past_white(b: Seq<u8>, i: int) -> int
    decreases b.len() - i,
{
    if 0 <= i < b.len() && white_byte(b[i]) {
        past_white(b, i + 1)
    } else {
        i
    }
}

/// `c` can stand right behind the opening delimiter `open`.
pub open spec fn can_follow(open: u8, c: u8) -> bool {
    if open == 123 {
        c == 34 || c == 123 || c == 125
    } else {
        ||| c == 34 || c == 123 || c == 91 || c == 93 || c == 45 || c == 43 || c == 46
        ||| c == 116 || c == 102 || c == 110
        ||| 48 <= c <= 57
    }
}

/// What follows the delimiter `open` at `i`, past white space, can begin or
/// end a JSON value.
pub open spec fn plausible(b: Seq<u8>, i: int, open: u8) -> bool {
    past_white(b, i) < b.len() && can_follow(open, b[past_white(b, i)])
}

/// The length of a leading UTF-8 byte order mark.
pub open spec fn bom_len(b: Seq<u8>) -> int {
    if b.len() >= 3 && b[0] == 0xef && b[1] == 0xbb && b[2] == 0xbf {
        3
    } else {
        0
    }
}

/// Where the first JSON value opens.
pub open spec fn json_start(b: Seq<u8>) -> Option<int> {
    opening(b, bom_len(b), bom_len(b), Lex::Code)
}

/// The range of the first JSON value.
pub open spec fn json_range(b: Seq<u8>) -> Option<(int, int)> {
    match json_start(b) {
        None => None,
        Some(i) => {
            if !plausible(b, i + 1, b[i]) {
                None
            } else {
                match closing(b, i + 1, Lex::Code, 1, b[i]) {
                    None => None,
                    Some(e) => Some((i, e)),
                }
            }
        },
    }
}

/// The text of the first JSON value.
pub open spec fn json_text(b: Seq<u8>) -> Option<Seq<char>> {
    match json_range(b) {
        Some((s, e)) => Some(decode_utf8(b.subrange(s, e))),
        None => None,
    }
}

// ---------------------------------------------------------------------------
// The scan
// ---------------------------------------------------------------------------

fn is_white_byte(b: u8) -> (r: bool)
    ensures
        r == white_byte(b),
{
    (0x09 <= b && b <= 0x0d) || b == 0x20
}

/// Whether the bytes from `lo` up to `i` end with a white-space character.
fn is_white_before(bytes: &[u8], lo: usize, i: usize) -> (r: bool)
    requires
        lo < i <= bytes@.len(),
    ensures
        r == white_before(bytes@, lo as int, i as int),
{
    let c: u8 = bytes[i - 1];
    if is_white_byte(c) {
        return true;
    }
    if i - lo < 2 {
        return false;
    }
    let b: u8 = bytes[i - 2];
    if b == 0xc2 && (c == 0x85 || c == 0xa0) {
        return true;
    }
    if i - lo < 3 {
        return false;
    }
    let a: u8 = bytes[i - 3];
    (a == 0xe1 && b == 0x9a && c == 0x80) || (a == 0xe2 && b == 0x80 && ((0x80 <= c && c <= 0x8a)
        || c == 0xa8 || c == 0xa9 || c == 0xaf)) || (a == 0xe2 && b == 0x81 && c == 0x9f) || (a
        == 0xe3 && b == 0x80 && c == 0x80)
}

/// The end of the comment that begins at `i`, if one begins there.
fn skip_js_comment(bytes: &[u8], i: usize) -> (r: Option<usize>)
    requires
        i < bytes@.len(),
    ensures
        match r {
            Some(j) => comment_end(bytes@, i as int) == Some(j as int),
            None => comment_end(bytes@, i as int) is None,
        },
{
    let n: usize = bytes.len();
    if n - i < 2 || bytes[i] != 47 {
        return None;
    }
    let kind: u8 = bytes[i + 1];
    let mut j: usize = i + 2;
    if kind == 47 {
        while j < n && bytes[j] != 10
            invariant
                i + 2 <= j <= n,
                n == bytes@.len(),
                line_end(bytes@, j as int) == line_end(bytes@, i + 2),
            ensures
                j == line_end(bytes@, i + 2),
                j <= n,
            decreases n - j,
        {
            j = j + 1;
        }
        Some(j)
    } else if kind == 42 {
        while n - j >= 2 && !(bytes[j] == 42 && bytes[j + 1] == 47)
            invariant
                i + 2 <= j <= n,
                n == bytes@.len(),
                block_end(bytes@, j as int) == block_end(bytes@, i + 2),
            ensures
                i + 2 <= j <= n,
                block_end(bytes@, j as int) == block_end(bytes@, i + 2),
                n - j >= 2 ==> bytes@[j as int] == 42 && bytes@[j + 1] == 47,
            decreases n - j,
        {
            j = j + 1;
        }
        if n - j >= 2 {
            Some(j + 2)
        } else {
            Some(n)
        }
    } else {
        None
    }
}

/// Takes one step of the scan from `i`.
fn advance(bytes: &[u8], i: usize, lex: Lex, comment: Option<usize>) -> (r: (usize, Lex))
    requires
        i < bytes@.len(),
        match comment {
            Some(j) => lex == Lex::Code && comment_end(bytes@, i as int) == Some(j as int),
            None => lex == Lex::Code ==> comment_end(bytes@, i as int) is None,
        },
    ensures
        (r.0 as int, r.1) == step(bytes@, i as int, lex),
        i < r.0 <= bytes@.len(),
{
    proof {
        lemma_step(bytes@, i as int, lex);
    }
    if let Some(j) = comment {
        return (j, Lex::Code);
    }
    let b: u8 = bytes[i];
    match lex {
        Lex::Escaped => (i + 1, Lex::Text),
        Lex::Text => {
            if b == 92 {
                (i + 1, Lex::Escaped)
            } else if b == 34 {
                (i + 1, Lex::Code)
            } else {
                (i + 1, Lex::Text)
            }
        },
        Lex::Code => {
            if b == 34 {
                (i + 1, Lex::Text)
            } else {
                (i + 1, Lex::Code)
            }
        },
    }
}

/// The first opening delimiter at or behind `start`.
fn find_first_json_delim(bytes: &[u8], start: usize) -> (r: Option<usize>)
    requires
        start <= bytes@.len(),
    ensures
        match r {
            Some(i) => opening(bytes@, start as int, start as int, Lex::Code) == Some(i as int)
                && i < bytes@.len(),
            None => opening(bytes@, start as int, start as int, Lex::Code) is None,
        },
{
    let mut i: usize = start;
    let mut lex = Lex::Code;
    while i < bytes.len()
        invariant
            start <= i <= bytes@.len(),
            opening(bytes@, start as int, i as int, lex) == opening(
                bytes@,
                start as int,
                start as int,
                Lex::Code,
            ),
        decreases bytes@.len() - i,
    {
        let comment = if lex == Lex::Code {
            skip_js_comment(bytes, i)
        } else {
            None
        };
        let b: u8 = bytes[i];
        if lex == Lex::Code && comment.is_none() && (b == 123 || b == 91) {
            if i <= start || is_white_before(bytes, start, i) {
                return Some(i);
            }
        }
        let (j, next) = advance(bytes, i, lex, comment);
        i = j;
        lex = next;
    }
    None
}

/// Whether what follows the delimiter `open` can begin or end a JSON value.
fn looks_like_json_after_open(bytes: &[u8], start: usize, open: u8) -> (r: bool)
    requires
        start <= bytes@.len(),
    ensures
        r == plausible(bytes@, start as int, open),
{
    let mut i: usize = start;
    while i < bytes.len() && is_white_byte(bytes[i])
        invariant
            start <= i <= bytes@.len(),
            past_white(bytes@, i as int) == past_white(bytes@, start as int),
        ensures
            i <= bytes@.len(),
            past_white(bytes@, start as int) == i,
        decreases bytes@.len() - i,
    {
        i = i + 1;
    }
    if i >= bytes.len() {
        return false;
    }
    let c: u8 = bytes[i];
    if open == 123 {
        c == 34 || c == 123 || c == 125
    } else {
        c == 34 || c == 123 || c == 91 || c == 93 || c == 45 || c == 43 || c == 46 || c == 116 || c
            == 102 || c == 110 || (48 <= c && c <= 57)
    }
}

/// Just past the close that matches the delimiter `open`, which stands right
/// before `start`.
fn find_balanced_end(bytes: &[u8], start: usize, open: u8) -> (r: Option<usize>)
    requires
        1 <= start <= bytes@.len(),
        open == 123 || open == 91,
    ensures
        match r {
            Some(e) => closing(bytes@, start as int, Lex::Code, 1, open) == Some(e as int) && e
                <= bytes@.len(),
            None => closing(bytes@, start as int, Lex::Code, 1, open) is None,
        },
{
    let close: u8 = if open == 123 {
        125
    } else {
        93
    };
    let n: usize = bytes.len();
    let mut depth: usize = 1;
    let mut i: usize = start;
    let mut lex = Lex::Code;
    while i < n
        invariant
            1 <= start <= i <= n,
            n == bytes@.len(),
            open == 123 || open == 91,
            close == closer(open),
            1 <= depth <= i - start + 1,
            closing(bytes@, i as int, lex, depth as int, open) == closing(
                bytes@,
                start as int,
                Lex::Code,
                1,
                open,
            ),
        decreases bytes@.len() - i,
    {
        let comment = if lex == Lex::Code {
            skip_js_comment(bytes, i)
        } else {
            None
        };
        let b: u8 = bytes[i];
        if lex == Lex::Code && comment.is_none() {
            if b == open {
                depth = depth + 1;
            } else if b == close {
                depth = depth - 1;
                if depth == 0 {
                    return Some(i + 1);
                }
            }
        }
        let (j, next) = advance(bytes, i, lex, comment);
        i = j;
        lex = next;
    }
    None
}

/// The byte range `[start, end)` of the first JSON value in `input`.
///
/// A leading byte order mark is skipped. The value must open at the start of
/// the scan or behind white space, and only delimiters of its own kind, out
/// of strings and comments, count towards its balance.
pub fn extract_tolerant_json(input: &str) -> (r: Result<(usize, usize), ExtractError>)
    ensures
        match r {
            Ok((s, e)) => json_range(input.spec_bytes()) == Some((s as int, e as int)),
            Err(ExtractError::NoJsonFound) => json_start(input.spec_bytes()) is None,
            Err(ExtractError::UnbalancedBraces) => json_start(input.spec_bytes()) is Some
                && json_range(input.spec_bytes()) is None,
            Err(ExtractError::ParseFailed(_)) => false,
        },
{
    let bytes = input.as_bytes();
    let offset: usize = if bytes.len() >= 3 && bytes[0] == 0xef && bytes[1] == 0xbb && bytes[2]
        == 0xbf {
        3
    } else {
        0
    };
    let start: usize = match find_first_json_delim(bytes, offset) {
        Some(i) => i,
        None => return Err(ExtractError::NoJsonFound),
    };
    proof {
        lemma_opening(bytes@, offset as int, offset as int, Lex::Code);
    }
    let open: u8 = bytes[start];
    if !looks_like_json_after_open(bytes, start + 1, open) {
        return Err(ExtractError::UnbalancedBraces);
    }
    match find_balanced_end(bytes, start + 1, open) {
        Some(e) => Ok((start, e)),
        None => Err(ExtractError::UnbalancedBraces),
    }
}

proof fn lemma_opening(b: Seq<u8>, start: int, i: int, lex: Lex)
    requires
        0 <= i,
    ensures
        opening(b, start, i, lex) matches Some(k) ==> i <= k < b.len() && opens(b, start, k)
            && comment_end(b, k) is None,
    decreases b.len() - i,
{
    if i < b.len() && !(structural(b, i, lex) && opens(b, start, i)) {
        lemma_step(b, i, lex);
        lemma_opening(b, start, step(b, i, lex).0, step(b, i, lex).1);
    }
}

proof fn lemma_closing(b: Seq<u8>, i: int, lex: Lex, depth: int, open: u8)
    requires
        0 <= i,
        depth >= 1,
    ensures
        closing(b, i, lex, depth, open) matches Some(e) ==> i < e <= b.len() && b[e - 1] == closer(
            open,
        ),
    decreases b.len() - i,
{
    if i < b.len() && depth_after(b, i, lex, depth, open) != 0 {
        lemma_step(b, i, lex);
        lemma_closing(
            b,
            step(b, i, lex).0,
            step(b, i, lex).1,
            depth_after(b, i, lex, depth, open),
            open,
        );
    }
}

/// The range of the first JSON value lies within the input, begins with a
/// brace or bracket and ends with the delimiter that closes it.
pub proof fn law_range_is_delimited(b: Seq<u8>)
    ensures
        json_range(b) matches Some((s, e)) ==> {
            &&& 0 <= s
            &&& s + 2 <= e <= b.len()
            &&& b[s] == 123 || b[s] == 91
            &&& b[e - 1] == closer(b[s])
        },
{
    lemma_opening(b, bom_len(b), bom_len(b), Lex::Code);
    if let Some(s) = json_start(b) {
        lemma_closing(b, s + 1, Lex::Code, 1, b[s]);
    }
}

proof fn lemma_boundary_after_ascii(b: Seq<u8>, k: int)
    requires
        valid_utf8(b),
        0 <= k < b.len(),
        b[k] < 0x80,
    ensures
        is_char_boundary(b, k + 1),
    decreases b.len(),
{
    reveal_with_fuel(is_char_boundary, 2);
    let n = length_of_first_scalar(b);
    let rest = pop_first_scalar(b);
    if k == 0 {
        assert(n == 1);
    } else {
        assert(k >= n);
        assert(rest[k - n] == b[k]);
        lemma_boundary_after_ascii(rest, k - n);
    }
}

/// Both ends of the range of the first JSON value are character boundaries,
/// so the input can be sliced with them.
pub proof fn law_range_is_sliceable(s: Seq<char>)
    ensures
        json_range(encode_utf8(s)) matches Some((from, to)) ==> is_char_boundary(
            encode_utf8(s),
            from,
        ) && is_char_boundary(encode_utf8(s), to),
{
    let b = encode_utf8(s);
    encode_utf8_valid_utf8(s);
    law_range_is_delimited(b);
    if let Some((from, to)) = json_range(b) {
        is_char_boundary_iff_not_is_continuation_byte(b, from);
        lemma_boundary_after_ascii(b, to - 1);
    }
}

proof fn lemma_prefix_line_end(b: Seq<u8>, c: Seq<u8>, i: int)
    requires
        0 <= i <= c.len() <= b.len(),
        c == b.take(c.len() as int),
        line_end(b, i) < c.len(),
    ensures
        line_end(c, i) == line_end(b, i),
    decreases b.len() - i,
{
    if i < c.len() {
        assert(c[i] == b[i]);
        if b[i] != 10 {
            lemma_prefix_line_end(b, c, i + 1);
        }
    } else {
        lemma_line_end(b, i);
    }
}

proof fn lemma_prefix_block_end(b: Seq<u8>, c: Seq<u8>, i: int)
    requires
        0 <= i <= c.len() <= b.len(),
        c == b.take(c.len() as int),
        block_end(b, i) < c.len(),
    ensures
        block_end(c, i) == block_end(b, i),
    decreases b.len() - i,
{
    if i + 1 < c.len() {
        assert(c[i] == b[i] && c[i + 1] == b[i + 1]);
        if !(b[i] == 42 && b[i + 1] == 47) {
            lemma_prefix_block_end(b, c, i + 1);
        }
    } else {
        lemma_block_end(b, i);
        if i + 1 < b.len() && !(b[i] == 42 && b[i + 1] == 47) {
            lemma_block_end(b, i + 1);
        }
    }
}

/// A scan that finds its close in `b` finds it in the prefix that ends there.
proof fn lemma_prefix_closing(b: Seq<u8>, c: Seq<u8>, i: int, lex: Lex, depth: int, open: u8)
    requires
        0 <= i <= c.len() <= b.len(),
        c == b.take(c.len() as int),
        depth >= 1,
        open == 123 || open == 91,
        closing(b, i, lex, depth, open) == Some(c.len() as int),
    ensures
        closing(c, i, lex, depth, open) == Some(c.len() as int),
    decreases b.len() - i,
{
    lemma_closing(b, i, lex, depth, open);
    assert(i < c.len());
    assert(forall|k: int| 0 <= k < c.len() ==> c[k] == b[k]);
    let e = c.len() as int;
    assert(b[e - 1] == 125 || b[e - 1] == 93);
    let d = depth_after(b, i, lex, depth, open);
    let (j, next) = step(b, i, lex);
    if d == 0 {
        assert(e == i + 1);
        assert(comment_end(c, i) is None);
    } else {
        lemma_step(b, i, lex);
        lemma_closing(b, j, next, d, open);
        assert(j < e);
        if i + 1 == e {
            assert(false);
        }
        if lex == Lex::Code && comment_end(b, i) is Some {
            if b[i + 1] == 47 {
                lemma_prefix_line_end(b, c, i + 2);
            } else {
                lemma_prefix_block_end(b, c, i + 2);
            }
        }
        assert(comment_end(c, i) == comment_end(b, i) || lex != Lex::Code);
        assert(step(c, i, lex) == (j, next));
        assert(depth_after(c, i, lex, depth, open) == d);
        lemma_prefix_closing(b, c, j, next, d, open);
    }
}

proof fn lemma_shift_line_end(b: Seq<u8>, s: int, i: int)
    requires
        0 <= s <= i <= b.len(),
    ensures
        line_end(b.skip(s), i - s) == line_end(b, i) - s,
    decreases b.len() - i,
{
    if i < b.len() && b[i] != 10 {
        lemma_shift_line_end(b, s, i + 1);
    }
}

proof fn lemma_shift_block_end(b: Seq<u8>, s: int, i: int)
    requires
        0 <= s <= i <= b.len(),
    ensures
        block_end(b.skip(s), i - s) == block_end(b, i) - s,
    decreases b.len() - i,
{
    if i + 1 < b.len() && !(b[i] == 42 && b[i + 1] == 47) {
        lemma_shift_block_end(b, s, i + 1);
    }
}

proof fn lemma_shift_closing(b: Seq<u8>, s: int, i: int, lex: Lex, depth: int, open: u8)
    requires
        0 <= s <= i <= b.len(),
    ensures
        closing(b.skip(s), i - s, lex, depth, open) == (match closing(b, i, lex, depth, open) {
            Some(e) => Some(e - s),
            None => None,
        }),
    decreases b.len() - i,
{
    let c = b.skip(s);
    if i < b.len() {
        assert(c[i - s] == b[i]);
        lemma_step(b, i, lex);
        if i + 1 < b.len() {
            assert(c[i + 1 - s] == b[i + 1]);
            lemma_shift_line_end(b, s, i + 2);
            lemma_shift_block_end(b, s, i + 2);
        }
        let (j, next) = step(b, i, lex);
        assert(step(c, i - s, lex) == (j - s, next));
        let d = depth_after(b, i, lex, depth, open);
        assert(depth_after(c, i - s, lex, depth, open) == d);
        if d != 0 {
            lemma_shift_closing(b, s, j, next, d, open);
        }
    }
}

proof fn lemma_past_white(b: Seq<u8>, c: Seq<u8>, s: int, i: int, e: int)
    requires
        0 <= s <= i < e <= b.len(),
        c == b.subrange(s, e),
        !white_byte(b[e - 1]),
    ensures
        past_white(c, i - s) == past_white(b, i) - s,
        i <= past_white(b, i) < e,
    decreases e - i,
{
    assert(c[i - s] == b[i]);
    if white_byte(b[i]) {
        lemma_past_white(b, c, s, i + 1, e);
    }
}

/// Extraction is idempotent: the extracted text is extracted whole.
pub proof fn law_extraction_is_idempotent(b: Seq<u8>)
    ensures
        json_range(b) matches Some((s, e)) ==> json_range(b.subrange(s, e)) == Some(
            (0int, e - s),
        ),
{
    law_range_is_delimited(b);
    if let Some((s, e)) = json_range(b) {
        let open = b[s];
        let c = b.subrange(s, e);
        let whole = b.take(e);
        assert(c[0] == open);
        assert(c[1] == b[s + 1]);
        lemma_opening(b, bom_len(b), bom_len(b), Lex::Code);
        assert(comment_end(c, 0) is None);
        assert(json_start(c) == Some(0int));
        lemma_past_white(b, c, s, s + 1, e);
        assert(plausible(c, 1, open));
        lemma_prefix_closing(b, whole, s + 1, Lex::Code, 1, open);
        lemma_shift_closing(whole, s, s + 1, Lex::Code, 1, open);
        assert(whole.skip(s) =~= c);
        assert(closing(c, 1, Lex::Code, 1, open) == Some(e - s));
    }
}

proof fn lemma_extend_line_end(b: Seq<u8>, c: Seq<u8>, i: int)
    requires
        0 <= i <= c.len() <= b.len(),
        c == b.take(c.len() as int),
        line_end(c, i) < c.len(),
    ensures
        line_end(b, i) == line_end(c, i),
    decreases c.len() - i,
{
    assert(c[i] == b[i]);
    if c[i] != 10 {
        lemma_extend_line_end(b, c, i + 1);
    }
}

proof fn lemma_extend_block_end(b: Seq<u8>, c: Seq<u8>, i: int)
    requires
        0 <= i <= c.len() <= b.len(),
        c == b.take(c.len() as int),
        block_end(c, i) < c.len(),
    ensures
        block_end(b, i) == block_end(c, i),
    decreases c.len() - i,
{
    assert(c[i] == b[i] && c[i + 1] == b[i + 1]);
    if !(c[i] == 42 && c[i + 1] == 47) {
        lemma_extend_block_end(b, c, i + 1);
    }
}

/// A step of the scan that ends inside a prefix is the same in the whole.
proof fn lemma_extend_step(b: Seq<u8>, c: Seq<u8>, i: int, lex: Lex)
    requires
        0 <= i < c.len() <= b.len(),
        c == b.take(c.len() as int),
        step(c, i, lex).0 < c.len(),
    ensures
        step(b, i, lex) == step(c, i, lex),
        structural(b, i, lex) == structural(c, i, lex),
{
    lemma_step(c, i, lex);
    assert(c[i] == b[i] && c[i + 1] == b[i + 1]);
    if lex == Lex::Code && comment_end(c, i) is Some {
        if c[i + 1] == 47 {
            lemma_extend_line_end(b, c, i + 2);
        } else {
            lemma_extend_block_end(b, c, i + 2);
        }
    }
}

/// What a scan finds in a prefix, it finds in the whole.
proof fn lemma_extend_opening(b: Seq<u8>, c: Seq<u8>, start: int, i: int, lex: Lex)
    requires
        0 <= start <= i <= c.len() <= b.len(),
        c == b.take(c.len() as int),
        opening(c, start, i, lex) is Some,
    ensures
        opening(b, start, i, lex) == opening(c, start, i, lex),
    decreases c.len() - i,
{
    assert(forall|k: int| 0 <= k < c.len() ==> c[k] == b[k]);
    if !(structural(c, i, lex) && opens(c, start, i)) {
        let (j, next) = step(c, i, lex);
        lemma_step(c, i, lex);
        lemma_opening(c, start, j, next);
        lemma_extend_step(b, c, i, lex);
        lemma_extend_opening(b, c, start, j, next);
    }
}

/// The close that a scan finds in a prefix, it finds in the whole.
proof fn lemma_extend_closing(b: Seq<u8>, c: Seq<u8>, i: int, lex: Lex, depth: int, open: u8)
    requires
        0 <= i <= c.len() <= b.len(),
        c == b.take(c.len() as int),
        depth >= 1,
        open == 123 || open == 91,
        closing(c, i, lex, depth, open) is Some,
    ensures
        closing(b, i, lex, depth, open) == closing(c, i, lex, depth, open),
    decreases c.len() - i,
{
    assert(forall|k: int| 0 <= k < c.len() ==> c[k] == b[k]);
    let d = depth_after(c, i, lex, depth, open);
    if d != 0 {
        let (j, next) = step(c, i, lex);
        lemma_step(c, i, lex);
        lemma_closing(c, j, next, d, open);
        lemma_extend_step(b, c, i, lex);
        assert(depth_after(b, i, lex, depth, open) == d);
        lemma_extend_closing(b, c, j, next, d, open);
    }
}

proof fn lemma_extend_past_white(b: Seq<u8>, c: Seq<u8>, i: int)
    requires
        0 <= i <= c.len() <= b.len(),
        c == b.take(c.len() as int),
        past_white(c, i) < c.len(),
    ensures
        past_white(b, i) == past_white(c, i),
    decreases c.len() - i,
{
    assert(c[i] == b[i]);
    if white_byte(c[i]) {
        lemma_extend_past_white(b, c, i + 1);
    }
}

/// What is appended to bytes that hold a JSON value leaves its range as it is.
proof fn lemma_appended_bytes(a: Seq<u8>, t: Seq<u8>)
    requires
        json_range(a) is Some,
    ensures
        json_range(a + t) == json_range(a),
{
    let b = a + t;
    assert(b.take(a.len() as int) =~= a);
    assert(forall|k: int| 0 <= k < a.len() ==> a[k] == b[k]);
    law_range_is_delimited(a);
    let (s, e) = json_range(a)->0;
    lemma_opening(a, bom_len(a), bom_len(a), Lex::Code);
    assert(bom_len(b) == bom_len(a));
    lemma_extend_opening(b, a, bom_len(a), bom_len(a), Lex::Code);
    lemma_extend_past_white(b, a, s + 1);
    lemma_past_white(a, a.subrange(s, e), s, s + 1, e);
    lemma_extend_closing(b, a, s + 1, Lex::Code, 1, a[s]);
}

proof fn lemma_encode_concat(a: Seq<char>, t: Seq<char>)
    ensures
        encode_utf8(a + t) == encode_utf8(a) + encode_utf8(t),
    decreases a.len(),
{
    if a.len() == 0 {
        assert(a + t =~= t);
        assert(encode_utf8(a) + encode_utf8(t) =~= encode_utf8(t));
    } else {
        assert((a + t).drop_first() =~= a.drop_first() + t);
        lemma_encode_concat(a.drop_first(), t);
        assert(encode_utf8(a + t) =~= encode_utf8(a) + encode_utf8(t));
    }
}

/// Text behind the first JSON value changes nothing: whatever is appended to
/// an input that holds one, its range stays as it is.
pub proof fn law_appended_text_is_ignored(a: Seq<char>, t: Seq<char>)
    requires
        json_range(encode_utf8(a)) is Some,
    ensures
        json_range(encode_utf8(a + t)) == json_range(encode_utf8(a)),
{
    lemma_encode_concat(a, t);
    lemma_appended_bytes(encode_utf8(a), encode_utf8(t));
}

/// A scan that finds its opening delimiter finds it in any prefix that holds
/// the delimiter.
proof fn lemma_prefix_opening(b: Seq<u8>, c: Seq<u8>, start: int, i: int, lex: Lex)
    requires
        0 <= start <= i <= c.len() <= b.len(),
        c == b.take(c.len() as int),
        opening(b, start, i, lex) matches Some(k) && k < c.len(),
    ensures
        opening(c, start, i, lex) == opening(b, start, i, lex),
    decreases b.len() - i,
{
    assert(forall|k: int| 0 <= k < c.len() ==> c[k] == b[k]);
    lemma_opening(b, start, i, lex);
    if !(structural(b, i, lex) && opens(b, start, i)) {
        let (j, next) = step(b, i, lex);
        lemma_step(b, i, lex);
        lemma_opening(b, start, j, next);
        if lex == Lex::Code && comment_end(b, i) is Some {
            if b[i + 1] == 47 {
                lemma_prefix_line_end(b, c, i + 2);
            } else {
                lemma_prefix_block_end(b, c, i + 2);
            }
        }
        assert(step(c, i, lex) == (j, next));
        lemma_prefix_opening(b, c, start, j, next);
    }
}

/// A value is reported as unbalanced wherever it is cut off: its end is the
/// earliest close that matches.
pub proof fn law_cut_value_is_unbalanced(b: Seq<u8>, k: int)
    requires
        json_range(b) matches Some((s, e)) && s < k < e,
    ensures
        json_start(b.take(k)) is Some,
        json_range(b.take(k)) is None,
{
    law_range_is_delimited(b);
    let (s, e) = json_range(b)->0;
    let c = b.take(k);
    assert(forall|j: int| 0 <= j < k ==> c[j] == b[j]);
    lemma_opening(b, bom_len(b), bom_len(b), Lex::Code);
    assert(bom_len(c) == bom_len(b));
    lemma_prefix_opening(b, c, bom_len(b), bom_len(b), Lex::Code);
    if closing(c, s + 1, Lex::Code, 1, b[s]) is Some {
        lemma_extend_closing(b, c, s + 1, Lex::Code, 1, b[s]);
        lemma_closing(c, s + 1, Lex::Code, 1, b[s]);
    }
}

proof fn lemma_shift_opening(b: Seq<u8>, s: int, i: int, lex: Lex)
    requires
        0 <= s <= i <= b.len(),
    ensures
        opening(b.skip(s), 0, i - s, lex) == (match opening(b, s, i, lex) {
            Some(k) => Some(k - s),
            None => None,
        }),
    decreases b.len() - i,
{
    let c = b.skip(s);
    assert(forall|k: int| s <= k < b.len() ==> b[k] == #[trigger] c[k - s]);
    if i < b.len() {
        assert(c[i - s] == b[i]);
        lemma_step(b, i, lex);
        if i + 1 < b.len() {
            assert(c[i + 1 - s] == b[i + 1]);
            lemma_shift_line_end(b, s, i + 2);
            lemma_shift_block_end(b, s, i + 2);
        }
        if s <= i - 1 {
            assert(c[i - 1 - s] == b[i - 1]);
        }
        if s <= i - 2 {
            assert(c[i - 2 - s] == b[i - 2]);
        }
        if s <= i - 3 {
            assert(c[i - 3 - s] == b[i - 3]);
        }
        assert(opens(c, 0, i - s) == opens(b, s, i));
        let (j, next) = step(b, i, lex);
        assert(step(c, i - s, lex) == (j - s, next));
        lemma_shift_opening(b, s, j, next);
    }
}

proof fn lemma_shift_past_white(b: Seq<u8>, s: int, i: int)
    requires
        0 <= s <= i <= b.len(),
    ensures
        past_white(b.skip(s), i - s) == past_white(b, i) - s,
        i <= past_white(b, i) <= b.len(),
    decreases b.len() - i,
{
    if i < b.len() && white_byte(b[i]) {
        lemma_shift_past_white(b, s, i + 1);
    }
}

/// The bytes of a byte order mark.
pub open spec fn byte_order_mark() -> Seq<u8> {
    seq![0xef, 0xbb, 0xbf]
}

proof fn lemma_marked_bytes(x: Seq<u8>)
    requires
        bom_len(x) == 0,
    ensures
        json_start(byte_order_mark() + x) == (match json_start(x) {
            Some(i) => Some(i + 3),
            None => None,
        }),
        json_range(byte_order_mark() + x) == (match json_range(x) {
            Some((s, e)) => Some((s + 3, e + 3)),
            None => None,
        }),
{
    let b = byte_order_mark() + x;
    assert(b.skip(3) =~= x);
    assert(bom_len(b) == 3);
    lemma_shift_opening(b, 3, 3, Lex::Code);
    if let Some(i) = json_start(b) {
        lemma_opening(b, 3, 3, Lex::Code);
        assert(x[i - 3] == b[i]);
        lemma_shift_past_white(b, 3, i + 1);
        if past_white(b, i + 1) < b.len() {
            assert(x[past_white(b, i + 1) - 3] == b[past_white(b, i + 1)]);
        }
        lemma_shift_closing(b, 3, i + 1, Lex::Code, 1, b[i]);
    }
}

proof fn lemma_mark_encoding(c: char)
    ensures
        encode_scalar('\u{feff}' as u32) == byte_order_mark(),
        c != '\u{feff}' ==> forall|x: Seq<u8>|
            bom_len(#[trigger] (encode_scalar(c as u32) + x)) == 0,
{
    let m: u32 = 0xfeff;
    assert(leading_byte_width_3(m) == 0xef && second_last_continuation_byte(m) == 0xbb
        && last_continuation_byte(m) == 0xbf) by (bit_vector)
        requires
            m == 0xfeff,
    ;
    assert(encode_scalar('\u{feff}' as u32) =~= byte_order_mark());
    char_is_scalar(c);
    let u = c as u32;
    assert(u <= 0x7f ==> leading_byte_width_1(u) < 0x80) by (bit_vector);
    assert(0x80 <= u <= 0x7ff ==> leading_byte_width_2(u) < 0xe0) by (bit_vector);
    assert(0x10000 <= u <= 0x10ffff ==> leading_byte_width_4(u) >= 0xf0) by (bit_vector);
    assert(0x800 <= u <= 0xffff && leading_byte_width_3(u) == 0xef && second_last_continuation_byte(
        u,
    ) == 0xbb && last_continuation_byte(u) == 0xbf ==> u == 0xfeff) by (bit_vector);
    if c != '\u{feff}' {
        assert(u != 0xfeff);
        assert forall|x: Seq<u8>| bom_len(#[trigger] (encode_scalar(u) + x)) == 0 by {
            let e = encode_scalar(u);
            assert(forall|k: int| 0 <= k < e.len() ==> (e + x)[k] == e[k]);
        }
    }
}

/// A byte order mark in front of text that has none moves the first JSON value
/// by its three bytes and changes nothing else: not whether there is one, nor
/// what is wrong.
pub proof fn law_byte_order_mark_only_shifts(x: Seq<char>)
    requires
        x.len() == 0 || x[0] != '\u{feff}',
    ensures
        json_start(encode_utf8(seq!['\u{feff}'] + x)) == (match json_start(encode_utf8(x)) {
            Some(i) => Some(i + 3),
            None => None,
        }),
        json_range(encode_utf8(seq!['\u{feff}'] + x)) == (match json_range(encode_utf8(x)) {
            Some((s, e)) => Some((s + 3, e + 3)),
            None => None,
        }),
{
    let marked = seq!['\u{feff}'] + x;
    assert(marked.drop_first() =~= x);
    if x.len() > 0 {
        lemma_mark_encoding(x[0]);
    } else {
        lemma_mark_encoding('a');
    }
    assert(encode_utf8(marked) == byte_order_mark() + encode_utf8(x));
    lemma_marked_bytes(encode_utf8(x));
}

/// The bytes of the last character decide what stands before a delimiter.
proof fn lemma_white_scalar(b: Seq<u8>, c: char)
    ensures
        ({
            let t = b + encode_scalar(c as u32);
            white_before(t, 0, t.len() as int) == text::is_white(c)
        }),
{
    char_is_scalar(c);
    let u = c as u32;
    let e = encode_scalar(u);
    let t = b + e;
    let n = t.len() as int;
    assert(forall|k: int| 0 <= k < e.len() ==> t[n - e.len() + k] == e[k]);
    if has_width_1_encoding(u) {
        assert(u <= 0x7f ==> leading_byte_width_1(u) as u32 == u) by (bit_vector);
        assert(t[n - 1] == e[0]);
        assert(e[0] as u32 == u);
    } else if has_width_2_encoding(u) {
        let lead = leading_byte_width_2(u);
        let last = last_continuation_byte(u);
        assert(0x80 <= u <= 0x7ff ==> leading_byte_width_2(u) >= 0xc0 && last_continuation_byte(u)
            >= 0x80 && (leading_byte_width_2(u) == 0xc2 && last_continuation_byte(u) == 0x85 <==> u
            == 0x85) && (leading_byte_width_2(u) == 0xc2 && last_continuation_byte(u) == 0xa0
            <==> u == 0xa0)) by (bit_vector);
        assert(t[n - 1] == e[1] && t[n - 2] == e[0]);
        assert(e[0] == lead && e[1] == last);
    } else if has_width_3_encoding(u) {
        assert(0x800 <= u <= 0xffff ==> leading_byte_width_3(u) >= 0xe0
            && second_last_continuation_byte(u) < 0xc0 && last_continuation_byte(u) >= 0x80)
            by (bit_vector);
        assert(0x800 <= u <= 0xffff ==> ({
            let a = leading_byte_width_3(u);
            let m = second_last_continuation_byte(u);
            let z = last_continuation_byte(u);
            &&& (a == 0xe1 && m == 0x9a && z == 0x80 <==> u == 0x1680)
            &&& (a == 0xe2 && m == 0x80 && 0x80 <= z && z <= 0x8a <==> 0x2000 <= u && u <= 0x200a)
            &&& (a == 0xe2 && m == 0x80 && z == 0xa8 <==> u == 0x2028)
            &&& (a == 0xe2 && m == 0x80 && z == 0xa9 <==> u == 0x2029)
            &&& (a == 0xe2 && m == 0x80 && z == 0xaf <==> u == 0x202f)
            &&& (a == 0xe2 && m == 0x81 && z == 0x9f <==> u == 0x205f)
            &&& (a == 0xe3 && m == 0x80 && z == 0x80 <==> u == 0x3000)
        })) by (bit_vector);
        assert(t[n - 1] == e[2] && t[n - 2] == e[1] && t[n - 3] == e[0]);
    } else {
        assert(0x10000 <= u <= 0x10ffff ==> third_last_continuation_byte(u) < 0xc0
            && second_last_continuation_byte(u) < 0xc0 && last_continuation_byte(u) >= 0x80)
            by (bit_vector);
        assert(t[n - 1] == e[3] && t[n - 2] == e[2] && t[n - 3] == e[1]);
    }
}

/// What stands before a delimiter counts as white space where the last
/// character is, and never for the last byte of another one.
pub proof fn law_white_space_is_a_character(s: Seq<char>)
    ensures
        white_before(encode_utf8(s), 0, encode_utf8(s).len() as int) == (s.len() > 0
            && text::is_white(s.last())),
{
    if s.len() > 0 {
        let head = s.drop_last();
        let tail = seq![s.last()];
        assert(head + tail =~= s);
        lemma_encode_concat(head, tail);
        assert(tail.drop_first() =~= Seq::<char>::empty());
        assert(encode_utf8(tail.drop_first()) =~= Seq::<u8>::empty());
        assert(encode_utf8(tail) =~= encode_scalar(s.last() as u32));
        lemma_white_scalar(encode_utf8(head), s.last());
    }
}

/// The slice of `input` that its first JSON value spans.
fn first_value(input: &str) -> (r: Result<&str, ExtractError>)
    ensures
        match r {
            Ok(t) => json_text(input.spec_bytes()) == Some(t@),
            Err(ExtractError::NoJsonFound) => json_start(input.spec_bytes()) is None,
            Err(ExtractError::UnbalancedBraces) => json_start(input.spec_bytes()) is Some
                && json_range(input.spec_bytes()) is None,
            Err(ExtractError::ParseFailed(_)) => false,
        },
{
    let (start, end): (usize, usize) = match extract_tolerant_json(input) {
        Ok(range) => range,
        Err(e) => return Err(e),
    };
    let ghost b = input.spec_bytes();
    proof {
        law_range_is_delimited(b);
        law_range_is_sliceable(input@);
    }
    let (head, _) = input.split_at(end);
    proof {
        encode_utf8_valid_utf8(head@);
        is_char_boundary_iff_not_is_continuation_byte(head.spec_bytes(), start as int);
    }
    let (_, slice) = head.split_at(start);
    proof {
        assert(slice.spec_bytes() =~= b.subrange(start as int, end as int));
        encode_utf8_decode_utf8(slice@);
    }
    Ok(slice)
}

/// The text of the first JSON value in `input`, as long as `serde_json` reads
/// it.
pub fn extract_json(input: &str) -> (r: Result<String, ExtractError>)
    ensures
        match r {
            Ok(t) => json_text(input.spec_bytes()) == Some(t@) && json::json_error(t@) is None,
            Err(ExtractError::NoJsonFound) => json_start(input.spec_bytes()) is None,
            Err(ExtractError::UnbalancedBraces) => json_start(input.spec_bytes()) is Some
                && json_range(input.spec_bytes()) is None,
            Err(ExtractError::ParseFailed(m)) => json_text(input.spec_bytes()) is Some
                && json::json_error(json_text(input.spec_bytes())->0) == Some(m@),
        },
{
    match first_value(input) {
        Ok(slice) => match json::check_json(slice) {
            Ok(_) => Ok(slice.to_owned()),
            Err(m) => Err(ExtractError::ParseFailed(m)),
        },
        Err(e) => Err(e),
    }
}

/// `parse` may say `out` of the text `t`.
pub open spec fn says<T, F: Fn(&str) -> Result<T, String>>(
    parse: F,
    t: Seq<char>,
    out: Result<T, String>,
) -> bool {
    exists|s: &str| s@ == t && #[trigger] call_ensures(parse, (s,), out)
}

/// The first JSON value in `input`, as `parse` reads its text.
pub fn extract_and_parse<T, F: Fn(&str) -> Result<T, String>>(input: &str, parse: F) -> (r: Result<
    T,
    ExtractError,
>)
    requires
        forall|s: &str| #[trigger] call_requires(parse, (s,)),
    ensures
        match r {
            Ok(v) => json_text(input.spec_bytes()) matches Some(t) && says(parse, t, Ok(v)),
            Err(ExtractError::NoJsonFound) => json_start(input.spec_bytes()) is None,
            Err(ExtractError::UnbalancedBraces) => json_start(input.spec_bytes()) is Some
                && json_range(input.spec_bytes()) is None,
            Err(ExtractError::ParseFailed(m)) => json_text(input.spec_bytes()) matches Some(t)
                && says(parse, t, Err(m)),
        },
{
    match first_value(input) {
        Ok(slice) => match parse(slice) {
            Ok(v) => Ok(v),
            Err(m) => Err(ExtractError::ParseFailed(m)),
        },
        Err(e) => Err(e),
    }
}

// ---------------------------------------------------------------------------
// Parsing by strategy
// ---------------------------------------------------------------------------

/// Why a reply does not parse, by what was tried.
#[derive(Debug, PartialEq, Eq)]
pub enum ParseError {
    /// The direct parse failed, and nothing else was to be tried.
    Strict(String),
    /// Every pass of the recovery chain failed.
    Lenient(String),
}

impl ParseError {
    /// The message of the parser.
    pub open spec fn reason(&self) -> Seq<char> {
        match self {
            ParseError::Strict(m) => m@,
            ParseError::Lenient(m) => m@,
        }
    }

    /// The message shown to a user.
    pub open spec fn text(&self) -> Seq<char> {
        match self {
            ParseError::Strict(m) => "strict parse failed: "@ + m@,
            ParseError::Lenient(m) => "lenient recovery failed: "@ + m@,
        }
    }

    /// The message of the parser.
    pub fn message(&self) -> (r: &str)
        ensures
            r@ == self.reason(),
    {
        match self {
            ParseError::Strict(m) => m.as_str(),
            ParseError::Lenient(m) => m.as_str(),
        }
    }

    /// Renders the error for a user.
    pub fn to_string(&self) -> (r: String)
        ensures
            r@ == self.text(),
    {
        match self {
            ParseError::Strict(m) => "strict parse failed: ".to_owned().concat(m.as_str()),
            ParseError::Lenient(m) => "lenient recovery failed: ".to_owned().concat(m.as_str()),
        }
    }
}

/// The direct parse: `raw` itself, as long as it is JSON.
pub fn parse_strict(raw: &str) -> (r: Result<String, ParseError>)
    ensures
        match r {
            Ok(t) => json::json_error(raw@) is None && t@ == raw@,
            Err(ParseError::Strict(m)) => json::json_error(raw@) == Some(m@),
            Err(ParseError::Lenient(_)) => false,
        },
{
    match json::check_json(raw) {
        Ok(_) => Ok(raw.to_owned()),
        Err(m) => Err(ParseError::Strict(m)),
    }
}

/// The reply `raw` under a strategy: the strict one goes by `direct` alone and
/// does not consult `recover`, the recovery chain; the others go by the chain
/// alone.
pub fn parse_with_strategy<
    T,
    D: Fn(&str) -> Result<T, String>,
    R: Fn(&str) -> Result<T, String>,
>(
    strategy: JsonRecoveryStrategy,
    _model: &str,
    _request: &Request,
    raw: &str,
    direct: D,
    recover: R,
) -> (r: Result<T, ParseError>)
    requires
        strategy == JsonRecoveryStrategy::Strict ==> call_requires(direct, (raw,)),
        strategy != JsonRecoveryStrategy::Strict ==> call_requires(recover, (raw,)),
    ensures
        match r {
            Ok(v) => if strategy == JsonRecoveryStrategy::Strict {
                call_ensures(direct, (raw,), Ok(v))
            } else {
                call_ensures(recover, (raw,), Ok(v))
            },
            Err(ParseError::Strict(m)) => strategy == JsonRecoveryStrategy::Strict && call_ensures(
                direct,
                (raw,),
                Err(m),
            ),
            Err(ParseError::Lenient(m)) => strategy != JsonRecoveryStrategy::Strict && call_ensures(
                recover,
                (raw,),
                Err(m),
            ),
        },
{
    match strategy {
        JsonRecoveryStrategy::Strict => match direct(raw) {
            Ok(v) => Ok(v),
            Err(m) => Err(ParseError::Strict(m)),
        },
        _ => match recover(raw) {
            Ok(v) => Ok(v),
            Err(m) => Err(ParseError::Lenient(m)),
        },
    }
}

/// The text that is found is what stands between the ends of its range: where
/// an input is made of three texts and the range is that of the middle one,
/// that one is the text.
pub proof fn law_found_text(a: Seq<char>, v: Seq<char>, t: Seq<char>)
    requires
        json_range(encode_utf8(a + v + t)) == Some(
            (
                encode_utf8(a).len() as int,
                (encode_utf8(a).len() + encode_utf8(v).len()) as int,
            ),
        ),
    ensures
        json_text(encode_utf8(a + v + t)) == Some(v),
{
    lemma_encode_concat(a + v, t);
    lemma_encode_concat(a, v);
    let x = encode_utf8(a);
    let y = encode_utf8(v);
    let b = encode_utf8(a + v + t);
    assert(b.subrange(x.len() as int, (x.len() + y.len()) as int) =~= y);
    encode_utf8_decode_utf8(v);
}

/// An input without a brace or bracket holds no JSON.
pub proof fn law_no_delimiter_no_json(b: Seq<u8>)
    requires
        forall|i: int| 0 <= i < b.len() ==> #[trigger] b[i] != 0x7b && b[i] != 0x5b,
    ensures
        json_start(b) is None,
        json_range(b) is None,
        json_text(b) is None,
{
    lemma_opening(b, bom_len(b), bom_len(b), Lex::Code);
}

/// The messages for a user say what is wrong, and end with what the parser
/// said where it came to that.
pub proof fn law_messages(m: String)
    ensures
        ExtractError::NoJsonFound.text() == "no JSON delimiter found in input"@,
        ExtractError::UnbalancedBraces.text() == "unbalanced braces in candidate JSON"@,
        text::has_suffix(ExtractError::ParseFailed(m).text(), m@),
        text::has_suffix(ParseError::Strict(m).text(), m@),
        text::has_suffix(ParseError::Lenient(m).text(), m@),
        text::has_prefix(ParseError::Strict(m).text(), "strict"@),
        text::has_prefix(ParseError::Lenient(m).text(), "lenient"@),
        ParseError::Strict(m).reason() == m@,
        ParseError::Lenient(m).reason() == m@,
{
    reveal_strlit("strict");
    reveal_strlit("lenient");
    reveal_strlit("strict parse failed: ");
    reveal_strlit("lenient recovery failed: ");
    text_laws::law_prefix_and_suffix("JSON parse failed: "@, m@);
    text_laws::law_prefix_and_suffix("strict parse failed: "@, m@);
    text_laws::law_prefix_and_suffix("lenient recovery failed: "@, m@);
    assert(ParseError::Strict(m).text().take(6) =~= "strict"@);
    assert(ParseError::Lenient(m).text().take(7) =~= "lenient"@);
}

} // verus!
