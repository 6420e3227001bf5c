//! The framing of server-sent events.

use vstd::prelude::*;
use vstd::slice::*;
use vstd::string::*;
use vstd::utf8::*;

verus! {

/// Where the line that goes on at `i` ends: at the next line feed, or at the
/// end of the text.
pub open spec fn line_stop(b: Seq<u8>, i: int) -> int
    decreases b.len() - i,
{
    if i < 0 || i >= b.len() || b[i] == 10 {
        i
    } else {
        line_stop(b, i + 1)
    }
}

/// A blank: a space, a tab or a carriage return.
pub open spec fn is_blank(c: u8) -> bool {
    c == 32 || c == 9 || c == 13
}

/// A line without the blanks in front.
pub open spec fn without_front(line: Seq<u8>) -> Seq<u8>
    decreases line.len(),
{
    if line.len() > 0 && is_blank(line[0]) {
        without_front(line.skip(1))
    } else {
        line
    }
}

/// A line without the blanks behind.
pub open spec fn without_back(line: Seq<u8>) -> Seq<u8>
    decreases line.len(),
{
    if line.len() > 0 && is_blank(line.last()) {
        without_back(line.drop_last())
    } else {
        line
    }
}

/// The field name of a data line.
pub open spec fn data_name() -> Seq<u8> {
    encode_utf8("data:"@)
}

/// The payload that ends a stream.
pub open spec fn end_mark() -> Seq<u8> {
    encode_utf8("[DONE]"@)
}

/// The payload of a line, where it is a data line.
pub open spec fn payload_of(line: Seq<u8>) -> Option<Seq<u8>> {
    let name = data_name();
    if name.len() <= line.len() && line.take(name.len() as int) == name {
        Some(without_back(without_front(line.skip(name.len() as int))))
    } else {
        None
    }
}

/// The payloads of the data lines from `i` on, up to the one that ends the
/// stream.
pub open spec fn payloads_from(b: Seq<u8>, i: int) -> Seq<Seq<u8>>
    decreases b.len() + 1 - i,
{
    if i < 0 || i >= b.len() {
        Seq::empty()
    } else {
        proof {
            lemma_line_stop(b, i);
        }
        let stop = line_stop(b, i);
        let rest = payloads_from(b, stop + 1);
        match payload_of(b.subrange(i, stop)) {
            Some(p) => if p == end_mark() {
                Seq::empty()
            } else {
                seq![p] + rest
            },
            None => rest,
        }
    }
}

/// The payloads of a stream.
pub open spec fn payloads(b: Seq<u8>) -> Seq<Seq<u8>> {
    payloads_from(b, 0)
}

/// The end of a line is not in front of where it goes on.
pub proof fn lemma_line_stop(b: Seq<u8>, i: int)
    requires
        0 <= i <= b.len(),
    ensures
        i <= line_stop(b, i) <= b.len(),
    decreases b.len() - i,
{
    if i < b.len() && b[i] != 10 {
        lemma_line_stop(b, i + 1);
    }
}

fn find_stop(b: &[u8], from: usize) -> (r: usize)
    requires
        from <= b@.len(),
    ensures
        r == line_stop(b@, from as int),
        from <= r <= b@.len(),
{
    let mut i: usize = from;
    let n: usize = b.len();
    while i < n && b[i] != 10
        invariant
            n == b@.len(),
            from <= i <= n,
            line_stop(b@, from as int) == line_stop(b@, i as int),
        decreases n - i,
    {
        i = i + 1;
    }
    i
}

fn blank(c: u8) -> (r: bool)
    ensures
        r == is_blank(c),
{
    c == 32 || c == 9 || c == 13
}

fn copy_range(b: &[u8], from: usize, to: usize) -> (v: Vec<u8>)
    requires
        from <= to <= b@.len(),
    ensures
        v@ == b@.subrange(from as int, to as int),
{
    let mut v: Vec<u8> = Vec::new();
    let mut i: usize = from;
    while i < to
        invariant
            from <= i <= to <= b@.len(),
            v@ =~= b@.subrange(from as int, i as int),
        decreases to - i,
    {
        v.push(b[i]);
        i = i + 1;
    }
    v
}

/// Whether `mark` is the whole of `v`.
fn same_bytes(v: &Vec<u8>, mark: &[u8]) -> (r: bool)
    ensures
        r == (v@ == mark@),
{
    if v.len() != mark.len() {
        return false;
    }
    let mut i: usize = 0;
    while i < v.len()
        invariant
            v@.len() == mark@.len(),
            i <= v@.len(),
            forall|j: int| 0 <= j < i ==> v@[j] == mark@[j],
        decreases v@.len() - i,
    {
        if v[i] != mark[i] {
            return false;
        }
        i = i + 1;
    }
    assert(v@ =~= mark@);
    true
}

/// The payload of the line between `from` and `to`, where it is a data line.
fn payload(b: &[u8], from: usize, to: usize) -> (r: Option<Vec<u8>>)
    requires
        from <= to <= b@.len(),
    ensures
        match r {
            Some(p) => payload_of(b@.subrange(from as int, to as int)) == Some(p@),
            None => payload_of(b@.subrange(from as int, to as int)) is None,
        },
{
    let name = "data:".as_bytes();
    let ghost line = b@.subrange(from as int, to as int);
    if to - from < name.len() {
        return None;
    }
    let head = copy_range(b, from, from + name.len());
    assert(head@ =~= line.take(name@.len() as int));
    if !same_bytes(&head, name) {
        return None;
    }
    let ghost value = line.skip(name@.len() as int);
    let mut i: usize = from + name.len();
    assert(b@.subrange(i as int, to as int) =~= value);
    while i < to && blank(b[i])
        invariant
            i <= to <= b@.len(),
            without_front(value) == without_front(b@.subrange(i as int, to as int)),
        decreases to - i,
    {
        assert(b@.subrange(i as int, to as int).skip(1) =~= b@.subrange(i + 1, to as int));
        i = i + 1;
    }
    let ghost front = b@.subrange(i as int, to as int);
    assert(without_front(value) == front);
    let mut j: usize = to;
    while j > i && blank(b[j - 1])
        invariant
            i <= j <= to <= b@.len(),
            without_back(front) == without_back(b@.subrange(i as int, j as int)),
        decreases j,
    {
        assert(b@.subrange(i as int, j as int).drop_last() =~= b@.subrange(i as int, j - 1));
        j = j - 1;
    }
    Some(copy_range(b, i, j))
}

/// The byte strings of a list.
pub open spec fn byte_views(list: Seq<Vec<u8>>) -> Seq<Seq<u8>> {
    list.map_values(|v: Vec<u8>| v@)
}

/// The payloads of a stream: what stands behind `data:` in each line that
/// begins so, up to the line whose payload is `[DONE]`.
pub fn split_payloads(b: &[u8]) -> (r: Vec<Vec<u8>>)
    ensures
        byte_views(r@) == payloads(b@),
{
    let mut out: Vec<Vec<u8>> = Vec::new();
    let mut i: usize = 0;
    let n: usize = b.len();
    assert(byte_views(out@) + payloads_from(b@, 0) =~= payloads(b@));
    while i < n
        invariant
            n == b@.len(),
            i <= n,
            byte_views(out@) + payloads_from(b@, i as int) == payloads(b@),
        decreases n - i,
    {
        let stop: usize = find_stop(b, i);
        let ghost next = stop + 1;
        let ghost before = out@;
        match payload(b, i, stop) {
            Some(p) => {
                if same_bytes(&p, "[DONE]".as_bytes()) {
                    assert(payloads_from(b@, i as int) =~= Seq::empty());
                    assert(byte_views(out@) =~= payloads(b@));
                    return out;
                }
                out.push(p);
                assert(byte_views(out@) =~= byte_views(before).push(p@));
            },
            None => {},
        }
        assert(byte_views(out@) + payloads_from(b@, next) =~= byte_views(before) + payloads_from(
            b@,
            i as int,
        ));
        if stop == n {
            assert(payloads_from(b@, next) =~= Seq::empty());
            assert(byte_views(out@) =~= payloads(b@));
            return out;
        }
        i = stop + 1;
    }
    assert(byte_views(out@) =~= payloads(b@));
    out
}

proof fn lemma_stop_at(b: Seq<u8>, i: int, stop: int)
    requires
        0 <= i <= stop <= b.len(),
        forall|k: int| i <= k < stop ==> b[k] != 10,
        stop < b.len() ==> b[stop] == 10,
    ensures
        line_stop(b, i) == stop,
    decreases stop - i,
{
    if i < stop {
        lemma_stop_at(b, i + 1, stop);
    }
}

/// What comes from an offset on is what the text from there on holds.
proof fn lemma_payloads_behind(x: Seq<u8>, rest: Seq<u8>, i: int)
    requires
        0 <= i <= rest.len(),
    ensures
        payloads_from(x + rest, x.len() + i) == payloads_from(rest, i),
    decreases rest.len() - i,
{
    let b = x + rest;
    if i < rest.len() {
        lemma_line_stop(rest, i);
        lemma_stop_behind(x, rest, i);
        let stop = line_stop(rest, i);
        assert(b.subrange(x.len() + i, x.len() + stop) =~= rest.subrange(i, stop));
        if stop + 1 <= rest.len() {
            lemma_payloads_behind(x, rest, stop + 1);
        }
    }
}

proof fn lemma_stop_behind(x: Seq<u8>, rest: Seq<u8>, i: int)
    requires
        0 <= i <= rest.len(),
    ensures
        line_stop(x + rest, x.len() + i) == x.len() + line_stop(rest, i),
    decreases rest.len() - i,
{
    if i < rest.len() {
        assert((x + rest)[x.len() + i] == rest[i]);
        if rest[i] != 10 {
            lemma_stop_behind(x, rest, i + 1);
        }
    }
}

proof fn lemma_first_line(line: Seq<u8>, rest: Seq<u8>)
    requires
        forall|k: int| 0 <= k < line.len() ==> #[trigger] line[k] != 10,
    ensures
        payloads(line.push(10) + rest) == (match payload_of(line) {
            Some(p) => if p == end_mark() {
                Seq::empty()
            } else {
                seq![p] + payloads(rest)
            },
            None => payloads(rest),
        }),
{
    let b = line.push(10) + rest;
    let stop = line.len() as int;
    assert(forall|k: int| 0 <= k < stop ==> b[k] == line[k]);
    assert(b[stop] == 10);
    lemma_stop_at(b, 0, stop);
    assert(b.subrange(0, stop) =~= line);
    lemma_payloads_behind(line.push(10), rest, 0);
    assert(line.push(10).len() + 0 == stop + 1);
}

/// All bytes are spaces, tabs or carriage returns.
pub open spec fn all_blank(s: Seq<u8>) -> bool {
    forall|k: int| 0 <= k < s.len() ==> #[trigger] s[k] == 0x20 || s[k] == 0x09 || s[k] == 0x0d
}

proof fn lemma_front(a: Seq<u8>, p: Seq<u8>)
    requires
        all_blank(a),
        p.len() > 0 ==> p[0] != 0x20 && p[0] != 0x09 && p[0] != 0x0d,
    ensures
        without_front(a + p) == p,
    decreases a.len(),
{
    if a.len() == 0 {
        assert(a + p =~= p);
    } else {
        assert((a + p)[0] == a[0]);
        assert((a + p).skip(1) =~= a.skip(1) + p);
        assert forall|k: int| 0 <= k < a.skip(1).len() implies #[trigger] a.skip(1)[k] == 0x20
            || a.skip(1)[k] == 0x09 || a.skip(1)[k] == 0x0d by {
            assert(a[k + 1] == a.skip(1)[k]);
        }
        lemma_front(a.skip(1), p);
    }
}

proof fn lemma_back(p: Seq<u8>, c: Seq<u8>)
    requires
        all_blank(c),
        p.len() > 0 ==> p.last() != 0x20 && p.last() != 0x09 && p.last() != 0x0d,
    ensures
        without_back(p + c) == p,
    decreases c.len(),
{
    if c.len() == 0 {
        assert(p + c =~= p);
    } else {
        assert((p + c).last() == c[c.len() - 1]);
        assert((p + c).drop_last() =~= p + c.drop_last());
        assert forall|k: int| 0 <= k < c.drop_last().len() implies #[trigger] c.drop_last()[k]
            == 0x20 || c.drop_last()[k] == 0x09 || c.drop_last()[k] == 0x0d by {
            assert(c[k] == c.drop_last()[k]);
        }
        lemma_back(p, c.drop_last());
    }
}

/// A line that begins with the name of a data field gives what stands behind
/// the name, without the blanks around it; then come the payloads of the lines
/// behind it. The mark of the end gives nothing and lets nothing behind it
/// count.
pub proof fn law_data_lines(a: Seq<u8>, p: Seq<u8>, c: Seq<u8>, rest: Seq<u8>)
    requires
        all_blank(a),
        all_blank(c),
        p.len() > 0,
        p[0] != 0x20 && p[0] != 0x09 && p[0] != 0x0d,
        p.last() != 0x20 && p.last() != 0x09 && p.last() != 0x0d,
        forall|k: int| 0 <= k < p.len() ==> #[trigger] p[k] != 10,
    ensures
        payloads((encode_utf8("data:"@) + (a + p + c)).push(10) + rest) == (if p == encode_utf8(
            "[DONE]"@,
        ) {
            Seq::empty()
        } else {
            seq![p] + payloads(rest)
        }),
        payloads(encode_utf8("data:"@) + (a + p + c)) == (if p == encode_utf8("[DONE]"@) {
            Seq::empty()
        } else {
            seq![p]
        }),
{
    let name = encode_utf8("data:"@);
    let line = name + (a + p + c);
    lemma_data_name();
    assert(line.take(name.len() as int) =~= name);
    assert(line.skip(name.len() as int) =~= a + (p + c));
    assert((p + c)[0] == p[0]);
    lemma_front(a, p + c);
    lemma_back(p, c);
    assert(payload_of(line) == Some(p));
    assert forall|k: int| 0 <= k < line.len() implies #[trigger] line[k] != 10 by {
        let m = name.len() as int;
        if k < m {
            assert(line[k] == name[k]);
        } else if k < m + a.len() {
            assert(line[k] == a[k - m]);
        } else if k < m + a.len() + p.len() {
            assert(line[k] == p[k - m - a.len()]);
        } else {
            assert(line[k] == c[k - m - a.len() - p.len()]);
        }
    }
    lemma_first_line(line, rest);
    lemma_stop_at(line, 0, line.len() as int);
    assert(line.subrange(0, line.len() as int) =~= line);
    assert(payloads_from(line, line.len() + 1int) =~= Seq::empty());
    assert(seq![p] + Seq::<Seq<u8>>::empty() =~= seq![p]);
}

proof fn lemma_data_name()
    ensures
        encode_utf8("data:"@) == seq![100u8, 97u8, 116u8, 97u8, 58u8],
{
    reveal_strlit("data:");
    let s = "data:"@;
    is_ascii_chars_encode_utf8(s);
    assert(s[0] == 'd' && s[1] == 'a' && s[2] == 't' && s[3] == 'a' && s[4] == ':');
    assert(encode_utf8(s) =~= seq![100u8, 97u8, 116u8, 97u8, 58u8]);
}

/// Every other line is passed over: one that begins with something else than
/// the name of a data field, an empty one among them.
pub proof fn law_other_lines(line: Seq<u8>, rest: Seq<u8>)
    requires
        forall|k: int| 0 <= k < line.len() ==> #[trigger] line[k] != 10,
        line.len() < 5 || line.take(5) != encode_utf8("data:"@),
    ensures
        payloads(line.push(10) + rest) == payloads(rest),
        payloads(Seq::empty()) == Seq::<Seq<u8>>::empty(),
{
    lemma_data_name();
    lemma_first_line(line, rest);
}

} // verus!
