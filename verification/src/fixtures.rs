//! Which files of a directory of canned replies are read, and in which order.

use vstd::prelude::*;

use crate::text;
use crate::wire;

verus! {

/// The place of a file below a directory of canned replies.
#[derive(Debug, PartialEq, Eq)]
pub struct FixturePath {
    /// The subdirectory that the file is in; `None` at the top.
    pub dir: Option<String>,
    pub name: String,
}

impl Clone for FixturePath {
    fn clone(&self) -> (r: Self)
        ensures
            r == *self,
    {
        FixturePath { dir: wire::clone_opt(&self.dir), name: self.name.clone() }
    }
}

/// A file of that name holds a canned reply: its extension is `json`, and
/// something stands in front of it.
pub open spec fn names_reply(name: Seq<char>) -> bool {
    name.len() > 5 && text::has_suffix(name, ".json"@)
}

/// Whether a file of that name holds a canned reply.
pub fn is_reply_file(name: &str) -> (r: bool)
    ensures
        r == names_reply(name@),
{
    let v = text::chars_of(name);
    v.len() > 5 && text::ends_with(&v, ".json")
}

/// The first part of a path.
pub open spec fn first_part(p: FixturePath) -> Seq<char> {
    match p.dir {
        Some(d) => d@,
        None => p.name@,
    }
}

/// `a` comes before `b`: by the first part in which they differ, a shorter
/// path first.
pub open spec fn path_precedes(a: FixturePath, b: FixturePath) -> bool {
    ||| text::precedes(first_part(a), first_part(b))
    ||| first_part(a) == first_part(b) && b.dir is Some && (a.dir is None || text::precedes(
        a.name@,
        b.name@,
    ))
}

/// No path precedes itself.
pub proof fn lemma_path_precedes_irreflexive(a: FixturePath)
    ensures
        !path_precedes(a, a),
{
    text::lemma_precedes_irreflexive(first_part(a));
    text::lemma_precedes_irreflexive(a.name@);
}

/// The order of paths is transitive.
pub proof fn lemma_path_precedes_transitive(a: FixturePath, b: FixturePath, c: FixturePath)
    requires
        path_precedes(a, b),
        path_precedes(b, c),
    ensures
        path_precedes(a, c),
{
    if text::precedes(first_part(a), first_part(b)) && text::precedes(first_part(b), first_part(c)) {
        text::lemma_precedes_transitive(first_part(a), first_part(b), first_part(c));
    } else if first_part(a) == first_part(b) && first_part(b) == first_part(c) && a.dir is Some {
        text::lemma_precedes_transitive(a.name@, b.name@, c.name@);
    }
}

/// Whether `a` comes before `b`.
fn path_before(a: &FixturePath, b: &FixturePath) -> (r: bool)
    ensures
        r == path_precedes(*a, *b),
{
    let x = match &a.dir {
        Some(d) => d.as_str(),
        None => a.name.as_str(),
    };
    let y = match &b.dir {
        Some(d) => d.as_str(),
        None => b.name.as_str(),
    };
    if text::before(x, y) {
        return true;
    }
    if !text::str_eq(x, y) {
        return false;
    }
    match &b.dir {
        Some(_) => match &a.dir {
            Some(_) => text::before(a.name.as_str(), b.name.as_str()),
            None => true,
        },
        None => false,
    }
}

/// No path comes before one that stands further in front.
pub open spec fn in_order(paths: Seq<FixturePath>) -> bool {
    forall|i: int, j: int|
        0 <= i < j < paths.len() ==> !path_precedes(#[trigger] paths[j], #[trigger] paths[i])
}

/// The paths of files with canned replies.
pub open spec fn reply_paths(paths: Seq<FixturePath>) -> Seq<FixturePath> {
    paths.filter(|p: FixturePath| names_reply(p.name@))
}

proof fn lemma_inserted(s: Seq<FixturePath>, k: int, x: FixturePath)
    requires
        0 <= k <= s.len(),
    ensures
        s.insert(k, x).to_multiset() == s.to_multiset().insert(x),
{
    let t = s.insert(k, x);
    t.to_multiset_ensures();
    assert(t.remove(k) =~= s);
    assert(t[k] == x);
    assert(t.contains(x));
    assert(t.to_multiset() =~= s.to_multiset().insert(x));
}

/// Puts `x` where it belongs among paths in order.
fn insert_in_order(sorted: &mut Vec<FixturePath>, x: FixturePath)
    requires
        in_order(old(sorted)@),
    ensures
        in_order(final(sorted)@),
        final(sorted)@.to_multiset() == old(sorted)@.to_multiset().insert(x),
{
    let mut k: usize = 0;
    while k < sorted.len() && !path_before(&x, &sorted[k])
        invariant
            sorted@ == old(sorted)@,
            k <= sorted@.len(),
            forall|i: int| 0 <= i < k ==> !path_precedes(x, #[trigger] sorted@[i]),
        ensures
            sorted@ == old(sorted)@,
            k <= sorted@.len(),
            forall|i: int| 0 <= i < k ==> !path_precedes(x, #[trigger] sorted@[i]),
            k < sorted@.len() ==> path_precedes(x, sorted@[k as int]),
        decreases sorted@.len() - k,
    {
        k = k + 1;
    }
    let ghost s = sorted@;
    proof {
        lemma_inserted(s, k as int, x);
        let t = s.insert(k as int, x);
        assert forall|i: int, j: int| 0 <= i < j < t.len() implies !path_precedes(
            #[trigger] t[j],
            #[trigger] t[i],
        ) by {
            if i == k {
                assert(t[j] == s[j - 1]);
                if path_precedes(t[j], x) {
                    lemma_path_precedes_transitive(t[j], x, s[k as int]);
                    lemma_path_precedes_irreflexive(s[k as int]);
                }
            } else if j != k {
                let a = if i < k {
                    i
                } else {
                    i - 1
                };
                let b = if j < k {
                    j
                } else {
                    j - 1
                };
                assert(t[i] == s[a] && t[j] == s[b]);
            } else {
                assert(t[i] == s[i]);
            }
        }
    }
    sorted.insert(k, x);
}

/// The files with canned replies among `paths`, in the order in which they are
/// read: that of their paths.
pub fn reading_order(paths: &Vec<FixturePath>) -> (r: Vec<FixturePath>)
    ensures
        in_order(r@),
        r@.to_multiset() == reply_paths(paths@).to_multiset(),
{
    let mut sorted: Vec<FixturePath> = Vec::new();
    let mut i: usize = 0;
    proof {
        reveal(Seq::filter);
        assert(paths@.take(0) =~= Seq::empty());
        assert(reply_paths(paths@.take(0)) =~= sorted@);
    }
    while i < paths.len()
        invariant
            i <= paths@.len(),
            in_order(sorted@),
            sorted@.to_multiset() == reply_paths(paths@.take(i as int)).to_multiset(),
        decreases paths@.len() - i,
    {
        proof {
            reveal(Seq::filter);
            let next = paths@.take(i + 1);
            assert(next.drop_last() =~= paths@.take(i as int));
            assert(next.last() == paths@[i as int]);
            reply_paths(paths@.take(i as int)).to_multiset_ensures();
        }
        if is_reply_file(paths[i].name.as_str()) {
            insert_in_order(&mut sorted, paths[i].clone());
        }
        i = i + 1;
    }
    assert(paths@.take(i as int) =~= paths@);
    sorted
}

/// Files whose paths differ are read in one order only, however they are
/// listed.
pub proof fn law_reading_order_is_unique(a: Seq<FixturePath>, b: Seq<FixturePath>)
    requires
        in_order(a),
        in_order(b),
        a.to_multiset() == b.to_multiset(),
        forall|i: int, j: int|
            0 <= i < a.len() && 0 <= j < a.len() && i != j ==> path_precedes(
                #[trigger] a[i],
                #[trigger] a[j],
            ) || path_precedes(a[j], a[i]),
    ensures
        a == b,
    decreases a.len(),
{
    a.to_multiset_ensures();
    b.to_multiset_ensures();
    if a.len() > 0 {
        let x = a.last();
        let y = b.last();
        assert(a.contains(x));
        assert(b.contains(y));
        assert(a.to_multiset().count(y) > 0);
        assert(b.to_multiset().count(x) > 0);
        assert(a.contains(y) && b.contains(x));
        let i = choose|i: int| 0 <= i < a.len() && a[i] == y;
        let j = choose|j: int| 0 <= j < b.len() && b[j] == x;
        assert(x == y) by {
            if i != a.len() - 1 {
                assert(path_precedes(a[i], a[a.len() - 1]));
                if j != b.len() - 1 {
                    assert(!path_precedes(b[b.len() - 1], b[j]));
                }
            }
        }
        let c = a.drop_last();
        let d = b.drop_last();
        assert(a.remove(a.len() - 1) =~= c);
        assert(b.remove(b.len() - 1) =~= d);
        assert forall|i: int, j: int| 0 <= i < c.len() && 0 <= j < c.len() && i != j implies
            path_precedes(#[trigger] c[i], #[trigger] c[j]) || path_precedes(c[j], c[i]) by {
            assert(c[i] == a[i] && c[j] == a[j]);
        }
        law_reading_order_is_unique(c, d);
        assert(a =~= c.push(x));
        assert(b =~= d.push(y));
    } else {
        assert(a =~= b);
    }
}

/// A canned reply is in a file whose name is something and the extension.
pub proof fn law_reply_names(stem: Seq<char>, name: Seq<char>)
    ensures
        names_reply(stem + ".json"@) <==> stem.len() > 0,
        names_reply(name) ==> name == name.take(name.len() - 5) + ".json"@,
{
    reveal_strlit(".json");
    assert((stem + ".json"@).skip((stem + ".json"@).len() - 5) =~= ".json"@);
    if names_reply(name) {
        assert(name =~= name.take(name.len() - 5) + name.skip(name.len() - 5));
    }
}

/// Files of one directory come in the order of their names. A file at the top
/// stands among the directories by its name, in front of the files of a
/// directory of the same name.
pub proof fn law_path_order(a: FixturePath, b: FixturePath)
    ensures
        a.dir is None && b.dir is None ==> (path_precedes(a, b) <==> text::precedes(
            a.name@,
            b.name@,
        )),
        a.dir is Some && b.dir is Some ==> (path_precedes(a, b) <==> text::precedes(
            a.dir->0@,
            b.dir->0@,
        ) || (a.dir->0@ == b.dir->0@ && text::precedes(a.name@, b.name@))),
        a.dir is None && b.dir is Some ==> (path_precedes(a, b) <==> text::precedes(
            a.name@,
            b.dir->0@,
        ) || a.name@ == b.dir->0@),
        a.dir is Some && b.dir is None ==> (path_precedes(a, b) <==> text::precedes(
            a.dir->0@,
            b.name@,
        )),
{
}

/// The files that are read are those whose names are those of canned replies;
/// each file is judged by itself.
pub proof fn law_files_that_are_read(a: Seq<FixturePath>, p: FixturePath, b: Seq<FixturePath>)
    ensures
        reply_paths(a + b) == reply_paths(a) + reply_paths(b),
        reply_paths(seq![p]) == (if names_reply(p.name@) {
            seq![p]
        } else {
            Seq::empty()
        }),
{
    let keep = |x: FixturePath| names_reply(x.name@);
    Seq::filter_distributes_over_add(a, b, keep);
    reveal(Seq::filter);
    let one = seq![p];
    assert(one.drop_last() =~= Seq::empty());
    assert(one.drop_last().filter(keep) =~= Seq::empty());
    assert(one.filter(keep) =~= (if keep(p) {
        seq![p]
    } else {
        Seq::empty()
    }));
}

/// Of two files, the one that is read first does not come behind the other:
/// at the top by their names, in one directory by their names too, and
/// otherwise by the directories.
pub proof fn law_reading_order(paths: Seq<FixturePath>, i: int, j: int)
    requires
        in_order(paths),
        0 <= i < j < paths.len(),
    ensures
        paths[i].dir is None && paths[j].dir is None ==> !text::precedes(
            paths[j].name@,
            paths[i].name@,
        ),
        paths[i].dir is Some && paths[j].dir is Some && paths[i].dir->0@ == paths[j].dir->0@
            ==> !text::precedes(paths[j].name@, paths[i].name@),
        paths[i].dir is Some && paths[j].dir is Some ==> !text::precedes(
            paths[j].dir->0@,
            paths[i].dir->0@,
        ),
{
    assert(!path_precedes(paths[j], paths[i]));
}

} // verus!
