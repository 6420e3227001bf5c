//! A map keyed by strings, kept in the order of its keys.

use vstd::prelude::*;

use crate::text;

verus! {

/// One key with its value.
#[derive(Debug, PartialEq, Eq)]
pub struct Row<V> {
    key: String,
    value: V,
}

/// A map from strings to `V` whose entries stand in the order of their keys.
#[derive(Debug, PartialEq, Eq)]
pub struct TextMap<V> {
    rows: Vec<Row<V>>,
}

/// A set of strings.
pub type TextSet = TextMap<()>;

/// The rows stand in strictly ascending order of their keys.
spec fn ascending<V>(rows: Seq<Row<V>>) -> bool {
    forall|i: int, j: int|
        0 <= i < j < rows.len() ==> text::precedes(
            (#[trigger] rows[i]).key@,
            (#[trigger] rows[j]).key@,
        )
}

spec fn holds<V>(rows: Seq<Row<V>>, k: Seq<char>) -> bool {
    exists|i: int| 0 <= i < rows.len() && (#[trigger] rows[i]).key@ == k
}

spec fn place<V>(rows: Seq<Row<V>>, k: Seq<char>) -> int {
    choose|i: int| 0 <= i < rows.len() && (#[trigger] rows[i]).key@ == k
}

spec fn map_of<V>(rows: Seq<Row<V>>) -> Map<Seq<char>, V> {
    Map::new(|k: Seq<char>| holds(rows, k), |k: Seq<char>| rows[place(rows, k)].value)
}

proof fn lemma_place<V>(rows: Seq<Row<V>>, i: int)
    requires
        ascending(rows),
        0 <= i < rows.len(),
    ensures
        holds(rows, rows[i].key@),
        place(rows, rows[i].key@) == i,
        map_of(rows).dom().contains(rows[i].key@),
        map_of(rows)[rows[i].key@] == rows[i].value,
{
    let k = rows[i].key@;
    let j = place(rows, k);
    assert(holds(rows, k));
    assert(0 <= j < rows.len() && rows[j].key@ == k);
    text::lemma_precedes_irreflexive(k);
    if j < i {
        assert(text::precedes(rows[j].key@, rows[i].key@));
    } else if i < j {
        assert(text::precedes(rows[i].key@, rows[j].key@));
    }
}

proof fn lemma_map_is<V>(rows: Seq<Row<V>>, m: Map<Seq<char>, V>)
    requires
        ascending(rows),
        forall|i: int|
            0 <= i < rows.len() ==> m.dom().contains((#[trigger] rows[i]).key@)
                && m[rows[i].key@] == rows[i].value,
        forall|k: Seq<char>| m.dom().contains(k) ==> holds(rows, k),
    ensures
        map_of(rows) == m,
{
    assert forall|k: Seq<char>| map_of(rows).dom().contains(k) implies m.dom().contains(k)
        && map_of(rows)[k] == m[k] by {
        let i = place(rows, k);
        assert(rows[i].key@ == k);
    }
    assert(map_of(rows) =~= m);
}

impl<V> View for TextMap<V> {
    type V = Map<Seq<char>, V>;

    closed spec fn view(&self) -> Map<Seq<char>, V> {
        map_of(self.rows@)
    }
}

impl<V> TextMap<V> {
    #[verifier::type_invariant]
    spec fn ordered(self) -> bool {
        ascending(self.rows@)
    }

    /// The keys, in order.
    pub closed spec fn keys(&self) -> Seq<Seq<char>> {
        self.rows@.map_values(|r: Row<V>| r.key@)
    }

    /// The keys are those of the map, each once, in ascending order.
    pub open spec fn lists_keys(&self) -> bool {
        &&& forall|k: Seq<char>| self@.dom().contains(k) <==> self.keys().contains(k)
        &&& forall|i: int, j: int|
            0 <= i < j < self.keys().len() ==> text::precedes(
                #[trigger] self.keys()[i],
                #[trigger] self.keys()[j],
            )
    }

    /// The empty map.
    pub fn new() -> (m: Self)
        ensures
            m@ == Map::<Seq<char>, V>::empty(),
            m.keys().len() == 0,
    {
        let m = TextMap { rows: Vec::new() };
        assert(m@ =~= Map::empty());
        m
    }

    /// The number of entries.
    pub fn len(&self) -> (n: usize)
        ensures
            n == self.keys().len(),
            self.lists_keys(),
            self@.dom().finite(),
            n == self@.dom().len(),
    {
        proof {
            use_type_invariant(self);
            self.lemma_keys();
            let keys = self.keys();
            assert forall|i: int, j: int| 0 <= i < j < keys.len() implies keys[i] != keys[j] by {
                text::lemma_precedes_irreflexive(keys[i]);
                assert(text::precedes(keys[i], keys[j]));
            }
            keys.unique_seq_to_set();
            assert(keys.to_set() =~= self@.dom());
        }
        self.rows.len()
    }

    proof fn lemma_keys(&self)
        requires
            ascending(self.rows@),
        ensures
            self.lists_keys(),
            self.keys().len() == self.rows@.len(),
    {
        assert forall|k: Seq<char>| self@.dom().contains(k) implies self.keys().contains(k) by {
            let i = place(self.rows@, k);
            assert(self.keys()[i] == k);
        }
        assert forall|k: Seq<char>| self.keys().contains(k) implies self@.dom().contains(k) by {
            let i = choose|i: int| 0 <= i < self.keys().len() && self.keys()[i] == k;
            assert(self.rows@[i].key@ == k);
        }
    }

    /// Whether the map has no entry.
    pub fn is_empty(&self) -> (r: bool)
        ensures
            r == (self@ == Map::<Seq<char>, V>::empty()),
            r == (self.keys().len() == 0),
    {
        let n: usize = self.len();
        proof {
            if n == 0 {
                assert(self@ =~= Map::empty());
            } else {
                assert(self.keys().contains(self.keys()[0]));
            }
        }
        n == 0
    }

    /// The key of the entry at `i`, in the order of the keys.
    pub fn key_at(&self, i: usize) -> (k: &str)
        requires
            i < self.keys().len(),
        ensures
            k@ == self.keys()[i as int],
            self@.dom().contains(k@),
    {
        proof {
            use_type_invariant(self);
            lemma_place(self.rows@, i as int);
        }
        self.rows[i].key.as_str()
    }

    /// The value of the entry at `i`, in the order of the keys.
    pub fn value_at(&self, i: usize) -> (v: &V)
        requires
            i < self.keys().len(),
        ensures
            *v == self@[self.keys()[i as int]],
            self@.dom().contains(self.keys()[i as int]),
    {
        proof {
            use_type_invariant(self);
            lemma_place(self.rows@, i as int);
        }
        &self.rows[i].value
    }

    /// The value of `key`, if it is in the map.
    pub fn get(&self, key: &str) -> (r: Option<&V>)
        ensures
            match r {
                Some(v) => self@.dom().contains(key@) && *v == self@[key@],
                None => !self@.dom().contains(key@),
            },
    {
        proof {
            use_type_invariant(self);
        }
        let mut i: usize = 0;
        while i < self.rows.len()
            invariant
                i <= self.rows@.len(),
                ascending(self.rows@),
                forall|j: int| 0 <= j < i ==> (#[trigger] self.rows@[j]).key@ != key@,
            decreases self.rows@.len() - i,
        {
            if text::str_eq(self.rows[i].key.as_str(), key) {
                proof {
                    lemma_place(self.rows@, i as int);
                }
                return Some(&self.rows[i].value);
            }
            i = i + 1;
        }
        None
    }

    /// Whether `key` is in the map.
    pub fn contains_key(&self, key: &str) -> (r: bool)
        ensures
            r == self@.dom().contains(key@),
    {
        self.get(key).is_some()
    }

    /// Puts `value` under `key`; returns the value that it replaces.
    pub fn insert(&mut self, key: String, value: V) -> (r: Option<V>)
        ensures
            final(self)@ == old(self)@.insert(key@, value),
            match r {
                Some(v) => old(self)@.dom().contains(key@) && v == old(self)@[key@],
                None => !old(self)@.dom().contains(key@),
            },
    {
        proof {
            use_type_invariant(&*self);
        }
        let mut rows: Vec<Row<V>> = Vec::new();
        std::mem::swap(&mut rows, &mut self.rows);
        let ghost before = rows@;
        let ghost k = key@;
        let mut p: usize = 0;
        while p < rows.len() && text::before(rows[p].key.as_str(), key.as_str())
            invariant
                rows@ == before,
                ascending(before),
                p <= rows@.len(),
                key@ == k,
                forall|j: int| 0 <= j < p ==> text::precedes((#[trigger] rows@[j]).key@, k),
            ensures
                rows@ == before,
                p <= rows@.len(),
                key@ == k,
                forall|j: int| 0 <= j < p ==> text::precedes((#[trigger] rows@[j]).key@, k),
                p < rows@.len() ==> !text::precedes(rows@[p as int].key@, k),
            decreases rows@.len() - p,
        {
            p = p + 1;
        }
        let ghost m = map_of(before).insert(k, value);
        if p < rows.len() && text::str_eq(rows[p].key.as_str(), key.as_str()) {
            let mut row = Row { key, value };
            std::mem::swap(&mut rows[p], &mut row);
            proof {
                assert(row == before[p as int]);
                lemma_place(before, p as int);
                assert(rows@ =~= before.update(p as int, Row { key, value }));
                assert(ascending(rows@)) by {
                    assert forall|i: int, j: int| 0 <= i < j < rows@.len() implies text::precedes(
                        (#[trigger] rows@[i]).key@,
                        (#[trigger] rows@[j]).key@,
                    ) by {
                        assert(before[i].key@ == rows@[i].key@);
                        assert(before[j].key@ == rows@[j].key@);
                    }
                }
                assert forall|i: int| 0 <= i < rows@.len() implies m.dom().contains(
                    (#[trigger] rows@[i]).key@,
                ) && m[rows@[i].key@] == rows@[i].value by {
                    lemma_place(before, i);
                    if i != p {
                        text::lemma_precedes_irreflexive(k);
                        if i < p {
                            assert(text::precedes(before[i].key@, before[p as int].key@));
                        } else {
                            assert(text::precedes(before[p as int].key@, before[i].key@));
                        }
                    }
                }
                assert forall|q: Seq<char>| m.dom().contains(q) implies holds(rows@, q) by {
                    if q == k {
                        assert(rows@[p as int].key@ == q);
                    } else {
                        let i = place(before, q);
                        assert(before[i].key@ == q);
                        assert(rows@[i].key@ == q);
                    }
                }
                lemma_map_is(rows@, m);
            }
            self.rows = rows;
            return Some(row.value);
        }
        proof {
            assert forall|i: int| p <= i < before.len() implies text::precedes(
                k,
                (#[trigger] before[i]).key@,
            ) by {
                text::lemma_precedes_total(before[p as int].key@, k);
                if i > p {
                    assert(text::precedes(before[p as int].key@, before[i].key@));
                    text::lemma_precedes_transitive(k, before[p as int].key@, before[i].key@);
                }
            }
        }
        rows.insert(p, Row { key, value });
        proof {
            let row = Row { key, value };
            assert(rows@ =~= before.insert(p as int, row));
            assert forall|i: int, j: int| 0 <= i < j < rows@.len() implies text::precedes(
                (#[trigger] rows@[i]).key@,
                (#[trigger] rows@[j]).key@,
            ) by {
                if i < p {
                    assert(rows@[i] == before[i]);
                    if j < p {
                        assert(rows@[j] == before[j]);
                    } else if j > p {
                        assert(rows@[j] == before[j - 1]);
                    }
                } else if i == p {
                    assert(rows@[j] == before[j - 1]);
                } else {
                    assert(rows@[i] == before[i - 1]);
                    assert(rows@[j] == before[j - 1]);
                }
            }
            assert(!holds(before, k)) by {
                if holds(before, k) {
                    let i = place(before, k);
                    assert(before[i].key@ == k);
                    text::lemma_precedes_irreflexive(k);
                    if i < p {
                        assert(text::precedes(before[i].key@, k));
                    } else {
                        assert(text::precedes(k, before[i].key@));
                    }
                }
            }
            assert forall|i: int| 0 <= i < rows@.len() implies m.dom().contains(
                (#[trigger] rows@[i]).key@,
            ) && m[rows@[i].key@] == rows@[i].value by {
                if i < p {
                    assert(rows@[i] == before[i]);
                    lemma_place(before, i);
                } else if i > p {
                    assert(rows@[i] == before[i - 1]);
                    lemma_place(before, i - 1);
                }
            }
            assert forall|q: Seq<char>| m.dom().contains(q) implies holds(rows@, q) by {
                if q == k {
                    assert(rows@[p as int].key@ == q);
                } else {
                    let i = place(before, q);
                    assert(before[i].key@ == q);
                    if i < p {
                        assert(rows@[i].key@ == q);
                    } else {
                        assert(rows@[i + 1].key@ == q);
                    }
                }
            }
            lemma_map_is(rows@, m);
        }
        self.rows = rows;
        None
    }

    /// Takes the entry of `key` out of the map.
    pub fn remove(&mut self, key: &str) -> (r: Option<V>)
        ensures
            final(self)@ == old(self)@.remove(key@),
            match r {
                Some(v) => old(self)@.dom().contains(key@) && v == old(self)@[key@],
                None => !old(self)@.dom().contains(key@),
            },
    {
        proof {
            use_type_invariant(&*self);
        }
        let mut rows: Vec<Row<V>> = Vec::new();
        std::mem::swap(&mut rows, &mut self.rows);
        let ghost before = rows@;
        let ghost m = map_of(before).remove(key@);
        let mut p: usize = 0;
        while p < rows.len() && !text::str_eq(rows[p].key.as_str(), key)
            invariant
                rows@ == before,
                p <= rows@.len(),
                forall|j: int| 0 <= j < p ==> (#[trigger] rows@[j]).key@ != key@,
            ensures
                rows@ == before,
                p <= rows@.len(),
                forall|j: int| 0 <= j < p ==> (#[trigger] rows@[j]).key@ != key@,
                p < rows@.len() ==> rows@[p as int].key@ == key@,
            decreases rows@.len() - p,
        {
            p = p + 1;
        }
        if p == rows.len() {
            proof {
                assert(!holds(before, key@));
                assert(m =~= map_of(before));
            }
            self.rows = rows;
            return None;
        }
        let row = rows.remove(p);
        proof {
            assert(rows@ =~= before.remove(p as int));
            assert forall|i: int, j: int| 0 <= i < j < rows@.len() implies text::precedes(
                (#[trigger] rows@[i]).key@,
                (#[trigger] rows@[j]).key@,
            ) by {
                assert(rows@[i] == before[if i < p { i } else { i + 1 }]);
                assert(rows@[j] == before[if j < p { j } else { j + 1 }]);
            }
            lemma_place(before, p as int);
            text::lemma_precedes_irreflexive(key@);
            assert forall|i: int| 0 <= i < rows@.len() implies m.dom().contains(
                (#[trigger] rows@[i]).key@,
            ) && m[rows@[i].key@] == rows@[i].value by {
                if i < p {
                    assert(rows@[i] == before[i]);
                    lemma_place(before, i);
                } else {
                    assert(rows@[i] == before[i + 1]);
                    lemma_place(before, i + 1);
                    assert(text::precedes(before[p as int].key@, before[i + 1].key@));
                }
            }
            assert forall|q: Seq<char>| m.dom().contains(q) implies holds(rows@, q) by {
                let i = place(before, q);
                assert(before[i].key@ == q);
                if i < p {
                    assert(rows@[i].key@ == q);
                } else {
                    assert(i != p);
                    assert(rows@[i - 1].key@ == q);
                }
            }
            lemma_map_is(rows@, m);
        }
        self.rows = rows;
        Some(row.value)
    }
}

} // verus!
