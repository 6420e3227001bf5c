//! The table of discovered ceilings.

use vstd::prelude::*;
use vstd::string::*;

use crate::clock;
use crate::detection::MIN_AUTOPROBE_FLOOR;
use crate::detection_laws;
use crate::detection_laws::Reply;
use crate::error::Error;
use crate::probe;
use crate::probe::{Entry, MaxTokensTableFile, OperatorCap, ProbeOutcome, ProbeTransport};
use crate::sidecar::FileRead;
use crate::text;
use crate::text_map::TextMap;

verus! {

/// A provider and a model.
pub type Pair = (Seq<char>, Seq<char>);

/// The entries of a map of maps, by provider and model.
pub open spec fn flat(rows: Map<Seq<char>, TextMap<Entry>>) -> Map<Pair, Entry> {
    Map::new(
        |k: Pair| rows.dom().contains(k.0) && rows[k.0]@.dom().contains(k.1),
        |k: Pair| rows[k.0]@[k.1],
    )
}

/// The ceilings that were discovered, by provider and model.
pub struct MaxTokensTable {
    rows: TextMap<TextMap<Entry>>,
    floor: u32,
    probe_tasks_started: u32,
    persist_path: Option<String>,
}

impl MaxTokensTable {
    #[verifier::type_invariant]
    spec fn floored(self) -> bool {
        self.floor >= MIN_AUTOPROBE_FLOOR
    }

    /// The entries, by provider and model.
    pub closed spec fn entries(&self) -> Map<Pair, Entry> {
        flat(self.rows@)
    }

    /// The smallest ceiling that a discovery may yield.
    pub closed spec fn floor_spec(&self) -> u32 {
        self.floor
    }

    /// The number of probe tasks that were started.
    pub closed spec fn tasks(&self) -> u32 {
        self.probe_tasks_started
    }

    /// The file that the table is kept in.
    pub closed spec fn path(&self) -> Option<String> {
        self.persist_path
    }

    /// The ceiling that the table holds for a model.
    pub open spec fn remembered(&self, provider: Seq<char>, model: Seq<char>) -> Option<u32> {
        if self.entries().dom().contains((provider, model)) {
            Some(self.entries()[(provider, model)].max_tokens)
        } else {
            None
        }
    }

    /// A table that remembers nothing and is kept nowhere.
    pub fn empty(floor: u32) -> (t: Self)
        ensures
            t.entries() == Map::<Pair, Entry>::empty(),
            t.floor_spec() == if floor < MIN_AUTOPROBE_FLOOR {
                MIN_AUTOPROBE_FLOOR
            } else {
                floor
            },
            t.tasks() == 0,
            t.path() is None,
    {
        let t = MaxTokensTable {
            rows: TextMap::new(),
            floor: if floor < MIN_AUTOPROBE_FLOOR {
                MIN_AUTOPROBE_FLOOR
            } else {
                floor
            },
            probe_tasks_started: 0,
            persist_path: None,
        };
        assert(t.entries() =~= Map::empty());
        t
    }

    /// The table that a file holds. It is written back to `path` only where
    /// `save` says so.
    pub fn from_file(file: MaxTokensTableFile, path: &str, floor: u32, save: bool) -> (t: Self)
        ensures
            t.entries() == flat(file.providers@),
            t.floor_spec() == if floor < MIN_AUTOPROBE_FLOOR {
                MIN_AUTOPROBE_FLOOR
            } else {
                floor
            },
            t.tasks() == 0,
            match t.path() {
                Some(p) => save && p@ == path@,
                None => !save,
            },
    {
        MaxTokensTable {
            rows: file.providers,
            floor: if floor < MIN_AUTOPROBE_FLOOR {
                MIN_AUTOPROBE_FLOOR
            } else {
                floor
            },
            probe_tasks_started: 0,
            persist_path: if save {
                Some(path.to_owned())
            } else {
                None
            },
        }
    }

    /// The table at `path`, from what came of reading the file there.
    pub fn from_path(
        path: &str,
        floor: u32,
        save: bool,
        read: FileRead<MaxTokensTableFile>,
    ) -> (r: Result<Self, Error>)
        ensures
            match read {
                FileRead::Missing => r matches Ok(t) && t.entries() == Map::<Pair, Entry>::empty(),
                FileRead::Unreadable(m) => r == Err::<Self, Error>(Error::Io(m)),
                FileRead::Malformed(m) => r matches Err(Error::Provider { message, http_status })
                    && message@ == crate::sidecar::malformed_text(
                    "max_tokens_auto.toml"@,
                    path@,
                    m@,
                ) && http_status is None,
                FileRead::Parsed(f) => if f.schema_version > probe::MAX_TOKENS_SCHEMA_VERSION {
                    r matches Err(Error::Provider { message, http_status }) && message@
                        == crate::sidecar::too_new_text(
                        "max_tokens_auto.toml"@,
                        path@,
                        f.schema_version,
                        probe::MAX_TOKENS_SCHEMA_VERSION,
                    ) && http_status is None
                } else {
                    r matches Ok(t) && t.entries() == flat(f.providers@)
                },
            },
            r matches Ok(t) ==> t.floor_spec() == (if floor < MIN_AUTOPROBE_FLOOR {
                MIN_AUTOPROBE_FLOOR
            } else {
                floor
            }) && t.tasks() == 0 && (match t.path() {
                Some(p) => save && p@ == path@,
                None => !save,
            }),
    {
        match MaxTokensTableFile::load(path, read) {
            Ok(file) => {
                let t = MaxTokensTable::from_file(file, path, floor, save);
                proof {
                    if read is Missing {
                        assert(t.entries() =~= Map::empty());
                    }
                }
                Ok(t)
            },
            Err(e) => Err(e),
        }
    }

    /// The entry of a model.
    pub fn get(&self, provider: &str, model: &str) -> (r: Option<Entry>)
        ensures
            match r {
                Some(e) => self.entries().dom().contains((provider@, model@)) && e
                    == self.entries()[(provider@, model@)],
                None => !self.entries().dom().contains((provider@, model@)),
            },
    {
        match self.rows.get(provider) {
            Some(models) => match models.get(model) {
                Some(e) => Some(e.clone()),
                None => None,
            },
            None => None,
        }
    }

    /// The ceiling that the table holds for a model.
    pub fn resolve_cached(&self, provider: &str, model: &str) -> (r: Option<u32>)
        ensures
            r == self.remembered(provider@, model@),
    {
        match self.get(provider, model) {
            Some(e) => Some(e.max_tokens),
            None => None,
        }
    }

    /// Raises the floor.
    pub fn set_floor_for(&mut self, _provider: &str, _model: &str, floor: u32)
        ensures
            final(self).floor_spec() == if floor > old(self).floor_spec() {
                floor
            } else {
                old(self).floor_spec()
            },
            final(self).entries() == old(self).entries(),
            final(self).tasks() == old(self).tasks(),
            final(self).path() == old(self).path(),
    {
        proof {
            use_type_invariant(&*self);
        }
        if floor > self.floor {
            self.floor = floor;
        }
    }

    /// The smallest ceiling that a discovery may yield; never below the
    /// smallest useful one.
    pub fn floor(&self) -> (r: u32)
        ensures
            r == self.floor_spec(),
            r >= MIN_AUTOPROBE_FLOOR,
    {
        proof {
            use_type_invariant(self);
        }
        self.floor
    }

    /// The number of probe tasks that were started.
    pub fn probe_tasks_started(&self) -> (r: u32)
        ensures
            r == self.tasks(),
    {
        self.probe_tasks_started
    }

    /// The file that the table is kept in.
    pub fn persist_path(&self) -> (r: &Option<String>)
        ensures
            *r == self.path(),
    {
        &self.persist_path
    }

    fn put(&mut self, provider: &str, model: &str, entry: Entry)
        ensures
            final(self).entries() == old(self).entries().insert((provider@, model@), entry),
            final(self).floor_spec() == old(self).floor_spec(),
            final(self).tasks() == old(self).tasks(),
            final(self).path() == old(self).path(),
    {
        proof {
            use_type_invariant(&*self);
        }
        let mut rows: TextMap<TextMap<Entry>> = TextMap::new();
        std::mem::swap(&mut rows, &mut self.rows);
        let ghost before = rows@;
        let mut models = match rows.remove(provider) {
            Some(m) => m,
            None => TextMap::new(),
        };
        let _ = models.insert(model.to_owned(), entry);
        let _ = rows.insert(provider.to_owned(), models);
        assert(flat(rows@) =~= flat(before).insert((provider@, model@), entry));
        self.rows = rows;
    }

    fn drop_entry(&mut self, provider: &str, model: &str)
        ensures
            final(self).entries() == old(self).entries().remove((provider@, model@)),
            final(self).floor_spec() == old(self).floor_spec(),
            final(self).tasks() == old(self).tasks(),
            final(self).path() == old(self).path(),
    {
        proof {
            use_type_invariant(&*self);
        }
        let mut rows: TextMap<TextMap<Entry>> = TextMap::new();
        std::mem::swap(&mut rows, &mut self.rows);
        let ghost before = rows@;
        if let Some(mut models) = rows.remove(provider) {
            let _ = models.remove(model);
            let ghost left = models;
            assert(left@ == before[provider@]@.remove(model@));
            if !models.is_empty() {
                let _ = rows.insert(provider.to_owned(), models);
                assert(rows@ == before.remove(provider@).insert(provider@, left));
                assert(flat(rows@) =~= flat(before).remove((provider@, model@)));
            } else {
                assert forall|m: Seq<char>| m != model@ implies !before[provider@]@.dom().contains(
                    m,
                ) by {
                    assert(!left@.dom().contains(m));
                }
                assert(flat(rows@) =~= flat(before).remove((provider@, model@)));
            }
        } else {
            assert(flat(rows@) =~= flat(before).remove((provider@, model@)));
        }
        self.rows = rows;
    }

    /// Remembers a discovered ceiling. `attempts` is the number of probes that
    /// the discovery took.
    pub fn store_detection(
        &mut self,
        provider: &str,
        model: &str,
        attempts: u32,
        discovered: u32,
        named: Option<u32>,
        now: &str,
    )
        requires
            old(self).tasks() < u32::MAX,
        ensures
            final(self).tasks() == old(self).tasks() + 1,
            final(self).floor_spec() == old(self).floor_spec(),
            final(self).path() == old(self).path(),
            exists|e: Entry|
                {
                    &&& #[trigger] is_detection(e, discovered, named, now@)
                    &&& e.attempts == attempts
                    &&& final(self).entries() == old(self).entries().insert(
                        (provider@, model@),
                        e,
                    )
                },
    {
        proof {
            use_type_invariant(&*self);
        }
        self.probe_tasks_started = self.probe_tasks_started + 1;
        let ceiling = match named {
            Some(c) => if c <= discovered {
                Some(c)
            } else {
                None
            },
            None => None,
        };
        let entry = Entry {
            max_tokens: discovered,
            detected_at: now.to_owned(),
            verified_at: now.to_owned(),
            auto: true,
            attempts,
            ceiling,
        };
        assert(is_detection(entry, discovered, named, now@));
        self.put(provider, model, entry);
    }

    /// Discovers the ceiling of a model and remembers it. A discovery that
    /// fails leaves the table as it was.
    pub fn probe_and_store<T: ProbeTransport>(
        &mut self,
        provider: &str,
        model: &str,
        transport: &T,
        ceiling: u32,
    ) -> (r: Result<u32, Error>)
        requires
            ceiling >= MIN_AUTOPROBE_FLOOR,
            old(self).tasks() < u32::MAX,
        ensures
            exists|h: Seq<Reply>, named: Option<u32>| #[trigger]
                probe::discovery_ends(old(self).floor_spec(), ceiling, h, r, named)
                    && probe::came_over(transport, ceiling, h) && (match r {
                    Ok(d) => exists|e: Entry, now: Seq<char>|
                        {
                            &&& #[trigger] is_detection(e, d, named, now)
                            &&& e.attempts == detection_laws::probes(h)
                            &&& final(self).entries() == old(self).entries().insert(
                                (provider@, model@),
                                e,
                            )
                            &&& final(self).tasks() == old(self).tasks() + 1
                        },
                    Err(_) => *final(self) == *old(self),
                }),
            final(self).floor_spec() == old(self).floor_spec(),
            final(self).path() == old(self).path(),
    {
        let floor: u32 = self.floor();
        let found = probe::discover(transport, floor, ceiling);
        match found.result {
            Ok(d) => {
                let now = clock::now_rfc3339();
                self.store_detection(
                    provider,
                    model,
                    found.probes,
                    d,
                    found.named,
                    now.as_str(),
                );
                Ok(d)
            },
            Err(e) => Err(e),
        }
    }

    /// Takes the outcome of probing the remembered ceiling of a model: an
    /// acceptance renews the entry, anything else drops it.
    pub fn record_verification(
        &mut self,
        provider: &str,
        model: &str,
        outcome: ProbeOutcome,
        now: &str,
    ) -> (r: bool)
        requires
            old(self).tasks() < u32::MAX,
        ensures
            r == (outcome == ProbeOutcome::Accepted),
            final(self).tasks() == old(self).tasks() + 1,
            final(self).floor_spec() == old(self).floor_spec(),
            final(self).path() == old(self).path(),
            verified(old(self).entries(), final(self).entries(), (provider@, model@), r, now@),
    {
        proof {
            use_type_invariant(&*self);
        }
        self.probe_tasks_started = self.probe_tasks_started + 1;
        if outcome == ProbeOutcome::Accepted {
            let ghost before = self.entries();
            if let Some(mut e) = self.get(provider, model) {
                e.verified_at = now.to_owned();
                assert(renewed(before[(provider@, model@)], e, now@));
                self.put(provider, model, e);
            }
            true
        } else {
            self.drop_entry(provider, model);
            false
        }
    }

    /// Probes the remembered ceiling of a model. Where nothing is remembered
    /// nothing happens.
    pub fn verify<T: ProbeTransport>(&mut self, provider: &str, model: &str, transport: &T) -> (r:
        Result<bool, Error>)
        requires
            old(self).tasks() < u32::MAX,
        ensures
            r is Ok,
            !old(self).entries().dom().contains((provider@, model@)) ==> r == Ok::<bool, Error>(
                false,
            ) && *final(self) == *old(self),
            old(self).entries().dom().contains((provider@, model@)) ==> final(self).tasks()
                == old(self).tasks() + 1,
            old(self).entries().dom().contains((provider@, model@)) ==> (r matches Ok(accepted)
                && checked(
                old(self).entries(),
                final(self).entries(),
                (provider@, model@),
                accepted,
            ) && exists|outcome: ProbeOutcome|
                accepted == (outcome == ProbeOutcome::Accepted) && #[trigger] probe::may_answer(
                    transport,
                    old(self).entries()[(provider@, model@)].max_tokens,
                    outcome,
                )),
            final(self).floor_spec() == old(self).floor_spec(),
            final(self).path() == old(self).path(),
    {
        let cached: u32 = match self.resolve_cached(provider, model) {
            Some(n) => n,
            None => return Ok(false),
        };
        let outcome = transport.probe_send(cached);
        let now = clock::now_rfc3339();
        let accepted = self.record_verification(provider, model, outcome, now.as_str());
        assert(probe::may_answer(transport, cached, outcome));
        assert(verified(
            old(self).entries(),
            self.entries(),
            (provider@, model@),
            accepted,
            now@,
        ));
        assert(checked(old(self).entries(), self.entries(), (provider@, model@), accepted));
        Ok(accepted)
    }

    /// The file to write in place of `on_disk`: it holds the table's entries,
    /// and the caps of the operator that stand in `on_disk`.
    pub fn to_file(&self, on_disk: MaxTokensTableFile) -> (f: MaxTokensTableFile)
        ensures
            is_written(*self, on_disk, f),
            forall|p: Seq<char>| #[trigger]
                f.providers@.dom().contains(p) ==> f.providers@[p]@ != Map::<
                    Seq<char>,
                    Entry,
                >::empty(),
    {
        let ghost caps = on_disk.operator_caps;
        let mut file = MaxTokensTableFile::new_empty();
        file.operator_caps = on_disk.operator_caps;
        let n: usize = self.rows.len();
        let mut i: usize = 0;
        while i < n
            invariant
                i <= n,
                n == self.rows.keys().len(),
                self.rows.lists_keys(),
                file.schema_version == probe::MAX_TOKENS_SCHEMA_VERSION,
                file.operator_caps == caps,
                forall|p: Seq<char>| #[trigger]
                    file.providers@.dom().contains(p) ==> {
                        &&& self.rows@.dom().contains(p)
                        &&& file.providers@[p]@ == self.rows@[p]@
                        &&& file.providers@[p]@ != Map::<Seq<char>, Entry>::empty()
                    },
                forall|j: int|
                    0 <= j < i ==> self.rows@[#[trigger] self.rows.keys()[j]]@ == Map::<
                        Seq<char>,
                        Entry,
                    >::empty() || file.providers@.dom().contains(self.rows.keys()[j]),
            decreases n - i,
        {
            let provider = self.rows.key_at(i);
            let models = self.rows.value_at(i);
            if !models.is_empty() {
                let copy = copy_models(models);
                let _ = file.providers.insert(provider.to_owned(), copy);
            }
            i = i + 1;
        }
        proof {
            assert forall|k: Pair| flat(self.rows@).dom().contains(k) implies flat(
                file.providers@,
            ).dom().contains(k) by {
                assert(self.rows.keys().contains(k.0));
                let j = choose|j: int| 0 <= j < self.rows.keys().len() && self.rows.keys()[j] == k.0;
                assert(self.rows.keys()[j] == k.0);
            }
            assert(flat(file.providers@) =~= self.entries());
        }
        file
    }

    /// The file to write in place of `file` so that it remembers a cap of the
    /// operator; `None` where the table is kept nowhere.
    pub fn set_operator_cap_at(
        &self,
        file: MaxTokensTableFile,
        provider: &str,
        min: u32,
        now: &str,
    ) -> (r: Option<MaxTokensTableFile>)
        ensures
            match r {
                None => self.path() is None,
                Some(f) => self.path() is Some && cap_set(file, f, provider@, min, now@),
            },
    {
        if self.persist_path.is_none() {
            return None;
        }
        let ghost before = file;
        let mut file = file;
        let cap = OperatorCap { min, auto: false, detected_at: now.to_owned() };
        let _ = file.operator_caps.insert(provider.to_owned(), cap);
        assert(cap_set(before, file, provider@, min, now@));
        Some(file)
    }

    /// The file to write in place of `file` so that it remembers, as of now, a
    /// cap of the operator; `None` where the table is kept nowhere.
    pub fn set_operator_cap(&self, file: MaxTokensTableFile, provider: &str, min: u32) -> (r:
        Option<MaxTokensTableFile>)
        ensures
            match r {
                None => self.path() is None,
                Some(f) => self.path() is Some && exists|now: Seq<char>| #[trigger]
                    cap_set(file, f, provider@, min, now),
            },
    {
        let now = clock::now_rfc3339();
        self.set_operator_cap_at(file, provider, min, now.as_str())
    }

    /// The providers and models that have an entry, in order.
    fn pair_list(&self) -> (r: Vec<(String, String)>)
        ensures
            forall|i: int|
                0 <= i < r@.len() ==> self.entries().dom().contains(
                    #[trigger] pair_views(r@)[i],
                ),
            forall|k: Pair| self.entries().dom().contains(k) ==> pair_views(r@).contains(k),
            ascending_pairs(pair_views(r@)),
    {
        let mut out: Vec<(String, String)> = Vec::new();
        let n: usize = self.rows.len();
        let mut i: usize = 0;
        while i < n
            invariant
                i <= n,
                n == self.rows.keys().len(),
                self.rows.lists_keys(),
                walked(&self.rows, pair_views(out@), i as int, 0),
            decreases n - i,
        {
            let provider = self.rows.key_at(i);
            let models = self.rows.value_at(i);
            let m: usize = models.len();
            let mut j: usize = 0;
            while j < m
                invariant
                    i < n,
                    j <= m,
                    n == self.rows.keys().len(),
                    self.rows.lists_keys(),
                    provider@ == self.rows.keys()[i as int],
                    self.rows@.dom().contains(provider@),
                    *models == self.rows@[provider@],
                    m == models.keys().len(),
                    models.lists_keys(),
                    walked(&self.rows, pair_views(out@), i as int, j as int),
                decreases m - j,
            {
                let model = models.key_at(j);
                let ghost before = pair_views(out@);
                out.push((provider.to_owned(), model.to_owned()));
                proof {
                    assert(pair_views(out@) =~= before.push((provider@, model@)));
                    lemma_walk_on(&self.rows, before, i as int, j as int);
                }
                j = j + 1;
            }
            proof {
                lemma_walk_over(&self.rows, pair_views(out@), i as int);
            }
            i = i + 1;
        }
        proof {
            lemma_walk_ends(&self.rows, pair_views(out@));
        }
        out
    }

    /// The entries in the order of provider and model.
    pub fn iter(&self) -> (r: Vec<((String, String), Entry)>)
        ensures
            forall|i: int|
                0 <= i < r@.len() ==> self.entries().dom().contains(row_key(#[trigger] r@[i]))
                    && r@[i].1 == self.entries()[row_key(r@[i])],
            forall|k: Pair|
                self.entries().dom().contains(k) ==> row_keys(r@).contains(k),
            ascending_pairs(row_keys(r@)),
    {
        let pairs = self.pair_list();
        let mut out: Vec<((String, String), Entry)> = Vec::new();
        let mut i: usize = 0;
        while i < pairs.len()
            invariant
                i <= pairs@.len(),
                out@.len() == i,
                forall|k: int|
                    0 <= k < pairs@.len() ==> self.entries().dom().contains(
                        #[trigger] pair_views(pairs@)[k],
                    ),
                forall|k: int|
                    0 <= k < i ==> row_key(#[trigger] out@[k]) == pair_views(pairs@)[k]
                        && out@[k].1 == self.entries()[pair_views(pairs@)[k]],
            decreases pairs@.len() - i,
        {
            let (provider, model) = &pairs[i];
            assert(pair_views(pairs@)[i as int] == (provider@, model@));
            if let Some(entry) = self.get(provider.as_str(), model.as_str()) {
                out.push(((provider.clone(), model.clone()), entry));
            }
            i = i + 1;
        }
        assert(row_keys(out@) =~= pair_views(pairs@));
        out
    }

    /// The number of entries.
    pub fn len(&self) -> (n: usize)
        ensures
            self.entries().dom().finite(),
            n == self.entries().dom().len(),
    {
        let pairs = self.pair_list();
        proof {
            let keys = pair_views(pairs@);
            lemma_ascending_unique(keys);
            keys.unique_seq_to_set();
            assert(keys.to_set() =~= self.entries().dom());
        }
        pairs.len()
    }

    /// Whether the table has no entry.
    pub fn is_empty(&self) -> (r: bool)
        ensures
            r == (self.entries() == Map::<Pair, Entry>::empty()),
    {
        let pairs = self.pair_list();
        proof {
            let keys = pair_views(pairs@);
            if keys.len() == 0 {
                assert(self.entries() =~= Map::empty());
            } else {
                assert(self.entries().dom().contains(keys[0]));
            }
        }
        pairs.len() == 0
    }
}

/// The order of pairs: by the first component, then by the second.
pub open spec fn pair_precedes(a: Pair, b: Pair) -> bool {
    text::precedes(a.0, b.0) || (a.0 == b.0 && text::precedes(a.1, b.1))
}

/// The pairs stand in strictly ascending order.
pub open spec fn ascending_pairs(pairs: Seq<Pair>) -> bool {
    forall|i: int, j: int|
        0 <= i < j < pairs.len() ==> pair_precedes(#[trigger] pairs[i], #[trigger] pairs[j])
}

/// The provider and model of a row.
pub open spec fn row_key(row: ((String, String), Entry)) -> Pair {
    let ((provider, model), _) = row;
    (provider@, model@)
}

/// The providers and models of a list of rows.
pub open spec fn row_keys(rows: Seq<((String, String), Entry)>) -> Seq<Pair> {
    rows.map_values(|row: ((String, String), Entry)| row_key(row))
}

spec fn pair_views(pairs: Seq<(String, String)>) -> Seq<Pair> {
    pairs.map_values(|p: (String, String)| (p.0@, p.1@))
}

/// `e` remembers that `discovered` was found at `now`.
pub open spec fn is_detection(
    e: Entry,
    discovered: u32,
    named: Option<u32>,
    now: Seq<char>,
) -> bool {
    &&& e.max_tokens == discovered
    &&& e.detected_at@ == now
    &&& e.verified_at@ == now
    &&& e.auto
    &&& e.ceiling == (match named {
        Some(c) => if c <= discovered {
            Some(c)
        } else {
            None
        },
        None => None,
    })
}

/// `b` is `a`, accepted again at `now`.
pub open spec fn renewed(a: Entry, b: Entry, now: Seq<char>) -> bool {
    &&& b.max_tokens == a.max_tokens
    &&& b.detected_at == a.detected_at
    &&& b.verified_at@ == now
    &&& b.auto == a.auto
    &&& b.attempts == a.attempts
    &&& b.ceiling == a.ceiling
}

/// How the outcome of probing the entry of `key` changes the entries: an
/// acceptance renews it, anything else drops it, and no other entry changes.
pub open spec fn verified(
    before: Map<Pair, Entry>,
    after: Map<Pair, Entry>,
    key: Pair,
    accepted: bool,
    now: Seq<char>,
) -> bool {
    if !accepted {
        after == before.remove(key)
    } else if before.dom().contains(key) {
        &&& after.dom().contains(key)
        &&& renewed(before[key], after[key], now)
        &&& after == before.insert(key, after[key])
    } else {
        after == before
    }
}

/// The entry of `key` was probed, at some time, with the outcome `accepted`.
pub open spec fn checked(
    before: Map<Pair, Entry>,
    after: Map<Pair, Entry>,
    key: Pair,
    accepted: bool,
) -> bool {
    exists|now: Seq<char>| #[trigger] verified(before, after, key, accepted, now)
}

/// `after` is `before` with a cap of the operator for `provider`.
pub open spec fn cap_set(
    before: MaxTokensTableFile,
    after: MaxTokensTableFile,
    provider: Seq<char>,
    min: u32,
    now: Seq<char>,
) -> bool {
    &&& after.schema_version == before.schema_version
    &&& after.providers == before.providers
    &&& after.operator_caps@.dom().contains(provider)
    &&& after.operator_caps@ == before.operator_caps@.insert(
        provider,
        after.operator_caps@[provider],
    )
    &&& after.operator_caps@[provider].min == min
    &&& !after.operator_caps@[provider].auto
    &&& after.operator_caps@[provider].detected_at@ == now
}

/// `f` is the file that `t` writes in place of `on_disk`.
pub open spec fn is_written(
    t: MaxTokensTable,
    on_disk: MaxTokensTableFile,
    f: MaxTokensTableFile,
) -> bool {
    &&& f.schema_version == probe::MAX_TOKENS_SCHEMA_VERSION
    &&& f.operator_caps == on_disk.operator_caps
    &&& flat(f.providers@) == t.entries()
}

/// A copy of the entries of a provider.
fn copy_models(models: &TextMap<Entry>) -> (r: TextMap<Entry>)
    ensures
        r@ == models@,
{
    let mut r: TextMap<Entry> = TextMap::new();
    let n: usize = models.len();
    let mut i: usize = 0;
    while i < n
        invariant
            i <= n,
            n == models.keys().len(),
            models.lists_keys(),
            forall|k: Seq<char>| #[trigger]
                r@.dom().contains(k) ==> models@.dom().contains(k) && r@[k] == models@[k],
            forall|j: int| 0 <= j < i ==> r@.dom().contains(#[trigger] models.keys()[j]),
        decreases n - i,
    {
        let key = models.key_at(i).to_owned();
        let entry = models.value_at(i).clone();
        let _ = r.insert(key, entry);
        i = i + 1;
    }
    proof {
        assert forall|k: Seq<char>| models@.dom().contains(k) implies r@.dom().contains(k) by {
            assert(models.keys().contains(k));
            let j = choose|j: int| 0 <= j < models.keys().len() && models.keys()[j] == k;
            assert(models.keys()[j] == k);
        }
        assert(r@ =~= models@);
    }
    r
}

/// `(p, m)` comes before the `j`th model of the `i`th provider.
spec fn passed(rows: &TextMap<TextMap<Entry>>, i: int, j: int, p: Seq<char>, m: Seq<char>) -> bool {
    ||| exists|a: int| 0 <= a < i && #[trigger] rows.keys()[a] == p
    ||| i < rows.keys().len() && p == rows.keys()[i] && exists|b: int|
        0 <= b < j && #[trigger] rows@[p].keys()[b] == m
}

/// `pairs` lists, in order, what comes before the `j`th model of the `i`th
/// provider.
spec fn walked(rows: &TextMap<TextMap<Entry>>, pairs: Seq<Pair>, i: int, j: int) -> bool {
    &&& ascending_pairs(pairs)
    &&& forall|k: int|
        0 <= k < pairs.len() ==> flat(rows@).dom().contains(#[trigger] pairs[k]) && passed(
            rows,
            i,
            j,
            pairs[k].0,
            pairs[k].1,
        )
    &&& forall|p: Seq<char>, m: Seq<char>|
        #![trigger rows@[p]@.dom().contains(m)]
        rows@.dom().contains(p) && rows@[p]@.dom().contains(m) && passed(rows, i, j, p, m)
            ==> pairs.contains((p, m))
}

proof fn lemma_walk_on(rows: &TextMap<TextMap<Entry>>, pairs: Seq<Pair>, i: int, j: int)
    requires
        rows.lists_keys(),
        0 <= i < rows.keys().len(),
        rows@[rows.keys()[i]].lists_keys(),
        0 <= j < rows@[rows.keys()[i]].keys().len(),
        rows@.dom().contains(rows.keys()[i]),
        walked(rows, pairs, i, j),
    ensures
        walked(
            rows,
            pairs.push((rows.keys()[i], rows@[rows.keys()[i]].keys()[j])),
            i,
            j + 1,
        ),
{
    let p = rows.keys()[i];
    let inner = rows@[p];
    let m = inner.keys()[j];
    let next = pairs.push((p, m));
    assert(inner.keys().contains(m));
    assert(inner@.dom().contains(m));
    assert(flat(rows@).dom().contains((p, m)));
    assert forall|a: int, b: int| 0 <= a < b < next.len() implies pair_precedes(
        #[trigger] next[a],
        #[trigger] next[b],
    ) by {
        if b < pairs.len() {
            assert(next[a] == pairs[a] && next[b] == pairs[b]);
        } else {
            let q = pairs[a];
            assert(next[a] == q);
            assert(passed(rows, i, j, q.0, q.1));
        }
    }
    assert forall|k: int| 0 <= k < next.len() implies flat(rows@).dom().contains(
        #[trigger] next[k],
    ) && passed(rows, i, j + 1, next[k].0, next[k].1) by {
        if k < pairs.len() {
            assert(next[k] == pairs[k]);
        } else {
            assert(inner.keys()[j] == m);
        }
    }
    assert forall|q: Seq<char>, w: Seq<char>|
        #![trigger rows@[q]@.dom().contains(w)]
        rows@.dom().contains(q) && rows@[q]@.dom().contains(w) && passed(rows, i, j + 1, q, w) implies
        next.contains((q, w)) by {
        if passed(rows, i, j, q, w) {
            assert(pairs.contains((q, w)));
            let k = choose|k: int| 0 <= k < pairs.len() && pairs[k] == (q, w);
            assert(next[k] == (q, w));
        } else {
            assert(q == p && w == m);
            assert(next[pairs.len() as int] == (q, w));
        }
    }
}

proof fn lemma_walk_over(rows: &TextMap<TextMap<Entry>>, pairs: Seq<Pair>, i: int)
    requires
        rows.lists_keys(),
        0 <= i < rows.keys().len(),
        rows@[rows.keys()[i]].lists_keys(),
        walked(rows, pairs, i, rows@[rows.keys()[i]].keys().len() as int),
    ensures
        walked(rows, pairs, i + 1, 0),
{
    let p = rows.keys()[i];
    let inner = rows@[p];
    let j = inner.keys().len() as int;
    assert forall|k: int| 0 <= k < pairs.len() implies flat(rows@).dom().contains(
        #[trigger] pairs[k],
    ) && passed(rows, i + 1, 0, pairs[k].0, pairs[k].1) by {
        assert(passed(rows, i, j, pairs[k].0, pairs[k].1));
    }
    assert forall|q: Seq<char>, w: Seq<char>|
        #![trigger rows@[q]@.dom().contains(w)]
        rows@.dom().contains(q) && rows@[q]@.dom().contains(w) && passed(rows, i + 1, 0, q, w) implies
        pairs.contains((q, w)) by {
        let a = choose|a: int| 0 <= a < i + 1 && #[trigger] rows.keys()[a] == q;
        if a == i {
            assert(inner.keys().contains(w));
            let b = choose|b: int| 0 <= b < inner.keys().len() && inner.keys()[b] == w;
            assert(rows@[q].keys()[b] == w);
        }
        assert(passed(rows, i, j, q, w));
    }
}

proof fn lemma_walk_ends(rows: &TextMap<TextMap<Entry>>, pairs: Seq<Pair>)
    requires
        rows.lists_keys(),
        walked(rows, pairs, rows.keys().len() as int, 0),
    ensures
        forall|k: Pair| flat(rows@).dom().contains(k) ==> pairs.contains(k),
{
    assert forall|k: Pair| flat(rows@).dom().contains(k) implies pairs.contains(k) by {
        assert(rows.keys().contains(k.0));
        let a = choose|a: int| 0 <= a < rows.keys().len() && rows.keys()[a] == k.0;
        assert(rows.keys()[a] == k.0);
        assert(rows@[k.0]@.dom().contains(k.1));
        assert(k == (k.0, k.1));
    }
}

proof fn lemma_ascending_unique(pairs: Seq<Pair>)
    requires
        ascending_pairs(pairs),
    ensures
        pairs.no_duplicates(),
{
    assert forall|i: int, j: int| 0 <= i < j < pairs.len() implies pairs[i] != pairs[j] by {
        assert(pair_precedes(pairs[i], pairs[j]));
        text::lemma_precedes_irreflexive(pairs[i].0);
        text::lemma_precedes_irreflexive(pairs[i].1);
    }
}

/// What is stored for a model is what the table resolves it to, and no other
/// model is affected.
pub proof fn law_stored_ceiling_is_resolved(
    before: MaxTokensTable,
    after: MaxTokensTable,
    key: Pair,
    e: Entry,
)
    requires
        after.entries() == before.entries().insert(key, e),
    ensures
        after.remembered(key.0, key.1) == Some(e.max_tokens),
        forall|other: Pair| other != key ==> #[trigger] after.remembered(other.0, other.1)
            == before.remembered(other.0, other.1),
{
}

/// A ceiling that the upstream does not accept any more is forgotten; one that
/// it accepts stays as it is, and no other model is affected.
pub proof fn law_verification_keeps_or_forgets(
    before: MaxTokensTable,
    after: MaxTokensTable,
    key: Pair,
    accepted: bool,
)
    requires
        checked(before.entries(), after.entries(), key, accepted),
    ensures
        accepted ==> after.remembered(key.0, key.1) == before.remembered(key.0, key.1),
        !accepted ==> after.remembered(key.0, key.1) is None,
        forall|other: Pair| other != key ==> #[trigger] after.remembered(other.0, other.1)
            == before.remembered(other.0, other.1),
{
    let now = choose|now: Seq<char>|
        verified(before.entries(), after.entries(), key, accepted, now);
    assert(verified(before.entries(), after.entries(), key, accepted, now));
}

/// Writing a table to a file and reading the file back gives the entries of
/// the table, whatever the file held before.
pub proof fn law_file_round_trip(
    t: MaxTokensTable,
    on_disk: MaxTokensTableFile,
    f: MaxTokensTableFile,
    back: MaxTokensTable,
)
    requires
        is_written(t, on_disk, f),
        back.entries() == flat(f.providers@),
    ensures
        back.entries() == t.entries(),
        forall|p: Seq<char>, m: Seq<char>| #[trigger] back.remembered(p, m) == t.remembered(p, m),
{
}

/// A cap of the operator survives when a table is written to its file.
pub proof fn law_operator_caps_survive(
    t: MaxTokensTable,
    before: MaxTokensTableFile,
    pinned: MaxTokensTableFile,
    f: MaxTokensTableFile,
    provider: Seq<char>,
    min: u32,
    now: Seq<char>,
)
    requires
        cap_set(before, pinned, provider, min, now),
        is_written(t, pinned, f),
    ensures
        f.operator_caps@.dom().contains(provider),
        f.operator_caps@[provider].min == min,
        !f.operator_caps@[provider].auto,
{
}

/// A fresh entry tells what was found and when, by the discovery itself. It
/// keeps the ceiling that the upstream named just where that is not above what
/// was found.
pub proof fn law_fresh_entry(e: Entry, discovered: u32, named: Option<u32>, now: Seq<char>)
    requires
        is_detection(e, discovered, named, now),
    ensures
        e.max_tokens == discovered,
        e.auto,
        e.detected_at@ == now && e.verified_at@ == now,
        e.ceiling matches Some(c) ==> named == Some(c) && c <= discovered,
        named matches Some(c) ==> c <= discovered ==> e.ceiling == Some(c),
{
}

/// Of an entry that is accepted again only the time of its last acceptance
/// changes; when it was discovered, and what, stays.
pub proof fn law_renewal_keeps_the_entry(
    before: Map<Pair, Entry>,
    after: Map<Pair, Entry>,
    key: Pair,
    now: Seq<char>,
)
    requires
        verified(before, after, key, true, now),
        before.dom().contains(key),
    ensures
        after.dom() =~= before.dom(),
        after[key].verified_at@ == now,
        after[key] == (Entry { verified_at: after[key].verified_at, ..before[key] }),
        forall|other: Pair| other != key ==> after[other] == #[trigger] before[other],
{
}

/// A cap of the operator is set for one provider and marked as the operator's;
/// everything else in the file stays.
pub proof fn law_cap_is_set_for_one_provider(
    before: MaxTokensTableFile,
    after: MaxTokensTableFile,
    provider: Seq<char>,
    min: u32,
    now: Seq<char>,
)
    requires
        cap_set(before, after, provider, min, now),
    ensures
        after.operator_caps@[provider].min == min,
        after.operator_caps@[provider].detected_at@ == now,
        !after.operator_caps@[provider].auto,
        forall|other: Seq<char>| other != provider ==> (#[trigger] after.operator_caps@.dom().contains(
            other,
        ) <==> before.operator_caps@.dom().contains(other)),
        forall|other: Seq<char>|
            other != provider && before.operator_caps@.dom().contains(other)
                ==> #[trigger] after.operator_caps@[other] == before.operator_caps@[other],
        after.schema_version == before.schema_version,
        flat(after.providers@) == flat(before.providers@),
{
}

/// The entry of a provider's model is that of the model among the provider's,
/// and there are no others.
pub proof fn law_entries_by_pair(
    rows: Map<Seq<char>, TextMap<Entry>>,
    provider: Seq<char>,
    model: Seq<char>,
)
    ensures
        flat(rows).dom().contains((provider, model)) <==> rows.dom().contains(provider)
            && rows[provider]@.dom().contains(model),
        flat(rows).dom().contains((provider, model)) ==> flat(rows)[(provider, model)]
            == rows[provider]@[model],
{
}

/// Entries come by provider, and those of one provider by model.
pub proof fn law_order_of_entries(a: Pair, b: Pair)
    ensures
        a.0 == b.0 ==> (pair_precedes(a, b) <==> text::precedes(a.1, b.1)),
        a.0 != b.0 ==> (pair_precedes(a, b) <==> text::precedes(a.0, b.0)),
{
    text::lemma_precedes_irreflexive(a.0);
}

/// A written file has the format version of today.
pub proof fn law_written_version(
    t: MaxTokensTable,
    on_disk: MaxTokensTableFile,
    f: MaxTokensTableFile,
)
    requires
        is_written(t, on_disk, f),
    ensures
        f.schema_version == 1,
        f.operator_caps@ == on_disk.operator_caps@,
{
}

/// A row goes by its provider first and its model second.
pub proof fn law_row_keys(rows: Seq<((String, String), Entry)>, i: int)
    requires
        0 <= i < rows.len(),
    ensures
        row_keys(rows).len() == rows.len(),
        row_keys(rows)[i].0 == rows[i].0.0@,
        row_keys(rows)[i].1 == rows[i].0.1@,
{
}

} // verus!
