//! Cache keys by prompt.

use vstd::prelude::*;
use vstd::string::*;

use crate::text_map::TextMap;

verus! {

/// The cache keys under which the replies to known prompts are stored.
pub struct PromptCache {
    by_id: TextMap<String>,
}

impl PromptCache {
    /// The cache key of each prompt.
    pub closed spec fn keys(&self) -> Map<Seq<char>, String> {
        self.by_id@
    }

    /// A cache that knows no prompt.
    pub fn new() -> (r: Self)
        ensures
            r.keys() == Map::<Seq<char>, String>::empty(),
    {
        PromptCache { by_id: TextMap::new() }
    }

    /// The cache key under which the reply to a prompt is stored.
    pub fn key_of(&self, prompt_id: &str) -> (r: Option<&String>)
        ensures
            match r {
                Some(k) => self.keys().dom().contains(prompt_id@) && *k
                    == self.keys()[prompt_id@],
                None => !self.keys().dom().contains(prompt_id@),
            },
    {
        self.by_id.get(prompt_id)
    }

    /// The reply to a prompt, where `stored` is what the store says under the
    /// prompt's cache key. A prompt without a key, and a store that fails, have
    /// none.
    pub fn lookup_by_id<T>(&self, prompt_id: &str, stored: Result<Option<T>, String>) -> (r: Option<
        T,
    >)
        ensures
            r == (if self.keys().dom().contains(prompt_id@) {
                match stored {
                    Ok(found) => found,
                    Err(_) => None,
                }
            } else {
                None
            }),
    {
        if self.by_id.get(prompt_id).is_none() {
            return None;
        }
        match stored {
            Ok(found) => found,
            Err(_) => None,
        }
    }

    /// Stores the reply to a prompt under `cache_key` from now on.
    pub fn register(&mut self, prompt_id: &str, cache_key: String)
        ensures
            final(self).keys() == old(self).keys().insert(prompt_id@, cache_key),
    {
        let _ = self.by_id.insert(prompt_id.to_owned(), cache_key);
    }
}

/// The last registration of a prompt counts, and no other prompt is affected.
pub proof fn law_last_registration_counts(
    before: PromptCache,
    after: PromptCache,
    id: Seq<char>,
    key: String,
)
    requires
        after.keys() == before.keys().insert(id, key),
    ensures
        after.keys().dom().contains(id),
        after.keys()[id] == key,
        forall|other: Seq<char>| other != id ==> (#[trigger] after.keys().dom().contains(other)
            == before.keys().dom().contains(other)),
        forall|other: Seq<char>|
            other != id && before.keys().dom().contains(other) ==> #[trigger] after.keys()[other]
                == before.keys()[other],
{
}

} // verus!
