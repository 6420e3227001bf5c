//! A provider that answers with canned replies.

use vstd::prelude::*;
use vstd::string::*;

use crate::error::Error;
use crate::role::Role;
use crate::text;
use crate::wire;
use crate::wire::{CallRecord, Request, Response, Usage};

verus! {

/// A canned reply.
#[derive(Debug)]
pub struct MockResponse {
    pub text: String,
    pub usage: Usage,
    pub finish_reason: Option<String>,
}

impl Clone for MockResponse {
    fn clone(&self) -> (r: Self)
        ensures
            r == *self,
    {
        MockResponse {
            text: self.text.clone(),
            usage: self.usage,
            finish_reason: wire::clone_opt(&self.finish_reason),
        }
    }
}

/// `r` is the canned reply `m` on the wire.
pub open spec fn is_reply(r: Response, m: MockResponse) -> bool {
    &&& r.text == m.text
    &&& r.finish_reason == m.finish_reason
    &&& r.usage == m.usage
    &&& r.truncated == (wire::opt_view(m.finish_reason) == Some("max_tokens"@))
}

impl MockResponse {
    /// A reply that is complete.
    pub fn plain(text: &str) -> (r: Self)
        ensures
            r.text@ == text@,
            r.usage == Usage::zero(),
            wire::opt_view(r.finish_reason) == Some("end_turn"@),
    {
        MockResponse {
            text: text.to_owned(),
            usage: Usage::default(),
            finish_reason: Some("end_turn".to_owned()),
        }
    }

    /// A reply that was cut off.
    pub fn truncated(text: &str) -> (r: Self)
        ensures
            r.text@ == text@,
            r.usage == Usage::zero(),
            wire::opt_view(r.finish_reason) == Some("max_tokens"@),
    {
        MockResponse {
            text: text.to_owned(),
            usage: Usage::default(),
            finish_reason: Some("max_tokens".to_owned()),
        }
    }

    /// A complete reply with token counts.
    pub fn with_usage(text: &str, input: u64, output: u64) -> (r: Self)
        ensures
            r.text@ == text@,
            r.usage == Usage::plain(input, output),
            wire::opt_view(r.finish_reason) == Some("end_turn"@),
    {
        MockResponse {
            text: text.to_owned(),
            usage: Usage {
                input_tokens: input,
                output_tokens: output,
                cache_read: 0,
                cache_creation: 0,
            },
            finish_reason: Some("end_turn".to_owned()),
        }
    }

    /// A reply out of the fields of a file; missing counts are zero.
    pub fn from_parts(
        text: String,
        input_tokens: Option<u64>,
        output_tokens: Option<u64>,
        finish_reason: Option<String>,
    ) -> (r: Self)
        ensures
            r.text == text,
            r.usage == Usage::plain(
                match input_tokens {
                    Some(n) => n,
                    None => 0,
                },
                match output_tokens {
                    Some(n) => n,
                    None => 0,
                },
            ),
            r.finish_reason == finish_reason,
    {
        MockResponse {
            text,
            usage: Usage {
                input_tokens: match input_tokens {
                    Some(n) => n,
                    None => 0,
                },
                output_tokens: match output_tokens {
                    Some(n) => n,
                    None => 0,
                },
                cache_read: 0,
                cache_creation: 0,
            },
            finish_reason,
        }
    }

    /// The reply on the wire: truncated where it stopped at the ceiling.
    pub fn into_response(self) -> (r: Response)
        ensures
            is_reply(r, self),
    {
        let truncated = match &self.finish_reason {
            Some(reason) => text::str_eq(reason.as_str(), "max_tokens"),
            None => false,
        };
        Response {
            text: self.text,
            finish_reason: self.finish_reason,
            truncated,
            usage: self.usage,
        }
    }
}

/// The role whose replies a directory of the given name holds.
pub open spec fn role_of_dir(name: Seq<char>) -> Option<Role> {
    if name == "intake"@ {
        Some(Role::Intake)
    } else if name == "clarify"@ {
        Some(Role::Clarify)
    } else if name == "route"@ {
        Some(Role::Route)
    } else if name == "sketch"@ {
        Some(Role::Sketch)
    } else if name == "propose"@ {
        Some(Role::Propose)
    } else if name == "critique"@ {
        Some(Role::Critique)
    } else if name == "judge"@ {
        Some(Role::Judge)
    } else if name == "deliver"@ {
        Some(Role::Deliver)
    } else if name == "repair"@ {
        Some(Role::Repair)
    } else if name == "tagger"@ {
        Some(Role::Tagger)
    } else if name == "facet_deriver"@ {
        Some(Role::FacetDeriver)
    } else if name == "extractor"@ {
        Some(Role::Extractor)
    } else if name == "integrator"@ {
        Some(Role::Integrator)
    } else if name == "synthesizer"@ {
        Some(Role::Synthesizer)
    } else if name == "adversary"@ {
        Some(Role::Adversary)
    } else if name == "merge_synthesizer"@ {
        Some(Role::MergeSynthesizer)
    } else if name == "tiebreaker"@ {
        Some(Role::TiefighterCritic)
    } else if name == "final_disagreement"@ {
        Some(Role::FinalDisagreement)
    } else if name == "json_repair_v2"@ {
        Some(Role::JsonRepairV2)
    } else if name == "hostile_prompt"@ {
        Some(Role::HostilePromptDetector)
    } else if name == "persona_picker"@ {
        Some(Role::PersonaPicker)
    } else if name == "angle_picker"@ {
        Some(Role::AnglePicker)
    } else if name == "continuation"@ {
        Some(Role::Continuation)
    } else {
        None
    }
}

/// The role whose replies a directory of the given name holds.
pub fn role_for_subdir(name: &str) -> (r: Option<Role>)
    ensures
        r == role_of_dir(name@),
{
    if text::str_eq(name, "intake") {
        Some(Role::Intake)
    } else if text::str_eq(name, "clarify") {
        Some(Role::Clarify)
    } else if text::str_eq(name, "route") {
        Some(Role::Route)
    } else if text::str_eq(name, "sketch") {
        Some(Role::Sketch)
    } else if text::str_eq(name, "propose") {
        Some(Role::Propose)
    } else if text::str_eq(name, "critique") {
        Some(Role::Critique)
    } else if text::str_eq(name, "judge") {
        Some(Role::Judge)
    } else if text::str_eq(name, "deliver") {
        Some(Role::Deliver)
    } else if text::str_eq(name, "repair") {
        Some(Role::Repair)
    } else if text::str_eq(name, "tagger") {
        Some(Role::Tagger)
    } else if text::str_eq(name, "facet_deriver") {
        Some(Role::FacetDeriver)
    } else if text::str_eq(name, "extractor") {
        Some(Role::Extractor)
    } else if text::str_eq(name, "integrator") {
        Some(Role::Integrator)
    } else if text::str_eq(name, "synthesizer") {
        Some(Role::Synthesizer)
    } else if text::str_eq(name, "adversary") {
        Some(Role::Adversary)
    } else if text::str_eq(name, "merge_synthesizer") {
        Some(Role::MergeSynthesizer)
    } else if text::str_eq(name, "tiebreaker") {
        Some(Role::TiefighterCritic)
    } else if text::str_eq(name, "final_disagreement") {
        Some(Role::FinalDisagreement)
    } else if text::str_eq(name, "json_repair_v2") {
        Some(Role::JsonRepairV2)
    } else if text::str_eq(name, "hostile_prompt") {
        Some(Role::HostilePromptDetector)
    } else if text::str_eq(name, "persona_picker") {
        Some(Role::PersonaPicker)
    } else if text::str_eq(name, "angle_picker") {
        Some(Role::AnglePicker)
    } else if text::str_eq(name, "continuation") {
        Some(Role::Continuation)
    } else {
        None
    }
}

/// A file of a directory of canned replies.
pub struct CannedFile {
    /// The name of the directory that the file is in.
    pub dir: Option<String>,
    pub response: MockResponse,
}

/// The role that a file is for; `None` where it serves every role.
pub open spec fn file_role(f: CannedFile) -> Option<Role> {
    match f.dir {
        Some(d) => role_of_dir(d@),
        None => None,
    }
}

/// The replies of the files for `role`, in the order of the files.
pub open spec fn replies_for(files: Seq<CannedFile>, role: Option<Role>) -> Seq<MockResponse>
    decreases files.len(),
{
    if files.len() == 0 {
        Seq::empty()
    } else if file_role(files.last()) == role {
        replies_for(files.drop_last(), role).push(files.last().response)
    } else {
        replies_for(files.drop_last(), role)
    }
}

/// The replies for one role, and how far they are used up.
pub struct Pool {
    role: Role,
    responses: Vec<MockResponse>,
    cursor: usize,
}

/// A provider that answers with canned replies: those for the role of the
/// request where there are any, else those for every role.
pub struct MockProvider {
    responses: Vec<MockResponse>,
    index: usize,
    pools: Vec<Pool>,
    name: String,
    model: String,
    endpoint: String,
    calls: Vec<CallRecord>,
    cycle: bool,
}

/// The reply of a pool of `n` that is next where `used` were used: round and
/// round, or once each.
pub open spec fn next_reply(n: nat, used: nat, cycle: bool) -> Option<nat> {
    if n == 0 {
        None
    } else if cycle {
        Some(used % n)
    } else if used < n {
        Some(used)
    } else {
        None
    }
}

/// One more, starting over behind the largest number.
pub open spec fn bumped(n: usize) -> usize {
    if n == usize::MAX {
        0
    } else {
        (n + 1) as usize
    }
}

/// The place of the pool for `role`, or the number of pools.
spec fn pool_at(pools: Seq<Pool>, role: Role) -> int
    decreases pools.len(),
{
    if pools.len() == 0 || pools[0].role == role {
        0
    } else {
        1 + pool_at(pools.skip(1), role)
    }
}

proof fn lemma_pool_at(pools: Seq<Pool>, role: Role, i: int)
    requires
        0 <= i <= pools.len(),
        forall|j: int| 0 <= j < i ==> (#[trigger] pools[j]).role != role,
        i < pools.len() ==> pools[i].role == role,
    ensures
        pool_at(pools, role) == i,
    decreases pools.len(),
{
    if i > 0 {
        let rest = pools.skip(1);
        assert forall|j: int| 0 <= j < i - 1 implies (#[trigger] rest[j]).role != role by {
            assert(rest[j] == pools[j + 1]);
        }
        if i < pools.len() {
            assert(rest[i - 1] == pools[i]);
        }
        lemma_pool_at(rest, role, i - 1);
    }
}

impl MockProvider {
    /// The replies for every role.
    pub closed spec fn shared(&self) -> Seq<MockResponse> {
        self.responses@
    }

    /// How many times the replies for every role were used.
    pub closed spec fn shared_used(&self) -> usize {
        self.index
    }

    /// The replies for one role.
    pub closed spec fn pool(&self, role: Role) -> Seq<MockResponse> {
        let i = pool_at(self.pools@, role);
        if i < self.pools@.len() {
            self.pools@[i].responses@
        } else {
            Seq::empty()
        }
    }

    /// How many times the replies for one role were used.
    pub closed spec fn pool_used(&self, role: Role) -> usize {
        let i = pool_at(self.pools@, role);
        if i < self.pools@.len() {
            self.pools@[i].cursor
        } else {
            0
        }
    }

    /// Whether the replies are used round and round.
    pub closed spec fn cycles(&self) -> bool {
        self.cycle
    }

    /// The records of the calls.
    pub closed spec fn log(&self) -> Seq<CallRecord> {
        self.calls@
    }

    /// The name of the provider.
    pub closed spec fn name_text(&self) -> Seq<char> {
        self.name@
    }

    /// The model of the provider.
    pub closed spec fn model_text(&self) -> Seq<char> {
        self.model@
    }

    /// The address of the provider.
    pub closed spec fn endpoint_text(&self) -> Seq<char> {
        self.endpoint@
    }

    /// The replies that a request for `role` is answered from.
    pub open spec fn source(&self, role: Role) -> Seq<MockResponse> {
        if self.pool(role).len() > 0 {
            self.pool(role)
        } else {
            self.shared()
        }
    }

    /// How far the replies that a request for `role` is answered from are used.
    pub open spec fn used(&self, role: Role) -> usize {
        if self.pool(role).len() > 0 {
            self.pool_used(role)
        } else {
            self.shared_used()
        }
    }

    /// The same replies are used equally far, and the same calls recorded.
    pub open spec fn same_use(&self, other: MockProvider) -> bool {
        &&& self.shared_used() == other.shared_used()
        &&& forall|role: Role| #[trigger] self.pool_used(role) == other.pool_used(role)
        &&& self.log() == other.log()
    }

    /// The same replies stand ready.
    pub open spec fn same_replies(&self, other: MockProvider) -> bool {
        &&& self.shared() == other.shared()
        &&& forall|role: Role| #[trigger] self.pool(role) == other.pool(role)
    }

    /// The provider goes by the same name, model and address.
    pub open spec fn same_identity(&self, other: MockProvider) -> bool {
        &&& self.name_text() == other.name_text()
        &&& self.model_text() == other.model_text()
        &&& self.endpoint_text() == other.endpoint_text()
    }

    /// A provider with replies for every role.
    pub fn new(responses: Vec<MockResponse>) -> (r: Self)
        ensures
            r.shared() == responses@,
            r.shared_used() == 0,
            forall|role: Role| #[trigger] r.pool(role) == Seq::<MockResponse>::empty(),
            forall|role: Role| #[trigger] r.pool_used(role) == 0,
            r.cycles(),
            r.log().len() == 0,
            r.name_text() == "mock"@,
            r.model_text() == "mock-model"@,
            r.endpoint_text() == "mock://local"@,
    {
        MockProvider {
            responses,
            index: 0,
            pools: Vec::new(),
            name: "mock".to_owned(),
            model: "mock-model".to_owned(),
            endpoint: "mock://local".to_owned(),
            calls: Vec::new(),
            cycle: true,
        }
    }

    /// A provider without replies.
    pub fn empty() -> (r: Self)
        ensures
            r.shared() == Seq::<MockResponse>::empty(),
            r.shared_used() == 0,
            forall|role: Role| #[trigger] r.pool(role) == Seq::<MockResponse>::empty(),
            forall|role: Role| #[trigger] r.pool_used(role) == 0,
            r.cycles(),
            r.log().len() == 0,
            r.name_text() == "mock"@,
            r.model_text() == "mock-model"@,
            r.endpoint_text() == "mock://local"@,
    {
        MockProvider::new(Vec::new())
    }

    /// A provider with the replies of `files`. A file in a directory named
    /// after a role is for that role alone.
    pub fn from_files(files: Vec<CannedFile>) -> (r: Self)
        ensures
            r.shared() == replies_for(files@, None),
            r.shared_used() == 0,
            forall|role: Role| #[trigger] r.pool(role) == replies_for(files@, Some(role)),
            forall|role: Role| #[trigger] r.pool_used(role) == 0,
            r.cycles(),
            r.log().len() == 0,
            r.name_text() == "mock"@,
            r.model_text() == "mock-model"@,
            r.endpoint_text() == "mock://local"@,
    {
        let mut p = MockProvider::empty();
        let mut i: usize = 0;
        assert(files@.take(0) =~= Seq::empty());
        while i < files.len()
            invariant
                i <= files@.len(),
                p.shared() == replies_for(files@.take(i as int), None),
                p.shared_used() == 0,
                forall|role: Role| #[trigger]
                    p.pool(role) == replies_for(files@.take(i as int), Some(role)),
                forall|role: Role| #[trigger] p.pool_used(role) == 0,
                p.cycles(),
                p.log().len() == 0,
                p.name_text() == "mock"@,
                p.model_text() == "mock-model"@,
                p.endpoint_text() == "mock://local"@,
            decreases files@.len() - i,
        {
            assert(files@.take(i + 1).drop_last() =~= files@.take(i as int));
            let role = match &files[i].dir {
                Some(d) => role_for_subdir(d.as_str()),
                None => None,
            };
            let response = files[i].response.clone();
            match role {
                Some(role) => p.push_for(role, response),
                None => p.push(response),
            }
            i = i + 1;
        }
        assert(files@.take(i as int) =~= files@);
        p
    }

    fn find_pool(&self, role: Role) -> (i: usize)
        ensures
            i == pool_at(self.pools@, role),
            i <= self.pools@.len(),
            i < self.pools@.len() ==> self.pools@[i as int].role == role,
    {
        let mut i: usize = 0;
        while i < self.pools.len() && self.pools[i].role != role
            invariant
                i <= self.pools@.len(),
                forall|j: int| 0 <= j < i ==> (#[trigger] self.pools@[j]).role != role,
            ensures
                i <= self.pools@.len(),
                forall|j: int| 0 <= j < i ==> (#[trigger] self.pools@[j]).role != role,
                i < self.pools@.len() ==> self.pools@[i as int].role == role,
            decreases self.pools@.len() - i,
        {
            i = i + 1;
        }
        proof {
            lemma_pool_at(self.pools@, role, i as int);
        }
        i
    }

    /// Adds a reply for one role.
    pub fn push_for(&mut self, role: Role, response: MockResponse)
        ensures
            final(self).pool(role) == old(self).pool(role).push(response),
            forall|other: Role|
                other != role ==> #[trigger] final(self).pool(other) == old(self).pool(other),
            final(self).shared() == old(self).shared(),
            final(self).same_use(*old(self)),
            final(self).same_identity(*old(self)),
            final(self).cycles() == old(self).cycles(),
    {
        let i: usize = self.find_pool(role);
        let ghost before = self.pools@;
        if i < self.pools.len() {
            let mut pool = Pool { role, responses: Vec::new(), cursor: 0 };
            std::mem::swap(&mut pool, &mut self.pools[i]);
            pool.responses.push(response);
            self.pools.set(i, pool);
            proof {
                let after = self.pools@;
                assert(after =~= before.update(i as int, pool));
                assert forall|other: Role|
                    pool_at(after, other) == #[trigger] pool_at(before, other) && found(
                        before,
                        other,
                    ) by {
                    lemma_same_places(before, after, other);
                    lemma_found(before, other);
                }
            }
        } else {
            let mut responses: Vec<MockResponse> = Vec::new();
            responses.push(response);
            self.pools.push(Pool { role, responses, cursor: 0 });
            proof {
                let after = self.pools@;
                lemma_pushed_pool(before, after[before.len() as int]);
                assert forall|other: Role| #[trigger]
                    self.pool(other) == if other == role {
                    old(self).pool(role).push(response)
                } else {
                    old(self).pool(other)
                } by {
                    assert(0 <= pool_at(before, other) <= before.len());
                }
                assert forall|other: Role| #[trigger]
                    self.pool_used(other) == old(self).pool_used(other) by {
                    assert(0 <= pool_at(before, other) <= before.len());
                }
                assert(after =~= before.push(after[before.len() as int]));
                assert(self.pool(role) =~= old(self).pool(role).push(response));
            }
        }
    }

    /// Adds a reply for every role.
    pub fn push(&mut self, response: MockResponse)
        ensures
            final(self).shared() == old(self).shared().push(response),
            forall|role: Role| #[trigger] final(self).pool(role) == old(self).pool(role),
            final(self).same_use(*old(self)),
            final(self).same_identity(*old(self)),
            final(self).cycles() == old(self).cycles(),
    {
        self.responses.push(response);
    }

    /// Sets the name of the provider.
    pub fn set_name(&mut self, name: &str)
        ensures
            final(self).name_text() == name@,
            final(self).model_text() == old(self).model_text(),
            final(self).endpoint_text() == old(self).endpoint_text(),
            final(self).same_replies(*old(self)),
            final(self).same_use(*old(self)),
            final(self).cycles() == old(self).cycles(),
    {
        self.name = name.to_owned();
    }

    /// Sets the address of the provider.
    pub fn set_endpoint(&mut self, endpoint: &str)
        ensures
            final(self).endpoint_text() == endpoint@,
            final(self).name_text() == old(self).name_text(),
            final(self).model_text() == old(self).model_text(),
            final(self).same_replies(*old(self)),
            final(self).same_use(*old(self)),
            final(self).cycles() == old(self).cycles(),
    {
        self.endpoint = endpoint.to_owned();
    }

    /// Sets the model of the provider.
    pub fn set_model(&mut self, model: &str)
        ensures
            final(self).model_text() == model@,
            final(self).name_text() == old(self).name_text(),
            final(self).endpoint_text() == old(self).endpoint_text(),
            final(self).same_replies(*old(self)),
            final(self).same_use(*old(self)),
            final(self).cycles() == old(self).cycles(),
    {
        self.model = model.to_owned();
    }

    /// Sets whether the replies are used round and round.
    pub fn set_cycle(&mut self, cycle: bool)
        ensures
            final(self).cycles() == cycle,
            final(self).same_replies(*old(self)),
            final(self).same_use(*old(self)),
            final(self).same_identity(*old(self)),
    {
        self.cycle = cycle;
    }

    /// How many of the replies for every role were not used yet.
    pub fn remaining(&self) -> (r: usize)
        ensures
            r == (if self.shared_used() < self.shared().len() {
                self.shared().len() - self.shared_used()
            } else {
                0
            }),
    {
        if self.index < self.responses.len() {
            self.responses.len() - self.index
        } else {
            0
        }
    }

    /// The records of the calls.
    pub fn calls(&self) -> (r: Vec<CallRecord>)
        ensures
            r@ == self.log(),
    {
        let mut r: Vec<CallRecord> = Vec::new();
        let mut i: usize = 0;
        while i < self.calls.len()
            invariant
                i <= self.calls@.len(),
                r@ =~= self.calls@.take(i as int),
            decreases self.calls@.len() - i,
        {
            r.push(self.calls[i].clone());
            i = i + 1;
        }
        r
    }

    /// The name of the provider.
    pub fn name(&self) -> (r: &str)
        ensures
            r@ == self.name_text(),
    {
        self.name.as_str()
    }

    /// The model of the provider.
    pub fn model(&self) -> (r: &str)
        ensures
            r@ == self.model_text(),
    {
        self.model.as_str()
    }

    /// The address of the provider.
    pub fn endpoint(&self) -> (r: &str)
        ensures
            r@ == self.endpoint_text(),
    {
        self.endpoint.as_str()
    }

    /// Answers `req` at the time `now_unix` and records the call. A provider
    /// whose replies are used up answers with an error and records nothing.
    pub fn send(&mut self, req: &Request, now_unix: u64) -> (r: Result<(u16, Response), Error>)
        ensures
            final(self).same_replies(*old(self)),
            final(self).same_identity(*old(self)),
            final(self).cycles() == old(self).cycles(),
            match next_reply(
                old(self).source(req.role).len(),
                old(self).used(req.role) as nat,
                old(self).cycles(),
            ) {
                Some(i) => {
                    &&& r matches Ok((status, reply))
                    &&& status == 200
                    &&& is_reply(reply, old(self).source(req.role)[i as int])
                    &&& final(self).log().len() == old(self).log().len() + 1
                    &&& final(self).log().drop_last() == old(self).log()
                    &&& is_record(final(self).log().last(), *old(self), now_unix)
                },
                None => r == Err::<(u16, Response), Error>(Error::MockExhausted) && final(self).log() == old(self).log(),
            },
            old(self).source(req.role).len() > 0 ==> final(self).used(req.role) == bumped(
                old(self).used(req.role),
            ),
            forall|other: Role|
                other != req.role ==> #[trigger] final(self).pool_used(other) == old(self).pool_used(other),
            old(self).pool(req.role).len() > 0 ==> final(self).shared_used() == old(self).shared_used(),
            old(self).pool(req.role).len() == 0 ==> final(self).pool_used(req.role) == old(
                self,
            ).pool_used(req.role),
            old(self).source(req.role).len() == 0 ==> final(self).shared_used() == old(self).shared_used(),
    {
        let k: usize = self.find_pool(req.role);
        let ghost before = self.pools@;
        let reply = if k < self.pools.len() && self.pools[k].responses.len() > 0 {
            let mut pool = Pool { role: req.role, responses: Vec::new(), cursor: 0 };
            std::mem::swap(&mut pool, &mut self.pools[k]);
            let n: usize = pool.responses.len();
            let used: usize = pool.cursor;
            pool.cursor = used.wrapping_add(1);
            let i: usize = if self.cycle {
                used % n
            } else {
                used
            };
            let reply = if i < n {
                Some(pool.responses[i].clone().into_response())
            } else {
                None
            };
            self.pools.set(k, pool);
            proof {
                let after = self.pools@;
                assert(after =~= before.update(k as int, pool));
                assert forall|other: Role|
                    pool_at(after, other) == #[trigger] pool_at(before, other) && found(
                        before,
                        other,
                    ) by {
                    lemma_same_places(before, after, other);
                    lemma_found(before, other);
                }
                assert(self.pool(req.role) == old(self).pool(req.role));
            }
            reply
        } else {
            let n: usize = self.responses.len();
            if n == 0 {
                None
            } else {
                let used: usize = self.index;
                self.index = used.wrapping_add(1);
                let i: usize = if self.cycle {
                    used % n
                } else {
                    used
                };
                if i < n {
                    Some(self.responses[i].clone().into_response())
                } else {
                    None
                }
            }
        };
        match reply {
            Some(reply) => {
                let ghost log = self.calls@;
                let record = CallRecord {
                    cache_key: String::new(),
                    provider: self.name.clone(),
                    model: self.model.clone(),
                    started_unix: now_unix,
                    ended_unix: now_unix,
                    http_status: Some(200),
                    cache_hit: false,
                    usage: Usage::default(),
                    error: None,
                };
                self.calls.push(record);
                assert(self.calls@.drop_last() =~= log);
                Ok((200, reply))
            },
            None => Err(Error::MockExhausted),
        }
    }
}

impl Default for MockProvider {
    fn default() -> (r: Self)
        ensures
            r.shared() == Seq::<MockResponse>::empty(),
            r.shared_used() == 0,
            forall|role: Role| #[trigger] r.pool(role) == Seq::<MockResponse>::empty(),
            forall|role: Role| #[trigger] r.pool_used(role) == 0,
            !r.cycles(),
            r.log().len() == 0,
            r.name_text() == Seq::<char>::empty(),
            r.model_text() == Seq::<char>::empty(),
            r.endpoint_text() == Seq::<char>::empty(),
    {
        MockProvider {
            responses: Vec::new(),
            index: 0,
            pools: Vec::new(),
            name: String::new(),
            model: String::new(),
            endpoint: String::new(),
            calls: Vec::new(),
            cycle: false,
        }
    }
}

/// `c` records a call of `p` at the time `now_unix`.
pub open spec fn is_record(c: CallRecord, p: MockProvider, now_unix: u64) -> bool {
    &&& c.cache_key@ == Seq::<char>::empty()
    &&& c.provider@ == p.name_text()
    &&& c.model@ == p.model_text()
    &&& c.started_unix == now_unix
    &&& c.ended_unix == now_unix
    &&& c.http_status == Some(200u16)
    &&& !c.cache_hit
    &&& c.usage == Usage::zero()
    &&& c.error is None
}

/// The place of the pool for `role` is one, or behind the last.
spec fn found(pools: Seq<Pool>, role: Role) -> bool {
    let i = pool_at(pools, role);
    &&& 0 <= i <= pools.len()
    &&& i < pools.len() ==> pools[i].role == role
}

proof fn lemma_found(pools: Seq<Pool>, role: Role)
    ensures
        found(pools, role),
    decreases pools.len(),
{
    if pools.len() > 0 && pools[0].role != role {
        lemma_found(pools.skip(1), role);
    }
}

proof fn lemma_same_places(before: Seq<Pool>, after: Seq<Pool>, role: Role)
    requires
        before.len() == after.len(),
        forall|i: int|
            0 <= i < before.len() ==> (#[trigger] before[i]).role == (#[trigger] after[i]).role,
    ensures
        pool_at(before, role) == pool_at(after, role),
    decreases before.len(),
{
    if before.len() > 0 && before[0].role != role {
        let b = before.skip(1);
        let a = after.skip(1);
        assert forall|i: int| 0 <= i < b.len() implies (#[trigger] b[i]).role == (
        #[trigger] a[i]).role by {
            assert(b[i] == before[i + 1] && a[i] == after[i + 1]);
        }
        lemma_same_places(b, a, role);
    }
}

proof fn lemma_pushed_pool(before: Seq<Pool>, pool: Pool)
    requires
        pool_at(before, pool.role) == before.len(),
    ensures
        pool_at(before.push(pool), pool.role) == before.len(),
        forall|other: Role|
            other != pool.role ==> pool_at(before.push(pool), other) == (if #[trigger] pool_at(
                before,
                other,
            ) < before.len() {
                pool_at(before, other)
            } else {
                (before.len() + 1) as int
            }),
        forall|other: Role| 0 <= #[trigger] pool_at(before, other) <= before.len(),
    decreases before.len(),
{
    let after = before.push(pool);
    if before.len() > 0 {
        let rest = before.skip(1);
        assert(after.skip(1) =~= rest.push(pool));
        assert(before[0].role != pool.role);
        lemma_pushed_pool(rest, pool);
        assert forall|other: Role| other != pool.role implies pool_at(after, other) == (
        if #[trigger] pool_at(before, other) < before.len() {
            pool_at(before, other)
        } else {
            (before.len() + 1) as int
        }) by {
            assert(0 <= pool_at(rest, other) <= rest.len());
        }
        assert forall|other: Role| 0 <= #[trigger] pool_at(before, other) <= before.len() by {
            assert(0 <= pool_at(rest, other) <= rest.len());
        }
    } else {
        assert(after.skip(1) =~= Seq::empty());
        reveal_with_fuel(pool_at, 2);
    }
}

/// Used round and round, replies come in their order and start over behind the
/// last one.
pub proof fn law_replies_go_round(n: nat, used: nat)
    requires
        n > 0,
    ensures
        next_reply(n, used, true) is Some,
        used < n ==> next_reply(n, used, true) == Some(used),
        next_reply(n, used + n, true) == next_reply(n, used, true),
{
    vstd::arithmetic::div_mod::lemma_mod_add_multiples_vanish(used as int, n as int);
    if used < n {
        vstd::arithmetic::div_mod::lemma_small_mod(used, n);
    }
}

/// Used once each, every reply comes once, in order, and then none.
pub proof fn law_replies_run_out(n: nat, used: nat)
    ensures
        used < n ==> next_reply(n, used, false) == Some(used),
        used >= n ==> next_reply(n, used, false) is None,
{
}

/// The name of the directory for a role. Four roles have none.
pub open spec fn dir_of_role(role: Role) -> Option<Seq<char>> {
    match role {
        Role::Intake => Some("intake"@),
        Role::Clarify => Some("clarify"@),
        Role::Route => Some("route"@),
        Role::Sketch => Some("sketch"@),
        Role::Propose => Some("propose"@),
        Role::Critique => Some("critique"@),
        Role::Judge => Some("judge"@),
        Role::Deliver => Some("deliver"@),
        Role::Repair => Some("repair"@),
        Role::Tagger => Some("tagger"@),
        Role::FacetDeriver => Some("facet_deriver"@),
        Role::Extractor => Some("extractor"@),
        Role::Integrator => Some("integrator"@),
        Role::Synthesizer => Some("synthesizer"@),
        Role::Adversary => Some("adversary"@),
        Role::MergeSynthesizer => Some("merge_synthesizer"@),
        Role::TiefighterCritic => Some("tiebreaker"@),
        Role::FinalDisagreement => Some("final_disagreement"@),
        Role::JsonRepairV2 => Some("json_repair_v2"@),
        Role::HostilePromptDetector => Some("hostile_prompt"@),
        Role::PersonaPicker => Some("persona_picker"@),
        Role::AnglePicker => Some("angle_picker"@),
        Role::Continuation => Some("continuation"@),
        Role::Gate | Role::Rank | Role::Decomposer | Role::FinalReport => None,
    }
}

/// Each directory is for one role, and each role but four has one: a name leads
/// to a role just where it is the name of that role's directory. The length of
/// a name and its first character tell the directories apart.
pub proof fn law_directories(name: Seq<char>, role: Role)
    ensures
        role_of_dir(name) == Some(role) <==> dir_of_role(role) == Some(name),
{
    reveal_strlit("intake");
    reveal_strlit("clarify");
    reveal_strlit("route");
    reveal_strlit("sketch");
    reveal_strlit("propose");
    reveal_strlit("critique");
    reveal_strlit("judge");
    reveal_strlit("deliver");
    reveal_strlit("repair");
    reveal_strlit("tagger");
    reveal_strlit("facet_deriver");
    reveal_strlit("extractor");
    reveal_strlit("integrator");
    reveal_strlit("synthesizer");
    reveal_strlit("adversary");
    reveal_strlit("merge_synthesizer");
    reveal_strlit("tiebreaker");
    reveal_strlit("final_disagreement");
    reveal_strlit("json_repair_v2");
    reveal_strlit("hostile_prompt");
    reveal_strlit("persona_picker");
    reveal_strlit("angle_picker");
    reveal_strlit("continuation");
    assert("intake"@.len() == 6 && "intake"@[0] == 'i');
    assert("clarify"@.len() == 7 && "clarify"@[0] == 'c');
    assert("route"@.len() == 5 && "route"@[0] == 'r');
    assert("sketch"@.len() == 6 && "sketch"@[0] == 's');
    assert("propose"@.len() == 7 && "propose"@[0] == 'p');
    assert("critique"@.len() == 8 && "critique"@[0] == 'c');
    assert("judge"@.len() == 5 && "judge"@[0] == 'j');
    assert("deliver"@.len() == 7 && "deliver"@[0] == 'd');
    assert("repair"@.len() == 6 && "repair"@[0] == 'r');
    assert("tagger"@.len() == 6 && "tagger"@[0] == 't');
    assert("facet_deriver"@.len() == 13 && "facet_deriver"@[0] == 'f');
    assert("extractor"@.len() == 9 && "extractor"@[0] == 'e');
    assert("integrator"@.len() == 10 && "integrator"@[0] == 'i');
    assert("synthesizer"@.len() == 11 && "synthesizer"@[0] == 's');
    assert("adversary"@.len() == 9 && "adversary"@[0] == 'a');
    assert("merge_synthesizer"@.len() == 17 && "merge_synthesizer"@[0] == 'm');
    assert("tiebreaker"@.len() == 10 && "tiebreaker"@[0] == 't');
    assert("final_disagreement"@.len() == 18 && "final_disagreement"@[0] == 'f');
    assert("json_repair_v2"@.len() == 14 && "json_repair_v2"@[0] == 'j');
    assert("hostile_prompt"@.len() == 14 && "hostile_prompt"@[0] == 'h');
    assert("persona_picker"@.len() == 14 && "persona_picker"@[0] == 'p');
    assert("angle_picker"@.len() == 12 && "angle_picker"@[0] == 'a');
    assert("continuation"@.len() == 12 && "continuation"@[0] == 'c');
}

/// A canned reply goes out as it is. It counts as cut off just where it stopped
/// for the ceiling.
pub proof fn law_canned_reply(r: Response, m: MockResponse)
    requires
        is_reply(r, m),
    ensures
        r.text@ == m.text@,
        r.usage == m.usage,
        r.finish_reason == m.finish_reason,
        r.truncated <==> (r.finish_reason matches Some(reason) && reason@ == "max_tokens"@),
{
}

/// The replies for a role are those of the files for it, in the order of the
/// files: a file counts for the role of its directory, and for every role
/// where it is in none or in one that is for no role.
pub proof fn law_files_by_role(
    a: Seq<CannedFile>,
    f: CannedFile,
    b: Seq<CannedFile>,
    role: Option<Role>,
)
    ensures
        replies_for(a + b, role) == replies_for(a, role) + replies_for(b, role),
        replies_for(seq![f], role) == (if role == (match f.dir {
            Some(d) => role_of_dir(d@),
            None => None,
        }) {
            seq![f.response]
        } else {
            Seq::empty()
        }),
        replies_for(Seq::empty(), role).len() == 0,
{
    lemma_files(a, b, role);
    assert(seq![f].drop_last() =~= Seq::empty());
    assert(replies_for(seq![f].drop_last(), role) =~= Seq::empty());
    assert(replies_for(seq![f], role) =~= (if file_role(f) == role {
        seq![f.response]
    } else {
        Seq::empty()
    }));
}

proof fn lemma_files(a: Seq<CannedFile>, b: Seq<CannedFile>, role: Option<Role>)
    ensures
        replies_for(a + b, role) == replies_for(a, role) + replies_for(b, role),
    decreases b.len(),
{
    if b.len() == 0 {
        assert(a + b =~= a);
        assert(replies_for(a, role) + replies_for(b, role) =~= replies_for(a, role));
    } else {
        assert((a + b).drop_last() =~= a + b.drop_last());
        assert((a + b).last() == b.last());
        lemma_files(a, b.drop_last(), role);
        assert(replies_for(a + b, role) =~= replies_for(a, role) + replies_for(b, role));
    }
}

/// A request is answered from the replies for its role where there are any,
/// and those for every role stand in otherwise; how far the one are used does
/// not depend on the other.
pub proof fn law_where_replies_come_from(p: MockProvider, role: Role)
    ensures
        p.pool(role).len() > 0 ==> p.source(role) == p.pool(role) && p.used(role) == p.pool_used(
            role,
        ),
        p.pool(role).len() == 0 ==> p.source(role) == p.shared() && p.used(role)
            == p.shared_used(),
{
}

/// Each use counts for one, and the count starts over behind the largest
/// number.
pub proof fn law_uses_are_counted(n: usize)
    ensures
        n < usize::MAX ==> bumped(n) == n + 1,
        bumped(usize::MAX) == 0,
{
}

/// Two requests in a row for one role get two replies in a row: the second
/// follows the first, or is the first of all behind the last.
pub proof fn law_replies_follow_each_other(n: nat, used: nat, cycle: bool)
    requires
        n > 0,
        next_reply(n, used, cycle) is Some,
    ensures
        ({
            let i = next_reply(n, used, cycle)->0;
            let next = next_reply(n, used + 1, cycle);
            &&& i < n
            &&& i + 1 < n ==> next == Some(i + 1)
            &&& i + 1 == n ==> next == (if cycle {
                Some(0nat)
            } else {
                None
            })
        }),
{
    if cycle {
        vstd::arithmetic::div_mod::lemma_mod_bound(used as int, n as int);
        vstd::arithmetic::div_mod::lemma_add_mod_noop(used as int, 1, n as int);
        let i = used % n;
        if n == 1 {
            assert((used + 1) % 1 == 0);
        } else {
            vstd::arithmetic::div_mod::lemma_small_mod(1, n);
            if i + 1 < n {
                vstd::arithmetic::div_mod::lemma_small_mod(i + 1, n);
            } else {
                vstd::arithmetic::div_mod::lemma_mod_self_0(n as int);
            }
        }
    }
}

/// A record tells of a call that was answered at once by the provider itself:
/// never out of a cache, without counts and without an error.
pub proof fn law_records(c: CallRecord, p: MockProvider, now_unix: u64)
    requires
        is_record(c, p, now_unix),
    ensures
        c.provider@ == p.name_text(),
        c.model@ == p.model_text(),
        c.started_unix == now_unix,
        c.ended_unix == now_unix,
        c.http_status == Some(200u16),
        !c.cache_hit,
        c.error is None,
        c.cache_key@.len() == 0,
        c.usage.input_tokens == 0 && c.usage.output_tokens == 0,
{
}

/// Where replies, their use and the identity of a provider stay the same, so
/// does all that can be seen of it.
pub proof fn law_what_stays(a: MockProvider, b: MockProvider, role: Role)
    ensures
        a.same_replies(b) ==> a.source(role) == b.source(role) && a.shared() == b.shared()
            && a.pool(role) == b.pool(role),
        a.same_use(b) ==> a.shared_used() == b.shared_used() && a.pool_used(role) == b.pool_used(
            role,
        ) && a.log() == b.log(),
        a.same_replies(b) && a.same_use(b) ==> a.used(role) == b.used(role),
        a.same_identity(b) ==> a.name_text() == b.name_text() && a.model_text() == b.model_text()
            && a.endpoint_text() == b.endpoint_text(),
{
}

} // verus!
