//! A provider that speaks Chat Completions.

use std::sync::Arc;

use vstd::prelude::*;
use vstd::string::*;

use crate::api_keys;
use crate::capabilities::ProviderCapabilities;
use crate::config::{ProviderConfig, ResolvedModelConfig, SecretString, SectionConfig};
use crate::detection::{MAX_AUTOPROBE_CEILING, MIN_AUTOPROBE_FLOOR};
use crate::endpoints;
use crate::error::Error;
use crate::json_strategy;
use crate::json_strategy::JsonRecoveryStrategy;
use crate::max_tokens;
use crate::probe_table::MaxTokensTable;
use crate::provider::Provider;
use crate::responses_wire;
use crate::text;
use crate::transport;
use crate::transport::{Exchange, SendPlan, Step, MAX_RESPONSE_BYTES};
use crate::wire;
use crate::wire::{Knob, Message, Request, Response, Usage};

verus! {

/// The body of a request. A field that is `None` is left out.
pub struct ChatRequest {
    pub model: String,
    pub messages: Vec<Message>,
    pub max_tokens: Option<u32>,
    pub temperature: Option<Knob>,
    pub top_p: Option<Knob>,
    pub stream: bool,
    pub response_format: Option<ResponseFormat>,
}

/// The format of the reply, by its name.
pub struct ResponseFormat {
    pub kind: &'static str,
}

/// `f` asks for JSON output mode where `wants` says so, and for nothing
/// otherwise.
pub open spec fn is_format_gate(f: Option<ResponseFormat>, wants: bool) -> bool {
    match f {
        Some(f) => wants && f.kind@ == "json_object"@,
        None => !wants,
    }
}

/// The format that a request asks for.
pub fn json_object_format(wants: bool) -> (r: Option<ResponseFormat>)
    ensures
        is_format_gate(r, wants),
{
    if wants {
        Some(ResponseFormat { kind: "json_object" })
    } else {
        None
    }
}

/// A reply.
pub struct ChatResponse {
    pub choices: Vec<ChatChoice>,
    pub usage: Option<ChatUsage>,
}

/// One of the answers in a reply.
pub struct ChatChoice {
    pub content: String,
    pub finish_reason: Option<String>,
}

/// The token counts of a reply.
#[derive(Debug, Clone, Copy, PartialEq, Eq, Structural)]
pub struct ChatUsage {
    pub prompt_tokens: u64,
    pub completion_tokens: u64,
}

/// A message by its role and content.
pub type Turn = (Seq<char>, Seq<char>);

/// The turns of a conversation.
pub open spec fn turns(messages: Seq<Message>) -> Seq<Turn> {
    messages.map_values(|m: Message| (m.role@, m.content@))
}

/// The turns of the conversation for `req`: system and user, then what the
/// request adds. Where it adds nothing and the model is to be led into JSON,
/// an opening brace of the assistant follows.
pub open spec fn conversation(req: Request, model: Seq<char>) -> Seq<Turn> {
    let opening = seq![("system"@, req.system@), ("user"@, req.user@)];
    if req.extra_messages@.len() > 0 {
        opening + turns(req.extra_messages@)
    } else if json_strategy::strategy_of(model, None) == JsonRecoveryStrategy::PromptPrefill {
        opening.push(("assistant"@, "{"@))
    } else {
        opening
    }
}

/// `b` is the body for `req` to `model` with the ceiling `max_tokens`.
pub open spec fn is_body(
    b: ChatRequest,
    req: Request,
    model: Seq<char>,
    max_tokens: Option<u32>,
) -> bool {
    &&& b.model@ == model
    &&& turns(b.messages@) == conversation(req, model)
    &&& b.max_tokens == max_tokens
    &&& b.temperature == req.temperature
    &&& b.top_p == req.top_p
    &&& !b.stream
    &&& is_format_gate(b.response_format, responses_wire::asks_json(req.role, model))
}

/// `r` is what a decoded reply comes to.
pub open spec fn is_reply(
    r: Result<(u16, Response), Error>,
    status: u16,
    reply: ChatResponse,
) -> bool {
    if reply.choices@.len() == 0 {
        r matches Err(e) && transport::is_plain_failure(e, "openai-compat: empty choices array"@)
    } else {
        let choice = reply.choices@[0];
        let size = transport::size_of(choice.content@);
        if size <= MAX_RESPONSE_BYTES {
            &&& r matches Ok((s, response))
            &&& s == status
            &&& response.text == choice.content
            &&& response.finish_reason == choice.finish_reason
            &&& response.truncated == (wire::opt_view(choice.finish_reason) == Some("length"@))
            &&& response.usage == match reply.usage {
                Some(u) => Usage::plain(u.prompt_tokens, u.completion_tokens),
                None => Usage::zero(),
            }
        } else {
            r matches Err(e) && transport::is_oversize(
                e,
                "response"@,
                size,
                MAX_RESPONSE_BYTES as nat,
            )
        }
    }
}

/// What a decoded reply comes to: its first answer.
pub fn read_reply(status: u16, reply: ChatResponse) -> (r: Result<(u16, Response), Error>)
    ensures
        is_reply(r, status, reply),
        r matches Ok((_, response)) ==> response.truncated == (wire::opt_view(
            response.finish_reason,
        ) == Some("length"@)),
{
    if reply.choices.len() == 0 {
        assert("openai-compat: empty choices array"@ + ""@ =~= "openai-compat: empty choices array"@)
            by {
            reveal_strlit("");
        }
        return Err(transport::plain_failure("openai-compat: empty choices array", ""));
    }
    let choice = &reply.choices[0];
    match transport::check_reply_size(choice.content.as_str()) {
        Ok(_) => {
            let truncated = match &choice.finish_reason {
                Some(reason) => text::str_eq(reason.as_str(), "length"),
                None => false,
            };
            let usage = match reply.usage {
                Some(u) => Usage {
                    input_tokens: u.prompt_tokens,
                    output_tokens: u.completion_tokens,
                    cache_read: 0,
                    cache_creation: 0,
                },
                None => Usage::default(),
            };
            Ok(
                (
                    status,
                    Response {
                        text: choice.content.clone(),
                        finish_reason: wire::clone_opt(&choice.finish_reason),
                        truncated,
                        usage,
                    },
                ),
            )
        },
        Err(e) => Err(e),
    }
}

/// `step` is what is done after attempt number `attempt`.
pub open spec fn is_step(
    step: Step,
    attempt: u32,
    max_retries: u32,
    exchange: Exchange<ChatResponse>,
) -> bool {
    match exchange {
        Exchange::Decoded { status, reply } => step matches Step::Done(r) && is_reply(
            r,
            status,
            reply,
        ),
        Exchange::Undecodable(reason) => step matches Step::Done(Err(e))
            && transport::is_plain_failure(e, "decode: "@ + reason@),
        Exchange::Refused { status, body } => if transport::tries_again(
            attempt,
            max_retries,
            true,
        ) {
            step is Retry
        } else {
            step matches Step::Done(Err(e)) && transport::is_exhausted(e, status, attempt, body@)
        },
        Exchange::Unreachable(reason) => if transport::tries_again(attempt, max_retries, true) {
            step is Retry
        } else {
            step matches Step::Done(Err(e)) && transport::is_plain_failure(
                e,
                "openai-compat: network: "@ + reason@,
            )
        },
    }
}

/// A provider behind Chat Completions.
pub struct OpenAICompatibleProvider {
    pub name: String,
    pub model: String,
    pub endpoint: String,
    pub api_key: SecretString,
    pub max_retries: u32,
    /// The operator's cap on the output ceiling.
    pub provider_max_tokens: Option<u32>,
    /// The cap that all models of the provider's kind have.
    pub kind_hard_cap: Option<u32>,
    /// The ceilings discovered so far.
    pub max_tokens_table: Option<Arc<MaxTokensTable>>,
}

impl OpenAICompatibleProvider {
    /// The provider that a section sets up.
    pub open spec fn is_set_up(
        &self,
        spec: ProviderConfig,
        key: Seq<char>,
        cap: Option<u32>,
    ) -> bool {
        &&& self.name@ == spec.first_id_or("openai_compat"@)
        &&& self.model@ == spec.first_id_or(""@)
        &&& self.endpoint@ == spec.address()
        &&& self.api_key@ == key
        &&& self.max_retries == 3
        &&& self.provider_max_tokens == spec.first_cap()
        &&& self.kind_hard_cap == cap
        &&& self.max_tokens_table is None
    }

    /// The provider for one resolved model.
    pub open spec fn is_resolved(&self, resolved: ResolvedModelConfig, key: Seq<char>) -> bool {
        &&& self.name == resolved.section
        &&& self.model == resolved.id
        &&& self.endpoint == resolved.endpoint
        &&& self.api_key@ == key
        &&& self.max_retries == 3
        &&& self.provider_max_tokens == resolved.max_tokens
        &&& self.kind_hard_cap is None
        &&& self.max_tokens_table is None
    }

    /// The value of `max_tokens` on the wire. A request goes out under the
    /// ceiling that the layers set; a probe goes out as it is, but not below
    /// the smallest useful ceiling.
    pub open spec fn wire_ceiling(
        &self,
        requested: Option<u32>,
        env: Option<Seq<char>>,
        probe: bool,
    ) -> Option<u32> {
        match requested {
            None => None,
            Some(n) => Some(
                if probe {
                    if n < MIN_AUTOPROBE_FLOOR {
                        MIN_AUTOPROBE_FLOOR
                    } else {
                        n
                    }
                } else {
                    self.ceiling_for(requested, env)
                },
            ),
        }
    }

    /// `plan` is how `req` goes out.
    pub open spec fn is_plan(
        &self,
        plan: SendPlan<ChatRequest>,
        req: Request,
        env: Option<Seq<char>>,
        probe: bool,
    ) -> bool {
        &&& plan.url@ == endpoints::chat_address(self.endpoint@)
        &&& is_body(plan.body, req, self.model@, self.wire_ceiling(req.max_tokens, env, probe))
        &&& plan.max_retries == if probe {
            0
        } else {
            self.max_retries
        }
    }

    /// The provider for the first model of a section.
    pub fn new(spec: &ProviderConfig, api_key: SecretString) -> (r: Result<Self, Error>)
        ensures
            r matches Ok(p) && p.is_set_up(*spec, api_key@, None),
    {
        OpenAICompatibleProvider::new_with_kind_cap(spec, api_key, None)
    }

    /// The provider for the first model of a section, with the cap of its
    /// kind.
    pub fn new_with_kind_cap(
        spec: &ProviderConfig,
        api_key: SecretString,
        cap: Option<u32>,
    ) -> (r: Result<Self, Error>)
        ensures
            r matches Ok(p) && p.is_set_up(*spec, api_key@, cap),
    {
        Ok(
            OpenAICompatibleProvider {
                name: spec.model_id_or("openai_compat"),
                model: spec.model_id_or(""),
                endpoint: spec.base_address(),
                api_key,
                max_retries: 3,
                provider_max_tokens: spec.model_cap(),
                kind_hard_cap: cap,
                max_tokens_table: None,
            },
        )
    }

    /// The provider for a section with a single model, with the cap of its
    /// kind.
    pub fn for_section(spec: &SectionConfig, api_key: SecretString, cap: Option<u32>) -> (r: Self)
        ensures
            r.name == spec.kind,
            r.model == spec.model,
            r.endpoint == spec.endpoint,
            r.api_key == api_key,
            r.max_retries == 3,
            r.provider_max_tokens == spec.max_tokens,
            r.kind_hard_cap == cap,
            r.max_tokens_table is None,
    {
        OpenAICompatibleProvider {
            name: spec.kind.clone(),
            model: spec.model.clone(),
            endpoint: spec.endpoint.clone(),
            api_key,
            max_retries: 3,
            provider_max_tokens: spec.max_tokens,
            kind_hard_cap: cap,
            max_tokens_table: None,
        }
    }

    /// The provider for one resolved model. `found` is what the lookup of a
    /// key for `kind` gave.
    pub fn from_resolved(
        resolved: &ResolvedModelConfig,
        kind: &str,
        found: Option<Result<String, Error>>,
    ) -> (r: Result<Self, Error>)
        ensures
            match r {
                Ok(p) => found matches Some(Ok(key)) && p.is_resolved(*resolved, key@),
                Err(e) => api_keys::is_resolved(Err::<String, Error>(e), kind@, found),
            },
    {
        match api_keys::resolve_key(kind, found) {
            Ok(key) => Ok(
                OpenAICompatibleProvider {
                    name: resolved.section.clone(),
                    model: resolved.id.clone(),
                    endpoint: resolved.endpoint.clone(),
                    api_key: SecretString::new(key),
                    max_retries: 3,
                    provider_max_tokens: resolved.max_tokens,
                    kind_hard_cap: None,
                    max_tokens_table: None,
                },
            ),
            Err(e) => Err(e),
        }
    }

    /// The same provider with a table of discovered ceilings.
    pub fn with_max_tokens_table(self, table: Arc<MaxTokensTable>) -> (r: Self)
        ensures
            r == (OpenAICompatibleProvider { max_tokens_table: Some(table), ..self }),
    {
        let mut p = self;
        p.max_tokens_table = Some(table);
        p
    }

    /// The address that requests go to.
    pub fn chat_url(&self) -> (r: String)
        ensures
            r@ == endpoints::chat_address(self.endpoint@),
    {
        endpoints::route(self.endpoint.as_str(), "/chat/completions", "/chat/completions")
    }

    /// The address that requests go to.
    pub fn url(&self) -> (r: String)
        ensures
            r@ == endpoints::chat_address(self.endpoint@),
    {
        self.chat_url()
    }

    /// The capability profile of the provider.
    pub fn capabilities(&self) -> (r: ProviderCapabilities)
        ensures
            r == if self.name@ == "deepseek"@ {
                ProviderCapabilities::DeepSeek
            } else {
                ProviderCapabilities::OpenAiCompat
            },
    {
        if text::str_eq(self.name.as_str(), "deepseek") {
            ProviderCapabilities::DeepSeek
        } else {
            ProviderCapabilities::OpenAiCompat
        }
    }

    /// The body for `req`, with the ceiling that it asks for.
    pub fn build_chat_request(&self, req: &Request) -> (r: ChatRequest)
        ensures
            is_body(r, *req, self.model@, req.max_tokens),
    {
        let strategy = json_strategy::strategy_for(self.model.as_str(), None);
        let mut messages: Vec<Message> = Vec::new();
        messages.push(Message { role: "system".to_owned(), content: req.system.clone() });
        messages.push(Message { role: "user".to_owned(), content: req.user.clone() });
        let ghost opening = seq![("system"@, req.system@), ("user"@, req.user@)];
        let ghost extra = req.extra_messages@;
        assert(turns(messages@) =~= opening);
        assert(extra.take(0) =~= Seq::empty());
        assert(turns(messages@) =~= opening + turns(extra.take(0)));
        let mut i: usize = 0;
        while i < req.extra_messages.len()
            invariant
                extra == req.extra_messages@,
                i <= extra.len(),
                turns(messages@) == opening + turns(extra.take(i as int)),
            decreases extra.len() - i,
        {
            let ghost before = messages@;
            messages.push(req.extra_messages[i].clone());
            assert(turns(messages@) =~= turns(before).push(
                (extra[i as int].role@, extra[i as int].content@),
            ));
            assert(turns(extra.take(i + 1)) =~= turns(extra.take(i as int)).push(
                (extra[i as int].role@, extra[i as int].content@),
            ));
            assert(turns(messages@) =~= opening + turns(extra.take(i + 1)));
            i = i + 1;
        }
        assert(extra.take(i as int) =~= extra);
        if req.extra_messages.len() == 0 {
            assert(turns(messages@) =~= opening);
            if json_strategy::needs_assistant_prefill(strategy) {
                messages.push(Message { role: "assistant".to_owned(), content: "{".to_owned() });
                assert(turns(messages@) =~= opening.push(("assistant"@, "{"@)));
            }
        }
        ChatRequest {
            model: self.model.clone(),
            messages,
            max_tokens: req.max_tokens,
            temperature: req.temperature,
            top_p: req.top_p,
            stream: false,
            response_format: json_object_format(
                responses_wire::wants_response_format(req.role, self.model.as_str()),
            ),
        }
    }

    /// How `req` goes out, as a call or as a probe. `env` is what the
    /// environment holds under [`crate::max_tokens::env_key`].
    pub fn plan(&self, req: &Request, env: Option<&str>, probe: bool) -> (r: SendPlan<ChatRequest>)
        ensures
            self.is_plan(r, *req, max_tokens::str_view(env), probe),
    {
        let mut body = self.build_chat_request(req);
        if let Some(n) = body.max_tokens {
            if probe {
                if n < MIN_AUTOPROBE_FLOOR {
                    body.max_tokens = Some(MIN_AUTOPROBE_FLOOR);
                }
            } else {
                body.max_tokens = Some(self.effective_max_tokens(req, env));
            }
        }
        SendPlan {
            url: self.chat_url(),
            body,
            max_retries: if probe {
                0
            } else {
                self.max_retries
            },
        }
    }

    /// What is done after attempt number `attempt`: a reply ends the call, and
    /// any failure is tried again until `max_retries` attempts were made.
    pub fn next(&self, attempt: u32, max_retries: u32, exchange: Exchange<ChatResponse>) -> (r: Step)
        ensures
            is_step(r, attempt, max_retries, exchange),
            exchange is Refused || exchange is Unreachable ==> (r is Retry <==> attempt
                < max_retries),
    {
        match exchange {
            Exchange::Decoded { status, reply } => Step::Done(read_reply(status, reply)),
            Exchange::Undecodable(reason) => Step::Done(
                Err(transport::plain_failure("decode: ", reason.as_str())),
            ),
            Exchange::Refused { status, body } => transport::after_failure(
                attempt,
                max_retries,
                transport::exhausted(status, attempt, body.as_str()),
                true,
            ),
            Exchange::Unreachable(reason) => transport::after_failure(
                attempt,
                max_retries,
                transport::plain_failure("openai-compat: network: ", reason.as_str()),
                true,
            ),
        }
    }
}

impl Provider for OpenAICompatibleProvider {
    open spec fn name_text(&self) -> Seq<char> {
        self.name@
    }

    open spec fn model_text(&self) -> Seq<char> {
        self.model@
    }

    open spec fn endpoint_text(&self) -> Seq<char> {
        self.endpoint@
    }

    open spec fn ceiling_for(&self, requested: Option<u32>, env: Option<Seq<char>>) -> u32 {
        max_tokens::smaller(
            max_tokens::or_unlimited(requested),
            max_tokens::layered(
                env,
                max_tokens::shared_cap(self.max_tokens_table, self.name@, self.model@),
                self.provider_max_tokens,
                self.kind_hard_cap,
            ),
        )
    }

    open spec fn probe_limit(&self) -> u32 {
        match self.kind_hard_cap {
            Some(cap) => cap,
            None => MAX_AUTOPROBE_CEILING,
        }
    }

    fn name(&self) -> (r: &str) {
        self.name.as_str()
    }

    fn model(&self) -> (r: &str) {
        self.model.as_str()
    }

    fn endpoint(&self) -> (r: &str) {
        self.endpoint.as_str()
    }

    fn effective_max_tokens(&self, req: &Request, env: Option<&str>) -> (r: u32) {
        let table: Option<&MaxTokensTable> = match &self.max_tokens_table {
            Some(t) => Some(&**t),
            None => None,
        };
        let cap: u32 = max_tokens::resolve_max_tokens(
            self.name.as_str(),
            self.model.as_str(),
            env,
            table,
            self.provider_max_tokens,
            self.kind_hard_cap,
        );
        match req.max_tokens {
            Some(n) => if n <= cap {
                n
            } else {
                cap
            },
            None => cap,
        }
    }

    fn max_tokens_probe_ceiling(&self) -> (r: u32) {
        match self.kind_hard_cap {
            Some(cap) => cap,
            None => MAX_AUTOPROBE_CEILING,
        }
    }
}

/// A call carries on the wire the ceiling that is reported for it.
pub proof fn law_reported_ceiling_is_on_the_wire(
    p: OpenAICompatibleProvider,
    plan: SendPlan<ChatRequest>,
    req: Request,
    env: Option<Seq<char>>,
)
    requires
        p.is_plan(plan, req, env, false),
        req.max_tokens is Some,
    ensures
        plan.body.max_tokens == Some(p.ceiling_for(req.max_tokens, env)),
{
}

/// A request that leaves the ceiling out goes out without one, as a call and
/// as a probe.
pub proof fn law_absent_ceiling_stays_absent(
    p: OpenAICompatibleProvider,
    plan: SendPlan<ChatRequest>,
    req: Request,
    env: Option<Seq<char>>,
    probe: bool,
)
    requires
        p.is_plan(plan, req, env, probe),
        req.max_tokens is None,
    ensures
        plan.body.max_tokens is None,
{
}

/// A probe is not held to any cap, and it is made once.
pub proof fn law_probes_are_not_clamped(
    p: OpenAICompatibleProvider,
    plan: SendPlan<ChatRequest>,
    req: Request,
    env: Option<Seq<char>>,
)
    requires
        p.is_plan(plan, req, env, true),
        req.max_tokens is Some,
        req.max_tokens->0 >= MIN_AUTOPROBE_FLOOR,
    ensures
        plan.body.max_tokens == req.max_tokens,
        plan.max_retries == 0,
{
}

/// What the request adds to the conversation is sent as it is, and then no
/// brace is put in front of the reply.
pub proof fn law_extra_messages_win(req: Request, model: Seq<char>)
    requires
        req.extra_messages@.len() > 0,
    ensures
        conversation(req, model).len() == 2 + req.extra_messages@.len(),
        forall|i: int|
            0 <= i < req.extra_messages@.len() ==> #[trigger] conversation(req, model)[2 + i] == (
                req.extra_messages@[i].role@,
                req.extra_messages@[i].content@,
            ),
{
}

} // verus!
