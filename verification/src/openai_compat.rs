//! A provider that speaks the Responses API.

use std::sync::Arc;

use vstd::prelude::*;
use vstd::string::*;

use crate::api_keys;
use crate::capabilities::ProviderCapabilities;
use crate::config::{ProviderConfig, ResolvedModelConfig, SecretString};
use crate::detection::MIN_AUTOPROBE_FLOOR;
use crate::endpoints;
use crate::error::Error;
use crate::max_tokens;
use crate::probe_table::MaxTokensTable;
use crate::provider::Provider;
use crate::responses_wire;
use crate::responses_wire::{ResponsesBody, StreamExchange};
use crate::text;
use crate::transport::{Exchange, SendPlan, Step};
use crate::wire::{Knob, Request, Response};

verus! {

/// The body of a request. A field that is `None` is left out.
pub struct ResponsesRequest {
    pub model: String,
    pub instructions: Option<String>,
    pub input: String,
    pub max_tokens: Option<u32>,
    pub temperature: Option<Knob>,
    pub top_p: Option<Knob>,
    pub text: Option<ResponsesText>,
    pub stream: bool,
}

/// How the text of the reply is to look.
pub struct ResponsesText {
    pub format: ResponsesTextFormat,
}

/// The format of the reply, by its name.
pub struct ResponsesTextFormat {
    pub kind: &'static str,
}

/// `t` asks for JSON output mode where `wants` says so, and for nothing
/// otherwise.
pub open spec fn is_text_gate(t: Option<ResponsesText>, wants: bool) -> bool {
    match t {
        Some(t) => wants && t.format.kind@ == "json_object"@,
        None => !wants,
    }
}

/// The text format of a request.
pub fn responses_text_json_object(wants: bool) -> (r: Option<ResponsesText>)
    ensures
        is_text_gate(r, wants),
{
    if wants {
        Some(ResponsesText { format: ResponsesTextFormat { kind: "json_object" } })
    } else {
        None
    }
}

/// `b` is the body for `req` to `model` with the ceiling `max_tokens`.
pub open spec fn is_body(
    b: ResponsesRequest,
    req: Request,
    model: Seq<char>,
    stream: bool,
    max_tokens: Option<u32>,
) -> bool {
    &&& b.model@ == model
    &&& b.instructions == Some(req.system)
    &&& b.input == req.user
    &&& b.max_tokens == max_tokens
    &&& b.temperature == req.temperature
    &&& b.top_p == req.top_p
    &&& is_text_gate(b.text, responses_wire::asks_json(req.role, model))
    &&& b.stream == stream
}

/// The body for `req` to `model`.
pub fn build_responses_body(req: &Request, model: &str, stream: bool, omit_max_tokens: bool) -> (r:
    ResponsesRequest)
    ensures
        is_body(
            r,
            *req,
            model@,
            stream,
            if omit_max_tokens {
                None
            } else {
                req.max_tokens
            },
        ),
{
    ResponsesRequest {
        model: model.to_owned(),
        instructions: Some(req.system.clone()),
        input: req.user.clone(),
        max_tokens: if omit_max_tokens {
            None
        } else {
            req.max_tokens
        },
        temperature: req.temperature,
        top_p: req.top_p,
        text: responses_text_json_object(responses_wire::wants_response_format(req.role, model)),
        stream,
    }
}

/// A provider behind the Responses API.
pub struct OpenAICompatProvider {
    pub name: String,
    pub model: String,
    pub endpoint: String,
    pub api_key: SecretString,
    pub max_retries: u32,
    /// The operator's cap on the output ceiling.
    pub provider_max_tokens: Option<u32>,
    /// Leave `max_tokens` out of the wire body.
    pub omit_max_tokens: bool,
    /// The ceilings discovered so far.
    pub max_tokens_table: Option<Arc<MaxTokensTable>>,
}

/// The message where the environment holds no key.
pub open spec fn no_key_text() -> Seq<char> {
    "OPENCODE_API_KEY not set; provide via env, --api-key, or api_keys.toml"@
}

impl OpenAICompatProvider {
    /// The provider that a section sets up.
    pub open spec fn is_set_up(&self, spec: ProviderConfig, key: Seq<char>) -> bool {
        &&& self.name@ == spec.first_id_or("openai_compat"@)
        &&& self.model@ == spec.first_id_or(""@)
        &&& self.endpoint@ == spec.address()
        &&& self.api_key@ == key
        &&& self.max_retries == 3
        &&& self.provider_max_tokens == spec.first_cap()
        &&& self.omit_max_tokens == spec.omit_max_tokens
        &&& self.max_tokens_table is None
    }

    /// The provider for one resolved model.
    pub open spec fn is_resolved(&self, resolved: ResolvedModelConfig, key: Seq<char>) -> bool {
        &&& self.name == resolved.section
        &&& self.model == resolved.id
        &&& self.endpoint == resolved.endpoint
        &&& self.api_key@ == key
        &&& self.max_retries == 3
        &&& self.provider_max_tokens == resolved.max_tokens
        &&& self.omit_max_tokens == resolved.omit_max_tokens
        &&& self.max_tokens_table is None
    }

    /// The value of `max_tokens` on the wire. A request goes out under the
    /// caps; a probe goes out as it is, but not below the smallest useful
    /// ceiling.
    pub open spec fn wire_ceiling(&self, requested: Option<u32>, probe: bool) -> Option<u32> {
        if self.omit_max_tokens || requested is None {
            None
        } else if probe {
            Some(
                if requested->0 < MIN_AUTOPROBE_FLOOR {
                    MIN_AUTOPROBE_FLOOR
                } else {
                    requested->0
                },
            )
        } else {
            Some(self.ceiling_for(requested, None))
        }
    }

    /// `plan` is how `req` goes out.
    pub open spec fn is_plan(
        &self,
        plan: SendPlan<ResponsesRequest>,
        req: Request,
        probe: bool,
    ) -> bool {
        &&& plan.url@ == endpoints::responses_address(self.endpoint@)
        &&& is_body(
            plan.body,
            req,
            self.model@,
            req.stream,
            self.wire_ceiling(req.max_tokens, probe),
        )
        &&& plan.max_retries == if probe || req.stream {
            0
        } else {
            self.max_retries
        }
    }

    /// The provider for the first model of a section.
    pub fn new(spec: &ProviderConfig, api_key: SecretString) -> (r: Result<Self, Error>)
        ensures
            r matches Ok(p) && p.is_set_up(*spec, api_key@),
    {
        Ok(
            OpenAICompatProvider {
                name: spec.model_id_or("openai_compat"),
                model: spec.model_id_or(""),
                endpoint: spec.base_address(),
                api_key,
                max_retries: 3,
                provider_max_tokens: spec.model_cap(),
                omit_max_tokens: spec.omit_max_tokens,
                max_tokens_table: None,
            },
        )
    }

    /// The same provider with a table of discovered ceilings.
    pub fn with_max_tokens_table(self, table: Arc<MaxTokensTable>) -> (r: Self)
        ensures
            r == (OpenAICompatProvider { max_tokens_table: Some(table), ..self }),
    {
        let mut p = self;
        p.max_tokens_table = Some(table);
        p
    }

    /// The provider for the first model of a section, with the key that the
    /// environment holds.
    pub fn from_config(spec: &ProviderConfig, env: Option<String>) -> (r: Result<Self, Error>)
        ensures
            match r {
                Ok(p) => api_keys::is_set(env) && p.is_set_up(*spec, env->0@),
                Err(e) => !api_keys::is_set(env) && api_keys::is_key_error(e, no_key_text()),
            },
    {
        match api_keys::key_from_env(
            env,
            "OPENCODE_API_KEY not set; provide via env, --api-key, or api_keys.toml",
        ) {
            Ok(key) => OpenAICompatProvider::new(spec, SecretString::new(key)),
            Err(e) => Err(e),
        }
    }

    /// The provider for one resolved model. `found` is what the lookup of a
    /// key for `kind` gave.
    pub fn from_resolved(
        resolved: &ResolvedModelConfig,
        kind: &str,
        found: Option<Result<String, Error>>,
    ) -> (r: Result<Self, Error>)
        ensures
            match r {
                Ok(p) => found matches Some(Ok(key)) && p.is_resolved(*resolved, key@),
                Err(e) => api_keys::is_resolved(Err::<String, Error>(e), kind@, found),
            },
    {
        match api_keys::resolve_key(kind, found) {
            Ok(key) => Ok(
                OpenAICompatProvider {
                    name: resolved.section.clone(),
                    model: resolved.id.clone(),
                    endpoint: resolved.endpoint.clone(),
                    api_key: SecretString::new(key),
                    max_retries: 3,
                    provider_max_tokens: resolved.max_tokens,
                    omit_max_tokens: resolved.omit_max_tokens,
                    max_tokens_table: None,
                },
            ),
            Err(e) => Err(e),
        }
    }

    /// The address that requests go to.
    pub fn responses_url(&self) -> (r: String)
        ensures
            r@ == endpoints::responses_address(self.endpoint@),
    {
        endpoints::route(self.endpoint.as_str(), "/responses", "/responses")
    }

    /// The address that requests go to.
    pub fn url(&self) -> (r: String)
        ensures
            r@ == endpoints::responses_address(self.endpoint@),
    {
        self.responses_url()
    }

    /// The capability profile of the provider.
    pub fn capabilities(&self) -> (r: ProviderCapabilities)
        ensures
            r == if text::has_suffix(self.endpoint@, "/responses"@) {
                ProviderCapabilities::OpenCodeGoResponses
            } else {
                ProviderCapabilities::OpenAiCompat
            },
    {
        let chars = text::chars_of(self.endpoint.as_str());
        if text::ends_with(&chars, "/responses") {
            ProviderCapabilities::OpenCodeGoResponses
        } else {
            ProviderCapabilities::OpenAiCompat
        }
    }

    /// How `req` goes out, as a call or as a probe.
    pub fn plan(&self, req: &Request, probe: bool) -> (r: SendPlan<ResponsesRequest>)
        ensures
            self.is_plan(r, *req, probe),
    {
        let mut body = build_responses_body(
            req,
            self.model.as_str(),
            req.stream,
            self.omit_max_tokens,
        );
        if let Some(n) = body.max_tokens {
            if probe {
                if n < MIN_AUTOPROBE_FLOOR {
                    body.max_tokens = Some(MIN_AUTOPROBE_FLOOR);
                }
            } else {
                body.max_tokens = Some(self.effective_max_tokens(req, None));
            }
        }
        SendPlan {
            url: self.responses_url(),
            body,
            max_retries: if probe || req.stream {
                0
            } else {
                self.max_retries
            },
        }
    }

    /// What is done after attempt number `attempt` of a call that does not
    /// stream.
    pub fn next(&self, attempt: u32, max_retries: u32, exchange: Exchange<ResponsesBody>) -> (r: Step)
        ensures
            responses_wire::is_step(r, attempt, max_retries, exchange),
    {
        responses_wire::step(attempt, max_retries, exchange)
    }

    /// What a call that streams comes to.
    pub fn finish_stream(&self, exchange: StreamExchange) -> (r: Result<(u16, Response), Error>)
        ensures
            responses_wire::is_stream_result(r, exchange),
    {
        responses_wire::finish_stream(exchange)
    }
}

impl Provider for OpenAICompatProvider {
    open spec fn name_text(&self) -> Seq<char> {
        self.name@
    }

    open spec fn model_text(&self) -> Seq<char> {
        self.model@
    }

    open spec fn endpoint_text(&self) -> Seq<char> {
        self.endpoint@
    }

    open spec fn ceiling_for(&self, requested: Option<u32>, env: Option<Seq<char>>) -> u32 {
        max_tokens::clamped(
            requested,
            self.provider_max_tokens,
            max_tokens::shared_cap(self.max_tokens_table, self.name@, self.model@),
            u32::MAX,
        )
    }

    open spec fn probe_limit(&self) -> u32 {
        u32::MAX
    }

    fn name(&self) -> (r: &str) {
        self.name.as_str()
    }

    fn model(&self) -> (r: &str) {
        self.model.as_str()
    }

    fn endpoint(&self) -> (r: &str) {
        self.endpoint.as_str()
    }

    fn effective_max_tokens(&self, req: &Request, _env: Option<&str>) -> (r: u32) {
        let table_cap = max_tokens::remembered_cap(
            &self.max_tokens_table,
            self.name.as_str(),
            self.model.as_str(),
        );
        max_tokens::clamp(req.max_tokens, self.provider_max_tokens, table_cap, u32::MAX)
    }

    fn max_tokens_probe_ceiling(&self) -> (r: u32) {
        u32::MAX
    }
}

/// A call carries on the wire the ceiling that is reported for it, unless the
/// field is left out.
pub proof fn law_reported_ceiling_is_on_the_wire(
    p: OpenAICompatProvider,
    plan: SendPlan<ResponsesRequest>,
    req: Request,
    env: Option<Seq<char>>,
)
    requires
        p.is_plan(plan, req, false),
        req.max_tokens is Some,
    ensures
        plan.body.max_tokens == if p.omit_max_tokens {
            None
        } else {
            Some(p.ceiling_for(req.max_tokens, env))
        },
{
}

/// A probe is not held to any cap, and it is made once.
pub proof fn law_probes_are_not_clamped(
    p: OpenAICompatProvider,
    plan: SendPlan<ResponsesRequest>,
    req: Request,
)
    requires
        p.is_plan(plan, req, true),
        req.max_tokens is Some,
        req.max_tokens->0 >= MIN_AUTOPROBE_FLOOR,
        !p.omit_max_tokens,
    ensures
        plan.body.max_tokens == req.max_tokens,
        plan.max_retries == 0,
{
}

} // verus!
