//! The models of OpenCode Go behind the Responses API.

use std::sync::Arc;

use vstd::prelude::*;
use vstd::string::*;

use crate::api_keys;
use crate::capabilities::{ProviderCapabilities, OPENCODE_GO_MAX_TOKENS_CAP};
use crate::config::{SecretString, SectionConfig};
use crate::endpoints;
use crate::error::Error;
use crate::max_tokens;
use crate::opencode_go;
use crate::opencode_go::OpenCodeGoDispatch;
use crate::opencode_go_anthropic;
use crate::openai_compatible;
use crate::openai_compatible::ResponseFormat;
use crate::probe_table::MaxTokensTable;
use crate::provider::Provider;
use crate::responses_wire;
use crate::responses_wire::{ResponsesBody, StreamExchange};
use crate::transport::{Exchange, SendPlan, Step};
use crate::wire::{Knob, Request, Response};

verus! {

/// The body of a request. A field that is `None` is left out.
pub struct ResponsesRequest {
    pub model: String,
    pub instructions: Option<String>,
    pub input: String,
    pub max_tokens: Option<u32>,
    pub temperature: Option<Knob>,
    pub top_p: Option<Knob>,
    pub response_format: Option<ResponseFormat>,
    pub stream: bool,
}

/// `b` is the body for `req` to `model` with the ceiling `max_tokens`.
pub open spec fn is_body(
    b: ResponsesRequest,
    req: Request,
    model: Seq<char>,
    stream: bool,
    max_tokens: Option<u32>,
) -> bool {
    &&& b.model@ == model
    &&& b.instructions == Some(req.system)
    &&& b.input == req.user
    &&& b.max_tokens == max_tokens
    &&& b.temperature == req.temperature
    &&& b.top_p == req.top_p
    &&& openai_compatible::is_format_gate(
        b.response_format,
        responses_wire::asks_json(req.role, model),
    )
    &&& b.stream == stream
}

/// The body for `req` to `model`.
pub fn build_responses_body(req: &Request, model: &str, stream: bool, omit_max_tokens: bool) -> (r:
    ResponsesRequest)
    ensures
        is_body(
            r,
            *req,
            model@,
            stream,
            if omit_max_tokens {
                None
            } else {
                req.max_tokens
            },
        ),
{
    ResponsesRequest {
        model: model.to_owned(),
        instructions: Some(req.system.clone()),
        input: req.user.clone(),
        max_tokens: if omit_max_tokens {
            None
        } else {
            req.max_tokens
        },
        temperature: req.temperature,
        top_p: req.top_p,
        response_format: openai_compatible::json_object_format(
            responses_wire::wants_response_format(req.role, model),
        ),
        stream,
    }
}

/// A provider for the models of OpenCode Go behind the Responses API.
pub struct OpenCodeGoResponsesProvider {
    pub name: String,
    pub model: String,
    pub endpoint: String,
    pub api_key: SecretString,
    pub max_retries: u32,
    /// The operator's cap on the output ceiling.
    pub provider_max_tokens: Option<u32>,
    /// Leave `max_tokens` out of the wire body.
    pub omit_max_tokens: bool,
    /// The ceilings discovered so far.
    pub max_tokens_table: Option<Arc<MaxTokensTable>>,
}

/// The message for a section of another kind.
pub open spec fn wrong_kind_text(kind: Seq<char>) -> Seq<char> {
    "opencode_go_responses provider got kind '"@ + kind + "'"@
}

impl OpenCodeGoResponsesProvider {
    /// The provider that a section sets up.
    pub open spec fn is_set_up(&self, spec: SectionConfig, key: Seq<char>) -> bool {
        &&& self.name@ == "opencode_go"@
        &&& self.model == spec.model
        &&& self.endpoint == spec.endpoint
        &&& self.api_key@ == key
        &&& self.max_retries == 3
        &&& self.provider_max_tokens == spec.max_tokens
        &&& self.omit_max_tokens == spec.omit_max_tokens
        &&& self.max_tokens_table is None
    }

    /// `plan` is how `req` goes out.
    pub open spec fn is_plan(&self, plan: SendPlan<ResponsesRequest>, req: Request) -> bool {
        &&& plan.url@ == endpoints::responses_address(self.endpoint@)
        &&& is_body(
            plan.body,
            req,
            self.model@,
            req.stream,
            if self.omit_max_tokens || req.max_tokens is None {
                None
            } else {
                Some(self.ceiling_for(req.max_tokens, None))
            },
        )
        &&& plan.max_retries == if req.stream {
            0
        } else {
            self.max_retries
        }
    }

    /// The provider for a section.
    pub fn new(spec: &SectionConfig, api_key: SecretString) -> (r: Result<Self, Error>)
        ensures
            match r {
                Ok(p) => spec.kind@ == "opencode_go"@ && p.is_set_up(*spec, api_key@),
                Err(e) => spec.kind@ != "opencode_go"@ && opencode_go::is_bad_argument(
                    e,
                    wrong_kind_text(spec.kind@),
                ),
            },
    {
        match opencode_go::check_kind(spec.kind.as_str(), "opencode_go_responses provider got kind '") {
            Ok(_) => Ok(
                OpenCodeGoResponsesProvider {
                    name: "opencode_go".to_owned(),
                    model: spec.model.clone(),
                    endpoint: spec.endpoint.clone(),
                    api_key,
                    max_retries: 3,
                    provider_max_tokens: spec.max_tokens,
                    omit_max_tokens: spec.omit_max_tokens,
                    max_tokens_table: None,
                },
            ),
            Err(e) => Err(e),
        }
    }

    /// The same provider with a table of discovered ceilings.
    pub fn with_max_tokens_table(self, table: Arc<MaxTokensTable>) -> (r: Self)
        ensures
            r == (OpenCodeGoResponsesProvider { max_tokens_table: Some(table), ..self }),
    {
        let mut p = self;
        p.max_tokens_table = Some(table);
        p
    }

    /// The provider for a section, with the key that the environment holds.
    pub fn from_config(spec: &SectionConfig, env: Option<String>) -> (r: Result<Self, Error>)
        ensures
            match r {
                Ok(p) => api_keys::is_set(env) && spec.kind@ == "opencode_go"@ && p.is_set_up(
                    *spec,
                    env->0@,
                ),
                Err(e) => if api_keys::is_set(env) {
                    spec.kind@ != "opencode_go"@ && opencode_go::is_bad_argument(
                        e,
                        wrong_kind_text(spec.kind@),
                    )
                } else {
                    api_keys::is_key_error(e, opencode_go_anthropic::no_key_text())
                },
            },
    {
        match api_keys::key_from_env(
            env,
            "OPENCODE_GO_API_KEY not set; provide via env, --api-key, or config file",
        ) {
            Ok(key) => OpenCodeGoResponsesProvider::new(spec, SecretString::new(key)),
            Err(e) => Err(e),
        }
    }

    /// The address that requests go to.
    pub fn responses_url(&self) -> (r: String)
        ensures
            r@ == endpoints::responses_address(self.endpoint@),
    {
        endpoints::route(self.endpoint.as_str(), "/responses", "/responses")
    }

    /// The capability profile of the provider.
    pub fn capabilities(&self) -> (r: ProviderCapabilities)
        ensures
            r == ProviderCapabilities::OpenCodeGoResponses,
    {
        ProviderCapabilities::OpenCodeGoResponses
    }

    /// How `req` goes out.
    pub fn plan(&self, req: &Request) -> (r: SendPlan<ResponsesRequest>)
        ensures
            self.is_plan(r, *req),
    {
        let mut body = build_responses_body(
            req,
            self.model.as_str(),
            req.stream,
            self.omit_max_tokens,
        );
        if body.max_tokens.is_some() {
            body.max_tokens = Some(self.effective_max_tokens(req, None));
        }
        SendPlan {
            url: self.responses_url(),
            body,
            max_retries: if req.stream {
                0
            } else {
                self.max_retries
            },
        }
    }

    /// What is done after attempt number `attempt` of a call that does not
    /// stream.
    pub fn next(&self, attempt: u32, max_retries: u32, exchange: Exchange<ResponsesBody>) -> (r: Step)
        ensures
            responses_wire::is_step(r, attempt, max_retries, exchange),
    {
        responses_wire::step(attempt, max_retries, exchange)
    }

    /// What a call that streams comes to.
    pub fn finish_stream(&self, exchange: StreamExchange) -> (r: Result<(u16, Response), Error>)
        ensures
            responses_wire::is_stream_result(r, exchange),
    {
        responses_wire::finish_stream(exchange)
    }
}

impl Provider for OpenCodeGoResponsesProvider {
    open spec fn name_text(&self) -> Seq<char> {
        self.name@
    }

    open spec fn model_text(&self) -> Seq<char> {
        self.model@
    }

    open spec fn endpoint_text(&self) -> Seq<char> {
        self.endpoint@
    }

    open spec fn ceiling_for(&self, requested: Option<u32>, env: Option<Seq<char>>) -> u32 {
        max_tokens::clamped(
            requested,
            self.provider_max_tokens,
            max_tokens::shared_cap(self.max_tokens_table, self.name@, self.model@),
            OPENCODE_GO_MAX_TOKENS_CAP,
        )
    }

    open spec fn probe_limit(&self) -> u32 {
        OPENCODE_GO_MAX_TOKENS_CAP
    }

    fn name(&self) -> (r: &str) {
        self.name.as_str()
    }

    fn model(&self) -> (r: &str) {
        self.model.as_str()
    }

    fn endpoint(&self) -> (r: &str) {
        self.endpoint.as_str()
    }

    fn effective_max_tokens(&self, req: &Request, _env: Option<&str>) -> (r: u32) {
        let table_cap = max_tokens::remembered_cap(
            &self.max_tokens_table,
            self.name.as_str(),
            self.model.as_str(),
        );
        max_tokens::clamp(
            req.max_tokens,
            self.provider_max_tokens,
            table_cap,
            OPENCODE_GO_MAX_TOKENS_CAP,
        )
    }

    fn max_tokens_probe_ceiling(&self) -> (r: u32) {
        OPENCODE_GO_MAX_TOKENS_CAP
    }
}

impl OpenCodeGoDispatch for OpenCodeGoResponsesProvider {
    open spec fn url_text(&self) -> Seq<char> {
        endpoints::responses_address(self.endpoint@)
    }

    fn url(&self) -> (r: String) {
        self.responses_url()
    }
}

/// A call carries on the wire the ceiling that is reported for it, which the
/// upstream takes, unless the field is left out.
pub proof fn law_reported_ceiling_is_on_the_wire(
    p: OpenCodeGoResponsesProvider,
    plan: SendPlan<ResponsesRequest>,
    req: Request,
    env: Option<Seq<char>>,
)
    requires
        p.is_plan(plan, req),
        req.max_tokens is Some,
    ensures
        plan.body.max_tokens == if p.omit_max_tokens {
            None
        } else {
            Some(p.ceiling_for(req.max_tokens, env))
        },
        p.ceiling_for(req.max_tokens, env) <= OPENCODE_GO_MAX_TOKENS_CAP,
{
}

} // verus!
