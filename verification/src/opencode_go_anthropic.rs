//! The models of OpenCode Go behind the Messages API.

use vstd::prelude::*;
use vstd::string::*;

use crate::api_keys;
use crate::capabilities::OPENCODE_GO_MAX_TOKENS_CAP;
use crate::config::{SecretString, SectionConfig};
use crate::endpoints;
use crate::error::Error;
use crate::max_tokens;
use crate::messages_wire;
use crate::messages_wire::{MessagesExchange, MessagesRequest};
use crate::opencode_go;
use crate::opencode_go::OpenCodeGoDispatch;
use crate::provider::Provider;
use crate::transport;
use crate::transport::{SendPlan, Step};
use crate::wire::Request;

verus! {

/// A provider for the models of OpenCode Go behind the Messages API.
pub struct OpenCodeGoAnthropicProvider {
    pub name: String,
    pub model: String,
    pub endpoint: String,
    pub api_key: SecretString,
    pub max_retries: u32,
}

/// The message where the environment holds no key.
pub open spec fn no_key_text() -> Seq<char> {
    "OPENCODE_GO_API_KEY not set; provide via env, --api-key, or config file"@
}

/// The message for a section of another kind.
pub open spec fn wrong_kind_text(kind: Seq<char>) -> Seq<char> {
    "opencode_go_anthropic provider got kind '"@ + kind + "'"@
}

impl OpenCodeGoAnthropicProvider {
    /// The provider that a section sets up.
    pub open spec fn is_set_up(&self, spec: SectionConfig, key: Seq<char>) -> bool {
        &&& self.name@ == "opencode_go"@
        &&& self.model == spec.model
        &&& self.endpoint == spec.endpoint
        &&& self.api_key@ == key
        &&& self.max_retries == 3
    }

    /// `plan` is how `req` goes out.
    pub open spec fn is_plan(&self, plan: SendPlan<MessagesRequest>, req: Request) -> bool {
        &&& plan.url@ == endpoints::messages_address(self.endpoint@)
        &&& messages_wire::is_body(
            plan.body,
            req,
            match req.max_tokens {
                Some(_) => Some(self.ceiling_for(req.max_tokens, None)),
                None => None,
            },
        )
        &&& plan.max_retries == self.max_retries
    }

    /// The provider for a section.
    pub fn new(spec: &SectionConfig, api_key: SecretString) -> (r: Result<Self, Error>)
        ensures
            match r {
                Ok(p) => spec.kind@ == "opencode_go"@ && p.is_set_up(*spec, api_key@),
                Err(e) => spec.kind@ != "opencode_go"@ && opencode_go::is_bad_argument(
                    e,
                    wrong_kind_text(spec.kind@),
                ),
            },
    {
        match opencode_go::check_kind(spec.kind.as_str(), "opencode_go_anthropic provider got kind '") {
            Ok(_) => Ok(
                OpenCodeGoAnthropicProvider {
                    name: "opencode_go".to_owned(),
                    model: spec.model.clone(),
                    endpoint: spec.endpoint.clone(),
                    api_key,
                    max_retries: 3,
                },
            ),
            Err(e) => Err(e),
        }
    }

    /// The provider for a section, with the key that the environment holds.
    pub fn from_config(spec: &SectionConfig, env: Option<String>) -> (r: Result<Self, Error>)
        ensures
            match r {
                Ok(p) => api_keys::is_set(env) && spec.kind@ == "opencode_go"@ && p.is_set_up(
                    *spec,
                    env->0@,
                ),
                Err(e) => if api_keys::is_set(env) {
                    spec.kind@ != "opencode_go"@ && opencode_go::is_bad_argument(
                        e,
                        wrong_kind_text(spec.kind@),
                    )
                } else {
                    api_keys::is_key_error(e, no_key_text())
                },
            },
    {
        match api_keys::key_from_env(
            env,
            "OPENCODE_GO_API_KEY not set; provide via env, --api-key, or config file",
        ) {
            Ok(key) => OpenCodeGoAnthropicProvider::new(spec, SecretString::new(key)),
            Err(e) => Err(e),
        }
    }

    /// The address that requests go to.
    pub fn messages_url(&self) -> (r: String)
        ensures
            r@ == endpoints::messages_address(self.endpoint@),
    {
        messages_wire::messages_url(self.endpoint.as_str())
    }

    /// How `req` goes out.
    pub fn plan(&self, req: &Request) -> (r: SendPlan<MessagesRequest>)
        ensures
            self.is_plan(r, *req),
    {
        let max_tokens: Option<u32> = match req.max_tokens {
            Some(_) => Some(self.effective_max_tokens(req, None)),
            None => None,
        };
        SendPlan {
            url: self.messages_url(),
            body: messages_wire::build_messages_body(req, max_tokens),
            max_retries: self.max_retries,
        }
    }

    /// `step` is what is done after attempt number `attempt`.
    pub open spec fn is_next(
        step: Step,
        attempt: u32,
        max_retries: u32,
        exchange: MessagesExchange,
    ) -> bool {
        messages_wire::is_step(
            step,
            attempt,
            max_retries,
            exchange,
            |e: Error| transport::curable(e),
        )
    }

    /// What is done after attempt number `attempt`.
    pub fn next(&self, attempt: u32, max_retries: u32, exchange: MessagesExchange) -> (r: Step)
        ensures
            Self::is_next(r, attempt, max_retries, exchange),
            exchange matches MessagesExchange::Refused(e) ==> (r is Retry <==> attempt < max_retries
                && (e is Timeout || e is PlanExhausted || e is Provider)),
    {
        messages_wire::step(attempt, max_retries, exchange, false)
    }
}

impl Provider for OpenCodeGoAnthropicProvider {
    open spec fn name_text(&self) -> Seq<char> {
        self.name@
    }

    open spec fn model_text(&self) -> Seq<char> {
        self.model@
    }

    open spec fn endpoint_text(&self) -> Seq<char> {
        self.endpoint@
    }

    open spec fn ceiling_for(&self, requested: Option<u32>, env: Option<Seq<char>>) -> u32 {
        max_tokens::clamped(requested, None, None, OPENCODE_GO_MAX_TOKENS_CAP)
    }

    open spec fn probe_limit(&self) -> u32 {
        OPENCODE_GO_MAX_TOKENS_CAP
    }

    fn name(&self) -> (r: &str) {
        self.name.as_str()
    }

    fn model(&self) -> (r: &str) {
        self.model.as_str()
    }

    fn endpoint(&self) -> (r: &str) {
        self.endpoint.as_str()
    }

    fn effective_max_tokens(&self, req: &Request, _env: Option<&str>) -> (r: u32) {
        max_tokens::clamp(req.max_tokens, None, None, OPENCODE_GO_MAX_TOKENS_CAP)
    }

    fn max_tokens_probe_ceiling(&self) -> (r: u32) {
        OPENCODE_GO_MAX_TOKENS_CAP
    }
}

impl OpenCodeGoDispatch for OpenCodeGoAnthropicProvider {
    open spec fn url_text(&self) -> Seq<char> {
        endpoints::messages_address(self.endpoint@)
    }

    fn url(&self) -> (r: String) {
        self.messages_url()
    }
}

/// A call carries on the wire the ceiling that is reported for it, which the
/// upstream takes.
pub proof fn law_reported_ceiling_is_on_the_wire(
    p: OpenCodeGoAnthropicProvider,
    plan: SendPlan<MessagesRequest>,
    req: Request,
    env: Option<Seq<char>>,
)
    requires
        p.is_plan(plan, req),
        req.max_tokens is Some,
    ensures
        plan.body.max_tokens == Some(p.ceiling_for(req.max_tokens, env)),
        p.ceiling_for(req.max_tokens, env) <= OPENCODE_GO_MAX_TOKENS_CAP,
{
}

} // verus!
