//! The MiniMax provider, which speaks the Messages API.

use std::sync::Arc;

use vstd::prelude::*;
use vstd::string::*;

use crate::api_keys;
use crate::capabilities::{ProviderCapabilities, MINIMAX_MAX_TOKENS_CAP};
use crate::circuit_breaker;
use crate::circuit_breaker::CircuitBreaker;
use crate::config::{ProviderConfig, ResolvedModelConfig, SecretString};
use crate::endpoints;
use crate::error::Error;
use crate::max_tokens;
use crate::messages_wire;
use crate::messages_wire::{MessagesExchange, MessagesRequest};
use crate::probe_table::MaxTokensTable;
use crate::provider::Provider;
use crate::transport;
use crate::transport::{SendPlan, Step};
use crate::wire::Request;

verus! {

/// The MiniMax provider.
pub struct MinimaxProvider {
    pub name: String,
    pub model: String,
    pub endpoint: String,
    pub api_key: SecretString,
    pub max_retries: u32,
    /// What is counted of failed calls.
    pub breaker: CircuitBreaker,
    /// The operator's cap on the output ceiling.
    pub provider_max_tokens: Option<u32>,
    /// The ceilings discovered so far.
    pub max_tokens_table: Option<Arc<MaxTokensTable>>,
}

/// The address where the configuration names none.
pub open spec fn default_address() -> Seq<char> {
    "https://api.minimax.io/anthropic/v1/messages"@
}

/// The address for a section: that of its first model, or that of the section
/// where it lists no model.
pub open spec fn address_of(spec: ProviderConfig) -> Seq<char> {
    let named = match spec.first() {
        Some(m) => m.endpoint,
        None => spec.endpoint,
    };
    match named {
        Some(e) => e@,
        None => default_address(),
    }
}

impl MinimaxProvider {
    /// The provider that a section sets up.
    pub open spec fn is_set_up(&self, spec: ProviderConfig, key: Seq<char>) -> bool {
        &&& self.name@ == "minimax"@
        &&& self.model@ == spec.first_id_or("MiniMax-M3"@)
        &&& self.endpoint@ == address_of(spec)
        &&& self.api_key@ == key
        &&& self.max_retries == 3
        &&& self.breaker == CircuitBreaker {
            threshold: circuit_breaker::DEFAULT_THRESHOLD,
            failures: 0,
        }
        &&& self.provider_max_tokens == spec.first_cap()
        &&& self.max_tokens_table is None
    }

    /// The provider for one resolved model.
    pub open spec fn is_resolved(&self, resolved: ResolvedModelConfig, key: Seq<char>) -> bool {
        &&& self.name == resolved.section
        &&& self.model == resolved.id
        &&& self.endpoint == resolved.endpoint
        &&& self.api_key@ == key
        &&& self.max_retries == 3
        &&& self.breaker == CircuitBreaker {
            threshold: circuit_breaker::DEFAULT_THRESHOLD,
            failures: 0,
        }
        &&& self.provider_max_tokens == resolved.max_tokens
        &&& self.max_tokens_table is None
    }

    /// `plan` is how `req` goes out: a call under the caps, a probe as it is.
    pub open spec fn is_plan(
        &self,
        plan: SendPlan<MessagesRequest>,
        req: Request,
        probe: bool,
    ) -> bool {
        &&& plan.url@ == endpoints::messages_address(self.endpoint@)
        &&& messages_wire::is_body(
            plan.body,
            req,
            if probe || req.max_tokens is None {
                req.max_tokens
            } else {
                Some(self.ceiling_for(req.max_tokens, None))
            },
        )
        &&& plan.max_retries == if probe {
            0
        } else {
            self.max_retries
        }
    }

    /// The provider for the first model of a section.
    pub fn new(spec: &ProviderConfig, api_key: SecretString) -> (r: Result<Self, Error>)
        ensures
            r matches Ok(p) && p.is_set_up(*spec, api_key@),
    {
        let named: &Option<String> = if spec.models.len() > 0 {
            &spec.models[0].endpoint
        } else {
            &spec.endpoint
        };
        let endpoint = match named {
            Some(e) => e.clone(),
            None => "https://api.minimax.io/anthropic/v1/messages".to_owned(),
        };
        Ok(
            MinimaxProvider {
                name: "minimax".to_owned(),
                model: spec.model_id_or("MiniMax-M3"),
                endpoint,
                api_key,
                max_retries: 3,
                breaker: CircuitBreaker::default(),
                provider_max_tokens: spec.model_cap(),
                max_tokens_table: None,
            },
        )
    }

    /// The provider for the first model of a section. `found` is what the
    /// lookup of a key gave.
    pub fn from_config(spec: &ProviderConfig, found: Option<Result<String, Error>>) -> (r: Result<
        Self,
        Error,
    >)
        ensures
            match r {
                Ok(p) => found matches Some(Ok(key)) && p.is_set_up(*spec, key@),
                Err(e) => api_keys::is_resolved(Err::<String, Error>(e), "minimax"@, found),
            },
    {
        match api_keys::resolve_key("minimax", found) {
            Ok(key) => MinimaxProvider::new(spec, SecretString::new(key)),
            Err(e) => Err(e),
        }
    }

    /// The provider for one resolved model. `found` is what the lookup of a
    /// key for `kind` gave.
    pub fn from_resolved(
        resolved: &ResolvedModelConfig,
        kind: &str,
        found: Option<Result<String, Error>>,
    ) -> (r: Result<Self, Error>)
        ensures
            match r {
                Ok(p) => found matches Some(Ok(key)) && p.is_resolved(*resolved, key@),
                Err(e) => api_keys::is_resolved(Err::<String, Error>(e), kind@, found),
            },
    {
        match api_keys::resolve_key(kind, found) {
            Ok(key) => Ok(
                MinimaxProvider {
                    name: resolved.section.clone(),
                    model: resolved.id.clone(),
                    endpoint: resolved.endpoint.clone(),
                    api_key: SecretString::new(key),
                    max_retries: 3,
                    breaker: CircuitBreaker::default(),
                    provider_max_tokens: resolved.max_tokens,
                    max_tokens_table: None,
                },
            ),
            Err(e) => Err(e),
        }
    }

    /// The same provider with another number of attempts.
    pub fn with_max_retries(self, n: u32) -> (r: Self)
        ensures
            r == (MinimaxProvider { max_retries: n, ..self }),
    {
        let mut p = self;
        p.max_retries = n;
        p
    }

    /// The same provider with a table of discovered ceilings.
    pub fn with_max_tokens_table(self, table: Arc<MaxTokensTable>) -> (r: Self)
        ensures
            r == (MinimaxProvider { max_tokens_table: Some(table), ..self }),
    {
        let mut p = self;
        p.max_tokens_table = Some(table);
        p
    }

    /// The address that requests go to.
    pub fn messages_url(&self) -> (r: String)
        ensures
            r@ == endpoints::messages_address(self.endpoint@),
    {
        messages_wire::messages_url(self.endpoint.as_str())
    }

    /// The capability profile of the provider.
    pub fn capabilities(&self) -> (r: ProviderCapabilities)
        ensures
            r == ProviderCapabilities::Minimax,
    {
        ProviderCapabilities::Minimax
    }

    /// How `req` goes out, as a call or as a probe.
    pub fn plan(&self, req: &Request, probe: bool) -> (r: SendPlan<MessagesRequest>)
        ensures
            self.is_plan(r, *req, probe),
    {
        let max_tokens: Option<u32> = if probe || req.max_tokens.is_none() {
            req.max_tokens
        } else {
            Some(self.effective_max_tokens(req, None))
        };
        SendPlan {
            url: self.messages_url(),
            body: messages_wire::build_messages_body(req, max_tokens),
            max_retries: if probe {
                0
            } else {
                self.max_retries
            },
        }
    }

    /// `step` is what is done after attempt number `attempt`.
    pub open spec fn is_next(
        step: Step,
        attempt: u32,
        max_retries: u32,
        exchange: MessagesExchange,
    ) -> bool {
        messages_wire::is_step(
            step,
            attempt,
            max_retries,
            exchange,
            |e: Error| transport::curable_or_throttled(e),
        )
    }

    /// What is done after attempt number `attempt`.
    pub fn next(&self, attempt: u32, max_retries: u32, exchange: MessagesExchange) -> (r: Step)
        ensures
            Self::is_next(r, attempt, max_retries, exchange),
            exchange matches MessagesExchange::Refused(e) ==> (r is Retry <==> attempt < max_retries
                && (e is Timeout || e is PlanExhausted || e is Provider || e is Throttled)),
    {
        messages_wire::step(attempt, max_retries, exchange, true)
    }

    /// Tells the breaker of what [`MinimaxProvider::next`] said to do: of the
    /// final result of a call, of no attempt before it and of no probe.
    pub fn record(&mut self, step: &Step, probe: bool)
        ensures
            *final(self) == (MinimaxProvider {
                breaker: old(self).breaker.after(circuit_breaker::reported(*step, probe)),
                ..*old(self)
            }),
    {
        self.breaker.record(circuit_breaker::breaker_report(step, probe));
    }
}

impl Provider for MinimaxProvider {
    open spec fn name_text(&self) -> Seq<char> {
        self.name@
    }

    open spec fn model_text(&self) -> Seq<char> {
        self.model@
    }

    open spec fn endpoint_text(&self) -> Seq<char> {
        self.endpoint@
    }

    open spec fn ceiling_for(&self, requested: Option<u32>, env: Option<Seq<char>>) -> u32 {
        max_tokens::clamped(
            requested,
            self.provider_max_tokens,
            max_tokens::shared_cap(self.max_tokens_table, self.name@, self.model@),
            MINIMAX_MAX_TOKENS_CAP,
        )
    }

    open spec fn probe_limit(&self) -> u32 {
        MINIMAX_MAX_TOKENS_CAP
    }

    fn name(&self) -> (r: &str) {
        self.name.as_str()
    }

    fn model(&self) -> (r: &str) {
        self.model.as_str()
    }

    fn endpoint(&self) -> (r: &str) {
        self.endpoint.as_str()
    }

    fn effective_max_tokens(&self, req: &Request, _env: Option<&str>) -> (r: u32) {
        let table_cap = max_tokens::remembered_cap(
            &self.max_tokens_table,
            self.name.as_str(),
            self.model.as_str(),
        );
        max_tokens::clamp(
            req.max_tokens,
            self.provider_max_tokens,
            table_cap,
            MINIMAX_MAX_TOKENS_CAP,
        )
    }

    fn max_tokens_probe_ceiling(&self) -> (r: u32) {
        MINIMAX_MAX_TOKENS_CAP
    }
}

/// A call carries on the wire the ceiling that is reported for it, which the
/// upstream takes.
pub proof fn law_reported_ceiling_is_on_the_wire(
    p: MinimaxProvider,
    plan: SendPlan<MessagesRequest>,
    req: Request,
    env: Option<Seq<char>>,
)
    requires
        p.is_plan(plan, req, false),
        req.max_tokens is Some,
    ensures
        plan.body.max_tokens == Some(p.ceiling_for(req.max_tokens, env)),
        p.ceiling_for(req.max_tokens, env) <= MINIMAX_MAX_TOKENS_CAP,
{
}

/// A probe asks for exactly what it is to ask for, and it is made once.
pub proof fn law_probes_are_not_clamped(
    p: MinimaxProvider,
    plan: SendPlan<MessagesRequest>,
    req: Request,
)
    requires
        p.is_plan(plan, req, true),
    ensures
        plan.body.max_tokens == req.max_tokens,
        plan.max_retries == 0,
{
}

} // verus!
