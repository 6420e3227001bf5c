//! The OpenCode Go provider, which routes a model to the API that serves it.

use vstd::prelude::*;
use vstd::string::*;

use crate::api_keys;
use crate::capabilities::{ProviderCapabilities, OPENCODE_GO_MAX_TOKENS_CAP};
use crate::config::{SecretString, SectionConfig};
use crate::endpoints;
use crate::error::Error;
use crate::openai_compatible::OpenAICompatibleProvider;
use crate::opencode_go_anthropic::OpenCodeGoAnthropicProvider;
use crate::opencode_go_responses::OpenCodeGoResponsesProvider;
use crate::provider::Provider;
use crate::text;
use crate::wire::{Knob, Request, Response};

verus! {

/// The bit pattern of the temperature one.
pub const TEMPERATURE_ONE_BITS: u32 = 0x3F80_0000;

/// The temperature one.
pub open spec fn one() -> Knob {
    Knob { bits: TEMPERATURE_ONE_BITS }
}

/// The temperature that `model` insists on.
pub open spec fn fixed_temperature(model: Seq<char>) -> Option<Knob> {
    if model == "kimi-k3"@ {
        Some(one())
    } else {
        None
    }
}

/// The temperature that `model` insists on; `None` where it takes any.
pub fn temperature_override_for(model: &str) -> (r: Option<Knob>)
    ensures
        r == fixed_temperature(model@),
{
    if text::str_eq(model, "kimi-k3") {
        Some(Knob { bits: TEMPERATURE_ONE_BITS })
    } else {
        None
    }
}

/// A provider that can be routed to.
pub trait OpenCodeGoDispatch: Provider {
    /// The address that requests go to.
    spec fn url_text(&self) -> Seq<char>;

    /// The address that requests go to.
    fn url(&self) -> (r: String)
        ensures
            r@ == self.url_text(),
    ;
}

impl OpenCodeGoDispatch for OpenAICompatibleProvider {
    open spec fn url_text(&self) -> Seq<char> {
        endpoints::chat_address(self.endpoint@)
    }

    fn url(&self) -> (r: String) {
        self.chat_url()
    }
}

/// The path of the API that serves `model`.
pub open spec fn path_of(model: Seq<char>) -> Option<Seq<char>> {
    if model == "gpt-5.6-luna"@ {
        Some("responses"@)
    } else if model == "minimax-m3"@ || model == "minimax-m2.7"@ || model == "minimax-m2.5"@
        || model == "qwen3.8-max"@ || model == "qwen3.7-max"@ || model == "qwen3.7-plus"@ || model
        == "qwen3.6-plus"@ {
        Some("messages"@)
    } else if model == "glm-5.1"@ || model == "glm-5.2"@ || model == "kimi-k3"@ || model
        == "kimi-k2.7-code"@ || model == "kimi-k2.6"@ || model == "deepseek-v4-pro"@ || model
        == "deepseek-v4-flash"@ || model == "mimo-v2.5"@ || model == "mimo-v2.5-pro"@ || model
        == "hy3"@ {
        Some("chat/completions"@)
    } else {
        None
    }
}

/// The characters of an optional literal.
pub open spec fn path_view(p: Option<&'static str>) -> Option<Seq<char>> {
    match p {
        Some(s) => Some(s@),
        None => None,
    }
}

/// The path of the API that serves `model`; `None` where the subscription
/// does not offer it.
pub fn endpoint_path_for(model: &str) -> (r: Option<&'static str>)
    ensures
        path_view(r) == path_of(model@),
{
    if text::str_eq(model, "gpt-5.6-luna") {
        Some("responses")
    } else if text::str_eq(model, "minimax-m3") || text::str_eq(model, "minimax-m2.7")
        || text::str_eq(model, "minimax-m2.5") || text::str_eq(model, "qwen3.8-max")
        || text::str_eq(model, "qwen3.7-max") || text::str_eq(model, "qwen3.7-plus")
        || text::str_eq(model, "qwen3.6-plus") {
        Some("messages")
    } else if text::str_eq(model, "glm-5.1") || text::str_eq(model, "glm-5.2") || text::str_eq(
        model,
        "kimi-k3",
    ) || text::str_eq(model, "kimi-k2.7-code") || text::str_eq(model, "kimi-k2.6")
        || text::str_eq(model, "deepseek-v4-pro") || text::str_eq(model, "deepseek-v4-flash")
        || text::str_eq(model, "mimo-v2.5") || text::str_eq(model, "mimo-v2.5-pro")
        || text::str_eq(model, "hy3") {
        Some("chat/completions")
    } else {
        None
    }
}

/// The models that are not to be used through OpenCode Go.
pub open spec fn blocked(model: Seq<char>) -> bool {
    model == "minimax-m3"@ || model == "minimax-m2.7"@ || model == "minimax-m2.5"@
}

/// `e` says that an argument makes no sense, with this message.
pub open spec fn is_bad_argument(e: Error, text: Seq<char>) -> bool {
    e matches Error::InvalidArgs(message) && message@ == text
}

/// Refuses a kind other than `opencode_go` with a message that begins with
/// `complaint`.
pub fn check_kind(kind: &str, complaint: &str) -> (r: Result<(), Error>)
    ensures
        r is Ok <==> kind@ == "opencode_go"@,
        r matches Err(e) ==> is_bad_argument(e, complaint@ + kind@ + "'"@),
{
    if text::str_eq(kind, "opencode_go") {
        Ok(())
    } else {
        Err(Error::InvalidArgs(complaint.to_owned().concat(kind).concat("'")))
    }
}

/// The message for a section of another kind.
pub open spec fn wrong_kind_text(kind: Seq<char>) -> Seq<char> {
    "opencode_go provider got kind '"@ + kind + "'"@
}

/// The message for a model that is blocked.
pub open spec fn blocked_text(model: Seq<char>) -> Seq<char> {
    "model '"@ + model + "' is blocked for opencode_go; use direct minimax provider instead"@
}

/// The message for a model that is not offered.
pub open spec fn off_roster_text(model: Seq<char>) -> Seq<char> {
    "model '"@ + model + "' is not on the OpenCode Go model roster"@
}

/// The provider that a model is routed to.
pub enum Routed {
    Chat(OpenAICompatibleProvider),
    Messages(OpenCodeGoAnthropicProvider),
    Responses(OpenCodeGoResponsesProvider),
}

/// The OpenCode Go provider.
pub struct OpenCodeGoProvider {
    pub inner: Routed,
}

/// The message of an error says that the upstream does not take the
/// temperature.
pub open spec fn refuses_temperature(message: Seq<char>) -> bool {
    let low = text::lower(message);
    &&& text::occurs(low, "invalid temperature"@) || text::occurs(low, "only 1 is allowed"@)
        || text::occurs(low, "temperature must be"@)
    &&& text::occurs(low, "temperature"@)
}

/// Whether the message of an error says that the upstream does not take the
/// temperature.
pub fn is_temperature_rejection(message: &str) -> (r: bool)
    ensures
        r == refuses_temperature(message@),
{
    let low = text::lower_chars(message);
    (text::contains(&low, "invalid temperature") || text::contains(&low, "only 1 is allowed")
        || text::contains(&low, "temperature must be")) && text::contains(&low, "temperature")
}

/// The temperature that a request goes out with first.
pub open spec fn first_temperature(req: Request) -> Option<Knob> {
    match fixed_temperature(req.model@) {
        Some(t) => Some(t),
        None => req.temperature,
    }
}

/// A call that came to `first` is made again with the temperature one.
pub open spec fn wants_second(req: Request, first: Result<(u16, Response), Error>) -> bool {
    &&& first matches Err(Error::Provider { message, .. })
    &&& refuses_temperature(message@)
    &&& req.temperature != Some(one())
}

impl OpenCodeGoProvider {
    /// The provider that a section sets up: the API that serves the model,
    /// with the endpoint's trailing slashes dropped.
    pub open spec fn is_set_up(&self, spec: SectionConfig, key: Seq<char>) -> bool {
        let base = text::trim_end_char(spec.endpoint@, '/');
        match self.inner {
            Routed::Chat(p) => {
                &&& path_of(spec.model@) == Some("chat/completions"@)
                &&& p.name@ == "opencode_go"@
                &&& p.model@ == spec.model@
                &&& p.endpoint@ == base
                &&& p.api_key@ == key
                &&& p.max_retries == 3
                &&& p.provider_max_tokens == spec.max_tokens
                &&& p.kind_hard_cap == Some(OPENCODE_GO_MAX_TOKENS_CAP)
                &&& p.max_tokens_table is None
            },
            Routed::Messages(p) => {
                &&& path_of(spec.model@) == Some("messages"@)
                &&& p.name@ == "opencode_go"@
                &&& p.model@ == spec.model@
                &&& p.endpoint@ == base
                &&& p.api_key@ == key
                &&& p.max_retries == 3
            },
            Routed::Responses(p) => {
                &&& path_of(spec.model@) == Some("responses"@)
                &&& p.name@ == "opencode_go"@
                &&& p.model@ == spec.model@
                &&& p.endpoint@ == base
                &&& p.api_key@ == key
                &&& p.max_retries == 3
                &&& p.provider_max_tokens == spec.max_tokens
                &&& p.omit_max_tokens == spec.omit_max_tokens
                &&& p.max_tokens_table is None
            },
        }
    }

    /// `e` is why a section sets up no provider.
    pub open spec fn is_refusal(e: Error, spec: SectionConfig) -> bool {
        if spec.kind@ != "opencode_go"@ {
            is_bad_argument(e, wrong_kind_text(spec.kind@))
        } else if blocked(spec.model@) {
            is_bad_argument(e, blocked_text(spec.model@))
        } else {
            path_of(spec.model@) is None && is_bad_argument(e, off_roster_text(spec.model@))
        }
    }

    /// A section sets up a provider.
    pub open spec fn is_usable(spec: SectionConfig) -> bool {
        &&& spec.kind@ == "opencode_go"@
        &&& !blocked(spec.model@)
        &&& path_of(spec.model@) is Some
    }

    /// The provider for a section.
    pub fn new(spec: &SectionConfig, api_key: SecretString) -> (r: Result<Self, Error>)
        ensures
            match r {
                Ok(p) => Self::is_usable(*spec) && p.is_set_up(*spec, api_key@),
                Err(e) => !Self::is_usable(*spec) && Self::is_refusal(e, *spec),
            },
    {
        match check_kind(spec.kind.as_str(), "opencode_go provider got kind '") {
            Ok(_) => {},
            Err(e) => {
                return Err(e);
            },
        }
        if OpenCodeGoProvider::is_blocked(spec.model.as_str()) {
            return Err(
                Error::InvalidArgs(
                    "model '".to_owned().concat(spec.model.as_str()).concat(
                        "' is blocked for opencode_go; use direct minimax provider instead",
                    ),
                ),
            );
        }
        match endpoint_path_for(spec.model.as_str()) {
            Some(path) => {
                let base = text::without_trailing(spec.endpoint.as_str(), '/');
                let endpoint = text::string_of(&base, 0, base.len());
                assert(endpoint@ =~= base@);
                let routed = SectionConfig {
                    kind: spec.kind.clone(),
                    endpoint,
                    model: spec.model.clone(),
                    max_tokens: spec.max_tokens,
                    omit_max_tokens: spec.omit_max_tokens,
                };
                if text::str_eq(path, "messages") {
                    match OpenCodeGoAnthropicProvider::new(&routed, api_key) {
                        Ok(p) => Ok(OpenCodeGoProvider { inner: Routed::Messages(p) }),
                        Err(e) => Err(e),
                    }
                } else if text::str_eq(path, "responses") {
                    match OpenCodeGoResponsesProvider::new(&routed, api_key) {
                        Ok(p) => Ok(OpenCodeGoProvider { inner: Routed::Responses(p) }),
                        Err(e) => Err(e),
                    }
                } else {
                    let p = OpenAICompatibleProvider::for_section(
                        &routed,
                        api_key,
                        Some(OPENCODE_GO_MAX_TOKENS_CAP),
                    );
                    Ok(OpenCodeGoProvider { inner: Routed::Chat(p) })
                }
            },
            None => Err(
                Error::InvalidArgs(
                    "model '".to_owned().concat(spec.model.as_str()).concat(
                        "' is not on the OpenCode Go model roster",
                    ),
                ),
            ),
        }
    }

    /// The provider for a section. `found` is what the lookup of a key gave.
    pub fn from_config(spec: &SectionConfig, found: Option<Result<String, Error>>) -> (r: Result<
        Self,
        Error,
    >)
        ensures
            match r {
                Ok(p) => found matches Some(Ok(key)) && Self::is_usable(*spec) && p.is_set_up(
                    *spec,
                    key@,
                ),
                Err(e) => if found matches Some(Ok(_)) {
                    !Self::is_usable(*spec) && Self::is_refusal(e, *spec)
                } else {
                    api_keys::is_resolved(Err::<String, Error>(e), "opencode_go"@, found)
                },
            },
    {
        match api_keys::resolve_key("opencode_go", found) {
            Ok(key) => OpenCodeGoProvider::new(spec, SecretString::new(key)),
            Err(e) => Err(e),
        }
    }

    /// Whether `model` is not to be used through OpenCode Go.
    pub fn is_blocked(model: &str) -> (r: bool)
        ensures
            r == blocked(model@),
    {
        text::str_eq(model, "minimax-m3") || text::str_eq(model, "minimax-m2.7") || text::str_eq(
            model,
            "minimax-m2.5",
        )
    }

    /// The address that requests go to.
    pub open spec fn url_text(&self) -> Seq<char> {
        match self.inner {
            Routed::Chat(p) => p.url_text(),
            Routed::Messages(p) => p.url_text(),
            Routed::Responses(p) => p.url_text(),
        }
    }

    /// The address that requests go to.
    pub fn url(&self) -> (r: String)
        ensures
            r@ == self.url_text(),
    {
        match &self.inner {
            Routed::Chat(p) => p.chat_url(),
            Routed::Messages(p) => p.messages_url(),
            Routed::Responses(p) => p.responses_url(),
        }
    }

    /// The capability profile of the API behind the provider; `None` where it
    /// has none of its own.
    pub fn capabilities(&self) -> (r: Option<ProviderCapabilities>)
        ensures
            r == match self.inner {
                Routed::Chat(p) => Some(
                    if p.name@ == "deepseek"@ {
                        ProviderCapabilities::DeepSeek
                    } else {
                        ProviderCapabilities::OpenAiCompat
                    },
                ),
                Routed::Messages(_) => None,
                Routed::Responses(_) => Some(ProviderCapabilities::OpenCodeGoResponses),
            },
    {
        match &self.inner {
            Routed::Chat(p) => Some(p.capabilities()),
            Routed::Messages(_) => None,
            Routed::Responses(p) => Some(p.capabilities()),
        }
    }

    /// The request that goes out first: with the temperature that the model
    /// insists on.
    pub fn first_request(req: Request) -> (r: Request)
        ensures
            r == (Request { temperature: first_temperature(req), ..req }),
    {
        let mut out = req;
        if let Some(t) = temperature_override_for(out.model.as_str()) {
            out.temperature = Some(t);
        }
        out
    }

    /// The request that goes out where `req` came to `first`: with the
    /// temperature one, where the upstream did not take the temperature and it
    /// was another; `None` where `first` stands.
    pub fn second_request(req: Request, first: &Result<(u16, Response), Error>) -> (r: Option<
        Request,
    >)
        ensures
            r == if wants_second(req, *first) {
                Some((Request { temperature: Some(one()), ..req }))
            } else {
                None
            },
    {
        let is_one = match req.temperature {
            Some(t) => t.bits == TEMPERATURE_ONE_BITS,
            None => false,
        };
        match first {
            Err(Error::Provider { message, .. }) => {
                if !is_one && is_temperature_rejection(message.as_str()) {
                    let mut out = req;
                    out.temperature = Some(Knob { bits: TEMPERATURE_ONE_BITS });
                    Some(out)
                } else {
                    None
                }
            },
            _ => None,
        }
    }
}

impl Provider for OpenCodeGoProvider {
    open spec fn name_text(&self) -> Seq<char> {
        match self.inner {
            Routed::Chat(p) => p.name@,
            Routed::Messages(p) => p.name@,
            Routed::Responses(p) => p.name@,
        }
    }

    open spec fn model_text(&self) -> Seq<char> {
        match self.inner {
            Routed::Chat(p) => p.model@,
            Routed::Messages(p) => p.model@,
            Routed::Responses(p) => p.model@,
        }
    }

    open spec fn endpoint_text(&self) -> Seq<char> {
        match self.inner {
            Routed::Chat(p) => p.endpoint@,
            Routed::Messages(p) => p.endpoint@,
            Routed::Responses(p) => p.endpoint@,
        }
    }

    open spec fn ceiling_for(&self, requested: Option<u32>, env: Option<Seq<char>>) -> u32 {
        match self.inner {
            Routed::Chat(p) => p.ceiling_for(requested, env),
            Routed::Messages(p) => p.ceiling_for(requested, env),
            Routed::Responses(p) => p.ceiling_for(requested, env),
        }
    }

    open spec fn probe_limit(&self) -> u32 {
        match self.inner {
            Routed::Chat(p) => p.probe_limit(),
            Routed::Messages(p) => p.probe_limit(),
            Routed::Responses(p) => p.probe_limit(),
        }
    }

    fn name(&self) -> (r: &str) {
        match &self.inner {
            Routed::Chat(p) => p.name(),
            Routed::Messages(p) => p.name(),
            Routed::Responses(p) => p.name(),
        }
    }

    fn model(&self) -> (r: &str) {
        match &self.inner {
            Routed::Chat(p) => p.model(),
            Routed::Messages(p) => p.model(),
            Routed::Responses(p) => p.model(),
        }
    }

    fn endpoint(&self) -> (r: &str) {
        match &self.inner {
            Routed::Chat(p) => p.endpoint(),
            Routed::Messages(p) => p.endpoint(),
            Routed::Responses(p) => p.endpoint(),
        }
    }

    fn effective_max_tokens(&self, req: &Request, env: Option<&str>) -> (r: u32) {
        match &self.inner {
            Routed::Chat(p) => p.effective_max_tokens(req, env),
            Routed::Messages(p) => p.effective_max_tokens(req, env),
            Routed::Responses(p) => p.effective_max_tokens(req, env),
        }
    }

    fn max_tokens_probe_ceiling(&self) -> (r: u32) {
        match &self.inner {
            Routed::Chat(p) => p.max_tokens_probe_ceiling(),
            Routed::Messages(p) => p.max_tokens_probe_ceiling(),
            Routed::Responses(p) => p.max_tokens_probe_ceiling(),
        }
    }
}

/// The models that are blocked are offered: it is the policy that keeps them
/// out.
pub proof fn law_blocked_models_are_offered(model: Seq<char>)
    requires
        blocked(model),
    ensures
        path_of(model) == Some("messages"@),
{
    reveal_strlit("gpt-5.6-luna");
    reveal_strlit("minimax-m3");
    reveal_strlit("minimax-m2.7");
    reveal_strlit("minimax-m2.5");
    assert("gpt-5.6-luna"@[0] == 'g');
    assert("minimax-m3"@[0] == 'm');
    assert("minimax-m2.7"@[0] == 'm');
    assert("minimax-m2.5"@[0] == 'm');
}

/// Every provider that a section sets up reports the base as its endpoint and
/// keeps the routed path to its address.
pub proof fn law_endpoint_stays_the_base(p: OpenCodeGoProvider, spec: SectionConfig, key: Seq<char>)
    requires
        p.is_set_up(spec, key),
    ensures
        p.endpoint_text() == text::trim_end_char(spec.endpoint@, '/'),
        p.name_text() == "opencode_go"@,
        p.model_text() == spec.model@,
        p.inner is Chat ==> p.url_text() == endpoints::chat_address(p.endpoint_text()),
        p.inner is Messages ==> p.url_text() == endpoints::messages_address(p.endpoint_text()),
        p.inner is Responses ==> p.url_text() == endpoints::responses_address(p.endpoint_text()),
{
}

/// No provider that a section sets up is probed above the cap of the
/// subscription.
pub proof fn law_probes_stay_below_the_cap(p: OpenCodeGoProvider, spec: SectionConfig, key: Seq<char>)
    requires
        p.is_set_up(spec, key),
    ensures
        p.probe_limit() == OPENCODE_GO_MAX_TOKENS_CAP,
{
}

/// A call is made a second time at most: what goes out the second time has the
/// temperature one, which is not refused again.
pub proof fn law_second_request_is_the_last(
    req: Request,
    first: Result<(u16, Response), Error>,
    second: Result<(u16, Response), Error>,
)
    requires
        wants_second(req, first),
    ensures
        !wants_second((Request { temperature: Some(one()), ..req }), second),
{
}

/// A model that insists on the temperature one gets it at once, and is never
/// called a second time.
pub proof fn law_fixed_temperature_is_sent(req: Request, first: Result<(u16, Response), Error>)
    requires
        fixed_temperature(req.model@) == Some(one()),
    ensures
        first_temperature(req) == Some(one()),
        !wants_second((Request { temperature: first_temperature(req), ..req }), first),
{
}

} // verus!
