//! What the configuration says of a provider.

use vstd::prelude::*;
use vstd::string::*;

use crate::wire;

verus! {

/// One model of a provider section.
#[derive(Debug, PartialEq, Eq)]
pub struct ModelConfig {
    pub id: String,
    pub endpoint: Option<String>,
    pub max_tokens: Option<u32>,
}

impl Clone for ModelConfig {
    fn clone(&self) -> (r: Self)
        ensures
            r == *self,
    {
        ModelConfig {
            id: self.id.clone(),
            endpoint: wire::clone_opt(&self.endpoint),
            max_tokens: self.max_tokens,
        }
    }
}

/// A provider section that lists its models.
#[derive(Debug, Clone, PartialEq, Eq)]
pub struct ProviderConfig {
    pub endpoint: Option<String>,
    pub models: Vec<ModelConfig>,
    /// Leave `max_tokens` out of the wire body.
    pub omit_max_tokens: bool,
}

impl ProviderConfig {
    /// The first model that the section lists.
    pub open spec fn first(&self) -> Option<ModelConfig> {
        if self.models@.len() > 0 {
            Some(self.models@[0])
        } else {
            None
        }
    }

    /// The ceiling of the first model.
    pub open spec fn first_cap(&self) -> Option<u32> {
        match self.first() {
            Some(m) => m.max_tokens,
            None => None,
        }
    }

    /// The name of the first model, or `other`.
    pub open spec fn first_id_or(&self, other: Seq<char>) -> Seq<char> {
        match self.first() {
            Some(m) => m.id@,
            None => other,
        }
    }

    /// The address of the first model, else that of the section, else that of
    /// the local machine.
    pub open spec fn address(&self) -> Seq<char> {
        match self.first() {
            Some(ModelConfig { endpoint: Some(e), .. }) => e@,
            _ => match self.endpoint {
                Some(e) => e@,
                None => "http://localhost"@,
            },
        }
    }

    /// The ceiling of the first model.
    pub fn model_cap(&self) -> (r: Option<u32>)
        ensures
            r == self.first_cap(),
    {
        if self.models.len() > 0 {
            self.models[0].max_tokens
        } else {
            None
        }
    }

    /// The name of the first model, or `other`.
    pub fn model_id_or(&self, other: &str) -> (r: String)
        ensures
            r@ == self.first_id_or(other@),
    {
        if self.models.len() > 0 {
            self.models[0].id.clone()
        } else {
            other.to_owned()
        }
    }

    /// The address of the first model, else that of the section, else that of
    /// the local machine.
    pub fn base_address(&self) -> (r: String)
        ensures
            r@ == self.address(),
    {
        if self.models.len() > 0 {
            if let Some(e) = &self.models[0].endpoint {
                return e.clone();
            }
        }
        match &self.endpoint {
            Some(e) => e.clone(),
            None => "http://localhost".to_owned(),
        }
    }
}

/// A provider section for a single model, tagged with its kind.
#[derive(Debug, Clone, PartialEq, Eq)]
pub struct SectionConfig {
    pub kind: String,
    pub endpoint: String,
    pub model: String,
    pub max_tokens: Option<u32>,
    /// Leave `max_tokens` out of the wire body.
    pub omit_max_tokens: bool,
}

/// One model with the settings of its section applied.
#[derive(Debug, Clone, PartialEq, Eq)]
pub struct ResolvedModelConfig {
    pub section: String,
    pub id: String,
    pub endpoint: String,
    pub max_tokens: Option<u32>,
    /// Leave `max_tokens` out of the wire body.
    pub omit_max_tokens: bool,
}

/// A string that is kept out of debug output.
pub struct SecretString {
    value: String,
}

impl View for SecretString {
    type V = Seq<char>;

    closed spec fn view(&self) -> Seq<char> {
        self.value@
    }
}

impl SecretString {
    /// Wraps a secret.
    pub fn new(value: String) -> (r: Self)
        ensures
            r@ == value@,
    {
        SecretString { value }
    }

    /// The secret itself.
    pub fn expose(&self) -> (r: &str)
        ensures
            r@ == self@,
    {
        self.value.as_str()
    }
}

impl Clone for SecretString {
    fn clone(&self) -> (r: Self)
        ensures
            r == *self,
    {
        SecretString { value: self.value.clone() }
    }
}

/// The address of a section is that of its first model; where that names none,
/// that of the section; and without either that of the local machine. The
/// other models have no say.
pub proof fn law_address(spec: ProviderConfig)
    ensures
        spec.models@.len() > 0 ==> (spec.models@[0].endpoint matches Some(e) ==> spec.address() == e@),
        spec.models@.len() == 0 || spec.models@[0].endpoint is None ==> (
        spec.endpoint matches Some(e) ==> spec.address() == e@),
        (spec.models@.len() == 0 || spec.models@[0].endpoint is None) && spec.endpoint is None
            ==> spec.address() == "http://localhost"@,
{
}

/// The name and the ceiling of a section are those of its first model.
pub proof fn law_first_model(spec: ProviderConfig, other: Seq<char>)
    ensures
        spec.models@.len() > 0 ==> spec.first_id_or(other) == spec.models@[0].id@
            && spec.first_cap() == spec.models@[0].max_tokens,
        spec.models@.len() == 0 ==> spec.first_id_or(other) == other && spec.first_cap() is None,
{
}

} // verus!
