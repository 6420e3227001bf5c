//! What every provider answers for.

use vstd::prelude::*;

use crate::wire::Request;

verus! {

/// A backend that model calls can be sent to.
pub trait Provider {
    /// The name under which the provider is known.
    spec fn name_text(&self) -> Seq<char>;

    /// The model that the provider serves.
    spec fn model_text(&self) -> Seq<char>;

    /// The provider's base address.
    spec fn endpoint_text(&self) -> Seq<char>;

    /// The output ceiling that a request for `requested` tokens goes out with
    /// where the environment says `env`.
    spec fn ceiling_for(&self, requested: Option<u32>, env: Option<Seq<char>>) -> u32;

    /// The largest value worth probing.
    spec fn probe_limit(&self) -> u32;

    /// The name under which the provider is known.
    fn name(&self) -> (r: &str)
        ensures
            r@ == self.name_text(),
    ;

    /// The model that the provider serves.
    fn model(&self) -> (r: &str)
        ensures
            r@ == self.model_text(),
    ;

    /// The provider's base address.
    fn endpoint(&self) -> (r: &str)
        ensures
            r@ == self.endpoint_text(),
    ;

    /// The output ceiling that `req` goes out with. `env` is what the
    /// environment holds under [`crate::max_tokens::env_key`].
    fn effective_max_tokens(&self, req: &Request, env: Option<&str>) -> (r: u32)
        ensures
            r == self.ceiling_for(req.max_tokens, crate::max_tokens::str_view(env)),
    ;

    /// The largest value worth probing.
    fn max_tokens_probe_ceiling(&self) -> (r: u32)
        ensures
            r == self.probe_limit(),
    ;
}

} // verus!
