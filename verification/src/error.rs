//! The crate's error type.

use vstd::prelude::*;

verus! {

/// Everything that can go wrong on the way to a model's reply.
#[derive(Debug, Clone, PartialEq, Eq)]
pub enum Error {
    /// The upstream, or the way to it, failed.
    Provider { message: String, http_status: Option<u16> },
    /// The API key is missing or was refused.
    InvalidApiKey { message: String, http_status: Option<u16> },
    /// The plan's quota is used up.
    PlanExhausted { message: String, http_status: Option<u16> },
    /// The upstream asked to slow down.
    Throttled { message: String, http_status: Option<u16> },
    /// The upstream did not answer in time.
    Timeout { message: String, http_status: Option<u16> },
    /// An argument makes no sense.
    InvalidArgs(String),
    /// The model does not take what the request carries.
    ModalityUnsupported(String),
    /// A canned provider has no reply left.
    MockExhausted,
    /// Reading or writing a file failed.
    Io(String),
}

} // verus!
