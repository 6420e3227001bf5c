//! The time of day.

use vstd::prelude::*;

verus! {

/// `chrono::Utc::now` in the form of `chrono::DateTime::to_rfc3339`. Nothing
/// is claimed of the result.
#[verifier::external_body]
pub(crate) fn now_rfc3339() -> String {
    chrono::Utc::now().to_rfc3339()
}

} // verus!
