//! The repository's clock: row timestamps are taken here, never supplied by
//! callers.

use vstd::prelude::*;

verus! {

/// Relies on chrono's `Utc::now` and `DateTime::to_rfc3339`: the wall clock,
/// read at the moment of the call and rendered as an RFC 3339 / ISO-8601
/// string. Nothing is promised of the value: it depends on the time of the
/// call.
#[verifier::external_body]
pub(crate) fn now_rfc3339() -> String {
    chrono::Utc::now().to_rfc3339()
}

} // verus!
