//! The wall clock that a step's time budget is measured against.
//!
//! Nothing that the clock says can be foretold, so nothing is claimed of it:
//! the scanner is proved for whatever it answers.

use vstd::prelude::*;
use instant::Instant;

verus! {

/// `instant::Instant`, a moment on a clock that never runs backwards. On every
/// target but the browser it is `std::time::Instant` under another name.
#[verifier::external_type_specification]
#[verifier::external_body]
pub struct ExInstant(Instant);

/// Calls `Instant::now`: the moment of the call. No claim is made of the
/// moment returned.
#[verifier::external_body]
pub(crate) fn start() -> Instant {
    Instant::now()
}

/// Calls `Instant::elapsed` on `since` and hands back the duration in whole
/// nanoseconds, as `Duration::as_nanos` counts them. No claim is made of the
/// count; `elapsed` answers zero rather than fail if the clock has not moved.
#[verifier::external_body]
pub(crate) fn elapsed_nanos(since: &Instant) -> u128 {
    since.elapsed().as_nanos()
}

} // verus!
