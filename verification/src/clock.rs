//! The monotonic clock of the standard library, as far as the estimator
//! reads it.
//!
//! Nothing in this file is proved: Verus takes these declarations as given.
//! A reading of the clock depends on when the process runs, so no contract
//! here promises anything about one, and the estimator is proved for every
//! reading that could come back.

use std::time::Duration;
use std::time::Instant;
use vstd::prelude::*;

verus! {

/// `std::time::Instant`, a point on the monotonic clock. Verus sees nothing
/// inside a value of it.
#[verifier::external_type_specification]
#[verifier::external_body]
pub struct ExInstant(Instant);

/// `Instant::now` reads the monotonic clock. Nothing is claimed of the
/// reading.
pub assume_specification[ std::time::Instant::now ]() -> (now: Instant)
;

/// `Instant::elapsed` measures the time from the given instant to the
/// present. Nothing is claimed of the span that comes back.
pub assume_specification[ std::time::Instant::elapsed ](start: &Instant) -> (span: Duration)
;

/// `Duration::as_nanos` gives a span as a whole number of nanoseconds.
/// Nothing is claimed of the number.
pub assume_specification[ std::time::Duration::as_nanos ](span: &Duration) -> (nanos: u128)
;

} // verus!
