//! The clock, as far as the memoizers use it.

use std::time::{Duration, Instant};
use vstd::prelude::*;

verus! {

/// `std::time::Instant`: a reading of the monotonic clock. Nothing is known of what
/// it holds.
#[verifier::external_type_specification]
#[verifier::external_body]
pub struct ExInstant(Instant);

/// The length of a `Duration` in whole nanoseconds, as `Duration::as_nanos` gives it.
pub uninterp spec fn duration_nanos(d: Duration) -> nat;

/// `Instant::now`: the current reading of the monotonic clock. Nothing is claimed of it.
pub assume_specification[ Instant::now ]() -> (t: Instant);

/// `Instant::elapsed`: the time that has passed since `t` was read. Nothing is claimed of it.
pub assume_specification[ Instant::elapsed ](t: &Instant) -> (d: Duration);

/// `Duration::as_nanos`: the total number of nanoseconds in `d`.
pub assume_specification[ Duration::as_nanos ](d: &Duration) -> (n: u128)
    ensures
        n == duration_nanos(*d),
;

} // verus!
