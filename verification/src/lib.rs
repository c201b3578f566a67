//! Single-slot memoization of a producer function.
//!
//! [`Memoized`] runs its producer on the first access and hands out the stored
//! result from then on. [`MemoizedWithExpiration`] does the same, but runs the
//! producer again once the stored result is older than a fixed duration.
//!
//! Both are single-threaded and hold exactly one value: the input handed to an
//! access reaches the producer only when that access computes.

pub mod clock;
pub mod expiring;
pub mod lazy;

pub use expiring::{memoize_with_expiration, ExpiringState, MemoizedWithExpiration};
pub use lazy::{memoize_once, LazyState, Memoized};
