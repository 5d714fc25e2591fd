//! The bounded retry decision, local to a single asset's upload task.
//!
//! Transient transport failures (name resolution, connection resets) may be
//! retried; content and encoding failures are permanent. The policy is a
//! fixed attempt count with no backoff: an asset is attempted at most
//! `max_attempts` times, and exhausting the budget turns the failure into a
//! terminal per-asset error. Retries are invisible to sibling tasks.

use vstd::prelude::*;

verus! {

/// The class of a single failed attempt: worth retrying, or permanent.
#[derive(Clone, Copy, PartialEq, Eq, Structural, Debug)]
pub enum ErrorClass {
    Transient,
    Permanent,
}

/// A bounded retry budget shared by every task of a batch, applied locally
/// by each.
pub struct RetryPolicy {
    pub max_attempts: u32,
}

impl RetryPolicy {
    /// The documented default: at most three attempts per asset.
    pub fn standard() -> (p: RetryPolicy)
        ensures
            p.max_attempts == 3,
    {
        RetryPolicy { max_attempts: 3 }
    }

    /// Decides whether a task retries after a failed attempt.
    /// `attempts_made` counts the attempts performed so far, the failed one
    /// included: the task retries exactly when the failure was transient and
    /// the attempt budget is not exhausted.
    pub fn should_retry(&self, class: ErrorClass, attempts_made: u32) -> (b: bool)
        ensures
            b == (class is Transient && attempts_made < self.max_attempts),
    {
        match class {
            ErrorClass::Transient => attempts_made < self.max_attempts,
            ErrorClass::Permanent => false,
        }
    }
}

} // verus!
