//! A TTL-guarded holder for a single value.
//!
//! The value is stored with the instant of its creation and a lifetime; once
//! the lifetime has elapsed, `get` refuses to hand the value out.  Whether
//! the value has expired depends on the machine's clock, so nothing can be
//! promised about which branch a call takes — what is verified is that
//! whenever `get` succeeds it returns exactly the stored value, and how the
//! outcome follows from the expiry test.

use vstd::prelude::*;

verus! {

/// The value's lifetime has elapsed.
#[derive(Debug, Clone)]
pub struct ValueExpiredError;

#[verifier::external_type_specification]
#[verifier::external_body]
pub struct ExInstant(std::time::Instant);

/// Relies on std::time::Instant being Copy: its derived clone is a copy of
/// the value.
pub assume_specification[ <std::time::Instant as Clone>::clone ](a: &std::time::Instant) -> (r:
    std::time::Instant)
    ensures
        r == *a,
;

/// Relies on std::time::Duration being Copy: its derived clone is a copy of
/// the value.
pub assume_specification[ <std::time::Duration as Clone>::clone ](a: &std::time::Duration) -> (r:
    std::time::Duration)
    ensures
        r == *a,
;

/// Relies on std::time::Instant::now: an opaque timestamp for the moment of
/// the call; nothing is assumed about its value.
#[verifier::external_body]
fn instant_now() -> std::time::Instant {
    std::time::Instant::now()
}

/// Relies on std::time::Instant::elapsed: the time since `at` by the
/// machine's monotonic clock; the result depends on when it is called, so
/// nothing is assumed about its value.
#[verifier::external_body]
fn elapsed_since(at: &std::time::Instant) -> std::time::Duration {
    at.elapsed()
}

/// Relies on std::time::Duration's derived total order for `>=`.
#[verifier::external_body]
fn duration_at_least(a: &std::time::Duration, b: &std::time::Duration) -> bool {
    *a >= *b
}

/// A value guarded by a time-to-live, counted from its construction.
#[derive(Debug, Clone, PartialEq)]
pub struct TempVars<T> {
    temp_var: T,
    created_at: std::time::Instant,
    lifetime: std::time::Duration,
}

impl<T> TempVars<T> {
    /// The stored value, as contracts speak of it.
    pub closed spec fn spec_value(&self) -> T {
        self.temp_var
    }

    /// The stored lifetime, as contracts speak of it.
    pub closed spec fn spec_lifetime(&self) -> std::time::Duration {
        self.lifetime
    }

    /// Stores `temp_var` with the given lifetime, counted from now.
    pub fn new(temp_var: T, lifetime: std::time::Duration) -> (r: Self)
        ensures
            r.spec_value() == temp_var,
            r.spec_lifetime() == lifetime,
    {
        TempVars { temp_var, created_at: instant_now(), lifetime }
    }

    /// The stored value when `expired` is false, `ValueExpiredError` when it
    /// is true: the decision `get` makes once the clock has spoken.
    pub fn value_unless_expired(&self, expired: bool) -> (r: Result<&T, ValueExpiredError>)
        ensures
            r is Ok <==> !expired,
            r matches Ok(v) ==> *v == self.spec_value(),
    {
        if expired {
            return Err(ValueExpiredError);
        }
        Ok(&self.temp_var)
    }

    /// The stored value, or `ValueExpiredError` once the lifetime has
    /// elapsed.  Which of the two comes back depends on the clock; whenever
    /// the call succeeds, it returns exactly the stored value.
    pub fn get(&self) -> (r: Result<&T, ValueExpiredError>)
        ensures
            r matches Ok(v) ==> *v == self.spec_value(),
    {
        self.value_unless_expired(self.is_expired())
    }

    /// Whether at least the lifetime has passed since construction.  The
    /// result follows the machine's clock, so no value is promised.
    pub fn is_expired(&self) -> bool {
        let elapsed = elapsed_since(&self.created_at);
        duration_at_least(&elapsed, &self.lifetime)
    }
}

} // verus!
