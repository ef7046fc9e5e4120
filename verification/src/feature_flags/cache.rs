//! [`CachedValue`]: a fetched flag value and the time at which it was
//! fetched. For how long it is valid is up to the service.

use vstd::prelude::*;

use super::value::{FlagValue, FlagView};

verus! {

/// A fetched flag value. Times are in nanoseconds, by a clock that never
/// goes back.
#[derive(Debug)]
pub struct CachedValue {
    pub value: FlagValue,
    fetched_at: u128,
}

/// What a [`CachedValue`] holds.
pub struct CachedView {
    pub value: FlagView,
    pub fetched_at: u128,
}

impl View for CachedValue {
    type V = CachedView;

    closed spec fn view(&self) -> CachedView {
        CachedView { value: self.value@, fetched_at: self.fetched_at }
    }
}

/// Whether a value fetched at that time is still valid: less than `ttl` has
/// passed since.
pub open spec fn is_fresh(fetched_at: u128, now: u128, ttl: u128) -> bool {
    if now > fetched_at {
        now - fetched_at < ttl
    } else {
        0 < ttl
    }
}

impl CachedValue {
    /// A value that was fetched at the given time.
    pub fn new(value: FlagValue, now: u128) -> (r: Self)
        ensures
            r@ == (CachedView { value: value@, fetched_at: now }),
    {
        CachedValue { value, fetched_at: now }
    }

    /// Whether the value is still valid: less than `ttl` has passed since it
    /// was fetched.
    pub fn is_valid(&self, now: u128, ttl: u128) -> (r: bool)
        ensures
            r == is_fresh(self@.fetched_at, now, ttl),
    {
        let elapsed: u128 = if now > self.fetched_at {
            now - self.fetched_at
        } else {
            0
        };
        elapsed < ttl
    }

    /// A copy of the value.
    pub fn get(&self) -> (r: FlagValue)
        ensures
            r@ == self@.value,
    {
        self.value.clone()
    }
}

impl Clone for CachedValue {
    fn clone(&self) -> (r: Self)
        ensures
            r@ == self@,
    {
        CachedValue { value: self.value.clone(), fetched_at: self.fetched_at }
    }
}

/// A value is valid from the moment it was fetched until the time is over,
/// and never again after that.
pub proof fn law_values_expire_once(fetched_at: u128, ttl: u128, earlier: u128, later: u128)
    requires
        earlier <= later,
    ensures
        ttl > 0 ==> is_fresh(fetched_at, fetched_at, ttl),
        is_fresh(fetched_at, later, ttl) ==> is_fresh(fetched_at, earlier, ttl),
        later >= fetched_at + ttl ==> !is_fresh(fetched_at, later, ttl),
{
}

} // verus!
