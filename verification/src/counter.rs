//! A monotonic counter of completed requests, shared by every listener and
//! the telemetry loop.

use vstd::prelude::*;

verus! {

/// Counts fully dispatched requests. The count only ever grows: every
/// mutation goes through `increment`, which adds exactly one.
pub struct RequestCounter {
    count: u64,
}

impl RequestCounter {
    /// The current total, as contracts see it.
    pub closed spec fn spec_count(self) -> u64 {
        self.count
    }

    /// A fresh counter starts at zero.
    pub fn new() -> (r: RequestCounter)
        ensures
            r.spec_count() == 0,
    {
        RequestCounter { count: 0 }
    }

    /// Adds exactly one completed request to the total.
    pub fn increment(&mut self)
        requires
            old(self).spec_count() < u64::MAX,
        ensures
            final(self).spec_count() == old(self).spec_count() + 1,
    {
        self.count = self.count + 1;
    }

    /// Reads the current total without changing it.
    pub fn snapshot(&self) -> (r: u64)
        ensures
            r == self.spec_count(),
    {
        self.count
    }

    /// No lost updates: performing `n` increments in a row grows the total
    /// by exactly `n`, so a counter that starts at zero and sees `n`
    /// requests reports exactly `n` from `snapshot`.
    pub fn increment_n(&mut self, n: u64)
        requires
            old(self).spec_count() + n <= u64::MAX,
        ensures
            final(self).spec_count() == old(self).spec_count() + n,
    {
        let mut i: u64 = 0;
        while i < n
            invariant
                i <= n,
                old(self).spec_count() + n <= u64::MAX,
                self.spec_count() == old(self).spec_count() + i,
            decreases n - i,
        {
            self.increment();
            i = i + 1;
        }
    }
}

} // verus!
