//! Points in time and spans of time, in nanoseconds.

use vstd::prelude::*;

verus! {

/// A span of time.
#[derive(Debug, Clone, Copy, PartialEq, Eq, Structural)]
pub struct Duration {
    pub nanos: u128,
}

/// A point in time, counted from a fixed origin.
#[derive(Debug, Clone, Copy, PartialEq, Eq, Structural)]
pub struct Instant {
    pub nanos: u128,
}

/// The span from `earlier` to `later`, or zero where `later` comes first.
pub open spec fn elapsed(later: Instant, earlier: Instant) -> int {
    if later.nanos >= earlier.nanos {
        later.nanos - earlier.nanos
    } else {
        0
    }
}

impl Duration {
    /// A span of `ms` milliseconds.
    pub fn from_millis(ms: u64) -> (r: Duration)
        ensures
            r.nanos == ms * 1_000_000,
    {
        Duration { nanos: ms as u128 * 1_000_000 }
    }

    /// A span of `s` seconds.
    pub fn from_secs(s: u64) -> (r: Duration)
        ensures
            r.nanos == s * 1_000_000_000,
    {
        Duration { nanos: s as u128 * 1_000_000_000 }
    }

    /// The whole milliseconds in the span.
    pub fn as_millis(&self) -> (r: u128)
        ensures
            r == self.nanos / 1_000_000,
    {
        self.nanos / 1_000_000
    }
}

impl Instant {
    /// The span since `earlier`, or zero where `earlier` is the later of the two.
    pub fn duration_since(&self, earlier: Instant) -> (r: Duration)
        ensures
            r.nanos == elapsed(*self, earlier),
    {
        if self.nanos >= earlier.nanos {
            Duration { nanos: self.nanos - earlier.nanos }
        } else {
            Duration { nanos: 0 }
        }
    }

    /// The point in time that lies `span` after this one.
    pub fn plus(&self, span: Duration) -> (r: Instant)
        requires
            self.nanos + span.nanos <= u128::MAX,
        ensures
            r.nanos == self.nanos + span.nanos,
    {
        Instant { nanos: self.nanos + span.nanos }
    }
}

/// The span between two points in time takes the first to the second, and is
/// nothing where the second does not come later.
pub proof fn spans_lead_from_one_point_to_the_other(
    earlier: &Instant,
    later: &Instant,
    span: Duration,
    back: Duration,
    there: Instant,
)
    requires
        call_ensures(Instant::duration_since, (later, *earlier), span),
        call_ensures(Instant::duration_since, (earlier, *later), back),
        call_ensures(Instant::plus, (earlier, span), there),
        earlier.nanos <= later.nanos,
    ensures
        there == *later,
        back.nanos == 0,
{
}

/// A thousand milliseconds are a second.
pub proof fn units_of_time(ms: u64, s: u64, a: Duration, b: Duration, whole: u128)
    requires
        call_ensures(Duration::from_millis, (ms,), a),
        call_ensures(Duration::from_secs, (s,), b),
        call_ensures(Duration::as_millis, (&a,), whole),
    ensures
        whole == ms,
        ms == s * 1000 ==> a == b,
{
}

} // verus!
