//! Points in time and spans of time, in nanoseconds.
use vstd::prelude::*;

verus! {

/// A span of time.
#[derive(Debug, Clone, Copy, PartialEq, Eq, PartialOrd, Ord, Hash, Structural)]
pub struct Duration {
    pub nanos: u128,
}

/// A point on a monotonic clock, counted from an origin that the clock's owner picks.
#[derive(Debug, Clone, Copy, PartialEq, Eq, PartialOrd, Ord, Hash, Structural)]
pub struct Instant {
    pub nanos: u128,
}

pub const NANOS_PER_SEC: u128 = 1_000_000_000;

pub const NANOS_PER_MILLI: u128 = 1_000_000;

impl Duration {
    /// A span of whole seconds.
    pub fn from_secs(secs: u64) -> (d: Duration)
        ensures
            d.nanos == secs * NANOS_PER_SEC,
    {
        Duration { nanos: secs as u128 * NANOS_PER_SEC }
    }

    /// A span of whole milliseconds.
    pub fn from_millis(millis: u64) -> (d: Duration)
        ensures
            d.nanos == millis * NANOS_PER_MILLI,
    {
        Duration { nanos: millis as u128 * NANOS_PER_MILLI }
    }

    /// A span of nanoseconds.
    pub fn from_nanos(nanos: u64) -> (d: Duration)
        ensures
            d.nanos == nanos,
    {
        Duration { nanos: nanos as u128 }
    }
}

impl Instant {
    /// The point that lies `nanos` nanoseconds after the clock's origin.
    pub fn from_nanos(nanos: u128) -> (t: Instant)
        ensures
            t.nanos == nanos,
    {
        Instant { nanos }
    }

    /// How long after `earlier` this point lies; nothing if it does not lie after it.
    pub fn duration_since(&self, earlier: Instant) -> (d: Duration)
        ensures
            d.nanos == if self.nanos >= earlier.nanos { self.nanos - earlier.nanos } else { 0 },
    {
        if self.nanos >= earlier.nanos {
            Duration { nanos: self.nanos - earlier.nanos }
        } else {
            Duration { nanos: 0 }
        }
    }

    /// The point that lies `span` later, where the clock can count that far.
    pub fn checked_add(&self, span: Duration) -> (t: Option<Instant>)
        ensures
            t == if self.nanos + span.nanos <= u128::MAX {
                Some(Instant { nanos: (self.nanos + span.nanos) as u128 })
            } else {
                None
            },
    {
        match self.nanos.checked_add(span.nanos) {
            Some(nanos) => Some(Instant { nanos }),
            None => None,
        }
    }
}

/// How far two points lie apart, added to the earlier one, gives the later one back; a point that
/// does not lie after the other lies no time behind it.
pub proof fn law_span_leads_back(
    earlier: Instant,
    later: Instant,
    span: Duration,
    sum: Option<Instant>,
)
    requires
        call_ensures(Instant::duration_since, (&later, earlier), span),
        call_ensures(Instant::checked_add, (&earlier, span), sum),
    ensures
        earlier.nanos <= later.nanos ==> sum == Some(later),
        earlier.nanos > later.nanos ==> span.nanos == 0 && sum == Some(earlier),
{
}

/// A second has a thousand milliseconds, and a millisecond a million nanoseconds.
pub proof fn law_units_of_time(secs: u64, millis: u64, a: Duration, b: Duration)
    requires
        call_ensures(Duration::from_secs, (secs,), a),
        call_ensures(Duration::from_millis, (millis,), b),
    ensures
        b.nanos == 1_000_000 * millis,
        a.nanos == 1_000_000_000 * secs,
        millis == 1000 * secs ==> a == b,
{
}

} // verus!
