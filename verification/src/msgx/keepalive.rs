//! Whether the other side is still there.
use vstd::prelude::*;

use crate::time;
use crate::time::{Duration, Instant};

verus! {

pub const KEEPALIVE_INTERVAL_SECS: u64 = 10;

pub const KEEPALIVE_TIMEOUT_SECS: u64 = 30;

/// How long the other side may be silent, in nanoseconds.
pub open spec fn timeout_nanos() -> int {
    KEEPALIVE_TIMEOUT_SECS * time::NANOS_PER_SEC
}

/// How often a sign of life is sent.
pub fn keepalive_interval() -> (d: Duration)
    ensures
        d.nanos == KEEPALIVE_INTERVAL_SECS * time::NANOS_PER_SEC,
{
    Duration::from_secs(KEEPALIVE_INTERVAL_SECS)
}

/// How long the other side may be silent.
pub fn keepalive_timeout() -> (d: Duration)
    ensures
        d.nanos == timeout_nanos(),
{
    Duration::from_secs(KEEPALIVE_TIMEOUT_SECS)
}

/// When the other side last gave a sign of life.
#[derive(Debug, Clone, Copy, PartialEq, Eq, Structural)]
pub struct KeepaliveTracker {
    last_seen: Instant,
}

impl KeepaliveTracker {
    /// When the other side last gave a sign of life.
    pub closed spec fn last_seen(&self) -> Instant {
        self.last_seen
    }

    /// Whether the other side has been silent for too long at `now`.
    pub open spec fn dead_at(&self, now: Instant) -> bool {
        now.nanos - self.last_seen().nanos >= timeout_nanos()
    }

    /// Counts from `now` on.
    pub fn new(now: Instant) -> (t: KeepaliveTracker)
        ensures
            t.last_seen() == now,
    {
        KeepaliveTracker { last_seen: now }
    }

    /// Notes a sign of life at `now`.
    pub fn observe(&mut self, now: Instant)
        ensures
            final(self).last_seen() == now,
    {
        self.last_seen = now;
    }

    /// Whether the other side has been silent for too long at `now`.
    pub fn is_dead(&self, now: Instant) -> (r: bool)
        ensures
            r == self.dead_at(now),
    {
        now.duration_since(self.last_seen).nanos >= keepalive_timeout().nanos
    }

    /// When the other side will have been silent for too long.
    pub fn next_deadline(&self) -> (t: Instant)
        requires
            self.last_seen().nanos + timeout_nanos() <= u128::MAX,
        ensures
            t.nanos == self.last_seen().nanos + timeout_nanos(),
    {
        Instant { nanos: self.last_seen.nanos + keepalive_timeout().nanos }
    }
}

/// The other side is given up from its deadline on, and not before.
pub proof fn law_dead_from_the_deadline_on(t: KeepaliveTracker, deadline: Instant, now: Instant)
    requires
        deadline.nanos == t.last_seen().nanos + timeout_nanos(),
    ensures
        t.dead_at(now) <==> now.nanos >= deadline.nanos,
{
}

/// A sign of life brings the other side back, for as long as it may be silent.
pub proof fn law_sign_of_life_revives(t: KeepaliveTracker, at: Instant, now: Instant)
    requires
        t.last_seen() == at,
    ensures
        now.nanos < at.nanos + timeout_nanos() ==> !t.dead_at(now),
        !t.dead_at(at),
{
}

/// The other side may be silent for thirty seconds, and is given up as soon as these are over;
/// a sign of life is due every ten.
pub proof fn law_silence_of_thirty_seconds_is_too_long(t: KeepaliveTracker, now: Instant)
    ensures
        timeout_nanos() == 30_000_000_000,
        KEEPALIVE_INTERVAL_SECS == 10,
        t.dead_at(now) <==> now.nanos >= t.last_seen().nanos + 30_000_000_000,
{
}

} // verus!
