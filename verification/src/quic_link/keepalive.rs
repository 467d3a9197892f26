//! The loop that keeps a connection alive.
//!
//! The loop waits for whatever happens first: that it is told to stop, that a second has gone
//! by, that a heartbeat is due, or that a message arrives. Here stands what it does then.
use vstd::prelude::*;

use crate::msgx::codec::FrameError;
use crate::msgx::keepalive as tracking;
use crate::msgx::keepalive::KeepaliveTracker;
use crate::quic_link::session::CloseOrder;
use crate::time;
use crate::time::{Duration, Instant};

verus! {

/// The code with which a connection is closed whose other side has been silent for too long.
pub const TIMEOUT_CLOSE_CODE: u64 = 0x100;

pub const TIMEOUT_TICK_SECS: u64 = 1;

/// How often the loop looks whether the other side has been silent for too long.
pub fn timeout_tick() -> (d: Duration)
    ensures
        d.nanos == TIMEOUT_TICK_SECS * time::NANOS_PER_SEC,
{
    Duration::from_secs(TIMEOUT_TICK_SECS)
}

/// How often a heartbeat is sent, and how long the other side may be silent.
#[derive(Debug, Clone, Copy, PartialEq, Eq, Structural)]
pub struct KeepaliveConfig {
    pub interval: Duration,
    pub timeout: Duration,
}

impl Default for KeepaliveConfig {
    fn default() -> (c: KeepaliveConfig)
        ensures
            c.interval.nanos == tracking::KEEPALIVE_INTERVAL_SECS * time::NANOS_PER_SEC,
            c.timeout.nanos == tracking::KEEPALIVE_TIMEOUT_SECS * time::NANOS_PER_SEC,
    {
        KeepaliveConfig {
            interval: tracking::keepalive_interval(),
            timeout: tracking::keepalive_timeout(),
        }
    }
}

/// Whether a message lets the loop go on.
#[derive(Debug, Clone, Copy, PartialEq, Eq, Structural)]
pub enum LoopControl {
    Continue,
    Break,
}

/// Whether `now` lies `timeout` or more behind `last_seen`.
pub open spec fn timed_out(now: Instant, last_seen: Instant, timeout: Duration) -> bool {
    if now.nanos >= last_seen.nanos {
        now.nanos - last_seen.nanos >= timeout.nanos
    } else {
        timeout.nanos == 0
    }
}

/// Whether an order closes a connection that has timed out.
pub open spec fn closes_for_timeout(order: CloseOrder) -> bool {
    order.code == TIMEOUT_CLOSE_CODE && order.reason@ == vstd::utf8::encode_utf8(
        "timeout"@,
    )
}

/// With what the connection has to be closed, if the other side has been silent for too long.
pub fn check_timeout(now: Instant, last_seen: Instant, timeout: Duration) -> (r: Option<CloseOrder>)
    ensures
        match r {
            Some(order) => timed_out(now, last_seen, timeout) && closes_for_timeout(order),
            None => !timed_out(now, last_seen, timeout),
        },
{
    if now.duration_since(last_seen).nanos >= timeout.nanos {
        Some(CloseOrder { code: TIMEOUT_CLOSE_CODE, reason: "timeout".as_bytes() })
    } else {
        None
    }
}

/// Takes a message, at `now`, and tells whether the loop has to end. Any message is a sign of
/// life. Where there is none the stream has ended, and with it the loop.
pub fn handle_recv<M, H: FnOnce(&M) -> LoopControl>(
    msg: Result<Option<M>, FrameError>,
    now: Instant,
    tracker: &mut KeepaliveTracker,
    last_seen: &mut Instant,
    on_msg: H,
) -> (stop: bool)
    requires
        forall|m: &M| #[trigger] call_requires(on_msg, (m,)),
    ensures
        match msg {
            Ok(Some(m)) => {
                &&& final(tracker).last_seen() == now
                &&& *final(last_seen) == now
                &&& exists|c: LoopControl| #[trigger]
                    call_ensures(on_msg, (&m,), c) && stop == (c == LoopControl::Break)
            },
            _ => {
                &&& stop
                &&& *final(tracker) == *old(tracker)
                &&& *final(last_seen) == *old(last_seen)
            },
        },
{
    match msg {
        Ok(Some(m)) => {
            tracker.observe(now);
            *last_seen = now;
            let c = on_msg(&m);
            c == LoopControl::Break
        },
        _ => true,
    }
}

/// What has happened to the loop.
#[derive(Debug)]
pub enum KeepaliveEvent<M> {
    /// It was told to stop.
    Shutdown,
    /// It is time to look whether the other side has been silent for too long.
    TimeoutTick,
    /// A heartbeat is due.
    SendTick,
    /// A heartbeat was sent, or could not be.
    Sent(bool),
    /// A message has arrived, or the stream has ended.
    Received(Result<Option<M>, FrameError>),
}

/// What the loop finds when it looks: all that it waits for and that is there.
#[derive(Debug)]
pub struct KeepaliveLook<M> {
    pub shutdown: bool,
    pub timeout_tick: bool,
    pub send_tick: bool,
    pub received: Option<Result<Option<M>, FrameError>>,
}

/// What the loop takes up first of what it finds: that it was told to stop goes before all
/// else, then the look at the time, then the heartbeat, then a message.
pub fn first_of<M>(look: KeepaliveLook<M>) -> (r: Option<KeepaliveEvent<M>>)
    ensures
        r == if look.shutdown {
            Some(KeepaliveEvent::<M>::Shutdown)
        } else if look.timeout_tick {
            Some(KeepaliveEvent::TimeoutTick)
        } else if look.send_tick {
            Some(KeepaliveEvent::SendTick)
        } else {
            match look.received {
                Some(msg) => Some(KeepaliveEvent::Received(msg)),
                None => None,
            }
        },
{
    if look.shutdown {
        Some(KeepaliveEvent::Shutdown)
    } else if look.timeout_tick {
        Some(KeepaliveEvent::TimeoutTick)
    } else if look.send_tick {
        Some(KeepaliveEvent::SendTick)
    } else {
        match look.received {
            Some(msg) => Some(KeepaliveEvent::Received(msg)),
            None => None,
        }
    }
}

/// What the loop has to do next.
#[derive(Debug)]
pub enum KeepaliveAction {
    Wait,
    SendHeartbeat,
    Stop,
    CloseAndStop(CloseOrder),
}

/// The state of the loop.
#[derive(Debug)]
pub struct KeepaliveLoop {
    tracker: KeepaliveTracker,
    last_seen: Instant,
    timeout: Duration,
}

impl KeepaliveLoop {
    /// When the other side last gave a sign of life.
    pub closed spec fn last_seen(&self) -> Instant {
        self.last_seen
    }

    /// How long the other side may be silent.
    pub closed spec fn timeout(&self) -> Duration {
        self.timeout
    }

    /// Whether the tracker was told of the last sign of life.
    pub closed spec fn wf(&self) -> bool {
        self.tracker.last_seen() == self.last_seen
    }

    /// A loop that begins at `now`.
    pub fn new(now: Instant, cfg: KeepaliveConfig) -> (l: KeepaliveLoop)
        ensures
            l.wf(),
            l.last_seen() == now,
            l.timeout() == cfg.timeout,
    {
        KeepaliveLoop { tracker: KeepaliveTracker::new(now), last_seen: now, timeout: cfg.timeout }
    }

    /// What the loop does after an event at `now`. Being told to stop, a heartbeat that cannot
    /// be sent, the end of the stream, and a message that says so end it; if the other side has
    /// been silent for too long, the connection is closed as well.
    pub fn step<M, H: FnOnce(&M) -> LoopControl>(
        &mut self,
        event: KeepaliveEvent<M>,
        now: Instant,
        on_msg: H,
    ) -> (action: KeepaliveAction)
        requires
            old(self).wf(),
            forall|m: &M| #[trigger] call_requires(on_msg, (m,)),
        ensures
            final(self).wf(),
            final(self).timeout() == old(self).timeout(),
            match event {
                KeepaliveEvent::Received(Ok(Some(m))) => {
                    &&& final(self).last_seen() == now
                    &&& exists|c: LoopControl| #[trigger]
                        call_ensures(on_msg, (&m,), c) && action == (match c {
                            LoopControl::Break => KeepaliveAction::Stop,
                            LoopControl::Continue => KeepaliveAction::Wait,
                        })
                },
                _ => final(self).last_seen() == old(self).last_seen(),
            },
            match event {
                KeepaliveEvent::Shutdown => action == KeepaliveAction::Stop,
                KeepaliveEvent::TimeoutTick => match action {
                    KeepaliveAction::CloseAndStop(order) => {
                        &&& timed_out(now, old(self).last_seen(), old(self).timeout())
                        &&& closes_for_timeout(order)
                    },
                    KeepaliveAction::Wait => !timed_out(
                        now,
                        old(self).last_seen(),
                        old(self).timeout(),
                    ),
                    _ => false,
                },
                KeepaliveEvent::SendTick => action == KeepaliveAction::SendHeartbeat,
                KeepaliveEvent::Sent(ok) => action == (if ok {
                    KeepaliveAction::Wait
                } else {
                    KeepaliveAction::Stop
                }),
                KeepaliveEvent::Received(Ok(Some(_))) => true,
                KeepaliveEvent::Received(_) => action == KeepaliveAction::Stop,
            },
    {
        match event {
            KeepaliveEvent::Shutdown => KeepaliveAction::Stop,
            KeepaliveEvent::TimeoutTick => match check_timeout(now, self.last_seen, self.timeout) {
                Some(order) => KeepaliveAction::CloseAndStop(order),
                None => KeepaliveAction::Wait,
            },
            KeepaliveEvent::SendTick => KeepaliveAction::SendHeartbeat,
            KeepaliveEvent::Sent(ok) => {
                if ok {
                    KeepaliveAction::Wait
                } else {
                    KeepaliveAction::Stop
                }
            },
            KeepaliveEvent::Received(msg) => {
                if handle_recv(msg, now, &mut self.tracker, &mut self.last_seen, on_msg) {
                    KeepaliveAction::Stop
                } else {
                    KeepaliveAction::Wait
                }
            },
        }
    }
}

/// As long as no more time than the timeout goes by between a message and the next look, the
/// connection stays.
pub proof fn law_messages_keep_connection_alive(
    l: KeepaliveLoop,
    message_at: Instant,
    looked_at: Instant,
)
    requires
        l.last_seen() == message_at,
        message_at.nanos <= looked_at.nanos < message_at.nanos + l.timeout().nanos,
    ensures
        !timed_out(looked_at, l.last_seen(), l.timeout()),
{
}

/// Once the other side has been silent for too long it stays so until a message arrives.
pub proof fn law_silence_lasts(
    last_seen: Instant,
    timeout: Duration,
    earlier: Instant,
    later: Instant,
)
    requires
        timed_out(earlier, last_seen, timeout),
        earlier.nanos <= later.nanos,
    ensures
        timed_out(later, last_seen, timeout),
{
}

/// The other side has been silent for too long from the moment on at which the timeout is over,
/// counted from its last sign of life, and not before. A timeout of no time at all is always
/// over.
pub proof fn law_timeout_counts_from_the_last_sign(
    now: Instant,
    last_seen: Instant,
    timeout: Duration,
)
    ensures
        timed_out(now, last_seen, timeout) <==> timeout.nanos == 0 || now.nanos >= last_seen.nanos
            + timeout.nanos,
        TIMEOUT_TICK_SECS == 1,
{
}

/// A connection that timed out is closed with the code 256 and the reason `timeout`.
pub proof fn law_timeout_has_its_code(order: CloseOrder)
    ensures
        closes_for_timeout(order) <==> order.code == 256 && order.reason@
            == vstd::utf8::encode_utf8("timeout"@),
{
}

/// A connection is closed for silence if and only if the timeout is over.
pub proof fn law_silence_closes_the_connection(
    now: Instant,
    last_seen: Instant,
    timeout: Duration,
    r: Option<CloseOrder>,
)
    requires
        call_ensures(check_timeout, (now, last_seen, timeout), r),
    ensures
        r is Some <==> timeout.nanos == 0 || now.nanos >= last_seen.nanos + timeout.nanos,
        r matches Some(order) ==> order.code == 256,
{
}

/// Of what the loop finds, that it was told to stop goes before all else, then the look at the
/// time, then the heartbeat, then a message; a message is taken up as it is, and only where there
/// is nothing at all is nothing taken up.
pub proof fn law_loop_takes_up_what_matters_most<M>(
    look: KeepaliveLook<M>,
    r: Option<KeepaliveEvent<M>>,
)
    requires
        call_ensures(first_of::<M>, (look,), r),
    ensures
        look.shutdown ==> r == Some(KeepaliveEvent::<M>::Shutdown),
        !look.shutdown && look.timeout_tick ==> r == Some(KeepaliveEvent::<M>::TimeoutTick),
        !look.shutdown && !look.timeout_tick && look.send_tick ==> r == Some(
            KeepaliveEvent::<M>::SendTick,
        ),
        !look.shutdown && !look.timeout_tick && !look.send_tick ==> match look.received {
            Some(msg) => r == Some(KeepaliveEvent::<M>::Received(msg)),
            None => r is None,
        },
{
}

} // verus!
