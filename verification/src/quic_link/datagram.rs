//! How packets go from where they come in to where they go out.
use vstd::prelude::*;

use crate::io_error::{IoError, IoErrorKind};

verus! {

/// The error of a connection from which no packet can be read.
pub fn recv_error(what: String) -> (e: IoError)
    ensures
        e == (IoError { kind: IoErrorKind::ConnectionAborted, message: what }),
{
    IoError { kind: IoErrorKind::ConnectionAborted, message: what }
}

/// The error of a connection over which a packet cannot be sent.
pub fn send_error(what: String) -> (e: IoError)
    ensures
        e == (IoError { kind: IoErrorKind::Other, message: what }),
{
    IoError { kind: IoErrorKind::Other, message: what }
}

/// What has happened to a loop that passes packets on.
#[derive(Debug)]
pub enum ForwardEvent {
    /// It has looked whether it was told to stop, and whether a packet has come in.
    Looked { cancelled: bool, received: Option<Result<Vec<u8>, IoError>> },
    /// It has passed a packet on.
    Sent(Result<(), IoError>),
}

/// What the loop has to do next.
#[derive(Debug)]
pub enum ForwardAction {
    /// Wait until it is told to stop or a packet comes in.
    Receive,
    /// Pass a packet on.
    Send(Vec<u8>),
    /// Stop.
    Stop(Result<(), IoError>),
}

/// What has to be done after an event. Being told to stop comes first: a packet that has come
/// in by then is dropped. An error at either end stops the loop.
pub open spec fn next_action(event: ForwardEvent) -> ForwardAction {
    match event {
        ForwardEvent::Looked { cancelled, received } => if cancelled {
            ForwardAction::Stop(Ok(()))
        } else {
            match received {
                Some(Ok(pkt)) => ForwardAction::Send(pkt),
                Some(Err(e)) => ForwardAction::Stop(Err(e)),
                None => ForwardAction::Receive,
            }
        },
        ForwardEvent::Sent(Ok(())) => ForwardAction::Receive,
        ForwardEvent::Sent(Err(e)) => ForwardAction::Stop(Err(e)),
    }
}

/// What has to be done after an event.
pub fn forward_step(event: ForwardEvent) -> (r: ForwardAction)
    ensures
        r == next_action(event),
{
    match event {
        ForwardEvent::Looked { cancelled, received } => {
            if cancelled {
                return ForwardAction::Stop(Ok(()));
            }
            match received {
                Some(Ok(pkt)) => ForwardAction::Send(pkt),
                Some(Err(e)) => ForwardAction::Stop(Err(e)),
                None => ForwardAction::Receive,
            }
        },
        ForwardEvent::Sent(Ok(())) => ForwardAction::Receive,
        ForwardEvent::Sent(Err(e)) => ForwardAction::Stop(Err(e)),
    }
}

/// The packets that came in over a run of events.
pub open spec fn came_in(events: Seq<ForwardEvent>) -> Seq<Vec<u8>>
    decreases events.len(),
{
    if events.len() == 0 {
        Seq::empty()
    } else {
        match events[0] {
            ForwardEvent::Looked { received: Some(Ok(pkt)), .. } => seq![pkt] + came_in(
                events.drop_first(),
            ),
            _ => came_in(events.drop_first()),
        }
    }
}

/// The packets that the loop passes on over a run of events, until it stops.
pub open spec fn passed_on(events: Seq<ForwardEvent>) -> Seq<Vec<u8>>
    decreases events.len(),
{
    if events.len() == 0 {
        Seq::empty()
    } else {
        match next_action(events[0]) {
            ForwardAction::Stop(_) => Seq::empty(),
            ForwardAction::Send(pkt) => seq![pkt] + passed_on(events.drop_first()),
            ForwardAction::Receive => passed_on(events.drop_first()),
        }
    }
}

/// What the loop passes on is what came in, in order, up to where it stopped: it makes nothing
/// up, leaves nothing out in between, and swaps nothing.
pub proof fn law_packets_keep_their_order(events: Seq<ForwardEvent>)
    ensures
        passed_on(events).len() <= came_in(events).len(),
        passed_on(events) == came_in(events).take(passed_on(events).len() as int),
    decreases events.len(),
{
    if events.len() > 0 {
        let rest = events.drop_first();
        law_packets_keep_their_order(rest);
        match next_action(events[0]) {
            ForwardAction::Stop(_) => {
                assert(passed_on(events) =~= came_in(events).take(0));
            },
            ForwardAction::Send(pkt) => {
                assert(passed_on(events) =~= came_in(events).take(
                    passed_on(events).len() as int,
                ));
            },
            ForwardAction::Receive => {},
        }
    } else {
        assert(passed_on(events) =~= came_in(events).take(0));
    }
}

/// Nothing is passed on from the moment in which the loop finds that it was told to stop.
pub proof fn law_nothing_passes_after_cancel(before: Seq<ForwardEvent>, after: Seq<ForwardEvent>)
    requires
        after.len() > 0,
        after[0] matches ForwardEvent::Looked { cancelled, .. } && cancelled,
    ensures
        passed_on(before + after) == passed_on(before),
    decreases before.len(),
{
    if before.len() == 0 {
        assert(before + after =~= after);
    } else {
        assert((before + after).drop_first() =~= before.drop_first() + after);
        law_nothing_passes_after_cancel(before.drop_first(), after);
    }
}

/// A packet that came in before the loop was told to stop is passed on, whatever is in it, and
/// after it was passed on the next is waited for.
pub proof fn law_received_packet_is_sent(pkt: Vec<u8>)
    ensures
        next_action(ForwardEvent::Looked { cancelled: false, received: Some(Ok(pkt)) })
            == ForwardAction::Send(pkt),
        next_action(ForwardEvent::Sent(Ok(()))) == ForwardAction::Receive,
        next_action(ForwardEvent::Looked { cancelled: false, received: None })
            == ForwardAction::Receive,
{
}

/// The loop stops when it finds that it was told to, and then without an error; and when an end
/// fails, and then with that error. Nothing else stops it.
pub proof fn law_only_cancel_or_error_stops(
    received: Option<Result<Vec<u8>, IoError>>,
    pkt: Vec<u8>,
    e: IoError,
)
    ensures
        next_action(ForwardEvent::Looked { cancelled: true, received }) == ForwardAction::Stop(
            Ok(()),
        ),
        next_action(ForwardEvent::Looked { cancelled: false, received: Some(Err(e)) })
            == ForwardAction::Stop(Err(e)),
        next_action(ForwardEvent::Sent(Err(e))) == ForwardAction::Stop(Err(e)),
        !(next_action(ForwardEvent::Looked { cancelled: false, received: Some(Ok(pkt)) }) is Stop),
        !(next_action(ForwardEvent::Looked { cancelled: false, received: None }) is Stop),
        !(next_action(ForwardEvent::Sent(Ok(()))) is Stop),
{
}

/// As long as nothing tells the loop to stop and nothing fails, every packet that came in is
/// passed on.
pub proof fn law_every_packet_is_passed_on(events: Seq<ForwardEvent>)
    requires
        forall|i: int|
            0 <= i < events.len() ==> match #[trigger] events[i] {
                ForwardEvent::Looked { cancelled, received: Some(Err(_)) } => false,
                ForwardEvent::Looked { cancelled, received: _ } => !cancelled,
                ForwardEvent::Sent(outcome) => outcome is Ok,
            },
    ensures
        passed_on(events) == came_in(events),
    decreases events.len(),
{
    if events.len() > 0 {
        let rest = events.drop_first();
        assert forall|i: int| 0 <= i < rest.len() implies match #[trigger] rest[i] {
            ForwardEvent::Looked { cancelled, received: Some(Err(_)) } => false,
            ForwardEvent::Looked { cancelled, received: _ } => !cancelled,
            ForwardEvent::Sent(outcome) => outcome is Ok,
        } by {
            assert(rest[i] == events[i + 1]);
        }
        law_every_packet_is_passed_on(rest);
        match events[0] {
            ForwardEvent::Looked { received: Some(Ok(pkt)), .. } => {
                law_received_packet_is_sent(pkt);
            },
            _ => {},
        }
    }
}

/// A run of packets, each found by a look and sent without an error, goes through as it came in,
/// whatever the packets are.
pub proof fn law_run_of_packets_goes_through(pkts: Seq<Vec<u8>>, events: Seq<ForwardEvent>)
    requires
        events.len() == pkts.len(),
        forall|i: int|
            0 <= i < pkts.len() ==> #[trigger] events[i] == (ForwardEvent::Looked {
                cancelled: false,
                received: Some(Ok(pkts[i])),
            }),
    ensures
        came_in(events) == pkts,
        passed_on(events) == pkts,
    decreases pkts.len(),
{
    if pkts.len() > 0 {
        let rest = pkts.drop_first();
        let later = events.drop_first();
        assert forall|i: int| 0 <= i < rest.len() implies #[trigger] later[i] == (
        ForwardEvent::Looked { cancelled: false, received: Some(Ok(rest[i])) }) by {
            assert(later[i] == events[i + 1]);
        }
        law_run_of_packets_goes_through(rest, later);
        law_received_packet_is_sent(pkts[0]);
        assert(events[0] == (ForwardEvent::Looked {
            cancelled: false,
            received: Some(Ok(pkts[0])),
        }));
        assert(seq![pkts[0]] + rest =~= pkts);
    } else {
        assert(came_in(events) =~= pkts);
        assert(passed_on(events) =~= pkts);
    }
}

} // verus!
