//! What ends a connection, and how.
use vstd::prelude::*;
use vstd::utf8::encode_utf8;

use crate::io_error::IoError;
use crate::quic_link::keepalive::LoopControl;
use crate::quic_link::session::CloseOrder;
use crate::text;
use crate::vpn::{ControlMessage, Msg};

verus! {

/// Why one of the tasks of a connection has ended.
#[derive(Debug, Clone, Copy, PartialEq, Eq, Structural)]
pub enum ExitCause {
    Interrupted,
    ServerDisconnect,
    HeartbeatEnded,
    UplinkEnded,
    DownlinkEnded,
    TelemetryEnded,
    TaskPanicked,
}

impl ExitCause {
    /// All causes.
    pub const ALL: [ExitCause; 7] = [
        ExitCause::Interrupted,
        ExitCause::ServerDisconnect,
        ExitCause::HeartbeatEnded,
        ExitCause::UplinkEnded,
        ExitCause::DownlinkEnded,
        ExitCause::TelemetryEnded,
        ExitCause::TaskPanicked,
    ];

    /// The code with which the connection is closed.
    pub fn code(self) -> (r: u64)
        ensures
            r == match self {
                ExitCause::UplinkEnded | ExitCause::DownlinkEnded => 1u64,
                ExitCause::TaskPanicked => 2,
                _ => 0,
            },
    {
        match self {
            ExitCause::UplinkEnded | ExitCause::DownlinkEnded => 0x1,
            ExitCause::TaskPanicked => 0x2,
            ExitCause::Interrupted
            | ExitCause::ServerDisconnect
            | ExitCause::HeartbeatEnded
            | ExitCause::TelemetryEnded => 0,
        }
    }

    /// The reason that the other side is given.
    pub open spec fn reason_text(self) -> Seq<char> {
        match self {
            ExitCause::Interrupted => "client-shutdown"@,
            ExitCause::ServerDisconnect => "server-disconnect"@,
            ExitCause::HeartbeatEnded => "heartbeat-timeout"@,
            ExitCause::UplinkEnded => "uplink-ended"@,
            ExitCause::DownlinkEnded => "downlink-ended"@,
            ExitCause::TelemetryEnded => "telemetry-ended"@,
            ExitCause::TaskPanicked => "data-plane-panic"@,
        }
    }

    /// The reason that the other side is given, as bytes.
    pub fn reason(self) -> (r: &'static [u8])
        ensures
            r@ == encode_utf8(self.reason_text()),
            r@ == encode_utf8(
                match self {
                    ExitCause::Interrupted => "client-shutdown"@,
                    ExitCause::ServerDisconnect => "server-disconnect"@,
                    ExitCause::HeartbeatEnded => "heartbeat-timeout"@,
                    ExitCause::UplinkEnded => "uplink-ended"@,
                    ExitCause::DownlinkEnded => "downlink-ended"@,
                    ExitCause::TelemetryEnded => "telemetry-ended"@,
                    ExitCause::TaskPanicked => "data-plane-panic"@,
                },
            ),
    {
        match self {
            ExitCause::Interrupted => "client-shutdown".as_bytes(),
            ExitCause::ServerDisconnect => "server-disconnect".as_bytes(),
            ExitCause::HeartbeatEnded => "heartbeat-timeout".as_bytes(),
            ExitCause::UplinkEnded => "uplink-ended".as_bytes(),
            ExitCause::DownlinkEnded => "downlink-ended".as_bytes(),
            ExitCause::TelemetryEnded => "telemetry-ended".as_bytes(),
            ExitCause::TaskPanicked => "data-plane-panic".as_bytes(),
        }
    }

    /// The name of the cause.
    pub open spec fn name(self) -> Seq<char> {
        match self {
            ExitCause::Interrupted => "interrupted"@,
            ExitCause::ServerDisconnect => "server-disconnect"@,
            ExitCause::HeartbeatEnded => "heartbeat-ended"@,
            ExitCause::UplinkEnded => "uplink-ended"@,
            ExitCause::DownlinkEnded => "downlink-ended"@,
            ExitCause::TelemetryEnded => "telemetry-ended"@,
            ExitCause::TaskPanicked => "task-panicked"@,
        }
    }

    /// The cause in words.
    pub fn text(self) -> (r: &'static str)
        ensures
            r@ == self.name(),
            r@ == match self {
                ExitCause::Interrupted => "interrupted"@,
                ExitCause::ServerDisconnect => "server-disconnect"@,
                ExitCause::HeartbeatEnded => "heartbeat-ended"@,
                ExitCause::UplinkEnded => "uplink-ended"@,
                ExitCause::DownlinkEnded => "downlink-ended"@,
                ExitCause::TelemetryEnded => "telemetry-ended"@,
                ExitCause::TaskPanicked => "task-panicked"@,
            },
    {
        match self {
            ExitCause::Interrupted => "interrupted",
            ExitCause::ServerDisconnect => "server-disconnect",
            ExitCause::HeartbeatEnded => "heartbeat-ended",
            ExitCause::UplinkEnded => "uplink-ended",
            ExitCause::DownlinkEnded => "downlink-ended",
            ExitCause::TelemetryEnded => "telemetry-ended",
            ExitCause::TaskPanicked => "task-panicked",
        }
    }
}

/// Every cause stands in the list of all causes, once.
pub proof fn law_all_causes_are_listed(c: ExitCause)
    ensures
        ExitCause::ALL@.contains(c),
        ExitCause::ALL@.no_duplicates(),
{
    let i: int = match c {
        ExitCause::Interrupted => 0,
        ExitCause::ServerDisconnect => 1,
        ExitCause::HeartbeatEnded => 2,
        ExitCause::UplinkEnded => 3,
        ExitCause::DownlinkEnded => 4,
        ExitCause::TelemetryEnded => 5,
        ExitCause::TaskPanicked => 6,
    };
    assert(ExitCause::ALL@[i] == c);
}

/// No two causes have the same name.
pub proof fn law_cause_names_differ(a: ExitCause, b: ExitCause)
    requires
        a.name() == b.name(),
    ensures
        a == b,
{
    reveal_strlit("interrupted");
    reveal_strlit("server-disconnect");
    reveal_strlit("heartbeat-ended");
    reveal_strlit("uplink-ended");
    reveal_strlit("downlink-ended");
    reveal_strlit("telemetry-ended");
    reveal_strlit("task-panicked");
    // The lengths tell them apart, but for two, which begin with different letters.
    assert("interrupted"@.len() == 11);
    assert("server-disconnect"@.len() == 17);
    assert("heartbeat-ended"@.len() == 15);
    assert("uplink-ended"@.len() == 12);
    assert("downlink-ended"@.len() == 14);
    assert("telemetry-ended"@.len() == 15);
    assert("task-panicked"@.len() == 13);
    assert("heartbeat-ended"@[0] == 'h');
    assert("telemetry-ended"@[0] == 't');
}

/// Whether a message says that the server ends the connection.
pub open spec fn is_disconnect(m: ControlMessage) -> bool {
    m.msg matches Some(Msg::Disconnect(_))
}

/// What the loop that keeps the connection alive does with a message: one that says that the
/// server ends the connection ends it, and is remembered.
pub fn disconnect_handler(m: &ControlMessage, saw_disconnect: &mut bool) -> (r: LoopControl)
    ensures
        *final(saw_disconnect) == (*old(saw_disconnect) || is_disconnect(*m)),
        r == if is_disconnect(*m) {
            LoopControl::Break
        } else {
            LoopControl::Continue
        },
        match m.msg {
            Some(Msg::Disconnect(_)) => r == LoopControl::Break && *final(saw_disconnect),
            _ => r == LoopControl::Continue && *final(saw_disconnect) == *old(saw_disconnect),
        },
{
    match &m.msg {
        Some(Msg::Disconnect(_)) => {
            *saw_disconnect = true;
            LoopControl::Break
        },
        _ => LoopControl::Continue,
    }
}

/// Why the loop that keeps the connection alive has ended: the server has said so, this side
/// was told to stop, or neither.
pub fn resolve_cause(saw_disconnect: bool, cancelled: bool) -> (r: ExitCause)
    ensures
        r == if saw_disconnect {
            ExitCause::ServerDisconnect
        } else if cancelled {
            ExitCause::Interrupted
        } else {
            ExitCause::HeartbeatEnded
        },
{
    if saw_disconnect {
        ExitCause::ServerDisconnect
    } else if cancelled {
        ExitCause::Interrupted
    } else {
        ExitCause::HeartbeatEnded
    }
}

/// A look at a connection's tasks: whether it was told to stop, and whether a task has ended,
/// and how.
#[derive(Debug, Clone, PartialEq, Eq)]
pub struct TaskLook {
    pub triggered: bool,
    pub joined: Option<Result<ExitCause, String>>,
}

/// Why a connection has to end, if it has to. Being told to stop comes first. A task that did
/// not end well ends the connection; that telemetry has ended does not.
pub open spec fn cause_of(look: TaskLook) -> Option<ExitCause> {
    if look.triggered {
        Some(ExitCause::Interrupted)
    } else {
        match look.joined {
            Some(Ok(ExitCause::TelemetryEnded)) => None,
            Some(Ok(c)) => Some(c),
            Some(Err(_)) => Some(ExitCause::TaskPanicked),
            None => None,
        }
    }
}

/// Why a connection has to end, if it has to.
pub fn await_cause(look: &TaskLook) -> (r: Option<ExitCause>)
    ensures
        r == cause_of(*look),
        r == if look.triggered {
            Some(ExitCause::Interrupted)
        } else if look.joined == Some(Ok::<ExitCause, String>(ExitCause::TelemetryEnded)) {
            None
        } else {
            match look.joined {
                Some(Ok(c)) => Some(c),
                Some(Err(_)) => Some(ExitCause::TaskPanicked),
                None => None,
            }
        },
{
    if look.triggered {
        return Some(ExitCause::Interrupted);
    }
    let cause = match &look.joined {
        Some(Ok(c)) => *c,
        Some(Err(_)) => ExitCause::TaskPanicked,
        None => {
            return None;
        },
    };
    if cause != ExitCause::TelemetryEnded {
        Some(cause)
    } else {
        None
    }
}

/// Why a connection ends over a run of looks: the first of them that ends it.
pub open spec fn ends_with(looks: Seq<TaskLook>) -> Option<ExitCause>
    decreases looks.len(),
{
    if looks.len() == 0 {
        None
    } else {
        match cause_of(looks[0]) {
            Some(c) => Some(c),
            None => ends_with(looks.drop_first()),
        }
    }
}

/// That telemetry has ended never ends a connection, and changes nothing in what does.
pub proof fn law_telemetry_end_is_ignored(
    before: Seq<TaskLook>,
    look: TaskLook,
    after: Seq<TaskLook>,
)
    requires
        !look.triggered,
        look.joined == Some(Ok::<ExitCause, String>(ExitCause::TelemetryEnded)),
    ensures
        ends_with(before.push(look) + after) == ends_with(before + after),
        ends_with(before + after) != Some(ExitCause::TelemetryEnded),
    decreases before.len(),
{
    if before.len() == 0 {
        assert((before.push(look) + after).drop_first() =~= after);
        assert(before + after =~= after);
        lemma_never_ends_with_telemetry(after);
    } else {
        assert((before.push(look) + after).drop_first() =~= before.drop_first().push(look) + after);
        assert((before + after).drop_first() =~= before.drop_first() + after);
        law_telemetry_end_is_ignored(before.drop_first(), look, after);
        lemma_never_ends_with_telemetry(before + after);
    }
}

proof fn lemma_never_ends_with_telemetry(looks: Seq<TaskLook>)
    ensures
        ends_with(looks) != Some(ExitCause::TelemetryEnded),
    decreases looks.len(),
{
    if looks.len() > 0 {
        lemma_never_ends_with_telemetry(looks.drop_first());
    }
}

/// Once it was told to stop, a connection ends, whatever its tasks do.
pub proof fn law_trigger_ends_connection(looks: Seq<TaskLook>, i: int)
    requires
        0 <= i < looks.len(),
        looks[i].triggered,
    ensures
        ends_with(looks) is Some,
    decreases looks.len(),
{
    if i > 0 && cause_of(looks[0]) is None {
        assert(looks.drop_first()[i - 1] == looks[i]);
        law_trigger_ends_connection(looks.drop_first(), i - 1);
    }
}

/// How a connection is closed that ends for `cause`.
pub fn close_order(cause: ExitCause) -> (r: CloseOrder)
    ensures
        r.code == match cause {
            ExitCause::UplinkEnded | ExitCause::DownlinkEnded => 1u64,
            ExitCause::TaskPanicked => 2,
            _ => 0,
        },
        r.reason@ == encode_utf8(cause.reason_text()),
        r.reason@ == encode_utf8(
            match cause {
                ExitCause::Interrupted => "client-shutdown"@,
                ExitCause::ServerDisconnect => "server-disconnect"@,
                ExitCause::HeartbeatEnded => "heartbeat-timeout"@,
                ExitCause::UplinkEnded => "uplink-ended"@,
                ExitCause::DownlinkEnded => "downlink-ended"@,
                ExitCause::TelemetryEnded => "telemetry-ended"@,
                ExitCause::TaskPanicked => "data-plane-panic"@,
            },
        ),
{
    CloseOrder { code: cause.code(), reason: cause.reason() }
}

/// Which way packets went.
#[derive(Debug, Clone, Copy, PartialEq, Eq, Structural)]
pub enum Direction {
    Uplink,
    Downlink,
}

/// The cause that a loop that passes packets on leaves, however it has ended, and what is
/// logged where it has ended with an error.
pub fn forward_ended(direction: Direction, outcome: &Result<(), IoError>) -> (r: (
    ExitCause,
    Option<String>,
))
    ensures
        r.0 == match direction {
            Direction::Uplink => ExitCause::UplinkEnded,
            Direction::Downlink => ExitCause::DownlinkEnded,
        },
        match (r.1, *outcome) {
            (None, Ok(())) => true,
            (Some(log), Err(e)) => log@ == match direction {
                Direction::Uplink => "uplink ended with error: "@,
                Direction::Downlink => "downlink ended with error: "@,
            } + e.message@,
            _ => false,
        },
{
    let (cause, head) = match direction {
        Direction::Uplink => (ExitCause::UplinkEnded, "uplink ended with error: "),
        Direction::Downlink => (ExitCause::DownlinkEnded, "downlink ended with error: "),
    };
    match outcome {
        Ok(()) => (cause, None),
        Err(e) => (cause, Some(text::join2(head, e.message.as_str()))),
    }
}

/// The cause that the telemetry task leaves, however it has ended, and what is logged where it
/// did not end well.
pub fn guarded_telemetry(panicked: &Option<String>) -> (r: (ExitCause, Option<String>))
    ensures
        r.0 == ExitCause::TelemetryEnded,
        match (r.1, *panicked) {
            (None, None) => true,
            (Some(log), Some(what)) => log@ == "telemetry task panicked: "@ + what@,
            _ => false,
        },
{
    match panicked {
        Some(what) => (
            ExitCause::TelemetryEnded,
            Some(text::join2("telemetry task panicked: ", what.as_str())),
        ),
        None => (ExitCause::TelemetryEnded, None),
    }
}

/// What ends a connection: being told to stop, for which it is interrupted; a task that did not
/// end well; and a task that ended for any cause but the end of telemetry, for that very cause.
/// Nothing else does.
pub proof fn law_task_that_ends_ends_the_connection(c: ExitCause, what: String)
    ensures
        c != ExitCause::TelemetryEnded ==> cause_of(
            TaskLook { triggered: false, joined: Some(Ok(c)) },
        ) == Some(c),
        cause_of(TaskLook { triggered: false, joined: Some(Ok(ExitCause::TelemetryEnded)) })
            is None,
        cause_of(TaskLook { triggered: false, joined: Some(Err(what)) }) == Some(
            ExitCause::TaskPanicked,
        ),
        cause_of(TaskLook { triggered: false, joined: None }) is None,
        cause_of(TaskLook { triggered: true, joined: None }) == Some(ExitCause::Interrupted),
        cause_of(TaskLook { triggered: true, joined: Some(Ok(c)) }) == Some(
            ExitCause::Interrupted,
        ),
        cause_of(TaskLook { triggered: true, joined: Some(Err(what)) }) == Some(
            ExitCause::Interrupted,
        ),
{
}

/// Over a run of looks the first that finds a reason to end is what the connection ends with:
/// before it nothing but the end of telemetry was found, and what comes behind it counts for
/// nothing.
pub proof fn law_first_end_decides(before: Seq<TaskLook>, c: ExitCause, after: Seq<TaskLook>)
    requires
        c != ExitCause::TelemetryEnded,
        forall|i: int|
            0 <= i < before.len() ==> {
                &&& !(#[trigger] before[i]).triggered
                &&& before[i].joined is None || before[i].joined == Some(
                    Ok::<ExitCause, String>(ExitCause::TelemetryEnded),
                )
            },
    ensures
        ends_with(before) is None,
        ends_with(before.push(TaskLook { triggered: false, joined: Some(Ok(c)) }) + after)
            == Some(c),
        ends_with(before.push(TaskLook { triggered: true, joined: None }) + after) == Some(
            ExitCause::Interrupted,
        ),
    decreases before.len(),
{
    let task = TaskLook { triggered: false, joined: Some(Ok::<ExitCause, String>(c)) };
    let told = TaskLook { triggered: true, joined: None };
    if before.len() > 0 {
        let rest = before.drop_first();
        assert forall|i: int| 0 <= i < rest.len() implies {
            &&& !(#[trigger] rest[i]).triggered
            &&& rest[i].joined is None || rest[i].joined == Some(
                Ok::<ExitCause, String>(ExitCause::TelemetryEnded),
            )
        } by {
            assert(rest[i] == before[i + 1]);
        }
        law_first_end_decides(rest, c, after);
        assert((before.push(task) + after).drop_first() =~= rest.push(task) + after);
        assert((before.push(told) + after).drop_first() =~= rest.push(told) + after);
        assert((before.push(task) + after)[0] == before[0]);
        assert((before.push(told) + after)[0] == before[0]);
    } else {
        assert((before.push(task) + after)[0] == task);
        assert((before.push(told) + after)[0] == told);
    }
}

/// A message ends the connection if and only if it says that the server does.
pub proof fn law_only_a_disconnect_disconnects(m: ControlMessage)
    ensures
        is_disconnect(m) <==> match m.msg {
            Some(Msg::Disconnect(_)) => true,
            _ => false,
        },
{
}

/// The names of the causes, and the reasons that the other side is given.
pub proof fn law_causes_have_their_names()
    ensures
        ExitCause::Interrupted.name() == "interrupted"@,
        ExitCause::ServerDisconnect.name() == "server-disconnect"@,
        ExitCause::HeartbeatEnded.name() == "heartbeat-ended"@,
        ExitCause::UplinkEnded.name() == "uplink-ended"@,
        ExitCause::DownlinkEnded.name() == "downlink-ended"@,
        ExitCause::TelemetryEnded.name() == "telemetry-ended"@,
        ExitCause::TaskPanicked.name() == "task-panicked"@,
        ExitCause::Interrupted.reason_text() == "client-shutdown"@,
        ExitCause::ServerDisconnect.reason_text() == "server-disconnect"@,
        ExitCause::HeartbeatEnded.reason_text() == "heartbeat-timeout"@,
        ExitCause::UplinkEnded.reason_text() == "uplink-ended"@,
        ExitCause::DownlinkEnded.reason_text() == "downlink-ended"@,
        ExitCause::TelemetryEnded.reason_text() == "telemetry-ended"@,
        ExitCause::TaskPanicked.reason_text() == "data-plane-panic"@,
{
}

/// That the server has ended the connection is the cause wherever it was seen, also where this
/// side was told to stop by then; being told to stop is the cause where it was not; and what is
/// left is that the other side fell silent.
pub proof fn law_server_has_the_last_word(
    cancelled: bool,
    seen: ExitCause,
    told: ExitCause,
    neither: ExitCause,
)
    requires
        call_ensures(resolve_cause, (true, cancelled), seen),
        call_ensures(resolve_cause, (false, true), told),
        call_ensures(resolve_cause, (false, false), neither),
    ensures
        seen == ExitCause::ServerDisconnect,
        told == ExitCause::Interrupted,
        neither == ExitCause::HeartbeatEnded,
{
}

} // verus!
