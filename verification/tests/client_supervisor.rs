use vpn::client::preauth::heartbeat;
use vpn::client::supervisor::{
    await_cause, close_order, disconnect_handler, forward_ended, guarded_telemetry, resolve_cause,
    Direction, ExitCause, TaskLook,
};
use vpn::io_error::{IoError, IoErrorKind};
use vpn::quic_link::keepalive::LoopControl;
use vpn::shutdown::{after_grace, default_drain_timeout, joined_log, DrainAction};
use vpn::time::Duration;
use vpn::vpn::{ControlMessage, Disconnect, Msg};

#[test]
fn client_test_exit_cause_code_reason_mapping() {
    let cases = [
        (ExitCause::Interrupted, 0, "client-shutdown"),
        (ExitCause::ServerDisconnect, 0, "server-disconnect"),
        (ExitCause::HeartbeatEnded, 0, "heartbeat-timeout"),
        (ExitCause::UplinkEnded, 0x1, "uplink-ended"),
        (ExitCause::DownlinkEnded, 0x1, "downlink-ended"),
        (ExitCause::TelemetryEnded, 0, "telemetry-ended"),
        (ExitCause::TaskPanicked, 0x2, "data-plane-panic"),
    ];
    for (cause, code, reason) in cases {
        assert_eq!(cause.code(), code, "{cause:?}");
        assert_eq!(cause.reason(), reason.as_bytes(), "{cause:?}");
        let order = close_order(cause);
        assert_eq!((order.code, order.reason), (code, reason.as_bytes()));
    }
}

#[test]
fn client_test_exit_cause_displays_are_distinct() {
    let all: Vec<String> = ExitCause::ALL.iter().map(|c| c.text().to_string()).collect();
    assert_eq!(all.len(), 7);
    for i in 0..all.len() {
        for j in (i + 1)..all.len() {
            assert_ne!(all[i], all[j], "duplicate at {i},{j}");
        }
    }
}

#[test]
fn client_test_exit_cause_is_copy_and_eq() {
    let a = ExitCause::HeartbeatEnded;
    let b = a;
    assert_eq!(a, b);
}

#[test]
fn supervisor_test_exit_cause_code_reason_mapping() {
    let cases = [
        (ExitCause::Interrupted, 0, "client-shutdown"),
        (ExitCause::ServerDisconnect, 0, "server-disconnect"),
        (ExitCause::HeartbeatEnded, 0, "heartbeat-timeout"),
        (ExitCause::UplinkEnded, 0x1, "uplink-ended"),
        (ExitCause::DownlinkEnded, 0x1, "downlink-ended"),
        (ExitCause::TelemetryEnded, 0, "telemetry-ended"),
        (ExitCause::TaskPanicked, 0x2, "data-plane-panic"),
    ];
    for (cause, code, reason) in cases {
        assert_eq!(cause.code(), code, "{cause:?}");
        assert_eq!(cause.reason(), reason.as_bytes(), "{cause:?}");
        let order = close_order(cause);
        assert_eq!((order.code, order.reason), (code, reason.as_bytes()));
    }
}

#[test]
fn supervisor_test_exit_cause_displays_are_distinct() {
    let all: Vec<String> = ExitCause::ALL.iter().map(|c| c.text().to_string()).collect();
    assert_eq!(all.len(), 7);
    for i in 0..all.len() {
        for j in (i + 1)..all.len() {
            assert_ne!(all[i], all[j], "duplicate at {i},{j}");
        }
    }
}

#[test]
fn supervisor_test_exit_cause_is_copy_and_eq() {
    let a = ExitCause::HeartbeatEnded;
    let b = a;
    assert_eq!(a, b);
}

fn joined(r: Result<ExitCause, String>) -> TaskLook {
    TaskLook { triggered: false, joined: Some(r) }
}

#[test]
fn end_of_a_direction_ends_the_connection() {
    assert_eq!(
        await_cause(&joined(Ok(ExitCause::UplinkEnded))),
        Some(ExitCause::UplinkEnded)
    );
}

#[test]
fn end_of_telemetry_ends_nothing() {
    assert_eq!(await_cause(&joined(Ok(ExitCause::TelemetryEnded))), None);
    assert_eq!(await_cause(&TaskLook { triggered: false, joined: None }), None);
    let both = TaskLook { triggered: true, joined: Some(Ok(ExitCause::TelemetryEnded)) };
    assert_eq!(await_cause(&both), Some(ExitCause::Interrupted));
}

#[test]
fn panic_ends_the_connection() {
    assert_eq!(await_cause(&joined(Err("boom".to_string()))), Some(ExitCause::TaskPanicked));
}

#[test]
fn being_told_to_stop_comes_first() {
    let both = TaskLook { triggered: true, joined: Some(Ok(ExitCause::DownlinkEnded)) };
    assert_eq!(await_cause(&both), Some(ExitCause::Interrupted));
}

#[test]
fn test_guarded_telemetry_normalizes_panic() {
    let (cause, log) = guarded_telemetry(&Some("telemetry boom".to_string()));
    assert_eq!(cause, ExitCause::TelemetryEnded);
    assert_eq!(log, Some("telemetry task panicked: telemetry boom".to_string()));
}

#[test]
fn test_guarded_telemetry_normal_exit() {
    assert_eq!(guarded_telemetry(&None), (ExitCause::TelemetryEnded, None));
}

#[test]
fn disconnect_message_is_the_cause() {
    let mut saw = false;
    let bye = ControlMessage { msg: Some(Msg::Disconnect(Disconnect { reason: "bye".to_string() })) };
    assert_eq!(disconnect_handler(&heartbeat(), &mut saw), LoopControl::Continue);
    assert!(!saw);
    assert_eq!(disconnect_handler(&bye, &mut saw), LoopControl::Break);
    assert!(saw);
    assert_eq!(disconnect_handler(&heartbeat(), &mut saw), LoopControl::Continue);
    assert!(saw);
    assert_eq!(resolve_cause(saw, true), ExitCause::ServerDisconnect);
    assert_eq!(resolve_cause(false, true), ExitCause::Interrupted);
    assert_eq!(resolve_cause(false, false), ExitCause::HeartbeatEnded);
}

#[test]
fn ends_of_the_two_directions() {
    assert_eq!(forward_ended(Direction::Uplink, &Ok(())), (ExitCause::UplinkEnded, None));
    let e = IoError { kind: IoErrorKind::Other, message: "x".to_string() };
    assert_eq!(
        forward_ended(Direction::Downlink, &Err(e)),
        (ExitCause::DownlinkEnded, Some("downlink ended with error: x".to_string()))
    );
}

#[test]
fn tasks_have_five_seconds_to_end() {
    assert_eq!(default_drain_timeout(), Duration::from_secs(5));
}

#[test]
fn draining_tasks() {
    assert_eq!(
        after_grace("client", true, 0),
        DrainAction::Done { log: "client graceful shutdown complete".to_string() }
    );
    assert_eq!(
        after_grace("client", false, 12),
        DrainAction::AbortAll {
            log: "client graceful shutdown timed out, aborted 12 remaining task(s)".to_string()
        }
    );
    assert_eq!(joined_log("client", &None), None);
    assert_eq!(
        joined_log("client", &Some("boom".to_string())),
        Some("client task panicked: boom".to_string())
    );
}
