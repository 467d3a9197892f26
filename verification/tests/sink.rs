use vpn::sysprobe::proto::{InfoKind, InfoSnapshot, Payload, ProcessSummary, TelemetryReport};
use vpn::sysprobe::sink::{kind_label, ConsoleSink, SinkError, SinkSource};

fn sample_source() -> SinkSource {
    SinkSource {
        session_id: 1,
        username: "alice".into(),
        virtual_ip: Some("10.0.0.2".into()),
    }
}

fn sample_report() -> TelemetryReport {
    TelemetryReport {
        ts_ms: 1_700_000_000_000,
        items: vec![InfoSnapshot {
            kind: InfoKind::ProcessSummary.as_i32(),
            payload: Some(Payload::ProcessSummary(ProcessSummary {
                count: 5,
                top_by_cpu: vec![],
            })),
        }],
    }
}

#[test]
fn test_console_sink_store_without_subscriber_still_returns_ok() {
    let sink = ConsoleSink;
    let result = sink.store(&sample_source(), &sample_report());
    assert!(result.is_ok());
}

#[test]
fn test_console_sink_default_works() {
    let sink = ConsoleSink::default();
    let lines = sink.store(&sample_source(), &sample_report()).unwrap();
    assert_eq!(lines.len(), 1);
    assert_eq!(lines[0].session_id, 1);
    assert_eq!(lines[0].username, "alice");
    assert_eq!(lines[0].kind, "PROCESS_SUMMARY");
    assert_eq!(lines[0].ts_ms, 1_700_000_000_000);
}

#[test]
fn kinds_that_are_none_are_unknown() {
    assert_eq!(kind_label(InfoKind::DiskInfo.as_i32()), "DISK_INFO");
    assert_eq!(kind_label(-1), "UNKNOWN");
    assert_eq!(kind_label(5), "UNKNOWN");
}

#[test]
fn sink_error_messages() {
    assert_eq!(SinkError::Io("x".into()).message(), "I/O error in telemetry sink: x");
    assert_eq!(SinkError::Backend("x".into()).message(), "backend error in telemetry sink: x");
}
