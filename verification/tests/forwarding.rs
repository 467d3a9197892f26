use vpn::io_error::{IoError, IoErrorKind};
use vpn::quic_link::datagram::{
    forward_step, recv_error, send_error, ForwardAction, ForwardEvent,
};

fn eof() -> IoError {
    IoError { kind: IoErrorKind::UnexpectedEof, message: "source closed".to_string() }
}

fn run(events: Vec<ForwardEvent>) -> (Vec<Vec<u8>>, Option<Result<(), IoError>>) {
    let mut sent = vec![];
    for event in events {
        match forward_step(event) {
            ForwardAction::Receive => {}
            ForwardAction::Send(pkt) => sent.push(pkt),
            ForwardAction::Stop(r) => return (sent, Some(r)),
        }
    }
    (sent, None)
}

fn packet(p: &[u8]) -> ForwardEvent {
    ForwardEvent::Looked { cancelled: false, received: Some(Ok(p.to_vec())) }
}

#[test]
fn test_forward_cancel_when_source_hanging_returns_ok() {
    let (sent, end) = run(vec![
        ForwardEvent::Looked { cancelled: false, received: None },
        ForwardEvent::Looked { cancelled: true, received: None },
    ]);
    assert!(sent.is_empty());
    assert_eq!(end, Some(Ok(())));
}

#[test]
fn test_forward_cancel_biased_priority_over_ready_recv() {
    let (sent, end) =
        run(vec![ForwardEvent::Looked { cancelled: true, received: Some(Ok(b"P".to_vec())) }]);
    assert!(sent.is_empty());
    assert_eq!(end, Some(Ok(())));
}

#[test]
fn test_forward_uncancelled_relays_packets_until_source_error() {
    let (sent, end) = run(vec![
        packet(b"p1"),
        ForwardEvent::Sent(Ok(())),
        packet(b"p2"),
        ForwardEvent::Sent(Ok(())),
        ForwardEvent::Looked { cancelled: false, received: Some(Err(eof())) },
        packet(b"p3"),
    ]);
    assert_eq!(sent, vec![b"p1".to_vec(), b"p2".to_vec()]);
    assert_eq!(end, Some(Err(eof())));
}

#[test]
fn forward_stops_when_sink_fails() {
    let e = send_error("sink closed".to_string());
    let (sent, end) = run(vec![packet(b"p1"), ForwardEvent::Sent(Err(e.clone())), packet(b"p2")]);
    assert_eq!(sent, vec![b"p1".to_vec()]);
    assert_eq!(end, Some(Err(e)));
}

#[test]
fn errors_of_the_two_ends() {
    assert_eq!(recv_error("x".to_string()).kind, IoErrorKind::ConnectionAborted);
    assert_eq!(send_error("x".to_string()).kind, IoErrorKind::Other);
    assert_eq!(recv_error("x".to_string()).message, "x");
}
