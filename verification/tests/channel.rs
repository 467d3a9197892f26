use vpn::io_error::{IoError, IoErrorKind};
use vpn::msgx::channel::{
    is_closed_kind, received, received_in_time, recv_closed_or_io, send_closed_or_io, sent_in_time,
    RecvTimeoutError, SendTimeoutError,
};
use vpn::msgx::codec::FrameError;

fn err(kind: IoErrorKind) -> IoError {
    IoError { kind, message: "what".to_string() }
}

#[test]
fn five_kinds_mean_that_the_other_side_is_gone() {
    let closed = [
        IoErrorKind::BrokenPipe,
        IoErrorKind::ConnectionReset,
        IoErrorKind::ConnectionAborted,
        IoErrorKind::NotConnected,
        IoErrorKind::UnexpectedEof,
    ];
    for kind in closed {
        assert!(is_closed_kind(kind));
        assert_eq!(send_closed_or_io(err(kind)), SendTimeoutError::Closed);
        assert_eq!(recv_closed_or_io(err(kind)), RecvTimeoutError::Closed);
    }
    for kind in [IoErrorKind::InvalidData, IoErrorKind::TimedOut, IoErrorKind::Other] {
        assert!(!is_closed_kind(kind));
        assert_eq!(send_closed_or_io(err(kind)), SendTimeoutError::Io(err(kind)));
        assert_eq!(recv_closed_or_io(err(kind)), RecvTimeoutError::Io(err(kind)));
    }
}

#[test]
fn message_in_time_is_handed_on() {
    assert_eq!(received_in_time(Some(Ok(Some(("ping", 7))))), Ok(("ping", 7)));
}

#[test]
fn no_message_in_time_is_a_timeout() {
    assert_eq!(received_in_time::<u8>(None), Err(RecvTimeoutError::Timeout));
}

#[test]
fn end_of_the_stream_is_closed() {
    assert_eq!(received_in_time::<u8>(Some(Ok(None))), Err(RecvTimeoutError::Closed));
}

#[test]
fn recv_errors_keep_their_meaning() {
    assert_eq!(
        received_in_time::<u8>(Some(Err(FrameError::Codec(err(IoErrorKind::BrokenPipe))))),
        Err(RecvTimeoutError::Closed)
    );
    assert_eq!(
        received_in_time::<u8>(Some(Err(FrameError::Codec(err(IoErrorKind::InvalidData))))),
        Err(RecvTimeoutError::Io(err(IoErrorKind::InvalidData)))
    );
    assert_eq!(
        received_in_time::<u8>(Some(Err(FrameError::Decode("what".to_string())))),
        Err(RecvTimeoutError::Io(err(IoErrorKind::InvalidData)))
    );
}

#[test]
fn sending_in_time_is_fine() {
    assert_eq!(sent_in_time(Some(Ok(()))), Ok(()));
}

#[test]
fn send_errors_keep_their_meaning() {
    assert_eq!(sent_in_time(None), Err(SendTimeoutError::Timeout));
    assert_eq!(
        sent_in_time(Some(Err(FrameError::Codec(err(IoErrorKind::ConnectionReset))))),
        Err(SendTimeoutError::Closed)
    );
    assert_eq!(
        sent_in_time(Some(Err(FrameError::Codec(err(IoErrorKind::InvalidInput))))),
        Err(SendTimeoutError::Io(err(IoErrorKind::InvalidInput)))
    );
    assert_eq!(
        sent_in_time(Some(Err(FrameError::Decode("what".to_string())))),
        Err(SendTimeoutError::Io(err(IoErrorKind::InvalidData)))
    );
}

#[test]
fn items_of_the_stream() {
    assert_eq!(received::<u8>(None), Ok(None));
    assert_eq!(received(Some(Ok(3u8))), Ok(Some(3)));
    let e = FrameError::Decode("bad".to_string());
    assert_eq!(received::<u8>(Some(Err(e.clone()))), Err(e));
}

#[test]
fn timeout_error_messages() {
    assert_eq!(SendTimeoutError::Timeout.message(), "send timed out");
    assert_eq!(SendTimeoutError::Closed.message(), "stream closed");
    assert_eq!(SendTimeoutError::Io(err(IoErrorKind::Other)).message(), "io error: what");
    assert_eq!(RecvTimeoutError::Timeout.message(), "recv timed out");
    assert_eq!(RecvTimeoutError::Closed.message(), "stream closed");
    assert_eq!(RecvTimeoutError::Io(err(IoErrorKind::Other)).message(), "io error: what");
}
