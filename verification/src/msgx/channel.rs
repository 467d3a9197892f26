//! What sending and receiving over a channel amounts to.
use vstd::prelude::*;

use crate::io_error::{IoError, IoErrorKind};
use crate::msgx::codec::FrameError;
use crate::text;

verus! {

/// Why a message was not sent in time.
#[derive(Debug, Clone, PartialEq, Eq)]
pub enum SendTimeoutError {
    Timeout,
    Closed,
    Io(IoError),
}

/// Why no message was received in time.
#[derive(Debug, Clone, PartialEq, Eq)]
pub enum RecvTimeoutError {
    Timeout,
    Closed,
    Io(IoError),
}

impl SendTimeoutError {
    /// The text of the error.
    pub open spec fn text(self) -> Seq<char> {
        match self {
            SendTimeoutError::Timeout => "send timed out"@,
            SendTimeoutError::Closed => "stream closed"@,
            SendTimeoutError::Io(e) => "io error: "@ + e.message@,
        }
    }

    /// The error in words.
    pub fn message(&self) -> (r: String)
        ensures
            r@ == self.text(),
    {
        match self {
            SendTimeoutError::Timeout => "send timed out".to_string(),
            SendTimeoutError::Closed => "stream closed".to_string(),
            SendTimeoutError::Io(e) => text::join2("io error: ", e.message.as_str()),
        }
    }
}

impl RecvTimeoutError {
    /// The text of the error.
    pub open spec fn text(self) -> Seq<char> {
        match self {
            RecvTimeoutError::Timeout => "recv timed out"@,
            RecvTimeoutError::Closed => "stream closed"@,
            RecvTimeoutError::Io(e) => "io error: "@ + e.message@,
        }
    }

    /// The error in words.
    pub fn message(&self) -> (r: String)
        ensures
            r@ == self.text(),
    {
        match self {
            RecvTimeoutError::Timeout => "recv timed out".to_string(),
            RecvTimeoutError::Closed => "stream closed".to_string(),
            RecvTimeoutError::Io(e) => text::join2("io error: ", e.message.as_str()),
        }
    }
}

/// Whether an error of this kind means that the other side is gone.
pub open spec fn means_closed(kind: IoErrorKind) -> bool {
    ||| kind == IoErrorKind::BrokenPipe
    ||| kind == IoErrorKind::ConnectionReset
    ||| kind == IoErrorKind::ConnectionAborted
    ||| kind == IoErrorKind::NotConnected
    ||| kind == IoErrorKind::UnexpectedEof
}

/// Whether an error of this kind means that the other side is gone.
pub fn is_closed_kind(kind: IoErrorKind) -> (r: bool)
    ensures
        r == means_closed(kind),
{
    match kind {
        IoErrorKind::BrokenPipe
        | IoErrorKind::ConnectionReset
        | IoErrorKind::ConnectionAborted
        | IoErrorKind::NotConnected
        | IoErrorKind::UnexpectedEof => true,
        _ => false,
    }
}

/// What an error of the stream means for a message that was to be sent.
pub fn send_closed_or_io(e: IoError) -> (r: SendTimeoutError)
    ensures
        r == if means_closed(e.kind) {
            SendTimeoutError::Closed
        } else {
            SendTimeoutError::Io(e)
        },
{
    if is_closed_kind(e.kind) {
        SendTimeoutError::Closed
    } else {
        SendTimeoutError::Io(e)
    }
}

/// What an error of the stream means for a message that was to be received.
pub fn recv_closed_or_io(e: IoError) -> (r: RecvTimeoutError)
    ensures
        r == if means_closed(e.kind) {
            RecvTimeoutError::Closed
        } else {
            RecvTimeoutError::Io(e)
        },
{
    if is_closed_kind(e.kind) {
        RecvTimeoutError::Closed
    } else {
        RecvTimeoutError::Io(e)
    }
}

/// What the next item of the stream amounts to; at its end there is none.
pub fn received<M>(item: Option<Result<M, FrameError>>) -> (r: Result<Option<M>, FrameError>)
    ensures
        r == match item {
            None => Ok::<Option<M>, FrameError>(None),
            Some(Ok(m)) => Ok(Some(m)),
            Some(Err(e)) => Err(e),
        },
{
    match item {
        None => Ok(None),
        Some(Ok(m)) => Ok(Some(m)),
        Some(Err(e)) => Err(e),
    }
}

/// What sending a message amounts to. There is no outcome where the time ran out first.
pub fn sent_in_time(outcome: Option<Result<(), FrameError>>) -> (r: Result<(), SendTimeoutError>)
    ensures
        r == match outcome {
            Some(Ok(())) => Ok::<(), SendTimeoutError>(()),
            Some(Err(FrameError::Codec(e))) => Err(
                if means_closed(e.kind) {
                    SendTimeoutError::Closed
                } else {
                    SendTimeoutError::Io(e)
                },
            ),
            Some(Err(FrameError::Decode(what))) => Err(
                SendTimeoutError::Io(
                    (IoError { kind: IoErrorKind::InvalidData, message: what }),
                ),
            ),
            None => Err(SendTimeoutError::Timeout),
        },
{
    match outcome {
        Some(Ok(())) => Ok(()),
        Some(Err(FrameError::Codec(e))) => Err(send_closed_or_io(e)),
        Some(Err(FrameError::Decode(what))) => Err(
            SendTimeoutError::Io(IoError { kind: IoErrorKind::InvalidData, message: what }),
        ),
        None => Err(SendTimeoutError::Timeout),
    }
}

/// What waiting for a message amounts to. There is no outcome where the time ran out first.
pub fn received_in_time<M>(outcome: Option<Result<Option<M>, FrameError>>) -> (r: Result<
    M,
    RecvTimeoutError,
>)
    ensures
        r == match outcome {
            Some(Ok(Some(m))) => Ok::<M, RecvTimeoutError>(m),
            Some(Ok(None)) => Err(RecvTimeoutError::Closed),
            Some(Err(FrameError::Codec(e))) => Err(
                if means_closed(e.kind) {
                    RecvTimeoutError::Closed
                } else {
                    RecvTimeoutError::Io(e)
                },
            ),
            Some(Err(FrameError::Decode(what))) => Err(
                RecvTimeoutError::Io(
                    (IoError { kind: IoErrorKind::InvalidData, message: what }),
                ),
            ),
            None => Err(RecvTimeoutError::Timeout),
        },
{
    match outcome {
        Some(Ok(Some(m))) => Ok(m),
        Some(Ok(None)) => Err(RecvTimeoutError::Closed),
        Some(Err(FrameError::Codec(e))) => Err(recv_closed_or_io(e)),
        Some(Err(FrameError::Decode(what))) => Err(
            RecvTimeoutError::Io(IoError { kind: IoErrorKind::InvalidData, message: what }),
        ),
        None => Err(RecvTimeoutError::Timeout),
    }
}

/// The other side is gone where the pipe is broken, the connection is reset, aborted or not
/// there, or the stream ends too early; no other error means that.
pub proof fn law_five_errors_mean_closed(kind: IoErrorKind)
    ensures
        means_closed(kind) <==> match kind {
            IoErrorKind::BrokenPipe
            | IoErrorKind::ConnectionReset
            | IoErrorKind::ConnectionAborted
            | IoErrorKind::NotConnected
            | IoErrorKind::UnexpectedEof => true,
            _ => false,
        },
{
}

/// What the errors of a channel say.
pub proof fn law_channel_errors_have_their_words(e: IoError)
    ensures
        SendTimeoutError::Timeout.text() == "send timed out"@,
        SendTimeoutError::Closed.text() == "stream closed"@,
        SendTimeoutError::Io(e).text() == "io error: "@ + e.message@,
        RecvTimeoutError::Timeout.text() == "recv timed out"@,
        RecvTimeoutError::Closed.text() == "stream closed"@,
        RecvTimeoutError::Io(e).text() == "io error: "@ + e.message@,
{
}

/// A message was sent if its sending has ended well in time. Where the time ran out, that is the
/// error; where the other side is gone, the channel is closed; and any other error is kept.
pub proof fn law_sending_ends_as_the_stream_does(
    e: IoError,
    sent: Result<(), SendTimeoutError>,
    late: Result<(), SendTimeoutError>,
    failed: Result<(), SendTimeoutError>,
)
    requires
        call_ensures(sent_in_time, (Some(Ok(())),), sent),
        call_ensures(sent_in_time, (None,), late),
        call_ensures(sent_in_time, (Some(Err(FrameError::Codec(e))),), failed),
    ensures
        sent is Ok,
        late == Err::<(), SendTimeoutError>(SendTimeoutError::Timeout),
        means_closed(e.kind) ==> failed == Err::<(), SendTimeoutError>(SendTimeoutError::Closed),
        !means_closed(e.kind) ==> failed == Err::<(), SendTimeoutError>(SendTimeoutError::Io(e)),
{
}

/// A message that arrived in time is handed over as it is. Where the time ran out, that is the
/// error; where the stream has ended or the other side is gone, the channel is closed; and any
/// other error is kept.
pub proof fn law_receiving_ends_as_the_stream_does<M>(
    m: M,
    e: IoError,
    got: Result<M, RecvTimeoutError>,
    late: Result<M, RecvTimeoutError>,
    ended: Result<M, RecvTimeoutError>,
    failed: Result<M, RecvTimeoutError>,
)
    requires
        call_ensures(received_in_time::<M>, (Some(Ok(Some(m))),), got),
        call_ensures(received_in_time::<M>, (None,), late),
        call_ensures(received_in_time::<M>, (Some(Ok(None)),), ended),
        call_ensures(received_in_time::<M>, (Some(Err(FrameError::Codec(e))),), failed),
    ensures
        got == Ok::<M, RecvTimeoutError>(m),
        late == Err::<M, RecvTimeoutError>(RecvTimeoutError::Timeout),
        ended == Err::<M, RecvTimeoutError>(RecvTimeoutError::Closed),
        means_closed(e.kind) ==> failed == Err::<M, RecvTimeoutError>(RecvTimeoutError::Closed),
        !means_closed(e.kind) ==> failed == Err::<M, RecvTimeoutError>(RecvTimeoutError::Io(e)),
{
}

} // verus!
