//! Frames: a message behind its length.
//!
//! A frame is the length of a message as four bytes, the most significant first, and then the
//! message. Frames follow each other without anything in between, and arrive in pieces.
use vstd::prelude::*;

use crate::io_error::{IoError, IoErrorKind};

verus! {

/// The longest message that a frame may hold.
pub const MAX_FRAME_LENGTH: usize = 65_536;

/// How many bytes the length takes.
pub const LENGTH_FIELD_LENGTH: usize = 4;

/// The number that bytes make up, the most significant first.
pub open spec fn big_endian(bytes: Seq<u8>) -> nat
    decreases bytes.len(),
{
    if bytes.len() == 0 {
        0
    } else {
        big_endian(bytes.drop_last()) * 256 + bytes.last() as nat
    }
}

/// A number as `width` bytes, the most significant first.
pub open spec fn big_endian_bytes(n: nat, width: nat) -> Seq<u8>
    decreases width,
{
    if width == 0 {
        Seq::empty()
    } else {
        big_endian_bytes(n / 256, (width - 1) as nat).push((n % 256) as u8)
    }
}

/// What comes out of a look at the bytes that have arrived.
pub enum Outcome {
    /// The frame is not complete.
    Wait,
    /// The frame is complete.
    Frame(Seq<u8>),
    /// The frame announces a message that is too long.
    TooLong,
}

/// A look at the bytes that have arrived: what comes out, how long the message is for which
/// the length was read but which is not complete, if there is one, and the bytes that are left.
pub struct Step {
    pub outcome: Outcome,
    pub pending: Seq<nat>,
    pub rest: Seq<u8>,
}

/// Waits for a message of `n` bytes.
pub open spec fn take_message(n: nat, buf: Seq<u8>) -> Step {
    if buf.len() < n {
        Step { outcome: Outcome::Wait, pending: seq![n], rest: buf }
    } else {
        Step {
            outcome: Outcome::Frame(buf.take(n as int)),
            pending: Seq::empty(),
            rest: buf.skip(n as int),
        }
    }
}

/// A look at the bytes that have arrived, where lengths take `width` bytes and no message is
/// longer than `limit`.
pub open spec fn look(pending: Seq<nat>, buf: Seq<u8>, width: nat, limit: nat) -> Step {
    if pending.len() > 0 {
        take_message(pending[0], buf)
    } else if buf.len() < width {
        Step { outcome: Outcome::Wait, pending, rest: buf }
    } else if big_endian(buf.take(width as int)) > limit {
        Step { outcome: Outcome::TooLong, pending, rest: buf }
    } else {
        take_message(big_endian(buf.take(width as int)), buf.skip(width as int))
    }
}

/// A message behind its length.
pub open spec fn frame(message: Seq<u8>, width: nat) -> Seq<u8> {
    big_endian_bytes(message.len(), width) + message
}

/// A buffer of bytes that grows at its end and is used up from its start.
#[verifier::external_type_specification]
#[verifier::external_body]
pub struct ExBytesMut(bytes::BytesMut);

/// A codec that puts lengths in front of messages and takes them off again.
#[verifier::external_type_specification]
#[verifier::external_body]
pub struct ExLengthDelimitedCodec(tokio_util::codec::LengthDelimitedCodec);

/// The bytes in a buffer.
pub uninterp spec fn buffer_bytes(buf: bytes::BytesMut) -> Seq<u8>;

/// The length that a codec has read and whose message it still waits for, if there is one.
pub uninterp spec fn codec_pending(codec: tokio_util::codec::LengthDelimitedCodec) -> Seq<nat>;

/// How many bytes a codec's lengths take, and the longest message that it lets through.
pub uninterp spec fn codec_limits(codec: tokio_util::codec::LengthDelimitedCodec) -> Seq<nat>;

/// `BytesMut::len`: how many bytes are in a buffer.
#[verifier::external_body]
fn buffer_len(buf: &bytes::BytesMut) -> (n: usize)
    ensures
        n == buffer_bytes(*buf).len(),
{
    buf.len()
}

/// `LengthDelimitedCodec::builder`, with lengths of `width` bytes, the most significant first,
/// and messages of at most `limit` bytes: a codec that waits for nothing. A limit that the
/// length field cannot hold would be cut down, and a width over eight would panic.
#[verifier::external_body]
fn new_codec(width: usize, limit: usize) -> (codec: tokio_util::codec::LengthDelimitedCodec)
    requires
        4 <= width <= 8,
        limit <= 0xffff_ffff,
    ensures
        codec_pending(codec) == Seq::<nat>::empty(),
        codec_limits(codec) == seq![width as nat, limit as nat],
{
    tokio_util::codec::LengthDelimitedCodec::builder()
        .big_endian()
        .length_field_length(width)
        .max_frame_length(limit)
        .new_codec()
}

/// `LengthDelimitedCodec::encode`: appends the message, behind its length, to the buffer. A
/// message that is too long is refused with the error kind `InvalidInput`, and the buffer stays
/// as it is. Growing a buffer past the address space would panic.
#[verifier::external_body]
fn codec_encode(
    codec: &mut tokio_util::codec::LengthDelimitedCodec,
    message: Vec<u8>,
    buf: &mut bytes::BytesMut,
) -> (r: Result<(), IoError>)
    requires
        codec_limits(*old(codec)).len() == 2,
        message@.len() <= codec_limits(*old(codec))[1] ==> buffer_bytes(*old(buf)).len()
            + codec_limits(*old(codec))[0] + message@.len() <= isize::MAX,
    ensures
        codec_pending(*final(codec)) == codec_pending(*old(codec)),
        codec_limits(*final(codec)) == codec_limits(*old(codec)),
        match r {
            Ok(()) => {
                &&& message@.len() <= codec_limits(*old(codec))[1]
                &&& buffer_bytes(*final(buf)) == buffer_bytes(*old(buf)) + frame(
                    message@,
                    codec_limits(*old(codec))[0],
                )
            },
            Err(e) => {
                &&& message@.len() > codec_limits(*old(codec))[1]
                &&& buffer_bytes(*final(buf)) == buffer_bytes(*old(buf))
                &&& e.kind == IoErrorKind::InvalidInput
                &&& e.message@ == "frame size too big"@
            },
        },
{
    match tokio_util::codec::Encoder::encode(codec, bytes::Bytes::from(message), buf) {
        Ok(()) => Ok(()),
        Err(e) => Err(
            IoError {
                kind: match e.kind() {
                    std::io::ErrorKind::InvalidInput => IoErrorKind::InvalidInput,
                    _ => IoErrorKind::Other,
                },
                message: format!("{e}"),
            },
        ),
    }
}

/// `LengthDelimitedCodec::decode`: a look at the bytes in the buffer. What has been read of a
/// frame leaves the buffer. A message that is too long is refused with the error kind
/// `InvalidData`, and the buffer stays as it is.
#[verifier::external_body]
fn codec_decode(
    codec: &mut tokio_util::codec::LengthDelimitedCodec,
    buf: &mut bytes::BytesMut,
) -> (r: Result<Option<Vec<u8>>, IoError>)
    requires
        codec_limits(*old(codec)).len() == 2,
        codec_limits(*old(codec))[1] <= 0xffff_ffff,
    ensures
        codec_limits(*final(codec)) == codec_limits(*old(codec)),
        ({
            let step = look(
                codec_pending(*old(codec)),
                buffer_bytes(*old(buf)),
                codec_limits(*old(codec))[0],
                codec_limits(*old(codec))[1],
            );
            &&& codec_pending(*final(codec)) == step.pending
            &&& buffer_bytes(*final(buf)) == step.rest
            &&& match r {
                Ok(None) => step.outcome == Outcome::Wait,
                Ok(Some(message)) => step.outcome == Outcome::Frame(message@),
                Err(e) => {
                    &&& step.outcome == Outcome::TooLong
                    &&& e.kind == IoErrorKind::InvalidData
                    &&& e.message@ == "frame size too big"@
                },
            }
        }),
{
    match tokio_util::codec::Decoder::decode(codec, buf) {
        Ok(None) => Ok(None),
        Ok(Some(message)) => Ok(Some(message.to_vec())),
        Err(e) => Err(
            IoError {
                kind: match e.kind() {
                    std::io::ErrorKind::InvalidData => IoErrorKind::InvalidData,
                    _ => IoErrorKind::Other,
                },
                message: format!("{e}"),
            },
        ),
    }
}

/// `LengthDelimitedCodec::decode_eof`: a look at the bytes in the buffer after the last have
/// arrived. Where a frame is not complete and bytes are left, that is an error of the kind
/// `Other`.
#[verifier::external_body]
fn codec_decode_eof(
    codec: &mut tokio_util::codec::LengthDelimitedCodec,
    buf: &mut bytes::BytesMut,
) -> (r: Result<Option<Vec<u8>>, IoError>)
    requires
        codec_limits(*old(codec)).len() == 2,
        codec_limits(*old(codec))[1] <= 0xffff_ffff,
    ensures
        codec_limits(*final(codec)) == codec_limits(*old(codec)),
        ({
            let step = look(
                codec_pending(*old(codec)),
                buffer_bytes(*old(buf)),
                codec_limits(*old(codec))[0],
                codec_limits(*old(codec))[1],
            );
            &&& codec_pending(*final(codec)) == step.pending
            &&& buffer_bytes(*final(buf)) == step.rest
            &&& match r {
                Ok(None) => step.outcome == Outcome::Wait && step.rest.len() == 0,
                Ok(Some(message)) => step.outcome == Outcome::Frame(message@),
                Err(e) => match e.kind {
                    IoErrorKind::InvalidData => {
                        &&& step.outcome == Outcome::TooLong
                        &&& e.message@ == "frame size too big"@
                    },
                    IoErrorKind::Other => {
                        &&& step.outcome == Outcome::Wait
                        &&& step.rest.len() > 0
                        &&& e.message@ == "bytes remaining on stream"@
                    },
                    _ => false,
                },
            }
        }),
{
    match tokio_util::codec::Decoder::decode_eof(codec, buf) {
        Ok(None) => Ok(None),
        Ok(Some(message)) => Ok(Some(message.to_vec())),
        Err(e) => Err(
            IoError {
                kind: match e.kind() {
                    std::io::ErrorKind::InvalidData => IoErrorKind::InvalidData,
                    _ => IoErrorKind::Other,
                },
                message: format!("{e}"),
            },
        ),
    }
}

/// Why a message was not sent or not received: its frame is not in order, or the message in it
/// is not.
#[derive(Debug, Clone, PartialEq, Eq)]
pub enum FrameError {
    Codec(IoError),
    Decode(String),
}

impl FrameError {
    /// The text of the error.
    pub open spec fn text(self) -> Seq<char> {
        match self {
            FrameError::Codec(_) => "codec error"@,
            FrameError::Decode(_) => "decode error"@,
        }
    }

    /// The error in words.
    pub fn message(&self) -> (r: String)
        ensures
            r@ == self.text(),
    {
        match self {
            FrameError::Codec(_) => "codec error".to_string(),
            FrameError::Decode(_) => "decode error".to_string(),
        }
    }
}

/// Whether an error says that a message is too long, and of what kind it is.
pub open spec fn says_too_long(e: FrameError, kind: IoErrorKind) -> bool {
    match e {
        FrameError::Codec(io) => io.kind == kind && io.message@ == "frame size too big"@,
        FrameError::Decode(_) => false,
    }
}

/// Whether an error says that a frame was cut short.
pub open spec fn says_cut_short(e: FrameError) -> bool {
    match e {
        FrameError::Codec(io) => io.kind == IoErrorKind::Other && io.message@
            == "bytes remaining on stream"@,
        FrameError::Decode(_) => false,
    }
}

/// What reading the message of a frame amounts to.
pub open spec fn parsed_as<M, F: FnOnce(Vec<u8>) -> Result<M, String>>(
    parse: F,
    message: Seq<u8>,
    r: Result<Option<M>, FrameError>,
) -> bool {
    exists|bytes: Vec<u8>, res: Result<M, String>|
        {
            &&& bytes@ == message
            &&& #[trigger] call_ensures(parse, (bytes,), res)
            &&& r == match res {
                Ok(m) => Ok::<Option<M>, FrameError>(Some(m)),
                Err(what) => Err(FrameError::Decode(what)),
            }
        }
}

/// Whether a buffer with these bytes can take a message, behind its length: no buffer can hold
/// more bytes than half the address space. One that is too long is not put into it at all.
pub open spec fn has_room(buf: Seq<u8>, message: Seq<u8>) -> bool {
    message.len() <= MAX_FRAME_LENGTH ==> buf.len() + LENGTH_FIELD_LENGTH + message.len()
        <= isize::MAX
}

/// What appending a message amounts to: it stands behind its length at the end of the buffer,
/// or it is too long, and the buffer is as it was.
pub open spec fn appended(
    before: Seq<u8>,
    message: Seq<u8>,
    after: Seq<u8>,
    r: Result<(), FrameError>,
) -> bool {
    match r {
        Ok(()) => {
            &&& message.len() <= MAX_FRAME_LENGTH
            &&& after == before + frame(message, LENGTH_FIELD_LENGTH as nat)
        },
        Err(e) => {
            &&& message.len() > MAX_FRAME_LENGTH
            &&& after == before
            &&& says_too_long(e, IoErrorKind::InvalidInput)
        },
    }
}

/// A codec for messages of one kind. How a message is written and read is up to the caller.
pub struct ProtoCodec {
    inner: tokio_util::codec::LengthDelimitedCodec,
}

impl ProtoCodec {
    /// Whether the codec has the limits of this protocol.
    pub closed spec fn wf(&self) -> bool {
        codec_limits(self.inner) == seq![LENGTH_FIELD_LENGTH as nat, MAX_FRAME_LENGTH as nat]
    }

    /// The length whose message the codec still waits for, if there is one.
    pub closed spec fn pending(&self) -> Seq<nat> {
        codec_pending(self.inner)
    }

    /// A look at the bytes in a buffer.
    pub open spec fn step(&self, buf: bytes::BytesMut) -> Step {
        look(
            self.pending(),
            buffer_bytes(buf),
            LENGTH_FIELD_LENGTH as nat,
            MAX_FRAME_LENGTH as nat,
        )
    }

    /// A codec that waits for nothing.
    pub fn new() -> (codec: ProtoCodec)
        ensures
            codec.wf(),
            codec.pending() == Seq::<nat>::empty(),
    {
        ProtoCodec { inner: new_codec(LENGTH_FIELD_LENGTH, MAX_FRAME_LENGTH) }
    }

    /// Appends a message, behind its length, to a buffer. One that is too long is refused.
    pub fn encode(&mut self, message: Vec<u8>, buf: &mut bytes::BytesMut) -> (r: Result<
        (),
        FrameError,
    >)
        requires
            old(self).wf(),
            has_room(buffer_bytes(*old(buf)), message@),
        ensures
            final(self).wf(),
            final(self).pending() == old(self).pending(),
            appended(buffer_bytes(*old(buf)), message@, buffer_bytes(*final(buf)), r),
    {
        match codec_encode(&mut self.inner, message, buf) {
            Ok(()) => Ok(()),
            Err(e) => Err(FrameError::Codec(e)),
        }
    }

    /// Appends a message, behind its length, to a buffer that may be full: where no room is left
    /// in it, nothing happens, and nothing is returned.
    pub fn try_encode(&mut self, message: Vec<u8>, buf: &mut bytes::BytesMut) -> (r: Option<
        Result<(), FrameError>,
    >)
        requires
            old(self).wf(),
        ensures
            final(self).wf(),
            final(self).pending() == old(self).pending(),
            match r {
                Some(outcome) => {
                    &&& has_room(buffer_bytes(*old(buf)), message@)
                    &&& appended(
                        buffer_bytes(*old(buf)),
                        message@,
                        buffer_bytes(*final(buf)),
                        outcome,
                    )
                },
                None => {
                    &&& !has_room(buffer_bytes(*old(buf)), message@)
                    &&& buffer_bytes(*final(buf)) == buffer_bytes(*old(buf))
                },
            },
    {
        if message.len() <= MAX_FRAME_LENGTH {
            let room: usize = isize::MAX as usize - LENGTH_FIELD_LENGTH - message.len();
            if buffer_len(buf) > room {
                return None;
            }
        }
        Some(self.encode(message, buf))
    }

    /// Takes the next message from a buffer, if it is complete, and reads it with `parse`.
    pub fn decode<M, F: FnOnce(Vec<u8>) -> Result<M, String>>(
        &mut self,
        buf: &mut bytes::BytesMut,
        parse: F,
    ) -> (r: Result<Option<M>, FrameError>)
        requires
            old(self).wf(),
            forall|bytes: Vec<u8>| #[trigger] call_requires(parse, (bytes,)),
        ensures
            final(self).wf(),
            final(self).pending() == old(self).step(*old(buf)).pending,
            buffer_bytes(*final(buf)) == old(self).step(*old(buf)).rest,
            match old(self).step(*old(buf)).outcome {
                Outcome::Wait => r == Ok::<Option<M>, FrameError>(None),
                Outcome::Frame(message) => parsed_as(parse, message, r),
                Outcome::TooLong => match r {
                    Err(e) => says_too_long(e, IoErrorKind::InvalidData),
                    Ok(_) => false,
                },
            },
    {
        match codec_decode(&mut self.inner, buf) {
            Ok(Some(message)) => read_message(message, parse),
            Ok(None) => Ok(None),
            Err(e) => Err(FrameError::Codec(e)),
        }
    }

    /// Takes the next message from a buffer to which nothing will be added. Bytes of a frame
    /// that is not complete are an error.
    pub fn decode_eof<M, F: FnOnce(Vec<u8>) -> Result<M, String>>(
        &mut self,
        buf: &mut bytes::BytesMut,
        parse: F,
    ) -> (r: Result<Option<M>, FrameError>)
        requires
            old(self).wf(),
            forall|bytes: Vec<u8>| #[trigger] call_requires(parse, (bytes,)),
        ensures
            final(self).wf(),
            final(self).pending() == old(self).step(*old(buf)).pending,
            buffer_bytes(*final(buf)) == old(self).step(*old(buf)).rest,
            match old(self).step(*old(buf)).outcome {
                Outcome::Wait => if old(self).step(*old(buf)).rest.len() == 0 {
                    r == Ok::<Option<M>, FrameError>(None)
                } else {
                    match r {
                        Err(e) => says_cut_short(e),
                        Ok(_) => false,
                    }
                },
                Outcome::Frame(message) => parsed_as(parse, message, r),
                Outcome::TooLong => match r {
                    Err(e) => says_too_long(e, IoErrorKind::InvalidData),
                    Ok(_) => false,
                },
            },
    {
        match codec_decode_eof(&mut self.inner, buf) {
            Ok(Some(message)) => read_message(message, parse),
            Ok(None) => Ok(None),
            Err(e) => Err(FrameError::Codec(e)),
        }
    }
}

/// Reads the message of a frame with `parse`.
fn read_message<M, F: FnOnce(Vec<u8>) -> Result<M, String>>(message: Vec<u8>, parse: F) -> (r:
    Result<Option<M>, FrameError>)
    requires
        call_requires(parse, (message,)),
    ensures
        parsed_as(parse, message@, r),
{
    match parse(message) {
        Ok(m) => Ok(Some(m)),
        Err(what) => Err(FrameError::Decode(what)),
    }
}

impl Default for ProtoCodec {
    fn default() -> (codec: ProtoCodec)
        ensures
            codec.wf(),
            codec.pending() == Seq::<nat>::empty(),
    {
        ProtoCodec::new()
    }
}

/// The bytes of a number have the width asked for, and make up the number where it fits.
proof fn lemma_big_endian_inverts(n: nat, width: nat)
    ensures
        big_endian_bytes(n, width).len() == width,
        n < vstd::arithmetic::power2::pow2(8 * width) ==> big_endian(big_endian_bytes(n, width))
            == n,
    decreases width,
{
    vstd::arithmetic::power2::lemma2_to64();
    if width > 0 {
        lemma_big_endian_inverts(n / 256, (width - 1) as nat);
        vstd::arithmetic::power2::lemma_pow2_adds(8, (8 * (width - 1)) as nat);
        let bytes = big_endian_bytes(n, width);
        assert(bytes.drop_last() =~= big_endian_bytes(n / 256, (width - 1) as nat));
        let half = vstd::arithmetic::power2::pow2((8 * (width - 1)) as nat);
        assert(8 + 8 * (width - 1) == 8 * width);
        if n < 256 * half {
            assert(n / 256 < half) by (nonlinear_arith)
                requires
                    n < 256 * half,
            ;
        }
    }
}

/// A message that was put into a frame comes out of it again, whatever follows: after it the
/// next look begins with what follows.
pub proof fn law_frame_gives_message_back(message: Seq<u8>, rest: Seq<u8>)
    requires
        message.len() <= MAX_FRAME_LENGTH,
    ensures
        look(
            Seq::empty(),
            frame(message, LENGTH_FIELD_LENGTH as nat) + rest,
            LENGTH_FIELD_LENGTH as nat,
            MAX_FRAME_LENGTH as nat,
        ) == (Step { outcome: Outcome::Frame(message), pending: Seq::empty(), rest }),
{
    let width = LENGTH_FIELD_LENGTH as nat;
    let head = big_endian_bytes(message.len(), width);
    let buf = frame(message, width) + rest;
    lemma_big_endian_inverts(message.len(), width);
    vstd::arithmetic::power2::lemma2_to64();
    assert(buf.take(width as int) =~= head);
    let tail = buf.skip(width as int);
    assert(tail =~= message + rest);
    assert(tail.take(message.len() as int) =~= message);
    assert(tail.skip(message.len() as int) =~= rest);
}

/// A frame that arrives in two pieces gives nothing with the first, and its message as soon as
/// the second is there.
pub proof fn law_split_frame_comes_together(message: Seq<u8>, at: int)
    requires
        message.len() <= MAX_FRAME_LENGTH,
        0 <= at < frame(message, LENGTH_FIELD_LENGTH as nat).len(),
    ensures
        ({
            let whole = frame(message, LENGTH_FIELD_LENGTH as nat);
            let first = look(
                Seq::empty(),
                whole.take(at),
                LENGTH_FIELD_LENGTH as nat,
                MAX_FRAME_LENGTH as nat,
            );
            &&& first.outcome == Outcome::Wait
            &&& look(
                first.pending,
                first.rest + whole.skip(at),
                LENGTH_FIELD_LENGTH as nat,
                MAX_FRAME_LENGTH as nat,
            ) == (Step {
                outcome: Outcome::Frame(message),
                pending: Seq::empty(),
                rest: Seq::empty(),
            })
        }),
{
    let width = LENGTH_FIELD_LENGTH as nat;
    let whole = frame(message, width);
    let head = big_endian_bytes(message.len(), width);
    lemma_big_endian_inverts(message.len(), width);
    vstd::arithmetic::power2::lemma2_to64();
    let first = look(Seq::empty(), whole.take(at), width, MAX_FRAME_LENGTH as nat);
    if at < width {
        assert(first.rest + whole.skip(at) =~= whole + Seq::<u8>::empty());
        law_frame_gives_message_back(message, Seq::empty());
    } else {
        assert(whole.take(at).take(width as int) =~= head);
        assert(first.rest =~= whole.subrange(width as int, at));
        assert(first.rest + whole.skip(at) =~= message);
        assert(message.take(message.len() as int) =~= message);
        assert(message.skip(message.len() as int) =~= Seq::<u8>::empty());
        assert(first.pending =~= seq![message.len()]);
    }
}

/// The frames of messages, one behind the other.
pub open spec fn frames(messages: Seq<Seq<u8>>) -> Seq<u8>
    decreases messages.len(),
{
    if messages.len() == 0 {
        Seq::empty()
    } else {
        frame(messages[0], LENGTH_FIELD_LENGTH as nat) + frames(messages.drop_first())
    }
}

/// A number of looks, one after the other, at the bytes that have arrived.
pub open spec fn looks(pending: Seq<nat>, buf: Seq<u8>, count: nat) -> Seq<Step>
    decreases count,
{
    if count == 0 {
        Seq::empty()
    } else {
        let first = look(pending, buf, LENGTH_FIELD_LENGTH as nat, MAX_FRAME_LENGTH as nat);
        seq![first] + looks(first.pending, first.rest, (count - 1) as nat)
    }
}

/// Whether no message is too long for a frame.
pub open spec fn all_fit(messages: Seq<Seq<u8>>) -> bool {
    forall|i: int| 0 <= i < messages.len() ==> (#[trigger] messages[i]).len() <= MAX_FRAME_LENGTH
}

/// Frames in a row, however many, give their messages one by one and in order, whatever follows:
/// after the last of them what follows is left.
pub proof fn law_frames_stay_in_order(messages: Seq<Seq<u8>>, rest: Seq<u8>)
    requires
        all_fit(messages),
    ensures
        ({
            let steps = looks(Seq::empty(), frames(messages) + rest, messages.len());
            &&& steps.len() == messages.len()
            &&& forall|i: int|
                0 <= i < messages.len() ==> #[trigger] steps[i] == (Step {
                    outcome: Outcome::Frame(messages[i]),
                    pending: Seq::empty(),
                    rest: frames(messages.skip(i + 1)) + rest,
                })
        }),
    decreases messages.len(),
{
    if messages.len() > 0 {
        let width = LENGTH_FIELD_LENGTH as nat;
        let others = messages.drop_first();
        let buf = frames(messages) + rest;
        let tail = frames(others) + rest;
        assert(buf =~= frame(messages[0], width) + tail);
        law_frame_gives_message_back(messages[0], tail);
        law_frames_stay_in_order(others, rest);
        let steps = looks(Seq::empty(), buf, messages.len());
        let later = looks(Seq::empty(), tail, others.len());
        assert(steps =~= seq![steps[0]] + later);
        assert forall|i: int| 0 <= i < messages.len() implies #[trigger] steps[i] == (Step {
            outcome: Outcome::Frame(messages[i]),
            pending: Seq::empty(),
            rest: frames(messages.skip(i + 1)) + rest,
        }) by {
            if i == 0 {
                assert(messages.skip(1) =~= others);
            } else {
                assert(steps[i] == later[i - 1]);
                assert(others.skip(i) =~= messages.skip(i + 1));
            }
        }
    }
}

/// Looks that follow others take up where those ended.
proof fn lemma_looks_go_on(pending: Seq<nat>, buf: Seq<u8>, count: nat)
    requires
        count > 0,
    ensures
        looks(pending, buf, count).len() == count,
        looks(pending, buf, count + 1) == looks(pending, buf, count).push(
            look(
                looks(pending, buf, count).last().pending,
                looks(pending, buf, count).last().rest,
                LENGTH_FIELD_LENGTH as nat,
                MAX_FRAME_LENGTH as nat,
            ),
        ),
    decreases count,
{
    let first = look(pending, buf, LENGTH_FIELD_LENGTH as nat, MAX_FRAME_LENGTH as nat);
    let before = (count - 1) as nat;
    let later = looks(first.pending, first.rest, before);
    if count == 1 {
        assert(looks(first.pending, first.rest, 0) =~= Seq::<Step>::empty());
        assert(looks(first.pending, first.rest, 1) =~= seq![
            look(
                first.pending,
                first.rest,
                LENGTH_FIELD_LENGTH as nat,
                MAX_FRAME_LENGTH as nat,
            ),
        ]) by {
            reveal_with_fuel(looks, 2);
        }
        assert(looks(pending, buf, 1) =~= seq![first]);
        assert(looks(pending, buf, 2) =~= seq![first] + looks(first.pending, first.rest, 1));
    } else {
        lemma_looks_go_on(first.pending, first.rest, before);
        assert(looks(pending, buf, count) =~= seq![first] + later);
        assert(looks(pending, buf, count).last() == later.last());
        assert(looks(pending, buf, count + 1) =~= seq![first] + looks(
            first.pending,
            first.rest,
            count,
        ));
    }
}

/// Frames in a row, however many, and behind them a frame that is cut off: the messages come one
/// by one and in order, then nothing comes, and when the rest of the last frame is there, its
/// message does.
pub proof fn law_cut_frame_is_waited_for(messages: Seq<Seq<u8>>, last: Seq<u8>, at: int)
    requires
        all_fit(messages),
        last.len() <= MAX_FRAME_LENGTH,
        0 <= at < frame(last, LENGTH_FIELD_LENGTH as nat).len(),
    ensures
        ({
            let whole = frame(last, LENGTH_FIELD_LENGTH as nat);
            let steps = looks(
                Seq::empty(),
                frames(messages) + whole.take(at),
                messages.len() + 1,
            );
            let end = steps[messages.len() as int];
            &&& steps.len() == messages.len() + 1
            &&& forall|i: int|
                0 <= i < messages.len() ==> (#[trigger] steps[i]).outcome == Outcome::Frame(
                    messages[i],
                )
            &&& end.outcome == Outcome::Wait
            &&& look(
                end.pending,
                end.rest + whole.skip(at),
                LENGTH_FIELD_LENGTH as nat,
                MAX_FRAME_LENGTH as nat,
            ) == (Step {
                outcome: Outcome::Frame(last),
                pending: Seq::empty(),
                rest: Seq::empty(),
            })
        }),
{
    let cut = frame(last, LENGTH_FIELD_LENGTH as nat).take(at);
    let buf = frames(messages) + cut;
    let count = messages.len();
    law_split_frame_comes_together(last, at);
    if count == 0 {
        assert(buf =~= cut);
        let first = look(Seq::empty(), cut, LENGTH_FIELD_LENGTH as nat, MAX_FRAME_LENGTH as nat);
        assert(looks(first.pending, first.rest, 0) =~= Seq::<Step>::empty());
        assert(looks(Seq::empty(), buf, 1) =~= seq![first]);
    } else {
        law_frames_stay_in_order(messages, cut);
        lemma_looks_go_on(Seq::empty(), buf, count);
        let done = looks(Seq::empty(), buf, count);
        assert(done.last() == done[count - 1]);
        assert(messages.skip(count as int) =~= Seq::<Seq<u8>>::empty());
        assert(frames(messages.skip(count as int)) + cut =~= cut);
    }
}

/// A frame is the length of its message in four bytes, the most significant first, and behind
/// them the message as it is.
pub proof fn law_frame_is_length_and_message(message: Seq<u8>)
    requires
        message.len() < 0x1_0000_0000,
    ensures
        LENGTH_FIELD_LENGTH == 4,
        MAX_FRAME_LENGTH == 65536,
        ({
            let f = frame(message, 4);
            &&& f.len() == 4 + message.len()
            &&& f[0] * 0x100_0000 + f[1] * 0x1_0000 + f[2] * 0x100 + f[3] == message.len()
            &&& f.skip(4) == message
        }),
{
    let n = message.len();
    let f = frame(message, 4);
    reveal_with_fuel(big_endian_bytes, 5);
    lemma_big_endian_inverts(n, 4);
    assert(f.skip(4) =~= message);
    assert(f[0] == n / 256 / 256 / 256 % 256);
    assert(f[1] == n / 256 / 256 % 256);
    assert(f[2] == n / 256 % 256);
    assert(f[3] == n % 256);
}

/// What a look at the bytes makes of them where no length was read before: with fewer than four
/// bytes it waits and leaves them; where they announce a message that is too long it says so and
/// leaves them; where the message is not complete it keeps the length and the bytes behind it;
/// and otherwise it takes the message out, and leaves what is behind it.
pub proof fn law_look_goes_by_the_length(b: Seq<u8>)
    ensures
        b.len() < 4 ==> look(Seq::empty(), b, 4, 65536) == (Step {
            outcome: Outcome::Wait,
            pending: Seq::empty(),
            rest: b,
        }),
        b.len() >= 4 ==> {
            let n = b[0] * 0x100_0000 + b[1] * 0x1_0000 + b[2] * 0x100 + b[3];
            let step = look(Seq::empty(), b, 4, 65536);
            &&& n > 65536 ==> step == (Step {
                outcome: Outcome::TooLong,
                pending: Seq::empty(),
                rest: b,
            })
            &&& n <= 65536 && b.len() < 4 + n ==> step == (Step {
                outcome: Outcome::Wait,
                pending: seq![n as nat],
                rest: b.skip(4),
            })
            &&& n <= 65536 && b.len() >= 4 + n ==> step == (Step {
                outcome: Outcome::Frame(b.subrange(4, 4 + n)),
                pending: Seq::empty(),
                rest: b.skip(4 + n),
            })
        },
{
    if b.len() >= 4 {
        let h = b.take(4);
        reveal_with_fuel(big_endian, 5);
        assert(h.drop_last().drop_last().drop_last().drop_last() =~= Seq::<u8>::empty());
        assert(h.drop_last().drop_last().drop_last().last() == b[0]);
        assert(h.drop_last().drop_last().last() == b[1]);
        assert(h.drop_last().last() == b[2]);
        assert(h.last() == b[3]);
        let n = b[0] * 0x100_0000 + b[1] * 0x1_0000 + b[2] * 0x100 + b[3];
        assert(big_endian(h) == n);
        if n <= 65536 && b.len() >= 4 + n {
            assert(b.skip(4).take(n) =~= b.subrange(4, 4 + n));
            assert(b.skip(4).skip(n) =~= b.skip(4 + n));
        }
    }
}

/// Where a length was read before, a look waits until that many bytes are there, and then takes
/// them out.
pub proof fn law_look_goes_on_from_a_length(n: nat, b: Seq<u8>)
    ensures
        b.len() < n ==> look(seq![n], b, 4, 65536) == (Step {
            outcome: Outcome::Wait,
            pending: seq![n],
            rest: b,
        }),
        b.len() >= n ==> look(seq![n], b, 4, 65536) == (Step {
            outcome: Outcome::Frame(b.take(n as int)),
            pending: Seq::empty(),
            rest: b.skip(n as int),
        }),
{
}

/// A codec's look is one with lengths of four bytes and messages of at most 65536.
pub proof fn law_codec_looks_with_its_limits(codec: ProtoCodec, buf: bytes::BytesMut)
    ensures
        codec.step(buf) == look(codec.pending(), buffer_bytes(buf), 4, 65536),
{
}

/// A message is appended if and only if it has at most 65536 bytes; one that has more changes
/// nothing. Whether there is room for it matters only where it is appended.
pub proof fn law_only_long_messages_are_refused(
    before: Seq<u8>,
    message: Seq<u8>,
    after: Seq<u8>,
    r: Result<(), FrameError>,
)
    requires
        appended(before, message, after, r),
    ensures
        r is Ok <==> message.len() <= 65536,
        r is Ok ==> after == before + frame(message, 4),
        match r {
            Ok(()) => true,
            Err(FrameError::Codec(io)) => after == before && io.kind == IoErrorKind::InvalidInput
                && io.message@ == "frame size too big"@,
            Err(FrameError::Decode(_)) => false,
        },
{
}

/// There is room for a message that is too long to be appended, and for any other as long as the
/// buffer, its length and itself come to no more than a buffer can hold.
pub proof fn law_room_is_counted_in_bytes(before: Seq<u8>, message: Seq<u8>)
    ensures
        message.len() > 65536 ==> has_room(before, message),
        message.len() <= 65536 ==> (has_room(before, message) <==> before.len() + 4
            + message.len() <= isize::MAX),
{
}

/// What is read of a frame is what its message reads as: there is a message whenever it reads,
/// and the error tells why it does not.
pub proof fn law_frame_reads_as_its_message<M, F: FnOnce(Vec<u8>) -> Result<M, String>>(
    parse: F,
    message: Seq<u8>,
    r: Result<Option<M>, FrameError>,
) -> (bytes: Vec<u8>)
    requires
        parsed_as(parse, message, r),
    ensures
        bytes@ == message,
        match r {
            Ok(Some(m)) => call_ensures(parse, (bytes,), Ok(m)),
            Ok(None) => false,
            Err(FrameError::Decode(what)) => call_ensures(parse, (bytes,), Err(what)),
            Err(FrameError::Codec(_)) => false,
        },
{
    let (bytes, res) = choose|bytes: Vec<u8>, res: Result<M, String>|
        {
            &&& bytes@ == message
            &&& #[trigger] call_ensures(parse, (bytes,), res)
            &&& r == match res {
                Ok(m) => Ok::<Option<M>, FrameError>(Some(m)),
                Err(what) => Err(FrameError::Decode(what)),
            }
        };
    bytes
}

/// What the errors of a frame say.
pub proof fn law_frame_errors_have_their_words(e: FrameError, kind: IoErrorKind)
    ensures
        e is Codec ==> e.text() == "codec error"@,
        e is Decode ==> e.text() == "decode error"@,
        says_too_long(e, kind) ==> (e matches FrameError::Codec(io) && io.kind == kind
            && io.message@ == "frame size too big"@),
        says_cut_short(e) ==> (e matches FrameError::Codec(io) && io.kind == IoErrorKind::Other
            && io.message@ == "bytes remaining on stream"@),
{
}

} // verus!
