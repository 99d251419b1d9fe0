//! What every wire codec does: it reads one message from a stream of frames,
//! and writes one message as a frame. The codecs differ in how a payload
//! stands for a message, and in nothing else.

use crate::error::CodecError;
use crate::framing::{frame, read_frame_spec, FrameRead, MAX_MESSAGE_SIZE};
use vstd::prelude::*;

verus! {

/// Whether `r`, with `rest` left unread, is a way in which decoding one
/// message from `input` may end.
///
/// Bytes that end within a frame are a failure of the stream. A prefix that
/// announces too much is refused after the prefix alone was read. Where a
/// whole frame is there, it is read and no more; its payload gives a message,
/// or is no encoding of one, or is longer than the message in it.
pub open spec fn decode_outcome<T>(input: Seq<u8>, rest: Seq<u8>, r: Result<T, CodecError>) -> bool {
    match read_frame_spec(input) {
        FrameRead::Truncated { rest: left } => r == Err::<T, CodecError>(CodecError::Io) && rest
            == left,
        FrameRead::TooLarge { rest: left } => r == Err::<T, CodecError>(
            CodecError::MessageTooLarge,
        ) && rest == left,
        FrameRead::Complete { payload: _, rest: left } => {
            &&& rest == left
            &&& (r is Ok || r == Err::<T, CodecError>(CodecError::InvalidPayload) || r == Err::<
                T,
                CodecError,
            >(CodecError::BytesRemaining))
        },
    }
}

/// Whether `r`, with `after` written, is a way in which encoding one message
/// behind `before` may end.
///
/// On success one frame was added, with a payload that a frame may carry. On
/// failure nothing was written: the message has no encoding, or one that is
/// too long.
pub open spec fn encode_outcome(before: Seq<u8>, after: Seq<u8>, r: Result<(), CodecError>) -> bool {
    match r {
        Ok(_) => exists|payload: Seq<u8>| #[trigger]
            frame(payload) == after.skip(before.len() as int) && payload.len() <= MAX_MESSAGE_SIZE
                && after == before + frame(payload),
        Err(e) => after == before && (e == CodecError::MessageTooLarge || e
            == CodecError::Unencodable),
    }
}

} // verus!
