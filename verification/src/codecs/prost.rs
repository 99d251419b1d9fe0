//! A codec that encodes messages with `prost`, as tagged fields.

use crate::codec::{decode_outcome, encode_outcome};
use crate::error::CodecError;
use crate::framing::{encode_result, frame, read_frame, write_frame, Reader};
use std::marker::PhantomData;
use vstd::prelude::*;

verus! {

/// `prost::DecodeError`, the reason for which bytes are no encoding.
#[verifier::external_type_specification]
#[verifier::external_body]
pub struct ExDecodeError(::prost::DecodeError);

/// `prost::Message::decode` on a slice: a message decoded from the front of
/// `src` and the number of bytes of `src` that were left unread, which is no
/// more than `src` holds; or the reason why there is none. Which message
/// comes back is up to the `Message` impl of the type.
#[verifier::external_body]
fn decode<T: ::prost::Message + Default>(src: &[u8]) -> (r: Result<(T, usize), ::prost::DecodeError>)
    ensures
        r matches Ok((_, left)) ==> left <= src@.len(),
{
    let mut slice = src;
    let message = T::decode(&mut slice)?;
    Ok((message, slice.len()))
}

/// `prost::Message::encode_to_vec`: the encoding of the message. Which bytes
/// come back is up to the `Message` impl of the type.
#[verifier::external_body]
fn encode_to_vec<T: ::prost::Message>(message: &T) -> (payload: Vec<u8>) {
    message.encode_to_vec()
}

/// The outcome of decoding a payload, given what the decoder came back with:
/// a message and the number of bytes it left unread, or a failure.
///
/// A failure of the decoder means that the payload is no encoding. A message
/// counts only where the decoder left nothing unread.
pub fn decode_result<T, E>(outcome: Result<(T, usize), E>) -> (r: Result<T, CodecError>)
    ensures
        r == match outcome {
            Ok((message, left)) => if left == 0 {
                Ok::<T, CodecError>(message)
            } else {
                Err::<T, CodecError>(CodecError::BytesRemaining)
            },
            Err(_) => Err::<T, CodecError>(CodecError::InvalidPayload),
        },
{
    match outcome {
        Ok((message, left)) => if left == 0 {
            Ok(message)
        } else {
            Err(CodecError::BytesRemaining)
        },
        Err(_) => Err(CodecError::InvalidPayload),
    }
}

/// The codec for messages of type `TMsg`.
pub struct ProstCodec<TMsg>(pub PhantomData<TMsg>);

impl<TMsg> Default for ProstCodec<TMsg> {
    fn default() -> (codec: Self)
        ensures
            codec == ProstCodec::<TMsg>(PhantomData),
    {
        Self(PhantomData)
    }
}

impl<TMsg> Clone for ProstCodec<TMsg> {
    /// A codec keeps no state, so every copy is the same codec.
    fn clone(&self) -> (codec: Self)
        ensures
            codec == *self,
    {
        Self(PhantomData)
    }
}

impl<TMsg: ::prost::Message + Default> ProstCodec<TMsg> {
    /// Decodes the message that a frame's payload holds. The payload must hold
    /// the message and nothing behind it.
    pub fn decode_payload(&self, payload: &[u8]) -> (r: Result<TMsg, CodecError>)
        ensures
            r is Ok || r == Err::<TMsg, CodecError>(CodecError::InvalidPayload) || r == Err::<
                TMsg,
                CodecError,
            >(CodecError::BytesRemaining),
    {
        decode_result(decode::<TMsg>(payload))
    }

    /// Encodes the message as a payload that a frame may carry.
    pub fn encode_payload(&self, message: TMsg) -> (r: Result<Vec<u8>, CodecError>)
        ensures
            match r {
                Ok(payload) => payload@.len() <= crate::framing::MAX_MESSAGE_SIZE,
                Err(e) => e == CodecError::MessageTooLarge,
            },
    {
        encode_result(Ok::<Vec<u8>, ()>(encode_to_vec(&message)))
    }

    /// Reads one frame and decodes the message in it.
    pub fn decode_from(&mut self, reader: &mut Reader) -> (r: Result<TMsg, CodecError>)
        ensures
            decode_outcome(old(reader)@, final(reader)@, r),
    {
        match read_frame(reader) {
            Ok(payload) => self.decode_payload(payload.as_slice()),
            Err(e) => Err(e),
        }
    }

    /// Encodes the message and writes the frame that carries it.
    pub fn encode_to(&mut self, writer: &mut Vec<u8>, message: TMsg) -> (r: Result<(), CodecError>)
        ensures
            encode_outcome(old(writer)@, final(writer)@, r),
    {
        match self.encode_payload(message) {
            Ok(payload) => {
                let written = write_frame(writer, payload.as_slice());
                proof {
                    assert(writer@.skip(old(writer)@.len() as int) =~= frame(payload@));
                }
                written
            },
            Err(e) => Err(e),
        }
    }
}

} // verus!
