//! A codec that encodes messages with `bincode`, by the schema that the
//! message type itself lays down.

use crate::codec::{decode_outcome, encode_outcome};
use crate::error::CodecError;
use crate::framing::{decode_result, encode_result, frame, read_frame, write_frame, Reader};
use std::marker::PhantomData;
use vstd::prelude::*;

verus! {

/// `bincode::error::DecodeError`, the reason for which bytes are no encoding.
#[verifier::external_type_specification]
#[verifier::external_body]
pub struct ExDecodeError(::bincode::error::DecodeError);

/// `bincode::error::EncodeError`, the reason for which a value has no encoding.
#[verifier::external_type_specification]
#[verifier::external_body]
pub struct ExEncodeError(::bincode::error::EncodeError);

/// `bincode::decode_from_slice` under `bincode::config::standard`: a value
/// decoded from the front of `src` and the number of bytes that were read for
/// it, which is no more than `src` holds; or the reason why there is none.
/// Which value comes back is up to the `Decode` impl of the type.
#[verifier::external_body]
fn decode_from_slice<T: ::bincode::Decode<()>>(src: &[u8]) -> (r: Result<
    (T, usize),
    ::bincode::error::DecodeError,
>)
    ensures
        r matches Ok((_, read)) ==> read <= src@.len(),
{
    ::bincode::decode_from_slice(src, ::bincode::config::standard())
}

/// `bincode::encode_to_vec` under `bincode::config::standard`: the encoding of
/// the value, or the reason why it has none. Which bytes come back is up to
/// the `Encode` impl of the type.
#[verifier::external_body]
fn encode_to_vec<T: ::bincode::Encode>(message: T) -> (r: Result<
    Vec<u8>,
    ::bincode::error::EncodeError,
>) {
    ::bincode::encode_to_vec(message, ::bincode::config::standard())
}

/// The codec for messages of type `TMsg`.
pub struct BincodeCodec<TMsg>(pub PhantomData<TMsg>);

impl<TMsg> Default for BincodeCodec<TMsg> {
    fn default() -> (codec: Self)
        ensures
            codec == BincodeCodec::<TMsg>(PhantomData),
    {
        Self(PhantomData)
    }
}

impl<TMsg> Clone for BincodeCodec<TMsg> {
    /// A codec keeps no state, so every copy is the same codec.
    fn clone(&self) -> (codec: Self)
        ensures
            codec == *self,
    {
        Self(PhantomData)
    }
}

impl<TMsg: ::bincode::Decode<()> + ::bincode::Encode> BincodeCodec<TMsg> {
    /// Decodes the message that a frame's payload holds. The payload must hold
    /// the message and nothing behind it.
    pub fn decode_payload(&self, payload: &[u8]) -> (r: Result<TMsg, CodecError>)
        ensures
            r is Ok || r == Err::<TMsg, CodecError>(CodecError::InvalidPayload) || r == Err::<
                TMsg,
                CodecError,
            >(CodecError::BytesRemaining),
    {
        decode_result(decode_from_slice::<TMsg>(payload), payload.len())
    }

    /// Encodes the message as a payload that a frame may carry.
    pub fn encode_payload(&self, message: TMsg) -> (r: Result<Vec<u8>, CodecError>)
        ensures
            match r {
                Ok(payload) => payload@.len() <= crate::framing::MAX_MESSAGE_SIZE,
                Err(e) => e == CodecError::MessageTooLarge || e == CodecError::Unencodable,
            },
    {
        encode_result(encode_to_vec(message))
    }

    /// Reads one frame and decodes the message in it.
    pub fn decode_from(&mut self, reader: &mut Reader) -> (r: Result<TMsg, CodecError>)
        ensures
            decode_outcome(old(reader)@, final(reader)@, r),
    {
        match read_frame(reader) {
            Ok(payload) => self.decode_payload(payload.as_slice()),
            Err(e) => Err(e),
        }
    }

    /// Encodes the message and writes the frame that carries it.
    pub fn encode_to(&mut self, writer: &mut Vec<u8>, message: TMsg) -> (r: Result<(), CodecError>)
        ensures
            encode_outcome(old(writer)@, final(writer)@, r),
    {
        match self.encode_payload(message) {
            Ok(payload) => {
                let written = write_frame(writer, payload.as_slice());
                proof {
                    assert(writer@.skip(old(writer)@.len() as int) =~= frame(payload@));
                }
                written
            },
            Err(e) => Err(e),
        }
    }
}

} // verus!
