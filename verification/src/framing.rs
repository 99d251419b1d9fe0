//! Frames on the wire: four bytes that give the payload's length, most
//! significant byte first, and then the payload.

use crate::error::CodecError;
use vstd::prelude::*;

verus! {

/// The longest payload that a frame may carry, in bytes.
pub const MAX_MESSAGE_SIZE: usize = 4194304;

/// The number of bytes in a length prefix.
pub const PREFIX_SIZE: usize = 4;

/// The number that four bytes stand for, most significant byte first.
pub open spec fn prefix_value(prefix: Seq<u8>) -> nat
    recommends
        prefix.len() == 4,
{
    (prefix[0] as nat) * 16777216 + (prefix[1] as nat) * 65536 + (prefix[2] as nat) * 256 + (
    prefix[3] as nat)
}

/// The four bytes that stand for a number below 2^32, most significant first.
pub open spec fn prefix_of(len: nat) -> Seq<u8>
    recommends
        len < 4294967296,
{
    seq![
        (len / 16777216) as u8,
        ((len / 65536) % 256) as u8,
        ((len / 256) % 256) as u8,
        (len % 256) as u8,
    ]
}

/// The frame that carries a payload.
pub open spec fn frame(payload: Seq<u8>) -> Seq<u8> {
    prefix_of(payload.len()) + payload
}

/// What reading one frame from the front of some bytes comes to.
pub ghost enum FrameRead {
    /// The bytes end within the prefix, or within the payload that the prefix
    /// announces. `rest` is what is left unread.
    Truncated { rest: Seq<u8> },
    /// The prefix announces more than a frame may carry. Only the prefix was
    /// read.
    TooLarge { rest: Seq<u8> },
    /// A whole frame was read.
    Complete { payload: Seq<u8>, rest: Seq<u8> },
}

/// Reads one frame from the front of `input`.
///
/// Fewer than four bytes are left alone. Otherwise the prefix is read; where
/// it announces more than [`MAX_MESSAGE_SIZE`], or more than is there, nothing
/// is read beyond it.
pub open spec fn read_frame_spec(input: Seq<u8>) -> FrameRead {
    if input.len() < 4 {
        FrameRead::Truncated { rest: input }
    } else {
        let len = prefix_value(input.take(4));
        let body = input.skip(4);
        if len > MAX_MESSAGE_SIZE {
            FrameRead::TooLarge { rest: body }
        } else if body.len() < len {
            FrameRead::Truncated { rest: body }
        } else {
            FrameRead::Complete { payload: body.take(len as int), rest: body.skip(len as int) }
        }
    }
}

/// A length prefix stands for the number it was made from.
pub proof fn lemma_prefix_round_trip(len: nat)
    requires
        len < 4294967296,
    ensures
        prefix_of(len).len() == 4,
        prefix_value(prefix_of(len)) == len,
{
}

/// Reading a written frame gives the payload back, and leaves what follows
/// the frame: a payload of any length up to [`MAX_MESSAGE_SIZE`], the empty
/// one too.
pub proof fn lemma_frame_round_trip(payload: Seq<u8>, rest: Seq<u8>)
    requires
        payload.len() <= MAX_MESSAGE_SIZE,
    ensures
        read_frame_spec(frame(payload) + rest) == (FrameRead::Complete { payload, rest }),
{
    let input = frame(payload) + rest;
    lemma_prefix_round_trip(payload.len());
    assert(input.take(4) =~= prefix_of(payload.len()));
    assert(input.skip(4) =~= payload + rest);
    assert((payload + rest).take(payload.len() as int) =~= payload);
    assert((payload + rest).skip(payload.len() as int) =~= rest);
}

/// A prefix that announces more than a frame may carry is refused whatever
/// follows it, and nothing that follows it is read.
pub proof fn lemma_oversized_is_refused(prefix: Seq<u8>, rest: Seq<u8>)
    requires
        prefix.len() == 4,
        prefix_value(prefix) > MAX_MESSAGE_SIZE,
    ensures
        read_frame_spec(prefix + rest) == (FrameRead::TooLarge { rest }),
{
    assert((prefix + rest).take(4) =~= prefix);
    assert((prefix + rest).skip(4) =~= rest);
}

/// The payload length that a prefix announces, unless it is more than a frame
/// may carry.
pub fn read_length(prefix: &[u8; 4]) -> (r: Result<usize, CodecError>)
    ensures
        r == if prefix_value(prefix@) > MAX_MESSAGE_SIZE {
            Err::<usize, CodecError>(CodecError::MessageTooLarge)
        } else {
            Ok::<usize, CodecError>(prefix_value(prefix@) as usize)
        },
{
    let b0: u64 = prefix[0] as u64;
    let b1: u64 = prefix[1] as u64;
    let b2: u64 = prefix[2] as u64;
    let b3: u64 = prefix[3] as u64;
    let len: u64 = b0 * 16777216 + b1 * 65536 + b2 * 256 + b3;
    if len > MAX_MESSAGE_SIZE as u64 {
        Err(CodecError::MessageTooLarge)
    } else {
        Ok(len as usize)
    }
}

/// The prefix that announces a payload of `len` bytes, unless that is more
/// than a frame may carry.
pub fn write_length(len: usize) -> (r: Result<[u8; 4], CodecError>)
    ensures
        match r {
            Ok(prefix) => len <= MAX_MESSAGE_SIZE && prefix@ == prefix_of(len as nat),
            Err(e) => len > MAX_MESSAGE_SIZE && e == CodecError::MessageTooLarge,
        },
{
    if len > MAX_MESSAGE_SIZE {
        return Err(CodecError::MessageTooLarge);
    }
    let prefix: [u8; 4] = [
        (len / 16777216) as u8,
        ((len / 65536) % 256) as u8,
        ((len / 256) % 256) as u8,
        (len % 256) as u8,
    ];
    proof {
        assert(prefix@ =~= prefix_of(len as nat));
    }
    Ok(prefix)
}

/// Bytes to read frames from, front first.
pub struct Reader {
    bytes: Vec<u8>,
    position: usize,
}

impl View for Reader {
    type V = Seq<u8>;

    /// The bytes that were not read yet.
    closed spec fn view(&self) -> Seq<u8> {
        self.bytes@.skip(self.position as int)
    }
}

impl Reader {
    #[verifier::type_invariant]
    spec fn within(self) -> bool {
        self.position <= self.bytes.len()
    }

    /// A reader of the bytes, with none of them read.
    pub fn new(bytes: Vec<u8>) -> (reader: Self)
        ensures
            reader@ == bytes@,
    {
        let reader = Reader { bytes, position: 0 };
        proof {
            assert(reader@ =~= bytes@);
        }
        reader
    }

    /// How many bytes were not read yet.
    pub fn remaining(&self) -> (n: usize)
        ensures
            n == self@.len(),
    {
        proof {
            use_type_invariant(self);
        }
        self.bytes.len() - self.position
    }

    /// Reads the next `n` bytes. Where fewer are left, none is read.
    pub fn read_exact(&mut self, n: usize) -> (r: Result<Vec<u8>, CodecError>)
        ensures
            match r {
                Ok(out) => {
                    &&& n <= old(self)@.len()
                    &&& out@ == old(self)@.take(n as int)
                    &&& final(self)@ == old(self)@.skip(n as int)
                },
                Err(e) => {
                    &&& n > old(self)@.len()
                    &&& e == CodecError::Io
                    &&& final(self)@ == old(self)@
                },
            },
    {
        proof {
            use_type_invariant(&*self);
        }
        if n > self.bytes.len() - self.position {
            return Err(CodecError::Io);
        }
        let mut out: Vec<u8> = Vec::new();
        let start: usize = self.position;
        let mut i: usize = 0;
        while i < n
            invariant
                i <= n,
                start + n <= self.bytes.len(),
                out@ == self.bytes@.subrange(start as int, start + i),
            decreases n - i,
        {
            out.push(self.bytes[start + i]);
            proof {
                assert(self.bytes@.subrange(start as int, start + i + 1)
                    =~= self.bytes@.subrange(start as int, start + i).push(
                    self.bytes@[start + i],
                ));
            }
            i = i + 1;
        }
        self.position = start + n;
        proof {
            assert(out@ =~= old(self)@.take(n as int));
            assert(self@ =~= old(self)@.skip(n as int));
        }
        Ok(out)
    }
}

/// Reads one frame and returns its payload.
pub fn read_frame(reader: &mut Reader) -> (r: Result<Vec<u8>, CodecError>)
    ensures
        match read_frame_spec(old(reader)@) {
            FrameRead::Truncated { rest } => r == Err::<Vec<u8>, CodecError>(CodecError::Io)
                && final(reader)@ == rest,
            FrameRead::TooLarge { rest } => r == Err::<Vec<u8>, CodecError>(
                CodecError::MessageTooLarge,
            ) && final(reader)@ == rest,
            FrameRead::Complete { payload, rest } => r matches Ok(bytes) && bytes@ == payload
                && final(reader)@ == rest,
        },
{
    let head = match reader.read_exact(PREFIX_SIZE) {
        Ok(head) => head,
        Err(e) => {
            return Err(e);
        },
    };
    let prefix: [u8; 4] = [head[0], head[1], head[2], head[3]];
    proof {
        assert(prefix@ =~= old(reader)@.take(4));
    }
    let len = match read_length(&prefix) {
        Ok(len) => len,
        Err(e) => {
            return Err(e);
        },
    };
    reader.read_exact(len)
}

/// Writes the frame that carries the payload, unless the payload is longer
/// than a frame may carry: then nothing is written.
pub fn write_frame(writer: &mut Vec<u8>, payload: &[u8]) -> (r: Result<(), CodecError>)
    ensures
        match r {
            Ok(_) => payload@.len() <= MAX_MESSAGE_SIZE && final(writer)@ == old(writer)@ + frame(
                payload@,
            ),
            Err(e) => payload@.len() > MAX_MESSAGE_SIZE && e == CodecError::MessageTooLarge
                && final(writer)@ == old(writer)@,
        },
{
    let prefix = match write_length(payload.len()) {
        Ok(prefix) => prefix,
        Err(e) => {
            return Err(e);
        },
    };
    let mut i: usize = 0;
    while i < 4
        invariant
            i <= 4,
            writer@ == old(writer)@ + prefix@.take(i as int),
        decreases 4 - i,
    {
        writer.push(prefix[i]);
        proof {
            assert(prefix@.take(i + 1) =~= prefix@.take(i as int).push(prefix@[i as int]));
            assert(old(writer)@ + prefix@.take(i + 1) =~= (old(writer)@ + prefix@.take(
                i as int,
            )).push(prefix@[i as int]));
        }
        i = i + 1;
    }
    let mut j: usize = 0;
    while j < payload.len()
        invariant
            j <= payload.len(),
            writer@ == old(writer)@ + prefix@ + payload@.take(j as int),
        decreases payload.len() - j,
    {
        writer.push(payload[j]);
        proof {
            assert(old(writer)@ + prefix@ + payload@.take(j + 1) =~= (old(writer)@ + prefix@
                + payload@.take(j as int)).push(payload@[j as int]));
        }
        j = j + 1;
    }
    proof {
        assert(old(writer)@ + prefix@ + payload@.take(payload.len() as int) =~= old(writer)@
            + frame(payload@));
    }
    Ok(())
}

/// The outcome of decoding a payload of `len` bytes, given what the decoder
/// came back with: a message and the number of bytes it read, or a failure.
///
/// A failure of the decoder means that the payload is no encoding. A message
/// counts only where the decoder read the whole payload.
pub fn decode_result<T, E>(outcome: Result<(T, usize), E>, len: usize) -> (r: Result<T, CodecError>)
    ensures
        r == match outcome {
            Ok((message, consumed)) => if consumed == len {
                Ok::<T, CodecError>(message)
            } else {
                Err::<T, CodecError>(CodecError::BytesRemaining)
            },
            Err(_) => Err::<T, CodecError>(CodecError::InvalidPayload),
        },
{
    match outcome {
        Ok((message, consumed)) => if consumed == len {
            Ok(message)
        } else {
            Err(CodecError::BytesRemaining)
        },
        Err(_) => Err(CodecError::InvalidPayload),
    }
}

/// The outcome of encoding a message, given what the encoder came back with:
/// the payload, unless the encoder failed or the payload is longer than a
/// frame may carry.
pub fn encode_result<E>(outcome: Result<Vec<u8>, E>) -> (r: Result<Vec<u8>, CodecError>)
    ensures
        r == match outcome {
            Ok(payload) => if payload@.len() > MAX_MESSAGE_SIZE {
                Err::<Vec<u8>, CodecError>(CodecError::MessageTooLarge)
            } else {
                Ok::<Vec<u8>, CodecError>(payload)
            },
            Err(_) => Err::<Vec<u8>, CodecError>(CodecError::Unencodable),
        },
{
    match outcome {
        Ok(payload) => if payload.len() > MAX_MESSAGE_SIZE {
            Err(CodecError::MessageTooLarge)
        } else {
            Ok(payload)
        },
        Err(_) => Err(CodecError::Unencodable),
    }
}

} // verus!
