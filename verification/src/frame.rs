//! Encoding and decoding of the length-prefixed wire frame that carries
//! every message of the vendor channel: a 4-byte magic word, a 4-byte
//! little-endian payload length, then the payload itself.

use vstd::prelude::*;
use vstd::bytes::{spec_u32_from_le_bytes, spec_u32_to_le_bytes, u32_from_le_bytes, u32_to_le_bytes, lemma_auto_spec_u32_to_from_le_bytes};
use vstd::slice::slice_subrange;

verus! {

/// Sentinel marking the start of a frame on the wire.
pub const MAGIC_WORD: u32 = 0xE59DECC0;

/// Bytes taken by the magic word and the payload length together.
pub const HEADER_SIZE: usize = 8;

/// Largest payload a frame may carry.
pub const MAX_PAYLOAD_LENGTH: usize = 4096;

/// Why a byte string could not be framed or deframed.
#[derive(Debug, Clone, PartialEq, Eq, Structural)]
pub enum FrameError {
    /// Fewer bytes than a header, or than the declared payload, are present.
    FrameTooShort,
    /// The first four bytes are not the magic word.
    BadMagic,
}

/// Why an outbound message could not be handed to the vendor endpoint.
#[derive(Debug, Clone, PartialEq, Eq, Structural)]
pub enum UsbMessageError {
    /// The endpoint's buffer cannot take the frame.
    NotEnoughSpace,
    /// The payload is too large to frame.
    FailedToFrame,
}

/// A payload recovered from a well-formed frame.
pub struct DeFramedMessage {
    pub payload_length: u32,
    pub payload: Vec<u8>,
}

/// The bytes of the frame that carries `payload`.
pub open spec fn spec_frame_bytes(payload: Seq<u8>) -> Seq<u8> {
    spec_u32_to_le_bytes(MAGIC_WORD) + spec_u32_to_le_bytes(payload.len() as u32) + payload
}

/// What deframing a byte string yields: the declared payload, or the
/// first error met reading the header.
pub open spec fn spec_deframe(bytes: Seq<u8>) -> Result<Seq<u8>, FrameError> {
    if bytes.len() < HEADER_SIZE {
        Err(FrameError::FrameTooShort)
    } else if bytes.subrange(0, 4) != spec_u32_to_le_bytes(MAGIC_WORD) {
        Err(FrameError::BadMagic)
    } else {
        let l = spec_u32_from_le_bytes(bytes.subrange(4, 8)) as int;
        if bytes.len() < HEADER_SIZE + l {
            Err(FrameError::FrameTooShort)
        } else {
            Ok(bytes.subrange(8, 8 + l))
        }
    }
}

/// Prepends the frame header to `payload`; rejects payloads over
/// `MAX_PAYLOAD_LENGTH`.
pub fn frame_message(payload: &[u8]) -> (r: Result<Vec<u8>, UsbMessageError>)
    ensures
        payload@.len() <= MAX_PAYLOAD_LENGTH ==> (r matches Ok(f) && f@ == spec_frame_bytes(payload@)),
        payload@.len() > MAX_PAYLOAD_LENGTH ==> r == Err::<Vec<u8>, UsbMessageError>(UsbMessageError::FailedToFrame),
{
    if payload.len() > MAX_PAYLOAD_LENGTH {
        return Err(UsbMessageError::FailedToFrame);
    }
    let mut f = u32_to_le_bytes(MAGIC_WORD);
    let mut len_bytes = u32_to_le_bytes(payload.len() as u32);
    f.append(&mut len_bytes);
    let mut i: usize = 0;
    while i < payload.len()
        invariant
            i <= payload@.len() <= MAX_PAYLOAD_LENGTH,
            f@ == spec_u32_to_le_bytes(MAGIC_WORD) + spec_u32_to_le_bytes(payload@.len() as u32)
                + payload@.subrange(0, i as int),
        decreases payload@.len() - i,
    {
        f.push(payload[i]);
        i = i + 1;
        proof {
            assert(payload@.subrange(0, i as int) == payload@.subrange(0, i - 1) + seq![payload@[i - 1]]);
        }
    }
    proof {
        assert(payload@.subrange(0, payload@.len() as int) == payload@);
    }
    Ok(f)
}

/// Parses a frame header and returns the declared payload; the input may
/// hold more bytes than the frame, which are ignored.
pub fn deframe_message(frame_bytes: &[u8]) -> (r: Result<DeFramedMessage, FrameError>)
    ensures
        match r {
            Ok(m) => {
                &&& spec_deframe(frame_bytes@) == Ok::<Seq<u8>, FrameError>(m.payload@)
                &&& m.payload_length == m.payload@.len()
                &&& m.payload_length == spec_u32_from_le_bytes(frame_bytes@.subrange(4, 8))
            },
            Err(e) => spec_deframe(frame_bytes@) == Err::<Seq<u8>, FrameError>(e),
        },
{
    if frame_bytes.len() < HEADER_SIZE {
        return Err(FrameError::FrameTooShort);
    }
    let magic = u32_from_le_bytes(slice_subrange(frame_bytes, 0, 4));
    if magic != MAGIC_WORD {
        proof {
            lemma_auto_spec_u32_to_from_le_bytes();
            assert(spec_u32_to_le_bytes(MAGIC_WORD).len() == 4);
            assert(spec_u32_from_le_bytes(spec_u32_to_le_bytes(MAGIC_WORD)) == MAGIC_WORD);
            assert(frame_bytes@.subrange(0, 4).len() == 4);
        }
        return Err(FrameError::BadMagic);
    }
    proof {
        lemma_auto_spec_u32_to_from_le_bytes();
    }
    let payload_length = u32_from_le_bytes(slice_subrange(frame_bytes, 4, 8));
    if (frame_bytes.len() - HEADER_SIZE) < payload_length as usize {
        return Err(FrameError::FrameTooShort);
    }
    let n = payload_length as usize;
    let ghost total: int = frame_bytes@.len() as int;
    assert(n + HEADER_SIZE <= total);
    let mut payload: Vec<u8> = Vec::new();
    let mut i: usize = 0;
    while i < n
        invariant
            i <= n,
            n + HEADER_SIZE <= total,
            total == frame_bytes@.len(),
            frame_bytes@.len() <= usize::MAX,
            payload@ == frame_bytes@.subrange(8, 8 + i as int),
        decreases n - i,
    {
        payload.push(frame_bytes[HEADER_SIZE + i]);
        i = i + 1;
        proof {
            assert(frame_bytes@.subrange(8, 8 + i as int)
                == frame_bytes@.subrange(8, 8 + (i - 1)) + seq![frame_bytes@[8 + (i - 1)]]);
        }
    }
    Ok(DeFramedMessage { payload_length, payload })
}

/// Round trip: every payload of at most `MAX_PAYLOAD_LENGTH` bytes is
/// returned unchanged by deframing the frame that carries it.
pub proof fn lemma_frame_roundtrip(payload: Seq<u8>)
    requires
        payload.len() <= MAX_PAYLOAD_LENGTH,
    ensures
        spec_deframe(spec_frame_bytes(payload)) == Ok::<Seq<u8>, FrameError>(payload),
{
    lemma_auto_spec_u32_to_from_le_bytes();
    let f = spec_frame_bytes(payload);
    assert(f.subrange(0, 4) =~= spec_u32_to_le_bytes(MAGIC_WORD));
    assert(f.subrange(4, 8) =~= spec_u32_to_le_bytes(payload.len() as u32));
    assert(f.subrange(8, 8 + payload.len() as int) =~= payload);
}

} // verus!
