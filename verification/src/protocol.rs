//! Frames: a message travels as the number of its payload bytes, as four
//! bytes, followed by the payload.
//!
//! [`ProtocolCodec`] is the host's codec: it encodes the messages that the
//! host sends and decodes those that the worker sends.

use crate::structs::{
    get_from_jvm, put_to_jvm, spec_from_jvm, spec_parse_from_jvm, spec_to_jvm, FromJvm,
    FromJvmView, ToJvm, lemma_from_jvm_roundtrip,
};
use crate::wire::{get_u32, lemma_u32_roundtrip, put_u32, spec_parse_u32, spec_u32};
use vstd::prelude::*;
use vstd::slice::slice_subrange;

verus! {

/// Why a message could not be encoded.
#[derive(Clone, Copy, Debug, PartialEq, Eq, Structural)]
pub enum EncodeError {
    /// The payload has more bytes than a frame can announce or the machine
    /// can address.
    TooLong,
}

/// How encoding a message into a buffer ended.
#[derive(Clone, Copy, Debug, PartialEq, Eq, Structural)]
pub enum EncodeResult {
    /// The frame was written to the front of the buffer; it has this many
    /// bytes.
    Written(usize),
    /// The message cannot be put into a frame at all.
    Failed(EncodeError),
    /// The buffer is too short: the frame needs this many bytes.
    Overflow(usize),
}

/// Why a complete frame could not be decoded.
#[derive(Clone, Copy, Debug, PartialEq, Eq, Structural)]
pub enum DecodeError {
    /// The payload is not the encoding of exactly one message.
    Malformed,
}

/// How decoding the front of a buffer ended.
#[derive(Debug, PartialEq, Eq)]
pub enum DecodeResult {
    /// A message was decoded.
    Message(FromJvm),
    /// The buffer does not hold a complete frame yet.
    UnexpectedEnd,
    /// The frame at the front is complete but its payload is malformed.
    Failed(DecodeError),
}

/// Whether a payload of `len` bytes can travel in a frame.
pub open spec fn spec_payload_fits(len: nat) -> bool {
    len <= u32::MAX && 4 + len <= usize::MAX
}

/// The frame that carries `payload`.
pub open spec fn spec_frame(payload: Seq<u8>) -> Seq<u8> {
    spec_u32(payload.len() as u32) + payload
}

/// The payload of the frame at the front of `b` and the length of that
/// frame, or `None` while `b` does not hold a complete frame.
pub open spec fn spec_split_frame(b: Seq<u8>) -> Option<(Seq<u8>, int)> {
    match spec_parse_u32(b) {
        Some((len, n)) => if len <= b.len() - n {
            Some((b.subrange(n, n + len), n + len))
        } else {
            None
        },
        None => None,
    }
}

/// What decoding the front of a buffer means.
pub enum Decoded {
    /// A message, and the length of the frame that held it.
    Message(FromJvmView, int),
    UnexpectedEnd,
    Malformed,
}

/// What decoding the front of `b` gives: nothing while the frame is
/// incomplete, else the message whose encoding is the whole payload, else
/// an error.
pub open spec fn spec_decode(b: Seq<u8>) -> Decoded {
    match spec_split_frame(b) {
        None => Decoded::UnexpectedEnd,
        Some((payload, n)) => match spec_parse_from_jvm(payload) {
            Some((v, m)) => if m == payload.len() {
                Decoded::Message(v, n)
            } else {
                Decoded::Malformed
            },
            None => Decoded::Malformed,
        },
    }
}

/// A frame followed by anything splits into its payload and what follows.
pub proof fn lemma_frame_roundtrip(payload: Seq<u8>, rest: Seq<u8>)
    requires
        payload.len() <= u32::MAX,
    ensures
        spec_frame(payload).len() == 4 + payload.len(),
        spec_split_frame(spec_frame(payload) + rest) == Some(
            (payload, spec_frame(payload).len() as int),
        ),
{
    reveal(spec_parse_u32);
    let b = spec_frame(payload) + rest;
    lemma_u32_roundtrip(payload.len() as u32, payload + rest);
    assert(b =~= spec_u32(payload.len() as u32) + (payload + rest));
    assert(b.subrange(4, 4 + payload.len() as int) =~= payload);
}

/// Decoding the frame of a message gives the message back and consumes
/// exactly the frame, whatever follows it.
pub proof fn lemma_decode_encoded(v: FromJvmView, rest: Seq<u8>)
    requires
        v.fits(),
        spec_from_jvm(v).len() <= u32::MAX,
    ensures
        spec_decode(spec_frame(spec_from_jvm(v)) + rest) == Decoded::Message(
            v,
            4 + spec_from_jvm(v).len() as int,
        ),
{
    let payload = spec_from_jvm(v);
    lemma_frame_roundtrip(payload, rest);
    lemma_from_jvm_roundtrip(v, Seq::empty());
    assert(payload + Seq::<u8>::empty() =~= payload);
}

/// Writes `src` over the front of `buf`.
fn copy_into(buf: &mut [u8], src: &Vec<u8>)
    requires
        src@.len() <= old(buf)@.len(),
    ensures
        final(buf)@ == src@ + old(buf)@.skip(src@.len() as int),
{
    let mut i: usize = 0;
    while i < src.len()
        invariant
            i <= src@.len() <= buf@.len(),
            buf@.len() == old(buf)@.len(),
            buf@ == src@.take(i as int) + old(buf)@.skip(i as int),
        decreases src@.len() - i,
    {
        buf[i] = src[i];
        i += 1;
        assert(buf@ =~= src@.take(i as int) + old(buf)@.skip(i as int));
    }
    assert(buf@ =~= src@ + old(buf)@.skip(src@.len() as int));
}

/// Writes the frame of `payload` to the front of `buf`, if the payload can
/// travel in a frame and the frame fits the buffer. The buffer is left as it
/// was otherwise.
pub fn encode_frame(payload: &Vec<u8>, buf: &mut [u8]) -> (r: EncodeResult)
    ensures
        r == if !spec_payload_fits(payload@.len()) {
            EncodeResult::Failed(EncodeError::TooLong)
        } else if 4 + payload@.len() > old(buf)@.len() {
            EncodeResult::Overflow((4 + payload@.len()) as usize)
        } else {
            EncodeResult::Written((4 + payload@.len()) as usize)
        },
        r is Written ==> final(buf)@ == spec_frame(payload@) + old(buf)@.skip(4 + payload@.len() as int),
        !(r is Written) ==> final(buf)@ == old(buf)@,
{
    if payload.len() > u32::MAX as usize || payload.len() > usize::MAX - 4 {
        return EncodeResult::Failed(EncodeError::TooLong);
    }
    let needed: usize = 4 + payload.len();
    if needed > buf.len() {
        return EncodeResult::Overflow(needed);
    }
    let mut frame: Vec<u8> = Vec::new();
    put_u32(&mut frame, payload.len() as u32);
    frame.extend_from_slice(payload.as_slice());
    proof {
        lemma_u32_roundtrip(payload@.len() as u32, Seq::empty());
        assert(frame@ =~= spec_frame(payload@));
    }
    copy_into(buf, &frame);
    EncodeResult::Written(needed)
}

/// The bounds of the payload of the frame at the front of `buffer`, or
/// `None` while the buffer does not hold a complete frame.
pub fn split_frame(buffer: &[u8]) -> (r: Option<(usize, usize)>)
    ensures
        r is None <==> spec_split_frame(buffer@) is None,
        r matches Some((start, end)) ==> start == 4 && start <= end <= buffer@.len()
            && spec_split_frame(buffer@) == Some(
            (buffer@.subrange(start as int, end as int), end as int),
        ),
{
    assert(buffer@.skip(0) =~= buffer@);
    match get_u32(buffer, 0) {
        Some((len, start)) => {
            proof {
                reveal(spec_parse_u32);
            }
            if len as u64 > (buffer.len() - start) as u64 {
                return None;
            }
            Some((start, start + len as usize))
        },
        None => None,
    }
}

/// The codec of the host's end of the transport.
#[derive(Clone, Copy, Debug)]
pub struct ProtocolCodec;

impl ProtocolCodec {
    /// Encodes `item` as one frame at the front of `buf`. Reports the number
    /// of bytes needed when the buffer is too short, and an error when the
    /// message can travel in no frame; the buffer is left as it was in both
    /// cases.
    pub fn encode(&mut self, item: &ToJvm, buf: &mut [u8]) -> (r: EncodeResult)
        ensures
            r == if !spec_payload_fits(spec_to_jvm(item@).len()) {
                EncodeResult::Failed(EncodeError::TooLong)
            } else if 4 + spec_to_jvm(item@).len() > old(buf)@.len() {
                EncodeResult::Overflow((4 + spec_to_jvm(item@).len()) as usize)
            } else {
                EncodeResult::Written((4 + spec_to_jvm(item@).len()) as usize)
            },
            r is Written ==> final(buf)@ == spec_frame(spec_to_jvm(item@)) + old(buf)@.skip(
                4 + spec_to_jvm(item@).len() as int,
            ),
            !(r is Written) ==> final(buf)@ == old(buf)@,
            item@.fits(),
    {
        let mut payload: Vec<u8> = Vec::new();
        put_to_jvm(&mut payload, item);
        assert(payload@ =~= spec_to_jvm(item@));
        encode_frame(&payload, buf)
    }

    /// Decodes the frame at the front of `buffer`. Consumes nothing and
    /// reports `UnexpectedEnd` while the frame is incomplete; consumes
    /// exactly the frame when its payload is one message; consumes nothing
    /// and reports an error when the payload is malformed.
    pub fn decode(&mut self, buffer: &[u8]) -> (r: (usize, DecodeResult))
        ensures
            match spec_decode(buffer@) {
                Decoded::Message(v, n) => r.0 == n && (r.1 matches DecodeResult::Message(msg) && msg@
                    == v),
                Decoded::UnexpectedEnd => r.0 == 0 && r.1 is UnexpectedEnd,
                Decoded::Malformed => r.0 == 0 && r.1 == DecodeResult::Failed(
                    DecodeError::Malformed,
                ),
            },
    {
        match split_frame(buffer) {
            None => (0, DecodeResult::UnexpectedEnd),
            Some((start, end)) => {
                let payload = slice_subrange(buffer, start, end);
                assert(payload@.skip(0) =~= payload@);
                match get_from_jvm(payload, 0) {
                    Some((msg, next)) => {
                        if next == payload.len() {
                            (end, DecodeResult::Message(msg))
                        } else {
                            (0, DecodeResult::Failed(DecodeError::Malformed))
                        }
                    },
                    None => (0, DecodeResult::Failed(DecodeError::Malformed)),
                }
            },
        }
    }
}

} // verus!
