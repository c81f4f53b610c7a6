//! Framing: how one serialized message is delimited on the wire.
//!
//! A frame is an 8-byte little-endian length followed by that many bytes of
//! payload. The payload is the textual form of a message; turning a message
//! into text and back is left to the caller.

use crate::error::SessionError;
use byteorder::{ByteOrder, LittleEndian};
use vstd::prelude::*;
use vstd::slice::slice_subrange;

verus! {

/// Number of bytes in the length prefix of a frame.
pub const PREFIX_LEN: usize = 8;

/// 256 to the power `width`.
pub open spec fn pow256(width: nat) -> nat
    decreases width,
{
    if width == 0 {
        1
    } else {
        256 * pow256((width - 1) as nat)
    }
}

/// The number that `bytes` spell, least significant byte first.
pub open spec fn le_value(bytes: Seq<u8>) -> nat
    decreases bytes.len(),
{
    if bytes.len() == 0 {
        0
    } else {
        bytes[0] as nat + 256 * le_value(bytes.drop_first())
    }
}

/// The `width` low bytes of `n`, least significant byte first.
pub open spec fn le_bytes(n: nat, width: nat) -> Seq<u8>
    decreases width,
{
    if width == 0 {
        Seq::empty()
    } else {
        seq![(n % 256) as u8] + le_bytes(n / 256, (width - 1) as nat)
    }
}

/// The frame that carries `payload`.
pub open spec fn frame_of(payload: Seq<u8>) -> Seq<u8> {
    le_bytes(payload.len(), 8) + payload
}

/// The payload that `bytes` carry, if `bytes` are exactly one frame.
pub open spec fn parse_frame(bytes: Seq<u8>) -> Option<Seq<u8>> {
    if bytes.len() >= 8 && le_value(bytes.subrange(0, 8)) == bytes.len() - 8 {
        Some(bytes.subrange(8, bytes.len() as int))
    } else {
        None
    }
}

/// Writing a number below `256^width` and reading it back gives the number.
pub proof fn lemma_le_value_of_bytes(n: nat, width: nat)
    requires
        n < pow256(width),
    ensures
        le_bytes(n, width).len() == width,
        le_value(le_bytes(n, width)) == n,
    decreases width,
{
    if width > 0 {
        let rest = le_bytes(n / 256, (width - 1) as nat);
        lemma_le_value_of_bytes(n / 256, (width - 1) as nat);
        assert(le_bytes(n, width).drop_first() =~= rest);
    }
}

/// Reading bytes as a number and writing it at the same width gives the bytes.
pub proof fn lemma_le_bytes_of_value(bytes: Seq<u8>)
    ensures
        le_value(bytes) < pow256(bytes.len()),
        le_bytes(le_value(bytes), bytes.len()) == bytes,
    decreases bytes.len(),
{
    if bytes.len() > 0 {
        lemma_le_bytes_of_value(bytes.drop_first());
    }
}

/// Every `u64` fits in eight bytes.
pub proof fn lemma_u64_fits(n: u64)
    ensures
        (n as nat) < pow256(8),
{
    reveal_with_fuel(pow256, 9);
}

/// Decoding is the inverse of encoding: the frame of a payload parses to
/// that payload.
pub proof fn lemma_frame_round_trip(payload: Seq<u8>)
    requires
        payload.len() <= u64::MAX,
    ensures
        parse_frame(frame_of(payload)) == Some(payload),
{
    lemma_u64_fits(payload.len() as u64);
    lemma_le_value_of_bytes(payload.len(), 8);
    assert(frame_of(payload).subrange(0, 8) =~= le_bytes(payload.len(), 8));
}

/// Encoding is the inverse of decoding: bytes that parse to a payload are
/// the frame of that payload, and of no other.
pub proof fn lemma_parse_frame_exact(bytes: Seq<u8>, payload: Seq<u8>)
    ensures
        parse_frame(bytes) == Some(payload) ==> frame_of(payload) == bytes,
        frame_of(payload) == bytes && payload.len() <= u64::MAX ==> parse_frame(bytes) == Some(
            payload,
        ),
{
    if parse_frame(bytes) == Some(payload) {
        lemma_le_bytes_of_value(bytes.subrange(0, 8));
    }
    if frame_of(payload) == bytes && payload.len() <= u64::MAX {
        lemma_frame_round_trip(payload);
    }
}

/// The length prefix for a payload of `n` bytes, from byteorder's
/// `LittleEndian::write_u64` on a buffer of eight bytes. Not proved here:
/// that the buffer then holds the eight bytes of `n`, the least significant
/// first.
#[verifier::external_body]
fn length_prefix(n: u64) -> (prefix: Vec<u8>)
    ensures
        prefix@ == le_bytes(n as nat, 8),
{
    let mut prefix = [0u8; 8];
    LittleEndian::write_u64(&mut prefix, n);
    prefix.to_vec()
}

/// The length that a prefix declares, from byteorder's
/// `LittleEndian::read_u64`, which panics on fewer than eight bytes. Not
/// proved here: that it gives the number that the first eight bytes spell,
/// the least significant first.
#[verifier::external_body]
pub(crate) fn prefix_value(bytes: &[u8]) -> (n: u64)
    requires
        bytes@.len() >= 8,
    ensures
        n as nat == le_value(bytes@.subrange(0, 8)),
{
    LittleEndian::read_u64(bytes)
}

/// Appends `bytes` to `target`.
pub(crate) fn append_bytes(target: &mut Vec<u8>, bytes: &[u8])
    ensures
        final(target)@ == old(target)@ + bytes@,
{
    let mut i: usize = 0;
    while i < bytes.len()
        invariant
            i <= bytes.len(),
            target@ == old(target)@ + bytes@.subrange(0, i as int),
        decreases bytes.len() - i,
    {
        target.push(bytes[i]);
        i += 1;
    }
}

/// Wraps a payload into one frame: its length in eight little-endian bytes,
/// then the payload itself.
pub fn encode_frame(payload: &[u8]) -> (frame: Vec<u8>)
    ensures
        frame@ == frame_of(payload@),
{
    let mut frame = length_prefix(payload.len() as u64);
    append_bytes(&mut frame, payload);
    frame
}

/// Unwraps exactly one frame. Fails with `MalformedFrame` when `bytes` are
/// too short to hold a length, or hold fewer or more payload bytes than the
/// length declares.
pub fn decode_frame(bytes: &[u8]) -> (result: Result<Vec<u8>, SessionError>)
    ensures
        match result {
            Ok(payload) => parse_frame(bytes@) == Some(payload@),
            Err(e) => e == SessionError::MalformedFrame && parse_frame(bytes@) is None,
        },
{
    if bytes.len() < PREFIX_LEN {
        return Err(SessionError::MalformedFrame);
    }
    let declared = prefix_value(bytes);
    if declared != (bytes.len() - PREFIX_LEN) as u64 {
        return Err(SessionError::MalformedFrame);
    }
    let mut payload: Vec<u8> = Vec::new();
    append_bytes(&mut payload, slice_subrange(bytes, PREFIX_LEN, bytes.len()));
    Ok(payload)
}

} // verus!
