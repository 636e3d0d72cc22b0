//! The wire format: public values as raw 8-byte big-endian integers, and
//! encrypted payloads as a 4-byte big-endian length followed by the bytes.

use vstd::prelude::*;

verus! {

/// The 8 big-endian bytes of `v`.
pub open spec fn be_bytes_u64(v: u64) -> Seq<u8> {
    seq![
        (v >> 56u64) as u8, (v >> 48u64) as u8, (v >> 40u64) as u8, (v >> 32u64) as u8,
        (v >> 24u64) as u8, (v >> 16u64) as u8, (v >> 8u64) as u8, v as u8,
    ]
}

/// The integer that 8 big-endian bytes spell.
pub open spec fn u64_of_be(b: Seq<u8>) -> u64
    recommends
        b.len() == 8,
{
    ((b[0] as u64) << 56u64) | ((b[1] as u64) << 48u64) | ((b[2] as u64) << 40u64)
        | ((b[3] as u64) << 32u64) | ((b[4] as u64) << 24u64) | ((b[5] as u64) << 16u64)
        | ((b[6] as u64) << 8u64) | (b[7] as u64)
}

/// The 4 big-endian bytes of `v`.
pub open spec fn be_bytes_u32(v: u32) -> Seq<u8> {
    seq![(v >> 24u32) as u8, (v >> 16u32) as u8, (v >> 8u32) as u8, v as u8]
}

/// The integer that 4 big-endian bytes spell.
pub open spec fn u32_of_be(b: Seq<u8>) -> u32
    recommends
        b.len() == 4,
{
    ((b[0] as u32) << 24u32) | ((b[1] as u32) << 16u32) | ((b[2] as u32) << 8u32) | (b[3] as u32)
}

/// A payload frame: the length of `body` in 4 big-endian bytes, then `body`.
pub open spec fn frame_of(body: Seq<u8>) -> Seq<u8>
    recommends
        body.len() <= u32::MAX,
{
    be_bytes_u32(body.len() as u32) + body
}

/// Whether `b` is a whole frame: a 4-byte length that counts exactly the
/// bytes after it.
pub open spec fn is_frame(b: Seq<u8>) -> bool {
    b.len() >= 4 && u32_of_be(b.subrange(0, 4)) as int == b.len() - 4
}

/// The bytes that carry a public value.
pub fn encode_u64(v: u64) -> (r: Vec<u8>)
    ensures
        r@ == be_bytes_u64(v),
{
    let r = vec![
        (v >> 56u64) as u8, (v >> 48u64) as u8, (v >> 40u64) as u8, (v >> 32u64) as u8,
        (v >> 24u64) as u8, (v >> 16u64) as u8, (v >> 8u64) as u8, v as u8,
    ];
    assert(r@ =~= be_bytes_u64(v));
    r
}

/// Reads a public value; `None` unless exactly 8 bytes are given.
pub fn decode_u64(b: &[u8]) -> (r: Option<u64>)
    ensures
        r == (if b@.len() == 8 { Some(u64_of_be(b@)) } else { None::<u64> }),
{
    if b.len() != 8 {
        return None;
    }
    Some(((b[0] as u64) << 56u64) | ((b[1] as u64) << 48u64) | ((b[2] as u64) << 40u64)
        | ((b[3] as u64) << 32u64) | ((b[4] as u64) << 24u64) | ((b[5] as u64) << 16u64)
        | ((b[6] as u64) << 8u64) | (b[7] as u64))
}

/// The bytes of a payload length.
pub fn encode_u32(v: u32) -> (r: Vec<u8>)
    ensures
        r@ == be_bytes_u32(v),
{
    let r = vec![(v >> 24u32) as u8, (v >> 16u32) as u8, (v >> 8u32) as u8, v as u8];
    assert(r@ =~= be_bytes_u32(v));
    r
}

/// Reads a payload length; `None` unless exactly 4 bytes are given.
pub fn decode_u32(b: &[u8]) -> (r: Option<u32>)
    ensures
        r == (if b@.len() == 4 { Some(u32_of_be(b@)) } else { None::<u32> }),
{
    if b.len() != 4 {
        return None;
    }
    Some(((b[0] as u32) << 24u32) | ((b[1] as u32) << 16u32) | ((b[2] as u32) << 8u32) | (b[3] as u32))
}

/// Frames a ciphertext for sending; `None` when its length does not fit
/// the 4-byte length field.
pub fn encode_frame(body: &[u8]) -> (r: Option<Vec<u8>>)
    ensures
        r.is_some() == (body@.len() <= u32::MAX),
        r.is_some() ==> r.unwrap()@ == frame_of(body@),
{
    if body.len() > 0xFFFF_FFFFusize {
        return None;
    }
    let mut out = encode_u32(body.len() as u32);
    let mut i: usize = 0;
    while i < body.len()
        invariant
            i <= body@.len(),
            body@.len() <= u32::MAX,
            out@ == be_bytes_u32(body@.len() as u32) + body@.subrange(0, i as int),
        decreases body@.len() - i,
    {
        out.push(body[i]);
        i = i + 1;
        assert(out@ =~= be_bytes_u32(body@.len() as u32) + body@.subrange(0, i as int));
    }
    assert(body@.subrange(0, i as int) =~= body@);
    Some(out)
}

/// Splits a received frame; `None` unless its first 4 bytes give exactly
/// the number of bytes that follow them.
pub fn decode_frame(b: &[u8]) -> (r: Option<Vec<u8>>)
    ensures
        r.is_some() == is_frame(b@),
        r.is_some() ==> r.unwrap()@ == b@.subrange(4, b@.len() as int),
{
    if b.len() < 4 {
        return None;
    }
    let n = ((b[0] as u32) << 24u32) | ((b[1] as u32) << 16u32) | ((b[2] as u32) << 8u32) | (b[3] as u32);
    if n as usize != b.len() - 4 {
        return None;
    }
    let mut out: Vec<u8> = Vec::new();
    let mut i: usize = 4;
    while i < b.len()
        invariant
            4 <= i <= b@.len(),
            out@ == b@.subrange(4, i as int),
        decreases b@.len() - i,
    {
        out.push(b[i]);
        i = i + 1;
        assert(out@ =~= b@.subrange(4, i as int));
    }
    Some(out)
}

/// A public value read back from its 8 bytes is the value sent.
pub proof fn lemma_u64_round_trip(v: u64)
    ensures
        be_bytes_u64(v).len() == 8,
        u64_of_be(be_bytes_u64(v)) == v,
{
    let b = be_bytes_u64(v);
    assert(((((v >> 56u64) as u8) as u64) << 56u64) | ((((v >> 48u64) as u8) as u64) << 48u64)
        | ((((v >> 40u64) as u8) as u64) << 40u64) | ((((v >> 32u64) as u8) as u64) << 32u64)
        | ((((v >> 24u64) as u8) as u64) << 24u64) | ((((v >> 16u64) as u8) as u64) << 16u64)
        | ((((v >> 8u64) as u8) as u64) << 8u64) | ((v as u8) as u64) == v) by (bit_vector);
}

/// A payload length read back from its 4 bytes is the length sent.
pub proof fn lemma_u32_round_trip(v: u32)
    ensures
        be_bytes_u32(v).len() == 4,
        u32_of_be(be_bytes_u32(v)) == v,
{
    assert(((((v >> 24u32) as u8) as u32) << 24u32) | ((((v >> 16u32) as u8) as u32) << 16u32)
        | ((((v >> 8u32) as u8) as u32) << 8u32) | ((v as u8) as u32) == v) by (bit_vector);
}

/// A framed payload is a whole frame, and splitting it gives back exactly
/// the bytes, and the length, that were framed.
pub proof fn lemma_frame_round_trip(body: Seq<u8>)
    requires
        body.len() <= u32::MAX,
    ensures
        is_frame(frame_of(body)),
        u32_of_be(frame_of(body).subrange(0, 4)) == body.len(),
        frame_of(body).subrange(4, frame_of(body).len() as int) == body,
{
    let f = frame_of(body);
    lemma_u32_round_trip(body.len() as u32);
    assert(f.subrange(0, 4) =~= be_bytes_u32(body.len() as u32));
    assert(f.subrange(4, f.len() as int) =~= body);
}

} // verus!
