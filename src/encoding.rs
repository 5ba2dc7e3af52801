//! The canonical byte layout of a candidate record, the input of the digest.
//!
//! Layout: `previous_digest || payload || timestamp || difficulty_bits || nonce`,
//! each integer as eight big-endian bytes (the timestamp in two's complement).
use vstd::prelude::*;

verus! {

/// The eight big-endian bytes of a 64-bit word.
pub open spec fn u64_be(x: u64) -> Seq<u8> {
    seq![
        (x >> 56u64) as u8,
        (x >> 48u64) as u8,
        (x >> 40u64) as u8,
        (x >> 32u64) as u8,
        (x >> 24u64) as u8,
        (x >> 16u64) as u8,
        (x >> 8u64) as u8,
        x as u8,
    ]
}

/// The bytes fed to the digest function for a candidate record.
pub open spec fn serialize(
    previous_digest: Seq<u8>,
    payload: Seq<u8>,
    timestamp: i64,
    difficulty_bits: u32,
    nonce: u64,
) -> Seq<u8> {
    previous_digest + payload + u64_be(timestamp as u64) + u64_be(difficulty_bits as u64) + u64_be(
        nonce,
    )
}

/// Appends `src` to `out`.
fn append_bytes(out: &mut Vec<u8>, src: &[u8])
    ensures
        final(out)@ == old(out)@ + src@,
{
    let ghost start = out@;
    let mut i: usize = 0;
    while i < src.len()
        invariant
            i <= src@.len(),
            out@ == start + src@.take(i as int),
        decreases src@.len() - i,
    {
        out.push(src[i]);
        i = i + 1;
        proof {
            assert(out@ =~= start + src@.take(i as int));
        }
    }
    assert(src@.take(src@.len() as int) =~= src@);
}

/// Appends the eight big-endian bytes of `x` to `out`.
fn append_u64_be(out: &mut Vec<u8>, x: u64)
    ensures
        final(out)@ == old(out)@ + u64_be(x),
{
    let ghost start = out@;
    out.push((x >> 56u64) as u8);
    out.push((x >> 48u64) as u8);
    out.push((x >> 40u64) as u8);
    out.push((x >> 32u64) as u8);
    out.push((x >> 24u64) as u8);
    out.push((x >> 16u64) as u8);
    out.push((x >> 8u64) as u8);
    out.push(x as u8);
    assert(out@ =~= start + u64_be(x));
}

/// The canonical serialization of a candidate record with the given nonce.
pub fn serialize_record(
    previous_digest: &[u8],
    payload: &[u8],
    timestamp: i64,
    difficulty_bits: u32,
    nonce: u64,
) -> (r: Vec<u8>)
    ensures
        r@ == serialize(previous_digest@, payload@, timestamp, difficulty_bits, nonce),
{
    let mut out: Vec<u8> = Vec::new();
    append_bytes(&mut out, previous_digest);
    append_bytes(&mut out, payload);
    append_u64_be(&mut out, timestamp as u64);
    append_u64_be(&mut out, difficulty_bits as u64);
    append_u64_be(&mut out, nonce);
    assert(out@ =~= serialize(previous_digest@, payload@, timestamp, difficulty_bits, nonce));
    out
}

} // verus!
