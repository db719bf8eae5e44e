//! Fixed-width little-endian encoding of the counter value.

use vstd::prelude::*;

verus! {

/// The eight bytes of `v`, least significant first.
pub open spec fn le_bytes(v: u64) -> Seq<u8> {
    seq![
        (v & 0xff) as u8,
        ((v >> 8u64) & 0xff) as u8,
        ((v >> 16u64) & 0xff) as u8,
        ((v >> 24u64) & 0xff) as u8,
        ((v >> 32u64) & 0xff) as u8,
        ((v >> 40u64) & 0xff) as u8,
        ((v >> 48u64) & 0xff) as u8,
        ((v >> 56u64) & 0xff) as u8,
    ]
}

/// The integer whose little-endian bytes are `b[0..8]`.
pub open spec fn le_value(b: Seq<u8>) -> u64
    recommends
        b.len() == 8,
{
    (b[0] as u64) | ((b[1] as u64) << 8u64) | ((b[2] as u64) << 16u64) | ((b[3] as u64) << 24u64)
        | ((b[4] as u64) << 32u64) | ((b[5] as u64) << 40u64) | ((b[6] as u64) << 48u64) | ((
    b[7] as u64) << 56u64)
}

/// Decoding the encoding of a value gives the value back.
pub proof fn lemma_le_value_of_le_bytes(v: u64)
    ensures
        le_value(le_bytes(v)) == v,
{
    let b = le_bytes(v);
    assert(((v & 0xff) as u8 as u64) | ((((v >> 8u64) & 0xff) as u8 as u64) << 8u64) | ((((v
        >> 16u64) & 0xff) as u8 as u64) << 16u64) | ((((v >> 24u64) & 0xff) as u8 as u64) << 24u64)
        | ((((v >> 32u64) & 0xff) as u8 as u64) << 32u64) | ((((v >> 40u64) & 0xff) as u8 as u64)
        << 40u64) | ((((v >> 48u64) & 0xff) as u8 as u64) << 48u64) | ((((v >> 56u64) & 0xff) as u8
        as u64) << 56u64) == v) by (bit_vector);
}

/// The eight little-endian bytes of `v`.
pub fn encode_le(v: u64) -> (r: Vec<u8>)
    ensures
        r@ == le_bytes(v),
{
    let mut r: Vec<u8> = Vec::new();
    r.push((v & 0xff) as u8);
    r.push(((v >> 8u64) & 0xff) as u8);
    r.push(((v >> 16u64) & 0xff) as u8);
    r.push(((v >> 24u64) & 0xff) as u8);
    r.push(((v >> 32u64) & 0xff) as u8);
    r.push(((v >> 40u64) & 0xff) as u8);
    r.push(((v >> 48u64) & 0xff) as u8);
    r.push(((v >> 56u64) & 0xff) as u8);
    assert(r@ =~= le_bytes(v));
    r
}

/// The integer stored little-endian in the eight bytes of `b`.
pub fn decode_le(b: &Vec<u8>) -> (r: u64)
    requires
        b@.len() == 8,
    ensures
        r == le_value(b@),
{
    (b[0] as u64) | ((b[1] as u64) << 8u64) | ((b[2] as u64) << 16u64) | ((b[3] as u64) << 24u64)
        | ((b[4] as u64) << 32u64) | ((b[5] as u64) << 40u64) | ((b[6] as u64) << 48u64) | ((
    b[7] as u64) << 56u64)
}

} // verus!
