use vstd::prelude::*;

verus! {

/// Byte `k` (counting from the most significant, `0 <= k < 8`) of the
/// big-endian representation of `x`.
pub open spec fn be_byte(x: u64, k: int) -> u8 {
    if k == 0 {
        (x >> 56u64) as u8
    } else if k == 1 {
        (x >> 48u64) as u8
    } else if k == 2 {
        (x >> 40u64) as u8
    } else if k == 3 {
        (x >> 32u64) as u8
    } else if k == 4 {
        (x >> 24u64) as u8
    } else if k == 5 {
        (x >> 16u64) as u8
    } else if k == 6 {
        (x >> 8u64) as u8
    } else {
        x as u8
    }
}

/// The integer whose big-endian representation is `bytes` (what
/// `u64::from_be_bytes` computes).
pub(crate) fn u64_from_be_bytes(bytes: [u8; 8]) -> (r: u64)
    ensures
        forall|k: int| 0 <= k < 8 ==> #[trigger] be_byte(r, k) == bytes@[k],
{
    let b0 = bytes[0];
    let b1 = bytes[1];
    let b2 = bytes[2];
    let b3 = bytes[3];
    let b4 = bytes[4];
    let b5 = bytes[5];
    let b6 = bytes[6];
    let b7 = bytes[7];
    let r: u64 = (b0 as u64) << 56u64 | (b1 as u64) << 48u64 | (b2 as u64) << 40u64 | (b3 as u64)
        << 32u64 | (b4 as u64) << 24u64 | (b5 as u64) << 16u64 | (b6 as u64) << 8u64 | (b7 as u64);
    assert((r >> 56u64) as u8 == b0 && (r >> 48u64) as u8 == b1 && (r >> 40u64) as u8 == b2 && (r
        >> 32u64) as u8 == b3 && (r >> 24u64) as u8 == b4 && (r >> 16u64) as u8 == b5 && (r
        >> 8u64) as u8 == b6 && r as u8 == b7) by (bit_vector)
        requires
            r == (b0 as u64) << 56u64 | (b1 as u64) << 48u64 | (b2 as u64) << 40u64 | (b3 as u64)
                << 32u64 | (b4 as u64) << 24u64 | (b5 as u64) << 16u64 | (b6 as u64) << 8u64 | (
            b7 as u64),
    ;
    r
}

/// The big-endian representation of `x` (what `u64::to_be_bytes`
/// computes).
pub(crate) fn u64_to_be_bytes(x: u64) -> (r: [u8; 8])
    ensures
        forall|k: int| 0 <= k < 8 ==> #[trigger] r@[k] == be_byte(x, k),
{
    let r: [u8; 8] = [
        (x >> 56u64) as u8,
        (x >> 48u64) as u8,
        (x >> 40u64) as u8,
        (x >> 32u64) as u8,
        (x >> 24u64) as u8,
        (x >> 16u64) as u8,
        (x >> 8u64) as u8,
        x as u8,
    ];
    r
}

/// Exclusive or works byte by byte: byte `k` of `a ^ b ^ c` is the
/// exclusive or of the bytes `k` of `a`, `b` and `c`.
pub proof fn lemma_be_byte_xor3(a: u64, b: u64, c: u64, k: int)
    requires
        0 <= k < 8,
    ensures
        be_byte(a ^ b ^ c, k) == be_byte(a, k) ^ be_byte(b, k) ^ be_byte(c, k),
{
    if k == 0 {
        assert(((a ^ b ^ c) >> 56u64) as u8 == ((a >> 56u64) as u8) ^ ((b >> 56u64) as u8) ^ ((c
            >> 56u64) as u8)) by (bit_vector);
    } else if k == 1 {
        assert(((a ^ b ^ c) >> 48u64) as u8 == ((a >> 48u64) as u8) ^ ((b >> 48u64) as u8) ^ ((c
            >> 48u64) as u8)) by (bit_vector);
    } else if k == 2 {
        assert(((a ^ b ^ c) >> 40u64) as u8 == ((a >> 40u64) as u8) ^ ((b >> 40u64) as u8) ^ ((c
            >> 40u64) as u8)) by (bit_vector);
    } else if k == 3 {
        assert(((a ^ b ^ c) >> 32u64) as u8 == ((a >> 32u64) as u8) ^ ((b >> 32u64) as u8) ^ ((c
            >> 32u64) as u8)) by (bit_vector);
    } else if k == 4 {
        assert(((a ^ b ^ c) >> 24u64) as u8 == ((a >> 24u64) as u8) ^ ((b >> 24u64) as u8) ^ ((c
            >> 24u64) as u8)) by (bit_vector);
    } else if k == 5 {
        assert(((a ^ b ^ c) >> 16u64) as u8 == ((a >> 16u64) as u8) ^ ((b >> 16u64) as u8) ^ ((c
            >> 16u64) as u8)) by (bit_vector);
    } else if k == 6 {
        assert(((a ^ b ^ c) >> 8u64) as u8 == ((a >> 8u64) as u8) ^ ((b >> 8u64) as u8) ^ ((c
            >> 8u64) as u8)) by (bit_vector);
    } else {
        assert((a ^ b ^ c) as u8 == (a as u8) ^ (b as u8) ^ (c as u8)) by (bit_vector);
    }
}

} // verus!
