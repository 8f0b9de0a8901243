use vstd::prelude::*;

verus! {

/// The four big-endian bytes of a 32-bit unsigned integer.
pub open spec fn spec_u32_be(n: u32) -> Seq<u8> {
    seq![(n >> 24) as u8, (n >> 16) as u8, (n >> 8) as u8, n as u8]
}

/// The 32-bit unsigned integer read from four big-endian bytes.
pub open spec fn spec_u32_from_be(b0: u8, b1: u8, b2: u8, b3: u8) -> u32 {
    ((b0 as u32) << 24) | ((b1 as u32) << 16) | ((b2 as u32) << 8) | (b3 as u32)
}

/// Reading four big-endian bytes and writing them back yields the same bytes.
pub proof fn lemma_u32_be_from_be(b0: u8, b1: u8, b2: u8, b3: u8)
    ensures
        spec_u32_be(spec_u32_from_be(b0, b1, b2, b3)) == seq![b0, b1, b2, b3],
{
    let n = spec_u32_from_be(b0, b1, b2, b3);
    assert((((b0 as u32) << 24) | ((b1 as u32) << 16) | ((b2 as u32) << 8) | (b3 as u32)) >> 24
        == b0 as u32) by (bit_vector);
    assert(((((b0 as u32) << 24) | ((b1 as u32) << 16) | ((b2 as u32) << 8) | (b3 as u32)) >> 16)
        as u8 == b1) by (bit_vector);
    assert(((((b0 as u32) << 24) | ((b1 as u32) << 16) | ((b2 as u32) << 8) | (b3 as u32)) >> 8)
        as u8 == b2) by (bit_vector);
    assert((((b0 as u32) << 24) | ((b1 as u32) << 16) | ((b2 as u32) << 8) | (b3 as u32)) as u8
        == b3) by (bit_vector);
    assert(spec_u32_be(n) =~= seq![b0, b1, b2, b3]);
}

/// Writing a 32-bit integer as big-endian bytes and reading them back yields the integer.
pub proof fn lemma_u32_from_be_be(n: u32)
    ensures
        spec_u32_from_be((n >> 24) as u8, (n >> 16) as u8, (n >> 8) as u8, n as u8) == n,
{
    assert(((((n >> 24) as u8) as u32) << 24) | ((((n >> 16) as u8) as u32) << 16) | ((((n >> 8)
        as u8) as u32) << 8) | ((n as u8) as u32) == n) by (bit_vector);
}

/// Writes a 32-bit unsigned integer as four big-endian bytes.
pub fn u32_to_be_bytes(n: u32) -> (r: [u8; 4])
    ensures
        r@ == spec_u32_be(n),
{
    let r = [(n >> 24) as u8, (n >> 16) as u8, (n >> 8) as u8, n as u8];
    proof {
        assert(r@ =~= spec_u32_be(n));
    }
    r
}

/// Reads a 32-bit unsigned integer from four big-endian bytes.
pub fn u32_from_be_bytes(b0: u8, b1: u8, b2: u8, b3: u8) -> (r: u32)
    ensures
        r == spec_u32_from_be(b0, b1, b2, b3),
{
    ((b0 as u32) << 24) | ((b1 as u32) << 16) | ((b2 as u32) << 8) | (b3 as u32)
}

/// The CRC-32 (IEEE polynomial, as used by PNG) of a byte sequence.
/// Its value is pinned down only by the outside routine that computes it.
pub uninterp spec fn crc32_of(bytes: Seq<u8>) -> u32;

/// Relies on crc32fast::hash: the CRC-32 (IEEE) checksum of the bytes,
/// a function of the bytes alone.
#[verifier::external_body]
pub(crate) fn crc32(bytes: &[u8]) -> (r: u32)
    ensures
        r == crc32_of(bytes@),
{
    crc32fast::hash(bytes)
}

} // verus!
