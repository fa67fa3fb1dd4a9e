//! Big-endian conversion between `u32` values and 4-byte sequences, the
//! integer encoding the chunk layout uses for its length and checksum fields.

use vstd::prelude::*;

verus! {

/// The 4 bytes of `x` in big-endian order.
pub open spec fn spec_u32_to_be_bytes(x: u32) -> Seq<u8> {
    seq![
        ((x >> 24) & 0xff) as u8,
        ((x >> 16) & 0xff) as u8,
        ((x >> 8) & 0xff) as u8,
        (x & 0xff) as u8,
    ]
}

/// The `u32` read from 4 bytes in big-endian order.
pub open spec fn spec_u32_from_be_bytes(s: Seq<u8>) -> u32
    recommends
        s.len() == 4,
{
    ((s[0] as u32) << 24) | ((s[1] as u32) << 16) | ((s[2] as u32) << 8) | (s[3] as u32)
}

/// The two conversions invert each other: every `u32` round-trips through
/// its big-endian bytes, and every 4-byte sequence round-trips through the
/// value it denotes.
pub proof fn lemma_u32_to_from_be_bytes()
    ensures
        forall|x: u32|
            {
                &&& (#[trigger] spec_u32_to_be_bytes(x)).len() == 4
                &&& spec_u32_from_be_bytes(spec_u32_to_be_bytes(x)) == x
            },
        forall|s: Seq<u8>|
            s.len() == 4 ==> #[trigger] spec_u32_to_be_bytes(spec_u32_from_be_bytes(s)) == s,
{
    assert forall|x: u32|
        {
            &&& (#[trigger] spec_u32_to_be_bytes(x)).len() == 4
            &&& spec_u32_from_be_bytes(spec_u32_to_be_bytes(x)) == x
        } by {
        let b0 = ((x >> 24) & 0xff) as u8;
        let b1 = ((x >> 16) & 0xff) as u8;
        let b2 = ((x >> 8) & 0xff) as u8;
        let b3 = (x & 0xff) as u8;
        assert(((b0 as u32) << 24) | ((b1 as u32) << 16) | ((b2 as u32) << 8) | (b3 as u32)
            == x) by (bit_vector)
            requires
                b0 == ((x >> 24) & 0xff) as u8,
                b1 == ((x >> 16) & 0xff) as u8,
                b2 == ((x >> 8) & 0xff) as u8,
                b3 == (x & 0xff) as u8,
        ;
    };
    assert forall|s: Seq<u8>| s.len() == 4 implies #[trigger] spec_u32_to_be_bytes(
        spec_u32_from_be_bytes(s),
    ) == s by {
        let x = spec_u32_from_be_bytes(s);
        let s0 = s[0];
        let s1 = s[1];
        let s2 = s[2];
        let s3 = s[3];
        assert(((x >> 24) & 0xff) as u8 == s0 && ((x >> 16) & 0xff) as u8 == s1 && ((x >> 8)
            & 0xff) as u8 == s2 && (x & 0xff) as u8 == s3) by (bit_vector)
            requires
                x == ((s0 as u32) << 24) | ((s1 as u32) << 16) | ((s2 as u32) << 8) | (
                s3 as u32),
        ;
        assert(spec_u32_to_be_bytes(spec_u32_from_be_bytes(s)) =~= s);
    };
}

/// Writes `x` as its 4 big-endian bytes.
pub fn u32_to_be_bytes(x: u32) -> (r: [u8; 4])
    ensures
        r@ == spec_u32_to_be_bytes(x),
{
    proof {
        assert((x >> 24) & 0xff < 256 && (x >> 16) & 0xff < 256 && (x >> 8) & 0xff < 256 && x
            & 0xff < 256) by (bit_vector);
    }
    let r = [((x >> 24) & 0xff) as u8, ((x >> 16) & 0xff) as u8, ((x >> 8) & 0xff) as u8, (x
        & 0xff) as u8];
    proof {
        assert(r@ =~= spec_u32_to_be_bytes(x));
    }
    r
}

/// Reads the `u32` denoted by 4 bytes in big-endian order.
pub fn u32_from_be_bytes(b0: u8, b1: u8, b2: u8, b3: u8) -> (r: u32)
    ensures
        r == spec_u32_from_be_bytes(seq![b0, b1, b2, b3]),
{
    ((b0 as u32) << 24) | ((b1 as u32) << 16) | ((b2 as u32) << 8) | (b3 as u32)
}

} // verus!
