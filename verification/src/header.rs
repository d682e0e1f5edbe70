//! The request header: the requested response size as eight big-endian bytes.

use vstd::prelude::*;

verus! {

/// Number of bytes the header occupies at the start of every stream.
pub const HEADER_LEN: usize = 8;

/// The number that a byte string denotes when read most significant byte first.
pub open spec fn be_value(bytes: Seq<u8>) -> nat
    decreases bytes.len(),
{
    if bytes.len() == 0 {
        0
    } else {
        be_value(bytes.drop_last()) * 256 + bytes.last() as nat
    }
}

/// Unfolds [`be_value`] on a byte string of header length.
pub proof fn lemma_be_value_of_eight(bytes: Seq<u8>)
    requires
        bytes.len() == 8,
    ensures
        be_value(bytes) == bytes[0] as nat * 0x100_0000_0000_0000 + bytes[1] as nat
            * 0x1_0000_0000_0000 + bytes[2] as nat * 0x100_0000_0000 + bytes[3] as nat
            * 0x1_0000_0000 + bytes[4] as nat * 0x100_0000 + bytes[5] as nat * 0x1_0000
            + bytes[6] as nat * 0x100 + bytes[7] as nat,
{
    let s7 = bytes.drop_last();
    let s6 = s7.drop_last();
    let s5 = s6.drop_last();
    let s4 = s5.drop_last();
    let s3 = s4.drop_last();
    let s2 = s3.drop_last();
    let s1 = s2.drop_last();
    let s0 = s1.drop_last();
    assert(be_value(s0) == 0);
    assert(be_value(s1) == bytes[0] as nat);
    assert(be_value(s2) == be_value(s1) * 256 + bytes[1] as nat);
    assert(be_value(s3) == be_value(s2) * 256 + bytes[2] as nat);
    assert(be_value(s4) == be_value(s3) * 256 + bytes[3] as nat);
    assert(be_value(s5) == be_value(s4) * 256 + bytes[4] as nat);
    assert(be_value(s6) == be_value(s5) * 256 + bytes[5] as nat);
    assert(be_value(s7) == be_value(s6) * 256 + bytes[6] as nat);
    assert(be_value(bytes) == be_value(s7) * 256 + bytes[7] as nat);
}

/// Byte strings of one length that denote the same number are the same: a
/// header is determined by the size it announces.
pub proof fn lemma_be_value_is_injective(first: Seq<u8>, second: Seq<u8>)
    requires
        first.len() == second.len(),
        be_value(first) == be_value(second),
    ensures
        first == second,
    decreases first.len(),
{
    if first.len() > 0 {
        let value = be_value(first);
        assert(be_value(first.drop_last()) * 256 + first.last() as nat == value);
        assert(be_value(second.drop_last()) * 256 + second.last() as nat == value);
        assert(first.last() == second.last());
        lemma_be_value_is_injective(first.drop_last(), second.drop_last());
        assert(first =~= first.drop_last().push(first.last()));
        assert(second =~= second.drop_last().push(second.last()));
    } else {
        assert(first =~= second);
    }
}

/// Encodes the requested response size as the eight header bytes, most
/// significant byte first.
pub fn encode_header(requested_response_bytes: u64) -> (header: [u8; 8])
    ensures
        be_value(header@) == requested_response_bytes,
{
    let v: u64 = requested_response_bytes;
    let b0: u8 = (v >> 56) as u8;
    let b1: u8 = ((v >> 48) & 0xff) as u8;
    let b2: u8 = ((v >> 40) & 0xff) as u8;
    let b3: u8 = ((v >> 32) & 0xff) as u8;
    let b4: u8 = ((v >> 24) & 0xff) as u8;
    let b5: u8 = ((v >> 16) & 0xff) as u8;
    let b6: u8 = ((v >> 8) & 0xff) as u8;
    let b7: u8 = (v & 0xff) as u8;
    let header: [u8; 8] = [b0, b1, b2, b3, b4, b5, b6, b7];
    proof {
        assert(v == b0 * 0x100_0000_0000_0000 + b1 * 0x1_0000_0000_0000 + b2 * 0x100_0000_0000
            + b3 * 0x1_0000_0000 + b4 * 0x100_0000 + b5 * 0x1_0000 + b6 * 0x100 + b7)
            by (bit_vector)
            requires
                b0 == (v >> 56) as u8,
                b1 == ((v >> 48) & 0xff) as u8,
                b2 == ((v >> 40) & 0xff) as u8,
                b3 == ((v >> 32) & 0xff) as u8,
                b4 == ((v >> 24) & 0xff) as u8,
                b5 == ((v >> 16) & 0xff) as u8,
                b6 == ((v >> 8) & 0xff) as u8,
                b7 == (v & 0xff) as u8,
        ;
        lemma_be_value_of_eight(header@);
    }
    header
}

} // verus!
