//! The checksum of addresses.

use vstd::prelude::*;

verus! {

/// The remainder after one more bit, by the polynomial `0x1021`.
pub open spec fn crc_bit(crc: u16) -> u16 {
    if crc & 0x8000 != 0 {
        (crc << 1) ^ 0x1021
    } else {
        crc << 1
    }
}

/// The remainder after one more byte, high bit first.
#[verifier::opaque]
pub open spec fn crc_byte(crc: u16, byte: u8) -> u16 {
    let mixed = crc ^ ((byte as u16) << 8);
    crc_bit(crc_bit(crc_bit(crc_bit(crc_bit(crc_bit(crc_bit(crc_bit(mixed))))))))
}

/// The checksum of these bytes: sixteen bits by the polynomial `0x1021`, from zero on.
pub open spec fn crc16_xmodem(data: Seq<u8>) -> u16
    decreases data.len(),
{
    if data.len() == 0 {
        0
    } else {
        crc_byte(crc16_xmodem(data.drop_last()), data.last())
    }
}

/// Calls `crc16::State::<crc16::XMODEM>::calculate`. Trusted: the result is the checksum by the
/// polynomial `0x1021`, high bit first, that starts from zero and is not changed at the end.
#[verifier::external_body]
pub(crate) fn crc16(data: &[u8]) -> (checksum: u16)
    ensures
        checksum == crc16_xmodem(data@),
{
    crc16::State::<crc16::XMODEM>::calculate(data)
}

/// What eight bits make of a remainder, without a loop.
spec fn eight_bits(crc: u16) -> u16 {
    let high = (crc >> 8) ^ (crc >> 12);
    (crc << 8) ^ (high << 12) ^ (high << 5) ^ high
}

proof fn lemma_eight_bits(crc: u16, byte: u8)
    ensures
        crc_byte(crc, byte) == eight_bits(crc ^ ((byte as u16) << 8)),
{
    reveal(crc_byte);
    let c0 = crc ^ ((byte as u16) << 8);
    let c1 = crc_bit(c0);
    let c2 = crc_bit(c1);
    let c3 = crc_bit(c2);
    let c4 = crc_bit(c3);
    let c5 = crc_bit(c4);
    let c6 = crc_bit(c5);
    let c7 = crc_bit(c6);
    let c8 = crc_bit(c7);
    assert(c8 == eight_bits(c0)) by (bit_vector)
        requires
            c1 == crc_bit(c0),
            c2 == crc_bit(c1),
            c3 == crc_bit(c2),
            c4 == crc_bit(c3),
            c5 == crc_bit(c4),
            c6 == crc_bit(c5),
            c7 == crc_bit(c6),
            c8 == crc_bit(c7),
    ;
}

/// Different remainders stay different when the same byte follows.
proof fn lemma_byte_keeps_difference(a: u16, b: u16, byte: u8)
    requires
        a != b,
    ensures
        crc_byte(a, byte) != crc_byte(b, byte),
{
    lemma_eight_bits(a, byte);
    lemma_eight_bits(b, byte);
    assert(eight_bits(a ^ ((byte as u16) << 8)) != eight_bits(b ^ ((byte as u16) << 8)))
        by (bit_vector)
        requires
            a != b,
    ;
}

/// From the same remainder, different pairs of bytes lead to different remainders.
proof fn lemma_pair_makes_difference(crc: u16, a0: u8, a1: u8, b0: u8, b1: u8)
    requires
        a0 != b0 || a1 != b1,
    ensures
        crc_byte(crc_byte(crc, a0), a1) != crc_byte(crc_byte(crc, b0), b1),
{
    let a = crc_byte(crc, a0);
    let b = crc_byte(crc, b0);
    lemma_eight_bits(crc, a0);
    lemma_eight_bits(crc, b0);
    lemma_eight_bits(a, a1);
    lemma_eight_bits(b, b1);
    assert(eight_bits(a ^ ((a1 as u16) << 8)) != eight_bits(b ^ ((b1 as u16) << 8)))
        by (bit_vector)
        requires
            a == eight_bits(crc ^ ((a0 as u16) << 8)),
            b == eight_bits(crc ^ ((b0 as u16) << 8)),
            a0 != b0 || a1 != b1,
    ;
}

/// A remainder followed by its own two bytes leaves nothing.
proof fn lemma_own_checksum(crc: u16, high: u8, low: u8)
    requires
        crc == high * 256 + low,
    ensures
        crc_byte(crc_byte(crc, high), low) == 0,
{
    let c = crc_byte(crc, high);
    lemma_eight_bits(crc, high);
    lemma_eight_bits(c, low);
    assert(eight_bits(c ^ ((low as u16) << 8)) == 0) by (bit_vector)
        requires
            c == eight_bits(crc ^ ((high as u16) << 8)),
            crc == high * 256 + low,
    ;
}

/// The two bytes at the end are the checksum of the bytes before them, high byte first, if and
/// only if the checksum of all of them is zero.
pub proof fn lemma_checksum_at_end(data: Seq<u8>, high: u8, low: u8)
    ensures
        crc16_xmodem(data + seq![high, low]) == 0 <==> crc16_xmodem(data) == high * 256 + low,
{
    reveal_with_fuel(crc16_xmodem, 3);
    let crc = crc16_xmodem(data);
    let all = data + seq![high, low];
    assert(all.drop_last() =~= data.push(high));
    assert(data.push(high).drop_last() =~= data);
    assert(crc16_xmodem(all) == crc_byte(crc_byte(crc, high), low));
    let h = (crc / 256) as u8;
    let l = (crc % 256) as u8;
    lemma_own_checksum(crc, h, l);
    if h != high || l != low {
        lemma_pair_makes_difference(crc, h, l, high, low);
    }
}

/// Bytes that differ only in one place, of one or two bytes, have different checksums.
pub proof fn lemma_pair_changes_checksum(a: Seq<u8>, b: Seq<u8>, at: int)
    requires
        a.len() == b.len(),
        0 <= at < a.len() - 1,
        forall|i: int| 0 <= i < a.len() && i != at && i != at + 1 ==> #[trigger] a[i] == b[i],
        a[at] != b[at] || a[at + 1] != b[at + 1],
    ensures
        crc16_xmodem(a) != crc16_xmodem(b),
    decreases a.len(),
{
    reveal_with_fuel(crc16_xmodem, 3);
    let a_head = a.drop_last();
    let b_head = b.drop_last();
    if a.len() == at + 2 {
        assert(a_head.drop_last() =~= b_head.drop_last());
        lemma_pair_makes_difference(
            crc16_xmodem(a_head.drop_last()),
            a[at],
            a[at + 1],
            b[at],
            b[at + 1],
        );
    } else {
        assert forall|i: int|
            0 <= i < a_head.len() && i != at && i != at + 1 implies #[trigger] a_head[i]
            == b_head[i] by {
            assert(a[i] == b[i]);
        }
        lemma_pair_changes_checksum(a_head, b_head, at);
        assert(a.last() == b.last());
        lemma_byte_keeps_difference(crc16_xmodem(a_head), crc16_xmodem(b_head), a.last());
    }
}

} // verus!
