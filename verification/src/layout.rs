//! The declared layout of the kernel's TCP diagnostics structure: an ordered
//! list of field bit widths, packed sequentially with no implicit padding.
//! A field's bit offset is the sum of the widths declared before it, and the
//! total width, including the explicit trailing pad field, is a whole number
//! of bytes.

use vstd::prelude::*;

verus! {

/// The bit widths of the diagnostics fields, in declaration order, ending
/// with the explicit pad field that rounds the total up to a byte boundary.
///
/// The order is: state, ca_state, retransmits, probes, backoff, options
/// (one byte each); snd_wscale and rcv_wscale (a nibble each, sharing a
/// byte); the delivery-rate-app-limited flag (one bit); then the 32- and
/// 64-bit counters and metrics; then the pad.
pub open spec fn field_widths() -> Seq<nat> {
    seq![
        8, 8, 8, 8, 8, 8, 4, 4, 1,
        32, 32, 32, 32,
        32, 32, 32, 32, 32,
        32, 32, 32, 32,
        32, 32, 32, 32, 32, 32, 32, 32,
        32, 32,
        32,
        64, 64, 64, 64, 32, 32,
        32, 32, 32, 32,
        64,
        64, 64, 64,
        32, 32,
        64, 64, 32, 32,
        7,
    ]
}

/// Sum of the first `n` declared widths.
pub open spec fn sum_widths(n: int) -> nat
    decreases n,
{
    if n <= 0 {
        0
    } else {
        sum_widths(n - 1) + field_widths()[n - 1]
    }
}

/// Bit offset of field `i`: everything declared before it, packed with no
/// gaps.
pub open spec fn bit_offset(i: int) -> nat {
    sum_widths(i)
}

/// Total declared bit width of the layout, pad included.
pub open spec fn total_bits() -> nat {
    sum_widths(field_widths().len() as int)
}

/// The declared layout is byte-aligned: its total bit width, including the
/// explicit trailing pad field, is a multiple of 8, and it fills exactly
/// `crate::TCP_INFO_LEN` bytes. The ensures also pin every field's bit
/// offset, so the fixed positions the decoder reads at are exactly the sums
/// of the widths declared before each field.
pub proof fn lemma_layout_byte_aligned()
    ensures
        total_bits() == 1792,
        total_bits() % 8 == 0,
        total_bits() == 8 * crate::TCP_INFO_LEN,
        bit_offset(0) == 0,
        bit_offset(1) == 8,
        bit_offset(2) == 16,
        bit_offset(3) == 24,
        bit_offset(4) == 32,
        bit_offset(5) == 40,
        bit_offset(6) == 48,
        bit_offset(7) == 52,
        bit_offset(8) == 56,
        bit_offset(9) == 57,
        bit_offset(10) == 89,
        bit_offset(11) == 121,
        bit_offset(12) == 153,
        bit_offset(13) == 185,
        bit_offset(14) == 217,
        bit_offset(15) == 249,
        bit_offset(16) == 281,
        bit_offset(17) == 313,
        bit_offset(18) == 345,
        bit_offset(19) == 377,
        bit_offset(20) == 409,
        bit_offset(21) == 441,
        bit_offset(22) == 473,
        bit_offset(23) == 505,
        bit_offset(24) == 537,
        bit_offset(25) == 569,
        bit_offset(26) == 601,
        bit_offset(27) == 633,
        bit_offset(28) == 665,
        bit_offset(29) == 697,
        bit_offset(30) == 729,
        bit_offset(31) == 761,
        bit_offset(32) == 793,
        bit_offset(33) == 825,
        bit_offset(34) == 889,
        bit_offset(35) == 953,
        bit_offset(36) == 1017,
        bit_offset(37) == 1081,
        bit_offset(38) == 1113,
        bit_offset(39) == 1145,
        bit_offset(40) == 1177,
        bit_offset(41) == 1209,
        bit_offset(42) == 1241,
        bit_offset(43) == 1273,
        bit_offset(44) == 1337,
        bit_offset(45) == 1401,
        bit_offset(46) == 1465,
        bit_offset(47) == 1529,
        bit_offset(48) == 1561,
        bit_offset(49) == 1593,
        bit_offset(50) == 1657,
        bit_offset(51) == 1721,
        bit_offset(52) == 1753,
        bit_offset(53) == 1785,
{
    assert(sum_widths(0) == 0);
    assert(sum_widths(1) == 8);
    assert(sum_widths(2) == 16);
    assert(sum_widths(3) == 24);
    assert(sum_widths(4) == 32);
    assert(sum_widths(5) == 40);
    assert(sum_widths(6) == 48);
    assert(sum_widths(7) == 52);
    assert(sum_widths(8) == 56);
    assert(sum_widths(9) == 57);
    assert(sum_widths(10) == 89);
    assert(sum_widths(11) == 121);
    assert(sum_widths(12) == 153);
    assert(sum_widths(13) == 185);
    assert(sum_widths(14) == 217);
    assert(sum_widths(15) == 249);
    assert(sum_widths(16) == 281);
    assert(sum_widths(17) == 313);
    assert(sum_widths(18) == 345);
    assert(sum_widths(19) == 377);
    assert(sum_widths(20) == 409);
    assert(sum_widths(21) == 441);
    assert(sum_widths(22) == 473);
    assert(sum_widths(23) == 505);
    assert(sum_widths(24) == 537);
    assert(sum_widths(25) == 569);
    assert(sum_widths(26) == 601);
    assert(sum_widths(27) == 633);
    assert(sum_widths(28) == 665);
    assert(sum_widths(29) == 697);
    assert(sum_widths(30) == 729);
    assert(sum_widths(31) == 761);
    assert(sum_widths(32) == 793);
    assert(sum_widths(33) == 825);
    assert(sum_widths(34) == 889);
    assert(sum_widths(35) == 953);
    assert(sum_widths(36) == 1017);
    assert(sum_widths(37) == 1081);
    assert(sum_widths(38) == 1113);
    assert(sum_widths(39) == 1145);
    assert(sum_widths(40) == 1177);
    assert(sum_widths(41) == 1209);
    assert(sum_widths(42) == 1241);
    assert(sum_widths(43) == 1273);
    assert(sum_widths(44) == 1337);
    assert(sum_widths(45) == 1401);
    assert(sum_widths(46) == 1465);
    assert(sum_widths(47) == 1529);
    assert(sum_widths(48) == 1561);
    assert(sum_widths(49) == 1593);
    assert(sum_widths(50) == 1657);
    assert(sum_widths(51) == 1721);
    assert(sum_widths(52) == 1753);
    assert(sum_widths(53) == 1785);
    assert(sum_widths(54) == 1792);
}

} // verus!
