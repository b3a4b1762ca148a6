//! Reading unsigned values out of a byte buffer at arbitrary bit positions.
//!
//! A buffer is viewed as one long bit string: bit `i` of the string is bit
//! `i % 8` of byte `i / 8`, counting from the least-significant bit. A field
//! of width `w` starting at bit `off` is the value whose bit `k` is string bit
//! `off + k`; multi-byte fields therefore come out little-endian, matching a
//! little-endian host's native order.

use vstd::prelude::*;
use vstd::arithmetic::power2::{
    pow2, lemma_pow2_unfold, lemma_pow2_pos, lemma_pow2_strictly_increases, lemma2_to64,
    lemma2_to64_rest,
};
use vstd::bits::{lemma_u64_shl_is_mul, lemma_u64_pow2_no_overflow};

verus! {

/// Bit `i` of the buffer's bit string: bit `i % 8` of byte `i / 8`,
/// counting from the least-significant bit of the byte.
pub open spec fn bit_at(b: Seq<u8>, i: nat) -> u8 {
    (b[(i / 8) as int] >> ((i % 8) as u8)) & 1
}

/// Value of the `width` bits starting at bit `off`, least-significant first.
pub open spec fn le_bits(b: Seq<u8>, off: nat, width: nat) -> nat
    decreases width,
{
    if width == 0 {
        0
    } else {
        le_bits(b, off, (width - 1) as nat) + (bit_at(b, (off + width - 1) as nat) as nat)
            * pow2((width - 1) as nat)
    }
}

pub proof fn lemma_bit_at_le_1(b: Seq<u8>, i: nat)
    ensures
        bit_at(b, i) <= 1,
{
    let byte = b[(i / 8) as int];
    let sh = (i % 8) as u8;
    assert((byte >> sh) & 1 <= 1) by (bit_vector);
}

/// Widening a field by one bit adds that bit's weight, and nothing when the
/// bit is clear.
pub proof fn lemma_le_bits_step(b: Seq<u8>, off: nat, i: nat)
    ensures
        le_bits(b, off, i + 1) == le_bits(b, off, i) + (bit_at(b, (off + i) as nat) as nat) * pow2(
            i,
        ),
        bit_at(b, (off + i) as nat) == 0 ==> le_bits(b, off, i + 1) == le_bits(b, off, i),
        bit_at(b, (off + i) as nat) == 1 ==> le_bits(b, off, i + 1) == le_bits(b, off, i) + pow2(
            i,
        ),
{
    lemma_bit_at_le_1(b, (off + i) as nat);
    let bit = bit_at(b, (off + i) as nat) as nat;
    assert(bit == 0 ==> bit * pow2(i) == 0) by (nonlinear_arith);
    assert(bit == 1 ==> bit * pow2(i) == pow2(i)) by (nonlinear_arith);
}

/// A field's value fits in its declared width.
pub proof fn lemma_le_bits_bound(b: Seq<u8>, off: nat, width: nat)
    ensures
        le_bits(b, off, width) < pow2(width),
    decreases width,
{
    if width == 0 {
        lemma2_to64();
    } else {
        let w1 = (width - 1) as nat;
        lemma_le_bits_bound(b, off, w1);
        lemma_pow2_unfold(width);
        lemma_pow2_pos(w1);
        lemma_bit_at_le_1(b, (off + w1) as nat);
        lemma_le_bits_step(b, off, w1);
    }
}

/// A field's value is determined by its own bits alone: two buffers that
/// agree on the bits of the field decode it to the same value, whatever
/// their other bits hold.
pub proof fn lemma_le_bits_eq(b1: Seq<u8>, b2: Seq<u8>, off: nat, width: nat)
    requires
        forall|k: nat| off <= k < off + width ==> bit_at(b1, k) == bit_at(b2, k),
    ensures
        le_bits(b1, off, width) == le_bits(b2, off, width),
    decreases width,
{
    if width > 0 {
        let w1 = (width - 1) as nat;
        lemma_le_bits_eq(b1, b2, off, w1);
        assert(bit_at(b1, (off + w1) as nat) == bit_at(b2, (off + w1) as nat));
    }
}

/// `2^e` as an executable value.
fn pow2_u64(e: u64) -> (r: u64)
    requires
        e < 64,
    ensures
        r as nat == pow2(e as nat),
{
    proof {
        lemma_u64_pow2_no_overflow(e as nat);
        lemma_u64_shl_is_mul(1u64, e);
    }
    1u64 << e
}

/// Read the `width`-bit field starting at bit `off` of `buf`.
pub fn read_bits(buf: &[u8], off: usize, width: usize) -> (r: u64)
    requires
        width <= 64,
        off + width <= buf@.len() * 8,
        off + width <= usize::MAX,
    ensures
        r as nat == le_bits(buf@, off as nat, width as nat),
{
    let mut r: u64 = 0;
    let mut i: usize = 0;
    proof {
        lemma2_to64();
    }
    while i < width
        invariant
            i <= width,
            width <= 64,
            off + width <= buf@.len() * 8,
            off + width <= usize::MAX,
            r as nat == le_bits(buf@, off as nat, i as nat),
            (r as nat) < pow2(i as nat),
        decreases width - i,
    {
        let idx: usize = off + i;
        assert(idx / 8 < buf@.len()) by (nonlinear_arith)
            requires
                idx < buf@.len() * 8,
        ;
        let byte: u8 = buf[idx / 8];
        let sh: u8 = (idx % 8) as u8;
        let bit: u8 = (byte >> sh) & 1;
        proof {
            assert((idx as nat) / 8 == (idx / 8) as nat);
            assert((idx as nat) % 8 == (idx % 8) as nat);
            assert(bit == bit_at(buf@, idx as nat));
            lemma_bit_at_le_1(buf@, idx as nat);
            lemma_le_bits_bound(buf@, off as nat, (i + 1) as nat);
            if i + 1 < 64 {
                lemma_pow2_strictly_increases((i + 1) as nat, 64);
            }
            lemma2_to64();
            lemma2_to64_rest();
            assert(pow2((i + 1) as nat) <= pow2(64));
            lemma_le_bits_step(buf@, off as nat, i as nat);
        }
        if bit == 1 {
            let p: u64 = pow2_u64(i as u64);
            r = r + p;
        }
        i = i + 1;
    }
    r
}

/// Read an 8-bit field.
pub fn read_u8_at(buf: &[u8], off: usize) -> (r: u8)
    requires
        off + 8 <= buf@.len() * 8,
        off + 8 <= usize::MAX,
    ensures
        r as nat == le_bits(buf@, off as nat, 8),
        r == le_bits(buf@, off as nat, 8) as u8,
{
    let v: u64 = read_bits(buf, off, 8);
    proof {
        lemma_le_bits_bound(buf@, off as nat, 8);
        lemma2_to64();
    }
    v as u8
}

/// Read a 4-bit field.
pub fn read_u4_at(buf: &[u8], off: usize) -> (r: u8)
    requires
        off + 4 <= buf@.len() * 8,
        off + 4 <= usize::MAX,
    ensures
        r as nat == le_bits(buf@, off as nat, 4),
        r == le_bits(buf@, off as nat, 4) as u8,
{
    let v: u64 = read_bits(buf, off, 4);
    proof {
        lemma_le_bits_bound(buf@, off as nat, 4);
        lemma2_to64();
    }
    v as u8
}

/// Read a 1-bit field as a flag.
pub fn read_bool_at(buf: &[u8], off: usize) -> (r: bool)
    requires
        off + 1 <= buf@.len() * 8,
        off + 1 <= usize::MAX,
    ensures
        r == (le_bits(buf@, off as nat, 1) == 1),
{
    let v: u64 = read_bits(buf, off, 1);
    proof {
        lemma_le_bits_bound(buf@, off as nat, 1);
        lemma2_to64();
    }
    v == 1
}

/// Read a 32-bit field.
pub fn read_u32_at(buf: &[u8], off: usize) -> (r: u32)
    requires
        off + 32 <= buf@.len() * 8,
        off + 32 <= usize::MAX,
    ensures
        r as nat == le_bits(buf@, off as nat, 32),
        r == le_bits(buf@, off as nat, 32) as u32,
{
    let v: u64 = read_bits(buf, off, 32);
    proof {
        lemma_le_bits_bound(buf@, off as nat, 32);
        lemma2_to64();
    }
    v as u32
}

/// Read a 64-bit field.
pub fn read_u64_at(buf: &[u8], off: usize) -> (r: u64)
    requires
        off + 64 <= buf@.len() * 8,
        off + 64 <= usize::MAX,
    ensures
        r as nat == le_bits(buf@, off as nat, 64),
        r == le_bits(buf@, off as nat, 64) as u64,
{
    let v: u64 = read_bits(buf, off, 64);
    proof {
        lemma_le_bits_bound(buf@, off as nat, 64);
    }
    v
}

} // verus!
