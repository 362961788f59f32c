use vstd::prelude::*;
use vstd::arithmetic::power2::pow2;
use vstd::bits::{low_bits_mask, lemma_u64_low_bits_mask_is_mod, lemma_u64_shl_is_mul, lemma_u64_pow2_no_overflow};

verus! {

/// The integer that the reference transcript derives from a sampled value
/// `r`: `r & (2^bits - 1)`, that is its low `bits` bits.
pub open spec fn sample_bits_spec(r: u64, bits: nat) -> nat {
    r as nat % pow2(bits)
}

/// The value that the circuit rebuilds from two masked 32-bit limbs:
/// `(r_high & mask_high) * 2^32 + (r_low & mask_low)`.
pub open spec fn limb_recombination(r: u64, mask: u64) -> int {
    ((r >> 32u64) & (mask >> 32u64)) as int * 0x1_0000_0000 + ((r & 0xffff_ffff) & (mask
        & 0xffff_ffff)) as int
}

/// Splits a 64-bit value into its low and high 32-bit limbs.
pub fn limbs_of(v: u64) -> (r: (u32, u32))
    ensures
        r.0 as int == v as int % 0x1_0000_0000,
        r.1 as int == v as int / 0x1_0000_0000,
        r.0 == v & 0xffff_ffff,
        r.1 == v >> 32u64,
{
    let low: u32 = (v & 0xffff_ffff) as u32;
    let high: u32 = (v >> 32u64) as u32;
    assert(v & 0xffff_ffff == v % 0x1_0000_0000) by (bit_vector);
    assert(v >> 32u64 == v / 0x1_0000_0000) by (bit_vector);
    (low, high)
}

proof fn lemma_mask_value(bits: u64)
    requires
        bits < 64,
    ensures
        1u64 << bits == pow2(bits as nat),
        ((1u64 << bits) - 1) as u64 == low_bits_mask(bits as nat) as u64,
        pow2(bits as nat) <= 0x8000_0000_0000_0000,
{
    lemma_u64_pow2_no_overflow(bits as nat);
    vstd::arithmetic::power2::lemma_pow2_strictly_increases(bits as nat, 64);
    vstd::arithmetic::power2::lemma2_to64();
    vstd::arithmetic::power2::lemma2_to64_rest();
    vstd::arithmetic::power2::lemma_pow2_adds(bits as nat, (63 - bits) as nat);
    assert(pow2(bits as nat) <= 0x8000_0000_0000_0000) by {
        vstd::arithmetic::power2::lemma_pow2_pos((63 - bits) as nat);
    }
    lemma_u64_shl_is_mul(1, bits);
}

/// The limbs of the mask `2^bits - 1`, low limb first.
pub fn mask_limbs(bits: usize) -> (r: (u32, u32))
    requires
        bits < 64,
    ensures
        r.1 as int * 0x1_0000_0000 + r.0 as int == pow2(bits as nat) - 1,
        r.0 as int == (pow2(bits as nat) - 1) % 0x1_0000_0000,
        r.1 as int == (pow2(bits as nat) - 1) / 0x1_0000_0000,
{
    let b: u64 = bits as u64;
    assert(1u64 << b >= 1) by (bit_vector)
        requires
            b < 64,
    ;
    proof {
        lemma_mask_value(b);
    }
    let mask: u64 = (1u64 << b) - 1;
    limbs_of(mask)
}

/// Derives a value of at most `bits` bits from a sampled value `r`, as the
/// circuit does: both values are split into 32-bit limbs, the limbs are
/// masked one by one and put back together.
pub fn sample_bits_value(r: u64, bits: usize) -> (v: u64)
    requires
        bits < 64,
    ensures
        v as nat == sample_bits_spec(r, bits as nat),
        v < pow2(bits as nat),
        bits == 0 ==> v == 0,
{
    let b: u64 = bits as u64;
    assert(1u64 << b >= 1) by (bit_vector)
        requires
            b < 64,
    ;
    proof {
        lemma_mask_value(b);
    }
    let mask: u64 = (1u64 << b) - 1;
    let (r_low, r_high) = limbs_of(r);
    let (mask_low, mask_high) = limbs_of(mask);
    let low: u32 = r_low & mask_low;
    let high: u32 = r_high & mask_high;
    assert(((r >> 32u64) & (mask >> 32u64)) * 0x1_0000_0000u64 + ((r & 0xffff_ffff) & (mask
        & 0xffff_ffff)) == r & mask) by (bit_vector);
    assert(((r >> 32u64) & (mask >> 32u64)) <= 0xffff_ffff) by (bit_vector);
    assert(((r & 0xffff_ffff) & (mask & 0xffff_ffff)) <= 0xffff_ffff) by (bit_vector);
    assert(high as u64 == (r >> 32u64) & (mask >> 32u64)) by (bit_vector)
        requires
            high == r_high & mask_high,
            r_high == r >> 32u64,
            mask_high == mask >> 32u64,
    ;
    assert(low as u64 == (r & 0xffff_ffff) & (mask & 0xffff_ffff)) by (bit_vector)
        requires
            low == r_low & mask_low,
            r_low == r & 0xffff_ffff,
            mask_low == mask & 0xffff_ffff,
    ;
    let v: u64 = high as u64 * 0x1_0000_0000u64 + low as u64;
    proof {
        lemma_u64_low_bits_mask_is_mod(r, bits as nat);
        vstd::arithmetic::power2::lemma_pow2_pos(bits as nat);
        vstd::arithmetic::power2::lemma2_to64();
    }
    v
}

/// The proof-of-work check: whether the value derived from the sampled
/// value `r` is zero, which is what the circuit constrains.
pub fn check_witness_value(r: u64, bits: usize) -> (accepted: bool)
    requires
        bits < 64,
    ensures
        accepted == (sample_bits_spec(r, bits as nat) == 0),
{
    sample_bits_value(r, bits) == 0
}

/// The circuit's check of a proof-of-work witness constrains the limb
/// recombination of the sampled value and the mask `2^bits - 1` to zero;
/// that recombination is exactly the reference transcript's bounded value,
/// so the constraint holds if and only if the reference value is zero.
pub proof fn lemma_witness_check(r: u64, bits: u64)
    requires
        bits < 64,
    ensures
        limb_recombination(r, (pow2(bits as nat) - 1) as u64) == sample_bits_spec(r, bits as nat),
        (limb_recombination(r, (pow2(bits as nat) - 1) as u64) == 0) <==> (sample_bits_spec(
            r,
            bits as nat,
        ) == 0),
{
    lemma_mask_value(bits);
    vstd::arithmetic::power2::lemma_pow2_pos(bits as nat);
    let mask: u64 = (pow2(bits as nat) - 1) as u64;
    assert(((r >> 32u64) & (mask >> 32u64)) * 0x1_0000_0000u64 + ((r & 0xffff_ffff) & (mask
        & 0xffff_ffff)) == r & mask) by (bit_vector);
    assert(((r >> 32u64) & (mask >> 32u64)) <= 0xffff_ffff) by (bit_vector);
    lemma_u64_low_bits_mask_is_mod(r, bits as nat);
}

} // verus!
