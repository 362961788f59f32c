//! A duplex-sponge Fiat-Shamir transcript for arithmetic circuits.
//!
//! The transcript moves circuit wires between a sponge state and two
//! buffers. The permutation itself is applied by the caller: the transcript
//! says when one is due, hands out the state to permute and takes the
//! permuted state back. The `bits` module holds the derivation of a
//! challenge of fewer than 64 bits through 32-bit limbs.
mod bits;
mod challenger;
mod lemmas;

pub use bits::{
    check_witness_value, lemma_witness_check, limb_recombination, limbs_of, mask_limbs,
    sample_bits_spec, sample_bits_value,
};
pub use challenger::{keeps_width, DuplexChallengerTarget, Transcript};
pub use lemmas::{lemma_fresh_sampling, lemma_full_batch, lemma_observe_invalidates};
