use p3_challenger::{
    check_witness_value, limbs_of, mask_limbs, sample_bits_value, DuplexChallengerTarget,
};

/// A stand-in permutation: each output wire depends on the whole state and
/// on its position, so that order mistakes show.
fn mock_permute(state: &[u64]) -> Vec<u64> {
    let sum: u64 = state.iter().fold(0u64, |a, b| a.wrapping_mul(31).wrapping_add(*b));
    (0..state.len())
        .map(|i| sum.wrapping_add(1000 * (i as u64 + 1)).wrapping_add(state[(i + 1) % state.len()]))
        .collect()
}

struct Driver {
    x: DuplexChallengerTarget<u64>,
    permutations: usize,
}

impl Driver {
    fn new(width: usize) -> Self {
        Driver { x: DuplexChallengerTarget::new((0..width as u64).map(|i| 500 + i).collect()), permutations: 0 }
    }

    fn duplex(&mut self) {
        let s = self.x.load_inputs();
        let p = mock_permute(&s);
        self.x.refill(p);
        self.permutations += 1;
    }

    fn observe_single(&mut self, v: u64) {
        if self.x.observe_single(v) {
            self.duplex();
        }
    }

    fn sample(&mut self) -> u64 {
        if self.x.needs_duplex() {
            self.duplex();
        }
        self.x.sample()
    }
}

#[test]
fn full_batch_of_twelve_then_thirteen_samples() {
    let mut d = Driver::new(12);
    let inputs: Vec<u64> = (0..12).map(|i| 7 * i + 3).collect();
    for v in &inputs {
        d.observe_single(*v);
    }
    assert_eq!(d.permutations, 1);
    let permuted = mock_permute(&inputs);
    let outs: Vec<u64> = (0..12).map(|_| d.sample()).collect();
    let mut reversed = permuted.clone();
    reversed.reverse();
    assert_eq!(outs, reversed);
    assert_eq!(d.permutations, 1);
    let thirteenth = d.sample();
    assert_eq!(d.permutations, 2);
    assert_eq!(thirteenth, *mock_permute(&permuted).last().unwrap());
}

#[test]
fn fresh_transcript_releases_width_outputs_per_permutation() {
    let mut d = Driver::new(4);
    let initial: Vec<u64> = vec![500, 501, 502, 503];
    let outs: Vec<u64> = (0..4).map(|_| d.sample()).collect();
    assert_eq!(d.permutations, 1);
    let permuted = mock_permute(&initial);
    assert_eq!(outs, vec![permuted[3], permuted[2], permuted[1], permuted[0]]);
    d.sample();
    assert_eq!(d.permutations, 2);
}

#[test]
fn observe_discards_pending_outputs() {
    let mut d = Driver::new(4);
    d.sample();
    assert_eq!(d.permutations, 1);
    assert!(!d.x.needs_duplex());
    d.observe_single(42);
    assert!(d.x.needs_duplex());
    d.sample();
    assert_eq!(d.permutations, 2);
}

#[test]
fn observe_filling_the_buffer_duplexes_once() {
    let mut d = Driver::new(2);
    d.observe_single(1);
    d.sample();
    assert_eq!(d.permutations, 1);
    d.observe_single(2);
    d.observe_single(3);
    assert_eq!(d.permutations, 2);
    d.sample();
    assert_eq!(d.permutations, 2);
}

#[test]
fn load_inputs_overwrites_only_a_prefix() {
    let mut x = DuplexChallengerTarget::new(vec![10u64, 11, 12, 13, 14]);
    assert_eq!(x.width(), 5);
    assert!(!x.observe_single(1));
    assert!(!x.observe_single(2));
    let s = x.load_inputs();
    assert_eq!(s, vec![1, 2, 12, 13, 14]);
    assert!(x.needs_duplex());
    x.refill(vec![20, 21, 22, 23, 24]);
    assert!(!x.needs_duplex());
    assert_eq!(x.sample(), 24);
    assert_eq!(x.sample(), 23);
}

#[test]
fn observe_stops_when_the_buffer_fills() {
    let mut x = DuplexChallengerTarget::new(vec![0u64; 3]);
    let values: Vec<u64> = vec![1, 2, 3, 4, 5];
    let next = x.observe(&values, 0);
    assert_eq!(next, 3);
    assert!(x.inputs_full());
    assert_eq!(x.load_inputs(), vec![1, 2, 3]);
    x.refill(vec![7, 8, 9]);
    let next = x.observe(&values, next);
    assert_eq!(next, 5);
    assert!(!x.inputs_full());
    assert!(x.needs_duplex());
    assert_eq!(x.load_inputs(), vec![4, 5, 9]);
}

#[test]
fn observe_of_nothing_keeps_outputs() {
    let mut x = DuplexChallengerTarget::new(vec![0u64; 3]);
    x.refill(vec![7, 8, 9]);
    let values: Vec<u64> = vec![1];
    assert_eq!(x.observe(&values, 1), 1);
    assert!(!x.needs_duplex());
    assert_eq!(x.sample(), 9);
}

#[test]
fn limbs_split_low_and_high() {
    assert_eq!(limbs_of(0xDEAD_BEEF_1234_5678), (0x1234_5678, 0xDEAD_BEEF));
    assert_eq!(limbs_of(0), (0, 0));
    assert_eq!(limbs_of(u64::MAX), (u32::MAX, u32::MAX));
}

#[test]
fn mask_limbs_exact() {
    assert_eq!(mask_limbs(0), (0, 0));
    assert_eq!(mask_limbs(1), (1, 0));
    assert_eq!(mask_limbs(32), (0xFFFF_FFFF, 0));
    assert_eq!(mask_limbs(40), (0xFFFF_FFFF, 0xFF));
    assert_eq!(mask_limbs(63), (0xFFFF_FFFF, 0x7FFF_FFFF));
}

#[test]
fn sample_bits_exact_values() {
    let r: u64 = 0xDEAD_BEEF_1234_5678;
    assert_eq!(sample_bits_value(r, 0), 0);
    assert_eq!(sample_bits_value(r, 8), 0x78);
    assert_eq!(sample_bits_value(r, 32), 0x1234_5678);
    assert_eq!(sample_bits_value(r, 36), 0xF_1234_5678);
    assert_eq!(sample_bits_value(r, 63), 0x5EAD_BEEF_1234_5678);
}

#[test]
fn sample_bits_zero_bits_is_zero() {
    for r in [0u64, 1, 12345, u64::MAX, 0x8000_0000_0000_0000] {
        assert_eq!(sample_bits_value(r, 0), 0);
    }
}

#[test]
fn sample_bits_stays_below_bound() {
    for r in [0u64, 1, 0xFFFF_FFFF, 0x1_0000_0000, u64::MAX, 0x0123_4567_89AB_CDEF] {
        for bits in 0..64usize {
            let v = sample_bits_value(r, bits);
            assert!(v < (1u64 << bits));
            assert_eq!(v, r & ((1u64 << bits) - 1));
        }
    }
}

#[test]
fn witness_check_accepts_only_zero() {
    assert!(check_witness_value(0xFFFF_0000, 16));
    assert!(!check_witness_value(0xFFFF_0001, 16));
    assert!(check_witness_value(0x1_0000_0000, 32));
    assert!(!check_witness_value(0x1_0000_0000, 33));
    assert!(check_witness_value(u64::MAX, 0));
}
