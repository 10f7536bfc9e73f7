use tart_gnss_acquire::antenna_test::{count_reaching, is_reference, rank_antennas};
use tart_gnss_acquire::correlate::{code_phase_distance, outside_main_peak};
use tart_gnss_acquire::galileo::{hex_to_chips, GALILEO_E1_CHIPS};
use tart_gnss_acquire::simulator::XorShift64;

#[test]
fn xorshift_first_outputs() {
    // seed 1: x = 1; x ^= x << 13 (0x2001); x ^= x >> 7 (0x2041);
    // x ^= x << 17 (0x4082_2041).
    let mut rng = XorShift64::new(1);
    assert_eq!(rng.next_u64(), 0x4082_2041);
    // An even seed gets its low bit set, so seeds 0 and 1 agree.
    let mut a = XorShift64::new(0);
    let mut b = XorShift64::new(1);
    for _ in 0..100 {
        assert_eq!(a.next_u64(), b.next_u64());
    }
}

#[test]
fn xorshift_same_seed_same_sequence_never_zero() {
    let mut a = XorShift64::new(0x5EED_2026);
    let mut b = XorShift64::new(0x5EED_2026);
    for _ in 0..1000 {
        let x = a.next_u64();
        assert_eq!(x, b.next_u64());
        assert_ne!(x, 0);
    }
}

#[test]
fn code_phase_distance_wraps() {
    assert_eq!(code_phase_distance(0, 1022, 1023), 1);
    assert_eq!(code_phase_distance(1022, 0, 1023), 1);
    assert_eq!(code_phase_distance(100, 600, 1023), 500);
    assert_eq!(code_phase_distance(100, 700, 1023), 423);
    assert_eq!(code_phase_distance(5, 5, 1023), 0);
}

#[test]
fn second_peak_window() {
    // A 16-sample chip on a 16368-sample period: samples within a chip of
    // the peak (modulo the period) are excluded.
    assert!(!outside_main_peak(100, 100, 16368, 16));
    assert!(!outside_main_peak(16368 + 110, 100, 16368, 16));
    assert!(!outside_main_peak(5, 16360, 16368, 16));
    assert!(outside_main_peak(117, 100, 16368, 16));
    assert!(!outside_main_peak(116, 100, 16368, 16));
}

#[test]
fn rank_antennas_by_key_then_antenna() {
    // keys: higher is better.
    let ranks = rank_antennas(&[40, 41, 42, 43], &[5, 9, 9, 1]);
    assert_eq!(ranks, vec![3, 1, 2, 4]);
    assert_eq!(rank_antennas(&[], &[]), Vec::<usize>::new());
    // Equal antenna numbers and keys keep their order.
    assert_eq!(rank_antennas(&[7, 7], &[3, 3]), vec![1, 2]);
}

#[test]
fn hex_to_chips_msb_first() {
    let chips = hex_to_chips("F0a5");
    assert_eq!(chips.len(), GALILEO_E1_CHIPS);
    assert_eq!(&chips[0..4], &[1, 1, 1, 1]);
    assert_eq!(&chips[4..8], &[-1, -1, -1, -1]);
    assert_eq!(&chips[8..12], &[1, -1, 1, -1]);
    assert_eq!(&chips[12..16], &[-1, 1, -1, 1]);
    assert!(chips[16..].iter().all(|&c| c == 0));
}

#[test]
fn hex_to_chips_full_length() {
    let hex = "9".repeat(GALILEO_E1_CHIPS / 4 + 3);
    let chips = hex_to_chips(&hex);
    assert_eq!(chips.len(), GALILEO_E1_CHIPS);
    for k in 0..GALILEO_E1_CHIPS / 4 {
        assert_eq!(&chips[4 * k..4 * k + 4], &[1, -1, -1, 1]);
    }
}

/// The C/N0 keys of the test below: order-preserving encodings of positive
/// floating-point values (their bits with the top bit set).
fn key(x: f64) -> u64 {
    x.to_bits() | (1u64 << 63)
}

#[test]
fn reference_satellite_needs_every_antenna_and_one_above_threshold() {
    let min = key(43.0);
    // Both below the threshold: not a reference satellite.
    assert!(!is_reference(&[key(40.0), key(41.0)], 2, min));
    // One antenna reaching it is enough.
    assert!(is_reference(&[key(40.0), key(43.0)], 2, min));
    assert!(is_reference(&[key(45.0), key(46.0)], 2, min));
    // An estimate missing for some antenna excludes the satellite.
    assert!(!is_reference(&[key(45.0), key(46.0)], 3, min));
    assert!(!is_reference(&[], 0, min));
}

#[test]
fn count_reaching_counts_values_at_or_above() {
    let min = key(44.0);
    assert_eq!(count_reaching(&[key(46.1), key(44.0), key(38.2), key(44.8)], min), 3);
    assert_eq!(count_reaching(&[key(38.2), key(39.0)], min), 0);
    assert_eq!(count_reaching(&[], min), 0);
}

#[test]
fn rank_one_holds_the_best_key() {
    let keys = [key(41.5), key(42.5), key(43.5)];
    let ranks = rank_antennas(&[0, 1, 2], &keys);
    assert_eq!(ranks, vec![3, 2, 1]);
    let best = ranks.iter().position(|&r| r == 1).unwrap();
    assert!(keys.iter().all(|&k| k <= keys[best]));
}
