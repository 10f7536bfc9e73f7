use tart_gnss_acquire::observation::{
    bipolar_correlation_sum, bipolar_samples, sample_sum, unpack_bits, unpack_rows,
    DataShapeError,
};
use tart_gnss_acquire::simulator::{flatten_rows, pack_row, XorShift64};

#[test]
fn test_unpack_bits() {
    // 0b10101010 -> MSB-first: 1,0,1,0,1,0,1,0
    let packed = vec![0b10101010];
    let bits = unpack_bits(&packed);
    assert_eq!(bits, vec![1, 0, 1, 0, 1, 0, 1, 0]);
}

#[test]
fn test_unpack_bits_all_ones() {
    let packed = vec![0xFF, 0x00];
    let bits = unpack_bits(&packed);
    assert_eq!(&bits[..8], &[1; 8]);
    assert_eq!(&bits[8..], &[0; 8]);
}

#[test]
fn test_pack_row_msb_first() {
    assert_eq!(pack_row(&[1, 0, 1, 0, 1, 0, 1, 0]), vec![0b10101010]);
    let packed = pack_row(&[1, 1, 1, 1, 0, 0, 0, 0, 0, 1, 0, 1]);
    assert_eq!(packed, vec![0b11110000, 0b01010000]);
}

#[test]
fn pack_row_empty_row() {
    assert_eq!(pack_row(&[]), Vec::<u8>::new());
    assert_eq!(unpack_bits(&[]), Vec::<u8>::new());
}

#[test]
fn pack_row_treats_non_one_samples_as_zero() {
    assert_eq!(pack_row(&[2, 1, 7, 1]), vec![0b01010000]);
}

#[test]
fn unpack_then_pack_round_trip() {
    let bytes: Vec<u8> = (0..=255u8).collect();
    assert_eq!(pack_row(&unpack_bits(&bytes)), bytes);
}

#[test]
fn pack_then_unpack_pads_with_zeros() {
    let bits = vec![1, 0, 1, 1, 0, 0, 1, 1, 1, 0, 1];
    let unpacked = unpack_bits(&pack_row(&bits));
    assert_eq!(unpacked.len(), 16);
    assert_eq!(&unpacked[..11], &bits[..]);
    assert_eq!(&unpacked[11..], &[0, 0, 0, 0, 0]);
}

#[test]
fn unpack_rows_splits_and_unpacks() {
    let packed = vec![0xF0, 0x0F, 0xAA, 0x55];
    match unpack_rows(&packed, 2, 2) {
        Ok(rows) => {
            assert_eq!(rows.len(), 2);
            assert_eq!(rows[0], vec![1, 1, 1, 1, 0, 0, 0, 0, 0, 0, 0, 0, 1, 1, 1, 1]);
            assert_eq!(rows[1], vec![1, 0, 1, 0, 1, 0, 1, 0, 0, 1, 0, 1, 0, 1, 0, 1]);
        }
        Err(_) => panic!("expected two rows"),
    }
}

#[test]
fn unpack_rows_short_last_row() {
    let packed = vec![0xFF, 0x00, 0x80];
    match unpack_rows(&packed, 2, 2) {
        Ok(rows) => {
            assert_eq!(rows[1], vec![1, 0, 0, 0, 0, 0, 0, 0]);
        }
        Err(_) => panic!("expected two rows"),
    }
}

#[test]
fn unpack_rows_count_mismatch() {
    let packed = vec![0u8; 6];
    match unpack_rows(&packed, 2, 4) {
        Err(DataShapeError::AntennaCountMismatch { rows }) => assert_eq!(rows, 3),
        Ok(_) => panic!("expected a count mismatch"),
    }
    match unpack_rows(&[], 3, 1) {
        Err(DataShapeError::AntennaCountMismatch { rows }) => assert_eq!(rows, 0),
        Ok(_) => panic!("expected a count mismatch"),
    }
}

#[test]
fn correlation_sum_identical_and_anti() {
    // Two identical antennas: every product is +1.
    assert_eq!(bipolar_correlation_sum(&[1, 0, 1, 0], &[1, 0, 1, 0]), 4);
    // Two inverted antennas: every product is -1.
    assert_eq!(bipolar_correlation_sum(&[1, 0, 1, 0], &[0, 1, 0, 1]), -4);
    assert_eq!(bipolar_correlation_sum(&[1, 1, 0, 0], &[1, 0, 1, 0]), 0);
    assert_eq!(bipolar_correlation_sum(&[], &[]), 0);
}

#[test]
fn sample_sum_counts_ones() {
    assert_eq!(sample_sum(&[1, 0, 1, 1, 0]), 3);
    assert_eq!(sample_sum(&[]), 0);
}

#[test]
fn bipolar_samples_maps_one_to_plus() {
    assert_eq!(bipolar_samples(&[1, 0, 1, 2]), vec![1, -1, 1, -1]);
}

#[test]
fn simulated_rows_read_back_through_the_data_layout() {
    // Three antennas of 64 one-bit samples each, packed, laid end to end
    // and cut back into rows: every antenna's samples come back.
    let mut rng = XorShift64::new(7);
    let raw: Vec<Vec<u8>> = (0..3)
        .map(|_| (0..64).map(|_| (rng.next_u64() >> 63) as u8).collect())
        .collect();
    let packed: Vec<Vec<u8>> = raw.iter().map(|r| pack_row(r)).collect();
    let (row_bytes, flat) = flatten_rows(&packed);
    assert_eq!(row_bytes, 8);
    assert_eq!(flat.len(), 24);
    assert_eq!(flat[8..16], packed[1][..]);
    match unpack_rows(&flat, row_bytes, 3) {
        Ok(rows) => assert_eq!(rows, raw),
        Err(_) => panic!("row count should match"),
    }
    assert_eq!(flatten_rows(&[]), (0, Vec::new()));
}
