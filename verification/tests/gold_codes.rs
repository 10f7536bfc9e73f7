use tart_gnss_acquire::acquisition::{generate_ca_code, generate_ca_code_from_delay, CA_CHIPS};
use tart_gnss_acquire::qzss::{generate_qzss_ca_code, QZSS_NUM_SATS, QZSS_PRN_BASE};
use tart_gnss_acquire::sbas::{generate_sbas_ca_code, SBAS_NUM_SATS, SBAS_PRN_BASE};

/// Convert 10 chips (±1) to an octal string (IS-GPS-200 convention).
///
/// The 10-bit sequence is zero-padded to 12 bits (2 leading zeros),
/// then split into 4 groups of 3 bits, each producing an octal digit.
/// +1→0, -1→1 (C/A convention: 0 is in-phase).
fn chips10_to_octal(chips: &[i8]) -> String {
    assert_eq!(chips.len(), 10);
    let bits: Vec<u8> = chips.iter().map(|&v| if v == 1 { 0 } else { 1 }).collect();
    let d0 = bits[0];
    let d1 = 4 * bits[1] + 2 * bits[2] + bits[3];
    let d2 = 4 * bits[4] + 2 * bits[5] + bits[6];
    let d3 = 4 * bits[7] + 2 * bits[8] + bits[9];
    format!("{d0}{d1}{d2}{d3}")
}

/// First 10 chips (octal) for each SBAS PRN, index 0 = PRN 120.  The
/// generator computes -(G1 * G2), so these are the inverted spec values.
const SBAS_REF_FIRST10: [&str; 39] = [
    "1106", "1241", "0267", "0232", "1617", "1076", "1764", "0717",
    "1532", "1250", "0341", "0551", "0520", "1731", "0706", "1216",
    "0740", "1007", "0450", "0305", "1653", "1411", "1644", "1312",
    "1060", "1560", "0035", "0355", "0335", "1254", "1041", "0142",
    "1641", "1504", "0751", "1774", "0107", "1153", "1542",
];

/// First 10 chips (octal) for each QZSS PRN, index 0 = PRN 184.
const QZSS_REF_FIRST10: [&str; 23] = [
    "1003", "1454", "1665", "0471", "1750", "0307", "0272", "0764",
    "1422", "1050", "1607", "1747", "1305", "0540", "1363", "0727",
    "0147", "1206", "1045", "0476", "0604", "1757", "1330",
];

#[test]
fn test_generate_ca_code_length() {
    let ca = generate_ca_code(1);
    assert_eq!(ca.len(), CA_CHIPS);
}

#[test]
fn test_generate_ca_code_bipolar() {
    let ca = generate_ca_code(5);
    for &v in &ca {
        assert!(v == 1 || v == -1, "unexpected value {v}");
    }
}

#[test]
fn test_generate_sbas_ca_code_length() {
    let ca = generate_sbas_ca_code(120);
    assert_eq!(ca.len(), CA_CHIPS);
}

#[test]
fn test_generate_sbas_ca_code_bipolar() {
    let ca = generate_sbas_ca_code(125);
    for &v in &ca {
        assert!(v == 1 || v == -1, "unexpected value {v}");
    }
}

#[test]
fn test_all_sbas_prns_generate() {
    for prn in SBAS_PRN_BASE..SBAS_PRN_BASE + SBAS_NUM_SATS {
        let ca = generate_sbas_ca_code(prn);
        assert_eq!(ca.len(), CA_CHIPS, "PRN {prn} wrong code length");
        for &v in &ca {
            assert!(v == 1 || v == -1, "PRN {prn}: unexpected value {v}");
        }
    }
}

#[test]
fn test_sbas_first10_octal() {
    for i in 0..SBAS_NUM_SATS {
        let prn = SBAS_PRN_BASE + i;
        let ca = generate_sbas_ca_code(prn);
        let octal = chips10_to_octal(&ca[0..10]);
        assert_eq!(octal, SBAS_REF_FIRST10[i], "PRN {prn}: first 10 chips mismatch");
    }
}

#[test]
fn test_generate_qzss_ca_code_length() {
    let ca = generate_qzss_ca_code(184);
    assert_eq!(ca.len(), CA_CHIPS);
}

#[test]
fn test_generate_qzss_ca_code_bipolar() {
    let ca = generate_qzss_ca_code(190);
    for &v in &ca {
        assert!(v == 1 || v == -1, "unexpected value {v}");
    }
}

#[test]
fn test_all_qzss_prns_generate() {
    for prn in QZSS_PRN_BASE..QZSS_PRN_BASE + QZSS_NUM_SATS {
        let ca = generate_qzss_ca_code(prn);
        assert_eq!(ca.len(), CA_CHIPS, "PRN {prn} wrong code length");
        for &v in &ca {
            assert!(v == 1 || v == -1, "PRN {prn}: unexpected value {v}");
        }
    }
}

#[test]
fn test_qzss_first10_octal() {
    for i in 0..QZSS_NUM_SATS {
        let prn = QZSS_PRN_BASE + i;
        let ca = generate_qzss_ca_code(prn);
        let octal = chips10_to_octal(&ca[0..10]);
        assert_eq!(octal, QZSS_REF_FIRST10[i], "PRN {prn}: first 10 chips mismatch");
    }
}

/// GPS PRN 1 (G2 delay 5): the first 10 chips are octal 1440 in IS-GPS-200
/// (XOR convention); the generator's XNOR output is the complement, 0337.
#[test]
fn gps_prn1_first10_chips() {
    let ca = generate_ca_code(1);
    assert_eq!(chips10_to_octal(&ca[0..10]), "0337");
}

/// The code for a PRN is the code of its G2 delay.
#[test]
fn gps_code_matches_delay_table() {
    assert_eq!(generate_ca_code(1), generate_ca_code_from_delay(5));
    assert_eq!(generate_ca_code(38), generate_ca_code_from_delay(0));
}

/// A full-period delay is the same as no delay.
#[test]
fn ca_code_full_period_delay_is_zero_delay() {
    assert_eq!(generate_ca_code_from_delay(CA_CHIPS), generate_ca_code_from_delay(0));
}

/// Gold codes are balanced: 512 chips of one sign and 511 of the other.
#[test]
fn gps_codes_are_balanced() {
    for prn in 1..=37 {
        let ca = generate_ca_code(prn);
        let plus = ca.iter().filter(|&&v| v == 1).count();
        assert!(plus == 511 || plus == 512, "PRN {prn}: {plus} positive chips");
    }
}
