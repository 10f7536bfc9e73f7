use tart_gnss_acquire::l1c_codes::{
    generate_l1cp_chips, generate_l1c_code, generate_l1c_pilot_code, legendre_sequence, l1cp_params, L1C_CHIPS, LEGENDRE_N,
    L1C_NUM_SATS,
};

/// Convert 24 chips (0/1, MSB-first, groups of 3) to an octal string.
fn chips24_to_octal(chips: &[u8]) -> String {
    assert_eq!(chips.len(), 24);
    let mut s = String::with_capacity(8);
    for i in 0..8 {
        let d = 4 * chips[3 * i] + 2 * chips[3 * i + 1] + chips[3 * i + 2];
        s.push(char::from_digit(d as u32, 8).unwrap());
    }
    s
}

/// Reference octal strings for the first 24 chips of each PRN 1..=63.
const REF_FIRST24: [&str; L1C_NUM_SATS] = [
    "05752067", "70146401", "32066222", "72125121", "42323273", "01650642",
    "21303446", "35504263", "66434311", "52631623", "04733076", "50352603",
    "32026612", "07476042", "22210746", "30706376", "75764610", "73202225",
    "47227426", "16064126", "66415734", "27600270", "66101627", "17717055",
    "47500232", "52057615", "76153566", "22444670", "62330044", "13674337",
    "60635146", "73527653", "63772350", "33564215", "52236055", "64506521",
    "73561133", "12647121", "16640265", "11161337", "22055260", "11546064",
    "24765004", "14042504", "53512265", "15317006", "16151224", "67454561",
    "47542743", "65057230", "77415771", "75364651", "75664330", "44600202",
    "23211425", "51504740", "47712554", "67325233", "61517015", "43217554",
    "52520062", "77073716", "56350460",
];

/// Reference octal strings for the last 24 chips of each PRN 1..=63.
const REF_LAST24: [&str; L1C_NUM_SATS] = [
    "20173742", "35437154", "00161056", "71435437", "15035661", "32606570",
    "03475644", "11316575", "23047575", "07355246", "15210113", "72643606",
    "63457333", "46623624", "35467322", "70116567", "62731643", "14040613",
    "07750525", "37171211", "01302134", "37672235", "32201230", "37437553",
    "23310544", "07152415", "02571041", "52270664", "61317104", "43137330",
    "20336467", "40745656", "50272475", "75604301", "52550266", "15334214",
    "53445703", "71136024", "01607455", "73467421", "54372454", "11526534",
    "16522173", "74053703", "52211303", "72655147", "01212152", "10410122",
    "22473073", "63145220", "65734110", "25167435", "17524136", "47064764",
    "14016156", "11723025", "76760325", "04724615", "72504743", "51215201",
    "00630473", "71217605", "50200707",
];

#[test]
fn l1c_codes_test_legendre_length() {
    let seq = legendre_sequence();
    assert_eq!(seq.len(), LEGENDRE_N);
}

#[test]
fn l1c_codes_test_legendre_zero() {
    let seq = legendre_sequence();
    assert_eq!(seq[0], 0);
}

#[test]
fn l1c_codes_test_legendre_residue_count() {
    let seq = legendre_sequence();
    let ones: usize = seq.iter().map(|&b| b as usize).sum();
    assert_eq!(ones, (LEGENDRE_N - 1) / 2);
}

#[test]
fn test_l1cp_first24_octal() {
    for prn in 1..=L1C_NUM_SATS {
        let chips = generate_l1cp_chips(prn);
        let octal = chips24_to_octal(&chips[0..24]);
        assert_eq!(octal, REF_FIRST24[prn - 1], "PRN {prn}: first 24 chips mismatch");
    }
}

#[test]
fn test_l1cp_last24_octal() {
    for prn in 1..=L1C_NUM_SATS {
        let chips = generate_l1cp_chips(prn);
        let octal = chips24_to_octal(&chips[L1C_CHIPS - 24..]);
        assert_eq!(octal, REF_LAST24[prn - 1], "PRN {prn}: last 24 chips mismatch");
    }
}

#[test]
fn test_generate_l1c_code_length() {
    let code = generate_l1c_code(1);
    assert_eq!(code.len(), L1C_CHIPS);
}

#[test]
fn test_generate_l1c_code_bipolar() {
    let code = generate_l1c_code(5);
    for &v in &code {
        assert!(v == 1 || v == -1, "unexpected value {v}");
    }
}

#[test]
fn l1c_codes_test_generate_l1c_pilot_code_length() {
    let code = generate_l1c_pilot_code(1);
    assert_eq!(code.len(), L1C_CHIPS * 2);
}

#[test]
fn l1c_codes_test_all_prns_generate() {
    for prn in 1..=L1C_NUM_SATS {
        let code = generate_l1c_pilot_code(prn);
        assert_eq!(code.len(), L1C_CHIPS * 2, "PRN {prn} wrong pilot code length");
        for &v in &code {
            assert!(v == 1 || v == -1, "PRN {prn}: unexpected value {v}");
        }
    }
}

#[test]
fn l1c_codes_test_all_params_in_range() {
    for (prn, &(w, p)) in l1cp_params().iter().enumerate() {
        assert!(
            w > 0 && w < LEGENDRE_N,
            "PRN {} pilot w={} out of range 1..{}",
            prn + 1,
            w,
            LEGENDRE_N - 1
        );
        assert!(
            p >= 1 && p <= LEGENDRE_N,
            "PRN {} pilot p={} out of range 1..={}",
            prn + 1,
            p,
            LEGENDRE_N
        );
    }
}

/// Cross-check: verify the 0→+1, 1→-1 mapping.
#[test]
fn test_chip_mapping() {
    let chips = generate_l1cp_chips(1);
    let code = generate_l1c_code(1);
    for i in 0..L1C_CHIPS {
        let expected = if chips[i] == 0 { 1 } else { -1 };
        assert_eq!(code[i], expected, "chip {i}: mapping mismatch");
    }
}

#[test]
fn l1c_test_generate_l1c_pilot_code_length() {
    let code = generate_l1c_pilot_code(1);
    assert_eq!(code.len(), L1C_CHIPS * 2);
}

#[test]
fn test_generate_l1c_pilot_code_bipolar() {
    let code = generate_l1c_pilot_code(5);
    for &v in &code {
        assert!(v == 1 || v == -1, "unexpected value {v}");
    }
}

#[test]
fn l1c_test_all_prns_generate() {
    for prn in 1..=L1C_NUM_SATS {
        let code = generate_l1c_pilot_code(prn);
        assert_eq!(code.len(), L1C_CHIPS * 2, "PRN {prn} wrong pilot code length");
    }
}

#[test]
fn l1c_codes_pilot_code_is_boc11_of_bipolar_chips() {
    for prn in [1usize, 17, 63] {
        let chips = generate_l1cp_chips(prn);
        let pilot = generate_l1c_pilot_code(prn);
        for i in 0..L1C_CHIPS {
            let c: i8 = if chips[i] == 0 { 1 } else { -1 };
            assert_eq!(pilot[2 * i], c);
            assert_eq!(pilot[2 * i + 1], -c);
        }
    }
}
