//! BeiDou B1C primary codes (pilot component, B1Cp).
//!
//! 10230-chip Weil codes derived from a Legendre sequence of length 10243.
//! The pilot component uses BOC(1,1) modulation for acquisition.

use vstd::prelude::*;

use crate::chips::{boc11_expand, bipolar_from_bits, is_bipolar, spec_bipolar, spec_boc11};
use crate::legendre::{legendre_sequence_of, lemma_xor_of_bits, spec_legendre, weil_bit};

verus! {

/// Number of BeiDou B1C PRN codes available (SV 1–63).
pub const BEIDOU_B1C_NUM_SATS: usize = 63;

/// Chips per BeiDou B1C primary code period.
pub const BEIDOU_B1C_CHIPS: usize = 10230;

/// Legendre sequence length (prime number).
pub const LEGENDRE_N: usize = 10243;

/// (w, p) parameters for the B1C pilot component, PRNs 1–63.
///
/// `w` — Weil shift index for the Legendre-sequence-based Weil code.
/// `p` — phase offset: the code is extracted from the Weil sequence starting
///       at index `p-1` and wrapping modulo N=10243.
pub open spec fn b1cp_param(prn: usize) -> (int, int) {
    match prn {
        1 => (796, 7575),
        2 => (156, 2369),
        3 => (4198, 5688),
        4 => (3941, 539),
        5 => (1374, 2270),
        6 => (1338, 7306),
        7 => (1833, 6457),
        8 => (2521, 6254),
        9 => (3175, 5644),
        10 => (168, 7119),
        11 => (2715, 1402),
        12 => (4408, 5557),
        13 => (3160, 5764),
        14 => (2796, 1073),
        15 => (459, 7001),
        16 => (3594, 5910),
        17 => (4813, 10060),
        18 => (586, 2710),
        19 => (1428, 1546),
        20 => (2371, 6887),
        21 => (2285, 1883),
        22 => (3377, 5613),
        23 => (4965, 5062),
        24 => (3779, 1038),
        25 => (4547, 10170),
        26 => (1646, 6484),
        27 => (1430, 1718),
        28 => (607, 2535),
        29 => (2118, 1158),
        30 => (4709, 526),
        31 => (1149, 7331),
        32 => (3283, 5844),
        33 => (2473, 6423),
        34 => (1006, 6968),
        35 => (3670, 1280),
        36 => (1817, 1838),
        37 => (771, 1989),
        38 => (2173, 6468),
        39 => (740, 2091),
        40 => (1433, 1581),
        41 => (2458, 1453),
        42 => (3459, 6252),
        43 => (2155, 7122),
        44 => (1205, 7711),
        45 => (413, 7216),
        46 => (874, 2113),
        47 => (2463, 1095),
        48 => (1106, 1628),
        49 => (1590, 1713),
        50 => (3873, 6102),
        51 => (4026, 6123),
        52 => (4272, 6070),
        53 => (3556, 1115),
        54 => (128, 8047),
        55 => (1200, 6795),
        56 => (130, 2575),
        57 => (4494, 53),
        58 => (1871, 1729),
        59 => (3073, 6388),
        60 => (4386, 682),
        61 => (4098, 5565),
        62 => (1923, 7160),
        63 => (1176, 2277),
        _ => (0, 0),
    }
}

/// The (w, p) parameters of one PRN, read from the table.
fn b1cp_param_of(prn: usize) -> (r: (usize, usize))
    requires
        1 <= prn <= BEIDOU_B1C_NUM_SATS,
    ensures
        r.0 as int == b1cp_param(prn).0,
        r.1 as int == b1cp_param(prn).1,
        0 < r.0 < LEGENDRE_N,
        0 < r.1 <= LEGENDRE_N,
{
    match prn {
        1 => (796, 7575),
        2 => (156, 2369),
        3 => (4198, 5688),
        4 => (3941, 539),
        5 => (1374, 2270),
        6 => (1338, 7306),
        7 => (1833, 6457),
        8 => (2521, 6254),
        9 => (3175, 5644),
        10 => (168, 7119),
        11 => (2715, 1402),
        12 => (4408, 5557),
        13 => (3160, 5764),
        14 => (2796, 1073),
        15 => (459, 7001),
        16 => (3594, 5910),
        17 => (4813, 10060),
        18 => (586, 2710),
        19 => (1428, 1546),
        20 => (2371, 6887),
        21 => (2285, 1883),
        22 => (3377, 5613),
        23 => (4965, 5062),
        24 => (3779, 1038),
        25 => (4547, 10170),
        26 => (1646, 6484),
        27 => (1430, 1718),
        28 => (607, 2535),
        29 => (2118, 1158),
        30 => (4709, 526),
        31 => (1149, 7331),
        32 => (3283, 5844),
        33 => (2473, 6423),
        34 => (1006, 6968),
        35 => (3670, 1280),
        36 => (1817, 1838),
        37 => (771, 1989),
        38 => (2173, 6468),
        39 => (740, 2091),
        40 => (1433, 1581),
        41 => (2458, 1453),
        42 => (3459, 6252),
        43 => (2155, 7122),
        44 => (1205, 7711),
        45 => (413, 7216),
        46 => (874, 2113),
        47 => (2463, 1095),
        48 => (1106, 1628),
        49 => (1590, 1713),
        50 => (3873, 6102),
        51 => (4026, 6123),
        52 => (4272, 6070),
        53 => (3556, 1115),
        54 => (128, 8047),
        55 => (1200, 6795),
        56 => (130, 2575),
        57 => (4494, 53),
        58 => (1871, 1729),
        59 => (3073, 6388),
        60 => (4386, 682),
        61 => (4098, 5565),
        62 => (1923, 7160),
        63 => (1176, 2277),
        _ => (0, 0),
    }
}

/// The (w, p) parameter table for PRNs 1–63, in PRN order.  Every `w` lies
/// in `1..N` and every `p` in `1..=N`.
pub fn b1cp_params() -> (r: Vec<(usize, usize)>)
    ensures
        r.len() == BEIDOU_B1C_NUM_SATS,
        forall|i: int|
            0 <= i < r.len() ==> (#[trigger] r@[i]).0 as int == b1cp_param((i + 1) as usize).0 && r@[i].1 as int
                == b1cp_param((i + 1) as usize).1,
        forall|i: int| 0 <= i < r.len() ==> 0 < (#[trigger] r@[i]).0 < LEGENDRE_N,
        forall|i: int| 0 <= i < r.len() ==> 0 < (#[trigger] r@[i]).1 <= LEGENDRE_N,
{
    let mut r: Vec<(usize, usize)> = Vec::with_capacity(BEIDOU_B1C_NUM_SATS);
    let mut prn: usize = 1;
    while prn <= BEIDOU_B1C_NUM_SATS
        invariant
            1 <= prn <= BEIDOU_B1C_NUM_SATS + 1,
            r.len() == prn - 1,
            forall|i: int|
                0 <= i < r.len() ==> (#[trigger] r@[i]).0 as int == b1cp_param((i + 1) as usize).0 && r@[i].1 as int
                    == b1cp_param((i + 1) as usize).1,
            forall|i: int| 0 <= i < r.len() ==> 0 < (#[trigger] r@[i]).0 < LEGENDRE_N,
            forall|i: int| 0 <= i < r.len() ==> 0 < (#[trigger] r@[i]).1 <= LEGENDRE_N,
        decreases BEIDOU_B1C_NUM_SATS + 1 - prn,
    {
        r.push(b1cp_param_of(prn));
        prn += 1;
    }
    r
}

/// B1Cp chip `m` (0/1) of a PRN: `W[(m + p - 1) mod N]` for the PRN's Weil
/// code `W`.
pub open spec fn b1cp_chip(prn: usize, m: int) -> u8 {
    let (w, p) = b1cp_param(prn);
    weil_bit(LEGENDRE_N as int, w, (m + p - 1) % (LEGENDRE_N as int))
}

/// The raw B1Cp chips (0/1) of a PRN.
pub open spec fn spec_b1cp_chips(prn: usize) -> Seq<u8> {
    Seq::new(BEIDOU_B1C_CHIPS as nat, |m: int| b1cp_chip(prn, m))
}

/// The Weil indices `w` of the B1C pilot primary codes of PRNs 1–63, in
/// PRN order, as the BeiDou B1C interface specification publishes them.
pub open spec fn published_b1cp_weil_index() -> Seq<int> {
    seq![
        796, 156, 4198, 3941, 1374, 1338, 1833, 2521, 3175, 168,
        2715, 4408, 3160, 2796, 459, 3594, 4813, 586, 1428, 2371,
        2285, 3377, 4965, 3779, 4547, 1646, 1430, 607, 2118, 4709,
        1149, 3283, 2473, 1006, 3670, 1817, 771, 2173, 740, 1433,
        2458, 3459, 2155, 1205, 413, 874, 2463, 1106, 1590, 3873,
        4026, 4272, 3556, 128, 1200, 130, 4494, 1871, 3073, 4386,
        4098, 1923, 1176,
    ]
}

/// The truncation points `p` of the B1C pilot primary codes of PRNs 1–63,
/// in PRN order, as the BeiDou B1C interface specification publishes them.
pub open spec fn published_b1cp_truncation_point() -> Seq<int> {
    seq![
        7575, 2369, 5688, 539, 2270, 7306, 6457, 6254, 5644, 7119,
        1402, 5557, 5764, 1073, 7001, 5910, 10060, 2710, 1546, 6887,
        1883, 5613, 5062, 1038, 10170, 6484, 1718, 2535, 1158, 526,
        7331, 5844, 6423, 6968, 1280, 1838, 1989, 6468, 2091, 1581,
        1453, 6252, 7122, 7711, 7216, 2113, 1095, 1628, 1713, 6102,
        6123, 6070, 1115, 8047, 6795, 2575, 53, 1729, 6388, 682,
        5565, 7160, 2277,
    ]
}

/// Every B1C pilot primary code is the published construction from the
/// parameters published for its PRN: chip `m` is the Weil code
/// `W(k) = L(k) xor L((k + w) mod 10243)` read from position `p - 1` on,
/// wrapping around the 10243-chip Weil code.
pub proof fn lemma_b1cp_codes_follow_published_table(prn: usize)
    requires
        1 <= prn <= BEIDOU_B1C_NUM_SATS,
    ensures
        forall|m: int|
            0 <= m < BEIDOU_B1C_CHIPS ==> #[trigger] spec_b1cp_chips(prn)[m] == weil_bit(
                10243,
                published_b1cp_weil_index()[prn - 1],
                (m + published_b1cp_truncation_point()[prn - 1] - 1) % 10243,
            ),
{
    assert(b1cp_param(prn) == (
        published_b1cp_weil_index()[prn - 1],
        published_b1cp_truncation_point()[prn - 1],
    ));
}

/// Generate the Legendre sequence of length `LEGENDRE_N` (10243).
///
/// For prime N:
/// - L(0) = 0
/// - L(i) = 1 if i is a quadratic residue modulo N, else 0
pub fn legendre_sequence() -> (seq: Vec<u8>)
    ensures
        seq@ == spec_legendre(LEGENDRE_N as int),
{
    legendre_sequence_of(LEGENDRE_N)
}

/// Generate the raw B1Cp chips (0/1 values) for a given PRN (1-based).
///
/// Algorithm:
///   1. Compute Legendre sequence L of length N=10243.
///   2. For each k in 0..N-1, Weil code W[k] = L[k] XOR L[(k+w) mod N].
///   3. Extract code_length=10230 chips starting at offset (p-1):
///      c[n] = W[(n + p - 1) mod N],  for n = 0..code_length-1.
pub fn generate_b1cp_chips(prn: usize) -> (chips: Vec<u8>)
    requires
        1 <= prn <= BEIDOU_B1C_NUM_SATS,
    ensures
        chips@ == spec_b1cp_chips(prn),
        forall|m: int| 0 <= m < chips.len() ==> #[trigger] chips@[m] <= 1,
{
    let (w, p) = b1cp_param_of(prn);
    let legendre = legendre_sequence();
    let mut chips: Vec<u8> = Vec::with_capacity(BEIDOU_B1C_CHIPS);
    let mut m: usize = 0;
    while m < BEIDOU_B1C_CHIPS
        invariant
            m <= BEIDOU_B1C_CHIPS,
            1 <= prn <= BEIDOU_B1C_NUM_SATS,
            w as int == b1cp_param(prn).0,
            p as int == b1cp_param(prn).1,
            0 < w < LEGENDRE_N,
            0 < p <= LEGENDRE_N,
            legendre@ == spec_legendre(LEGENDRE_N as int),
            chips.len() == m,
            forall|j: int| 0 <= j < m ==> #[trigger] chips@[j] == b1cp_chip(prn, j),
            forall|j: int| 0 <= j < m ==> #[trigger] chips@[j] <= 1,
        decreases BEIDOU_B1C_CHIPS - m,
    {
        let k = (m + p - 1) % LEGENDRE_N;
        let l_k = legendre[k];
        let l_shifted = legendre[(k + w) % LEGENDRE_N];
        proof {
            lemma_xor_of_bits(l_k, l_shifted);
        }
        chips.push(l_k ^ l_shifted);
        m += 1;
    }
    assert(chips@ =~= spec_b1cp_chips(prn));
    chips
}

/// Generate the ±1 B1Cp code chips for a given PRN (1-based).
///
/// Maps 0→+1, 1→-1, matching the `1.0 - 2.0*x` convention.
pub fn generate_b1c_code(prn: usize) -> (code: Vec<i8>)
    requires
        1 <= prn <= BEIDOU_B1C_NUM_SATS,
    ensures
        code@ == spec_bipolar(spec_b1cp_chips(prn)),
        code.len() == BEIDOU_B1C_CHIPS,
        is_bipolar(code@),
{
    let chips = generate_b1cp_chips(prn);
    bipolar_from_bits(&chips)
}

/// Generate the BOC(1,1)-modulated B1C pilot code for a given PRN (1-based).
///
/// Each chip is split into two half-chips: [+chip, -chip], giving 20460
/// samples per code period.
pub fn generate_b1c_pilot_code(prn: usize) -> (boc: Vec<i8>)
    requires
        1 <= prn <= BEIDOU_B1C_NUM_SATS,
    ensures
        boc@ == spec_boc11(spec_bipolar(spec_b1cp_chips(prn))),
        boc.len() == 2 * BEIDOU_B1C_CHIPS,
        is_bipolar(boc@),
{
    let weil = generate_b1c_code(prn);
    boc11_expand(&weil)
}

} // verus!
