//! GPS L1C primary codes (pilot component, L1Cp).
//!
//! 10230-chip Weil codes derived from a Legendre sequence of length 10223
//! with a 7-bit expansion sequence insertion (IS-GPS-800H, Section
//! 3.2.2.1.1 and Table 3.2-2).

use vstd::prelude::*;

use crate::chips::{boc11_expand, bipolar_from_bits, is_bipolar, spec_bipolar, spec_boc11};
use crate::legendre::{legendre_sequence_of, lemma_xor_of_bits, spec_legendre, weil_bit};

verus! {

/// Number of GPS L1C PRN codes available (SV 1–63).
pub const L1C_NUM_SATS: usize = 63;

/// Chips per GPS L1C primary code period (10230 chips after insertion).
pub const L1C_CHIPS: usize = 10230;

/// Legendre sequence length (prime number p = 10223).
pub const LEGENDRE_N: usize = 10223;

/// Length of the expansion sequence inserted into the Weil code.
pub const EXPANSION_LEN: usize = 7;

/// (w, p) parameters for the L1C pilot component, PRNs 1–63.
///
/// `w` — Weil shift index for the Legendre-sequence-based Weil code.
/// `p` — Insertion index (1-based). The expansion sequence is inserted
///       *before* the p-th value of the Weil code.
///
/// From IS-GPS-800H Table 3.2-2, L1CP column.
pub open spec fn l1cp_param(prn: usize) -> (int, int) {
    match prn {
        1 => (5111, 412),
        2 => (5109, 161),
        3 => (5108, 1),
        4 => (5106, 303),
        5 => (5103, 207),
        6 => (5101, 4971),
        7 => (5100, 4496),
        8 => (5098, 5),
        9 => (5095, 4557),
        10 => (5094, 485),
        11 => (5093, 253),
        12 => (5091, 4676),
        13 => (5090, 1),
        14 => (5081, 66),
        15 => (5080, 4485),
        16 => (5069, 282),
        17 => (5068, 193),
        18 => (5054, 5211),
        19 => (5044, 729),
        20 => (5027, 4848),
        21 => (5026, 982),
        22 => (5014, 5955),
        23 => (5004, 9805),
        24 => (4980, 670),
        25 => (4915, 464),
        26 => (4909, 29),
        27 => (4893, 429),
        28 => (4885, 394),
        29 => (4832, 616),
        30 => (4824, 9457),
        31 => (4591, 4429),
        32 => (3706, 4771),
        33 => (5092, 365),
        34 => (4986, 9705),
        35 => (4965, 9489),
        36 => (4920, 4193),
        37 => (4917, 9947),
        38 => (4858, 824),
        39 => (4847, 864),
        40 => (4790, 347),
        41 => (4770, 677),
        42 => (4318, 6544),
        43 => (4126, 6312),
        44 => (3961, 9804),
        45 => (3790, 278),
        46 => (4911, 9461),
        47 => (4881, 444),
        48 => (4827, 4839),
        49 => (4795, 4144),
        50 => (4789, 9875),
        51 => (4725, 197),
        52 => (4675, 1156),
        53 => (4539, 4674),
        54 => (4535, 10035),
        55 => (4458, 4504),
        56 => (4197, 5),
        57 => (4096, 9937),
        58 => (3484, 430),
        59 => (3481, 5),
        60 => (3393, 355),
        61 => (3175, 909),
        62 => (2360, 1622),
        63 => (1852, 6284),
        _ => (0, 0),
    }
}

/// The (w, p) parameters of one PRN, read from the table.
fn l1cp_param_of(prn: usize) -> (r: (usize, usize))
    requires
        1 <= prn <= L1C_NUM_SATS,
    ensures
        r.0 as int == l1cp_param(prn).0,
        r.1 as int == l1cp_param(prn).1,
        0 < r.0 < LEGENDRE_N,
        1 <= r.1 <= LEGENDRE_N,
{
    match prn {
        1 => (5111, 412),
        2 => (5109, 161),
        3 => (5108, 1),
        4 => (5106, 303),
        5 => (5103, 207),
        6 => (5101, 4971),
        7 => (5100, 4496),
        8 => (5098, 5),
        9 => (5095, 4557),
        10 => (5094, 485),
        11 => (5093, 253),
        12 => (5091, 4676),
        13 => (5090, 1),
        14 => (5081, 66),
        15 => (5080, 4485),
        16 => (5069, 282),
        17 => (5068, 193),
        18 => (5054, 5211),
        19 => (5044, 729),
        20 => (5027, 4848),
        21 => (5026, 982),
        22 => (5014, 5955),
        23 => (5004, 9805),
        24 => (4980, 670),
        25 => (4915, 464),
        26 => (4909, 29),
        27 => (4893, 429),
        28 => (4885, 394),
        29 => (4832, 616),
        30 => (4824, 9457),
        31 => (4591, 4429),
        32 => (3706, 4771),
        33 => (5092, 365),
        34 => (4986, 9705),
        35 => (4965, 9489),
        36 => (4920, 4193),
        37 => (4917, 9947),
        38 => (4858, 824),
        39 => (4847, 864),
        40 => (4790, 347),
        41 => (4770, 677),
        42 => (4318, 6544),
        43 => (4126, 6312),
        44 => (3961, 9804),
        45 => (3790, 278),
        46 => (4911, 9461),
        47 => (4881, 444),
        48 => (4827, 4839),
        49 => (4795, 4144),
        50 => (4789, 9875),
        51 => (4725, 197),
        52 => (4675, 1156),
        53 => (4539, 4674),
        54 => (4535, 10035),
        55 => (4458, 4504),
        56 => (4197, 5),
        57 => (4096, 9937),
        58 => (3484, 430),
        59 => (3481, 5),
        60 => (3393, 355),
        61 => (3175, 909),
        62 => (2360, 1622),
        63 => (1852, 6284),
        _ => (0, 0),
    }
}

/// The (w, p) parameter table for PRNs 1–63, in PRN order.  Every `w` lies
/// in `1..N` and every `p` in `1..=N`.
pub fn l1cp_params() -> (r: Vec<(usize, usize)>)
    ensures
        r.len() == L1C_NUM_SATS,
        forall|i: int|
            0 <= i < r.len() ==> (#[trigger] r@[i]).0 as int == l1cp_param((i + 1) as usize).0
                && r@[i].1 as int == l1cp_param((i + 1) as usize).1,
        forall|i: int| 0 <= i < r.len() ==> 0 < (#[trigger] r@[i]).0 < LEGENDRE_N,
        forall|i: int| 0 <= i < r.len() ==> 1 <= (#[trigger] r@[i]).1 <= LEGENDRE_N,
{
    let mut r: Vec<(usize, usize)> = Vec::with_capacity(L1C_NUM_SATS);
    let mut prn: usize = 1;
    while prn <= L1C_NUM_SATS
        invariant
            1 <= prn <= L1C_NUM_SATS + 1,
            r.len() == prn - 1,
            forall|i: int|
                0 <= i < r.len() ==> (#[trigger] r@[i]).0 as int == l1cp_param((i + 1) as usize).0
                    && r@[i].1 as int == l1cp_param((i + 1) as usize).1,
            forall|i: int| 0 <= i < r.len() ==> 0 < (#[trigger] r@[i]).0 < LEGENDRE_N,
            forall|i: int| 0 <= i < r.len() ==> 1 <= (#[trigger] r@[i]).1 <= LEGENDRE_N,
        decreases L1C_NUM_SATS + 1 - prn,
    {
        r.push(l1cp_param_of(prn));
        prn += 1;
    }
    r
}

/// Expansion sequence inserted into the Weil code: `[0, 1, 1, 0, 1, 0, 0]`.
pub open spec fn expansion_bit(i: int) -> u8 {
    if i == 1 || i == 2 || i == 4 {
        1
    } else {
        0
    }
}

/// The expansion sequence `[0, 1, 1, 0, 1, 0, 0]`.
pub fn expansion_sequence() -> (e: Vec<u8>)
    ensures
        e@ == Seq::new(EXPANSION_LEN as nat, |i: int| expansion_bit(i)),
{
    let mut e: Vec<u8> = Vec::with_capacity(EXPANSION_LEN);
    e.push(0);
    e.push(1);
    e.push(1);
    e.push(0);
    e.push(1);
    e.push(0);
    e.push(0);
    assert(e@ =~= Seq::new(EXPANSION_LEN as nat, |i: int| expansion_bit(i)));
    e
}

/// L1Cp chip `j` (0/1) of a PRN: the PRN's Weil code `W` with the expansion
/// sequence inserted before its `p`-th value.
pub open spec fn l1cp_chip(prn: usize, j: int) -> u8 {
    let (w, p) = l1cp_param(prn);
    if j < p - 1 {
        weil_bit(LEGENDRE_N as int, w, j)
    } else if j < p - 1 + EXPANSION_LEN {
        expansion_bit(j - (p - 1))
    } else {
        weil_bit(LEGENDRE_N as int, w, j - EXPANSION_LEN)
    }
}

/// The raw L1Cp chips (0/1) of a PRN.
pub open spec fn spec_l1cp_chips(prn: usize) -> Seq<u8> {
    Seq::new(L1C_CHIPS as nat, |j: int| l1cp_chip(prn, j))
}

/// The Weil indices `w` of the L1Cp codes of PRNs 1–63, in PRN order, as
/// IS-GPS-800 Table 3.2-2 publishes them.
pub open spec fn published_l1cp_weil_index() -> Seq<int> {
    seq![
        5111, 5109, 5108, 5106, 5103, 5101, 5100, 5098, 5095, 5094,
        5093, 5091, 5090, 5081, 5080, 5069, 5068, 5054, 5044, 5027,
        5026, 5014, 5004, 4980, 4915, 4909, 4893, 4885, 4832, 4824,
        4591, 3706, 5092, 4986, 4965, 4920, 4917, 4858, 4847, 4790,
        4770, 4318, 4126, 3961, 3790, 4911, 4881, 4827, 4795, 4789,
        4725, 4675, 4539, 4535, 4458, 4197, 4096, 3484, 3481, 3393,
        3175, 2360, 1852,
    ]
}

/// The insertion indices `p` of the L1Cp codes of PRNs 1–63, in PRN order,
/// as IS-GPS-800 Table 3.2-2 publishes them.
pub open spec fn published_l1cp_insertion_index() -> Seq<int> {
    seq![
        412, 161, 1, 303, 207, 4971, 4496, 5, 4557, 485,
        253, 4676, 1, 66, 4485, 282, 193, 5211, 729, 4848,
        982, 5955, 9805, 670, 464, 29, 429, 394, 616, 9457,
        4429, 4771, 365, 9705, 9489, 4193, 9947, 824, 864, 347,
        677, 6544, 6312, 9804, 278, 9461, 444, 4839, 4144, 9875,
        197, 1156, 4674, 10035, 4504, 5, 9937, 430, 5, 355,
        909, 1622, 6284,
    ]
}

/// The parameters of every PRN are the published ones.
proof fn lemma_l1cp_param_is_published(prn: usize)
    requires
        1 <= prn <= L1C_NUM_SATS,
    ensures
        l1cp_param(prn) == (
            published_l1cp_weil_index()[prn - 1],
            published_l1cp_insertion_index()[prn - 1],
        ),
{
}

/// Every L1Cp code is the IS-GPS-800 construction from the parameters that
/// IS-GPS-800 Table 3.2-2 publishes for its PRN: chip `j` is the Weil code
/// `W(k) = L(k) xor L((k + w) mod 10223)` with the expansion sequence
/// `0110100` inserted before the `p`-th value of `W`.
pub proof fn lemma_l1cp_codes_follow_published_table(prn: usize)
    requires
        1 <= prn <= L1C_NUM_SATS,
    ensures
        forall|j: int|
            0 <= j < L1C_CHIPS ==> #[trigger] spec_l1cp_chips(prn)[j] == {
                let w = published_l1cp_weil_index()[prn - 1];
                let p = published_l1cp_insertion_index()[prn - 1];
                if j < p - 1 {
                    weil_bit(LEGENDRE_N as int, w, j)
                } else if j < p + 6 {
                    seq![0u8, 1, 1, 0, 1, 0, 0][j - (p - 1)]
                } else {
                    weil_bit(LEGENDRE_N as int, w, j - 7)
                }
            },
{
    lemma_l1cp_param_is_published(prn);
}

/// Generate the Legendre sequence of length `LEGENDRE_N` (10223).
///
/// For prime N:
/// - L(0) = 0
/// - L(i) = 1 if i is a quadratic residue modulo N, else 0
pub fn legendre_sequence() -> (seq: Vec<u8>)
    ensures
        seq@ == spec_legendre(LEGENDRE_N as int),
{
    legendre_sequence_of(LEGENDRE_N)
}

/// Generate the raw L1Cp chips (0/1 values) for a given PRN (1-based).
///
/// Algorithm (IS-GPS-800H Section 3.2.2.1.1):
///   1. Compute Legendre sequence L of length N=10223.
///   2. Weil code: W[k] = L[k] XOR L[(k + w) mod N] for k = 0..N-1.
///   3. Insert expansion sequence [0,1,1,0,1,0,0] before index p-1:
///      - First p-1 chips: W[0..p-2]
///      - 7-bit expansion sequence
///      - Remaining: W[p-1..N-1]
///
///      Result: 10230 chips.
pub fn generate_l1cp_chips(prn: usize) -> (chips: Vec<u8>)
    requires
        1 <= prn <= L1C_NUM_SATS,
    ensures
        chips@ == spec_l1cp_chips(prn),
        forall|j: int| 0 <= j < chips.len() ==> #[trigger] chips@[j] <= 1,
{
    let (w, p) = l1cp_param_of(prn);
    let legendre = legendre_sequence();

    // Build the Weil code of length N
    let mut weil: Vec<u8> = Vec::with_capacity(LEGENDRE_N);
    let mut k: usize = 0;
    while k < LEGENDRE_N
        invariant
            k <= LEGENDRE_N,
            0 < w < LEGENDRE_N,
            legendre@ == spec_legendre(LEGENDRE_N as int),
            weil.len() == k,
            forall|i: int| 0 <= i < k ==> #[trigger] weil@[i] == weil_bit(LEGENDRE_N as int, w as int, i),
            forall|i: int| 0 <= i < k ==> #[trigger] weil@[i] <= 1,
        decreases LEGENDRE_N - k,
    {
        let l_k = legendre[k];
        let l_shifted = legendre[(k + w) % LEGENDRE_N];
        proof {
            lemma_xor_of_bits(l_k, l_shifted);
        }
        weil.push(l_k ^ l_shifted);
        k += 1;
    }

    // Insert expansion sequence before index p-1
    let split_point = p - 1;
    let expansion = expansion_sequence();
    let mut chips: Vec<u8> = Vec::with_capacity(L1C_CHIPS);
    let mut j: usize = 0;
    while j < L1C_CHIPS
        invariant
            j <= L1C_CHIPS,
            1 <= prn <= L1C_NUM_SATS,
            w as int == l1cp_param(prn).0,
            p as int == l1cp_param(prn).1,
            1 <= p <= LEGENDRE_N,
            split_point == p - 1,
            weil.len() == LEGENDRE_N,
            forall|i: int| 0 <= i < LEGENDRE_N ==> #[trigger] weil@[i] == weil_bit(LEGENDRE_N as int, w as int, i),
            forall|i: int| 0 <= i < LEGENDRE_N ==> #[trigger] weil@[i] <= 1,
            expansion@ == Seq::new(EXPANSION_LEN as nat, |i: int| expansion_bit(i)),
            chips.len() == j,
            forall|i: int| 0 <= i < j ==> #[trigger] chips@[i] == l1cp_chip(prn, i),
            forall|i: int| 0 <= i < j ==> #[trigger] chips@[i] <= 1,
        decreases L1C_CHIPS - j,
    {
        let chip = if j < split_point {
            weil[j]
        } else if j < split_point + EXPANSION_LEN {
            expansion[j - split_point]
        } else {
            weil[j - EXPANSION_LEN]
        };
        chips.push(chip);
        j += 1;
    }
    assert(chips@ =~= spec_l1cp_chips(prn));
    chips
}

/// Generate the ±1 L1Cp code chips for a given PRN (1-based).
///
/// Maps 0→+1, 1→-1.
pub fn generate_l1c_code(prn: usize) -> (code: Vec<i8>)
    requires
        1 <= prn <= L1C_NUM_SATS,
    ensures
        code@ == spec_bipolar(spec_l1cp_chips(prn)),
        code.len() == L1C_CHIPS,
        is_bipolar(code@),
{
    let chips = generate_l1cp_chips(prn);
    bipolar_from_bits(&chips)
}

/// Generate the BOC(1,1)-modulated L1C pilot code for a given PRN (1-based).
///
/// Each chip is split into two half-chips: [+chip, -chip], giving 20460
/// samples per code period.
pub fn generate_l1c_pilot_code(prn: usize) -> (boc: Vec<i8>)
    requires
        1 <= prn <= L1C_NUM_SATS,
    ensures
        boc@ == spec_boc11(spec_bipolar(spec_l1cp_chips(prn))),
        boc.len() == 2 * L1C_CHIPS,
        is_bipolar(boc@),
{
    let weil = generate_l1c_code(prn);
    boc11_expand(&weil)
}

} // verus!
