//! ACR (Acquisition Correlation Ratio) C/N0 estimation: the lookup table.
//!
//! The ACR method (Ma, Li, Zhou and Lu, GPS Solutions 28:143, 2024) maps
//! `r_A = (V^m / V^s)²`, the squared ratio of the global correlation peak to
//! the largest off-peak correlation at the same frequency, to C/N0 through a
//! table pre-computed for 1023-chip Gold codes with T_coh = 1 ms, N_c = 1.
//!
//! Both columns are exact decimals with at most three fractional digits, so
//! the table is held in thousandths: `r_A × 1000` and `C/N0 × 1000` (dB-Hz).

use vstd::prelude::*;

verus! {

/// Number of rows of the lookup table.
pub const ACR_TABLE_LEN: usize = 50;

/// The scale of both table columns: values are held in thousandths.
pub const ACR_SCALE: u32 = 1000;

/// Row `i` of the lookup table: (r_A, C/N0 in dB-Hz), both in thousandths.
/// For r_A values below the first entry, C/N0 < 37 dB-Hz (cut-off region);
/// above the last entry, C/N0 saturates near 62 dB-Hz.
pub open spec fn acr_row(i: usize) -> (int, int) {
    match i {
        0 => (1020, 37500),
        1 => (1050, 38000),
        2 => (1090, 38500),
        3 => (1140, 39000),
        4 => (1200, 39500),
        5 => (1270, 40000),
        6 => (1350, 40500),
        7 => (1440, 41000),
        8 => (1550, 41500),
        9 => (1670, 42000),
        10 => (1810, 42500),
        11 => (1970, 43000),
        12 => (2140, 43500),
        13 => (2340, 44000),
        14 => (2560, 44500),
        15 => (2810, 45000),
        16 => (3100, 45500),
        17 => (3420, 46000),
        18 => (3790, 46500),
        19 => (4220, 47000),
        20 => (4700, 47500),
        21 => (5250, 48000),
        22 => (5880, 48500),
        23 => (6600, 49000),
        24 => (7420, 49500),
        25 => (8360, 50000),
        26 => (9430, 50500),
        27 => (10660, 51000),
        28 => (12060, 51500),
        29 => (13670, 52000),
        30 => (15500, 52500),
        31 => (17600, 53000),
        32 => (20000, 53500),
        33 => (22800, 54000),
        34 => (26000, 54500),
        35 => (29700, 55000),
        36 => (34000, 55500),
        37 => (38900, 56000),
        38 => (44600, 56500),
        39 => (51200, 57000),
        40 => (58800, 57500),
        41 => (67600, 58000),
        42 => (77800, 58500),
        43 => (89500, 59000),
        44 => (103000, 59500),
        45 => (118500, 60000),
        46 => (136000, 60500),
        47 => (156000, 61000),
        48 => (179000, 61500),
        49 => (200000, 62000),
        _ => (0, 0),
    }
}

/// One row of the table; each row is strictly above its predecessor in both
/// columns.
fn acr_row_of(i: usize) -> (r: (u32, u32))
    requires
        i < ACR_TABLE_LEN,
    ensures
        r.0 as int == acr_row(i).0,
        r.1 as int == acr_row(i).1,
        i > 0 ==> acr_row((i - 1) as usize).0 < r.0 && acr_row((i - 1) as usize).1 < r.1,
{
    match i {
        0 => (1020, 37500),
        1 => (1050, 38000),
        2 => (1090, 38500),
        3 => (1140, 39000),
        4 => (1200, 39500),
        5 => (1270, 40000),
        6 => (1350, 40500),
        7 => (1440, 41000),
        8 => (1550, 41500),
        9 => (1670, 42000),
        10 => (1810, 42500),
        11 => (1970, 43000),
        12 => (2140, 43500),
        13 => (2340, 44000),
        14 => (2560, 44500),
        15 => (2810, 45000),
        16 => (3100, 45500),
        17 => (3420, 46000),
        18 => (3790, 46500),
        19 => (4220, 47000),
        20 => (4700, 47500),
        21 => (5250, 48000),
        22 => (5880, 48500),
        23 => (6600, 49000),
        24 => (7420, 49500),
        25 => (8360, 50000),
        26 => (9430, 50500),
        27 => (10660, 51000),
        28 => (12060, 51500),
        29 => (13670, 52000),
        30 => (15500, 52500),
        31 => (17600, 53000),
        32 => (20000, 53500),
        33 => (22800, 54000),
        34 => (26000, 54500),
        35 => (29700, 55000),
        36 => (34000, 55500),
        37 => (38900, 56000),
        38 => (44600, 56500),
        39 => (51200, 57000),
        40 => (58800, 57500),
        41 => (67600, 58000),
        42 => (77800, 58500),
        43 => (89500, 59000),
        44 => (103000, 59500),
        45 => (118500, 60000),
        46 => (136000, 60500),
        47 => (156000, 61000),
        48 => (179000, 61500),
        49 => (200000, 62000),
        _ => (0, 0),
    }
}

/// The r_A column of the lookup table, in thousandths, row by row, as
/// computed for T_coh = 1 ms, N_c = 1 and GPS L1 C/A codes.
pub open spec fn published_acr_ratio() -> Seq<int> {
    seq![
        1020, 1050, 1090, 1140, 1200, 1270, 1350, 1440, 1550, 1670,
        1810, 1970, 2140, 2340, 2560, 2810, 3100, 3420, 3790, 4220,
        4700, 5250, 5880, 6600, 7420, 8360, 9430, 10660, 12060, 13670,
        15500, 17600, 20000, 22800, 26000, 29700, 34000, 38900, 44600, 51200,
        58800, 67600, 77800, 89500, 103000, 118500, 136000, 156000, 179000, 200000,
    ]
}

/// Row `i` of the lookup table pairs the published r_A of that row with a
/// C/N0 of `37.5 + 0.5 i` dB-Hz: the C/N0 column is a 0.5 dB-Hz grid from
/// 37.5 dB-Hz.
pub proof fn lemma_acr_rows_are_published(i: usize)
    requires
        i < ACR_TABLE_LEN,
    ensures
        acr_row(i) == (published_acr_ratio()[i as int], 37500 + 500 * i),
{
}

/// A table whose rows increase strictly in both columns.
pub open spec fn strictly_increasing(t: Seq<(u32, u32)>) -> bool {
    forall|i: int, j: int| 0 <= i < j < t.len() ==> t[i].0 < t[j].0 && t[i].1 < t[j].1
}

/// Strict increase from each row to the next gives strict increase between
/// any two rows.
pub proof fn lemma_adjacent_increase_is_sorted(t: Seq<(u32, u32)>)
    requires
        forall|i: int| 0 <= i < t.len() - 1 ==> #[trigger] t[i].0 < t[i + 1].0 && t[i].1 < t[i + 1].1,
    ensures
        strictly_increasing(t),
    decreases t.len(),
{
    if t.len() > 1 {
        let s = t.drop_last();
        assert forall|i: int| 0 <= i < s.len() - 1 implies #[trigger] s[i].0 < s[i + 1].0 && s[i].1
            < s[i + 1].1 by {
            assert(s[i] == t[i] && s[i + 1] == t[i + 1]);
        }
        lemma_adjacent_increase_is_sorted(s);
        assert forall|i: int, j: int| 0 <= i < j < t.len() implies t[i].0 < t[j].0 && t[i].1 < t[j].1 by {
            if j < t.len() - 1 {
                assert(t[i] == s[i] && t[j] == s[j]);
            } else if i < j - 1 {
                assert(t[i] == s[i] && t[j - 1] == s[j - 1]);
                assert(t[j - 1].0 < t[j].0);
            }
        }
    }
}

/// The r_A → C/N0 lookup table, in thousandths; both columns strictly
/// increase from row to row.
pub fn acr_lookup() -> (t: Vec<(u32, u32)>)
    ensures
        t.len() == ACR_TABLE_LEN,
        forall|i: int|
            0 <= i < t.len() ==> (#[trigger] t@[i]).0 as int == acr_row(i as usize).0 && t@[i].1 as int
                == acr_row(i as usize).1,
        strictly_increasing(t@),
{
    let mut t: Vec<(u32, u32)> = Vec::with_capacity(ACR_TABLE_LEN);
    let mut i: usize = 0;
    while i < ACR_TABLE_LEN
        invariant
            i <= ACR_TABLE_LEN,
            t.len() == i,
            forall|j: int|
                0 <= j < i ==> (#[trigger] t@[j]).0 as int == acr_row(j as usize).0 && t@[j].1 as int
                    == acr_row(j as usize).1,
            forall|j: int| 0 <= j < t.len() - 1 ==> #[trigger] t@[j].0 < t@[j + 1].0 && t@[j].1 < t@[j + 1].1,
        decreases ACR_TABLE_LEN - i,
    {
        let row = acr_row_of(i);
        t.push(row);
        i += 1;
    }
    proof {
        lemma_adjacent_increase_is_sorted(t@);
    }
    t
}

} // verus!
