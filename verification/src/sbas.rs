//! SBAS (Satellite-Based Augmentation System) L1 C/A codes.
//!
//! SBAS satellites transmit GPS L1 C/A codes with PRN numbers 120–158; the
//! gold-code chip generation is shared with GPS.

use vstd::prelude::*;

use crate::acquisition::{generate_ca_code_from_delay, spec_ca_code, CA_CHIPS};
use crate::chips::is_bipolar;

verus! {

/// Number of SBAS PRNs (120..=158).
pub const SBAS_NUM_SATS: usize = 39;

/// First SBAS PRN.
pub const SBAS_PRN_BASE: usize = 120;

/// Code-phase delay table (G2 shift) for SBAS PRNs 120–158.
pub open spec fn sbas_g2shift_spec(prn: usize) -> int {
    match prn {
        120 => 145,
        121 => 175,
        122 => 52,
        123 => 21,
        124 => 237,
        125 => 235,
        126 => 886,
        127 => 657,
        128 => 634,
        129 => 762,
        130 => 355,
        131 => 1012,
        132 => 176,
        133 => 603,
        134 => 130,
        135 => 359,
        136 => 595,
        137 => 68,
        138 => 386,
        139 => 797,
        140 => 456,
        141 => 499,
        142 => 883,
        143 => 307,
        144 => 127,
        145 => 211,
        146 => 121,
        147 => 118,
        148 => 163,
        149 => 628,
        150 => 853,
        151 => 484,
        152 => 289,
        153 => 811,
        154 => 202,
        155 => 1021,
        156 => 463,
        157 => 568,
        158 => 904,
        _ => 0,
    }
}

/// The G2 delays (in chips) of the C/A codes of SBAS PRNs 120–158, in PRN
/// order, as the published SBAS code assignment table gives them.
pub open spec fn published_sbas_g2_delay() -> Seq<int> {
    seq![
        145, 175, 52, 21, 237, 235, 886, 657, 634, 762,
        355, 1012, 176, 603, 130, 359, 595, 68, 386, 797,
        456, 499, 883, 307, 127, 211, 121, 118, 163, 628,
        853, 484, 289, 811, 202, 1021, 463, 568, 904,
    ]
}

/// The C/A code of every SBAS PRN uses the G2 delay published for it.
pub proof fn lemma_sbas_codes_use_published_delays(prn: usize)
    requires
        SBAS_PRN_BASE <= prn < SBAS_PRN_BASE + SBAS_NUM_SATS,
    ensures
        sbas_g2shift_spec(prn) == published_sbas_g2_delay()[prn - SBAS_PRN_BASE],
{
}

/// Look up the G2 shift for a SBAS PRN.
pub fn sbas_g2shift(prn: usize) -> (shift: usize)
    requires
        SBAS_PRN_BASE <= prn < SBAS_PRN_BASE + SBAS_NUM_SATS,
    ensures
        shift as int == sbas_g2shift_spec(prn),
        shift < CA_CHIPS,
{
    match prn {
        120 => 145,
        121 => 175,
        122 => 52,
        123 => 21,
        124 => 237,
        125 => 235,
        126 => 886,
        127 => 657,
        128 => 634,
        129 => 762,
        130 => 355,
        131 => 1012,
        132 => 176,
        133 => 603,
        134 => 130,
        135 => 359,
        136 => 595,
        137 => 68,
        138 => 386,
        139 => 797,
        140 => 456,
        141 => 499,
        142 => 883,
        143 => 307,
        144 => 127,
        145 => 211,
        146 => 121,
        147 => 118,
        148 => 163,
        149 => 628,
        150 => 853,
        151 => 484,
        152 => 289,
        153 => 811,
        154 => 202,
        155 => 1021,
        156 => 463,
        157 => 568,
        158 => 904,
        _ => 0,
    }
}

/// Generate the 1023-chip C/A gold code for a SBAS PRN.
pub fn generate_sbas_ca_code(prn: usize) -> (ca: Vec<i8>)
    requires
        SBAS_PRN_BASE <= prn < SBAS_PRN_BASE + SBAS_NUM_SATS,
    ensures
        ca@ == spec_ca_code(sbas_g2shift_spec(prn)),
        ca.len() == CA_CHIPS,
        is_bipolar(ca@),
{
    generate_ca_code_from_delay(sbas_g2shift(prn))
}

} // verus!
