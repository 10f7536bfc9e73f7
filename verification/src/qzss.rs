//! QZSS (Quasi-Zenith Satellite System) L1 C/A codes.
//!
//! QZSS satellites transmit GPS-compatible L1 C/A codes with PRN numbers
//! 184–206; the gold-code chip generation is shared with GPS.

use vstd::prelude::*;

use crate::acquisition::{generate_ca_code_from_delay, spec_ca_code, CA_CHIPS};
use crate::chips::is_bipolar;

verus! {

/// Number of QZSS PRNs (184..=206).
pub const QZSS_NUM_SATS: usize = 23;

/// First QZSS PRN.
pub const QZSS_PRN_BASE: usize = 184;

/// Code-phase delay table (G2 shift) for QZSS PRNs 184–206.
pub open spec fn qzss_g2shift_spec(prn: usize) -> int {
    match prn {
        184 => 476,
        185 => 193,
        186 => 109,
        187 => 445,
        188 => 291,
        189 => 87,
        190 => 399,
        191 => 292,
        192 => 901,
        193 => 339,
        194 => 208,
        195 => 711,
        196 => 189,
        197 => 263,
        198 => 537,
        199 => 663,
        200 => 942,
        201 => 173,
        202 => 900,
        203 => 30,
        204 => 500,
        205 => 935,
        206 => 556,
        _ => 0,
    }
}

/// The G2 delays (in chips) of the C/A codes of QZSS PRNs 184–206, in PRN
/// order, as the published QZSS code assignment table gives them.
pub open spec fn published_qzss_g2_delay() -> Seq<int> {
    seq![
        476, 193, 109, 445, 291, 87, 399, 292, 901, 339,
        208, 711, 189, 263, 537, 663, 942, 173, 900, 30,
        500, 935, 556,
    ]
}

/// The C/A code of every QZSS PRN uses the G2 delay published for it.
pub proof fn lemma_qzss_codes_use_published_delays(prn: usize)
    requires
        QZSS_PRN_BASE <= prn < QZSS_PRN_BASE + QZSS_NUM_SATS,
    ensures
        qzss_g2shift_spec(prn) == published_qzss_g2_delay()[prn - QZSS_PRN_BASE],
{
}

/// Look up the G2 shift for a QZSS PRN.
pub fn qzss_g2shift(prn: usize) -> (shift: usize)
    requires
        QZSS_PRN_BASE <= prn < QZSS_PRN_BASE + QZSS_NUM_SATS,
    ensures
        shift as int == qzss_g2shift_spec(prn),
        shift < CA_CHIPS,
{
    match prn {
        184 => 476,
        185 => 193,
        186 => 109,
        187 => 445,
        188 => 291,
        189 => 87,
        190 => 399,
        191 => 292,
        192 => 901,
        193 => 339,
        194 => 208,
        195 => 711,
        196 => 189,
        197 => 263,
        198 => 537,
        199 => 663,
        200 => 942,
        201 => 173,
        202 => 900,
        203 => 30,
        204 => 500,
        205 => 935,
        206 => 556,
        _ => 0,
    }
}

/// Generate the 1023-chip C/A gold code for a QZSS PRN.
pub fn generate_qzss_ca_code(prn: usize) -> (ca: Vec<i8>)
    requires
        QZSS_PRN_BASE <= prn < QZSS_PRN_BASE + QZSS_NUM_SATS,
    ensures
        ca@ == spec_ca_code(qzss_g2shift_spec(prn)),
        ca.len() == CA_CHIPS,
        is_bipolar(ca@),
{
    generate_ca_code_from_delay(qzss_g2shift(prn))
}

} // verus!
