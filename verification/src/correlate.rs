//! Code-phase geometry of the FFT correlation search: which correlation
//! samples lie far enough from the main peak to be candidates for the
//! second peak used by ACR C/N0 estimation.

use vstd::prelude::*;

verus! {

/// `|a - b|`.
pub open spec fn abs_diff(a: int, b: int) -> int {
    if a >= b {
        a - b
    } else {
        b - a
    }
}

/// The circular distance between two code phases on a code period of
/// `period` samples: the shorter way round.
pub open spec fn circular_distance(a: int, b: int, period: int) -> int {
    let d = abs_diff(a, b);
    if d <= period - d {
        d
    } else {
        period - d
    }
}

/// The circular distance is symmetric, at most half a period, and zero
/// exactly for equal phases.
pub proof fn lemma_circular_distance_properties(a: int, b: int, period: int)
    requires
        0 <= a < period,
        0 <= b < period,
    ensures
        circular_distance(a, b, period) == circular_distance(b, a, period),
        0 <= circular_distance(a, b, period) <= period / 2,
        circular_distance(a, b, period) == 0 <==> a == b,
{
}

/// Circular code-phase distance between two phases within one period.
pub fn code_phase_distance(idx_cp: usize, main_codephase: usize, period: usize) -> (dist: usize)
    requires
        idx_cp < period,
        main_codephase < period,
    ensures
        dist == circular_distance(idx_cp as int, main_codephase as int, period as int),
        dist <= period / 2,
{
    if idx_cp >= main_codephase {
        let d = idx_cp - main_codephase;
        let e = period - idx_cp + main_codephase;
        if d <= e {
            d
        } else {
            e
        }
    } else {
        let d = main_codephase - idx_cp;
        let e = period - main_codephase + idx_cp;
        if d <= e {
            d
        } else {
            e
        }
    }
}

/// Whether correlation sample `idx` lies more than `chip_width` samples
/// (circularly, modulo the code period) from the main peak at
/// `best_codephase`, so that it may hold the second peak.
pub fn outside_main_peak(idx: usize, best_codephase: usize, period: usize, chip_width: usize) -> (r: bool)
    requires
        period > 0,
    ensures
        r == (circular_distance(
            (idx % period) as int,
            (best_codephase % period) as int,
            period as int,
        ) > chip_width),
{
    let idx_cp = idx % period;
    let main_codephase = best_codephase % period;
    code_phase_distance(idx_cp, main_codephase, period) > chip_width
}

} // verus!
