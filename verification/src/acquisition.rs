//! GPS L1 C/A code generation: the G1/G2 linear feedback shift registers
//! and the Gold codes built from them.

use vstd::prelude::*;

use crate::chips::is_bipolar;

verus! {

/// Number of GPS PRNs with defined C/A codes.
pub const GPS_NUM_SATS: usize = 38;

/// Number of chips in one GPS L1 C/A code period.
pub const CA_CHIPS: usize = 1023;

/// Number of stages of the G1 and G2 registers.
pub const LFSR_STAGES: usize = 10;

/// The initial register contents: all stages -1 (bipolar ones).
pub open spec fn lfsr_init() -> Seq<i8> {
    Seq::new(LFSR_STAGES as nat, |i: int| -1i8)
}

/// One G1 step: the new first stage is the (bipolar) product of stages 3
/// and 10, and every other stage takes its predecessor's value.
pub open spec fn g1_step(s: Seq<i8>) -> Seq<i8> {
    seq![(s[2] * s[9]) as i8] + s.subrange(0, 9)
}

/// One G2 step: feedback from stages 2, 3, 6, 8, 9 and 10.
pub open spec fn g2_step(s: Seq<i8>) -> Seq<i8> {
    seq![(s[1] * s[2] * s[5] * s[7] * s[8] * s[9]) as i8] + s.subrange(0, 9)
}

/// The G1 register after `n` steps.
pub open spec fn g1_state(n: nat) -> Seq<i8>
    decreases n,
{
    if n == 0 {
        lfsr_init()
    } else {
        g1_step(g1_state((n - 1) as nat))
    }
}

/// The G2 register after `n` steps.
pub open spec fn g2_state(n: nat) -> Seq<i8>
    decreases n,
{
    if n == 0 {
        lfsr_init()
    } else {
        g2_step(g2_state((n - 1) as nat))
    }
}

/// G1 output chip `i`: the last stage before step `i`.
pub open spec fn g1_chip(i: int) -> i8 {
    g1_state(i as nat)[9]
}

/// G2 output chip `i`.
pub open spec fn g2_chip(i: int) -> i8 {
    g2_state(i as nat)[9]
}

/// C/A chip `i` for a G2 delay of `shift` chips: `-(G1[i] · G2[(i - shift) mod 1023])`.
pub open spec fn ca_chip(shift: int, i: int) -> i8 {
    (-(g1_chip(i) * g2_chip((i + CA_CHIPS - shift) % (CA_CHIPS as int)))) as i8
}

/// The 1023-chip C/A code for a G2 delay of `shift` chips.
pub open spec fn spec_ca_code(shift: int) -> Seq<i8> {
    Seq::new(CA_CHIPS as nat, |i: int| ca_chip(shift, i))
}

/// Code-phase delay table (G2 shift) for GPS PRNs 1–38.
pub open spec fn gps_g2shift(prn: usize) -> int {
    match prn {
        1 => 5,
        2 => 6,
        3 => 7,
        4 => 8,
        5 => 17,
        6 => 18,
        7 => 139,
        8 => 140,
        9 => 141,
        10 => 251,
        11 => 252,
        12 => 254,
        13 => 255,
        14 => 256,
        15 => 257,
        16 => 258,
        17 => 469,
        18 => 470,
        19 => 471,
        20 => 472,
        21 => 473,
        22 => 474,
        23 => 509,
        24 => 512,
        25 => 513,
        26 => 514,
        27 => 515,
        28 => 516,
        29 => 859,
        30 => 860,
        31 => 861,
        32 => 862,
        33 => 863,
        34 => 950,
        35 => 947,
        36 => 948,
        37 => 950,
        38 => 0,
        _ => 0,
    }
}

/// The G2 delays (in chips) of the C/A codes of GPS PRNs 1–37, in PRN
/// order, as the IS-GPS-200 code phase assignment table publishes them.
pub open spec fn published_gps_g2_delay() -> Seq<int> {
    seq![
        5, 6, 7, 8, 17, 18, 139, 140, 141, 251,
        252, 254, 255, 256, 257, 258, 469, 470, 471, 472,
        473, 474, 509, 512, 513, 514, 515, 516, 859, 860,
        861, 862, 863, 950, 947, 948, 950,
    ]
}

/// The C/A code of every GPS PRN 1–37 is the Gold code with the G2 delay
/// published for it: chip `i` is `-(G1[i] · G2[(i - delay) mod 1023])`.
pub proof fn lemma_gps_codes_use_published_delays(prn: usize)
    requires
        1 <= prn <= 37,
    ensures
        gps_g2shift(prn) == published_gps_g2_delay()[prn - 1],
        forall|i: int|
            0 <= i < CA_CHIPS ==> #[trigger] spec_ca_code(gps_g2shift(prn))[i] == (-(g1_chip(i)
                * g2_chip((i + 1023 - published_gps_g2_delay()[prn - 1]) % 1023))) as i8,
{
}

/// A register of ten ±1 stages.
pub open spec fn is_register(s: Seq<i8>) -> bool {
    s.len() == LFSR_STAGES && is_bipolar(s)
}

/// Products of ±1 values are ±1.
pub proof fn lemma_bipolar_product(a: i8, b: i8)
    requires
        a == 1 || a == -1,
        b == 1 || b == -1,
    ensures
        a * b == 1 || a * b == -1,
{
}

/// Both registers hold ten ±1 stages at every step.
pub proof fn lemma_registers_bipolar(n: nat)
    ensures
        is_register(g1_state(n)),
        is_register(g2_state(n)),
    decreases n,
{
    if n > 0 {
        lemma_registers_bipolar((n - 1) as nat);
        let s1 = g1_state((n - 1) as nat);
        let s2 = g2_state((n - 1) as nat);
        assert(s1[2] == 1 || s1[2] == -1);
        assert(s1[9] == 1 || s1[9] == -1);
        lemma_bipolar_product(s1[2], s1[9]);
        assert(s2[1] == 1 || s2[1] == -1);
        assert(s2[2] == 1 || s2[2] == -1);
        assert(s2[5] == 1 || s2[5] == -1);
        assert(s2[7] == 1 || s2[7] == -1);
        assert(s2[8] == 1 || s2[8] == -1);
        assert(s2[9] == 1 || s2[9] == -1);
        let p1 = (s2[1] * s2[2]) as i8;
        lemma_bipolar_product(s2[1], s2[2]);
        let p2 = (p1 * s2[5]) as i8;
        lemma_bipolar_product(p1, s2[5]);
        let p3 = (p2 * s2[7]) as i8;
        lemma_bipolar_product(p2, s2[7]);
        let p4 = (p3 * s2[8]) as i8;
        lemma_bipolar_product(p3, s2[8]);
        lemma_bipolar_product(p4, s2[9]);
        let t1 = g1_state(n);
        let t2 = g2_state(n);
        assert forall|i: int| 0 <= i < t1.len() implies #[trigger] t1[i] == 1 || t1[i] == -1 by {
            if i > 0 {
                assert(t1[i] == s1[i - 1]);
            }
        }
        assert forall|i: int| 0 <= i < t2.len() implies #[trigger] t2[i] == 1 || t2[i] == -1 by {
            if i > 0 {
                assert(t2[i] == s2[i - 1]);
            }
        }
    }
}

/// The bipolar product of two ±1 values.
fn bipolar_mul(a: i8, b: i8) -> (r: i8)
    requires
        a == 1 || a == -1,
        b == 1 || b == -1,
    ensures
        r == a * b,
        r == 1 || r == -1,
{
    a * b
}

/// The output chips of one register over a whole code period.
fn lfsr_sequence(use_g2: bool) -> (out: Vec<i8>)
    ensures
        out.len() == CA_CHIPS,
        forall|i: int|
            0 <= i < CA_CHIPS ==> #[trigger] out@[i] == if use_g2 {
                g2_chip(i)
            } else {
                g1_chip(i)
            },
        is_bipolar(out@),
{
    let mut out: Vec<i8> = Vec::with_capacity(CA_CHIPS);
    let mut lfsr: Vec<i8> = vec![-1i8; LFSR_STAGES];
    assert(lfsr@ =~= lfsr_init()) by {
        assert forall|i: int| 0 <= i < LFSR_STAGES implies #[trigger] lfsr@[i] == lfsr_init()[i] by {
            assert(cloned(-1i8, lfsr@[i]));
        }
    }
    let mut i: usize = 0;
    while i < CA_CHIPS
        invariant
            i <= CA_CHIPS,
            lfsr@ == if use_g2 {
                g2_state(i as nat)
            } else {
                g1_state(i as nat)
            },
            out.len() == i,
            forall|j: int|
                0 <= j < i ==> #[trigger] out@[j] == if use_g2 {
                    g2_chip(j)
                } else {
                    g1_chip(j)
                },
            forall|j: int| 0 <= j < i ==> #[trigger] out@[j] == 1 || out@[j] == -1,
        decreases CA_CHIPS - i,
    {
        proof {
            lemma_registers_bipolar(i as nat);
        }
        let ghost old_reg = lfsr@;
        assert(lfsr@[9] == 1 || lfsr@[9] == -1);
        out.push(lfsr[9]);
        let save_bit = if use_g2 {
            let p1 = bipolar_mul(lfsr[1], lfsr[2]);
            let p2 = bipolar_mul(p1, lfsr[5]);
            let p3 = bipolar_mul(p2, lfsr[7]);
            let p4 = bipolar_mul(p3, lfsr[8]);
            bipolar_mul(p4, lfsr[9])
        } else {
            bipolar_mul(lfsr[2], lfsr[9])
        };
        lfsr.insert(0, save_bit);
        lfsr.pop();
        proof {
            if use_g2 {
                assert(lfsr@ =~= g2_step(old_reg));
            } else {
                assert(lfsr@ =~= g1_step(old_reg));
            }
        }
        i += 1;
    }
    out
}

/// Generate the 1023-chip C/A gold code for an arbitrary G2 shift.
///
/// `g2shift` is the number of chips to delay G2 relative to G1 (0..=1023).
/// Used by the GPS, SBAS and QZSS code generators.
pub fn generate_ca_code_from_delay(g2shift: usize) -> (ca: Vec<i8>)
    requires
        g2shift <= CA_CHIPS,
    ensures
        ca@ == spec_ca_code(g2shift as int),
        is_bipolar(ca@),
{
    // --- G1 and G2 --------------------------------------------------------
    let g1 = lfsr_sequence(false);
    let g2 = lfsr_sequence(true);

    // --- Shift G2 and combine ----------------------------------------------
    let mut ca: Vec<i8> = Vec::with_capacity(CA_CHIPS);
    let mut i: usize = 0;
    while i < CA_CHIPS
        invariant
            i <= CA_CHIPS,
            g2shift <= CA_CHIPS,
            g1.len() == CA_CHIPS,
            g2.len() == CA_CHIPS,
            forall|j: int| 0 <= j < CA_CHIPS ==> #[trigger] g1@[j] == g1_chip(j),
            forall|j: int| 0 <= j < CA_CHIPS ==> #[trigger] g2@[j] == g2_chip(j),
            is_bipolar(g1@),
            is_bipolar(g2@),
            ca.len() == i,
            forall|j: int| 0 <= j < i ==> #[trigger] ca@[j] == ca_chip(g2shift as int, j),
            forall|j: int| 0 <= j < i ==> #[trigger] ca@[j] == 1 || ca@[j] == -1,
        decreases CA_CHIPS - i,
    {
        let rotated = g2[(i + CA_CHIPS - g2shift) % CA_CHIPS];
        let a = g1[i];
        assert(a == 1 || a == -1);
        assert(rotated == 1 || rotated == -1);
        let p = bipolar_mul(a, rotated);
        ca.push(-p);
        i += 1;
    }
    assert(ca@ =~= spec_ca_code(g2shift as int));
    ca
}

/// Look up the G2 shift of a GPS PRN (1–38).
fn gps_g2shift_of(prn: usize) -> (shift: usize)
    requires
        1 <= prn <= GPS_NUM_SATS,
    ensures
        shift as int == gps_g2shift(prn),
        shift < CA_CHIPS,
{
    match prn {
        1 => 5,
        2 => 6,
        3 => 7,
        4 => 8,
        5 => 17,
        6 => 18,
        7 => 139,
        8 => 140,
        9 => 141,
        10 => 251,
        11 => 252,
        12 => 254,
        13 => 255,
        14 => 256,
        15 => 257,
        16 => 258,
        17 => 469,
        18 => 470,
        19 => 471,
        20 => 472,
        21 => 473,
        22 => 474,
        23 => 509,
        24 => 512,
        25 => 513,
        26 => 514,
        27 => 515,
        28 => 516,
        29 => 859,
        30 => 860,
        31 => 861,
        32 => 862,
        33 => 863,
        34 => 950,
        35 => 947,
        36 => 948,
        37 => 950,
        38 => 0,
        _ => 0,
    }
}

/// Generate the 1023-chip GPS C/A gold code for a given PRN (1-based).
///
/// Returns 1023 values, each +1 or -1.
pub fn generate_ca_code(prn: usize) -> (ca: Vec<i8>)
    requires
        1 <= prn <= GPS_NUM_SATS,
    ensures
        ca@ == spec_ca_code(gps_g2shift(prn)),
        prn <= 37 ==> ca@ == spec_ca_code(published_gps_g2_delay()[prn - 1]),
        ca.len() == CA_CHIPS,
        is_bipolar(ca@),
{
    proof {
        if prn <= 37 {
            lemma_gps_codes_use_published_delays(prn);
        }
    }
    let g2shift = gps_g2shift_of(prn);
    generate_ca_code_from_delay(g2shift)
}

/// The PRNs to search: the filter's PRNs in the given order when a filter
/// is given, otherwise `first, first + 1, ..., first + count - 1`.
pub fn prn_list(filter: Option<&[usize]>, first: usize, count: usize) -> (prns: Vec<usize>)
    requires
        first + count <= usize::MAX,
    ensures
        match filter {
            Some(f) => prns@ == f@,
            None => prns@ == Seq::new(count as nat, |i: int| (first + i) as usize),
        },
{
    match filter {
        Some(f) => {
            let mut prns: Vec<usize> = Vec::with_capacity(f.len());
            let mut i: usize = 0;
            while i < f.len()
                invariant
                    i <= f.len(),
                    prns@ == f@.subrange(0, i as int),
                decreases f.len() - i,
            {
                prns.push(f[i]);
                i += 1;
            }
            assert(prns@ =~= f@);
            prns
        },
        None => {
            let mut prns: Vec<usize> = Vec::with_capacity(count);
            let mut i: usize = 0;
            while i < count
                invariant
                    i <= count,
                    first + count <= usize::MAX,
                    prns@ == Seq::new(i as nat, |k: int| (first + k) as usize),
                decreases count - i,
            {
                prns.push(first + i);
                i += 1;
                assert(prns@ =~= Seq::new(i as nat, |k: int| (first + k) as usize));
            }
            prns
        },
    }
}

/// The antennas to use: the filter's antennas when a filter is given,
/// otherwise every antenna `0..n_ant`.
pub fn antenna_indices(filter: Option<Vec<usize>>, n_ant: usize) -> (ants: Vec<usize>)
    ensures
        match filter {
            Some(f) => ants@ == f@,
            None => ants@ == Seq::new(n_ant as nat, |i: int| i as usize),
        },
{
    match filter {
        Some(f) => f,
        None => prn_list(None, 0, n_ant),
    }
}

} // verus!
