//! Command-line rules: the flags and which of them take a value, reading a
//! flag's value, and the implications and conflicts between mode flags.

use vstd::prelude::*;

verus! {

/// The message for a flag given without its value.
///
/// Wraps `format!`; the contract states the text it builds: the prefix
/// followed by the flag.
#[verifier::external_body]
fn missing_value_message(flag: &str) -> (m: String)
    ensures
        m@ == "missing value for "@ + flag@,
{
    format!("missing value for {flag}")
}

/// Whether two strings are the same text.
fn same_text(a: &str, b: &str) -> (r: bool)
    ensures
        r == (a@ == b@),
{
    let x = a.as_bytes();
    let y = b.as_bytes();
    proof {
        vstd::utf8::encode_utf8_decode_utf8(a@);
        vstd::utf8::encode_utf8_decode_utf8(b@);
    }
    if x.len() != y.len() {
        return false;
    }
    let mut i: usize = 0;
    while i < x.len()
        invariant
            x@ == vstd::utf8::encode_utf8(a@),
            y@ == vstd::utf8::encode_utf8(b@),
            x.len() == y.len(),
            i <= x.len(),
            forall|j: int| 0 <= j < i ==> x@[j] == y@[j],
        decreases x.len() - i,
    {
        if x[i] != y[i] {
            return false;
        }
        i += 1;
    }
    assert(x@ =~= y@);
    true
}

/// A command-line flag.
#[derive(Clone, Copy, Debug, PartialEq, Eq, Structural)]
pub enum Flag {
    File,
    AntennaI,
    AntennaJ,
    Gps,
    Galileo,
    Beidou,
    Sbas,
    L1c,
    Qzss,
    All,
    Ant,
    FilterPhaseMad,
    FilterFreqMad,
    Output,
    Debug,
    Cn0,
    Benchmark,
    TestAntennas,
    TestMinCn0,
    Prn,
    Version,
    Rfi,
    Simulate,
    Sources,
    Positions,
    NGenerate,
    Diameter,
    Seed,
    SampleRate,
    CenterFreq,
    Band,
    Snr,
}

/// How a flag is written on the command line.
pub open spec fn flag_name(f: Flag) -> Seq<char> {
    match f {
        Flag::File => "--file"@,
        Flag::AntennaI => "--i"@,
        Flag::AntennaJ => "--j"@,
        Flag::Gps => "--gps"@,
        Flag::Galileo => "--galileo"@,
        Flag::Beidou => "--beidou"@,
        Flag::Sbas => "--sbas"@,
        Flag::L1c => "--l1c"@,
        Flag::Qzss => "--qzss"@,
        Flag::All => "--all"@,
        Flag::Ant => "--ant"@,
        Flag::FilterPhaseMad => "--filter-phase-mad"@,
        Flag::FilterFreqMad => "--filter-freq-mad"@,
        Flag::Output => "--output"@,
        Flag::Debug => "--debug"@,
        Flag::Cn0 => "--cn0"@,
        Flag::Benchmark => "--benchmark"@,
        Flag::TestAntennas => "--test-antennas"@,
        Flag::TestMinCn0 => "--test-min-cn0"@,
        Flag::Prn => "--prn"@,
        Flag::Version => "--version"@,
        Flag::Rfi => "--rfi"@,
        Flag::Simulate => "--simulate"@,
        Flag::Sources => "--sources"@,
        Flag::Positions => "--positions"@,
        Flag::NGenerate => "--N"@,
        Flag::Diameter => "--diameter"@,
        Flag::Seed => "--seed"@,
        Flag::SampleRate => "--sample-rate"@,
        Flag::CenterFreq => "--center-freq"@,
        Flag::Band => "--band"@,
        Flag::Snr => "--snr"@,
    }
}

/// The flag is followed by a value; the others are switches.
pub open spec fn takes_value(f: Flag) -> bool {
    !matches!(f, Flag::Gps | Flag::Galileo | Flag::Beidou | Flag::Sbas | Flag::L1c | Flag::Qzss
        | Flag::All | Flag::Debug | Flag::Cn0 | Flag::Benchmark | Flag::TestAntennas
        | Flag::Version | Flag::Rfi | Flag::Simulate)
}

/// The position of a flag in the order the flags are declared.
spec fn flag_index(f: Flag) -> int {
    match f {
        Flag::File => 0,
        Flag::AntennaI => 1,
        Flag::AntennaJ => 2,
        Flag::Gps => 3,
        Flag::Galileo => 4,
        Flag::Beidou => 5,
        Flag::Sbas => 6,
        Flag::L1c => 7,
        Flag::Qzss => 8,
        Flag::All => 9,
        Flag::Ant => 10,
        Flag::FilterPhaseMad => 11,
        Flag::FilterFreqMad => 12,
        Flag::Output => 13,
        Flag::Debug => 14,
        Flag::Cn0 => 15,
        Flag::Benchmark => 16,
        Flag::TestAntennas => 17,
        Flag::TestMinCn0 => 18,
        Flag::Prn => 19,
        Flag::Version => 20,
        Flag::Rfi => 21,
        Flag::Simulate => 22,
        Flag::Sources => 23,
        Flag::Positions => 24,
        Flag::NGenerate => 25,
        Flag::Diameter => 26,
        Flag::Seed => 27,
        Flag::SampleRate => 28,
        Flag::CenterFreq => 29,
        Flag::Band => 30,
        Flag::Snr => 31,
    }
}

/// Which flag a command-line argument is, if any.
pub fn classify_flag(arg: &str) -> (r: Option<Flag>)
    ensures
        match r {
            Some(f) => arg@ == flag_name(f),
            None => forall|f: Flag| arg@ != #[trigger] flag_name(f),
        },
        forall|f: Flag| arg@ == #[trigger] flag_name(f) ==> r == Some(f),
{
    let table: [(&str, Flag); 32] = [
        ("--file", Flag::File),
        ("--i", Flag::AntennaI),
        ("--j", Flag::AntennaJ),
        ("--gps", Flag::Gps),
        ("--galileo", Flag::Galileo),
        ("--beidou", Flag::Beidou),
        ("--sbas", Flag::Sbas),
        ("--l1c", Flag::L1c),
        ("--qzss", Flag::Qzss),
        ("--all", Flag::All),
        ("--ant", Flag::Ant),
        ("--filter-phase-mad", Flag::FilterPhaseMad),
        ("--filter-freq-mad", Flag::FilterFreqMad),
        ("--output", Flag::Output),
        ("--debug", Flag::Debug),
        ("--cn0", Flag::Cn0),
        ("--benchmark", Flag::Benchmark),
        ("--test-antennas", Flag::TestAntennas),
        ("--test-min-cn0", Flag::TestMinCn0),
        ("--prn", Flag::Prn),
        ("--version", Flag::Version),
        ("--rfi", Flag::Rfi),
        ("--simulate", Flag::Simulate),
        ("--sources", Flag::Sources),
        ("--positions", Flag::Positions),
        ("--N", Flag::NGenerate),
        ("--diameter", Flag::Diameter),
        ("--seed", Flag::Seed),
        ("--sample-rate", Flag::SampleRate),
        ("--center-freq", Flag::CenterFreq),
        ("--band", Flag::Band),
        ("--snr", Flag::Snr),
    ];
    assert(forall|m: int| 0 <= m < 32 ==> (#[trigger] table@[m]).0@ == flag_name(table@[m].1));
    assert(forall|f: Flag| table@[#[trigger] flag_index(f)].1 == f);
    let mut k: usize = 0;
    while k < 32
        invariant
            k <= 32,
            table@.len() == 32,
            forall|m: int| 0 <= m < 32 ==> (#[trigger] table@[m]).0@ == flag_name(table@[m].1),
            forall|m: int| 0 <= m < k ==> arg@ != (#[trigger] table@[m]).0@,
        decreases 32 - k,
    {
        let (name, flag) = table[k];
        if same_text(arg, name) {
            proof {
                lemma_flag_spellings_distinct();
            }
            return Some(flag);
        }
        k += 1;
    }
    assert forall|f: Flag| arg@ != #[trigger] flag_name(f) by {
        assert(table@[flag_index(f)].1 == f);
    }
    None
}

/// Whether a flag is followed by a value.
pub fn flag_takes_value(f: Flag) -> (r: bool)
    ensures
        r == takes_value(f),
{
    !matches!(f, Flag::Gps | Flag::Galileo | Flag::Beidou | Flag::Sbas | Flag::L1c | Flag::Qzss
        | Flag::All | Flag::Debug | Flag::Cn0 | Flag::Benchmark | Flag::TestAntennas
        | Flag::Version | Flag::Rfi | Flag::Simulate)
}

/// Each flag is spelled as the usage documents it: two dashes and its name
/// (`--sbas` is the SBAS search, `--qzss` the QZSS search, ...).
pub proof fn lemma_flag_spellings()
    ensures
        flag_name(Flag::File) == seq!['-', '-', 'f', 'i', 'l', 'e'],
        flag_name(Flag::AntennaI) == seq!['-', '-', 'i'],
        flag_name(Flag::AntennaJ) == seq!['-', '-', 'j'],
        flag_name(Flag::Gps) == seq!['-', '-', 'g', 'p', 's'],
        flag_name(Flag::Galileo) == seq!['-', '-', 'g', 'a', 'l', 'i', 'l', 'e', 'o'],
        flag_name(Flag::Beidou) == seq!['-', '-', 'b', 'e', 'i', 'd', 'o', 'u'],
        flag_name(Flag::Sbas) == seq!['-', '-', 's', 'b', 'a', 's'],
        flag_name(Flag::L1c) == seq!['-', '-', 'l', '1', 'c'],
        flag_name(Flag::Qzss) == seq!['-', '-', 'q', 'z', 's', 's'],
        flag_name(Flag::All) == seq!['-', '-', 'a', 'l', 'l'],
        flag_name(Flag::Ant) == seq!['-', '-', 'a', 'n', 't'],
        flag_name(Flag::FilterPhaseMad) == seq!['-', '-', 'f', 'i', 'l', 't', 'e', 'r', '-', 'p', 'h', 'a', 's', 'e', '-', 'm', 'a', 'd'],
        flag_name(Flag::FilterFreqMad) == seq!['-', '-', 'f', 'i', 'l', 't', 'e', 'r', '-', 'f', 'r', 'e', 'q', '-', 'm', 'a', 'd'],
        flag_name(Flag::Output) == seq!['-', '-', 'o', 'u', 't', 'p', 'u', 't'],
        flag_name(Flag::Debug) == seq!['-', '-', 'd', 'e', 'b', 'u', 'g'],
        flag_name(Flag::Cn0) == seq!['-', '-', 'c', 'n', '0'],
        flag_name(Flag::Benchmark) == seq!['-', '-', 'b', 'e', 'n', 'c', 'h', 'm', 'a', 'r', 'k'],
        flag_name(Flag::TestAntennas) == seq!['-', '-', 't', 'e', 's', 't', '-', 'a', 'n', 't', 'e', 'n', 'n', 'a', 's'],
        flag_name(Flag::TestMinCn0) == seq!['-', '-', 't', 'e', 's', 't', '-', 'm', 'i', 'n', '-', 'c', 'n', '0'],
        flag_name(Flag::Prn) == seq!['-', '-', 'p', 'r', 'n'],
        flag_name(Flag::Version) == seq!['-', '-', 'v', 'e', 'r', 's', 'i', 'o', 'n'],
        flag_name(Flag::Rfi) == seq!['-', '-', 'r', 'f', 'i'],
        flag_name(Flag::Simulate) == seq!['-', '-', 's', 'i', 'm', 'u', 'l', 'a', 't', 'e'],
        flag_name(Flag::Sources) == seq!['-', '-', 's', 'o', 'u', 'r', 'c', 'e', 's'],
        flag_name(Flag::Positions) == seq!['-', '-', 'p', 'o', 's', 'i', 't', 'i', 'o', 'n', 's'],
        flag_name(Flag::NGenerate) == seq!['-', '-', 'N'],
        flag_name(Flag::Diameter) == seq!['-', '-', 'd', 'i', 'a', 'm', 'e', 't', 'e', 'r'],
        flag_name(Flag::Seed) == seq!['-', '-', 's', 'e', 'e', 'd'],
        flag_name(Flag::SampleRate) == seq!['-', '-', 's', 'a', 'm', 'p', 'l', 'e', '-', 'r', 'a', 't', 'e'],
        flag_name(Flag::CenterFreq) == seq!['-', '-', 'c', 'e', 'n', 't', 'e', 'r', '-', 'f', 'r', 'e', 'q'],
        flag_name(Flag::Band) == seq!['-', '-', 'b', 'a', 'n', 'd'],
        flag_name(Flag::Snr) == seq!['-', '-', 's', 'n', 'r'],
{
    reveal_strlit("--file");
    reveal_strlit("--i");
    reveal_strlit("--j");
    reveal_strlit("--gps");
    reveal_strlit("--galileo");
    reveal_strlit("--beidou");
    reveal_strlit("--sbas");
    reveal_strlit("--l1c");
    reveal_strlit("--qzss");
    reveal_strlit("--all");
    reveal_strlit("--ant");
    reveal_strlit("--filter-phase-mad");
    reveal_strlit("--filter-freq-mad");
    reveal_strlit("--output");
    reveal_strlit("--debug");
    reveal_strlit("--cn0");
    reveal_strlit("--benchmark");
    reveal_strlit("--test-antennas");
    reveal_strlit("--test-min-cn0");
    reveal_strlit("--prn");
    reveal_strlit("--version");
    reveal_strlit("--rfi");
    reveal_strlit("--simulate");
    reveal_strlit("--sources");
    reveal_strlit("--positions");
    reveal_strlit("--N");
    reveal_strlit("--diameter");
    reveal_strlit("--seed");
    reveal_strlit("--sample-rate");
    reveal_strlit("--center-freq");
    reveal_strlit("--band");
    reveal_strlit("--snr");
}

/// No two flags share a spelling, so an argument names at most one flag:
/// `classify_flag` of a flag's documented spelling gives that flag.
pub proof fn lemma_flag_spellings_distinct()
    ensures
        forall|f: Flag, g: Flag| f != g ==> #[trigger] flag_name(f) != #[trigger] flag_name(g),
{
    lemma_flag_spellings();
    assert forall|f: Flag, g: Flag| f != g implies #[trigger] flag_name(f) != #[trigger] flag_name(
        g,
    ) by {
        if flag_name(f).len() == flag_name(g).len() {
            assert(exists|k: int| 0 <= k < flag_name(f).len() && flag_name(f)[k] != flag_name(g)[k]);
        }
    }
}

/// The switches are the constellation selectors, `--all`, `--debug`,
/// `--cn0`, `--benchmark`, `--test-antennas`, `--version`, `--rfi` and
/// `--simulate`; every other flag is followed by a value.
pub proof fn lemma_flags_with_values()
    ensures
        takes_value(Flag::File),
        takes_value(Flag::AntennaI),
        takes_value(Flag::AntennaJ),
        !takes_value(Flag::Gps),
        !takes_value(Flag::Galileo),
        !takes_value(Flag::Beidou),
        !takes_value(Flag::Sbas),
        !takes_value(Flag::L1c),
        !takes_value(Flag::Qzss),
        !takes_value(Flag::All),
        takes_value(Flag::Ant),
        takes_value(Flag::FilterPhaseMad),
        takes_value(Flag::FilterFreqMad),
        takes_value(Flag::Output),
        !takes_value(Flag::Debug),
        !takes_value(Flag::Cn0),
        !takes_value(Flag::Benchmark),
        !takes_value(Flag::TestAntennas),
        takes_value(Flag::TestMinCn0),
        takes_value(Flag::Prn),
        !takes_value(Flag::Version),
        !takes_value(Flag::Rfi),
        !takes_value(Flag::Simulate),
        takes_value(Flag::Sources),
        takes_value(Flag::Positions),
        takes_value(Flag::NGenerate),
        takes_value(Flag::Diameter),
        takes_value(Flag::Seed),
        takes_value(Flag::SampleRate),
        takes_value(Flag::CenterFreq),
        takes_value(Flag::Band),
        takes_value(Flag::Snr),
{
}

/// Read the value following a flag, advancing `i`, or return an error if absent.
pub fn flag_value<'a>(args: &'a [String], i: &mut usize, flag: &str) -> (r: Result<&'a str, String>)
    ensures
        r is Ok <==> *old(i) + 1 < args.len(),
        r matches Ok(v) ==> *final(i) == *old(i) + 1 && v@ == args@[*old(i) + 1]@,
        r matches Err(m) ==> *final(i) == *old(i) && m@ == "missing value for "@ + flag@,
{
    if args.len() == 0 || *i >= args.len() - 1 {
        return Err(missing_value_message(flag));
    }
    *i = *i + 1;
    Ok(args[*i].as_str())
}

/// The mode flags of a command line: what the implication and conflict
/// rules read and write.
pub struct ModeFlags {
    pub antenna_i: Option<usize>,
    pub antenna_j: Option<usize>,
    pub gps_flag: bool,
    pub galileo_flag: bool,
    pub beidou_flag: bool,
    pub sbas_flag: bool,
    pub l1c_flag: bool,
    pub qzss_flag: bool,
    pub all_flag: bool,
    pub cn0_flag: bool,
    pub benchmark_flag: bool,
    pub test_antennas_flag: bool,
    pub rfi_flag: bool,
    pub simulate: bool,
}

/// At least one constellation is selected.
pub open spec fn any_constellation(p: ModeFlags) -> bool {
    p.gps_flag || p.galileo_flag || p.beidou_flag || p.sbas_flag || p.l1c_flag || p.qzss_flag
}

/// The same flags with all six constellations selected.
pub open spec fn with_all_constellations(p: ModeFlags) -> ModeFlags {
    ModeFlags {
        gps_flag: true,
        galileo_flag: true,
        beidou_flag: true,
        sbas_flag: true,
        l1c_flag: true,
        qzss_flag: true,
        ..p
    }
}

/// The flags after the implications: `--all` selects all six
/// constellations; `--test-antennas` forces `--cn0` and, unless combined
/// with `--benchmark` or an explicit constellation, selects all six.
pub open spec fn implied_flags(p: ModeFlags) -> ModeFlags {
    let q = if p.all_flag {
        with_all_constellations(p)
    } else {
        p
    };
    if q.test_antennas_flag {
        let r = ModeFlags { cn0_flag: true, ..q };
        if r.benchmark_flag || any_constellation(r) {
            r
        } else {
            with_all_constellations(r)
        }
    } else {
        q
    }
}

/// The first conflict between mode flags, as its message, if any.
pub open spec fn mode_conflict(p: ModeFlags) -> Option<Seq<char>> {
    if p.test_antennas_flag && p.benchmark_flag {
        Some("--test-antennas cannot be combined with --benchmark"@)
    } else if p.rfi_flag && p.benchmark_flag {
        Some("--rfi cannot be combined with --benchmark"@)
    } else if p.rfi_flag && p.test_antennas_flag {
        Some("--rfi cannot be combined with --test-antennas"@)
    } else if p.rfi_flag && (p.antenna_i is Some || p.antenna_j is Some) {
        Some("--rfi cannot be combined with --i/--j"@)
    } else if p.rfi_flag && p.simulate {
        Some("--rfi cannot be combined with --simulate"@)
    } else {
        None
    }
}

/// The implications, flag by flag.  A constellation is searched exactly
/// when its flag is given, or `--all` is given, or `--test-antennas` is
/// given without `--benchmark` and without any of the six constellation
/// flags; so explicit constellation flags are kept as given.  `--cn0` is
/// on when given or implied by `--test-antennas`; no other flag changes.
pub proof fn lemma_mode_implications(p: ModeFlags)
    ensures
        ({
            let q = implied_flags(p);
            let none_given = !p.gps_flag && !p.galileo_flag && !p.beidou_flag && !p.sbas_flag
                && !p.l1c_flag && !p.qzss_flag;
            let implied_all = p.all_flag || (p.test_antennas_flag && !p.benchmark_flag
                && none_given);
            &&& q.gps_flag == (p.gps_flag || implied_all)
            &&& q.galileo_flag == (p.galileo_flag || implied_all)
            &&& q.beidou_flag == (p.beidou_flag || implied_all)
            &&& q.sbas_flag == (p.sbas_flag || implied_all)
            &&& q.l1c_flag == (p.l1c_flag || implied_all)
            &&& q.qzss_flag == (p.qzss_flag || implied_all)
            &&& q.cn0_flag == (p.cn0_flag || p.test_antennas_flag)
            &&& q.antenna_i == p.antenna_i
            &&& q.antenna_j == p.antenna_j
            &&& q.all_flag == p.all_flag
            &&& q.benchmark_flag == p.benchmark_flag
            &&& q.test_antennas_flag == p.test_antennas_flag
            &&& q.rfi_flag == p.rfi_flag
            &&& q.simulate == p.simulate
        }),
{
}

/// Explicit constellation flags are respected: without `--all`, once any
/// constellation flag is given, exactly the given constellations are
/// searched (with or without `--test-antennas`).
pub proof fn lemma_explicit_constellations_kept(p: ModeFlags)
    requires
        !p.all_flag,
        p.gps_flag || p.galileo_flag || p.beidou_flag || p.sbas_flag || p.l1c_flag || p.qzss_flag,
    ensures
        implied_flags(p).gps_flag == p.gps_flag,
        implied_flags(p).galileo_flag == p.galileo_flag,
        implied_flags(p).beidou_flag == p.beidou_flag,
        implied_flags(p).sbas_flag == p.sbas_flag,
        implied_flags(p).l1c_flag == p.l1c_flag,
        implied_flags(p).qzss_flag == p.qzss_flag,
{
    lemma_mode_implications(p);
}

/// The refused combinations: `--test-antennas` with `--benchmark`, and
/// `--rfi` with any of `--benchmark`, `--test-antennas`, `--i`, `--j` or
/// `--simulate`.  Every other combination is accepted.
pub proof fn lemma_mode_conflicts(p: ModeFlags)
    ensures
        (mode_conflict(p) is Some) == ((p.test_antennas_flag && p.benchmark_flag) || (p.rfi_flag
            && (p.benchmark_flag || p.test_antennas_flag || p.antenna_i is Some || p.antenna_j is Some
            || p.simulate))),
{
}

/// Select all six constellations.
fn select_all_constellations(p: &mut ModeFlags)
    ensures
        *final(p) == with_all_constellations(*old(p)),
{
    p.gps_flag = true;
    p.galileo_flag = true;
    p.beidou_flag = true;
    p.sbas_flag = true;
    p.l1c_flag = true;
    p.qzss_flag = true;
}

/// Resolve flag implications (`--all` ⇒ six constellations; `--test-antennas`
/// ⇒ force `--cn0` and, unless a specific constellation flag is given, imply
/// `--all`). Returns an error string for incompatible combinations.
pub fn apply_mode_implications(p: &mut ModeFlags) -> (r: Result<(), String>)
    ensures
        *final(p) == implied_flags(*old(p)),
        r is Err <==> mode_conflict(*old(p)) is Some,
        r matches Err(m) ==> mode_conflict(*old(p)) == Some(m@),
{
    if p.all_flag {
        select_all_constellations(p);
    }
    if p.test_antennas_flag {
        p.cn0_flag = true;
        if p.benchmark_flag {
            return Err("--test-antennas cannot be combined with --benchmark".to_owned());
        }
        if !(p.gps_flag || p.galileo_flag || p.beidou_flag || p.sbas_flag || p.l1c_flag
            || p.qzss_flag) {
            select_all_constellations(p);
        }
    }
    if p.rfi_flag {
        if p.benchmark_flag {
            return Err("--rfi cannot be combined with --benchmark".to_owned());
        }
        if p.test_antennas_flag {
            return Err("--rfi cannot be combined with --test-antennas".to_owned());
        }
        if p.antenna_i.is_some() || p.antenna_j.is_some() {
            return Err("--rfi cannot be combined with --i/--j".to_owned());
        }
        if p.simulate {
            return Err("--rfi cannot be combined with --simulate".to_owned());
        }
    }
    Ok(())
}

} // verus!
