use tart_gnss_acquire::cli::{
    apply_mode_implications, classify_flag, flag_takes_value, flag_value, Flag, ModeFlags,
};
use tart_gnss_acquire::decimal::{parse_index_list, parse_u64, parse_usize};

fn a(list: &[&str]) -> Vec<String> {
    list.iter().map(|s| s.to_string()).collect()
}

/// No flag set.
fn none() -> ModeFlags {
    ModeFlags {
        antenna_i: None,
        antenna_j: None,
        gps_flag: false,
        galileo_flag: false,
        beidou_flag: false,
        sbas_flag: false,
        l1c_flag: false,
        qzss_flag: false,
        all_flag: false,
        cn0_flag: false,
        benchmark_flag: false,
        test_antennas_flag: false,
        rfi_flag: false,
        simulate: false,
    }
}

#[test]
fn test_parse_test_antennas_flags() {
    // --test-antennas alone must imply cn0 + all constellations.
    let mut p2 = ModeFlags { test_antennas_flag: true, ..none() };
    apply_mode_implications(&mut p2).unwrap();
    assert!(p2.cn0_flag);
    assert!(p2.gps_flag && p2.galileo_flag && p2.beidou_flag);
    assert!(p2.sbas_flag && p2.l1c_flag && p2.qzss_flag);
}

#[test]
fn test_apply_mode_implications_respects_explicit_constellation() {
    let mut p = ModeFlags { test_antennas_flag: true, gps_flag: true, ..none() };
    apply_mode_implications(&mut p).unwrap();
    assert!(p.cn0_flag);
    assert!(p.gps_flag);
    assert!(!p.galileo_flag && !p.qzss_flag, "must respect explicit --gps");
}

#[test]
fn test_apply_mode_implications_benchmark_conflict() {
    let mut p = ModeFlags { test_antennas_flag: true, benchmark_flag: true, ..none() };
    assert!(apply_mode_implications(&mut p).is_err());
}

#[test]
fn test_apply_mode_implications_rfi_conflicts() {
    let mut p = ModeFlags { rfi_flag: true, antenna_i: Some(0), antenna_j: Some(1), ..none() };
    assert!(apply_mode_implications(&mut p).is_err());
    let mut p = ModeFlags { rfi_flag: true, test_antennas_flag: true, ..none() };
    assert!(apply_mode_implications(&mut p).is_err());
    let mut p = ModeFlags { rfi_flag: true, benchmark_flag: true, ..none() };
    assert!(apply_mode_implications(&mut p).is_err());
    let mut p = ModeFlags { rfi_flag: true, ..none() };
    assert!(apply_mode_implications(&mut p).is_ok());
}

#[test]
fn conflict_messages() {
    let mut p = ModeFlags { test_antennas_flag: true, benchmark_flag: true, ..none() };
    assert_eq!(
        apply_mode_implications(&mut p),
        Err("--test-antennas cannot be combined with --benchmark".to_string())
    );
    // cn0 is forced before the conflict is reported; no constellation is added.
    assert!(p.cn0_flag && !p.gps_flag);
    let mut p = ModeFlags { rfi_flag: true, simulate: true, ..none() };
    assert_eq!(
        apply_mode_implications(&mut p),
        Err("--rfi cannot be combined with --simulate".to_string())
    );
    let mut p = ModeFlags { rfi_flag: true, antenna_j: Some(3), ..none() };
    assert_eq!(
        apply_mode_implications(&mut p),
        Err("--rfi cannot be combined with --i/--j".to_string())
    );
}

#[test]
fn all_flag_selects_every_constellation() {
    let mut p = ModeFlags { all_flag: true, ..none() };
    assert!(apply_mode_implications(&mut p).is_ok());
    assert!(p.gps_flag && p.galileo_flag && p.beidou_flag);
    assert!(p.sbas_flag && p.l1c_flag && p.qzss_flag);
    assert!(!p.cn0_flag);
}

#[test]
fn flag_value_reads_next_argument() {
    let args = a(&["prog", "--file", "obs.hdf"]);
    let mut i = 1;
    assert_eq!(flag_value(&args, &mut i, "--file"), Ok("obs.hdf"));
    assert_eq!(i, 2);
}

#[test]
fn flag_value_missing_value() {
    let args = a(&["prog", "--file"]);
    let mut i = 1;
    assert_eq!(
        flag_value(&args, &mut i, "--file"),
        Err("missing value for --file".to_string())
    );
    assert_eq!(i, 1);
    let empty: Vec<String> = Vec::new();
    let mut j = 0;
    assert!(flag_value(&empty, &mut j, "--i").is_err());
}

#[test]
fn classify_known_and_unknown_flags() {
    assert_eq!(classify_flag("--file"), Some(Flag::File));
    assert_eq!(classify_flag("--i"), Some(Flag::AntennaI));
    assert_eq!(classify_flag("--N"), Some(Flag::NGenerate));
    assert_eq!(classify_flag("--filter-phase-mad"), Some(Flag::FilterPhaseMad));
    assert_eq!(classify_flag("--snr"), Some(Flag::Snr));
    assert_eq!(classify_flag("--nope"), None);
    assert_eq!(classify_flag("--n"), None);
    assert_eq!(classify_flag("--file "), None);
    assert_eq!(classify_flag("file"), None);
    assert_eq!(classify_flag(""), None);
}

#[test]
fn switches_take_no_value() {
    for f in [Flag::Gps, Flag::All, Flag::Cn0, Flag::Debug, Flag::Version, Flag::Rfi, Flag::Simulate] {
        assert!(!flag_takes_value(f));
    }
    for f in [Flag::File, Flag::Ant, Flag::Prn, Flag::Seed, Flag::NGenerate, Flag::Snr, Flag::Output] {
        assert!(flag_takes_value(f));
    }
}

#[test]
fn every_command_line_word_of_a_full_invocation_is_classified() {
    let args = a(&[
        "tart-gnss-acquire", "--file", "obs.hdf", "--all", "--cn0", "--debug",
        "--prn", "1,5,12", "--ant", "0,2",
        "--filter-phase-mad", "0.002",
        "--filter-freq-mad", "100.0",
        "--output", "out.json",
    ]);
    let mut i = 1;
    let mut seen = Vec::new();
    while i < args.len() {
        let flag = classify_flag(&args[i]).expect("known flag");
        if flag_takes_value(flag) {
            let name = args[i].clone();
            let v = flag_value(&args, &mut i, &name).unwrap().to_string();
            seen.push((flag, Some(v)));
        } else {
            seen.push((flag, None));
        }
        i += 1;
    }
    assert_eq!(seen.len(), 9);
    assert_eq!(seen[0], (Flag::File, Some("obs.hdf".to_string())));
    assert_eq!(seen[4], (Flag::Prn, Some("1,5,12".to_string())));
    assert_eq!(parse_index_list("1,5,12"), Ok(vec![1, 5, 12]));
    assert_eq!(parse_index_list("0,2"), Ok(vec![0, 2]));
    assert_eq!(seen[8], (Flag::Output, Some("out.json".to_string())));
}

#[test]
fn unsigned_decimals_read_as_str_parse_does() {
    assert_eq!(parse_usize("0"), Some(0));
    assert_eq!(parse_usize("12"), Some(12));
    assert_eq!(parse_usize("+7"), Some(7));
    assert_eq!(parse_usize("007"), Some(7));
    assert_eq!(parse_usize(""), None);
    assert_eq!(parse_usize("+"), None);
    assert_eq!(parse_usize("-1"), None);
    assert_eq!(parse_usize("bogus"), None);
    assert_eq!(parse_usize(" 1"), None);
    assert_eq!(parse_usize("1.0"), None);
    assert_eq!(parse_usize("\u{661}"), None);
    assert_eq!(parse_u64("99"), Some(99));
    assert_eq!(parse_u64("18446744073709551615"), Some(u64::MAX));
    assert_eq!(parse_u64("18446744073709551616"), None);
    for s in ["1", "42", "+3", "x", "", "18446744073709551616", "4294967296"] {
        assert_eq!(parse_usize(s), s.parse::<usize>().ok());
        assert_eq!(parse_u64(s), s.parse::<u64>().ok());
    }
}

#[test]
fn index_lists_trim_each_piece() {
    assert_eq!(parse_index_list("1, 5 ,12"), Ok(vec![1, 5, 12]));
    assert_eq!(parse_index_list("3"), Ok(vec![3]));
    assert_eq!(parse_index_list("\u{a0}4\t"), Ok(vec![4]));
    // The index of the first piece that is not an unsigned decimal.
    assert_eq!(parse_index_list("1,x,y"), Err(1));
    assert_eq!(parse_index_list(""), Err(0));
    assert_eq!(parse_index_list("1,2,"), Err(2));
    assert_eq!(parse_index_list(",1"), Err(0));
}
