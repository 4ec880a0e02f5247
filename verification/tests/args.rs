use rf_signal::args::{
    help_text, lacks_value, parse_args, parse_number, ArgError, Command, Config, NumberError,
    RunMode,
};

fn words(args: &[&str]) -> Vec<String> {
    args.iter().map(|s| s.to_string()).collect()
}

fn run(args: &[&str]) -> Config {
    assert!(!lacks_value(&words(args)));
    match parse_args(&words(args)) {
        Ok(Command::Run(config)) => config,
        other => panic!("{:?}", other),
    }
}

fn error(args: &[&str]) -> ArgError {
    assert!(!lacks_value(&words(args)));
    parse_args(&words(args)).unwrap_err()
}

#[test]
fn numbers_read_as_std_reads_them() {
    for s in [
        "0", "7", "007", "+7", "40000000", "4294967295", "4294967296", "42949672950", "4294967295x",
        "4294967296x", "99999999999x", "", "+", "-", "-1", "++1", "1 ", " 1", "1_000", "12a", "a12",
        "\u{0661}", "+4294967295", "+4294967296", "00000000000000000001",
    ] {
        match (parse_number(s), s.parse::<u32>()) {
            (Ok(a), Ok(b)) => assert_eq!(a, b),
            (Err(a), Err(b)) => assert_eq!(a.message(), b.to_string(), "{:?}", s),
            other => panic!("{:?} {:?}", s, other),
        }
    }
    assert_eq!(parse_number(""), Err(NumberError::Empty));
    assert_eq!(parse_number("x"), Err(NumberError::InvalidDigit));
    assert_eq!(parse_number("5000000000"), Err(NumberError::TooLarge));
}

#[test]
fn numbers_read_back() {
    for n in [0u32, 1, 9, 10, 4096, 655_350, u32::MAX] {
        assert_eq!(parse_number(&n.to_string()), Ok(n));
    }
}

#[test]
fn two_files_are_enough() {
    let c = run(&["compare-rf", "a.flac", "b.u16"]);
    assert_eq!(c.standard, "ntsc");
    assert_eq!(c.window, "blackman");
    assert_eq!((c.orig_rate, c.deci_rate), (40_000_000, 20_000_000));
    assert_eq!((c.orig_bits, c.deci_bits), (None, None));
    match c.mode {
        RunMode::Compare { original, decimated, calibration, csv, psd_csv, json_out } => {
            assert_eq!(original, "a.flac");
            assert_eq!(decimated, "b.u16");
            assert!(calibration.is_none() && csv.is_none() && psd_csv.is_none());
            assert!(json_out.is_none());
        }
        other => panic!("{:?}", other),
    }
}

#[test]
fn all_compare_options() {
    let c = run(&[
        "p", "a", "b", "--standard", "PAL", "--calibration", "k", "--csv", "m.csv", "--psd-csv", "pre",
        "--json", "r.json", "--orig-bits", "12", "--deci-bits", "+8", "--orig-rate", "28636363",
        "--deci-rate", "14318181", "--window", "BlackMan", "--baseline-adc", "x", "--baseline-chain", "y",
    ]);
    assert_eq!(c.standard, "PAL");
    assert_eq!(c.window, "blackman");
    assert_eq!((c.orig_rate, c.deci_rate), (28_636_363, 14_318_181));
    assert_eq!((c.orig_bits, c.deci_bits), (Some(12), Some(8)));
    match c.mode {
        RunMode::Compare { calibration, csv, psd_csv, json_out, .. } => {
            assert_eq!(calibration.unwrap(), "k");
            assert_eq!(csv.unwrap(), "m.csv");
            assert_eq!(psd_csv.unwrap(), "pre");
            assert_eq!(json_out.unwrap(), "r.json");
        }
        other => panic!("{:?}", other),
    }
}

#[test]
fn the_last_value_counts() {
    let c = run(&["p", "a", "b", "--standard", "pal", "--standard", "m-pal"]);
    assert_eq!(c.standard, "m-pal");
}

#[test]
fn calibrate_anywhere() {
    let c = run(&[
        "p", "stray", "--adc-file", "a", "--chain-file", "c", "--cal-output", "o", "--orig-rate", "5",
        "--orig-bits", "8", "--standard", "npal", "--deci-rate", "oops", "--calibrate",
    ]);
    assert_eq!(c.orig_rate, 5);
    assert_eq!(c.deci_rate, 20_000_000);
    assert_eq!(c.orig_bits, Some(8));
    assert_eq!(c.standard, "npal");
    match c.mode {
        RunMode::Calibrate { adc_file, chain_file, cal_output } => {
            assert_eq!((adc_file, chain_file, cal_output), ("a".into(), "c".into(), "o".into()));
        }
        other => panic!("{:?}", other),
    }
}

#[test]
fn refused_command_lines() {
    assert!(matches!(error(&[]), ArgError::Usage));
    assert!(matches!(error(&["p", "a"]), ArgError::Usage));
    assert!(error(&["p"]).message().starts_with("Usage: compare-rf <original> <decimated> [options]\n"));
    assert!(error(&["p"]).message().ends_with("[--standard ...]\n"));
    assert_eq!(
        error(&["p", "a", "b", "--window", "hann"]).message(),
        "only Blackman-Harris is supported: use --window blackman"
    );
    assert_eq!(error(&["p", "a", "b", "--what"]).message(), "unknown argument: --what");
    assert_eq!(
        error(&["p", "a", "b", "--orig-bits", "x"]).message(),
        "invalid digit found in string"
    );
    assert_eq!(
        error(&["p", "a", "b", "--deci-rate", ""]).message(),
        "cannot parse integer from empty string"
    );
    assert_eq!(
        error(&["p", "a", "b", "--deci-bits", "4294967296"]).message(),
        "number too large to fit in target type"
    );
    assert_eq!(error(&["p", "--calibrate"]).message(), "--calibrate requires --adc-file");
    assert_eq!(
        error(&["p", "--calibrate", "--adc-file", "a"]).message(),
        "--calibrate requires --chain-file"
    );
    assert_eq!(
        error(&["p", "--calibrate", "--adc-file", "a", "--chain-file", "b"]).message(),
        "--calibrate requires --cal-output"
    );
}

#[test]
fn the_first_trouble_is_told() {
    assert!(matches!(error(&["p", "a", "b", "--what", "--window"]), ArgError::Unknown(_)));
    assert!(matches!(
        parse_args(&words(&["p", "a", "b", "--help", "--what"])),
        Ok(Command::Help)
    ));
    assert!(matches!(error(&["p", "a", "b", "--what", "-h"]), ArgError::Unknown(_)));
}

#[test]
fn help() {
    assert!(matches!(parse_args(&words(&["p", "a", "b", "-h"])), Ok(Command::Help)));
    assert_eq!(help_text().lines().count(), 8);
    assert!(help_text().ends_with("--cal-output Z.cal.json\n"));
}

#[test]
fn options_without_their_value() {
    assert!(lacks_value(&words(&["p", "a", "b", "--csv"])));
    assert!(lacks_value(&words(&["p", "--calibrate", "--adc-file"])));
    assert!(!lacks_value(&words(&["p", "a", "b", "--csv", "--csv"])));
    assert!(!lacks_value(&words(&["p", "--calibrate", "--csv"])));
    assert!(!lacks_value(&words(&["p", "--csv"])));
}

#[test]
fn baseline_options_at_the_end_are_passed_over() {
    for option in ["--baseline-adc", "--baseline-chain"] {
        let c = run(&["compare-rf", "a.s16", "b.s16", option]);
        assert_eq!((c.standard.as_str(), c.orig_rate, c.deci_rate), ("ntsc", 40_000_000, 20_000_000));
        let c = run(&["compare-rf", "a.s16", "b.s16", option, "--what"]);
        assert_eq!(c.standard, "ntsc");
        let c = run(&["compare-rf", "a.s16", "b.s16", option, "x", "--standard", "pal", option]);
        assert_eq!(c.standard, "pal");
        assert!(lacks_value(&words(&["p", "a", "b", option, "x", "--csv"])));
    }
}
