use rf_signal::args::{parse_args, Command, RunMode};
use rf_signal::gui::{bits_choices, failure_text, run_text, standard_choices, AppConfig};
use rf_signal::preset::rf_preset;

#[test]
fn defaults() {
    let c = AppConfig::default();
    assert_eq!(c.standard, "PAL");
    assert_eq!((c.orig_bits.as_str(), c.deci_bits.as_str()), ("auto", "auto"));
    assert!(c.original.is_empty() && c.decimated.is_empty());
    assert!(c.baseline_adc.is_empty() && c.baseline_chain.is_empty());
}

#[test]
fn plain_arguments() {
    let mut c = AppConfig::default();
    c.original = "a b.flac".to_string();
    c.decimated = "c.u16".to_string();
    assert_eq!(c.backend_args(), ["a b.flac", "c.u16", "--standard", "pal"]);
    c.baseline_adc = "only one".to_string();
    assert_eq!(c.backend_args().len(), 4);
}

#[test]
fn full_arguments() {
    let c = AppConfig {
        original: "a".to_string(),
        decimated: "b".to_string(),
        baseline_adc: "x".to_string(),
        baseline_chain: "y".to_string(),
        standard: "M-PAL".to_string(),
        orig_bits: "12".to_string(),
        deci_bits: "8".to_string(),
    };
    assert_eq!(
        c.backend_args(),
        [
            "a", "b", "--standard", "m-pal", "--orig-bits", "12", "--deci-bits", "8",
            "--baseline-adc", "x", "--baseline-chain", "y",
        ]
    );
    assert_eq!(c.backend_args_for("other".to_string())[3], "other");
}

#[test]
fn letters_beyond_ascii_are_made_small() {
    let mut c = AppConfig::default();
    c.standard = "\u{C4}B".to_string();
    assert_eq!(c.backend_args()[3], "\u{E4}b");
}

#[test]
fn the_program_takes_the_arguments() {
    for standard in standard_choices() {
        for bits in bits_choices() {
            let mut c = AppConfig::default();
            c.original = "o".to_string();
            c.decimated = "d".to_string();
            c.standard = standard.to_string();
            c.orig_bits = bits.to_string();
            c.baseline_adc = "x".to_string();
            c.baseline_chain = "y".to_string();
            let mut args = vec!["compare-rf".to_string()];
            args.append(&mut c.backend_args());
            match parse_args(&args) {
                Ok(Command::Run(run)) => {
                    assert_eq!(rf_preset(&run.standard).unwrap().name, standard);
                    assert_eq!(run.orig_bits, bits.parse::<u32>().ok());
                    assert_eq!(run.deci_bits, None);
                    match run.mode {
                        RunMode::Compare { original, decimated, .. } => {
                            assert_eq!((original.as_str(), decimated.as_str()), ("o", "d"));
                        }
                        other => panic!("{:?}", other),
                    }
                }
                other => panic!("{:?}", other),
            }
        }
    }
}

#[test]
fn texts_of_runs() {
    assert_eq!(run_text(true, "0", "out", "err"), "out\n\n--- Log ---\nerr");
    assert_eq!(run_text(false, "exit status: 1", "out", "err"), "ERROR (exit exit status: 1):\nerr\nout");
    assert_eq!(
        failure_text("not found", "/x/compare-rf.exe"),
        "Failed to run compare-rf.exe: not found\nExpected at: /x/compare-rf.exe"
    );
}
