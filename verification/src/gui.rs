//! The window's settings, and how it runs the command line program.

use crate::args::{Outcome, Problem, Settings};
use crate::text::same;
use vstd::prelude::*;

verus! {

/// What the window asks for, as typed.
#[derive(Clone, Debug)]
pub struct AppConfig {
    pub original: String,
    pub decimated: String,
    pub baseline_adc: String,
    pub baseline_chain: String,
    pub standard: String,
    pub orig_bits: String,
    pub deci_bits: String,
}

impl Default for AppConfig {
    /// No files, PAL, and bit depths left to the program.
    fn default() -> (config: AppConfig)
        ensures
            config.original@ == Seq::<char>::empty(),
            config.decimated@ == Seq::<char>::empty(),
            config.baseline_adc@ == Seq::<char>::empty(),
            config.baseline_chain@ == Seq::<char>::empty(),
            config.standard@ == "PAL"@,
            config.orig_bits@ == "auto"@,
            config.deci_bits@ == "auto"@,
    {
        AppConfig {
            original: String::new(),
            decimated: String::new(),
            baseline_adc: String::new(),
            baseline_chain: String::new(),
            standard: "PAL".to_owned(),
            orig_bits: "auto".to_owned(),
            deci_bits: "auto".to_owned(),
        }
    }
}

/// The standards to choose from.
pub open spec fn standard_names() -> Seq<Seq<char>> {
    seq!["NTSC"@, "PAL"@, "M-PAL"@, "N-PAL"@]
}

/// The standards to choose from.
pub fn standard_choices() -> (r: Vec<&'static str>)
    ensures
        r@.map_values(|s: &'static str| s@) == standard_names(),
{
    let r: Vec<&'static str> = vec!["NTSC", "PAL", "M-PAL", "N-PAL"];
    assert(r@.map_values(|s: &'static str| s@) =~= standard_names());
    r
}

/// The bit depths to choose from.
pub fn bits_choices() -> (r: Vec<&'static str>)
    ensures
        r@.map_values(|s: &'static str| s@) == seq!["auto"@, "8"@, "12"@, "16"@],
{
    let r: Vec<&'static str> = vec!["auto", "8", "12", "16"];
    assert(r@.map_values(|s: &'static str| s@) =~= seq!["auto"@, "8"@, "12"@, "16"@]);
    r
}

/// What `to_lowercase` of the standard library's strings makes of a text.
pub uninterp spec fn unicode_lowercase(s: Seq<char>) -> Seq<char>;

/// Makes a text small with `str::to_lowercase`. Taken on trust: the result depends on the text
/// alone, and of a text of ASCII characters only the capitals A to Z change, to a to z.
#[verifier::external_body]
fn lowercase(s: &str) -> (r: String)
    ensures
        r@ == unicode_lowercase(s@),
        vstd::utf8::is_ascii_chars(s@) ==> r@ == crate::text::lower(s@),
{
    s.to_lowercase()
}

/// An option and its value, or nothing where the value is left to the program.
pub open spec fn bits_words(option: Seq<char>, bits: Seq<char>) -> Seq<Seq<char>> {
    if bits == "auto"@ {
        Seq::empty()
    } else {
        seq![option, bits]
    }
}

impl AppConfig {
    /// The baseline options, given only with both files.
    pub open spec fn baseline_words(&self) -> Seq<Seq<char>> {
        if self.baseline_adc@.len() > 0 && self.baseline_chain@.len() > 0 {
            seq!["--baseline-adc"@, self.baseline_adc@, "--baseline-chain"@, self.baseline_chain@]
        } else {
            Seq::empty()
        }
    }

    /// The arguments for the command line program, with the standard's name given in small
    /// letters.
    pub open spec fn backend_words(&self, standard: Seq<char>) -> Seq<Seq<char>> {
        seq![self.original@, self.decimated@, "--standard"@, standard] + bits_words(
            "--orig-bits"@,
            self.orig_bits@,
        ) + bits_words("--deci-bits"@, self.deci_bits@) + self.baseline_words()
    }

    /// The arguments for the command line program.
    pub fn backend_args(&self) -> (args: Vec<String>)
        ensures
            crate::args::texts(args@) == self.backend_words(unicode_lowercase(self.standard@)),
            vstd::utf8::is_ascii_chars(self.standard@) ==> crate::args::texts(args@)
                == self.backend_words(crate::text::lower(self.standard@)),
    {
        let standard = lowercase(self.standard.as_str());
        self.backend_args_for(standard)
    }

    /// The arguments for the command line program, with the standard's name in small letters.
    pub fn backend_args_for(&self, standard: String) -> (args: Vec<String>)
        ensures
            crate::args::texts(args@) == self.backend_words(standard@),
    {
        let mut args: Vec<String> = Vec::new();
        args.push(self.original.clone());
        args.push(self.decimated.clone());
        args.push("--standard".to_owned());
        args.push(standard);
        if !same(self.orig_bits.as_str(), "auto") {
            args.push("--orig-bits".to_owned());
            args.push(self.orig_bits.clone());
        }
        if !same(self.deci_bits.as_str(), "auto") {
            args.push("--deci-bits".to_owned());
            args.push(self.deci_bits.clone());
        }
        if !self.baseline_adc.as_str().is_empty() && !self.baseline_chain.as_str().is_empty() {
            args.push("--baseline-adc".to_owned());
            args.push(self.baseline_adc.clone());
            args.push("--baseline-chain".to_owned());
            args.push(self.baseline_chain.clone());
        }
        assert(crate::args::texts(args@) =~= self.backend_words(standard@));
        args
    }
}

/// The text to show for a run of the command line program that ended.
pub open spec fn run_words(
    success: bool,
    status: Seq<char>,
    stdout: Seq<char>,
    stderr: Seq<char>,
) -> Seq<char> {
    if success {
        stdout + "\n\n--- Log ---\n"@ + stderr
    } else {
        "ERROR (exit "@ + status + "):\n"@ + stderr + "\n"@ + stdout
    }
}

/// The text to show for a run of the command line program that ended.
pub fn run_text(success: bool, status: &str, stdout: &str, stderr: &str) -> (r: String)
    ensures
        r@ == run_words(success, status@, stdout@, stderr@),
{
    if success {
        let mut r = stdout.to_owned();
        r.append("\n\n--- Log ---\n");
        r.append(stderr);
        r
    } else {
        let mut r = "ERROR (exit ".to_owned();
        r.append(status);
        r.append("):\n");
        r.append(stderr);
        r.append("\n");
        r.append(stdout);
        r
    }
}

/// The text to show where the command line program could not be run.
pub fn failure_text(error: &str, backend: &str) -> (r: String)
    ensures
        r@ == "Failed to run compare-rf.exe: "@ + error@ + "\nExpected at: "@ + backend@,
{
    let mut r = "Failed to run compare-rf.exe: ".to_owned();
    r.append(error);
    r.append("\nExpected at: ");
    r.append(backend);
    r
}

/// What tells the options from one another.
pub(crate) proof fn lemma_option_names()
    ensures
        "--standard"@.len() == 10,
        "--window"@.len() == 8,
        "--orig-rate"@.len() == 11,
        "--deci-rate"@.len() == 11,
        "--orig-bits"@.len() == 11,
        "--deci-bits"@.len() == 11,
        "--calibration"@.len() == 13,
        "--csv"@.len() == 5,
        "--psd-csv"@.len() == 9,
        "--json"@.len() == 6,
        "--adc-file"@.len() == 10,
        "--chain-file"@.len() == 12,
        "--cal-output"@.len() == 12,
        "--baseline-adc"@.len() == 14,
        "--baseline-chain"@.len() == 16,
        "--standard"@[2] == 's' && "--adc-file"@[2] == 'a',
        "--chain-file"@[3] == 'h' && "--cal-output"@[3] == 'a',
        "--orig-rate"@[2] == 'o' && "--orig-rate"@[7] == 'r',
        "--deci-rate"@[2] == 'd' && "--deci-rate"@[7] == 'r',
        "--orig-bits"@[2] == 'o' && "--orig-bits"@[7] == 'b',
        "--deci-bits"@[2] == 'd' && "--deci-bits"@[7] == 'b',
{
    reveal_strlit("--standard");
    reveal_strlit("--window");
    reveal_strlit("--orig-rate");
    reveal_strlit("--deci-rate");
    reveal_strlit("--orig-bits");
    reveal_strlit("--deci-bits");
    reveal_strlit("--calibration");
    reveal_strlit("--csv");
    reveal_strlit("--psd-csv");
    reveal_strlit("--json");
    reveal_strlit("--adc-file");
    reveal_strlit("--chain-file");
    reveal_strlit("--cal-output");
    reveal_strlit("--baseline-adc");
    reveal_strlit("--baseline-chain");
}

/// The bit depth that a choice stands for.
pub open spec fn chosen_bits(bits: Seq<char>) -> Option<u32> {
    match crate::args::number(bits) {
        Ok(n) => if bits == "auto"@ {
            None
        } else {
            Some(n)
        },
        Err(_) => None,
    }
}

/// A choice of bit depth is `auto` or a number.
pub open spec fn is_bits_choice(bits: Seq<char>) -> bool {
    bits == "auto"@ || crate::args::number(bits) is Ok
}

proof fn lemma_bits_step(
    args: Seq<Seq<char>>,
    i: int,
    st: Settings,
    next: Settings,
    option: Seq<char>,
    bits: Seq<char>,
)
    requires
        0 <= i,
        crate::args::is_compare_option(option),
        i + bits_words(option, bits).len() <= args.len(),
        args.subrange(i, i + bits_words(option, bits).len()) == bits_words(option, bits),
        bits == "auto"@ ==> next == st,
        bits != "auto"@ ==> crate::args::with_option(st, option, bits) == Ok::<Settings, Problem>(
            next,
        ),
    ensures
        crate::args::scan_compare(args, i, st) == crate::args::scan_compare(
            args,
            i + bits_words(option, bits).len(),
            next,
        ),
{
    if bits != "auto"@ {
        let pair = args.subrange(i, i + 2);
        assert(pair[0] == args[i]);
        assert(pair[1] == args[i + 1]);
    }
}

/// The program takes the arguments that the window gives it: it compares the two files by the
/// chosen standard and bit depths, and leaves everything else as it is without options.
pub proof fn law_backend_args_are_taken(config: AppConfig, standard: Seq<char>, program: Seq<char>)
    requires
        !crate::args::asks_calibrate(seq![program] + config.backend_words(standard)),
        is_bits_choice(config.orig_bits@),
        is_bits_choice(config.deci_bits@),
    ensures
        crate::args::outcome(seq![program] + config.backend_words(standard)) == Outcome::Run(
            (Settings {
                standard,
                orig_bits: chosen_bits(config.orig_bits@),
                deci_bits: chosen_bits(config.deci_bits@),
                ..crate::args::default_settings()
            }),
        ),
{
    let args = seq![program] + config.backend_words(standard);
    let a = bits_words("--orig-bits"@, config.orig_bits@);
    let b = bits_words("--deci-bits"@, config.deci_bits@);
    let c = config.baseline_words();
    let st0 = crate::args::default_settings();
    let st1 = Settings { standard, ..st0 };
    let st2 = Settings { orig_bits: chosen_bits(config.orig_bits@), ..st1 };
    let st3 = Settings { deci_bits: chosen_bits(config.deci_bits@), ..st2 };
    lemma_auto_is_no_number();
    assert(args[3] == "--standard"@);
    assert(args[4] == standard);
    assert(crate::args::scan_compare(args, 3, st0) == crate::args::scan_compare(args, 5, st1));
    lemma_option_names();
    assert(args.subrange(5, 5int + a.len()) =~= a);
    lemma_bits_step(args, 5, st1, st2, "--orig-bits"@, config.orig_bits@);
    let k = 5int + a.len();
    assert(args.subrange(k, k + b.len()) =~= b);
    lemma_bits_step(args, k, st2, st3, "--deci-bits"@, config.deci_bits@);
    let n = k + b.len();
    if c.len() > 0 {
        assert(args[n] == "--baseline-adc"@);
        assert(args[n + 2] == "--baseline-chain"@);
        assert(crate::args::scan_compare(args, n, st3) == crate::args::scan_compare(
            args,
            n + 2,
            st3,
        ));
        assert(crate::args::scan_compare(args, n + 2, st3) == crate::args::scan_compare(
            args,
            n + 4,
            st3,
        ));
        assert(args.len() == n + 4);
    } else {
        assert(args.len() == n);
    }
}

/// A baseline option is passed over with what follows it, if anything does, whatever that is.
pub proof fn law_baselines_change_nothing(args: Seq<Seq<char>>, i: int, st: Settings)
    requires
        0 <= i < args.len(),
        args[i] == "--baseline-adc"@ || args[i] == "--baseline-chain"@,
    ensures
        crate::args::scan_compare(args, i, st) == crate::args::scan_compare(args, i + 2, st),
{
    lemma_option_names();
}

proof fn lemma_auto_is_no_number()
    ensures
        crate::args::number("auto"@) is Err,
{
    reveal_strlit("auto");
    assert(!crate::args::is_digit("auto"@[0]));
}

/// Every standard to choose from, in small letters, has a preset of its own name.
pub proof fn law_choices_have_presets(i: int)
    requires
        0 <= i < standard_names().len(),
    ensures
        crate::preset::standard_of(crate::text::lower(standard_names()[i])) matches Some(standard)
            && crate::preset::preset_of(standard).name@ == standard_names()[i],
{
    reveal_strlit("NTSC");
    reveal_strlit("PAL");
    reveal_strlit("M-PAL");
    reveal_strlit("N-PAL");
    reveal_strlit("ntsc");
    reveal_strlit("pal");
    reveal_strlit("secam");
    reveal_strlit("m-pal");
    reveal_strlit("mpal");
    reveal_strlit("n-pal");
    reveal_strlit("npal");
    let small = crate::text::lower(standard_names()[i]);
    let smaller = crate::text::lower(small);
    if i == 0 {
        assert(smaller =~= "ntsc"@);
    } else if i == 1 {
        assert(smaller =~= "pal"@);
        assert("pal"@.len() != "ntsc"@.len());
    } else if i == 2 {
        assert(smaller =~= "m-pal"@);
        assert("m-pal"@.len() != "ntsc"@.len());
        assert("m-pal"@.len() != "pal"@.len());
        assert("m-pal"@[0] != "secam"@[0]);
    } else {
        assert(smaller =~= "n-pal"@);
        assert("n-pal"@.len() != "ntsc"@.len());
        assert("n-pal"@.len() != "pal"@.len());
        assert("n-pal"@[0] != "secam"@[0]);
        assert("n-pal"@[0] != "m-pal"@[0]);
        assert("n-pal"@.len() != "mpal"@.len());
    }
}

/// The arguments for the program: the two files, the standard, then each bit depth that is not
/// `auto` behind its option, then the baseline files behind theirs where both are given.
pub proof fn law_backend_args_follow_the_settings(config: AppConfig, standard: Seq<char>)
    ensures
        ({
            let w = config.backend_words(standard);
            let a = if config.orig_bits@ == "auto"@ {
                4int
            } else {
                6
            };
            let b = if config.deci_bits@ == "auto"@ {
                a
            } else {
                a + 2
            };
            let both = config.baseline_adc@.len() > 0 && config.baseline_chain@.len() > 0;
            &&& w[0] == config.original@
            &&& w[1] == config.decimated@
            &&& w[2] == "--standard"@
            &&& w[3] == standard
            &&& a > 4 ==> w[4] == "--orig-bits"@ && w[5] == config.orig_bits@
            &&& b > a ==> w[a] == "--deci-bits"@ && w[a + 1] == config.deci_bits@
            &&& both ==> w.len() == b + 4 && w[b] == "--baseline-adc"@ && w[b + 1]
                == config.baseline_adc@ && w[b + 2] == "--baseline-chain"@ && w[b + 3]
                == config.baseline_chain@
            &&& !both ==> w.len() == b
        }),
{
}

/// The window shows the output of a run that went well before its log, and of one that failed the
/// exit status, the log and the output.
pub proof fn law_runs_are_shown(status: Seq<char>, stdout: Seq<char>, stderr: Seq<char>)
    ensures
        run_words(true, status, stdout, stderr) == stdout + "\n\n--- Log ---\n"@ + stderr,
        run_words(false, status, stdout, stderr) == "ERROR (exit "@ + status + "):\n"@ + stderr
            + "\n"@ + stdout,
{
}

/// The standards to choose from are NTSC, PAL, M-PAL and N-PAL, in this order.
pub proof fn law_four_standards_are_offered()
    ensures
        standard_names().len() == 4,
        standard_names()[0] == "NTSC"@,
        standard_names()[1] == "PAL"@,
        standard_names()[2] == "M-PAL"@,
        standard_names()[3] == "N-PAL"@,
{
}

} // verus!
