//! The command line.

use crate::text::{lower_is, same};
use vstd::prelude::*;

verus! {

/// Why a text is no unsigned number.
#[derive(Clone, Copy, Debug, PartialEq, Eq, Structural)]
pub enum NumberError {
    Empty,
    InvalidDigit,
    TooLarge,
}

pub open spec fn is_digit(c: char) -> bool {
    '0' <= c <= '9'
}

/// Reads the digits of `s` from `i` on, behind those that make `acc`. The first character that is
/// no digit, or that takes the number out of range, ends it.
pub open spec fn read_digits(s: Seq<char>, i: int, acc: nat) -> Result<u32, NumberError>
    decreases s.len() - i,
{
    if i >= s.len() {
        Ok(acc as u32)
    } else if !is_digit(s[i]) {
        Err(NumberError::InvalidDigit)
    } else {
        let next = acc * 10 + (s[i] as nat - '0' as nat) as nat;
        if next > u32::MAX {
            Err(NumberError::TooLarge)
        } else {
            read_digits(s, i + 1, next)
        }
    }
}

/// The number that a text holds: digits, with a plus before them or without.
pub open spec fn number(s: Seq<char>) -> Result<u32, NumberError> {
    if s.len() == 0 {
        Err(NumberError::Empty)
    } else if s == seq!['+'] {
        Err(NumberError::InvalidDigit)
    } else if s[0] == '+' {
        read_digits(s, 1, 0)
    } else {
        read_digits(s, 0, 0)
    }
}

/// The number that a text holds.
pub fn parse_number(s: &str) -> (r: Result<u32, NumberError>)
    ensures
        r == number(s@),
{
    let n: usize = s.unicode_len();
    if n == 0 {
        return Err(NumberError::Empty);
    }
    let mut i: usize = 0;
    if s.get_char(0) == '+' {
        if n == 1 {
            assert(s@ =~= seq!['+']);
            return Err(NumberError::InvalidDigit);
        }
        i = 1;
    }
    let mut acc: u64 = 0;
    while i < n
        invariant
            n == s@.len(),
            i <= n,
            acc <= u32::MAX,
            number(s@) == read_digits(s@, i as int, acc as nat),
        decreases n - i,
    {
        let c: u64 = s.get_char(i) as u64;
        if c < 48 || c > 57 {
            return Err(NumberError::InvalidDigit);
        }
        acc = acc * 10 + (c - 48);
        if acc > 4_294_967_295 {
            return Err(NumberError::TooLarge);
        }
        i = i + 1;
    }
    Ok(acc as u32)
}

impl NumberError {
    pub open spec fn words(self) -> Seq<char> {
        match self {
            NumberError::Empty => "cannot parse integer from empty string"@,
            NumberError::InvalidDigit => "invalid digit found in string"@,
            NumberError::TooLarge => "number too large to fit in target type"@,
        }
    }

    /// What to tell of the error.
    pub fn message(self) -> (r: String)
        ensures
            r@ == self.words(),
    {
        match self {
            NumberError::Empty => "cannot parse integer from empty string".to_owned(),
            NumberError::InvalidDigit => "invalid digit found in string".to_owned(),
            NumberError::TooLarge => "number too large to fit in target type".to_owned(),
        }
    }
}

proof fn lemma_read_digits(n: nat, s: Seq<char>, rest: int)
    requires
        n <= u32::MAX,
        0 <= rest,
        rest + crate::text::digits(n).len() <= s.len(),
        s.subrange(rest, rest + crate::text::digits(n).len()) == crate::text::digits(n),
    ensures
        read_digits(s, rest, 0) == read_digits(s, rest + crate::text::digits(n).len(), n),
    decreases n,
{
    let d = crate::text::digits(n);
    if n < 10 {
        assert(s[rest] == d[0]);
        reveal_with_fuel(read_digits, 2);
        assert(0 * 10 + (s[rest] as nat - '0' as nat) as nat == n);
    } else {
        let head = crate::text::digits(n / 10);
        let k = rest + head.len();
        assert(s.subrange(rest, k) == head) by {
            assert forall|i: int| 0 <= i < head.len() implies s.subrange(rest, k)[i] == head[i] by {
                assert(d[i] == head[i]);
                assert(s.subrange(rest, rest + d.len())[i] == d[i]);
            }
        }
        lemma_read_digits(n / 10, s, rest);
        assert(s[k] == d[head.len() as int]);
        assert((n / 10) * 10 + n % 10 == n);
    }
}

/// The digits of a number are read back as that number.
pub proof fn law_digits_read_back(n: u32)
    ensures
        number(crate::text::digits(n as nat)) == Ok::<u32, NumberError>(n),
{
    let d = crate::text::digits(n as nat);
    assert(d.subrange(0, d.len() as int) == d);
    lemma_first_digit(n as nat);
    lemma_read_digits(n as nat, d, 0);
}

proof fn lemma_first_digit(n: nat)
    ensures
        crate::text::digits(n).len() > 0,
        is_digit(crate::text::digits(n)[0]),
    decreases n,
{
    if n >= 10 {
        lemma_first_digit(n / 10);
    }
}

/// What the options of a command line say, as texts.
pub struct Settings {
    pub standard: Seq<char>,
    pub orig_rate: u32,
    pub deci_rate: u32,
    pub orig_bits: Option<u32>,
    pub deci_bits: Option<u32>,
    pub calibration: Option<Seq<char>>,
    pub csv: Option<Seq<char>>,
    pub psd_csv: Option<Seq<char>>,
    pub json_out: Option<Seq<char>>,
    pub adc_file: Option<Seq<char>>,
    pub chain_file: Option<Seq<char>>,
    pub cal_output: Option<Seq<char>>,
}

/// What is wrong with a command line.
pub enum Problem {
    /// Too few arguments.
    Usage,
    /// A window that is not offered.
    Window,
    Unknown(Seq<char>),
    Number(NumberError),
    NoAdcFile,
    NoChainFile,
    NoCalOutput,
}

/// What a command line comes to.
pub enum Outcome {
    Run(Settings),
    Help,
    Refused(Problem),
    /// It ends behind an option that lacks its value.
    Cut,
}

/// The settings without any option.
pub open spec fn default_settings() -> Settings {
    Settings {
        standard: "ntsc"@,
        orig_rate: 40_000_000,
        deci_rate: 20_000_000,
        orig_bits: None,
        deci_bits: None,
        calibration: None,
        csv: None,
        psd_csv: None,
        json_out: None,
        adc_file: None,
        chain_file: None,
        cal_output: None,
    }
}

/// The options of both modes that take a value.
pub open spec fn is_shared_option(arg: Seq<char>) -> bool {
    ||| arg == "--standard"@
    ||| arg == "--window"@
    ||| arg == "--orig-rate"@
    ||| arg == "--orig-bits"@
}

/// The options that take a value when two captures are compared.
pub open spec fn is_compare_option(arg: Seq<char>) -> bool {
    ||| is_shared_option(arg)
    ||| arg == "--calibration"@
    ||| arg == "--csv"@
    ||| arg == "--psd-csv"@
    ||| arg == "--json"@
    ||| arg == "--deci-bits"@
    ||| arg == "--deci-rate"@
}

/// Options of old that are passed over, with what follows them.
pub open spec fn is_ignored_option(arg: Seq<char>) -> bool {
    arg == "--baseline-adc"@ || arg == "--baseline-chain"@
}

/// The options that take a value when a profile is made.
pub open spec fn is_calibrate_option(arg: Seq<char>) -> bool {
    ||| is_shared_option(arg)
    ||| arg == "--adc-file"@
    ||| arg == "--chain-file"@
    ||| arg == "--cal-output"@
}

/// The settings with an option set to a value.
pub open spec fn with_option(st: Settings, option: Seq<char>, value: Seq<char>) -> Result<
    Settings,
    Problem,
> {
    if option == "--standard"@ {
        Ok(Settings { standard: value, ..st })
    } else if option == "--window"@ {
        if crate::text::lower(value) == "blackman"@ {
            Ok(st)
        } else {
            Err(Problem::Window)
        }
    } else if option == "--orig-rate"@ {
        match number(value) {
            Ok(n) => Ok(Settings { orig_rate: n, ..st }),
            Err(e) => Err(Problem::Number(e)),
        }
    } else if option == "--deci-rate"@ {
        match number(value) {
            Ok(n) => Ok(Settings { deci_rate: n, ..st }),
            Err(e) => Err(Problem::Number(e)),
        }
    } else if option == "--orig-bits"@ {
        match number(value) {
            Ok(n) => Ok(Settings { orig_bits: Some(n), ..st }),
            Err(e) => Err(Problem::Number(e)),
        }
    } else if option == "--deci-bits"@ {
        match number(value) {
            Ok(n) => Ok(Settings { deci_bits: Some(n), ..st }),
            Err(e) => Err(Problem::Number(e)),
        }
    } else if option == "--calibration"@ {
        Ok(Settings { calibration: Some(value), ..st })
    } else if option == "--csv"@ {
        Ok(Settings { csv: Some(value), ..st })
    } else if option == "--psd-csv"@ {
        Ok(Settings { psd_csv: Some(value), ..st })
    } else if option == "--json"@ {
        Ok(Settings { json_out: Some(value), ..st })
    } else if option == "--adc-file"@ {
        Ok(Settings { adc_file: Some(value), ..st })
    } else if option == "--chain-file"@ {
        Ok(Settings { chain_file: Some(value), ..st })
    } else if option == "--cal-output"@ {
        Ok(Settings { cal_output: Some(value), ..st })
    } else {
        Ok(st)
    }
}

/// Reads the arguments from the `i`-th on when two captures are compared: options with their
/// values, options that are passed over, and nothing else.
pub open spec fn scan_compare(args: Seq<Seq<char>>, i: int, st: Settings) -> Outcome
    decreases args.len() - i,
{
    if i >= args.len() {
        Outcome::Run(st)
    } else if is_compare_option(args[i]) {
        if i + 1 >= args.len() {
            Outcome::Cut
        } else {
            match with_option(st, args[i], args[i + 1]) {
                Ok(next) => scan_compare(args, i + 2, next),
                Err(problem) => Outcome::Refused(problem),
            }
        }
    } else if is_ignored_option(args[i]) {
        if i + 2 >= args.len() {
            Outcome::Run(st)
        } else {
            scan_compare(args, i + 2, st)
        }
    } else if args[i] == "--help"@ || args[i] == "-h"@ {
        Outcome::Help
    } else {
        Outcome::Refused(Problem::Unknown(args[i]))
    }
}

/// Reads the arguments from the `i`-th on when a profile is made: options with their values;
/// anything else is passed over.
pub open spec fn scan_calibrate(args: Seq<Seq<char>>, i: int, st: Settings) -> Outcome
    decreases args.len() - i,
{
    if i >= args.len() {
        Outcome::Run(st)
    } else if is_calibrate_option(args[i]) {
        if i + 1 >= args.len() {
            Outcome::Cut
        } else {
            match with_option(st, args[i], args[i + 1]) {
                Ok(next) => scan_calibrate(args, i + 2, next),
                Err(problem) => Outcome::Refused(problem),
            }
        }
    } else {
        scan_calibrate(args, i + 1, st)
    }
}

/// A profile is made of two files and written to a third.
pub open spec fn with_calibrate_files(outcome: Outcome) -> Outcome {
    match outcome {
        Outcome::Run(st) => if st.adc_file is None {
            Outcome::Refused(Problem::NoAdcFile)
        } else if st.chain_file is None {
            Outcome::Refused(Problem::NoChainFile)
        } else if st.cal_output is None {
            Outcome::Refused(Problem::NoCalOutput)
        } else {
            outcome
        },
        _ => outcome,
    }
}

/// Whether the command line asks for a profile.
pub open spec fn asks_calibrate(args: Seq<Seq<char>>) -> bool {
    args.contains("--calibrate"@)
}

/// What a command line, program name first, comes to.
pub open spec fn outcome(args: Seq<Seq<char>>) -> Outcome {
    if asks_calibrate(args) {
        with_calibrate_files(scan_calibrate(args, 1, default_settings()))
    } else if args.len() < 3 {
        Outcome::Refused(Problem::Usage)
    } else {
        scan_compare(args, 3, default_settings())
    }
}

/// Arguments as texts.
pub open spec fn texts(args: Seq<String>) -> Seq<Seq<char>> {
    args.map_values(|s: String| s@)
}

pub open spec fn opt_text(s: Option<String>) -> Option<Seq<char>> {
    match s {
        Some(t) => Some(t@),
        None => None,
    }
}

/// What to do with which files.
#[derive(Clone, Debug)]
pub enum RunMode {
    Compare {
        original: String,
        decimated: String,
        calibration: Option<String>,
        csv: Option<String>,
        psd_csv: Option<String>,
        json_out: Option<String>,
    },
    Calibrate { adc_file: String, chain_file: String, cal_output: String },
}

/// A run of the program.
#[derive(Clone, Debug)]
pub struct Config {
    pub mode: RunMode,
    pub standard: String,
    pub window: String,
    pub orig_rate: u32,
    pub deci_rate: u32,
    pub orig_bits: Option<u32>,
    pub deci_bits: Option<u32>,
}

/// What a command line asks for.
#[derive(Clone, Debug)]
pub enum Command {
    Run(Config),
    Help,
}

/// Why a command line is refused.
#[derive(Clone, Debug)]
pub enum ArgError {
    Usage,
    Window,
    Unknown(String),
    Number(NumberError),
    NoAdcFile,
    NoChainFile,
    NoCalOutput,
}

impl View for ArgError {
    type V = Problem;

    open spec fn view(&self) -> Problem {
        match *self {
            ArgError::Usage => Problem::Usage,
            ArgError::Window => Problem::Window,
            ArgError::Unknown(arg) => Problem::Unknown(arg@),
            ArgError::Number(e) => Problem::Number(e),
            ArgError::NoAdcFile => Problem::NoAdcFile,
            ArgError::NoChainFile => Problem::NoChainFile,
            ArgError::NoCalOutput => Problem::NoCalOutput,
        }
    }
}

impl Config {
    /// The run that the settings of a command line describe.
    pub open spec fn describes(&self, args: Seq<Seq<char>>, st: Settings) -> bool {
        &&& self.standard@ == st.standard
        &&& self.window@ == "blackman"@
        &&& self.orig_rate == st.orig_rate
        &&& self.deci_rate == st.deci_rate
        &&& self.orig_bits == st.orig_bits
        &&& self.deci_bits == st.deci_bits
        &&& match self.mode {
            RunMode::Compare { original, decimated, calibration, csv, psd_csv, json_out } => {
                &&& !asks_calibrate(args)
                &&& original@ == args[1]
                &&& decimated@ == args[2]
                &&& opt_text(calibration) == st.calibration
                &&& opt_text(csv) == st.csv
                &&& opt_text(psd_csv) == st.psd_csv
                &&& opt_text(json_out) == st.json_out
            },
            RunMode::Calibrate { adc_file, chain_file, cal_output } => {
                &&& asks_calibrate(args)
                &&& Some(adc_file@) == st.adc_file
                &&& Some(chain_file@) == st.chain_file
                &&& Some(cal_output@) == st.cal_output
            },
        }
    }
}

/// The settings while the command line is read.
struct Options {
    standard: String,
    orig_rate: u32,
    deci_rate: u32,
    orig_bits: Option<u32>,
    deci_bits: Option<u32>,
    calibration: Option<String>,
    csv: Option<String>,
    psd_csv: Option<String>,
    json_out: Option<String>,
    adc_file: Option<String>,
    chain_file: Option<String>,
    cal_output: Option<String>,
}

impl View for Options {
    type V = Settings;

    closed spec fn view(&self) -> Settings {
        Settings {
            standard: self.standard@,
            orig_rate: self.orig_rate,
            deci_rate: self.deci_rate,
            orig_bits: self.orig_bits,
            deci_bits: self.deci_bits,
            calibration: opt_text(self.calibration),
            csv: opt_text(self.csv),
            psd_csv: opt_text(self.psd_csv),
            json_out: opt_text(self.json_out),
            adc_file: opt_text(self.adc_file),
            chain_file: opt_text(self.chain_file),
            cal_output: opt_text(self.cal_output),
        }
    }
}

impl Options {
    fn new() -> (o: Options)
        ensures
            o@ == default_settings(),
    {
        Options {
            standard: "ntsc".to_owned(),
            orig_rate: 40_000_000,
            deci_rate: 20_000_000,
            orig_bits: None,
            deci_bits: None,
            calibration: None,
            csv: None,
            psd_csv: None,
            json_out: None,
            adc_file: None,
            chain_file: None,
            cal_output: None,
        }
    }

    /// Sets an option to a value.
    fn set(&mut self, option: &str, value: &String) -> (r: Result<(), ArgError>)
        ensures
            match with_option(old(self)@, option@, value@) {
                Ok(next) => r is Ok && final(self)@ == next,
                Err(problem) => r matches Err(e) && e@ == problem,
            },
    {
        if same(option, "--standard") {
            self.standard = value.clone();
        } else if same(option, "--window") {
            if !lower_is(value.as_str(), "blackman") {
                return Err(ArgError::Window);
            }
        } else if same(option, "--orig-rate") {
            match parse_number(value.as_str()) {
                Ok(n) => {
                    self.orig_rate = n;
                },
                Err(e) => {
                    return Err(ArgError::Number(e));
                },
            }
        } else if same(option, "--deci-rate") {
            match parse_number(value.as_str()) {
                Ok(n) => {
                    self.deci_rate = n;
                },
                Err(e) => {
                    return Err(ArgError::Number(e));
                },
            }
        } else if same(option, "--orig-bits") {
            match parse_number(value.as_str()) {
                Ok(n) => {
                    self.orig_bits = Some(n);
                },
                Err(e) => {
                    return Err(ArgError::Number(e));
                },
            }
        } else if same(option, "--deci-bits") {
            match parse_number(value.as_str()) {
                Ok(n) => {
                    self.deci_bits = Some(n);
                },
                Err(e) => {
                    return Err(ArgError::Number(e));
                },
            }
        } else if same(option, "--calibration") {
            self.calibration = Some(value.clone());
        } else if same(option, "--csv") {
            self.csv = Some(value.clone());
        } else if same(option, "--psd-csv") {
            self.psd_csv = Some(value.clone());
        } else if same(option, "--json") {
            self.json_out = Some(value.clone());
        } else if same(option, "--adc-file") {
            self.adc_file = Some(value.clone());
        } else if same(option, "--chain-file") {
            self.chain_file = Some(value.clone());
        } else if same(option, "--cal-output") {
            self.cal_output = Some(value.clone());
        }
        Ok(())
    }
}

fn shared_option(arg: &str) -> (b: bool)
    ensures
        b == is_shared_option(arg@),
{
    same(arg, "--standard") || same(arg, "--window") || same(arg, "--orig-rate") || same(
        arg,
        "--orig-bits",
    )
}

fn compare_option(arg: &str) -> (b: bool)
    ensures
        b == is_compare_option(arg@),
{
    shared_option(arg) || same(arg, "--calibration") || same(arg, "--csv") || same(arg, "--psd-csv")
        || same(arg, "--json") || same(arg, "--deci-bits") || same(arg, "--deci-rate")
}

fn ignored_option(arg: &str) -> (b: bool)
    ensures
        b == is_ignored_option(arg@),
{
    same(arg, "--baseline-adc") || same(arg, "--baseline-chain")
}

fn calibrate_option(arg: &str) -> (b: bool)
    ensures
        b == is_calibrate_option(arg@),
{
    shared_option(arg) || same(arg, "--adc-file") || same(arg, "--chain-file") || same(
        arg,
        "--cal-output",
    )
}

/// What a command line comes to.
enum Scan {
    Run(Options),
    Help,
    Refused(ArgError),
    Cut,
}

impl View for Scan {
    type V = Outcome;

    closed spec fn view(&self) -> Outcome {
        match *self {
            Scan::Run(o) => Outcome::Run(o@),
            Scan::Help => Outcome::Help,
            Scan::Refused(e) => Outcome::Refused(e@),
            Scan::Cut => Outcome::Cut,
        }
    }
}

fn scan_compare_args(args: &Vec<String>) -> (r: Scan)
    requires
        args@.len() >= 3,
    ensures
        r@ == scan_compare(texts(args@), 3, default_settings()),
{
    let mut o = Options::new();
    let mut i: usize = 3;
    while i < args.len()
        invariant
            i <= args@.len(),
            scan_compare(texts(args@), 3, default_settings()) == scan_compare(
                texts(args@),
                i as int,
                o@,
            ),
        decreases args@.len() - i,
    {
        let arg = args[i].as_str();
        if compare_option(arg) {
            if args.len() - i < 2 {
                return Scan::Cut;
            }
            match o.set(arg, &args[i + 1]) {
                Ok(_) => {},
                Err(e) => {
                    return Scan::Refused(e);
                },
            }
            i = i + 2;
        } else if ignored_option(arg) {
            if args.len() - i <= 2 {
                return Scan::Run(o);
            }
            i = i + 2;
        } else if same(arg, "--help") || same(arg, "-h") {
            return Scan::Help;
        } else {
            return Scan::Refused(ArgError::Unknown(args[i].clone()));
        }
    }
    Scan::Run(o)
}

fn scan_calibrate_args(args: &Vec<String>) -> (r: Scan)
    ensures
        r@ == scan_calibrate(texts(args@), 1, default_settings()),
{
    let mut o = Options::new();
    let mut i: usize = 1;
    while i < args.len()
        invariant
            scan_calibrate(texts(args@), 1, default_settings()) == scan_calibrate(
                texts(args@),
                i as int,
                o@,
            ),
        decreases args@.len() - i,
    {
        let arg = args[i].as_str();
        if calibrate_option(arg) {
            if args.len() - i < 2 {
                return Scan::Cut;
            }
            match o.set(arg, &args[i + 1]) {
                Ok(_) => {},
                Err(e) => {
                    return Scan::Refused(e);
                },
            }
            i = i + 2;
        } else {
            i = i + 1;
        }
    }
    Scan::Run(o)
}

fn wants_calibrate(args: &Vec<String>) -> (b: bool)
    ensures
        b == asks_calibrate(texts(args@)),
{
    let mut i: usize = 0;
    while i < args.len()
        invariant
            i <= args@.len(),
            forall|j: int| 0 <= j < i ==> #[trigger] texts(args@)[j] != "--calibrate"@,
        decreases args@.len() - i,
    {
        if same(args[i].as_str(), "--calibrate") {
            assert(texts(args@)[i as int] == "--calibrate"@);
            return true;
        }
        i = i + 1;
    }
    false
}

fn scan(args: &Vec<String>) -> (r: Scan)
    ensures
        r@ == outcome(texts(args@)),
{
    if wants_calibrate(args) {
        match scan_calibrate_args(args) {
            Scan::Run(o) => if o.adc_file.is_none() {
                Scan::Refused(ArgError::NoAdcFile)
            } else if o.chain_file.is_none() {
                Scan::Refused(ArgError::NoChainFile)
            } else if o.cal_output.is_none() {
                Scan::Refused(ArgError::NoCalOutput)
            } else {
                Scan::Run(o)
            },
            other => other,
        }
    } else if args.len() < 3 {
        Scan::Refused(ArgError::Usage)
    } else {
        scan_compare_args(args)
    }
}

/// Whether reading the command line runs past its end, behind an option that lacks its value.
pub fn lacks_value(args: &Vec<String>) -> (b: bool)
    ensures
        b == (outcome(texts(args@)) is Cut),
{
    match scan(args) {
        Scan::Cut => true,
        _ => false,
    }
}

/// Reads a command line, program name first, in which no option lacks its value.
pub fn parse_args(args: &Vec<String>) -> (r: Result<Command, ArgError>)
    requires
        !(outcome(texts(args@)) is Cut),
    ensures
        match outcome(texts(args@)) {
            Outcome::Run(st) => r matches Ok(Command::Run(config)) && config.describes(
                texts(args@),
                st,
            ),
            Outcome::Help => r matches Ok(Command::Help),
            Outcome::Refused(problem) => r matches Err(e) && e@ == problem,
            Outcome::Cut => true,
        },
{
    match scan(args) {
        Scan::Help => Ok(Command::Help),
        Scan::Refused(e) => Err(e),
        Scan::Cut => Err(ArgError::Usage),
        Scan::Run(o) => {
            let mode = if wants_calibrate(args) {
                match (o.adc_file, o.chain_file, o.cal_output) {
                    (Some(adc_file), Some(chain_file), Some(cal_output)) => RunMode::Calibrate {
                        adc_file,
                        chain_file,
                        cal_output,
                    },
                    _ => {
                        return Err(ArgError::Usage);
                    },
                }
            } else {
                RunMode::Compare {
                    original: args[1].clone(),
                    decimated: args[2].clone(),
                    calibration: o.calibration,
                    csv: o.csv,
                    psd_csv: o.psd_csv,
                    json_out: o.json_out,
                }
            };
            Ok(
                Command::Run(
                    Config {
                        mode,
                        standard: o.standard,
                        window: "blackman".to_owned(),
                        orig_rate: o.orig_rate,
                        deci_rate: o.deci_rate,
                        orig_bits: o.orig_bits,
                        deci_bits: o.deci_bits,
                    },
                ),
            )
        },
    }
}

/// How to call the program, for a command line that falls short.
pub open spec fn usage_words() -> Seq<char> {
    "Usage: compare-rf <original> <decimated> [options]\n  --standard ntsc|pal|m-pal|n-pal\n  --calibration file.cal.json\n  --csv metrics.csv\n  --psd-csv prefix\n  --json results.json\n  --orig-bits N  --deci-bits N\n  --orig-rate N  --deci-rate N\n  --window blackman\n\nCalibrate mode:\n  compare-rf --calibrate --adc-file X --chain-file Y --cal-output Z.cal.json [--standard ...]\n"@
}

/// How to call the program, for one who asks.
pub open spec fn help_words() -> Seq<char> {
    "Usage: compare-rf <original> <decimated> [options]\n  --standard ntsc|pal|m-pal|n-pal\n  --calibration file.cal.json\n  --csv metrics.csv  --psd-csv prefix  --json results.json\n  --orig-bits N  --deci-bits N  --orig-rate N  --deci-rate N\n  --window blackman\n\nCalibrate: compare-rf --calibrate --adc-file X --chain-file Y --cal-output Z.cal.json\n"@
}

/// How to call the program.
pub fn help_text() -> (r: String)
    ensures
        r@ == help_words(),
{
    "Usage: compare-rf <original> <decimated> [options]\n  --standard ntsc|pal|m-pal|n-pal\n  --calibration file.cal.json\n  --csv metrics.csv  --psd-csv prefix  --json results.json\n  --orig-bits N  --deci-bits N  --orig-rate N  --deci-rate N\n  --window blackman\n\nCalibrate: compare-rf --calibrate --adc-file X --chain-file Y --cal-output Z.cal.json\n".to_owned()
}

impl Problem {
    /// What to tell of the problem.
    pub open spec fn words(self) -> Seq<char> {
        match self {
            Problem::Usage => usage_words(),
            Problem::Window => "only Blackman-Harris is supported: use --window blackman"@,
            Problem::Unknown(arg) => "unknown argument: "@ + arg,
            Problem::Number(e) => e.words(),
            Problem::NoAdcFile => "--calibrate requires --adc-file"@,
            Problem::NoChainFile => "--calibrate requires --chain-file"@,
            Problem::NoCalOutput => "--calibrate requires --cal-output"@,
        }
    }
}

impl ArgError {
    /// What to tell of the error.
    pub fn message(&self) -> (r: String)
        ensures
            r@ == match self@ {
                Problem::Usage => usage_words(),
                Problem::Window => "only Blackman-Harris is supported: use --window blackman"@,
                Problem::Unknown(arg) => "unknown argument: "@ + arg,
                Problem::Number(e) => e.words(),
                Problem::NoAdcFile => "--calibrate requires --adc-file"@,
                Problem::NoChainFile => "--calibrate requires --chain-file"@,
                Problem::NoCalOutput => "--calibrate requires --cal-output"@,
            },
            r@ == self@.words(),
    {
        match self {
            ArgError::Usage => "Usage: compare-rf <original> <decimated> [options]\n  --standard ntsc|pal|m-pal|n-pal\n  --calibration file.cal.json\n  --csv metrics.csv\n  --psd-csv prefix\n  --json results.json\n  --orig-bits N  --deci-bits N\n  --orig-rate N  --deci-rate N\n  --window blackman\n\nCalibrate mode:\n  compare-rf --calibrate --adc-file X --chain-file Y --cal-output Z.cal.json [--standard ...]\n".to_owned(),
            ArgError::Window => "only Blackman-Harris is supported: use --window blackman".to_owned(),
            ArgError::Unknown(arg) => "unknown argument: ".to_owned().concat(arg.as_str()),
            ArgError::Number(e) => e.message(),
            ArgError::NoAdcFile => "--calibrate requires --adc-file".to_owned(),
            ArgError::NoChainFile => "--calibrate requires --chain-file".to_owned(),
            ArgError::NoCalOutput => "--calibrate requires --cal-output".to_owned(),
        }
    }
}

/// Two files without any option are compared as they are without options.
pub proof fn law_two_files_are_enough(program: Seq<char>, original: Seq<char>, decimated: Seq<char>)
    requires
        !asks_calibrate(seq![program, original, decimated]),
    ensures
        outcome(seq![program, original, decimated]) == Outcome::Run(default_settings()),
{
}

/// An option given again replaces the value that it had.
pub proof fn law_last_value_counts(
    st: Settings,
    option: Seq<char>,
    first: Seq<char>,
    second: Seq<char>,
)
    requires
        with_option(st, option, first) is Ok,
    ensures
        with_option(with_option(st, option, first)->Ok_0, option, second) == with_option(
            st,
            option,
            second,
        ),
{
}

proof fn lemma_reading(s: Seq<char>, from: int, i: int, to: int)
    requires
        0 <= from <= i <= to <= s.len(),
        forall|j: int| from <= j < to ==> is_digit(#[trigger] s[j]),
    ensures
        crate::text::place_value(s.subrange(from, i)) >= 0,
        crate::text::place_value(s.subrange(from, i)) <= crate::text::place_value(
            s.subrange(from, to),
        ),
        crate::text::place_value(s.subrange(from, i)) <= u32::MAX ==> {
            let acc = crate::text::place_value(s.subrange(from, i)) as nat;
            let all = crate::text::place_value(s.subrange(from, to));
            read_digits(s, i, acc) == if all <= u32::MAX {
                read_digits(s, to, all as nat)
            } else {
                Err(NumberError::TooLarge)
            }
        },
    decreases to - i,
{
    let here = s.subrange(from, i);
    lemma_value_is_natural(here);
    if i < to {
        let next = s.subrange(from, i + 1);
        assert(next.drop_last() =~= here);
        assert(next.last() == s[i]);
        lemma_reading(s, from, i + 1, to);
    }
}

proof fn lemma_value_is_natural(s: Seq<char>)
    requires
        forall|j: int| 0 <= j < s.len() ==> is_digit(#[trigger] s[j]),
    ensures
        crate::text::place_value(s) >= 0,
    decreases s.len(),
{
    if s.len() > 0 {
        assert(s.last() == s[s.len() - 1]);
        lemma_value_is_natural(s.drop_last());
    }
}

/// A text of digits, with a plus before them or without, is read as the number that the digits stand
/// for, and is too large where a `u32` does not hold it.
pub proof fn law_digits_are_read_as_their_value(body: Seq<char>)
    requires
        body.len() > 0,
        crate::text::all_digits(body),
    ensures
        ({
            let value = crate::text::place_value(body);
            let r = if value <= u32::MAX {
                Ok::<u32, NumberError>(value as u32)
            } else {
                Err(NumberError::TooLarge)
            };
            number(body) == r && number(seq!['+'] + body) == r
        }),
{
    let plus = seq!['+'] + body;
    assert(body[0] != '+');
    assert(body.subrange(0, 0) =~= Seq::<char>::empty());
    assert(body.subrange(0, body.len() as int) =~= body);
    lemma_reading(body, 0, 0, body.len() as int);
    assert(plus.subrange(1, 1) =~= Seq::<char>::empty());
    assert(plus.subrange(1, plus.len() as int) =~= body);
    assert(plus.len() != seq!['+'].len());
    lemma_reading(plus, 1, 1, plus.len() as int);
}

/// A text is no number where a character that is no digit stands behind digits, if any, that a `u32`
/// holds; a plus may stand before them. A text without characters is empty.
pub proof fn law_other_texts_are_no_numbers(body: Seq<char>, i: int)
    requires
        0 <= i < body.len(),
        crate::text::all_digits(body.take(i)),
        !is_digit(body[i]),
        crate::text::place_value(body.take(i)) <= u32::MAX,
    ensures
        number(Seq::empty()) == Err::<u32, NumberError>(NumberError::Empty),
        number(seq!['+']) == Err::<u32, NumberError>(NumberError::InvalidDigit),
        number(seq!['+'] + body) == Err::<u32, NumberError>(NumberError::InvalidDigit),
        body[0] != '+' ==> number(body) == Err::<u32, NumberError>(NumberError::InvalidDigit),
{
    let plus = seq!['+'] + body;
    assert forall|j: int| 0 <= j < i implies is_digit(#[trigger] body[j]) by {
        assert(body.take(i)[j] == body[j]);
    }
    assert(body.subrange(0, 0) =~= Seq::<char>::empty());
    assert(body.subrange(0, i) =~= body.take(i));
    lemma_reading(body, 0, 0, i);
    assert forall|j: int| 1 <= j < i + 1 implies is_digit(#[trigger] plus[j]) by {
        assert(plus[j] == body[j - 1]);
    }
    assert(plus.subrange(1, 1) =~= Seq::<char>::empty());
    assert(plus.subrange(1, i + 1) =~= body.take(i));
    assert(plus.len() != seq!['+'].len());
    assert(plus[i + 1] == body[i]);
    lemma_reading(plus, 1, 1, i + 1);
}

/// Without options a run is by NTSC, of 40 and 20 million samples a second, with the bit depths left
/// to the files and nothing written.
pub proof fn law_default_settings()
    ensures
        default_settings() == (Settings {
            standard: "ntsc"@,
            orig_rate: 40_000_000,
            deci_rate: 20_000_000,
            orig_bits: None,
            deci_bits: None,
            calibration: None,
            csv: None,
            psd_csv: None,
            json_out: None,
            adc_file: None,
            chain_file: None,
            cal_output: None,
        }),
{
}

/// An option changes the setting that it names, to its value, and no other one. Rates and bit depths
/// are numbers; of windows there is only one.
pub proof fn law_options_change_their_own_setting(st: Settings, value: Seq<char>)
    ensures
        with_option(st, "--standard"@, value) == Ok::<Settings, Problem>(
            (Settings { standard: value, ..st }),
        ),
        with_option(st, "--calibration"@, value) == Ok::<Settings, Problem>(
            (Settings { calibration: Some(value), ..st }),
        ),
        with_option(st, "--csv"@, value) == Ok::<Settings, Problem>(
            (Settings { csv: Some(value), ..st }),
        ),
        with_option(st, "--psd-csv"@, value) == Ok::<Settings, Problem>(
            (Settings { psd_csv: Some(value), ..st }),
        ),
        with_option(st, "--json"@, value) == Ok::<Settings, Problem>(
            (Settings { json_out: Some(value), ..st }),
        ),
        with_option(st, "--adc-file"@, value) == Ok::<Settings, Problem>(
            (Settings { adc_file: Some(value), ..st }),
        ),
        with_option(st, "--chain-file"@, value) == Ok::<Settings, Problem>(
            (Settings { chain_file: Some(value), ..st }),
        ),
        with_option(st, "--cal-output"@, value) == Ok::<Settings, Problem>(
            (Settings { cal_output: Some(value), ..st }),
        ),
        with_option(st, "--orig-rate"@, value) == match number(value) {
            Ok(n) => Ok((Settings { orig_rate: n, ..st })),
            Err(e) => Err(Problem::Number(e)),
        },
        with_option(st, "--deci-rate"@, value) == match number(value) {
            Ok(n) => Ok((Settings { deci_rate: n, ..st })),
            Err(e) => Err(Problem::Number(e)),
        },
        with_option(st, "--orig-bits"@, value) == match number(value) {
            Ok(n) => Ok((Settings { orig_bits: Some(n), ..st })),
            Err(e) => Err(Problem::Number(e)),
        },
        with_option(st, "--deci-bits"@, value) == match number(value) {
            Ok(n) => Ok((Settings { deci_bits: Some(n), ..st })),
            Err(e) => Err(Problem::Number(e)),
        },
        with_option(st, "--window"@, value) == if crate::text::lower(value) == "blackman"@ {
            Ok(st)
        } else {
            Err(Problem::Window)
        },
{
    crate::gui::lemma_option_names();
}

proof fn lemma_scan_on(args: Seq<Seq<char>>, more: Seq<Seq<char>>, i: int, st: Settings)
    requires
        0 <= i <= args.len(),
        args.len() > 0 ==> !is_ignored_option(args.last()),
    ensures
        match scan_compare(args, i, st) {
            Outcome::Run(r) => scan_compare(args + more, i, st) == scan_compare(
                args + more,
                args.len() as int,
                r,
            ),
            Outcome::Cut => true,
            other => scan_compare(args + more, i, st) == other,
        },
    decreases args.len() - i,
{
    let all = args + more;
    if i < args.len() {
        assert(all[i] == args[i]);
        if is_compare_option(args[i]) {
            if i + 1 < args.len() {
                assert(all[i + 1] == args[i + 1]);
                match with_option(st, args[i], args[i + 1]) {
                    Ok(next) => {
                        lemma_scan_on(args, more, i + 2, next);
                    },
                    Err(_) => {},
                }
            }
        } else if is_ignored_option(args[i]) {
            assert(args.last() == args[args.len() - 1]);
            assert(i + 2 <= args.len());
            lemma_scan_on(args, more, i + 2, st);
        }
    }
}

proof fn lemma_no_calibrate(args: Seq<Seq<char>>, more: Seq<Seq<char>>)
    requires
        !asks_calibrate(args),
        !asks_calibrate(more),
    ensures
        !asks_calibrate(args + more),
{
    let all = args + more;
    if asks_calibrate(all) {
        let i = choose|i: int| 0 <= i < all.len() && all[i] == "--calibrate"@;
        if i < args.len() {
            assert(args[i] == "--calibrate"@);
        } else {
            assert(more[i - args.len()] == "--calibrate"@);
        }
    }
}

/// An option with its value behind a command line that compares two captures changes its setting as
/// `with_option` says; where the value is refused, so is the line. Without a value the line is cut.
/// The line must not end in an option that is passed over, which would take the option along.
pub proof fn law_option_behind_a_line(
    args: Seq<Seq<char>>,
    st: Settings,
    option: Seq<char>,
    value: Seq<char>,
)
    requires
        args.len() >= 3,
        !asks_calibrate(args),
        outcome(args) == Outcome::Run(st),
        args.last() != "--baseline-adc"@,
        args.last() != "--baseline-chain"@,
        value != "--calibrate"@,
        option == "--standard"@ || option == "--window"@ || option == "--orig-rate"@ || option == "--orig-bits"@ || option == "--calibration"@ || option == "--csv"@ || option == "--psd-csv"@ || option == "--json"@ || option == "--deci-bits"@ || option == "--deci-rate"@,
    ensures
        outcome(args + seq![option, value]) == match with_option(st, option, value) {
            Ok(next) => Outcome::Run(next),
            Err(problem) => Outcome::Refused(problem),
        },
        outcome(args + seq![option]) == Outcome::Cut,
{
    crate::gui::lemma_option_names();
    lemma_calibrate_name();
    reveal_with_fuel(scan_compare, 2);
    let pair = seq![option, value];
    let one = seq![option];
    assert(!asks_calibrate(pair)) by {
        if asks_calibrate(pair) {
            let i = choose|i: int| 0 <= i < pair.len() && pair[i] == "--calibrate"@;
            assert(i == 0 || i == 1);
        }
    }
    assert(!asks_calibrate(one)) by {
        if asks_calibrate(one) {
            let i = choose|i: int| 0 <= i < one.len() && one[i] == "--calibrate"@;
            assert(i == 0);
        }
    }
    lemma_no_calibrate(args, pair);
    lemma_no_calibrate(args, one);
    lemma_scan_on(args, pair, 3, default_settings());
    lemma_scan_on(args, one, 3, default_settings());
    let n = args.len() as int;
    assert((args + pair)[n] == option);
    assert((args + pair)[n + 1] == value);
    assert((args + one)[n] == option);
}

/// Behind such a line, a call for help is answered with help, and what is no option is refused by
/// its name.
pub proof fn law_other_word_behind_a_line(args: Seq<Seq<char>>, st: Settings, word: Seq<char>)
    requires
        args.len() >= 3,
        !asks_calibrate(args),
        outcome(args) == Outcome::Run(st),
        args.last() != "--baseline-adc"@,
        args.last() != "--baseline-chain"@,
        word != "--calibrate"@,
        !(word == "--standard"@ || word == "--window"@ || word == "--orig-rate"@ || word == "--orig-bits"@ || word == "--calibration"@ || word == "--csv"@ || word == "--psd-csv"@ || word == "--json"@ || word == "--deci-bits"@ || word == "--deci-rate"@ || word == "--baseline-adc"@ || word == "--baseline-chain"@),
    ensures
        word == "--help"@ || word == "-h"@ ==> outcome(args + seq![word]) == Outcome::Help,
        word != "--help"@ && word != "-h"@ ==> outcome(args + seq![word]) == Outcome::Refused(
            Problem::Unknown(word),
        ),
{
    let one = seq![word];
    assert(!asks_calibrate(one)) by {
        if asks_calibrate(one) {
            let i = choose|i: int| 0 <= i < one.len() && one[i] == "--calibrate"@;
            assert(i == 0);
        }
    }
    lemma_no_calibrate(args, one);
    lemma_scan_on(args, one, 3, default_settings());
    assert((args + one)[args.len() as int] == word);
}

/// The first trouble, or the first call for help, decides: what stands behind it changes nothing.
pub proof fn law_first_trouble_decides(args: Seq<Seq<char>>, more: Seq<Seq<char>>)
    requires
        args.len() >= 3,
        !asks_calibrate(args),
        !asks_calibrate(more),
        outcome(args) is Refused || outcome(args) is Help,
        args.last() != "--baseline-adc"@,
        args.last() != "--baseline-chain"@,
    ensures
        outcome(args + more) == outcome(args),
{
    lemma_no_calibrate(args, more);
    lemma_scan_on(args, more, 3, default_settings());
}

/// Fewer than two files, without a call for a profile, are answered with the usage.
pub proof fn law_two_files_are_needed(args: Seq<Seq<char>>)
    requires
        args.len() < 3,
        forall|i: int| 0 <= i < args.len() ==> #[trigger] args[i] != "--calibrate"@,
    ensures
        outcome(args) == Outcome::Refused(Problem::Usage),
{
}

proof fn lemma_calibrate_name()
    ensures
        "--calibrate"@.len() == 11,
        "--calibrate"@[2] == 'c',
{
    reveal_strlit("--calibrate");
}

proof fn lemma_scan_calibrate_on(args: Seq<Seq<char>>, more: Seq<Seq<char>>, i: int, st: Settings)
    requires
        0 <= i <= args.len(),
    ensures
        match scan_calibrate(args, i, st) {
            Outcome::Run(r) => scan_calibrate(args + more, i, st) == scan_calibrate(
                args + more,
                args.len() as int,
                r,
            ),
            Outcome::Cut => true,
            other => scan_calibrate(args + more, i, st) == other,
        },
    decreases args.len() - i,
{
    let all = args + more;
    if i < args.len() {
        assert(all[i] == args[i]);
        if is_calibrate_option(args[i]) {
            if i + 1 < args.len() {
                assert(all[i + 1] == args[i + 1]);
                match with_option(st, args[i], args[i + 1]) {
                    Ok(next) => {
                        lemma_scan_calibrate_on(args, more, i + 2, next);
                    },
                    Err(_) => {},
                }
            }
        } else {
            lemma_scan_calibrate_on(args, more, i + 1, st);
        }
    }
}

/// An option with its value behind a command line that asks for a profile changes its setting; a
/// word that is no option of profiles changes nothing.
pub proof fn law_option_behind_a_profile_line(
    args: Seq<Seq<char>>,
    st: Settings,
    option: Seq<char>,
    value: Seq<char>,
    word: Seq<char>,
)
    requires
        args.len() >= 1,
        scan_calibrate(args, 1, default_settings()) == Outcome::Run(st),
        option == "--standard"@ || option == "--window"@ || option == "--orig-rate"@ || option == "--orig-bits"@ || option == "--adc-file"@ || option == "--chain-file"@ || option == "--cal-output"@,
        !(word == "--standard"@ || word == "--window"@ || word == "--orig-rate"@ || word == "--orig-bits"@ || word == "--adc-file"@ || word == "--chain-file"@ || word == "--cal-output"@),
    ensures
        scan_calibrate(args + seq![option, value], 1, default_settings()) == match with_option(
            st,
            option,
            value,
        ) {
            Ok(next) => Outcome::Run(next),
            Err(problem) => Outcome::Refused(problem),
        },
        scan_calibrate(args + seq![option], 1, default_settings()) == Outcome::Cut,
        scan_calibrate(args + seq![word], 1, default_settings()) == Outcome::Run(st),
{
    reveal_with_fuel(scan_calibrate, 2);
    let n = args.len() as int;
    lemma_scan_calibrate_on(args, seq![option, value], 1, default_settings());
    lemma_scan_calibrate_on(args, seq![option], 1, default_settings());
    lemma_scan_calibrate_on(args, seq![word], 1, default_settings());
    assert((args + seq![option, value])[n] == option);
    assert((args + seq![option, value])[n + 1] == value);
    assert((args + seq![option])[n] == option);
    assert((args + seq![word])[n] == word);
}

/// A profile is asked for by `--calibrate` anywhere, and takes the file of the converter, the file
/// of the chain and the file to write, which are missed in this order.
pub proof fn law_profiles_take_three_files(args: Seq<Seq<char>>, st: Settings, i: int)
    requires
        0 <= i < args.len(),
        args[i] == "--calibrate"@,
        scan_calibrate(args, 1, default_settings()) == Outcome::Run(st),
    ensures
        st.adc_file is None ==> outcome(args) == Outcome::Refused(Problem::NoAdcFile),
        st.adc_file is Some && st.chain_file is None ==> outcome(args) == Outcome::Refused(
            Problem::NoChainFile,
        ),
        st.adc_file is Some && st.chain_file is Some && st.cal_output is None ==> outcome(args)
            == Outcome::Refused(Problem::NoCalOutput),
        st.adc_file is Some && st.chain_file is Some && st.cal_output is Some ==> outcome(args)
            == Outcome::Run(st),
{
}

/// A run has the rates, bit depths and the standard of its settings. It compares the first two
/// arguments behind the program's name, or makes a profile of the files of the settings where one is
/// asked for.
pub proof fn law_run_follows_the_settings(config: Config, args: Seq<Seq<char>>, st: Settings)
    requires
        config.describes(args, st),
    ensures
        config.standard@ == st.standard,
        config.window@ == "blackman"@,
        config.orig_rate == st.orig_rate,
        config.deci_rate == st.deci_rate,
        config.orig_bits == st.orig_bits,
        config.deci_bits == st.deci_bits,
        asks_calibrate(args) <==> config.mode is Calibrate,
        config.mode matches RunMode::Compare {
            original,
            decimated,
            calibration,
            csv,
            psd_csv,
            json_out,
        } ==> {
            &&& original@ == args[1]
            &&& decimated@ == args[2]
            &&& holds_text(calibration, st.calibration)
            &&& holds_text(csv, st.csv)
            &&& holds_text(psd_csv, st.psd_csv)
            &&& holds_text(json_out, st.json_out)
        },
        config.mode matches RunMode::Calibrate { adc_file, chain_file, cal_output } ==> {
            &&& st.adc_file == Some(adc_file@)
            &&& st.chain_file == Some(chain_file@)
            &&& st.cal_output == Some(cal_output@)
        },
{
}

/// A string where there is a text, with that text, and none where there is none.
pub open spec fn holds_text(s: Option<String>, text: Option<Seq<char>>) -> bool {
    &&& s is Some <==> text is Some
    &&& s is Some ==> s->0@ == text->0
}

/// Every refusal has its own message; one of an unknown argument names it, one of a number says what
/// is wrong with it.
pub proof fn law_refusals_are_told(arg: Seq<char>)
    ensures
        Problem::Window.words() == "only Blackman-Harris is supported: use --window blackman"@,
        Problem::Unknown(arg).words() == "unknown argument: "@ + arg,
        Problem::Number(NumberError::Empty).words() == "cannot parse integer from empty string"@,
        Problem::Number(NumberError::InvalidDigit).words() == "invalid digit found in string"@,
        Problem::Number(NumberError::TooLarge).words() == "number too large to fit in target type"@,
        Problem::NoAdcFile.words() == "--calibrate requires --adc-file"@,
        Problem::NoChainFile.words() == "--calibrate requires --chain-file"@,
        Problem::NoCalOutput.words() == "--calibrate requires --cal-output"@,
        Problem::Usage.words() == usage_words(),
{
}

/// The usage and the help tell, line by line, the files and options of a comparison and then those
/// of a profile.
pub proof fn law_usage_tells_the_options()
    ensures
        usage_words() == "Usage: compare-rf <original> <decimated> [options]\n"@
            + "  --standard ntsc|pal|m-pal|n-pal\n"@
            + "  --calibration file.cal.json\n"@
            + "  --csv metrics.csv\n"@
            + "  --psd-csv prefix\n"@
            + "  --json results.json\n"@
            + "  --orig-bits N  --deci-bits N\n"@
            + "  --orig-rate N  --deci-rate N\n"@
            + "  --window blackman\n"@
            + "\n"@
            + "Calibrate mode:\n"@
            + "  compare-rf --calibrate --adc-file X --chain-file Y --cal-output Z.cal.json [--standard ...]\n"@,
        help_words() == "Usage: compare-rf <original> <decimated> [options]\n"@
            + "  --standard ntsc|pal|m-pal|n-pal\n"@
            + "  --calibration file.cal.json\n"@
            + "  --csv metrics.csv  --psd-csv prefix  --json results.json\n"@
            + "  --orig-bits N  --deci-bits N  --orig-rate N  --deci-rate N\n"@
            + "  --window blackman\n"@
            + "\n"@
            + "Calibrate: compare-rf --calibrate --adc-file X --chain-file Y --cal-output Z.cal.json\n"@,
{
    reveal_strlit("Usage: compare-rf <original> <decimated> [options]\n  --standard ntsc|pal|m-pal|n-pal\n  --calibration file.cal.json\n  --csv metrics.csv\n  --psd-csv prefix\n  --json results.json\n  --orig-bits N  --deci-bits N\n  --orig-rate N  --deci-rate N\n  --window blackman\n\nCalibrate mode:\n  compare-rf --calibrate --adc-file X --chain-file Y --cal-output Z.cal.json [--standard ...]\n");
    reveal_strlit("Usage: compare-rf <original> <decimated> [options]\n  --standard ntsc|pal|m-pal|n-pal\n  --calibration file.cal.json\n  --csv metrics.csv  --psd-csv prefix  --json results.json\n  --orig-bits N  --deci-bits N  --orig-rate N  --deci-rate N\n  --window blackman\n\nCalibrate: compare-rf --calibrate --adc-file X --chain-file Y --cal-output Z.cal.json\n");
    reveal_strlit("Usage: compare-rf <original> <decimated> [options]\n");
    reveal_strlit("  --standard ntsc|pal|m-pal|n-pal\n");
    reveal_strlit("  --calibration file.cal.json\n");
    reveal_strlit("  --csv metrics.csv\n");
    reveal_strlit("  --psd-csv prefix\n");
    reveal_strlit("  --json results.json\n");
    reveal_strlit("  --orig-bits N  --deci-bits N\n");
    reveal_strlit("  --orig-rate N  --deci-rate N\n");
    reveal_strlit("  --window blackman\n");
    reveal_strlit("\n");
    reveal_strlit("Calibrate mode:\n");
    reveal_strlit("  compare-rf --calibrate --adc-file X --chain-file Y --cal-output Z.cal.json [--standard ...]\n");
    reveal_strlit("  --csv metrics.csv  --psd-csv prefix  --json results.json\n");
    reveal_strlit("  --orig-bits N  --deci-bits N  --orig-rate N  --deci-rate N\n");
    reveal_strlit("Calibrate: compare-rf --calibrate --adc-file X --chain-file Y --cal-output Z.cal.json\n");
}

} // verus!
