//! The printed report, and the tables that go with it.

use crate::binary64::round;
use crate::preset::Band;
use crate::spectrum::{floor_text, level_difference, Metrics, LEVEL_LIMIT, LEVEL_PER_DB};
use crate::summary::Comparison;
use crate::text::{
    format_duration_hms, format_with_commas, push_decimal, push_digits, push_exact,
    push_exact_plus, push_fixed, push_fixed_plus, to_whole_units,
};
use crate::welch::TICKS_PER_HZ;
use vstd::arithmetic::power2::*;
use vstd::prelude::*;

verus! {

/// Ticks in a megahertz.
pub const TICKS_PER_MHZ: u64 = 2_097_152_000_000;

/// Ticks in a kilohertz.
pub const TICKS_PER_KHZ: u64 = 2_097_152_000;

/// The name of the program.
pub const APP_NAME: &'static str = "VHS RF Signal Analyser";

/// A level with `places` decimals.
pub open spec fn level(v: int, places: nat) -> Seq<char> {
    crate::text::exact(v, LEVEL_PER_DB as nat, places)
}

/// A level with its sign and two decimals.
pub open spec fn signed_level(v: int) -> Seq<char> {
    crate::text::exact_plus(v, LEVEL_PER_DB as nat, 2)
}

/// A frequency in megahertz.
pub open spec fn mhz(freq: int) -> Seq<char> {
    crate::text::decimal(freq as nat, TICKS_PER_MHZ as nat, 6)
}

/// Whole hertz in megahertz.
pub open spec fn hz_in_mhz(hz: u32, places: nat) -> Seq<char> {
    crate::text::decimal(hz as nat, 1_000_000, places)
}

/// A frequency in kilohertz, with its sign.
pub open spec fn signed_khz(freq: int) -> Seq<char> {
    crate::text::fixed_plus(freq, TICKS_PER_KHZ as nat, 2)
}

/// A frequency in hertz.
pub open spec fn hz(freq: int, places: nat) -> Seq<char> {
    crate::text::decimal(freq as nat, TICKS_PER_HZ as nat, places)
}

/// How often the first sample rate holds the second, to the nearest integer.
pub open spec fn factor(orig_rate: u32, deci_rate: u32) -> Seq<char> {
    if deci_rate > 0 {
        crate::text::decimal(orig_rate as nat, deci_rate as nat, 0)
    } else if orig_rate > 0 {
        "inf"@
    } else {
        "NaN"@
    }
}

pub(crate) fn push_level(out: &mut String, v: i128, places: u32)
    requires
        places <= 9,
    ensures
        final(out)@ == old(out)@ + level(v as int, places as nat),
{
    push_exact(out, v, LEVEL_PER_DB as u128, places);
}

fn push_signed_level(out: &mut String, v: i128)
    ensures
        final(out)@ == old(out)@ + signed_level(v as int),
{
    push_exact_plus(out, v, LEVEL_PER_DB as u128, 2);
}

pub(crate) fn push_factor(out: &mut String, orig_rate: u32, deci_rate: u32)
    ensures
        final(out)@ == old(out)@ + factor(orig_rate, deci_rate),
{
    if deci_rate > 0 {
        push_decimal(out, orig_rate as u64, deci_rate as u64, 0);
    } else if orig_rate > 0 {
        out.append("inf");
    } else {
        out.append("NaN");
    }
}

/// A carrier: its magnitude and its frequency.
pub open spec fn peak_line(label: Seq<char>, v: int, freq: int) -> Seq<char> {
    label + level(v, 2) + " dB at "@ + mhz(freq) + " MHz\n"@
}

fn push_peak_line(out: &mut String, label: &str, v: i128, freq: u64)
    ensures
        final(out)@ == old(out)@ + peak_line(label@, v as int, freq as int),
{
    let mut s = label.to_owned();
    push_level(&mut s, v, 2);
    s.append(" dB at ");
    push_decimal(&mut s, freq, TICKS_PER_MHZ, 6);
    s.append(" MHz\n");
    out.append(s.as_str());
}

/// A level.
pub open spec fn level_line(label: Seq<char>, v: int) -> Seq<char> {
    label + level(v, 2) + " dB\n"@
}

fn push_level_line(out: &mut String, label: &str, v: i128)
    ensures
        final(out)@ == old(out)@ + level_line(label@, v as int),
{
    let mut s = label.to_owned();
    push_level(&mut s, v, 2);
    s.append(" dB\n");
    out.append(s.as_str());
}

/// A difference of levels.
pub open spec fn delta_line(label: Seq<char>, v: int) -> Seq<char> {
    label + signed_level(v) + " dB\n"@
}

fn push_delta_line(out: &mut String, label: &str, v: i128)
    ensures
        final(out)@ == old(out)@ + delta_line(label@, v as int),
{
    let mut s = label.to_owned();
    push_signed_level(&mut s, v);
    s.append(" dB\n");
    out.append(s.as_str());
}

/// A noise floor and where it was found.
pub open spec fn floor_line(label: Seq<char>, v: int, freq: int) -> Seq<char> {
    label + level(v, 2) + " dB  ("@ + crate::spectrum::floor_place(freq) + ")\n"@
}

fn push_floor_line(out: &mut String, label: &str, v: i128, freq: u64)
    ensures
        final(out)@ == old(out)@ + floor_line(label@, v as int, freq as int),
{
    let mut s = label.to_owned();
    push_level(&mut s, v, 2);
    s.append(" dB  (");
    s.append(floor_text(freq).as_str());
    s.append(")\n");
    out.append(s.as_str());
}

/// Where the standard puts a carrier.
pub open spec fn reference_line(label: Seq<char>, place: u32) -> Seq<char> {
    label + hz_in_mhz(place, 6) + " MHz\n"@
}

fn push_reference_line(out: &mut String, label: &str, place: u32)
    ensures
        final(out)@ == old(out)@ + reference_line(label@, place),
{
    let mut s = label.to_owned();
    push_decimal(&mut s, place as u64, 1_000_000, 6);
    s.append(" MHz\n");
    out.append(s.as_str());
}

/// Where a carrier is, and how far that is from its place.
pub open spec fn carrier_line(label: Seq<char>, freq: int, offset: int) -> Seq<char> {
    label + mhz(freq) + " MHz ("@ + signed_khz(offset) + " kHz from ref)\n"@
}

fn push_carrier_line(out: &mut String, label: &str, freq: u64, offset: i64)
    ensures
        final(out)@ == old(out)@ + carrier_line(label@, freq as int, offset as int),
{
    let mut s = label.to_owned();
    push_decimal(&mut s, freq, TICKS_PER_MHZ, 6);
    s.append(" MHz (");
    push_fixed_plus(&mut s, offset, TICKS_PER_KHZ, 2);
    s.append(" kHz from ref)\n");
    out.append(s.as_str());
}

/// The distance of the luma carriers, and how far that is from the standard.
pub open spec fn deviation_line(label: Seq<char>, deviation: int, offset: int) -> Seq<char> {
    label + crate::text::fixed(deviation, TICKS_PER_KHZ as nat, 2) + " kHz ("@ + signed_khz(offset)
        + " kHz from ref)\n"@
}

fn push_deviation_line(out: &mut String, label: &str, deviation: i64, offset: i64)
    ensures
        final(out)@ == old(out)@ + deviation_line(label@, deviation as int, offset as int),
{
    let mut s = label.to_owned();
    push_fixed(&mut s, deviation, TICKS_PER_KHZ, 2);
    s.append(" kHz (");
    push_fixed_plus(&mut s, offset, TICKS_PER_KHZ, 2);
    s.append(" kHz from ref)\n");
    out.append(s.as_str());
}

/// What was read of a capture.
pub open spec fn input_lines(label: Seq<char>, m: Metrics) -> Seq<char> {
    label + crate::text::digits(m.sample_rate as nat) + " Hz, "@
        + crate::text::digits(m.bits as nat) + "-bit, "@
        + crate::text::grouped(crate::text::digits(m.num_samples as nat)) + " samples, "@
        + crate::text::digits(m.welch_segments as nat) + " Welch segments, FFT "@
        + crate::text::digits(
        crate::text::whole_units((m.sample_rate * TICKS_PER_HZ) as nat, m.fft_bin as nat),
    ) + "\n  Duration:  "@
        + crate::text::decimal(m.num_samples as nat, m.sample_rate as nat, 3) + " s ("@
        + crate::text::clock(
            crate::text::whole_seconds(m.num_samples as int, m.sample_rate as nat),
        )
        + ")\n"@
}

/// The transform length that a report shows is the one that the spectrum of a capture has.
pub proof fn law_transform_length_is_shown(m: Metrics)
    requires
        m.wf(),
    ensures
        crate::text::whole_units((m.sample_rate * TICKS_PER_HZ) as nat, m.fft_bin as nat)
            == m.nfft,
{
    assert(m.nfft as nat * m.fft_bin as nat == m.sample_rate * TICKS_PER_HZ) by (nonlinear_arith)
        requires
            m.fft_bin * m.nfft == m.sample_rate * TICKS_PER_HZ,
    ;
    crate::text::law_whole_quotients_stay(m.nfft as nat, m.fft_bin as nat);
}

fn push_input_lines(out: &mut String, label: &str, m: &Metrics)
    requires
        m.readable(),
        m.sample_rate > 0,
    ensures
        final(out)@ == old(out)@ + input_lines(label@, *m),
{
    let mut s = label.to_owned();
    push_digits(&mut s, m.sample_rate as u128);
    s.append(" Hz, ");
    push_digits(&mut s, m.bits as u128);
    s.append("-bit, ");
    s.append(format_with_commas(m.num_samples).as_str());
    s.append(" samples, ");
    push_digits(&mut s, m.welch_segments as u128);
    s.append(" Welch segments, FFT ");
    push_digits(&mut s, to_whole_units(m.sample_rate as u64 * TICKS_PER_HZ, m.fft_bin));
    s.append("\n  Duration:  ");
    push_decimal(&mut s, m.num_samples, m.sample_rate as u64, 3);
    s.append(" s (");
    s.append(format_duration_hms(m.num_samples as i128, m.sample_rate as u64).as_str());
    s.append(")\n");
    out.append(s.as_str());
}

/// The floors of a guard band.
pub open spec fn guard_line(
    label: Seq<char>,
    band: Band,
    gap: Seq<char>,
    orig: int,
    deci: int,
) -> Seq<char> {
    label + hz_in_mhz(band.f_start_hz, 1) + "-"@ + hz_in_mhz(band.f_stop_hz, 1) + gap
        + level(orig, 2) + " dB  comparison: "@ + level(deci, 2) + " dB\n"@
}

fn push_guard_line(
    out: &mut String,
    label: &str,
    band: &Band,
    gap: &str,
    orig: i128,
    deci: i128,
)
    ensures
        final(out)@ == old(out)@ + guard_line(label@, *band, gap@, orig as int, deci as int),
{
    let mut s = label.to_owned();
    push_decimal(&mut s, band.f_start_hz as u64, 1_000_000, 1);
    s.append("-");
    push_decimal(&mut s, band.f_stop_hz as u64, 1_000_000, 1);
    s.append(gap);
    push_level(&mut s, orig, 2);
    s.append(" dB  comparison: ");
    push_level(&mut s, deci, 2);
    s.append(" dB\n");
    out.append(s.as_str());
}

/// The head of the report.
pub open spec fn heading(c: Comparison<'_>) -> Seq<char> {
    APP_NAME@ + " v"@ + c.version@ + "\n-------------------------------\nStandard: "@
        + c.preset.name@ + "\nDecimation factor: "@ + factor(c.orig_rate, c.deci_rate)
        + "\nWindow: Blackman-Harris 4-term\nBy ZL3RXT - For VHS Decode 2026\n-------------------------------\n\n"@
}

fn heading_text(c: &Comparison<'_>) -> (s: String)
    requires
        c.wf(),
    ensures
        s@ == heading(*c),
{
    let mut s = APP_NAME.to_owned();
    s.append(" v");
    s.append(c.version);
    s.append("\n-------------------------------\nStandard: ");
    s.append(c.preset.name);
    s.append("\nDecimation factor: ");
    push_factor(&mut s, c.orig_rate, c.deci_rate);
    s.append("\nWindow: Blackman-Harris 4-term\nBy ZL3RXT - For VHS Decode 2026\n-------------------------------\n\n");
    s
}

/// What was read of the captures.
pub open spec fn inputs(c: Comparison<'_>) -> Seq<char> {
    "Input Summary\n-------------\n"@ + input_lines("- Original:  "@, *c.orig)
        + input_lines("- Comparison: "@, *c.deci) + "- FFT bin width: "@
        + hz(c.orig.fft_bin as int, 2) + " Hz (orig) / "@ + hz(c.deci.fft_bin as int, 2)
        + " Hz (deci)\n\n"@
}

fn inputs_text(c: &Comparison<'_>) -> (s: String)
    requires
        c.wf(),
    ensures
        s@ == inputs(*c),
{
    let mut s = "Input Summary\n-------------\n".to_owned();
    push_input_lines(&mut s, "- Original:  ", c.orig);
    push_input_lines(&mut s, "- Comparison: ", c.deci);
    s.append("- FFT bin width: ");
    push_decimal(&mut s, c.orig.fft_bin, TICKS_PER_HZ, 2);
    s.append(" Hz (orig) / ");
    push_decimal(&mut s, c.deci.fft_bin, TICKS_PER_HZ, 2);
    s.append(" Hz (deci)\n\n");
    s
}

/// The carriers.
pub open spec fn peaks(c: Comparison<'_>) -> Seq<char> {
    "Signal Peaks [dB magnitude, full-scale]\n------------------------------------------------------------------\n"@
        + peak_line("- Sync peak original:        "@, c.o.sync_peak.level as int, c.o.sync_peak.freq as int)
        + peak_line("- Sync peak comparison:      "@, c.d.sync_peak.level as int, c.d.sync_peak.freq as int)
        + "\n"@
        + peak_line("- White peak original:       "@, c.o.white_peak.level as int, c.o.white_peak.freq as int)
        + peak_line("- White peak comparison:     "@, c.d.white_peak.level as int, c.d.white_peak.freq as int)
        + "\n"@
        + peak_line("- Chroma peak original:      "@, c.o.chroma_peak.level as int, c.o.chroma_peak.freq as int)
        + peak_line("- Chroma peak Comparison:    "@, c.d.chroma_peak.level as int, c.d.chroma_peak.freq as int)
        + "\n"@
}

fn peaks_text(c: &Comparison<'_>) -> (s: String)
    requires
        c.wf(),
    ensures
        s@ == peaks(*c),
{
    let mut s = "Signal Peaks [dB magnitude, full-scale]\n------------------------------------------------------------------\n".to_owned();
    push_peak_line(
        &mut s,
        "- Sync peak original:        ",
        c.o.sync_peak.level,
        c.o.sync_peak.freq,
    );
    push_peak_line(
        &mut s,
        "- Sync peak comparison:      ",
        c.d.sync_peak.level,
        c.d.sync_peak.freq,
    );
    s.append("\n");
    push_peak_line(
        &mut s,
        "- White peak original:       ",
        c.o.white_peak.level,
        c.o.white_peak.freq,
    );
    push_peak_line(
        &mut s,
        "- White peak comparison:     ",
        c.d.white_peak.level,
        c.d.white_peak.freq,
    );
    s.append("\n");
    push_peak_line(
        &mut s,
        "- Chroma peak original:      ",
        c.o.chroma_peak.level,
        c.o.chroma_peak.freq,
    );
    push_peak_line(
        &mut s,
        "- Chroma peak Comparison:    ",
        c.d.chroma_peak.level,
        c.d.chroma_peak.freq,
    );
    s.append("\n");
    s
}

/// The noise floors.
pub open spec fn floors(c: Comparison<'_>) -> Seq<char> {
    "Noise Floors [dB magnitude] (Lowest measured per guard band area)\n------------------------------------------------------------------\n"@
        + guard_line("- Low guard ("@, c.preset.luma_noise_low, " MHz)  original: "@, c.o.floor_low as int, c.d.floor_low as int)
        + guard_line("- High guard ("@, c.preset.luma_noise_high, " MHz) original: "@, c.o.floor_high as int, c.d.floor_high as int)
        + "- Guard tilt original: "@ + signed_level(
            crate::spectrum::difference(c.o.floor_high as int, c.o.floor_low as int),
        )
        + " dB  comparison: "@ + signed_level(
            crate::spectrum::difference(c.d.floor_high as int, c.d.floor_low as int),
        ) + " dB\n\n"@
        + floor_line("+ Sync floor original:       "@, c.o.luma_floor.level as int, c.o.luma_floor.freq as int)
        + floor_line("- Sync floor comparison:     "@, c.d.luma_floor.level as int, c.d.luma_floor.freq as int)
        + "\n"@
        + floor_line("+ White floor original:      "@, c.o.luma_floor.level as int, c.o.luma_floor.freq as int)
        + floor_line("- White floor comparison:    "@, c.d.luma_floor.level as int, c.d.luma_floor.freq as int)
        + "\n"@
        + floor_line("+ Chroma floor original:     "@, c.o.chroma_floor.level as int, c.o.chroma_floor.freq as int)
        + floor_line("- Chroma floor comparison:   "@, c.d.chroma_floor.level as int, c.d.chroma_floor.freq as int)
        + "\n"@
}

fn floors_text(c: &Comparison<'_>) -> (s: String)
    requires
        c.wf(),
    ensures
        s@ == floors(*c),
{
    let mut s = "Noise Floors [dB magnitude] (Lowest measured per guard band area)\n------------------------------------------------------------------\n".to_owned();
    push_guard_line(
        &mut s,
        "- Low guard (",
        &c.preset.luma_noise_low,
        " MHz)  original: ",
        c.o.floor_low,
        c.d.floor_low,
    );
    push_guard_line(
        &mut s,
        "- High guard (",
        &c.preset.luma_noise_high,
        " MHz) original: ",
        c.o.floor_high,
        c.d.floor_high,
    );
    s.append("- Guard tilt original: ");
    push_signed_level(&mut s, level_difference(c.o.floor_high, c.o.floor_low));
    s.append(" dB  comparison: ");
    push_signed_level(&mut s, level_difference(c.d.floor_high, c.d.floor_low));
    s.append(" dB\n\n");
    push_floor_line(
        &mut s,
        "+ Sync floor original:       ",
        c.o.luma_floor.level,
        c.o.luma_floor.freq,
    );
    push_floor_line(
        &mut s,
        "- Sync floor comparison:     ",
        c.d.luma_floor.level,
        c.d.luma_floor.freq,
    );
    s.append("\n");
    push_floor_line(
        &mut s,
        "+ White floor original:      ",
        c.o.luma_floor.level,
        c.o.luma_floor.freq,
    );
    push_floor_line(
        &mut s,
        "- White floor comparison:    ",
        c.d.luma_floor.level,
        c.d.luma_floor.freq,
    );
    s.append("\n");
    push_floor_line(
        &mut s,
        "+ Chroma floor original:     ",
        c.o.chroma_floor.level,
        c.o.chroma_floor.freq,
    );
    push_floor_line(
        &mut s,
        "- Chroma floor comparison:   ",
        c.d.chroma_floor.level,
        c.d.chroma_floor.freq,
    );
    s.append("\n");
    s
}

/// The signal to noise ratios.
pub open spec fn ratios(c: Comparison<'_>) -> Seq<char> {
    "SNR [dB] (peak - noise floor)\n------------------------------------------------------------------\n"@
        + level_line("+ Sync SNR original:         "@, c.o.sync_snr as int)
        + level_line("- Sync SNR comparison:       "@, c.d.sync_snr as int)
        + delta_line("- Sync SNR delta:            "@, crate::spectrum::difference(c.d.sync_snr as int, c.o.sync_snr as int)) + "\n"@
        + level_line("+ White SNR original:        "@, c.o.white_snr as int)
        + level_line("- White SNR comparison:      "@, c.d.white_snr as int)
        + delta_line("- White SNR delta:           "@, crate::spectrum::difference(c.d.white_snr as int, c.o.white_snr as int)) + "\n"@
        + level_line("+ Chroma SNR original:       "@, c.o.chroma_snr as int)
        + level_line("- Chroma SNR comparison:     "@, c.d.chroma_snr as int)
        + delta_line("- Chroma SNR delta:          "@, crate::spectrum::difference(c.d.chroma_snr as int, c.o.chroma_snr as int)) + "\n"@
}

fn ratios_text(c: &Comparison<'_>) -> (s: String)
    requires
        c.wf(),
    ensures
        s@ == ratios(*c),
{
    let mut s = "SNR [dB] (peak - noise floor)\n------------------------------------------------------------------\n".to_owned();
    push_level_line(&mut s, "+ Sync SNR original:         ", c.o.sync_snr);
    push_level_line(&mut s, "- Sync SNR comparison:       ", c.d.sync_snr);
    push_delta_line(&mut s, "- Sync SNR delta:            ", level_difference(c.d.sync_snr, c.o.sync_snr));
    s.append("\n");
    push_level_line(&mut s, "+ White SNR original:        ", c.o.white_snr);
    push_level_line(&mut s, "- White SNR comparison:      ", c.d.white_snr);
    push_delta_line(&mut s, "- White SNR delta:           ", level_difference(c.d.white_snr, c.o.white_snr));
    s.append("\n");
    push_level_line(&mut s, "+ Chroma SNR original:       ", c.o.chroma_snr);
    push_level_line(&mut s, "- Chroma SNR comparison:     ", c.d.chroma_snr);
    push_delta_line(&mut s, "- Chroma SNR delta:          ", level_difference(c.d.chroma_snr, c.o.chroma_snr));
    s.append("\n");
    s
}

/// The carriers beside their places in the standard.
pub open spec fn references(c: Comparison<'_>) -> Seq<char> {
    "VHS Spec Reference Metrics\n------------------------------------------------------------------\n"@
        + reference_line("+ Sync tip reference:        "@, c.preset.luma_sync_hz)
        + carrier_line("- Sync carrier original:     "@, c.o.sync_peak.freq as int, c.o.sync_offset as int)
        + carrier_line("- Sync carrier comparison:   "@, c.d.sync_peak.freq as int, c.d.sync_offset as int)
        + "\n"@ + reference_line("+ White peak reference:      "@, c.preset.luma_white_hz)
        + carrier_line("- White carrier original:    "@, c.o.white_peak.freq as int, c.o.white_offset as int)
        + carrier_line("- White carrier comparison:  "@, c.d.white_peak.freq as int, c.d.white_offset as int)
        + "\n+ Luma deviation reference:  "@ + crate::text::fixed(c.ref_deviation as int, 1000, 2)
        + " kHz\n"@
        + deviation_line("- Luma deviation original:   "@, c.o.deviation as int, c.o.deviation_offset as int)
        + deviation_line("- Luma deviation comparison: "@, c.d.deviation as int, c.d.deviation_offset as int)
        + "\n"@ + reference_line("+ Chroma carrier reference:  "@, c.preset.chroma_carrier_hz)
        + carrier_line("- Chroma carrier original:   "@, c.o.chroma_peak.freq as int, c.o.chroma_offset as int)
        + carrier_line("- Chroma carrier comparison: "@, c.d.chroma_peak.freq as int, c.d.chroma_offset as int)
        + "\n"@
}

fn references_text(c: &Comparison<'_>) -> (s: String)
    requires
        c.wf(),
    ensures
        s@ == references(*c),
{
    let mut s = "VHS Spec Reference Metrics\n------------------------------------------------------------------\n".to_owned();
    push_reference_line(&mut s, "+ Sync tip reference:        ", c.preset.luma_sync_hz);
    push_carrier_line(&mut s, "- Sync carrier original:     ", c.o.sync_peak.freq, c.o.sync_offset);
    push_carrier_line(&mut s, "- Sync carrier comparison:   ", c.d.sync_peak.freq, c.d.sync_offset);
    s.append("\n");
    push_reference_line(&mut s, "+ White peak reference:      ", c.preset.luma_white_hz);
    push_carrier_line(
        &mut s,
        "- White carrier original:    ",
        c.o.white_peak.freq,
        c.o.white_offset,
    );
    push_carrier_line(
        &mut s,
        "- White carrier comparison:  ",
        c.d.white_peak.freq,
        c.d.white_offset,
    );
    s.append("\n+ Luma deviation reference:  ");
    push_fixed(&mut s, c.ref_deviation, 1000, 2);
    s.append(" kHz\n");
    push_deviation_line(
        &mut s,
        "- Luma deviation original:   ",
        c.o.deviation,
        c.o.deviation_offset,
    );
    push_deviation_line(
        &mut s,
        "- Luma deviation comparison: ",
        c.d.deviation,
        c.d.deviation_offset,
    );
    s.append("\n");
    push_reference_line(&mut s, "+ Chroma carrier reference:  ", c.preset.chroma_carrier_hz);
    push_carrier_line(
        &mut s,
        "- Chroma carrier original:   ",
        c.o.chroma_peak.freq,
        c.o.chroma_offset,
    );
    push_carrier_line(
        &mut s,
        "- Chroma carrier comparison: ",
        c.d.chroma_peak.freq,
        c.d.chroma_offset,
    );
    s.append("\n");
    s
}

/// Equivalent bits with `places` decimals.
pub open spec fn bits(v: int, places: nat) -> Seq<char> {
    crate::text::exact(v, LEVEL_PER_DB as nat, places)
}

/// The 52nd power of two.
pub const CEILING_UNIT: u128 = 4_503_599_627_370_496;

/// The binary64 number 6.02, times `CEILING_UNIT`.
pub const CEILING_PER_BIT: i128 = 27_111_669_756_770_384;

/// The binary64 number 1.76, times `CEILING_UNIT`.
pub const CEILING_OFFSET: i128 = 7_926_335_344_172_073;

/// The highest ratio that a bit depth can show: 6.02 dB for each bit, and 1.76 dB.
pub open spec fn ceiling(depth: u32) -> Seq<char> {
    crate::text::exact(
        crate::binary64::rounded(
            crate::binary64::rounded(CEILING_PER_BIT * depth) + CEILING_OFFSET,
        ),
        CEILING_UNIT as nat,
        1,
    )
}

pub(crate) fn push_bits(out: &mut String, v: i128, places: u32)
    requires
        places <= 9,
    ensures
        final(out)@ == old(out)@ + bits(v as int, places as nat),
{
    push_exact(out, v, LEVEL_PER_DB as u128, places);
}

fn push_ceiling(out: &mut String, depth: u32)
    ensures
        final(out)@ == old(out)@ + ceiling(depth),
{
    proof {
        lemma2_to64();
        lemma2_to64_rest();
        lemma_pow2_adds(64, 32);
        crate::binary64::law_rounding_keeps_limits(CEILING_PER_BIT * depth, 1, 96);
        crate::binary64::law_rounding_keeps_limits(
            crate::binary64::rounded(CEILING_PER_BIT * depth) + CEILING_OFFSET,
            2,
            96,
        );
    }
    let scaled: i128 = round(CEILING_PER_BIT * depth as i128);
    push_exact(out, round(scaled + CEILING_OFFSET), CEILING_UNIT, 1);
}

/// Equivalent bits.
pub open spec fn derived(c: Comparison<'_>) -> Seq<char> {
    "Derived Summary\n------------------------------------------------------------------\n+ Equivalent SNR bits orig:  "@
        + bits(c.o.enob as int, 1) + " bits\n- Equivalent SNR bits comp:  "@
        + bits(c.d.enob as int, 1)
        + " bits\n  *SNR converted to bits. VHS typically 5-7bits, Aim for: 7.6 bits\n  **Aim for: 7.6 bits\n\n+ ADC quantization ceiling:  "@
        + ceiling(c.orig.bits) + " dB / "@ + ceiling(c.deci.bits) + " dB ("@
        + crate::text::digits(c.orig.bits as nat) + "-bit / "@
        + crate::text::digits(c.deci.bits as nat)
        + "-bit)\n  *Maximum possible SNR for the given bit depth.\n   VHS SNR is always below max - refer specs\n   Aim for: 74dB, 12-Bit @40MSPS\n\n\n"@
}

fn derived_text(c: &Comparison<'_>) -> (s: String)
    requires
        c.wf(),
    ensures
        s@ == derived(*c),
{
    let mut s = "Derived Summary\n------------------------------------------------------------------\n+ Equivalent SNR bits orig:  ".to_owned();
    push_bits(&mut s, c.o.enob, 1);
    s.append(" bits\n- Equivalent SNR bits comp:  ");
    push_bits(&mut s, c.d.enob, 1);
    s.append(" bits\n  *SNR converted to bits. VHS typically 5-7bits, Aim for: 7.6 bits\n  **Aim for: 7.6 bits\n\n+ ADC quantization ceiling:  ");
    push_ceiling(&mut s, c.orig.bits);
    s.append(" dB / ");
    push_ceiling(&mut s, c.deci.bits);
    s.append(" dB (");
    push_digits(&mut s, c.orig.bits as u128);
    s.append("-bit / ");
    push_digits(&mut s, c.deci.bits as u128);
    s.append("-bit)\n  *Maximum possible SNR for the given bit depth.\n   VHS SNR is always below max - refer specs\n   Aim for: 74dB, 12-Bit @40MSPS\n\n\n");
    s
}

/// The report on two captures.
pub open spec fn report(c: Comparison<'_>) -> Seq<char> {
    heading(c) + inputs(c) + peaks(c) + floors(c) + ratios(c) + references(c) + derived(c)
}

/// The report on two captures.
pub fn report_text(c: &Comparison<'_>) -> (s: String)
    requires
        c.wf(),
    ensures
        s@ == report(*c),
{
    let mut s = heading_text(c);
    s.append(inputs_text(c).as_str());
    s.append(peaks_text(c).as_str());
    s.append(floors_text(c).as_str());
    s.append(ratios_text(c).as_str());
    s.append(references_text(c).as_str());
    s.append(derived_text(c).as_str());
    s
}

/// A row of the metrics table.
pub open spec fn csv_row(name: Seq<char>, orig: int, deci: int, unit: Seq<char>) -> Seq<char> {
    name + ","@ + level(orig, 6) + ","@ + level(deci, 6) + ","@ + level(
        crate::spectrum::difference(deci, orig),
        6,
    ) + ","@
        + unit + "\n"@
}

fn push_csv_row(out: &mut String, name: &str, orig: i128, deci: i128, unit: &str)
    requires
        -2 * LEVEL_LIMIT <= orig <= 2 * LEVEL_LIMIT,
        -2 * LEVEL_LIMIT <= deci <= 2 * LEVEL_LIMIT,
    ensures
        final(out)@ == old(out)@ + csv_row(name@, orig as int, deci as int, unit@),
{
    let mut s = name.to_owned();
    s.append(",");
    push_level(&mut s, orig, 6);
    s.append(",");
    push_level(&mut s, deci, 6);
    s.append(",");
    push_level(&mut s, level_difference(deci, orig), 6);
    s.append(",");
    s.append(unit);
    s.append("\n");
    out.append(s.as_str());
}

/// The metrics as a table of comma separated values.
pub open spec fn metrics_csv(c: Comparison<'_>) -> Seq<char> {
    "metric,original,decimated,delta,unit\n"@
        + csv_row("luma_peak"@, c.o.luma_peak.level as int, c.d.luma_peak.level as int, "dB_mag"@)
        + csv_row("sync_peak"@, c.o.sync_peak.level as int, c.d.sync_peak.level as int, "dB_mag"@)
        + csv_row("white_peak"@, c.o.white_peak.level as int, c.d.white_peak.level as int, "dB_mag"@)
        + csv_row("chroma_peak"@, c.o.chroma_peak.level as int, c.d.chroma_peak.level as int, "dB_mag"@)
        + csv_row("luma_snr"@, c.o.luma_snr as int, c.d.luma_snr as int, "dB"@)
        + csv_row("sync_snr"@, c.o.sync_snr as int, c.d.sync_snr as int, "dB"@)
        + csv_row("white_snr"@, c.o.white_snr as int, c.d.white_snr as int, "dB"@)
        + csv_row("chroma_snr"@, c.o.chroma_snr as int, c.d.chroma_snr as int, "dB"@)
        + csv_row("luma_floor"@, c.o.luma_floor.level as int, c.d.luma_floor.level as int, "dB_mag"@)
        + csv_row("sync_floor"@, c.o.luma_floor.level as int, c.d.luma_floor.level as int, "dB_mag"@)
        + csv_row("white_floor"@, c.o.luma_floor.level as int, c.d.luma_floor.level as int, "dB_mag"@)
        + csv_row("chroma_floor"@, c.o.chroma_floor.level as int, c.d.chroma_floor.level as int, "dB_mag"@)
        + "enob,"@ + bits(c.o.enob as int, 2) + ","@ + bits(c.d.enob as int, 2) + ","@
        + bits(crate::spectrum::difference(c.d.enob as int, c.o.enob as int), 2) + ",bits\n"@
}

/// The metrics as a table of comma separated values.
pub fn metrics_csv_text(c: &Comparison<'_>) -> (s: String)
    requires
        c.wf(),
    ensures
        s@ == metrics_csv(*c),
{
    let mut s = "metric,original,decimated,delta,unit\n".to_owned();
    push_csv_row(&mut s, "luma_peak", c.o.luma_peak.level, c.d.luma_peak.level, "dB_mag");
    push_csv_row(&mut s, "sync_peak", c.o.sync_peak.level, c.d.sync_peak.level, "dB_mag");
    push_csv_row(&mut s, "white_peak", c.o.white_peak.level, c.d.white_peak.level, "dB_mag");
    push_csv_row(&mut s, "chroma_peak", c.o.chroma_peak.level, c.d.chroma_peak.level, "dB_mag");
    push_csv_row(&mut s, "luma_snr", c.o.luma_snr, c.d.luma_snr, "dB");
    push_csv_row(&mut s, "sync_snr", c.o.sync_snr, c.d.sync_snr, "dB");
    push_csv_row(&mut s, "white_snr", c.o.white_snr, c.d.white_snr, "dB");
    push_csv_row(&mut s, "chroma_snr", c.o.chroma_snr, c.d.chroma_snr, "dB");
    push_csv_row(&mut s, "luma_floor", c.o.luma_floor.level, c.d.luma_floor.level, "dB_mag");
    push_csv_row(&mut s, "sync_floor", c.o.luma_floor.level, c.d.luma_floor.level, "dB_mag");
    push_csv_row(&mut s, "white_floor", c.o.luma_floor.level, c.d.luma_floor.level, "dB_mag");
    push_csv_row(&mut s, "chroma_floor", c.o.chroma_floor.level, c.d.chroma_floor.level, "dB_mag");
    s.append("enob,");
    push_bits(&mut s, c.o.enob, 2);
    s.append(",");
    push_bits(&mut s, c.d.enob, 2);
    s.append(",");
    push_bits(&mut s, level_difference(c.d.enob, c.o.enob), 2);
    s.append(",bits\n");
    s
}

/// The rows of a power density table for the first `n` bins.
pub open spec fn psd_rows(m: Metrics, n: int) -> Seq<char>
    decreases n,
{
    if n <= 0 {
        Seq::empty()
    } else {
        psd_rows(m, n - 1) + (hz(m.freq(n - 1), 2) + ","@ + level(
            m.psd_dbfs_hz@[n - 1] as int,
            6,
        ) + "\n"@)
    }
}

/// The power density of a capture as a table of comma separated values.
pub open spec fn psd_csv(label: Seq<char>, m: Metrics) -> Seq<char> {
    "freq_hz,"@ + label + "_dbfs_hz\n"@ + psd_rows(m, m.bins() as int)
}

/// The power density of a capture as a table of comma separated values.
pub fn psd_csv_text(label: &str, m: &Metrics) -> (r: String)
    requires
        m.readable(),
    ensures
        r@ == psd_csv(label@, *m),
{
    let mut r = "freq_hz,".to_owned();
    r.append(label);
    r.append("_dbfs_hz\n");
    let ghost head = r@;
    let mut i: usize = 0;
    assert(head + psd_rows(*m, 0) =~= head);
    while i < m.psd_dbfs_hz.len()
        invariant
            m.readable(),
            i <= m.psd_dbfs_hz@.len(),
            r@ == head + psd_rows(*m, i as int),
        decreases m.psd_dbfs_hz@.len() - i,
    {
        let mut s = String::new();
        push_decimal(&mut s, m.frequency(i), TICKS_PER_HZ, 2);
        s.append(",");
        push_level(&mut s, m.psd_dbfs_hz[i], 6);
        s.append("\n");
        assert(s@ =~= hz(m.freq(i as int), 2) + ","@ + level(m.psd_dbfs_hz@[i as int] as int, 6)
            + "\n"@);
        r.append(s.as_str());
        i = i + 1;
        assert(r@ =~= head + psd_rows(*m, i as int));
    }
    r
}

/// The report names the program and its version, the standard and the decimation factor.
pub proof fn law_report_shows_the_program_and_the_preset(c: Comparison<'_>)
    ensures
        crate::text::shows(
            report(c),
            "VHS RF Signal Analyser"@
                + " v"@
                + c.version@
                + "\n-------------------------------\nStandard: "@
                + c.preset.name@
                + "\nDecimation factor: "@
                + factor(c.orig_rate, c.deci_rate)
                + "\nWindow: Blackman-Harris 4-term\nBy ZL3RXT - For VHS Decode 2026\n-------------------------------\n\n"@,
        ),
{
    broadcast use {
        crate::text::law_text_shows_itself,
        crate::text::law_joined_texts_show_both,
        crate::text::law_endings_are_shown,
        crate::text::law_endings_grow,
        crate::text::law_last_part_is_an_ending,
    };

    assert(APP_NAME@ == "VHS RF Signal Analyser"@);
}

/// The report tells of each capture its rate, bit depth, samples, segments, transform length and
/// duration, and the bin widths of both.
pub proof fn law_report_shows_the_captures(c: Comparison<'_>)
    ensures
        crate::text::shows(
            report(c),
            "- Original:  "@
                + crate::text::digits(c.orig.sample_rate as nat)
                + " Hz, "@
                + crate::text::digits(c.orig.bits as nat)
                + "-bit, "@
                + crate::text::grouped(crate::text::digits(c.orig.num_samples as nat))
                + " samples, "@
                + crate::text::digits(c.orig.welch_segments as nat)
                + " Welch segments, FFT "@
                + crate::text::digits(
                    crate::text::whole_units((c.orig.sample_rate * 2_097_152) as nat, c.orig.fft_bin as nat),
                )
                + "\n  Duration:  "@
                + crate::text::decimal(c.orig.num_samples as nat, c.orig.sample_rate as nat, 3)
                + " s ("@
                + crate::text::clock(
                    crate::text::whole_units(c.orig.num_samples as nat, c.orig.sample_rate as nat),
                )
                + ")\n"@,
        ),
        crate::text::shows(
            report(c),
            "- Comparison: "@
                + crate::text::digits(c.deci.sample_rate as nat)
                + " Hz, "@
                + crate::text::digits(c.deci.bits as nat)
                + "-bit, "@
                + crate::text::grouped(crate::text::digits(c.deci.num_samples as nat))
                + " samples, "@
                + crate::text::digits(c.deci.welch_segments as nat)
                + " Welch segments, FFT "@
                + crate::text::digits(
                    crate::text::whole_units((c.deci.sample_rate * 2_097_152) as nat, c.deci.fft_bin as nat),
                )
                + "\n  Duration:  "@
                + crate::text::decimal(c.deci.num_samples as nat, c.deci.sample_rate as nat, 3)
                + " s ("@
                + crate::text::clock(
                    crate::text::whole_units(c.deci.num_samples as nat, c.deci.sample_rate as nat),
                )
                + ")\n"@,
        ),
        crate::text::shows(
            report(c),
            "- FFT bin width: "@
                + crate::text::decimal(c.orig.fft_bin as nat, 2_097_152, 2)
                + " Hz (orig) / "@
                + crate::text::decimal(c.deci.fft_bin as nat, 2_097_152, 2)
                + " Hz (deci)\n\n"@,
        ),
{
    broadcast use {
        crate::text::law_text_shows_itself,
        crate::text::law_joined_texts_show_both,
        crate::text::law_endings_are_shown,
        crate::text::law_endings_grow,
        crate::text::law_last_part_is_an_ending,
    };

}

/// The report tells of each capture the sync, white and chroma peaks, level and place.
pub proof fn law_report_shows_the_peaks(c: Comparison<'_>)
    ensures
        crate::text::shows(
            report(c),
            "- Sync peak original:        "@
                + crate::text::exact(c.o.sync_peak.level as int, 1_298_074_214_633_706_907_132_624_082_305_024, 2)
                + " dB at "@
                + crate::text::decimal(c.o.sync_peak.freq as nat, 2_097_152_000_000, 6)
                + " MHz\n"@,
        ),
        crate::text::shows(
            report(c),
            "- Sync peak comparison:      "@
                + crate::text::exact(c.d.sync_peak.level as int, 1_298_074_214_633_706_907_132_624_082_305_024, 2)
                + " dB at "@
                + crate::text::decimal(c.d.sync_peak.freq as nat, 2_097_152_000_000, 6)
                + " MHz\n"@,
        ),
        crate::text::shows(
            report(c),
            "- White peak original:       "@
                + crate::text::exact(c.o.white_peak.level as int, 1_298_074_214_633_706_907_132_624_082_305_024, 2)
                + " dB at "@
                + crate::text::decimal(c.o.white_peak.freq as nat, 2_097_152_000_000, 6)
                + " MHz\n"@,
        ),
        crate::text::shows(
            report(c),
            "- White peak comparison:     "@
                + crate::text::exact(c.d.white_peak.level as int, 1_298_074_214_633_706_907_132_624_082_305_024, 2)
                + " dB at "@
                + crate::text::decimal(c.d.white_peak.freq as nat, 2_097_152_000_000, 6)
                + " MHz\n"@,
        ),
        crate::text::shows(
            report(c),
            "- Chroma peak original:      "@
                + crate::text::exact(c.o.chroma_peak.level as int, 1_298_074_214_633_706_907_132_624_082_305_024, 2)
                + " dB at "@
                + crate::text::decimal(c.o.chroma_peak.freq as nat, 2_097_152_000_000, 6)
                + " MHz\n"@,
        ),
        crate::text::shows(
            report(c),
            "- Chroma peak Comparison:    "@
                + crate::text::exact(c.d.chroma_peak.level as int, 1_298_074_214_633_706_907_132_624_082_305_024, 2)
                + " dB at "@
                + crate::text::decimal(c.d.chroma_peak.freq as nat, 2_097_152_000_000, 6)
                + " MHz\n"@,
        ),
{
    broadcast use {
        crate::text::law_text_shows_itself,
        crate::text::law_joined_texts_show_both,
        crate::text::law_endings_are_shown,
        crate::text::law_endings_grow,
        crate::text::law_last_part_is_an_ending,
    };

}

/// The report tells the edges of the luma guard bands, the floors of both captures in them, and how
/// far the upper floor is above the lower one.
pub proof fn law_report_shows_the_guards(c: Comparison<'_>)
    ensures
        crate::text::shows(
            report(c),
            "- Low guard ("@
                + crate::text::decimal(c.preset.luma_noise_low.f_start_hz as nat, 1_000_000, 1)
                + "-"@
                + crate::text::decimal(c.preset.luma_noise_low.f_stop_hz as nat, 1_000_000, 1)
                + " MHz)  original: "@
                + crate::text::exact(c.o.floor_low as int, 1_298_074_214_633_706_907_132_624_082_305_024, 2)
                + " dB  comparison: "@
                + crate::text::exact(c.d.floor_low as int, 1_298_074_214_633_706_907_132_624_082_305_024, 2)
                + " dB\n"@,
        ),
        crate::text::shows(
            report(c),
            "- High guard ("@
                + crate::text::decimal(c.preset.luma_noise_high.f_start_hz as nat, 1_000_000, 1)
                + "-"@
                + crate::text::decimal(c.preset.luma_noise_high.f_stop_hz as nat, 1_000_000, 1)
                + " MHz) original: "@
                + crate::text::exact(c.o.floor_high as int, 1_298_074_214_633_706_907_132_624_082_305_024, 2)
                + " dB  comparison: "@
                + crate::text::exact(c.d.floor_high as int, 1_298_074_214_633_706_907_132_624_082_305_024, 2)
                + " dB\n"@,
        ),
        crate::text::shows(
            report(c),
            "- Guard tilt original: "@
                + crate::text::exact_plus(crate::binary64::rounded(c.o.floor_high - c.o.floor_low), 1_298_074_214_633_706_907_132_624_082_305_024, 2)
                + " dB  comparison: "@
                + crate::text::exact_plus(crate::binary64::rounded(c.d.floor_high - c.d.floor_low), 1_298_074_214_633_706_907_132_624_082_305_024, 2)
                + " dB\n\n"@,
        ),
{
    broadcast use {
        crate::text::law_text_shows_itself,
        crate::text::law_joined_texts_show_both,
        crate::text::law_endings_are_shown,
        crate::text::law_endings_grow,
        crate::text::law_last_part_is_an_ending,
    };

}

/// The report tells of each capture the noise floors of sync and white, which are that of luma, and
/// of chroma, level and place.
pub proof fn law_report_shows_the_floors(c: Comparison<'_>)
    ensures
        crate::text::shows(
            report(c),
            "+ Sync floor original:       "@
                + crate::text::exact(c.o.luma_floor.level as int, 1_298_074_214_633_706_907_132_624_082_305_024, 2)
                + " dB  ("@
                + crate::spectrum::floor_place(c.o.luma_floor.freq as int)
                + ")\n"@,
        ),
        crate::text::shows(
            report(c),
            "- Sync floor comparison:     "@
                + crate::text::exact(c.d.luma_floor.level as int, 1_298_074_214_633_706_907_132_624_082_305_024, 2)
                + " dB  ("@
                + crate::spectrum::floor_place(c.d.luma_floor.freq as int)
                + ")\n"@,
        ),
        crate::text::shows(
            report(c),
            "+ White floor original:      "@
                + crate::text::exact(c.o.luma_floor.level as int, 1_298_074_214_633_706_907_132_624_082_305_024, 2)
                + " dB  ("@
                + crate::spectrum::floor_place(c.o.luma_floor.freq as int)
                + ")\n"@,
        ),
        crate::text::shows(
            report(c),
            "- White floor comparison:    "@
                + crate::text::exact(c.d.luma_floor.level as int, 1_298_074_214_633_706_907_132_624_082_305_024, 2)
                + " dB  ("@
                + crate::spectrum::floor_place(c.d.luma_floor.freq as int)
                + ")\n"@,
        ),
        crate::text::shows(
            report(c),
            "+ Chroma floor original:     "@
                + crate::text::exact(c.o.chroma_floor.level as int, 1_298_074_214_633_706_907_132_624_082_305_024, 2)
                + " dB  ("@
                + crate::spectrum::floor_place(c.o.chroma_floor.freq as int)
                + ")\n"@,
        ),
        crate::text::shows(
            report(c),
            "- Chroma floor comparison:   "@
                + crate::text::exact(c.d.chroma_floor.level as int, 1_298_074_214_633_706_907_132_624_082_305_024, 2)
                + " dB  ("@
                + crate::spectrum::floor_place(c.d.chroma_floor.freq as int)
                + ")\n"@,
        ),
{
    broadcast use {
        crate::text::law_text_shows_itself,
        crate::text::law_joined_texts_show_both,
        crate::text::law_endings_are_shown,
        crate::text::law_endings_grow,
        crate::text::law_last_part_is_an_ending,
    };

}

/// The report tells the sync, white and chroma ratios of both captures, and how far that of the
/// second is above that of the first.
pub proof fn law_report_shows_the_ratios(c: Comparison<'_>)
    ensures
        crate::text::shows(
            report(c),
            "+ Sync SNR original:         "@
                + crate::text::exact(c.o.sync_snr as int, 1_298_074_214_633_706_907_132_624_082_305_024, 2)
                + " dB\n"@,
        ),
        crate::text::shows(
            report(c),
            "- Sync SNR comparison:       "@
                + crate::text::exact(c.d.sync_snr as int, 1_298_074_214_633_706_907_132_624_082_305_024, 2)
                + " dB\n"@,
        ),
        crate::text::shows(
            report(c),
            "- Sync SNR delta:            "@
                + crate::text::exact_plus(crate::binary64::rounded(c.d.sync_snr - c.o.sync_snr), 1_298_074_214_633_706_907_132_624_082_305_024, 2)
                + " dB\n"@,
        ),
        crate::text::shows(
            report(c),
            "+ White SNR original:        "@
                + crate::text::exact(c.o.white_snr as int, 1_298_074_214_633_706_907_132_624_082_305_024, 2)
                + " dB\n"@,
        ),
        crate::text::shows(
            report(c),
            "- White SNR comparison:      "@
                + crate::text::exact(c.d.white_snr as int, 1_298_074_214_633_706_907_132_624_082_305_024, 2)
                + " dB\n"@,
        ),
        crate::text::shows(
            report(c),
            "- White SNR delta:           "@
                + crate::text::exact_plus(crate::binary64::rounded(c.d.white_snr - c.o.white_snr), 1_298_074_214_633_706_907_132_624_082_305_024, 2)
                + " dB\n"@,
        ),
        crate::text::shows(
            report(c),
            "+ Chroma SNR original:       "@
                + crate::text::exact(c.o.chroma_snr as int, 1_298_074_214_633_706_907_132_624_082_305_024, 2)
                + " dB\n"@,
        ),
        crate::text::shows(
            report(c),
            "- Chroma SNR comparison:     "@
                + crate::text::exact(c.d.chroma_snr as int, 1_298_074_214_633_706_907_132_624_082_305_024, 2)
                + " dB\n"@,
        ),
        crate::text::shows(
            report(c),
            "- Chroma SNR delta:          "@
                + crate::text::exact_plus(crate::binary64::rounded(c.d.chroma_snr - c.o.chroma_snr), 1_298_074_214_633_706_907_132_624_082_305_024, 2)
                + " dB\n"@,
        ),
{
    broadcast use {
        crate::text::law_text_shows_itself,
        crate::text::law_joined_texts_show_both,
        crate::text::law_endings_are_shown,
        crate::text::law_endings_grow,
        crate::text::law_last_part_is_an_ending,
    };

}

/// The report tells where the standard puts the sync, white and chroma carriers, where they are in
/// each capture, and how far off that is.
pub proof fn law_report_shows_the_carriers(c: Comparison<'_>)
    ensures
        crate::text::shows(
            report(c),
            "+ Sync tip reference:        "@
                + crate::text::decimal(c.preset.luma_sync_hz as nat, 1_000_000, 6)
                + " MHz\n"@,
        ),
        crate::text::shows(
            report(c),
            "- Sync carrier original:     "@
                + crate::text::decimal(c.o.sync_peak.freq as nat, 2_097_152_000_000, 6)
                + " MHz ("@
                + crate::text::fixed_plus(c.o.sync_offset as int, 2_097_152_000, 2)
                + " kHz from ref)\n"@,
        ),
        crate::text::shows(
            report(c),
            "- Sync carrier comparison:   "@
                + crate::text::decimal(c.d.sync_peak.freq as nat, 2_097_152_000_000, 6)
                + " MHz ("@
                + crate::text::fixed_plus(c.d.sync_offset as int, 2_097_152_000, 2)
                + " kHz from ref)\n"@,
        ),
        crate::text::shows(
            report(c),
            "+ White peak reference:      "@
                + crate::text::decimal(c.preset.luma_white_hz as nat, 1_000_000, 6)
                + " MHz\n"@,
        ),
        crate::text::shows(
            report(c),
            "- White carrier original:    "@
                + crate::text::decimal(c.o.white_peak.freq as nat, 2_097_152_000_000, 6)
                + " MHz ("@
                + crate::text::fixed_plus(c.o.white_offset as int, 2_097_152_000, 2)
                + " kHz from ref)\n"@,
        ),
        crate::text::shows(
            report(c),
            "- White carrier comparison:  "@
                + crate::text::decimal(c.d.white_peak.freq as nat, 2_097_152_000_000, 6)
                + " MHz ("@
                + crate::text::fixed_plus(c.d.white_offset as int, 2_097_152_000, 2)
                + " kHz from ref)\n"@,
        ),
        crate::text::shows(
            report(c),
            "+ Chroma carrier reference:  "@
                + crate::text::decimal(c.preset.chroma_carrier_hz as nat, 1_000_000, 6)
                + " MHz\n"@,
        ),
        crate::text::shows(
            report(c),
            "- Chroma carrier original:   "@
                + crate::text::decimal(c.o.chroma_peak.freq as nat, 2_097_152_000_000, 6)
                + " MHz ("@
                + crate::text::fixed_plus(c.o.chroma_offset as int, 2_097_152_000, 2)
                + " kHz from ref)\n"@,
        ),
        crate::text::shows(
            report(c),
            "- Chroma carrier comparison: "@
                + crate::text::decimal(c.d.chroma_peak.freq as nat, 2_097_152_000_000, 6)
                + " MHz ("@
                + crate::text::fixed_plus(c.d.chroma_offset as int, 2_097_152_000, 2)
                + " kHz from ref)\n"@,
        ),
{
    broadcast use {
        crate::text::law_text_shows_itself,
        crate::text::law_joined_texts_show_both,
        crate::text::law_endings_are_shown,
        crate::text::law_endings_grow,
        crate::text::law_last_part_is_an_ending,
    };

}

/// The report tells the deviation of the standard, those of the captures, and how far off they are.
pub proof fn law_report_shows_the_deviations(c: Comparison<'_>)
    ensures
        crate::text::shows(
            report(c),
            "\n+ Luma deviation reference:  "@
                + crate::text::fixed(c.ref_deviation as int, 1000, 2)
                + " kHz\n"@,
        ),
        crate::text::shows(
            report(c),
            "- Luma deviation original:   "@
                + crate::text::fixed(c.o.deviation as int, 2_097_152_000, 2)
                + " kHz ("@
                + crate::text::fixed_plus(c.o.deviation_offset as int, 2_097_152_000, 2)
                + " kHz from ref)\n"@,
        ),
        crate::text::shows(
            report(c),
            "- Luma deviation comparison: "@
                + crate::text::fixed(c.d.deviation as int, 2_097_152_000, 2)
                + " kHz ("@
                + crate::text::fixed_plus(c.d.deviation_offset as int, 2_097_152_000, 2)
                + " kHz from ref)\n"@,
        ),
{
    broadcast use {
        crate::text::law_text_shows_itself,
        crate::text::law_joined_texts_show_both,
        crate::text::law_endings_are_shown,
        crate::text::law_endings_grow,
        crate::text::law_last_part_is_an_ending,
    };

}

/// The report tells the equivalent bits of both captures, and the ceilings of their bit depths.
pub proof fn law_report_shows_the_bits(c: Comparison<'_>)
    ensures
        crate::text::shows(
            report(c),
            "Derived Summary\n------------------------------------------------------------------\n+ Equivalent SNR bits orig:  "@
                + crate::text::exact(c.o.enob as int, 1_298_074_214_633_706_907_132_624_082_305_024, 1)
                + " bits\n- Equivalent SNR bits comp:  "@
                + crate::text::exact(c.d.enob as int, 1_298_074_214_633_706_907_132_624_082_305_024, 1)
                + " bits\n  *SNR converted to bits. VHS typically 5-7bits, Aim for: 7.6 bits\n  **Aim for: 7.6 bits\n\n+ ADC quantization ceiling:  "@
                + ceiling(c.orig.bits)
                + " dB / "@
                + ceiling(c.deci.bits)
                + " dB ("@
                + crate::text::digits(c.orig.bits as nat)
                + "-bit / "@
                + crate::text::digits(c.deci.bits as nat)
                + "-bit)\n  *Maximum possible SNR for the given bit depth.\n   VHS SNR is always below max - refer specs\n   Aim for: 74dB, 12-Bit @40MSPS\n\n\n"@,
        ),
{
    broadcast use {
        crate::text::law_text_shows_itself,
        crate::text::law_joined_texts_show_both,
        crate::text::law_endings_are_shown,
        crate::text::law_endings_grow,
        crate::text::law_last_part_is_an_ending,
    };

}

/// The metrics table has a row for each peak: of both captures, and how far that of the second is
/// above that of the first.
pub proof fn law_table_shows_the_peaks(c: Comparison<'_>)
    ensures
        crate::text::shows(
            metrics_csv(c),
            "metric,original,decimated,delta,unit\n"@,
        ),
        crate::text::shows(
            metrics_csv(c),
            "luma_peak"@
                + ","@
                + crate::text::exact(c.o.luma_peak.level as int, 1_298_074_214_633_706_907_132_624_082_305_024, 6)
                + ","@
                + crate::text::exact(c.d.luma_peak.level as int, 1_298_074_214_633_706_907_132_624_082_305_024, 6)
                + ","@
                + crate::text::exact(crate::binary64::rounded(c.d.luma_peak.level - c.o.luma_peak.level), 1_298_074_214_633_706_907_132_624_082_305_024, 6)
                + ","@
                + "dB_mag"@
                + "\n"@,
        ),
        crate::text::shows(
            metrics_csv(c),
            "sync_peak"@
                + ","@
                + crate::text::exact(c.o.sync_peak.level as int, 1_298_074_214_633_706_907_132_624_082_305_024, 6)
                + ","@
                + crate::text::exact(c.d.sync_peak.level as int, 1_298_074_214_633_706_907_132_624_082_305_024, 6)
                + ","@
                + crate::text::exact(crate::binary64::rounded(c.d.sync_peak.level - c.o.sync_peak.level), 1_298_074_214_633_706_907_132_624_082_305_024, 6)
                + ","@
                + "dB_mag"@
                + "\n"@,
        ),
        crate::text::shows(
            metrics_csv(c),
            "white_peak"@
                + ","@
                + crate::text::exact(c.o.white_peak.level as int, 1_298_074_214_633_706_907_132_624_082_305_024, 6)
                + ","@
                + crate::text::exact(c.d.white_peak.level as int, 1_298_074_214_633_706_907_132_624_082_305_024, 6)
                + ","@
                + crate::text::exact(crate::binary64::rounded(c.d.white_peak.level - c.o.white_peak.level), 1_298_074_214_633_706_907_132_624_082_305_024, 6)
                + ","@
                + "dB_mag"@
                + "\n"@,
        ),
        crate::text::shows(
            metrics_csv(c),
            "chroma_peak"@
                + ","@
                + crate::text::exact(c.o.chroma_peak.level as int, 1_298_074_214_633_706_907_132_624_082_305_024, 6)
                + ","@
                + crate::text::exact(c.d.chroma_peak.level as int, 1_298_074_214_633_706_907_132_624_082_305_024, 6)
                + ","@
                + crate::text::exact(crate::binary64::rounded(c.d.chroma_peak.level - c.o.chroma_peak.level), 1_298_074_214_633_706_907_132_624_082_305_024, 6)
                + ","@
                + "dB_mag"@
                + "\n"@,
        ),
{
    broadcast use {
        crate::text::law_text_shows_itself,
        crate::text::law_joined_texts_show_both,
        crate::text::law_endings_are_shown,
        crate::text::law_endings_grow,
        crate::text::law_last_part_is_an_ending,
    };

}

/// The metrics table has such a row for each ratio.
pub proof fn law_table_shows_the_ratios(c: Comparison<'_>)
    ensures
        crate::text::shows(
            metrics_csv(c),
            "luma_snr"@
                + ","@
                + crate::text::exact(c.o.luma_snr as int, 1_298_074_214_633_706_907_132_624_082_305_024, 6)
                + ","@
                + crate::text::exact(c.d.luma_snr as int, 1_298_074_214_633_706_907_132_624_082_305_024, 6)
                + ","@
                + crate::text::exact(crate::binary64::rounded(c.d.luma_snr - c.o.luma_snr), 1_298_074_214_633_706_907_132_624_082_305_024, 6)
                + ","@
                + "dB"@
                + "\n"@,
        ),
        crate::text::shows(
            metrics_csv(c),
            "sync_snr"@
                + ","@
                + crate::text::exact(c.o.sync_snr as int, 1_298_074_214_633_706_907_132_624_082_305_024, 6)
                + ","@
                + crate::text::exact(c.d.sync_snr as int, 1_298_074_214_633_706_907_132_624_082_305_024, 6)
                + ","@
                + crate::text::exact(crate::binary64::rounded(c.d.sync_snr - c.o.sync_snr), 1_298_074_214_633_706_907_132_624_082_305_024, 6)
                + ","@
                + "dB"@
                + "\n"@,
        ),
        crate::text::shows(
            metrics_csv(c),
            "white_snr"@
                + ","@
                + crate::text::exact(c.o.white_snr as int, 1_298_074_214_633_706_907_132_624_082_305_024, 6)
                + ","@
                + crate::text::exact(c.d.white_snr as int, 1_298_074_214_633_706_907_132_624_082_305_024, 6)
                + ","@
                + crate::text::exact(crate::binary64::rounded(c.d.white_snr - c.o.white_snr), 1_298_074_214_633_706_907_132_624_082_305_024, 6)
                + ","@
                + "dB"@
                + "\n"@,
        ),
        crate::text::shows(
            metrics_csv(c),
            "chroma_snr"@
                + ","@
                + crate::text::exact(c.o.chroma_snr as int, 1_298_074_214_633_706_907_132_624_082_305_024, 6)
                + ","@
                + crate::text::exact(c.d.chroma_snr as int, 1_298_074_214_633_706_907_132_624_082_305_024, 6)
                + ","@
                + crate::text::exact(crate::binary64::rounded(c.d.chroma_snr - c.o.chroma_snr), 1_298_074_214_633_706_907_132_624_082_305_024, 6)
                + ","@
                + "dB"@
                + "\n"@,
        ),
{
    broadcast use {
        crate::text::law_text_shows_itself,
        crate::text::law_joined_texts_show_both,
        crate::text::law_endings_are_shown,
        crate::text::law_endings_grow,
        crate::text::law_last_part_is_an_ending,
    };

}

/// The metrics table has such a row for each floor, and for the equivalent bits.
pub proof fn law_table_shows_the_floors(c: Comparison<'_>)
    ensures
        crate::text::shows(
            metrics_csv(c),
            "luma_floor"@
                + ","@
                + crate::text::exact(c.o.luma_floor.level as int, 1_298_074_214_633_706_907_132_624_082_305_024, 6)
                + ","@
                + crate::text::exact(c.d.luma_floor.level as int, 1_298_074_214_633_706_907_132_624_082_305_024, 6)
                + ","@
                + crate::text::exact(crate::binary64::rounded(c.d.luma_floor.level - c.o.luma_floor.level), 1_298_074_214_633_706_907_132_624_082_305_024, 6)
                + ","@
                + "dB_mag"@
                + "\n"@,
        ),
        crate::text::shows(
            metrics_csv(c),
            "sync_floor"@
                + ","@
                + crate::text::exact(c.o.luma_floor.level as int, 1_298_074_214_633_706_907_132_624_082_305_024, 6)
                + ","@
                + crate::text::exact(c.d.luma_floor.level as int, 1_298_074_214_633_706_907_132_624_082_305_024, 6)
                + ","@
                + crate::text::exact(crate::binary64::rounded(c.d.luma_floor.level - c.o.luma_floor.level), 1_298_074_214_633_706_907_132_624_082_305_024, 6)
                + ","@
                + "dB_mag"@
                + "\n"@,
        ),
        crate::text::shows(
            metrics_csv(c),
            "white_floor"@
                + ","@
                + crate::text::exact(c.o.luma_floor.level as int, 1_298_074_214_633_706_907_132_624_082_305_024, 6)
                + ","@
                + crate::text::exact(c.d.luma_floor.level as int, 1_298_074_214_633_706_907_132_624_082_305_024, 6)
                + ","@
                + crate::text::exact(crate::binary64::rounded(c.d.luma_floor.level - c.o.luma_floor.level), 1_298_074_214_633_706_907_132_624_082_305_024, 6)
                + ","@
                + "dB_mag"@
                + "\n"@,
        ),
        crate::text::shows(
            metrics_csv(c),
            "chroma_floor"@
                + ","@
                + crate::text::exact(c.o.chroma_floor.level as int, 1_298_074_214_633_706_907_132_624_082_305_024, 6)
                + ","@
                + crate::text::exact(c.d.chroma_floor.level as int, 1_298_074_214_633_706_907_132_624_082_305_024, 6)
                + ","@
                + crate::text::exact(crate::binary64::rounded(c.d.chroma_floor.level - c.o.chroma_floor.level), 1_298_074_214_633_706_907_132_624_082_305_024, 6)
                + ","@
                + "dB_mag"@
                + "\n"@,
        ),
        crate::text::shows(
            metrics_csv(c),
            "enob,"@
                + crate::text::exact(c.o.enob as int, 1_298_074_214_633_706_907_132_624_082_305_024, 2)
                + ","@
                + crate::text::exact(c.d.enob as int, 1_298_074_214_633_706_907_132_624_082_305_024, 2)
                + ","@
                + crate::text::exact(crate::binary64::rounded(c.d.enob - c.o.enob), 1_298_074_214_633_706_907_132_624_082_305_024, 2)
                + ",bits\n"@,
        ),
{
    broadcast use {
        crate::text::law_text_shows_itself,
        crate::text::law_joined_texts_show_both,
        crate::text::law_endings_are_shown,
        crate::text::law_endings_grow,
        crate::text::law_last_part_is_an_ending,
    };

}

/// The decimation factor is the nearest integer of the quotient of the rates that were asked for.
pub proof fn law_factor_is_the_quotient_of_the_rates(orig_rate: u32, deci_rate: u32)
    ensures
        deci_rate > 0 ==> factor(orig_rate, deci_rate) == crate::text::decimal(
            orig_rate as nat,
            deci_rate as nat,
            0,
        ),
        deci_rate == 0 && orig_rate > 0 ==> factor(orig_rate, deci_rate) == "inf"@,
        deci_rate == 0 && orig_rate == 0 ==> factor(orig_rate, deci_rate) == "NaN"@,
{
}

/// The ceiling of a bit depth is printed from a number that is 6.02 times the depth and 1.76, but for
/// the 53 bits of each step. `CEILING_UNIT` of it make one.
pub proof fn law_ceiling_grows_with_the_depth(depth: u32)
    ensures
        exists|v: int|
            ceiling(depth) == #[trigger] crate::text::exact(v, 4_503_599_627_370_496, 1) && {
                let off = 100 * v - (602 * depth + 176) * 4_503_599_627_370_496;
                -0x1_0000_0000_0000 <= off <= 0x1_0000_0000_0000
            },
{
    let a = CEILING_PER_BIT * depth;
    let b = crate::binary64::rounded(a) + CEILING_OFFSET;
    lemma2_to64();
    lemma2_to64_rest();
    crate::binary64::law_rounding_error(a, 34);
    crate::binary64::law_rounding_error(b, 35);
    let v = crate::binary64::rounded(b);
    assert(ceiling(depth) == crate::text::exact(v, 4_503_599_627_370_496, 1));
}

/// The density table has a row for each bin: its frequency in hertz and its density, in the order of
/// the bins, behind a head that names the capture.
pub proof fn law_density_table_has_a_row_for_each_bin(label: Seq<char>, m: Metrics, i: int)
    requires
        0 <= i < m.bins(),
    ensures
        psd_csv(label, m) == "freq_hz,"@ + label + "_dbfs_hz\n"@ + crate::text::in_turn(
            density_lines(m),
        ),
        density_lines(m).len() == m.bins(),
        density_lines(m)[i] == crate::text::decimal((i * m.fft_bin) as nat, 2_097_152, 2) + ","@
            + crate::text::exact(
            m.psd_dbfs_hz@[i] as int,
            1_298_074_214_633_706_907_132_624_082_305_024,
            6,
        ) + "\n"@,
{
    lemma_psd_rows(m, m.bins() as int);
    assert(density_lines(m).take(m.bins() as int) =~= density_lines(m));
}

/// The rows of a density table.
pub open spec fn density_lines(m: Metrics) -> Seq<Seq<char>> {
    Seq::new(
        m.bins(),
        |i: int| hz(m.freq(i), 2) + ","@ + level(m.psd_dbfs_hz@[i] as int, 6) + "\n"@,
    )
}

proof fn lemma_psd_rows(m: Metrics, n: int)
    requires
        0 <= n <= m.bins(),
    ensures
        psd_rows(m, n) == crate::text::in_turn(density_lines(m).take(n)),
    decreases n,
{
    if n > 0 {
        lemma_psd_rows(m, n - 1);
        let all = density_lines(m).take(n);
        assert(all.drop_last() =~= density_lines(m).take(n - 1));
    }
}

} // verus!
