//! The results as JSON, for the window and for plots.

use crate::preset::Band;
use crate::report::{push_bits, push_factor, push_level};
use crate::spectrum::{floor_text, level_difference, Metrics, LEVEL_LIMIT};
use crate::summary::Comparison;
use crate::text::{push_decimal, push_digits};
use crate::welch::TICKS_PER_HZ;
use vstd::prelude::*;

verus! {

/// The comma before every item but the first.
pub open spec fn separator(i: int) -> Seq<char> {
    if i > 0 {
        ","@
    } else {
        Seq::empty()
    }
}

/// The first `n` levels with `places` decimals, separated by commas.
pub open spec fn level_items(levels: Seq<i128>, n: int, places: nat) -> Seq<char>
    decreases n,
{
    if n <= 0 {
        Seq::empty()
    } else {
        level_items(levels, n - 1, places) + (separator(n - 1) + crate::report::level(
            levels[n - 1] as int,
            places,
        ))
    }
}

/// The frequencies of the first `n` bins, separated by commas.
pub open spec fn freq_items(m: Metrics, n: int) -> Seq<char>
    decreases n,
{
    if n <= 0 {
        Seq::empty()
    } else {
        freq_items(m, n - 1) + (separator(n - 1) + crate::report::hz(m.freq(n - 1), 1))
    }
}

/// Appends levels, separated by commas.
pub(crate) fn push_level_items(out: &mut String, levels: &Vec<i128>, places: u32)
    requires
        places <= 9,
    ensures
        final(out)@ == old(out)@ + level_items(levels@, levels@.len() as int, places as nat),
{
    let ghost head = out@;
    let mut i: usize = 0;
    assert(head + level_items(levels@, 0, places as nat) =~= head);
    while i < levels.len()
        invariant
            places <= 9,
            i <= levels@.len(),
            out@ == head + level_items(levels@, i as int, places as nat),
        decreases levels@.len() - i,
    {
        let ghost before = out@;
        if i > 0 {
            out.append(",");
        }
        assert(out@ =~= before + separator(i as int));
        push_level(out, levels[i], places);
        i = i + 1;
        assert(out@ =~= head + level_items(levels@, i as int, places as nat));
    }
}

/// Appends the frequencies of all bins, separated by commas.
fn push_freq_items(out: &mut String, m: &Metrics)
    requires
        m.readable(),
    ensures
        final(out)@ == old(out)@ + freq_items(*m, m.bins() as int),
{
    let ghost head = out@;
    let mut i: usize = 0;
    assert(head + freq_items(*m, 0) =~= head);
    while i < m.psd_dbfs_hz.len()
        invariant
            m.readable(),
            i <= m.bins(),
            out@ == head + freq_items(*m, i as int),
        decreases m.bins() - i,
    {
        let ghost before = out@;
        if i > 0 {
            out.append(",");
        }
        assert(out@ =~= before + separator(i as int));
        push_decimal(out, m.frequency(i), TICKS_PER_HZ, 1);
        i = i + 1;
        assert(out@ =~= head + freq_items(*m, i as int));
    }
}

/// What was read of a capture.
pub open spec fn capture_member(name: Seq<char>, m: Metrics) -> Seq<char> {
    "  \""@ + name + "\": { \"rate\": "@ + crate::text::digits(m.sample_rate as nat)
        + ", \"bits\": "@ + crate::text::digits(m.bits as nat) + ", \"samples\": "@
        + crate::text::digits(m.num_samples as nat) + ", \"welch_segments\": "@
        + crate::text::digits(m.welch_segments as nat) + " },\n"@
}

fn push_capture_member(out: &mut String, name: &str, m: &Metrics)
    ensures
        final(out)@ == old(out)@ + capture_member(name@, *m),
{
    let mut s = "  \"".to_owned();
    s.append(name);
    s.append("\": { \"rate\": ");
    push_digits(&mut s, m.sample_rate as u128);
    s.append(", \"bits\": ");
    push_digits(&mut s, m.bits as u128);
    s.append(", \"samples\": ");
    push_digits(&mut s, m.num_samples as u128);
    s.append(", \"welch_segments\": ");
    push_digits(&mut s, m.welch_segments as u128);
    s.append(" },\n");
    out.append(s.as_str());
}

/// A ratio in both captures, and its change.
pub open spec fn ratio_member(name: Seq<char>, orig: int, deci: int) -> Seq<char> {
    "  \""@ + name + "\": { \"orig\": "@ + crate::report::level(orig, 4) + ", \"deci\": "@
        + crate::report::level(deci, 4) + ", \"delta\": "@ + crate::report::level(
        crate::spectrum::difference(deci, orig),
        4,
    )
        + " },\n"@
}

fn push_ratio_member(out: &mut String, name: &str, orig: i128, deci: i128)
    requires
        -2 * LEVEL_LIMIT <= orig <= 2 * LEVEL_LIMIT,
        -2 * LEVEL_LIMIT <= deci <= 2 * LEVEL_LIMIT,
    ensures
        final(out)@ == old(out)@ + ratio_member(name@, orig as int, deci as int),
{
    let mut s = "  \"".to_owned();
    s.append(name);
    s.append("\": { \"orig\": ");
    push_level(&mut s, orig, 4);
    s.append(", \"deci\": ");
    push_level(&mut s, deci, 4);
    s.append(", \"delta\": ");
    push_level(&mut s, level_difference(deci, orig), 4);
    s.append(" },\n");
    out.append(s.as_str());
}

/// A noise floor in both captures.
pub open spec fn floor_member(name: Seq<char>, orig: int, deci: int) -> Seq<char> {
    "  \""@ + name + "\": { \"orig\": "@ + crate::report::level(orig, 4) + ", \"deci\": "@
        + crate::report::level(deci, 4) + " },\n"@
}

fn push_floor_member(out: &mut String, name: &str, orig: i128, deci: i128)
    ensures
        final(out)@ == old(out)@ + floor_member(name@, orig as int, deci as int),
{
    let mut s = "  \"".to_owned();
    s.append(name);
    s.append("\": { \"orig\": ");
    push_level(&mut s, orig, 4);
    s.append(", \"deci\": ");
    push_level(&mut s, deci, 4);
    s.append(" },\n");
    out.append(s.as_str());
}

/// A carrier.
pub open spec fn peak_member(name: Seq<char>, v: int, freq: int) -> Seq<char> {
    "    \""@ + name + "\": { \"mag_db\": "@ + crate::report::level(v, 4) + ", \"freq_hz\": "@
        + crate::report::hz(freq, 2) + " }"@
}

fn push_peak_member(out: &mut String, name: &str, v: i128, freq: u64)
    ensures
        final(out)@ == old(out)@ + peak_member(name@, v as int, freq as int),
{
    let mut s = "    \"".to_owned();
    s.append(name);
    s.append("\": { \"mag_db\": ");
    push_level(&mut s, v, 4);
    s.append(", \"freq_hz\": ");
    push_decimal(&mut s, freq, TICKS_PER_HZ, 2);
    s.append(" }");
    out.append(s.as_str());
}

/// A band.
pub open spec fn band_member(name: Seq<char>, band: Band) -> Seq<char> {
    "    \""@ + name + "\": ["@ + crate::text::digits(band.f_start_hz as nat) + ", "@
        + crate::text::digits(band.f_stop_hz as nat) + "]"@
}

fn push_band_member(out: &mut String, name: &str, band: &Band)
    ensures
        final(out)@ == old(out)@ + band_member(name@, *band),
{
    let mut s = "    \"".to_owned();
    s.append(name);
    s.append("\": [");
    push_digits(&mut s, band.f_start_hz as u128);
    s.append(", ");
    push_digits(&mut s, band.f_stop_hz as u128);
    s.append("]");
    out.append(s.as_str());
}

/// The captures and their figures.
pub open spec fn figures(c: Comparison<'_>) -> Seq<char> {
    "{\n  \"version\": \""@ + c.version@ + "\",\n  \"standard\": \""@ + c.preset.name@
        + "\",\n  \"dec_factor\": "@ + crate::report::factor(c.orig_rate, c.deci_rate) + ",\n"@
        + capture_member("orig"@, *c.orig) + capture_member("deci"@, *c.deci)
        + ratio_member("luma_snr"@, c.o.luma_snr as int, c.d.luma_snr as int)
        + ratio_member("sync_snr"@, c.o.sync_snr as int, c.d.sync_snr as int)
        + ratio_member("white_snr"@, c.o.white_snr as int, c.d.white_snr as int)
        + ratio_member("chroma_snr"@, c.o.chroma_snr as int, c.d.chroma_snr as int)
        + floor_member("noise_floor_luma"@, c.o.luma_floor.level as int, c.d.luma_floor.level as int)
        + floor_member("noise_floor_sync"@, c.o.luma_floor.level as int, c.d.luma_floor.level as int)
        + floor_member("noise_floor_white"@, c.o.luma_floor.level as int, c.d.luma_floor.level as int)
        + floor_member("noise_floor_chroma"@, c.o.chroma_floor.level as int, c.d.chroma_floor.level as int)
        + "  \"noise_floor_chroma_method\": { \"orig\": \""@
        + crate::spectrum::floor_place(c.o.chroma_floor.freq as int) + "\", \"deci\": \""@
        + crate::spectrum::floor_place(c.d.chroma_floor.freq as int)
        + "\" },\n  \"enob\": { \"orig\": "@ + crate::report::bits(c.o.enob as int, 2)
        + ", \"deci\": "@ + crate::report::bits(c.d.enob as int, 2) + " },\n"@
}

fn figures_text(c: &Comparison<'_>) -> (s: String)
    requires
        c.wf(),
    ensures
        s@ == figures(*c),
{
    let mut s = "{\n  \"version\": \"".to_owned();
    s.append(c.version);
    s.append("\",\n  \"standard\": \"");
    s.append(c.preset.name);
    s.append("\",\n  \"dec_factor\": ");
    push_factor(&mut s, c.orig_rate, c.deci_rate);
    s.append(",\n");
    push_capture_member(&mut s, "orig", c.orig);
    push_capture_member(&mut s, "deci", c.deci);
    push_ratio_member(&mut s, "luma_snr", c.o.luma_snr, c.d.luma_snr);
    push_ratio_member(&mut s, "sync_snr", c.o.sync_snr, c.d.sync_snr);
    push_ratio_member(&mut s, "white_snr", c.o.white_snr, c.d.white_snr);
    push_ratio_member(&mut s, "chroma_snr", c.o.chroma_snr, c.d.chroma_snr);
    push_floor_member(&mut s, "noise_floor_luma", c.o.luma_floor.level, c.d.luma_floor.level);
    push_floor_member(&mut s, "noise_floor_sync", c.o.luma_floor.level, c.d.luma_floor.level);
    push_floor_member(&mut s, "noise_floor_white", c.o.luma_floor.level, c.d.luma_floor.level);
    push_floor_member(&mut s, "noise_floor_chroma", c.o.chroma_floor.level, c.d.chroma_floor.level);
    s.append("  \"noise_floor_chroma_method\": { \"orig\": \"");
    s.append(floor_text(c.o.chroma_floor.freq).as_str());
    s.append("\", \"deci\": \"");
    s.append(floor_text(c.d.chroma_floor.freq).as_str());
    s.append("\" },\n  \"enob\": { \"orig\": ");
    push_bits(&mut s, c.o.enob, 2);
    s.append(", \"deci\": ");
    push_bits(&mut s, c.d.enob, 2);
    s.append(" },\n");
    s
}

/// The carriers.
pub open spec fn carriers(c: Comparison<'_>) -> Seq<char> {
    "  \"carrier_peaks\": {\n"@
        + peak_member("luma_orig"@, c.o.luma_peak.level as int, c.o.luma_peak.freq as int) + ",\n"@
        + peak_member("luma_deci"@, c.d.luma_peak.level as int, c.d.luma_peak.freq as int) + ",\n"@
        + peak_member("sync_orig"@, c.o.sync_peak.level as int, c.o.sync_peak.freq as int) + ",\n"@
        + peak_member("sync_deci"@, c.d.sync_peak.level as int, c.d.sync_peak.freq as int) + ",\n"@
        + peak_member("white_orig"@, c.o.white_peak.level as int, c.o.white_peak.freq as int)
        + ",\n"@
        + peak_member("white_deci"@, c.d.white_peak.level as int, c.d.white_peak.freq as int)
        + ",\n"@
        + peak_member("chroma_orig"@, c.o.chroma_peak.level as int, c.o.chroma_peak.freq as int)
        + ",\n"@
        + peak_member("chroma_deci"@, c.d.chroma_peak.level as int, c.d.chroma_peak.freq as int)
        + "\n"@ + "  },\n"@
}

fn carriers_text(c: &Comparison<'_>) -> (s: String)
    requires
        c.wf(),
    ensures
        s@ == carriers(*c),
{
    let mut s = "  \"carrier_peaks\": {\n".to_owned();
    push_peak_member(&mut s, "luma_orig", c.o.luma_peak.level, c.o.luma_peak.freq);
    s.append(",\n");
    push_peak_member(&mut s, "luma_deci", c.d.luma_peak.level, c.d.luma_peak.freq);
    s.append(",\n");
    push_peak_member(&mut s, "sync_orig", c.o.sync_peak.level, c.o.sync_peak.freq);
    s.append(",\n");
    push_peak_member(&mut s, "sync_deci", c.d.sync_peak.level, c.d.sync_peak.freq);
    s.append(",\n");
    push_peak_member(&mut s, "white_orig", c.o.white_peak.level, c.o.white_peak.freq);
    s.append(",\n");
    push_peak_member(&mut s, "white_deci", c.d.white_peak.level, c.d.white_peak.freq);
    s.append(",\n");
    push_peak_member(&mut s, "chroma_orig", c.o.chroma_peak.level, c.o.chroma_peak.freq);
    s.append(",\n");
    push_peak_member(&mut s, "chroma_deci", c.d.chroma_peak.level, c.d.chroma_peak.freq);
    s.append("\n");
    s.append("  },\n");
    s
}

/// The spectra.
pub open spec fn plots(c: Comparison<'_>) -> Seq<char> {
    "  \"psd_freq_hz\": ["@ + freq_items(*c.orig, c.orig.bins() as int)
        + "],\n  \"psd_deci_freq_hz\": ["@ + freq_items(*c.deci, c.deci.bins() as int)
        + "],\n  \"psd_orig_dbfs_hz\": ["@
        + level_items(c.orig.psd_dbfs_hz@, c.orig.psd_dbfs_hz@.len() as int, 2)
        + "],\n  \"psd_deci_dbfs_hz\": ["@
        + level_items(c.deci.psd_dbfs_hz@, c.deci.psd_dbfs_hz@.len() as int, 2)
        + "],\n  \"plot_orig_mag_db\": ["@
        + level_items(c.orig.peak_mag_db@, c.orig.peak_mag_db@.len() as int, 2)
        + "],\n  \"plot_deci_mag_db\": ["@
        + level_items(c.deci.peak_mag_db@, c.deci.peak_mag_db@.len() as int, 2) + "],\n"@
}

fn plots_text(c: &Comparison<'_>) -> (s: String)
    requires
        c.wf(),
    ensures
        s@ == plots(*c),
{
    let mut s = "  \"psd_freq_hz\": [".to_owned();
    push_freq_items(&mut s, c.orig);
    s.append("],\n  \"psd_deci_freq_hz\": [");
    push_freq_items(&mut s, c.deci);
    s.append("],\n  \"psd_orig_dbfs_hz\": [");
    push_level_items(&mut s, &c.orig.psd_dbfs_hz, 2);
    s.append("],\n  \"psd_deci_dbfs_hz\": [");
    push_level_items(&mut s, &c.deci.psd_dbfs_hz, 2);
    s.append("],\n  \"plot_orig_mag_db\": [");
    push_level_items(&mut s, &c.orig.peak_mag_db, 2);
    s.append("],\n  \"plot_deci_mag_db\": [");
    push_level_items(&mut s, &c.deci.peak_mag_db, 2);
    s.append("],\n");
    s
}

/// The bands of the standard.
pub open spec fn bands(c: Comparison<'_>) -> Seq<char> {
    "  \"bands\": {\n"@ + band_member("luma_signal"@, c.preset.luma_signal)
        + ",\n    \"luma_sync_ref_hz\": "@ + crate::text::digits(c.preset.luma_sync_hz as nat)
        + ",\n    \"luma_white_ref_hz\": "@ + crate::text::digits(c.preset.luma_white_hz as nat)
        + ",\n"@ + band_member("chroma_signal"@, c.preset.chroma_signal) + ",\n"@
        + band_member("luma_noise_low"@, c.preset.luma_noise_low) + ",\n"@
        + band_member("luma_noise_high"@, c.preset.luma_noise_high) + ",\n"@
        + band_member("chroma_noise_low"@, c.preset.chroma_noise_low) + ",\n"@
        + band_member("chroma_noise_high"@, c.preset.chroma_noise_high) + "\n  }\n}\n"@
}

fn bands_text(c: &Comparison<'_>) -> (s: String)
    requires
        c.wf(),
    ensures
        s@ == bands(*c),
{
    let mut s = "  \"bands\": {\n".to_owned();
    push_band_member(&mut s, "luma_signal", &c.preset.luma_signal);
    s.append(",\n    \"luma_sync_ref_hz\": ");
    push_digits(&mut s, c.preset.luma_sync_hz as u128);
    s.append(",\n    \"luma_white_ref_hz\": ");
    push_digits(&mut s, c.preset.luma_white_hz as u128);
    s.append(",\n");
    push_band_member(&mut s, "chroma_signal", &c.preset.chroma_signal);
    s.append(",\n");
    push_band_member(&mut s, "luma_noise_low", &c.preset.luma_noise_low);
    s.append(",\n");
    push_band_member(&mut s, "luma_noise_high", &c.preset.luma_noise_high);
    s.append(",\n");
    push_band_member(&mut s, "chroma_noise_low", &c.preset.chroma_noise_low);
    s.append(",\n");
    push_band_member(&mut s, "chroma_noise_high", &c.preset.chroma_noise_high);
    s.append("\n  }\n}\n");
    s
}

/// The results of a comparison.
pub open spec fn results_json(c: Comparison<'_>) -> Seq<char> {
    figures(c) + carriers(c) + plots(c) + bands(c)
}

/// The results of a comparison.
pub fn results_json_text(c: &Comparison<'_>) -> (s: String)
    requires
        c.wf(),
    ensures
        s@ == results_json(*c),
{
    let mut s = figures_text(c);
    s.append(carriers_text(c).as_str());
    s.append(plots_text(c).as_str());
    s.append(bands_text(c).as_str());
    s
}

/// The results name the version, the standard and the decimation factor.
pub proof fn law_results_show_the_program_and_the_preset(c: Comparison<'_>)
    ensures
        crate::text::shows(
            results_json(c),
            "{\n  \"version\": \""@
                + c.version@
                + "\",\n  \"standard\": \""@
                + c.preset.name@
                + "\",\n  \"dec_factor\": "@
                + crate::report::factor(c.orig_rate, c.deci_rate)
                + ",\n"@,
        ),
{
    broadcast use {
        crate::text::law_text_shows_itself,
        crate::text::law_joined_texts_show_both,
        crate::text::law_endings_are_shown,
        crate::text::law_endings_grow,
        crate::text::law_last_part_is_an_ending,
    };

}

/// The results hold the rate, bit depth, samples and segments of each capture.
pub proof fn law_results_show_the_captures(c: Comparison<'_>)
    ensures
        crate::text::shows(
            results_json(c),
            "  \""@
                + "orig"@
                + "\": { \"rate\": "@
                + crate::text::digits(c.orig.sample_rate as nat)
                + ", \"bits\": "@
                + crate::text::digits(c.orig.bits as nat)
                + ", \"samples\": "@
                + crate::text::digits(c.orig.num_samples as nat)
                + ", \"welch_segments\": "@
                + crate::text::digits(c.orig.welch_segments as nat)
                + " },\n"@,
        ),
        crate::text::shows(
            results_json(c),
            "  \""@
                + "deci"@
                + "\": { \"rate\": "@
                + crate::text::digits(c.deci.sample_rate as nat)
                + ", \"bits\": "@
                + crate::text::digits(c.deci.bits as nat)
                + ", \"samples\": "@
                + crate::text::digits(c.deci.num_samples as nat)
                + ", \"welch_segments\": "@
                + crate::text::digits(c.deci.welch_segments as nat)
                + " },\n"@,
        ),
{
    broadcast use {
        crate::text::law_text_shows_itself,
        crate::text::law_joined_texts_show_both,
        crate::text::law_endings_are_shown,
        crate::text::law_endings_grow,
        crate::text::law_last_part_is_an_ending,
    };

}

/// The results hold each ratio of both captures, and how far that of the second is above that of the
/// first.
pub proof fn law_results_show_the_ratios(c: Comparison<'_>)
    ensures
        crate::text::shows(
            results_json(c),
            "  \""@
                + "luma_snr"@
                + "\": { \"orig\": "@
                + crate::text::exact(c.o.luma_snr as int, 1_298_074_214_633_706_907_132_624_082_305_024, 4)
                + ", \"deci\": "@
                + crate::text::exact(c.d.luma_snr as int, 1_298_074_214_633_706_907_132_624_082_305_024, 4)
                + ", \"delta\": "@
                + crate::text::exact(crate::binary64::rounded(c.d.luma_snr - c.o.luma_snr), 1_298_074_214_633_706_907_132_624_082_305_024, 4)
                + " },\n"@,
        ),
        crate::text::shows(
            results_json(c),
            "  \""@
                + "sync_snr"@
                + "\": { \"orig\": "@
                + crate::text::exact(c.o.sync_snr as int, 1_298_074_214_633_706_907_132_624_082_305_024, 4)
                + ", \"deci\": "@
                + crate::text::exact(c.d.sync_snr as int, 1_298_074_214_633_706_907_132_624_082_305_024, 4)
                + ", \"delta\": "@
                + crate::text::exact(crate::binary64::rounded(c.d.sync_snr - c.o.sync_snr), 1_298_074_214_633_706_907_132_624_082_305_024, 4)
                + " },\n"@,
        ),
        crate::text::shows(
            results_json(c),
            "  \""@
                + "white_snr"@
                + "\": { \"orig\": "@
                + crate::text::exact(c.o.white_snr as int, 1_298_074_214_633_706_907_132_624_082_305_024, 4)
                + ", \"deci\": "@
                + crate::text::exact(c.d.white_snr as int, 1_298_074_214_633_706_907_132_624_082_305_024, 4)
                + ", \"delta\": "@
                + crate::text::exact(crate::binary64::rounded(c.d.white_snr - c.o.white_snr), 1_298_074_214_633_706_907_132_624_082_305_024, 4)
                + " },\n"@,
        ),
        crate::text::shows(
            results_json(c),
            "  \""@
                + "chroma_snr"@
                + "\": { \"orig\": "@
                + crate::text::exact(c.o.chroma_snr as int, 1_298_074_214_633_706_907_132_624_082_305_024, 4)
                + ", \"deci\": "@
                + crate::text::exact(c.d.chroma_snr as int, 1_298_074_214_633_706_907_132_624_082_305_024, 4)
                + ", \"delta\": "@
                + crate::text::exact(crate::binary64::rounded(c.d.chroma_snr - c.o.chroma_snr), 1_298_074_214_633_706_907_132_624_082_305_024, 4)
                + " },\n"@,
        ),
{
    broadcast use {
        crate::text::law_text_shows_itself,
        crate::text::law_joined_texts_show_both,
        crate::text::law_endings_are_shown,
        crate::text::law_endings_grow,
        crate::text::law_last_part_is_an_ending,
    };

}

/// The results hold each floor of both captures, where the chroma floors are, and the equivalent
/// bits.
pub proof fn law_results_show_the_floors(c: Comparison<'_>)
    ensures
        crate::text::shows(
            results_json(c),
            "  \""@
                + "noise_floor_luma"@
                + "\": { \"orig\": "@
                + crate::text::exact(c.o.luma_floor.level as int, 1_298_074_214_633_706_907_132_624_082_305_024, 4)
                + ", \"deci\": "@
                + crate::text::exact(c.d.luma_floor.level as int, 1_298_074_214_633_706_907_132_624_082_305_024, 4)
                + " },\n"@,
        ),
        crate::text::shows(
            results_json(c),
            "  \""@
                + "noise_floor_sync"@
                + "\": { \"orig\": "@
                + crate::text::exact(c.o.luma_floor.level as int, 1_298_074_214_633_706_907_132_624_082_305_024, 4)
                + ", \"deci\": "@
                + crate::text::exact(c.d.luma_floor.level as int, 1_298_074_214_633_706_907_132_624_082_305_024, 4)
                + " },\n"@,
        ),
        crate::text::shows(
            results_json(c),
            "  \""@
                + "noise_floor_white"@
                + "\": { \"orig\": "@
                + crate::text::exact(c.o.luma_floor.level as int, 1_298_074_214_633_706_907_132_624_082_305_024, 4)
                + ", \"deci\": "@
                + crate::text::exact(c.d.luma_floor.level as int, 1_298_074_214_633_706_907_132_624_082_305_024, 4)
                + " },\n"@,
        ),
        crate::text::shows(
            results_json(c),
            "  \""@
                + "noise_floor_chroma"@
                + "\": { \"orig\": "@
                + crate::text::exact(c.o.chroma_floor.level as int, 1_298_074_214_633_706_907_132_624_082_305_024, 4)
                + ", \"deci\": "@
                + crate::text::exact(c.d.chroma_floor.level as int, 1_298_074_214_633_706_907_132_624_082_305_024, 4)
                + " },\n"@,
        ),
        crate::text::shows(
            results_json(c),
            "  \"noise_floor_chroma_method\": { \"orig\": \""@
                + crate::spectrum::floor_place(c.o.chroma_floor.freq as int)
                + "\", \"deci\": \""@
                + crate::spectrum::floor_place(c.d.chroma_floor.freq as int)
                + "\" },\n  \"enob\": { \"orig\": "@
                + crate::text::exact(c.o.enob as int, 1_298_074_214_633_706_907_132_624_082_305_024, 2)
                + ", \"deci\": "@
                + crate::text::exact(c.d.enob as int, 1_298_074_214_633_706_907_132_624_082_305_024, 2)
                + " },\n"@,
        ),
{
    broadcast use {
        crate::text::law_text_shows_itself,
        crate::text::law_joined_texts_show_both,
        crate::text::law_endings_are_shown,
        crate::text::law_endings_grow,
        crate::text::law_last_part_is_an_ending,
    };

}

/// The results hold each peak of each capture, level and place.
pub proof fn law_results_show_the_peaks(c: Comparison<'_>)
    ensures
        crate::text::shows(
            results_json(c),
            "    \""@
                + "luma_orig"@
                + "\": { \"mag_db\": "@
                + crate::text::exact(c.o.luma_peak.level as int, 1_298_074_214_633_706_907_132_624_082_305_024, 4)
                + ", \"freq_hz\": "@
                + crate::text::decimal(c.o.luma_peak.freq as nat, 2_097_152, 2)
                + " }"@,
        ),
        crate::text::shows(
            results_json(c),
            "    \""@
                + "luma_deci"@
                + "\": { \"mag_db\": "@
                + crate::text::exact(c.d.luma_peak.level as int, 1_298_074_214_633_706_907_132_624_082_305_024, 4)
                + ", \"freq_hz\": "@
                + crate::text::decimal(c.d.luma_peak.freq as nat, 2_097_152, 2)
                + " }"@,
        ),
        crate::text::shows(
            results_json(c),
            "    \""@
                + "sync_orig"@
                + "\": { \"mag_db\": "@
                + crate::text::exact(c.o.sync_peak.level as int, 1_298_074_214_633_706_907_132_624_082_305_024, 4)
                + ", \"freq_hz\": "@
                + crate::text::decimal(c.o.sync_peak.freq as nat, 2_097_152, 2)
                + " }"@,
        ),
        crate::text::shows(
            results_json(c),
            "    \""@
                + "sync_deci"@
                + "\": { \"mag_db\": "@
                + crate::text::exact(c.d.sync_peak.level as int, 1_298_074_214_633_706_907_132_624_082_305_024, 4)
                + ", \"freq_hz\": "@
                + crate::text::decimal(c.d.sync_peak.freq as nat, 2_097_152, 2)
                + " }"@,
        ),
        crate::text::shows(
            results_json(c),
            "    \""@
                + "white_orig"@
                + "\": { \"mag_db\": "@
                + crate::text::exact(c.o.white_peak.level as int, 1_298_074_214_633_706_907_132_624_082_305_024, 4)
                + ", \"freq_hz\": "@
                + crate::text::decimal(c.o.white_peak.freq as nat, 2_097_152, 2)
                + " }"@,
        ),
        crate::text::shows(
            results_json(c),
            "    \""@
                + "white_deci"@
                + "\": { \"mag_db\": "@
                + crate::text::exact(c.d.white_peak.level as int, 1_298_074_214_633_706_907_132_624_082_305_024, 4)
                + ", \"freq_hz\": "@
                + crate::text::decimal(c.d.white_peak.freq as nat, 2_097_152, 2)
                + " }"@,
        ),
        crate::text::shows(
            results_json(c),
            "    \""@
                + "chroma_orig"@
                + "\": { \"mag_db\": "@
                + crate::text::exact(c.o.chroma_peak.level as int, 1_298_074_214_633_706_907_132_624_082_305_024, 4)
                + ", \"freq_hz\": "@
                + crate::text::decimal(c.o.chroma_peak.freq as nat, 2_097_152, 2)
                + " }"@,
        ),
        crate::text::shows(
            results_json(c),
            "    \""@
                + "chroma_deci"@
                + "\": { \"mag_db\": "@
                + crate::text::exact(c.d.chroma_peak.level as int, 1_298_074_214_633_706_907_132_624_082_305_024, 4)
                + ", \"freq_hz\": "@
                + crate::text::decimal(c.d.chroma_peak.freq as nat, 2_097_152, 2)
                + " }"@,
        ),
{
    broadcast use {
        crate::text::law_text_shows_itself,
        crate::text::law_joined_texts_show_both,
        crate::text::law_endings_are_shown,
        crate::text::law_endings_grow,
        crate::text::law_last_part_is_an_ending,
    };

}

/// The results hold the edges of each band, and the places of sync and white.
pub proof fn law_results_show_the_bands(c: Comparison<'_>)
    ensures
        crate::text::shows(
            results_json(c),
            "    \""@
                + "luma_signal"@
                + "\": ["@
                + crate::text::digits(c.preset.luma_signal.f_start_hz as nat)
                + ", "@
                + crate::text::digits(c.preset.luma_signal.f_stop_hz as nat)
                + "]"@,
        ),
        crate::text::shows(
            results_json(c),
            "    \""@
                + "chroma_signal"@
                + "\": ["@
                + crate::text::digits(c.preset.chroma_signal.f_start_hz as nat)
                + ", "@
                + crate::text::digits(c.preset.chroma_signal.f_stop_hz as nat)
                + "]"@,
        ),
        crate::text::shows(
            results_json(c),
            "    \""@
                + "luma_noise_low"@
                + "\": ["@
                + crate::text::digits(c.preset.luma_noise_low.f_start_hz as nat)
                + ", "@
                + crate::text::digits(c.preset.luma_noise_low.f_stop_hz as nat)
                + "]"@,
        ),
        crate::text::shows(
            results_json(c),
            "    \""@
                + "luma_noise_high"@
                + "\": ["@
                + crate::text::digits(c.preset.luma_noise_high.f_start_hz as nat)
                + ", "@
                + crate::text::digits(c.preset.luma_noise_high.f_stop_hz as nat)
                + "]"@,
        ),
        crate::text::shows(
            results_json(c),
            "    \""@
                + "chroma_noise_low"@
                + "\": ["@
                + crate::text::digits(c.preset.chroma_noise_low.f_start_hz as nat)
                + ", "@
                + crate::text::digits(c.preset.chroma_noise_low.f_stop_hz as nat)
                + "]"@,
        ),
        crate::text::shows(
            results_json(c),
            "    \""@
                + "chroma_noise_high"@
                + "\": ["@
                + crate::text::digits(c.preset.chroma_noise_high.f_start_hz as nat)
                + ", "@
                + crate::text::digits(c.preset.chroma_noise_high.f_stop_hz as nat)
                + "]"@,
        ),
        crate::text::shows(
            results_json(c),
            ",\n    \"luma_sync_ref_hz\": "@
                + crate::text::digits(c.preset.luma_sync_hz as nat)
                + ",\n    \"luma_white_ref_hz\": "@
                + crate::text::digits(c.preset.luma_white_hz as nat)
                + ",\n"@,
        ),
{
    broadcast use {
        crate::text::law_text_shows_itself,
        crate::text::law_joined_texts_show_both,
        crate::text::law_endings_are_shown,
        crate::text::law_endings_grow,
        crate::text::law_last_part_is_an_ending,
    };

}

/// The texts of levels with `places` decimals, one for each.
pub open spec fn level_texts(levels: Seq<i128>, places: nat) -> Seq<Seq<char>> {
    Seq::new(levels.len(), |i: int| crate::text::exact(
        levels[i] as int,
        1_298_074_214_633_706_907_132_624_082_305_024,
        places,
    ))
}

/// The texts of the frequencies of a spectrum's bins in hertz, one for each.
pub open spec fn freq_texts(m: Metrics) -> Seq<Seq<char>> {
    Seq::new(m.bins(), |i: int| crate::text::decimal((i * m.fft_bin) as nat, 2_097_152, 1))
}

pub(crate) proof fn lemma_level_items(levels: Seq<i128>, n: int, places: nat)
    requires
        0 <= n <= levels.len(),
    ensures
        level_items(levels, n, places) == crate::text::with_commas(
            level_texts(levels, places).take(n),
        ),
    decreases n,
{
    let all = level_texts(levels, places).take(n);
    if n > 0 {
        lemma_level_items(levels, n - 1, places);
        assert(all.drop_last() =~= level_texts(levels, places).take(n - 1));
        assert(all.last() == crate::report::level(levels[n - 1] as int, places));
        lemma_one_more_item(all, level_items(levels, n - 1, places));
    }
}

proof fn lemma_freq_items(m: Metrics, n: int)
    requires
        0 <= n <= m.bins(),
    ensures
        freq_items(m, n) == crate::text::with_commas(freq_texts(m).take(n)),
    decreases n,
{
    let all = freq_texts(m).take(n);
    if n > 0 {
        lemma_freq_items(m, n - 1);
        assert(all.drop_last() =~= freq_texts(m).take(n - 1));
        assert(all.last() == crate::report::hz(m.freq(n - 1), 1));
        lemma_one_more_item(all, freq_items(m, n - 1));
    }
}

pub(crate) proof fn lemma_one_more_item(all: Seq<Seq<char>>, before: Seq<char>)
    requires
        all.len() > 0,
        before == crate::text::with_commas(all.drop_last()),
    ensures
        crate::text::with_commas(all) == before + (separator(all.len() - 1) + all.last()),
{
    reveal_strlit(",");
    if all.len() == 1 {
        assert(before + (separator(0) + all.last()) =~= all[0]);
    } else {
        assert(","@ =~= seq![',']);
        assert(before + (separator(all.len() - 1) + all.last()) =~= before + seq![',']
            + all.last());
    }
}

/// An item of a list holds no comma, so that a list has one comma fewer than it has items.
pub proof fn law_commas_count_the_items(levels: Seq<i128>, places: nat)
    requires
        levels.len() > 0,
    ensures
        crate::text::with_commas(level_texts(levels, places)).filter(|c: char| c == ',').len()
            == levels.len() - 1,
{
    assert forall|i: int| 0 <= i < levels.len() implies !(#[trigger] level_texts(
        levels,
        places,
    )[i]).contains(',') by {
        crate::text::lemma_exact_holds_no_comma(
            levels[i] as int,
            1_298_074_214_633_706_907_132_624_082_305_024,
            places,
        );
    }
    crate::text::lemma_commas_between(level_texts(levels, places));
}

/// The results hold the frequency, the density and the carrier magnitude of every bin of each capture,
/// each list as long as its own capture has bins.
pub proof fn law_results_plot_every_bin(c: Comparison<'_>)
    requires
        c.wf(),
    ensures
        freq_texts(*c.orig).len() == c.orig.bins(),
        freq_texts(*c.deci).len() == c.deci.bins(),
        level_texts(c.orig.psd_dbfs_hz@, 2).len() == c.orig.bins(),
        level_texts(c.deci.psd_dbfs_hz@, 2).len() == c.deci.bins(),
        level_texts(c.orig.peak_mag_db@, 2).len() == c.orig.bins(),
        level_texts(c.deci.peak_mag_db@, 2).len() == c.deci.bins(),
        crate::text::shows(
            results_json(c),
            "  \"psd_freq_hz\": ["@
                + crate::text::with_commas(freq_texts(*c.orig))
                + "],\n  \"psd_deci_freq_hz\": ["@,
        ),
        crate::text::shows(
            results_json(c),
            "],\n  \"psd_deci_freq_hz\": ["@
                + crate::text::with_commas(freq_texts(*c.deci))
                + "],\n  \"psd_orig_dbfs_hz\": ["@,
        ),
        crate::text::shows(
            results_json(c),
            "],\n  \"psd_orig_dbfs_hz\": ["@
                + crate::text::with_commas(level_texts(c.orig.psd_dbfs_hz@, 2))
                + "],\n  \"psd_deci_dbfs_hz\": ["@,
        ),
        crate::text::shows(
            results_json(c),
            "],\n  \"psd_deci_dbfs_hz\": ["@
                + crate::text::with_commas(level_texts(c.deci.psd_dbfs_hz@, 2))
                + "],\n  \"plot_orig_mag_db\": ["@,
        ),
        crate::text::shows(
            results_json(c),
            "],\n  \"plot_orig_mag_db\": ["@
                + crate::text::with_commas(level_texts(c.orig.peak_mag_db@, 2))
                + "],\n  \"plot_deci_mag_db\": ["@,
        ),
        crate::text::shows(
            results_json(c),
            "],\n  \"plot_deci_mag_db\": ["@
                + crate::text::with_commas(level_texts(c.deci.peak_mag_db@, 2))
                + "],\n"@,
        ),
{
    broadcast use {
        crate::text::law_text_shows_itself,
        crate::text::law_joined_texts_show_both,
        crate::text::law_endings_are_shown,
        crate::text::law_endings_grow,
        crate::text::law_last_part_is_an_ending,
    };

    lemma_freq_items(*c.orig, c.orig.bins() as int);
    assert(freq_texts(*c.orig).take(c.orig.bins() as int) =~= freq_texts(*c.orig));
    lemma_freq_items(*c.deci, c.deci.bins() as int);
    assert(freq_texts(*c.deci).take(c.deci.bins() as int) =~= freq_texts(*c.deci));
    lemma_level_items(c.orig.psd_dbfs_hz@, c.orig.psd_dbfs_hz@.len() as int, 2);
    assert(level_texts(c.orig.psd_dbfs_hz@, 2).take(c.orig.psd_dbfs_hz@.len() as int) =~= level_texts(c.orig.psd_dbfs_hz@, 2));
    lemma_level_items(c.deci.psd_dbfs_hz@, c.deci.psd_dbfs_hz@.len() as int, 2);
    assert(level_texts(c.deci.psd_dbfs_hz@, 2).take(c.deci.psd_dbfs_hz@.len() as int) =~= level_texts(c.deci.psd_dbfs_hz@, 2));
    lemma_level_items(c.orig.peak_mag_db@, c.orig.peak_mag_db@.len() as int, 2);
    assert(level_texts(c.orig.peak_mag_db@, 2).take(c.orig.peak_mag_db@.len() as int) =~= level_texts(c.orig.peak_mag_db@, 2));
    lemma_level_items(c.deci.peak_mag_db@, c.deci.peak_mag_db@.len() as int, 2);
    assert(level_texts(c.deci.peak_mag_db@, 2).take(c.deci.peak_mag_db@.len() as int) =~= level_texts(c.deci.peak_mag_db@, 2));
}

} // verus!
