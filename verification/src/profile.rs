//! The noise profile of a capture chain.

use crate::json::push_level_items;
use crate::preset::{Band, RfPreset};
use crate::report::{push_level, TICKS_PER_KHZ};
use crate::spectrum::{level_difference, Metrics, LEVEL_LIMIT};
use crate::spurs::{detect_spurs, merge_spurs, noise_floor_dbfs, Spur, MAX_SPURS};
use crate::text::{push_decimal, push_digits};
use crate::welch::TICKS_PER_HZ;
use vstd::prelude::*;

verus! {

/// The noise of the converter alone and of the whole chain.
pub struct Profile<'a> {
    /// As asked for.
    pub orig_rate: u32,
    pub bits: u32,
    pub standard: &'a str,
    pub adc: &'a Metrics,
    pub chain: &'a Metrics,
    pub adc_spurs: Vec<Spur>,
    pub chain_spurs: Vec<Spur>,
    /// Those of both, each once.
    pub spurs: Vec<Spur>,
    pub adc_nsd_luma: i128,
    pub chain_nsd_luma: i128,
    pub adc_nsd_chroma: i128,
    pub chain_nsd_chroma: i128,
}

/// The bands in which a tone is no spur.
pub open spec fn excluded(preset: RfPreset) -> Seq<Band> {
    seq![preset.luma_signal, preset.chroma_signal]
}

/// The median density in the guard bands of luma.
pub open spec fn luma_density(m: Metrics, preset: RfPreset) -> i128 {
    crate::spurs::median(
        m.band_densities(preset.luma_noise_low) + m.band_densities(preset.luma_noise_high),
    )
}

/// The median density in the guard bands of chroma.
pub open spec fn chroma_density(m: Metrics, preset: RfPreset) -> i128 {
    crate::spurs::median(
        m.band_densities(preset.chroma_noise_low) + m.band_densities(preset.chroma_noise_high),
    )
}

impl<'a> Profile<'a> {
    /// The spectra are sound and the luma densities within the limit.
    pub open spec fn wf(&self) -> bool {
        &&& self.adc.readable()
        &&& self.chain.readable()
        &&& -LEVEL_LIMIT <= self.adc_nsd_luma <= LEVEL_LIMIT
        &&& -LEVEL_LIMIT <= self.chain_nsd_luma <= LEVEL_LIMIT
    }

    /// The figures are what the two spectra show by the preset.
    pub open spec fn profiles(&self, preset: RfPreset) -> bool {
        &&& crate::spurs::is_top(
            self.adc_spurs@,
            self.adc.all_spurs(excluded(preset)),
            MAX_SPURS as nat,
        )
        &&& crate::spurs::is_top(
            self.chain_spurs@,
            self.chain.all_spurs(excluded(preset)),
            MAX_SPURS as nat,
        )
        &&& self.spurs@ == crate::spurs::distinct_spurs(
            self.adc_spurs@ + self.chain_spurs@,
            self.adc.fft_bin as int,
        )
        &&& self.adc_nsd_luma == luma_density(*self.adc, preset)
        &&& self.chain_nsd_luma == luma_density(*self.chain, preset)
        &&& self.adc_nsd_chroma == chroma_density(*self.adc, preset)
        &&& self.chain_nsd_chroma == chroma_density(*self.chain, preset)
    }

    /// The rate, the bit depth and the standard are what was asked for; the bit depth of the
    /// converter's capture stands in for one that was not.
    pub open spec fn made_for(
        &self,
        orig_rate: u32,
        orig_bits: Option<u32>,
        standard: Seq<char>,
    ) -> bool {
        &&& self.orig_rate == orig_rate
        &&& self.standard@ == standard
        &&& self.bits == match orig_bits {
            Some(bits) => bits,
            None => self.adc.bits,
        }
    }

    /// The profile of a converter and a chain. The bit depth is the given one, else that of the
    /// converter's capture.
    pub fn new(
        orig_rate: u32,
        orig_bits: Option<u32>,
        standard: &'a str,
        preset: &RfPreset,
        adc: &'a Metrics,
        chain: &'a Metrics,
    ) -> (p: Self)
        requires
            adc.readable(),
            chain.readable(),
            adc.bins() > 0,
            chain.bins() > 0,
        ensures
            p.wf(),
            p.profiles(*preset),
            p.made_for(orig_rate, orig_bits, standard@),
            p.orig_rate == orig_rate,
            p.bits == match orig_bits {
                Some(bits) => bits,
                None => adc.bits,
            },
            p.standard == standard,
            p.adc == adc,
            p.chain == chain,
    {
        let exclude: Vec<Band> = vec![preset.luma_signal, preset.chroma_signal];
        assert(exclude@ =~= excluded(*preset));
        let adc_spurs = detect_spurs(adc, exclude.as_slice());
        let chain_spurs = detect_spurs(chain, exclude.as_slice());
        assert(adc.fft_bin <= adc.bins() * adc.fft_bin) by (nonlinear_arith)
            requires
                adc.bins() > 0,
                0 <= adc.fft_bin,
        ;
        let spurs = merge_spurs(&adc_spurs, &chain_spurs, adc.fft_bin);
        Profile {
            orig_rate,
            bits: match orig_bits {
                Some(bits) => bits,
                None => adc.bits,
            },
            standard,
            adc,
            chain,
            adc_spurs,
            chain_spurs,
            spurs,
            adc_nsd_luma: noise_floor_dbfs(adc, &preset.luma_noise_low, &preset.luma_noise_high),
            chain_nsd_luma: noise_floor_dbfs(
                chain,
                &preset.luma_noise_low,
                &preset.luma_noise_high,
            ),
            adc_nsd_chroma: noise_floor_dbfs(
                adc,
                &preset.chroma_noise_low,
                &preset.chroma_noise_high,
            ),
            chain_nsd_chroma: noise_floor_dbfs(
                chain,
                &preset.chroma_noise_low,
                &preset.chroma_noise_high,
            ),
        }
    }
}

/// A spur as JSON.
pub open spec fn spur_object(spur: Spur) -> Seq<char> {
    "{\"freq_hz\":"@ + crate::report::hz(spur.freq as int, 2) + ",\"amplitude_dbfs_hz\":"@
        + crate::report::level(spur.amplitude_dbfs_hz as int, 4) + "}"@
}

/// The first `n` spurs as JSON, separated by commas.
pub open spec fn spur_items(spurs: Seq<Spur>, n: int) -> Seq<char>
    decreases n,
{
    if n <= 0 {
        Seq::empty()
    } else {
        spur_items(spurs, n - 1) + (crate::json::separator(n - 1) + spur_object(spurs[n - 1]))
    }
}

fn push_spur_items(out: &mut String, spurs: &Vec<Spur>)
    ensures
        final(out)@ == old(out)@ + spur_items(spurs@, spurs@.len() as int),
{
    let ghost head = out@;
    let mut i: usize = 0;
    assert(head + spur_items(spurs@, 0) =~= head);
    while i < spurs.len()
        invariant
            i <= spurs@.len(),
            out@ == head + spur_items(spurs@, i as int),
        decreases spurs@.len() - i,
    {
        let ghost before = out@;
        if i > 0 {
            out.append(",");
        }
        assert(out@ =~= before + crate::json::separator(i as int));
        let mut s = "{\"freq_hz\":".to_owned();
        push_decimal(&mut s, spurs[i].freq, TICKS_PER_HZ, 2);
        s.append(",\"amplitude_dbfs_hz\":");
        push_level(&mut s, spurs[i].amplitude_dbfs_hz, 4);
        s.append("}");
        out.append(s.as_str());
        i = i + 1;
        assert(out@ =~= head + spur_items(spurs@, i as int));
    }
}

/// A spur in words.
pub open spec fn spur_line(spur: Spur) -> Seq<char> {
    "  "@ + crate::text::decimal(spur.freq as nat, TICKS_PER_KHZ as nat, 3) + " kHz at "@
        + crate::report::level(spur.amplitude_dbfs_hz as int, 2) + " dBFS/Hz\n"@
}

/// The first `n` spurs in words, one to a line.
pub open spec fn spur_lines(spurs: Seq<Spur>, n: int) -> Seq<char>
    decreases n,
{
    if n <= 0 {
        Seq::empty()
    } else {
        spur_lines(spurs, n - 1) + spur_line(spurs[n - 1])
    }
}

fn push_spur_lines(out: &mut String, spurs: &Vec<Spur>)
    ensures
        final(out)@ == old(out)@ + spur_lines(spurs@, spurs@.len() as int),
{
    let ghost head = out@;
    let mut i: usize = 0;
    assert(head + spur_lines(spurs@, 0) =~= head);
    while i < spurs.len()
        invariant
            i <= spurs@.len(),
            out@ == head + spur_lines(spurs@, i as int),
        decreases spurs@.len() - i,
    {
        let mut s = "  ".to_owned();
        push_decimal(&mut s, spurs[i].freq, TICKS_PER_KHZ, 3);
        s.append(" kHz at ");
        push_level(&mut s, spurs[i].amplitude_dbfs_hz, 2);
        s.append(" dBFS/Hz\n");
        out.append(s.as_str());
        i = i + 1;
        assert(out@ =~= head + spur_lines(spurs@, i as int));
    }
}

/// The profile as JSON.
pub open spec fn profile_json(c: Profile<'_>) -> Seq<char> {
    "{\n  \"version\": 1,\n  \"sample_rate\": "@ + crate::text::digits(c.orig_rate as nat)
        + ",\n  \"bits\": "@ + crate::text::digits(c.bits as nat) + ",\n  \"standard\": \""@
        + c.standard@ + "\",\n  \"fft_bin_hz\": "@ + crate::report::hz(c.adc.fft_bin as int, 4)
        + ",\n  \"adc_nsd_luma_dbfs_hz\": "@ + crate::report::level(c.adc_nsd_luma as int, 6)
        + ",\n  \"chain_nsd_luma_dbfs_hz\": "@ + crate::report::level(c.chain_nsd_luma as int, 6)
        + ",\n  \"adc_nsd_chroma_dbfs_hz\": "@ + crate::report::level(c.adc_nsd_chroma as int, 6)
        + ",\n  \"chain_nsd_chroma_dbfs_hz\": "@
        + crate::report::level(c.chain_nsd_chroma as int, 6) + ",\n  \"adc_psd_dbfs_hz\": ["@
        + crate::json::level_items(c.adc.psd_dbfs_hz@, c.adc.psd_dbfs_hz@.len() as int, 4)
        + "],\n  \"chain_psd_dbfs_hz\": ["@
        + crate::json::level_items(c.chain.psd_dbfs_hz@, c.chain.psd_dbfs_hz@.len() as int, 4)
        + "],\n  \"spurs\": ["@ + spur_items(c.spurs@, c.spurs@.len() as int) + "]\n}\n"@
}

/// The profile as JSON.
pub fn profile_json_text(c: &Profile<'_>) -> (s: String)
    requires
        c.wf(),
    ensures
        s@ == profile_json(*c),
{
    let mut s = "{\n  \"version\": 1,\n  \"sample_rate\": ".to_owned();
    push_digits(&mut s, c.orig_rate as u128);
    s.append(",\n  \"bits\": ");
    push_digits(&mut s, c.bits as u128);
    s.append(",\n  \"standard\": \"");
    s.append(c.standard);
    s.append("\",\n  \"fft_bin_hz\": ");
    push_decimal(&mut s, c.adc.fft_bin, TICKS_PER_HZ, 4);
    s.append(",\n  \"adc_nsd_luma_dbfs_hz\": ");
    push_level(&mut s, c.adc_nsd_luma, 6);
    s.append(",\n  \"chain_nsd_luma_dbfs_hz\": ");
    push_level(&mut s, c.chain_nsd_luma, 6);
    s.append(",\n  \"adc_nsd_chroma_dbfs_hz\": ");
    push_level(&mut s, c.adc_nsd_chroma, 6);
    s.append(",\n  \"chain_nsd_chroma_dbfs_hz\": ");
    push_level(&mut s, c.chain_nsd_chroma, 6);
    s.append(",\n  \"adc_psd_dbfs_hz\": [");
    push_level_items(&mut s, &c.adc.psd_dbfs_hz, 4);
    s.append("],\n  \"chain_psd_dbfs_hz\": [");
    push_level_items(&mut s, &c.chain.psd_dbfs_hz, 4);
    s.append("],\n  \"spurs\": [");
    push_spur_items(&mut s, &c.spurs);
    s.append("]\n}\n");
    s
}

/// What to tell of a profile saved at `path`.
pub open spec fn profile_log(c: Profile<'_>, path: Seq<char>) -> Seq<char> {
    "Calibration saved: "@ + path + "\nADC NSD luma:   "@
        + crate::report::level(c.adc_nsd_luma as int, 2) + " dBFS/Hz\nChain NSD luma: "@
        + crate::report::level(c.chain_nsd_luma as int, 2) + " dBFS/Hz\nVCR+amp luma:   "@
        + crate::report::level(
            crate::spectrum::difference(c.chain_nsd_luma as int, c.adc_nsd_luma as int),
            2,
        )
        + " dB above ADC\nADC NSD chroma: "@ + crate::report::level(c.adc_nsd_chroma as int, 2)
        + " dBFS/Hz\nChain NSD chroma:"@ + crate::report::level(c.chain_nsd_chroma as int, 2)
        + " dBFS/Hz\nSignal spurs found: "@ + crate::text::digits(c.spurs.len() as nat) + "\n"@
        + spur_lines(c.spurs@, c.spurs@.len() as int)
}

/// What to tell of a profile saved at `path`.
pub fn profile_log_text(c: &Profile<'_>, path: &str) -> (s: String)
    requires
        c.wf(),
    ensures
        s@ == profile_log(*c, path@),
{
    let mut s = "Calibration saved: ".to_owned();
    s.append(path);
    s.append("\nADC NSD luma:   ");
    push_level(&mut s, c.adc_nsd_luma, 2);
    s.append(" dBFS/Hz\nChain NSD luma: ");
    push_level(&mut s, c.chain_nsd_luma, 2);
    s.append(" dBFS/Hz\nVCR+amp luma:   ");
    push_level(&mut s, level_difference(c.chain_nsd_luma, c.adc_nsd_luma), 2);
    s.append(" dB above ADC\nADC NSD chroma: ");
    push_level(&mut s, c.adc_nsd_chroma, 2);
    s.append(" dBFS/Hz\nChain NSD chroma:");
    push_level(&mut s, c.chain_nsd_chroma, 2);
    s.append(" dBFS/Hz\nSignal spurs found: ");
    push_digits(&mut s, c.spurs.len() as u128);
    s.append("\n");
    push_spur_lines(&mut s, &c.spurs);
    s
}

/// What to hand to the window of a profile saved at `path`.
pub open spec fn profile_result(c: Profile<'_>, path: Seq<char>) -> Seq<char> {
    "PROFILING_COMPLETE\ncal_file="@ + path + "\nadc_nsd_luma="@
        + crate::report::level(c.adc_nsd_luma as int, 6) + "\nchain_nsd_luma="@
        + crate::report::level(c.chain_nsd_luma as int, 6) + "\nspurs_found="@
        + crate::text::digits(c.spurs.len() as nat) + "\n"@
}

/// What to hand to the window of a profile saved at `path`.
pub fn profile_result_text(c: &Profile<'_>, path: &str) -> (s: String)
    requires
        c.wf(),
    ensures
        s@ == profile_result(*c, path@),
{
    let mut s = "PROFILING_COMPLETE\ncal_file=".to_owned();
    s.append(path);
    s.append("\nadc_nsd_luma=");
    push_level(&mut s, c.adc_nsd_luma, 6);
    s.append("\nchain_nsd_luma=");
    push_level(&mut s, c.chain_nsd_luma, 6);
    s.append("\nspurs_found=");
    push_digits(&mut s, c.spurs.len() as u128);
    s.append("\n");
    s
}

/// A profile holds the rate, bit depth and standard, the converter's bin width, and the luma and chroma
/// noise densities of the converter and of the chain.
pub proof fn law_profile_shows_its_figures(p: Profile<'_>)
    ensures
        crate::text::shows(
            profile_json(p),
            "{\n  \"version\": 1,\n  \"sample_rate\": "@
                + crate::text::digits(p.orig_rate as nat)
                + ",\n  \"bits\": "@
                + crate::text::digits(p.bits as nat)
                + ",\n  \"standard\": \""@
                + p.standard@
                + "\",\n  \"fft_bin_hz\": "@
                + crate::text::decimal(p.adc.fft_bin as nat, 2_097_152, 4)
                + ",\n  \"adc_nsd_luma_dbfs_hz\": "@
                + crate::text::exact(p.adc_nsd_luma as int, 1_298_074_214_633_706_907_132_624_082_305_024, 6)
                + ",\n  \"chain_nsd_luma_dbfs_hz\": "@
                + crate::text::exact(p.chain_nsd_luma as int, 1_298_074_214_633_706_907_132_624_082_305_024, 6)
                + ",\n  \"adc_nsd_chroma_dbfs_hz\": "@
                + crate::text::exact(p.adc_nsd_chroma as int, 1_298_074_214_633_706_907_132_624_082_305_024, 6)
                + ",\n  \"chain_nsd_chroma_dbfs_hz\": "@
                + crate::text::exact(p.chain_nsd_chroma as int, 1_298_074_214_633_706_907_132_624_082_305_024, 6)
                + ",\n  \"adc_psd_dbfs_hz\": ["@,
        ),
{
    broadcast use {
        crate::text::law_text_shows_itself,
        crate::text::law_joined_texts_show_both,
        crate::text::law_endings_are_shown,
        crate::text::law_endings_grow,
        crate::text::law_last_part_is_an_ending,
    };

}

/// The texts of spurs, one for each: the frequency in hertz and the amplitude.
pub open spec fn spur_texts(spurs: Seq<Spur>) -> Seq<Seq<char>> {
    Seq::new(
        spurs.len(),
        |i: int|
            "{\"freq_hz\":"@ + crate::text::decimal(spurs[i].freq as nat, 2_097_152, 2)
                + ",\"amplitude_dbfs_hz\":"@ + crate::text::exact(
                spurs[i].amplitude_dbfs_hz as int,
                1_298_074_214_633_706_907_132_624_082_305_024,
                4,
            ) + "}"@,
    )
}

/// The lines about spurs, one for each: the frequency in kilohertz and the amplitude.
pub open spec fn spur_sentences(spurs: Seq<Spur>) -> Seq<Seq<char>> {
    Seq::new(
        spurs.len(),
        |i: int|
            "  "@ + crate::text::decimal(spurs[i].freq as nat, 2_097_152_000, 3) + " kHz at "@
                + crate::text::exact(
                spurs[i].amplitude_dbfs_hz as int,
                1_298_074_214_633_706_907_132_624_082_305_024,
                2,
            ) + " dBFS/Hz\n"@,
    )
}

proof fn lemma_spur_items(spurs: Seq<Spur>, n: int)
    requires
        0 <= n <= spurs.len(),
    ensures
        spur_items(spurs, n) == crate::text::with_commas(spur_texts(spurs).take(n)),
    decreases n,
{
    let all = spur_texts(spurs).take(n);
    if n > 0 {
        lemma_spur_items(spurs, n - 1);
        assert(all.drop_last() =~= spur_texts(spurs).take(n - 1));
        assert(all.last() == spur_object(spurs[n - 1]));
        crate::json::lemma_one_more_item(all, spur_items(spurs, n - 1));
    }
}

proof fn lemma_spur_lines(spurs: Seq<Spur>, n: int)
    requires
        0 <= n <= spurs.len(),
    ensures
        spur_lines(spurs, n) == crate::text::in_turn(spur_sentences(spurs).take(n)),
    decreases n,
{
    let all = spur_sentences(spurs).take(n);
    if n > 0 {
        lemma_spur_lines(spurs, n - 1);
        assert(all.drop_last() =~= spur_sentences(spurs).take(n - 1));
        assert(all.last() == spur_line(spurs[n - 1]));
    }
}

/// A profile holds the density of every bin of the converter and of the chain, and every spur.
pub proof fn law_profile_holds_every_bin_and_spur(p: Profile<'_>)
    ensures
        crate::text::shows(
            profile_json(p),
            ",\n  \"adc_psd_dbfs_hz\": ["@
                + crate::text::with_commas(crate::json::level_texts(p.adc.psd_dbfs_hz@, 4))
                + "],\n  \"chain_psd_dbfs_hz\": ["@
                + crate::text::with_commas(crate::json::level_texts(p.chain.psd_dbfs_hz@, 4))
                + "],\n  \"spurs\": ["@
                + crate::text::with_commas(spur_texts(p.spurs@))
                + "]\n}\n"@,
        ),
{
    broadcast use {
        crate::text::law_text_shows_itself,
        crate::text::law_joined_texts_show_both,
        crate::text::law_endings_are_shown,
        crate::text::law_endings_grow,
        crate::text::law_last_part_is_an_ending,
    };

    crate::json::lemma_level_items(p.adc.psd_dbfs_hz@, p.adc.psd_dbfs_hz@.len() as int, 4);
    assert(crate::json::level_texts(p.adc.psd_dbfs_hz@, 4).take(p.adc.psd_dbfs_hz@.len() as int) =~= crate::json::level_texts(p.adc.psd_dbfs_hz@, 4));
    crate::json::lemma_level_items(p.chain.psd_dbfs_hz@, p.chain.psd_dbfs_hz@.len() as int, 4);
    assert(crate::json::level_texts(p.chain.psd_dbfs_hz@, 4).take(p.chain.psd_dbfs_hz@.len() as int) =~= crate::json::level_texts(p.chain.psd_dbfs_hz@, 4));
    lemma_spur_items(p.spurs@, p.spurs@.len() as int);
    assert(spur_texts(p.spurs@).take(p.spurs@.len() as int) =~= spur_texts(p.spurs@));
}

/// The log tells where a profile was saved, the noise densities, how far the luma density of the chain
/// is above that of the converter, and every spur.
pub proof fn law_log_tells_the_profile(p: Profile<'_>, path: Seq<char>)
    ensures
        crate::text::shows(
            profile_log(p, path),
            "Calibration saved: "@
                + path
                + "\nADC NSD luma:   "@
                + crate::text::exact(p.adc_nsd_luma as int, 1_298_074_214_633_706_907_132_624_082_305_024, 2)
                + " dBFS/Hz\nChain NSD luma: "@
                + crate::text::exact(p.chain_nsd_luma as int, 1_298_074_214_633_706_907_132_624_082_305_024, 2)
                + " dBFS/Hz\nVCR+amp luma:   "@
                + crate::text::exact(crate::binary64::rounded(p.chain_nsd_luma - p.adc_nsd_luma), 1_298_074_214_633_706_907_132_624_082_305_024, 2)
                + " dB above ADC\nADC NSD chroma: "@
                + crate::text::exact(p.adc_nsd_chroma as int, 1_298_074_214_633_706_907_132_624_082_305_024, 2)
                + " dBFS/Hz\nChain NSD chroma:"@
                + crate::text::exact(p.chain_nsd_chroma as int, 1_298_074_214_633_706_907_132_624_082_305_024, 2)
                + " dBFS/Hz\nSignal spurs found: "@
                + crate::text::digits(p.spurs@.len() as nat)
                + "\n"@
                + crate::text::in_turn(spur_sentences(p.spurs@)),
        ),
{
    broadcast use {
        crate::text::law_text_shows_itself,
        crate::text::law_joined_texts_show_both,
        crate::text::law_endings_are_shown,
        crate::text::law_endings_grow,
        crate::text::law_last_part_is_an_ending,
    };

    lemma_spur_lines(p.spurs@, p.spurs@.len() as int);
    assert(spur_sentences(p.spurs@).take(p.spurs@.len() as int) =~= spur_sentences(p.spurs@));
}

/// The window is told where a profile was saved, the luma noise densities and the number of spurs.
pub proof fn law_result_tells_the_profile(p: Profile<'_>, path: Seq<char>)
    ensures
        crate::text::shows(
            profile_result(p, path),
            "PROFILING_COMPLETE\ncal_file="@
                + path
                + "\nadc_nsd_luma="@
                + crate::text::exact(p.adc_nsd_luma as int, 1_298_074_214_633_706_907_132_624_082_305_024, 6)
                + "\nchain_nsd_luma="@
                + crate::text::exact(p.chain_nsd_luma as int, 1_298_074_214_633_706_907_132_624_082_305_024, 6)
                + "\nspurs_found="@
                + crate::text::digits(p.spurs@.len() as nat)
                + "\n"@,
        ),
{
    broadcast use {
        crate::text::law_text_shows_itself,
        crate::text::law_joined_texts_show_both,
        crate::text::law_endings_are_shown,
        crate::text::law_endings_grow,
        crate::text::law_last_part_is_an_ending,
    };

}

/// A profile is made of the ten strongest spurs of each capture outside the luma and the chroma band,
/// those of the converter before those of the chain, and each once.
pub proof fn law_profile_merges_the_spurs_of_both(p: Profile<'_>, preset: RfPreset)
    requires
        p.profiles(preset),
    ensures
        crate::spurs::is_top(
            p.adc_spurs@,
            p.adc.all_spurs(seq![preset.luma_signal, preset.chroma_signal]),
            10,
        ),
        crate::spurs::is_top(
            p.chain_spurs@,
            p.chain.all_spurs(seq![preset.luma_signal, preset.chroma_signal]),
            10,
        ),
        p.spurs@ == crate::spurs::distinct_spurs(
            p.adc_spurs@ + p.chain_spurs@,
            p.adc.fft_bin as int,
        ),
{
}

/// The noise densities of a profile are the levels in the middle of the densities in the two luma
/// and the two chroma guard bands: `luma` and `chroma` are these densities of a capture in ascending
/// order.
pub proof fn law_densities_are_in_the_middle(
    m: Metrics,
    preset: RfPreset,
    luma: Seq<i128>,
    chroma: Seq<i128>,
)
    requires
        luma.to_multiset() == (m.band_densities(preset.luma_noise_low) + m.band_densities(
            preset.luma_noise_high,
        )).to_multiset(),
        chroma.to_multiset() == (m.band_densities(preset.chroma_noise_low) + m.band_densities(
            preset.chroma_noise_high,
        )).to_multiset(),
        forall|i: int, j: int| 0 <= i < j < luma.len() ==> luma[i] <= luma[j],
        forall|i: int, j: int| 0 <= i < j < chroma.len() ==> chroma[i] <= chroma[j],
        luma.len() > 0,
        chroma.len() > 0,
    ensures
        luma_density(m, preset) == luma[luma.len() as int / 2],
        chroma_density(m, preset) == chroma[chroma.len() as int / 2],
{
    let a = m.band_densities(preset.luma_noise_low) + m.band_densities(preset.luma_noise_high);
    let b = m.band_densities(preset.chroma_noise_low) + m.band_densities(preset.chroma_noise_high);
    luma.to_multiset_ensures();
    a.to_multiset_ensures();
    chroma.to_multiset_ensures();
    b.to_multiset_ensures();
    crate::spurs::law_median_is_in_the_middle(a, luma);
    crate::spurs::law_median_is_in_the_middle(b, chroma);
}

/// A profile keeps each capture's density on its own side, the rate and the standard as asked for,
/// and the given bit depth, that of the converter's capture without one.
pub proof fn law_profile_keeps_what_was_asked_for(
    p: Profile<'_>,
    orig_rate: u32,
    orig_bits: Option<u32>,
    standard: Seq<char>,
    preset: RfPreset,
)
    requires
        p.made_for(orig_rate, orig_bits, standard),
        p.profiles(preset),
    ensures
        p.orig_rate == orig_rate,
        p.standard@ == standard,
        orig_bits is Some ==> p.bits == orig_bits->0,
        orig_bits is None ==> p.bits == p.adc.bits,
        p.adc_nsd_luma == luma_density(*p.adc, preset),
        p.chain_nsd_luma == luma_density(*p.chain, preset),
        p.adc_nsd_chroma == chroma_density(*p.adc, preset),
        p.chain_nsd_chroma == chroma_density(*p.chain, preset),
{
}

} // verus!
