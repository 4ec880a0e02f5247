//! The figures of one capture, and of two side by side.

use crate::binary64::{round, round_ratio};
use crate::preset::{FreqSpan, RfPreset};
use crate::spectrum::{
    guard_floor_mag_db, peak_in_span_mag_db, peak_in_span_mag_db_near_nominal, validated_floor,
    Metrics, Reading, LEVEL_LIMIT,
};
use crate::welch::TICKS_PER_HZ;
use vstd::prelude::*;

verus! {

/// Signal to noise ratio of an ideal converter of no bits: the binary64 number 1.76, in level units.
pub const QUANTIZATION_OFFSET: i128 = 2_284_610_617_755_324_168_082_633_430_925_312;

/// Decibels that one bit is worth: the binary64 number 6.02, times the 50th power of two.
pub const DB_PER_BIT: u64 = 6_777_917_439_192_596;

/// The 50th power of two.
pub const DB_PER_BIT_UNIT: u64 = 1_125_899_906_842_624;

/// The figures of one capture. Levels are in level units, frequencies in ticks.
#[derive(Clone, Copy, Debug)]
pub struct CaptureSummary {
    pub luma_peak: Reading,
    pub sync_peak: Reading,
    pub white_peak: Reading,
    pub chroma_peak: Reading,
    /// Floor of the guard band below the luma band.
    pub floor_low: i128,
    /// Floor of the guard band above the luma band.
    pub floor_high: i128,
    /// Noise floor of the luma band and its carriers.
    pub luma_floor: Reading,
    pub chroma_floor: Reading,
    pub luma_snr: i128,
    pub sync_snr: i128,
    pub white_snr: i128,
    pub chroma_snr: i128,
    /// Equivalent bits of the luma ratio; a bit counts as many units as a decibel.
    pub enob: i128,
    /// The carriers' distance from where the standard puts them.
    pub sync_offset: i64,
    pub white_offset: i64,
    pub chroma_offset: i64,
    /// From sync tip to peak white.
    pub deviation: i64,
    pub deviation_offset: i64,
}

/// The bits of an ideal converter with this signal to noise ratio: what it exceeds 1.76 dB by, in
/// units of 6.02 dB. A bit counts as many units as a decibel.
pub open spec fn equivalent_bits(snr: int) -> int {
    crate::binary64::rounded_ratio(
        crate::spectrum::difference(snr, QUANTIZATION_OFFSET as int),
        DB_PER_BIT_UNIT as nat,
        DB_PER_BIT as nat,
    )
}

/// The bits of an ideal converter with this signal to noise ratio.
pub fn enob(snr: i128) -> (r: i128)
    requires
        -3 * LEVEL_LIMIT <= snr <= 3 * LEVEL_LIMIT,
    ensures
        r == equivalent_bits(snr as int),
        -4 * LEVEL_LIMIT <= r <= 4 * LEVEL_LIMIT,
{
    proof {
        crate::spectrum::lemma_rounded_in_limits(snr - QUANTIZATION_OFFSET, 4);
    }
    let excess: i128 = round(snr - QUANTIZATION_OFFSET);
    proof {
        crate::spectrum::lemma_ratio_in_limits(
            excess as int,
            DB_PER_BIT_UNIT as nat,
            DB_PER_BIT as nat,
        );
    }
    round_ratio(excess, DB_PER_BIT_UNIT, DB_PER_BIT)
}

/// The bands that hold signal.
pub open spec fn signal_bands(preset: RfPreset) -> Seq<FreqSpan> {
    seq![
        crate::spectrum::span_of(preset.luma_signal),
        crate::spectrum::span_of(preset.chroma_signal),
    ]
}

/// Signal to noise ratio: how far a peak is above a floor.
pub open spec fn ratio(peak: Reading, floor: Reading) -> int {
    crate::spectrum::difference(peak.level as int, floor.level as int)
}

/// The strongest carrier in a band.
pub open spec fn strongest(m: Metrics, band: crate::preset::Band, r: Reading) -> bool {
    let k = m.peak_bin(crate::spectrum::span_of(band));
    r.level == m.peak_mag_db@[k] && r.freq == m.freq(k)
}

impl CaptureSummary {
    /// Every figure is what the spectrum shows by the preset: the peaks are the strongest carriers
    /// of their bands (for chroma the one about as strong that is nearest to its place), the floors
    /// are the noise floors of the guard bands (for chroma of the upper one alone), the ratios are
    /// peak over floor.
    pub open spec fn summarizes(&self, m: Metrics, preset: RfPreset) -> bool {
        let bands = signal_bands(preset);
        let low = crate::spectrum::span_of(preset.luma_noise_low);
        let high = crate::spectrum::span_of(preset.luma_noise_high);
        let chroma_guard = crate::spectrum::span_of(preset.chroma_noise_high);
        let chroma = m.nominal_bin(
            crate::spectrum::span_of(preset.chroma_signal),
            preset.chroma_carrier_hz * TICKS_PER_HZ,
        );
        &&& strongest(m, preset.luma_signal, self.luma_peak)
        &&& strongest(m, preset.luma_sync_band, self.sync_peak)
        &&& strongest(m, preset.luma_white_band, self.white_peak)
        &&& self.chroma_peak.level == m.peak_mag_db@[chroma]
        &&& self.chroma_peak.freq == m.freq(chroma)
        &&& self.floor_low == m.floor(low).0
        &&& self.floor_high == m.floor(high).0
        &&& (self.luma_floor.level as int, self.luma_floor.freq as int) == m.noise_floor(
            low,
            high,
            bands,
        )
        &&& (self.chroma_floor.level as int, self.chroma_floor.freq as int) == m.noise_floor(
            chroma_guard,
            chroma_guard,
            bands,
        )
        &&& self.derived(preset)
    }

    /// The figures that follow from peaks, floors and the preset.
    pub open spec fn derived(&self, preset: RfPreset) -> bool {
        &&& self.luma_snr == ratio(self.luma_peak, self.luma_floor)
        &&& self.sync_snr == ratio(self.sync_peak, self.luma_floor)
        &&& self.white_snr == ratio(self.white_peak, self.luma_floor)
        &&& self.chroma_snr == ratio(self.chroma_peak, self.chroma_floor)
        &&& self.enob == equivalent_bits(self.luma_snr as int)
        &&& self.sync_offset == self.sync_peak.freq - preset.luma_sync_hz * TICKS_PER_HZ
        &&& self.white_offset == self.white_peak.freq - preset.luma_white_hz * TICKS_PER_HZ
        &&& self.chroma_offset == self.chroma_peak.freq - preset.chroma_carrier_hz * TICKS_PER_HZ
        &&& self.deviation == self.white_peak.freq - self.sync_peak.freq
        &&& self.deviation_offset == self.deviation - (preset.luma_white_hz - preset.luma_sync_hz)
            * TICKS_PER_HZ
    }

    /// Figures that can be subtracted from one another.
    pub open spec fn in_limits(&self) -> bool {
        &&& -LEVEL_LIMIT <= self.luma_peak.level <= LEVEL_LIMIT
        &&& -LEVEL_LIMIT <= self.sync_peak.level <= LEVEL_LIMIT
        &&& -LEVEL_LIMIT <= self.white_peak.level <= LEVEL_LIMIT
        &&& -LEVEL_LIMIT <= self.chroma_peak.level <= LEVEL_LIMIT
        &&& -LEVEL_LIMIT <= self.floor_low <= LEVEL_LIMIT
        &&& -LEVEL_LIMIT <= self.floor_high <= LEVEL_LIMIT
        &&& -LEVEL_LIMIT <= self.luma_floor.level <= LEVEL_LIMIT
        &&& -LEVEL_LIMIT <= self.chroma_floor.level <= LEVEL_LIMIT
        &&& -2 * LEVEL_LIMIT <= self.luma_snr <= 2 * LEVEL_LIMIT
        &&& -2 * LEVEL_LIMIT <= self.sync_snr <= 2 * LEVEL_LIMIT
        &&& -2 * LEVEL_LIMIT <= self.white_snr <= 2 * LEVEL_LIMIT
        &&& -2 * LEVEL_LIMIT <= self.chroma_snr <= 2 * LEVEL_LIMIT
        &&& -4 * LEVEL_LIMIT <= self.enob <= 4 * LEVEL_LIMIT
    }
}

fn strongest_in(m: &Metrics, from_hz: u32, to_hz: u32) -> (r: Reading)
    requires
        m.readable(),
        m.bins() > 0,
        from_hz <= to_hz,
    ensures
        ({
            let k = m.peak_bin((FreqSpan { f_start_hz: from_hz, f_stop_hz: to_hz }));
            r.level == m.peak_mag_db@[k] && r.freq == m.freq(k)
        }),
        -LEVEL_LIMIT <= r.level <= LEVEL_LIMIT,
        r.freq <= 0x20_0000_0000_0000,
{
    let (level, freq) = peak_in_span_mag_db(
        m,
        FreqSpan { f_start_hz: from_hz, f_stop_hz: to_hz },
    );
    match level {
        Some(level) => Reading { level, freq },
        None => Reading { level: 0, freq },
    }
}

fn peak_over_floor(peak: Reading, floor: Reading) -> (snr: i128)
    requires
        -LEVEL_LIMIT <= peak.level <= LEVEL_LIMIT,
        -LEVEL_LIMIT <= floor.level <= LEVEL_LIMIT,
    ensures
        snr == ratio(peak, floor),
        -2 * LEVEL_LIMIT <= snr <= 2 * LEVEL_LIMIT,
{
    proof {
        crate::spectrum::lemma_rounded_in_limits(peak.level - floor.level, 2);
    }
    round(peak.level - floor.level)
}

fn place(hz: u32) -> (ticks: i64)
    ensures
        ticks == hz * TICKS_PER_HZ,
        0 <= ticks <= 0x20_0000_0000_0000,
{
    (hz as u64 * TICKS_PER_HZ) as i64
}

/// The figures of a capture by a preset.
pub fn summarize(m: &Metrics, preset: &RfPreset) -> (s: CaptureSummary)
    requires
        m.readable(),
        m.bins() > 0,
        preset.wf(),
    ensures
        s.summarizes(*m, *preset),
        s.in_limits(),
{
    let luma_span = FreqSpan {
        f_start_hz: preset.luma_signal.f_start_hz,
        f_stop_hz: preset.luma_signal.f_stop_hz,
    };
    let chroma_span = FreqSpan {
        f_start_hz: preset.chroma_signal.f_start_hz,
        f_stop_hz: preset.chroma_signal.f_stop_hz,
    };
    let signal: Vec<FreqSpan> = vec![luma_span, chroma_span];
    assert(signal@ =~= signal_bands(*preset));
    let luma_peak = strongest_in(m, luma_span.f_start_hz, luma_span.f_stop_hz);
    let sync_peak = strongest_in(
        m,
        preset.luma_sync_band.f_start_hz,
        preset.luma_sync_band.f_stop_hz,
    );
    let white_peak = strongest_in(
        m,
        preset.luma_white_band.f_start_hz,
        preset.luma_white_band.f_stop_hz,
    );
    let chroma_peak = peak_in_span_mag_db_near_nominal(
        m,
        chroma_span,
        preset.chroma_carrier_hz as u64 * TICKS_PER_HZ,
    );
    let floor_low: i128 = guard_floor_mag_db(m, &preset.luma_noise_low);
    let floor_high: i128 = guard_floor_mag_db(m, &preset.luma_noise_high);
    // The guard band below the chroma carrier shows the roll-off near zero frequency rather than
    // noise, so that the upper one stands for both.
    let chroma_floor = validated_floor(
        m,
        &preset.chroma_noise_high,
        &preset.chroma_noise_high,
        signal.as_slice(),
    );
    let luma_floor = validated_floor(
        m,
        &preset.luma_noise_low,
        &preset.luma_noise_high,
        signal.as_slice(),
    );
    let luma_snr: i128 = peak_over_floor(luma_peak, luma_floor);
    let deviation: i64 = white_peak.freq as i64 - sync_peak.freq as i64;
    CaptureSummary {
        luma_peak,
        sync_peak,
        white_peak,
        chroma_peak,
        floor_low,
        floor_high,
        luma_floor,
        chroma_floor,
        luma_snr,
        sync_snr: peak_over_floor(sync_peak, luma_floor),
        white_snr: peak_over_floor(white_peak, luma_floor),
        chroma_snr: peak_over_floor(chroma_peak, chroma_floor),
        enob: enob(luma_snr),
        sync_offset: sync_peak.freq as i64 - place(preset.luma_sync_hz),
        white_offset: white_peak.freq as i64 - place(preset.luma_white_hz),
        chroma_offset: chroma_peak.freq as i64 - place(preset.chroma_carrier_hz),
        deviation,
        deviation_offset: deviation - (place(preset.luma_white_hz) - place(preset.luma_sync_hz)),
    }
}

/// Two captures side by side.
pub struct Comparison<'a> {
    /// Of the program.
    pub version: &'a str,
    pub preset: &'a RfPreset,
    /// The sample rates that were asked for.
    pub orig_rate: u32,
    pub deci_rate: u32,
    pub orig: &'a Metrics,
    pub deci: &'a Metrics,
    pub o: CaptureSummary,
    pub d: CaptureSummary,
    /// From sync tip to peak white by the standard, in hertz.
    pub ref_deviation: i64,
}

impl<'a> Comparison<'a> {
    pub open spec fn wf(&self) -> bool {
        &&& self.orig.readable()
        &&& self.deci.readable()
        &&& self.orig.sample_rate > 0
        &&& self.deci.sample_rate > 0
        &&& self.orig.bins() > 0
        &&& self.deci.bins() > 0
        &&& self.preset.wf()
        &&& self.o.summarizes(*self.orig, *self.preset)
        &&& self.d.summarizes(*self.deci, *self.preset)
        &&& self.o.in_limits()
        &&& self.d.in_limits()
        &&& self.ref_deviation == self.preset.luma_white_hz - self.preset.luma_sync_hz
    }

    /// Measures two captures by a preset.
    pub fn new(
        version: &'a str,
        preset: &'a RfPreset,
        orig_rate: u32,
        deci_rate: u32,
        orig: &'a Metrics,
        deci: &'a Metrics,
    ) -> (c: Self)
        requires
            orig.readable(),
            deci.readable(),
            orig.sample_rate > 0,
            deci.sample_rate > 0,
            orig.bins() > 0,
            deci.bins() > 0,
            preset.wf(),
        ensures
            c.wf(),
            c.version == version,
            c.preset == preset,
            c.orig_rate == orig_rate,
            c.deci_rate == deci_rate,
            c.orig == orig,
            c.deci == deci,
    {
        Comparison {
            version,
            preset,
            orig_rate,
            deci_rate,
            orig,
            deci,
            o: summarize(orig, preset),
            d: summarize(deci, preset),
            ref_deviation: preset.luma_white_hz as i64 - preset.luma_sync_hz as i64,
        }
    }
}

/// Signal to noise ratios, equivalent bits and carrier frequencies do not depend on the gain of
/// a capture; those of chroma, unless rounding moves the level from which a chroma peak counts by
/// another amount.
pub proof fn law_gain_changes_no_ratio(
    m: Metrics,
    n: Metrics,
    gain: int,
    preset: RfPreset,
    s: CaptureSummary,
    t: CaptureSummary,
)
    requires
        m.readable(),
        n.readable(),
        m.bins() > 0,
        preset.wf(),
        crate::spectrum::is_gained(m, n, gain),
        s.summarizes(m, preset),
        t.summarizes(n, preset),
    ensures
        t.luma_snr == s.luma_snr,
        t.sync_snr == s.sync_snr,
        t.white_snr == s.white_snr,
        t.enob == s.enob,
        t.luma_peak.freq == s.luma_peak.freq,
        t.sync_peak.freq == s.sync_peak.freq,
        t.white_peak.freq == s.white_peak.freq,
        t.deviation == s.deviation,
        n.cutoff(crate::spectrum::span_of(preset.chroma_signal)) == m.cutoff(
            crate::spectrum::span_of(preset.chroma_signal),
        ) + gain ==> t.chroma_snr == s.chroma_snr && t.chroma_peak.freq == s.chroma_peak.freq,
{
    let nominal = preset.chroma_carrier_hz * TICKS_PER_HZ;
    let bands = signal_bands(preset);
    let luma = crate::spectrum::span_of(preset.luma_signal);
    let sync = crate::spectrum::span_of(preset.luma_sync_band);
    let white = crate::spectrum::span_of(preset.luma_white_band);
    let chroma = crate::spectrum::span_of(preset.chroma_signal);
    let low = crate::spectrum::span_of(preset.luma_noise_low);
    let high = crate::spectrum::span_of(preset.luma_noise_high);
    let guard = crate::spectrum::span_of(preset.chroma_noise_high);
    crate::spectrum::law_gain_keeps_peaks(m, n, gain, luma);
    crate::spectrum::law_gain_keeps_peaks(m, n, gain, sync);
    crate::spectrum::law_gain_keeps_peaks(m, n, gain, white);
    crate::spectrum::law_gain_keeps_floors(m, n, gain, low, high, bands);
    crate::spectrum::law_gain_keeps_floors(m, n, gain, guard, guard, bands);
    if n.cutoff(chroma) == m.cutoff(chroma) + gain {
        crate::spectrum::law_gain_keeps_nominal_peaks(m, n, gain, chroma, nominal);
    }
}

/// How far each figure of the second capture is above that of the first: the peaks, the ratios, the
/// floors and the equivalent bits, in the order of the metrics table.
pub open spec fn deltas(o: CaptureSummary, d: CaptureSummary) -> Seq<int> {
    seq![
        crate::spectrum::difference(d.luma_peak.level as int, o.luma_peak.level as int),
        crate::spectrum::difference(d.sync_peak.level as int, o.sync_peak.level as int),
        crate::spectrum::difference(d.white_peak.level as int, o.white_peak.level as int),
        crate::spectrum::difference(d.chroma_peak.level as int, o.chroma_peak.level as int),
        crate::spectrum::difference(d.luma_snr as int, o.luma_snr as int),
        crate::spectrum::difference(d.sync_snr as int, o.sync_snr as int),
        crate::spectrum::difference(d.white_snr as int, o.white_snr as int),
        crate::spectrum::difference(d.chroma_snr as int, o.chroma_snr as int),
        crate::spectrum::difference(d.luma_floor.level as int, o.luma_floor.level as int),
        crate::spectrum::difference(d.chroma_floor.level as int, o.chroma_floor.level as int),
        crate::spectrum::difference(d.enob as int, o.enob as int),
    ]
}

/// Two captures compared the other way round show the same figures in exchanged columns, and every
/// difference with the other sign.
pub proof fn law_exchange_negates_deltas(c: Comparison<'_>, e: Comparison<'_>)
    requires
        c.wf(),
        e.wf(),
        e.preset == c.preset,
        e.orig == c.deci,
        e.deci == c.orig,
    ensures
        e.o == c.d,
        e.d == c.o,
        deltas(e.o, e.d) == deltas(c.o, c.d).map_values(|x: int| -x),
{
    assert forall|a: int, b: int|
        #[trigger] crate::spectrum::difference(b, a) == -crate::spectrum::difference(a, b) by {
        crate::binary64::law_rounding_is_odd(a - b);
    }
    assert(deltas(e.o, e.d) =~= deltas(c.o, c.d).map_values(|x: int| -x));
}

/// The chroma floor is the lowest magnitude of the upper chroma guard band: a guard band is never
/// tilted against itself.
pub proof fn law_chroma_floor_is_upper_guard(m: Metrics, preset: RfPreset, s: CaptureSummary)
    requires
        s.summarizes(m, preset),
    ensures
        (s.chroma_floor.level as int, s.chroma_floor.freq as int) == m.floor(
            crate::spectrum::span_of(preset.chroma_noise_high),
        ),
{
    crate::binary64::law_small_integers_stay(0);
}

/// The span of a band has the band's edges.
pub proof fn law_spans_have_the_edges_of_their_bands(band: crate::preset::Band)
    ensures
        crate::spectrum::span_of(band).f_start_hz == band.f_start_hz,
        crate::spectrum::span_of(band).f_stop_hz == band.f_stop_hz,
{
}

/// The carriers of a capture are the first of the strongest bins of the luma band and of the regions
/// around sync and white: `luma`, `sync` and `white`.
pub proof fn law_summary_reads_the_strongest_bins(
    m: Metrics,
    preset: RfPreset,
    s: CaptureSummary,
    luma: int,
    sync: int,
    white: int,
)
    requires
        m.readable(),
        m.bins() > 0,
        preset.wf(),
        s.summarizes(m, preset),
        crate::spectrum::is_strongest(m, crate::spectrum::span_of(preset.luma_signal), luma),
        crate::spectrum::is_strongest(m, crate::spectrum::span_of(preset.luma_sync_band), sync),
        crate::spectrum::is_strongest(m, crate::spectrum::span_of(preset.luma_white_band), white),
    ensures
        s.luma_peak.level == m.peak_mag_db@[luma],
        s.luma_peak.freq == luma * m.fft_bin,
        s.sync_peak.level == m.peak_mag_db@[sync],
        s.sync_peak.freq == sync * m.fft_bin,
        s.white_peak.level == m.peak_mag_db@[white],
        s.white_peak.freq == white * m.fft_bin,
{
    lemma_strongest_is_peak(m, crate::spectrum::span_of(preset.luma_signal), luma);
    lemma_strongest_is_peak(m, crate::spectrum::span_of(preset.luma_sync_band), sync);
    lemma_strongest_is_peak(m, crate::spectrum::span_of(preset.luma_white_band), white);
}

proof fn lemma_strongest_is_peak(m: Metrics, span: FreqSpan, i: int)
    requires
        m.readable(),
        m.bins() > 0,
        span.f_start_hz <= span.f_stop_hz,
        crate::spectrum::is_strongest(m, span, i),
    ensures
        m.peak_bin(span) == i,
{
    crate::spectrum::law_peak_is_strongest(m, span);
    let k = m.peak_bin(span);
    assert(crate::spectrum::touches(m, span, k));
    assert(crate::spectrum::touches(m, span, i));
}

/// The guard floors of a capture are the lowest bins of the luma guard bands, `low` and `high`, and
/// its chroma floor is the lowest bin of the upper chroma guard band, `chroma`.
pub proof fn law_summary_reads_the_lowest_bins(
    m: Metrics,
    preset: RfPreset,
    s: CaptureSummary,
    low: int,
    high: int,
    chroma: int,
)
    requires
        m.readable(),
        m.bins() > 0,
        preset.wf(),
        s.summarizes(m, preset),
        crate::spectrum::is_lowest(m, crate::spectrum::span_of(preset.luma_noise_low), low),
        crate::spectrum::is_lowest(m, crate::spectrum::span_of(preset.luma_noise_high), high),
        crate::spectrum::is_lowest(m, crate::spectrum::span_of(preset.chroma_noise_high), chroma),
    ensures
        s.floor_low == m.mag_db@[low],
        s.floor_high == m.mag_db@[high],
        s.chroma_floor.level == m.mag_db@[chroma],
        s.chroma_floor.freq == chroma * m.fft_bin,
{
    crate::spectrum::law_floor_is_lowest(
        m,
        crate::spectrum::span_of(preset.luma_noise_low),
        low,
    );
    crate::spectrum::law_floor_is_lowest(
        m,
        crate::spectrum::span_of(preset.luma_noise_high),
        high,
    );
    crate::spectrum::law_floor_is_lowest(
        m,
        crate::spectrum::span_of(preset.chroma_noise_high),
        chroma,
    );
    law_chroma_floor_is_upper_guard(m, preset, s);
}

/// The luma floor of a capture is the noise floor of the luma guard bands, the luma and the chroma
/// band being signal; its chroma carrier is the strong one nearest to where the standard puts it.
pub proof fn law_summary_reads_floor_and_chroma(m: Metrics, preset: RfPreset, s: CaptureSummary)
    requires
        s.summarizes(m, preset),
    ensures
        ({
            let signal = seq![
                crate::spectrum::span_of(preset.luma_signal),
                crate::spectrum::span_of(preset.chroma_signal),
            ];
            let floor = m.noise_floor(
                crate::spectrum::span_of(preset.luma_noise_low),
                crate::spectrum::span_of(preset.luma_noise_high),
                signal,
            );
            let k = m.nominal_bin(
                crate::spectrum::span_of(preset.chroma_signal),
                preset.chroma_carrier_hz * 2_097_152,
            );
            &&& s.luma_floor.level == floor.0
            &&& s.luma_floor.freq == floor.1
            &&& s.chroma_peak.level == m.peak_mag_db@[k]
            &&& s.chroma_peak.freq == k * m.fft_bin
        }),
{
}

/// A signal to noise ratio is the peak above its floor: the luma floor for luma, sync and white, the
/// chroma floor for chroma. An offset is a carrier above where the standard puts it, a deviation
/// white above sync; 2097152 ticks make a hertz.
pub proof fn law_figures_are_differences(m: Metrics, preset: RfPreset, s: CaptureSummary)
    requires
        s.summarizes(m, preset),
    ensures
        s.luma_snr == crate::binary64::rounded(s.luma_peak.level - s.luma_floor.level),
        s.sync_snr == crate::binary64::rounded(s.sync_peak.level - s.luma_floor.level),
        s.white_snr == crate::binary64::rounded(s.white_peak.level - s.luma_floor.level),
        s.chroma_snr == crate::binary64::rounded(s.chroma_peak.level - s.chroma_floor.level),
        s.sync_offset + preset.luma_sync_hz * 2_097_152 == s.sync_peak.freq,
        s.white_offset + preset.luma_white_hz * 2_097_152 == s.white_peak.freq,
        s.chroma_offset + preset.chroma_carrier_hz * 2_097_152 == s.chroma_peak.freq,
        s.deviation + s.sync_peak.freq == s.white_peak.freq,
        s.deviation_offset == s.white_offset - s.sync_offset,
        s.enob == equivalent_bits(s.luma_snr as int),
{
}

/// 6.02 dB for each equivalent bit, and 1.76 dB, make the ratio, but for the 53 bits of each step: a
/// billionth of a decibel at most. A decibel has 1298074214633706907132624082305024 units.
pub proof fn law_bits_make_the_ratio(snr: int)
    requires
        -3_000 * 1_298_074_214_633_706_907_132_624_082_305_024 <= snr <= 3_000
            * 1_298_074_214_633_706_907_132_624_082_305_024,
    ensures
        -0x1_0000_0000_0000_0000_0000 <= 602 * equivalent_bits(snr) + 176
            * 1_298_074_214_633_706_907_132_624_082_305_024 - 100 * snr
            <= 0x1_0000_0000_0000_0000_0000,
{
    let exact = snr - QUANTIZATION_OFFSET;
    let x = crate::binary64::rounded(exact);
    crate::spectrum::lemma_rounded_in_limits(exact, 4);
    vstd::arithmetic::power2::lemma2_to64();
    vstd::arithmetic::power2::lemma2_to64_rest();
    vstd::arithmetic::power2::lemma_pow2_adds(64, 5);
    crate::binary64::law_rounding_error(exact, 69);
    crate::spectrum::lemma_ratio_in_limits(x, DB_PER_BIT_UNIT as nat, DB_PER_BIT as nat);
    let size = crate::binary64::magnitude(x);
    crate::binary64::law_whole_is_near(size * DB_PER_BIT_UNIT as nat, DB_PER_BIT as nat);
}

/// A comparison holds the figures of each capture on its own side.
pub proof fn law_sides_are_kept_apart(c: Comparison<'_>)
    requires
        c.wf(),
    ensures
        c.o.summarizes(*c.orig, *c.preset),
        c.d.summarizes(*c.deci, *c.preset),
        c.ref_deviation + c.preset.luma_sync_hz == c.preset.luma_white_hz,
{
}

} // verus!
