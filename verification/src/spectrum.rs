//! Reading carriers, noise floors and spurs off an averaged spectrum.
//!
//! Levels are whole numbers of a unit so small that every binary64 level that comes out of a
//! logarithm is one. What floating point rounds is rounded here to the same number. Frequencies are
//! whole numbers of ticks.

use crate::binary64::round;
use crate::preset::{Band, FreqSpan};
use crate::text::push_decimal;
use crate::welch::{bin_width, segment_size, Finished, TICKS_PER_HZ};
use vstd::arithmetic::power2::*;
use vstd::prelude::*;

verus! {

/// Level units in a decibel: the 110th power of two.
pub const LEVEL_PER_DB: i128 = 1_298_074_214_633_706_907_132_624_082_305_024;

/// No level is further from zero than a thousand decibels.
pub const LEVEL_LIMIT: i128 = 1_298_074_214_633_706_907_132_624_082_305_024_000;

/// What stands for the level of a band that holds no bin: -200 dB.
pub const EMPTY_BAND_LEVEL: i128 = -259_614_842_926_741_381_426_524_816_461_004_800;

/// Guard floors further apart than this, 6 dB, call for a sweep between them.
pub const GUARD_TILT_THRESHOLD: i128 = 7_788_445_287_802_241_442_795_744_493_830_144;

/// A bin this far, 0.25 dB, below the strongest one still counts as a peak.
pub const TIE_TOLERANCE: i128 = 324_518_553_658_426_726_783_156_020_576_256;

/// A spur stands out of the median by more than this, 10 dB.
pub const SPUR_THRESHOLD: i128 = 12_980_742_146_337_069_071_326_240_823_050_240;

/// The step of a sweep between guard bands, in hertz.
pub const SWEEP_STEP_HZ: u32 = 500_000;

/// The averaged spectrum of one capture.
pub struct Metrics {
    pub bits: u32,
    pub sample_rate: u32,
    pub num_samples: u64,
    pub welch_segments: u64,
    /// Length of the transform.
    pub nfft: usize,
    /// Width of a bin, in ticks.
    pub fft_bin: u64,
    /// Power density of each bin, relative to full scale and one hertz.
    pub psd_dbfs_hz: Vec<i128>,
    /// Magnitude of each bin, relative to full scale.
    pub mag_db: Vec<i128>,
    /// Magnitude of a carrier in each bin.
    pub peak_mag_db: Vec<i128>,
}

pub open spec fn in_limits(levels: Seq<i128>) -> bool {
    forall|i: int| 0 <= i < levels.len() ==> -LEVEL_LIMIT <= #[trigger] levels[i] <= LEVEL_LIMIT
}

/// Every level with a correction added.
pub open spec fn corrected(levels: Seq<i128>, correction: i128) -> Seq<i128> {
    levels.map_values(|v: i128| crate::binary64::rounded(v + correction) as i128)
}

/// How far level `a` is above level `b`.
pub open spec fn difference(a: int, b: int) -> int {
    crate::binary64::rounded(a - b)
}

/// A rounded level keeps within the limit, and within twice and three times the limit.
pub(crate) proof fn lemma_rounded_in_limits(x: int, times: int)
    requires
        1 <= times <= 4,
        -times * LEVEL_LIMIT <= x <= times * LEVEL_LIMIT,
    ensures
        -times * LEVEL_LIMIT <= crate::binary64::rounded(x) <= times * LEVEL_LIMIT,
{
    lemma_level_unit();
    let m = (1000 * times) as nat;
    assert(m * pow2(110) == times * LEVEL_LIMIT) by (nonlinear_arith)
        requires
            m == 1000 * times,
            pow2(110) == LEVEL_PER_DB,
            LEVEL_LIMIT == 1000 * LEVEL_PER_DB,
    ;
    assert(-times * LEVEL_LIMIT == -(times * LEVEL_LIMIT)) by (nonlinear_arith);
    crate::binary64::law_rounding_keeps_limits(x, m, 110);
}

/// A fraction of a level within four times the limit keeps within it.
pub(crate) proof fn lemma_ratio_in_limits(x: int, num: nat, den: nat)
    requires
        -4 * LEVEL_LIMIT <= x <= 4 * LEVEL_LIMIT,
        0 < num <= den,
    ensures
        -4 * LEVEL_LIMIT <= crate::binary64::rounded_ratio(x, num, den) <= 4 * LEVEL_LIMIT,
{
    lemma_level_unit();
    let size = crate::binary64::magnitude(x) * num;
    assert(size <= den * (4000 * pow2(110))) by (nonlinear_arith)
        requires
            size == crate::binary64::magnitude(x) * num,
            0 <= crate::binary64::magnitude(x) <= 4000 * pow2(110),
            0 < num <= den,
    ;
    crate::binary64::lemma_whole_keeps_limits(size, den, 4000, 110);
}

/// The difference of levels is exact where both are whole numbers of 2^-42 dB.
pub proof fn law_coarse_levels_differ_exactly(a: int, b: int)
    requires
        -LEVEL_LIMIT <= a <= LEVEL_LIMIT,
        -LEVEL_LIMIT <= b <= LEVEL_LIMIT,
        a % 0x10_0000_0000_0000_0000 == 0,
        b % 0x10_0000_0000_0000_0000 == 0,
    ensures
        difference(a, b) == a - b,
{
    let m = (a - b) / 0x10_0000_0000_0000_0000;
    lemma_level_unit();
    lemma_pow2_adds(67, 1);
    lemma2_to64();
    assert(a - b == m * 0x10_0000_0000_0000_0000);
    crate::binary64::law_binary64_numbers_stay(m, 68);
}

/// How far level `a` is above level `b`.
pub fn level_difference(a: i128, b: i128) -> (r: i128)
    requires
        -4 * LEVEL_LIMIT <= a <= 4 * LEVEL_LIMIT,
        -4 * LEVEL_LIMIT <= b <= 4 * LEVEL_LIMIT,
    ensures
        r == difference(a as int, b as int),
{
    round(a - b)
}

proof fn lemma_level_unit()
    ensures
        pow2(110) == LEVEL_PER_DB,
        LEVEL_LIMIT == 1000 * LEVEL_PER_DB,
        pow2(67) == 0x8_0000_0000_0000_0000,
{
    lemma2_to64();
    lemma2_to64_rest();
    lemma_pow2_adds(64, 46);
    lemma_pow2_adds(64, 3);
}

impl Metrics {
    /// A spectrum that can be read: as many levels of each kind, all within the limit, and
    /// frequencies that binary64 holds.
    pub open spec fn readable(&self) -> bool {
        &&& self.fft_bin > 0
        &&& self.bins() * self.fft_bin <= 0x20_0000_0000_0000
        &&& self.mag_db@.len() == self.psd_dbfs_hz@.len()
        &&& self.peak_mag_db@.len() == self.psd_dbfs_hz@.len()
        &&& in_limits(self.psd_dbfs_hz@)
        &&& in_limits(self.mag_db@)
        &&& in_limits(self.peak_mag_db@)
    }

    /// The readable spectrum of a capture: of a positive sample rate, with a bin for each half of
    /// the transform or with none.
    pub open spec fn wf(&self) -> bool {
        &&& self.readable()
        &&& self.sample_rate > 0
        &&& self.nfft == crate::welch::transform_length(self.sample_rate as nat)
        &&& self.fft_bin == crate::welch::bin_ticks(self.sample_rate as nat)
        &&& self.fft_bin * self.nfft == self.sample_rate * TICKS_PER_HZ
        &&& self.psd_dbfs_hz@.len() == 0 || self.psd_dbfs_hz@.len() == self.nfft as nat / 2
    }

    /// The number of bins.
    pub open spec fn bins(&self) -> nat {
        self.psd_dbfs_hz@.len()
    }

    /// The frequency of a bin, in ticks.
    pub open spec fn freq(&self, bin: int) -> int {
        bin * self.fft_bin
    }

    /// The last bin that does not lie above `hz`, or the last of all.
    pub open spec fn bin_at(&self, hz: u32) -> int {
        let k = hz * TICKS_PER_HZ / self.fft_bin as int;
        if k < self.bins() {
            k
        } else {
            self.bins() - 1
        }
    }

    /// The first bin that does not lie below `hz`, or the last of all.
    pub open spec fn bin_from(&self, hz: u32) -> int {
        let k = (hz * TICKS_PER_HZ + self.fft_bin - 1) / self.fft_bin as int;
        if k < self.bins() {
            k
        } else {
            self.bins() - 1
        }
    }

    /// The spectrum of a finished stream from its power density, the noise bandwidth of a bin and
    /// the correction for a carrier, as levels.
    pub open spec fn measures(
        &self,
        done: Finished,
        psd: Seq<i128>,
        bandwidth: i128,
        carrier: i128,
    ) -> bool {
        &&& self.bits == done.bits
        &&& self.sample_rate == done.sample_rate
        &&& self.num_samples == done.num_samples
        &&& self.welch_segments == done.welch_segments
        &&& self.psd_dbfs_hz@ == psd
        &&& self.mag_db@ == corrected(psd, bandwidth)
        &&& self.peak_mag_db@ == corrected(self.mag_db@, carrier)
    }

    /// The spectrum of a finished stream from its power density, the noise bandwidth of a bin and
    /// the correction for a carrier, as levels.
    pub fn new(done: &Finished, psd: Vec<i128>, bandwidth: i128, carrier: i128) -> (m: Metrics)
        requires
            done.sample_rate > 0,
            psd@.len() == 0 || psd@.len() == crate::welch::transform_length(
                done.sample_rate as nat,
            ) / 2,
            in_limits(psd@),
            forall|i: int|
                0 <= i < psd@.len() ==> {
                    &&& -LEVEL_LIMIT <= #[trigger] psd@[i] + bandwidth <= LEVEL_LIMIT
                    &&& -LEVEL_LIMIT <= crate::binary64::rounded(psd@[i] + bandwidth) + carrier
                        <= LEVEL_LIMIT
                },
        ensures
            m.wf(),
            m.measures(*done, psd@, bandwidth, carrier),
            m.bits == done.bits,
            m.sample_rate == done.sample_rate,
            m.num_samples == done.num_samples,
            m.welch_segments == done.welch_segments,
            m.psd_dbfs_hz@ == psd@,
            m.mag_db@ == corrected(psd@, bandwidth),
            m.peak_mag_db@ == corrected(m.mag_db@, carrier),
    {
        let nfft: usize = segment_size(done.sample_rate);
        let fft_bin: u64 = bin_width(done.sample_rate);
        let mut mag: Vec<i128> = Vec::with_capacity(psd.len());
        let mut peak: Vec<i128> = Vec::with_capacity(psd.len());
        let mut i: usize = 0;
        while i < psd.len()
            invariant
                i <= psd@.len(),
                mag@.len() == i,
                peak@.len() == i,
                forall|j: int|
                    0 <= j < psd@.len() ==> {
                        &&& -LEVEL_LIMIT <= #[trigger] psd@[j] + bandwidth <= LEVEL_LIMIT
                        &&& -LEVEL_LIMIT <= crate::binary64::rounded(psd@[j] + bandwidth) + carrier
                            <= LEVEL_LIMIT
                    },
                forall|j: int|
                    0 <= j < i ==> #[trigger] mag@[j] == crate::binary64::rounded(
                        psd@[j] + bandwidth,
                    ),
                forall|j: int|
                    0 <= j < i ==> #[trigger] peak@[j] == crate::binary64::rounded(
                        mag@[j] + carrier,
                    ),
                in_limits(mag@),
                in_limits(peak@),
            decreases psd@.len() - i,
        {
            assert(-LEVEL_LIMIT <= psd@[i as int] + bandwidth <= LEVEL_LIMIT);
            let level: i128 = round(psd[i] + bandwidth);
            proof {
                lemma_rounded_in_limits(psd@[i as int] + bandwidth, 1);
                lemma_rounded_in_limits(level + carrier, 1);
            }
            mag.push(level);
            peak.push(round(level + carrier));
            i = i + 1;
        }
        assert(mag@ =~= corrected(psd@, bandwidth));
        assert(peak@ =~= corrected(mag@, carrier));
        assert(psd@.len() * fft_bin <= 0x20_0000_0000_0000) by (nonlinear_arith)
            requires
                0 <= psd@.len() <= nfft,
                0 <= fft_bin,
                fft_bin * nfft == done.sample_rate * TICKS_PER_HZ,
                done.sample_rate * TICKS_PER_HZ <= 0x20_0000_0000_0000,
        ;
        Metrics {
            bits: done.bits,
            sample_rate: done.sample_rate,
            num_samples: done.num_samples,
            welch_segments: done.welch_segments,
            nfft,
            fft_bin,
            psd_dbfs_hz: psd,
            mag_db: mag,
            peak_mag_db: peak,
        }
    }

    /// The frequency of a bin, in ticks.
    pub fn frequency(&self, bin: usize) -> (ticks: u64)
        requires
            self.readable(),
            bin <= self.bins(),
        ensures
            ticks == self.freq(bin as int),
            ticks <= 0x20_0000_0000_0000,
    {
        assert(0 <= bin * self.fft_bin <= self.bins() * self.fft_bin) by (nonlinear_arith)
            requires
                0 <= bin <= self.bins(),
                0 <= self.fft_bin,
        ;
        bin as u64 * self.fft_bin
    }

    /// The first and the last bin to look at in a range of frequencies.
    pub fn bin_range(&self, from_hz: u32, to_hz: u32) -> (r: (usize, usize))
        requires
            self.readable(),
            self.bins() > 0,
        ensures
            r.0 == self.bin_at(from_hz),
            r.1 == self.bin_from(to_hz),
            r.0 < self.bins(),
            r.1 < self.bins(),
            from_hz <= to_hz ==> r.0 <= r.1,
    {
        assert(self.fft_bin <= self.bins() * self.fft_bin) by (nonlinear_arith)
            requires
                self.bins() > 0,
                0 <= self.fft_bin,
        ;
        let last: u64 = self.psd_dbfs_hz.len() as u64 - 1;
        let start: u64 = from_hz as u64 * TICKS_PER_HZ / self.fft_bin;
        let stop: u64 = (to_hz as u64 * TICKS_PER_HZ + self.fft_bin - 1) / self.fft_bin;
        proof {
            if from_hz <= to_hz {
                vstd::arithmetic::div_mod::lemma_div_is_ordered(
                    from_hz * TICKS_PER_HZ,
                    to_hz * TICKS_PER_HZ + self.fft_bin - 1,
                    self.fft_bin as int,
                );
            }
        }
        (
            (if start < last {
                start
            } else {
                last
            }) as usize,
            (if stop < last {
                stop
            } else {
                last
            }) as usize,
        )
    }
}

/// The first of the highest levels from `lo` to `hi`.
pub open spec fn first_max(levels: Seq<i128>, lo: int, hi: int) -> int
    decreases hi - lo,
{
    if hi <= lo {
        lo
    } else {
        let k = first_max(levels, lo, hi - 1);
        if levels[hi] > levels[k] {
            hi
        } else {
            k
        }
    }
}

/// The first of the lowest levels from `lo` to `hi`.
pub open spec fn first_min(levels: Seq<i128>, lo: int, hi: int) -> int
    decreases hi - lo,
{
    if hi <= lo {
        lo
    } else {
        let k = first_min(levels, lo, hi - 1);
        if levels[hi] < levels[k] {
            hi
        } else {
            k
        }
    }
}

/// No level from `lo` to `hi` is above that of `first_max`, and none before it reaches it.
pub proof fn law_first_max(levels: Seq<i128>, lo: int, hi: int)
    requires
        lo <= hi,
    ensures
        lo <= first_max(levels, lo, hi) <= hi,
        forall|i: int| lo <= i <= hi ==> #[trigger] levels[i] <= levels[first_max(levels, lo, hi)],
        forall|i: int|
            lo <= i < first_max(levels, lo, hi) ==> #[trigger] levels[i] < levels[first_max(
                levels,
                lo,
                hi,
            )],
    decreases hi - lo,
{
    if lo < hi {
        law_first_max(levels, lo, hi - 1);
    }
}

/// No level from `lo` to `hi` is below that of `first_min`, and none before it reaches it.
pub proof fn law_first_min(levels: Seq<i128>, lo: int, hi: int)
    requires
        lo <= hi,
    ensures
        lo <= first_min(levels, lo, hi) <= hi,
        forall|i: int| lo <= i <= hi ==> #[trigger] levels[i] >= levels[first_min(levels, lo, hi)],
        forall|i: int|
            lo <= i < first_min(levels, lo, hi) ==> #[trigger] levels[i] > levels[first_min(
                levels,
                lo,
                hi,
            )],
    decreases hi - lo,
{
    if lo < hi {
        law_first_min(levels, lo, hi - 1);
    }
}

fn index_of_max(levels: &Vec<i128>, lo: usize, hi: usize) -> (k: usize)
    requires
        lo <= hi < levels@.len(),
    ensures
        k == first_max(levels@, lo as int, hi as int),
        lo <= k <= hi,
{
    let mut k: usize = lo;
    let mut i: usize = lo;
    while i < hi
        invariant
            lo <= k <= i <= hi < levels@.len(),
            k == first_max(levels@, lo as int, i as int),
        decreases hi - i,
    {
        i = i + 1;
        if levels[i] > levels[k] {
            k = i;
        }
    }
    k
}

fn index_of_min(levels: &Vec<i128>, lo: usize, hi: usize) -> (k: usize)
    requires
        lo <= hi < levels@.len(),
    ensures
        k == first_min(levels@, lo as int, hi as int),
        lo <= k <= hi,
{
    let mut k: usize = lo;
    let mut i: usize = lo;
    while i < hi
        invariant
            lo <= k <= i <= hi < levels@.len(),
            k == first_min(levels@, lo as int, i as int),
        decreases hi - i,
    {
        i = i + 1;
        if levels[i] < levels[k] {
            k = i;
        }
    }
    k
}

/// The level and the frequency of a bin.
#[derive(Clone, Copy, Debug, PartialEq, Eq, Structural)]
pub struct Reading {
    pub level: i128,
    /// In ticks.
    pub freq: u64,
}

impl Metrics {
    /// The bins that are looked at in a range of frequencies, none where it runs downwards past a
    /// bin.
    pub open spec fn holds_bins(&self, from_hz: u32, to_hz: u32) -> bool {
        self.bin_at(from_hz) <= self.bin_from(to_hz)
    }

    /// The bin of the strongest carrier in a range of frequencies.
    pub open spec fn peak_bin(&self, span: FreqSpan) -> int {
        first_max(self.peak_mag_db@, self.bin_at(span.f_start_hz), self.bin_from(span.f_stop_hz))
    }

    /// The bin of the lowest magnitude in a band.
    pub open spec fn floor_bin(&self, band: FreqSpan) -> int {
        first_min(self.mag_db@, self.bin_at(band.f_start_hz), self.bin_from(band.f_stop_hz))
    }

    /// The lowest magnitude in a band, and where it is.
    pub open spec fn floor(&self, band: FreqSpan) -> (int, int) {
        if self.holds_bins(band.f_start_hz, band.f_stop_hz) {
            (self.mag_db@[self.floor_bin(band)] as int, self.freq(self.floor_bin(band)))
        } else {
            (EMPTY_BAND_LEVEL as int, self.freq(self.bin_at(band.f_start_hz)))
        }
    }
}

/// The strongest carrier in a range of frequencies: its magnitude, or `None` where the range holds
/// no bin, and its frequency in ticks.
pub fn peak_in_span_mag_db(m: &Metrics, span: FreqSpan) -> (r: (Option<i128>, u64))
    requires
        m.readable(),
        m.bins() > 0,
    ensures
        r.0 == if m.holds_bins(span.f_start_hz, span.f_stop_hz) {
            Some(m.peak_mag_db@[m.peak_bin(span)])
        } else {
            None
        },
        r.1 == m.freq(m.peak_bin(span)),
        span.f_start_hz <= span.f_stop_hz ==> r.0 is Some,
        r.0 matches Some(level) ==> -LEVEL_LIMIT <= level <= LEVEL_LIMIT,
        r.1 <= 0x20_0000_0000_0000,
{
    let (start, stop) = m.bin_range(span.f_start_hz, span.f_stop_hz);
    if start <= stop {
        let k: usize = index_of_max(&m.peak_mag_db, start, stop);
        (Some(m.peak_mag_db[k]), m.frequency(k))
    } else {
        (None, m.frequency(start))
    }
}

/// The distance of two frequencies.
pub open spec fn distance(a: int, b: int) -> int {
    if a < b {
        b - a
    } else {
        a - b
    }
}

/// Of the bins from `lo` to `hi` at or above `cutoff`, the first of those nearest to `nominal`.
pub open spec fn nearest_bin(
    m: Metrics,
    lo: int,
    hi: int,
    cutoff: int,
    nominal: int,
) -> Option<int>
    decreases hi - lo + 1,
{
    if hi < lo {
        None
    } else {
        let before = nearest_bin(m, lo, hi - 1, cutoff, nominal);
        if m.peak_mag_db@[hi] >= cutoff && (before matches Some(k) ==> distance(
            m.freq(hi),
            nominal,
        ) < distance(m.freq(k), nominal)) {
            Some(hi)
        } else {
            before
        }
    }
}

impl Metrics {
    /// The level from which a carrier is about as strong as the strongest in a range.
    pub open spec fn cutoff(&self, span: FreqSpan) -> int {
        difference(self.peak_mag_db@[self.peak_bin(span)] as int, TIE_TOLERANCE as int)
    }

    /// The bin of the carrier nearest to `nominal` among those about as strong as the strongest in
    /// the range, or the range's first bin where it holds none.
    pub open spec fn nominal_bin(&self, span: FreqSpan, nominal: int) -> int {
        let lo = self.bin_at(span.f_start_hz);
        let hi = self.bin_from(span.f_stop_hz);
        match nearest_bin(*self, lo, hi, self.cutoff(span), nominal) {
            Some(k) => k,
            None => lo,
        }
    }
}

/// Where the span holds a bin, the chosen bin lies in it, is no weaker than the strongest by more
/// than the tolerance, no other such bin is nearer to `nominal`, and none as near is lower.
pub proof fn law_nominal_bin(m: Metrics, span: FreqSpan, nominal: int)
    requires
        m.readable(),
        m.bins() > 0,
        m.holds_bins(span.f_start_hz, span.f_stop_hz),
    ensures
        ({
            let k = m.nominal_bin(span, nominal);
            let cutoff = m.cutoff(span);
            &&& m.bin_at(span.f_start_hz) <= k <= m.bin_from(span.f_stop_hz)
            &&& m.peak_mag_db@[k] >= cutoff
            &&& forall|i: int|
                m.bin_at(span.f_start_hz) <= i <= m.bin_from(span.f_stop_hz)
                    && #[trigger] m.peak_mag_db@[i] >= cutoff ==> distance(m.freq(k), nominal)
                    <= distance(m.freq(i), nominal) && (distance(m.freq(k), nominal) == distance(
                    m.freq(i),
                    nominal,
                ) ==> k <= i)
        }),
{
    let lo = m.bin_at(span.f_start_hz);
    let hi = m.bin_from(span.f_stop_hz);
    let cutoff = m.cutoff(span);
    law_first_max(m.peak_mag_db@, lo, hi);
    lemma_nearest_bin(m, lo, hi, cutoff, nominal);
    let top = m.peak_mag_db@[m.peak_bin(span)];
    lemma_level_unit();
    crate::binary64::law_rounding_error(top - TIE_TOLERANCE, 67);
    assert(top >= cutoff);
}

proof fn lemma_nearest_bin(m: Metrics, lo: int, hi: int, cutoff: int, nominal: int)
    ensures
        match nearest_bin(m, lo, hi, cutoff, nominal) {
            Some(k) => {
                &&& lo <= k <= hi
                &&& m.peak_mag_db@[k] >= cutoff
                &&& forall|i: int|
                    lo <= i <= hi && #[trigger] m.peak_mag_db@[i] >= cutoff ==> distance(
                        m.freq(k),
                        nominal,
                    ) <= distance(m.freq(i), nominal) && (distance(m.freq(k), nominal) == distance(
                        m.freq(i),
                        nominal,
                    ) ==> k <= i)
            },
            None => forall|i: int| lo <= i <= hi ==> #[trigger] m.peak_mag_db@[i] < cutoff,
        },
    decreases hi - lo + 1,
{
    if lo <= hi {
        lemma_nearest_bin(m, lo, hi - 1, cutoff, nominal);
    }
}

/// The carrier nearest to `nominal` (in ticks) among those in the range that are within the
/// tolerance of the strongest: its magnitude and its frequency.
pub fn peak_in_span_mag_db_near_nominal(m: &Metrics, span: FreqSpan, nominal: u64) -> (r: Reading)
    requires
        m.readable(),
        m.bins() > 0,
    ensures
        r.level == m.peak_mag_db@[m.nominal_bin(span, nominal as int)],
        r.freq == m.freq(m.nominal_bin(span, nominal as int)),
        -LEVEL_LIMIT <= r.level <= LEVEL_LIMIT,
        r.freq <= 0x20_0000_0000_0000,
{
    let (start, stop) = m.bin_range(span.f_start_hz, span.f_stop_hz);
    let mut best: usize = start;
    if start <= stop {
        let strongest: usize = index_of_max(&m.peak_mag_db, start, stop);
        let cutoff: i128 = round(m.peak_mag_db[strongest] - TIE_TOLERANCE);
        let bins: usize = m.peak_mag_db.len();
        let mut found = false;
        let mut best_dist: u64 = 0;
        let mut i: usize = start;
        while i <= stop
            invariant
                m.readable(),
                start <= i <= stop + 1,
                stop < bins == m.bins(),
                start <= best <= stop,
                found ==> nearest_bin(*m, start as int, i - 1, cutoff as int, nominal as int)
                    == Some(best as int),
                found ==> best_dist == distance(m.freq(best as int), nominal as int),
                !found ==> best == start && nearest_bin(
                    *m,
                    start as int,
                    i - 1,
                    cutoff as int,
                    nominal as int,
                ) is None,
            decreases stop + 1 - i,
        {
            if m.peak_mag_db[i] >= cutoff {
                let freq: u64 = m.frequency(i);
                let dist: u64 = if freq < nominal {
                    nominal - freq
                } else {
                    freq - nominal
                };
                if !found || dist < best_dist {
                    found = true;
                    best_dist = dist;
                    best = i;
                }
            }
            i = i + 1;
        }
    }
    Reading { level: m.peak_mag_db[best], freq: m.frequency(best) }
}

/// The span of a band.
pub open spec fn span_of(band: Band) -> FreqSpan {
    FreqSpan { f_start_hz: band.f_start_hz, f_stop_hz: band.f_stop_hz }
}

/// The lowest magnitude in a band.
pub fn guard_floor_mag_db(m: &Metrics, band: &Band) -> (level: i128)
    requires
        m.readable(),
        m.bins() > 0,
    ensures
        level == m.floor(span_of(*band)).0,
        -LEVEL_LIMIT <= level <= LEVEL_LIMIT,
{
    guard_floor_mag_db_with_freq(m, band).level
}

/// The lowest magnitude in a band, and the frequency where it is.
pub fn guard_floor_mag_db_with_freq(m: &Metrics, band: &Band) -> (r: Reading)
    requires
        m.readable(),
        m.bins() > 0,
    ensures
        (r.level as int, r.freq as int) == m.floor(span_of(*band)),
        -LEVEL_LIMIT <= r.level <= LEVEL_LIMIT,
        r.freq <= 0x20_0000_0000_0000,
{
    let (start, stop) = m.bin_range(band.f_start_hz, band.f_stop_hz);
    if start <= stop {
        let k: usize = index_of_min(&m.mag_db, start, stop);
        Reading { level: m.mag_db[k], freq: m.frequency(k) }
    } else {
        Reading { level: EMPTY_BAND_LEVEL, freq: m.frequency(start) }
    }
}

/// Whether a range of frequencies shares none with the signal bands.
pub open spec fn signal_free(span: FreqSpan, signal_bands: Seq<FreqSpan>) -> bool {
    forall|j: int|
        0 <= j < signal_bands.len() ==> !(span.f_start_hz < (
        #[trigger] signal_bands[j]).f_stop_hz && span.f_stop_hz > signal_bands[j].f_start_hz)
}

/// The sweep step that begins at `from_hz`.
pub open spec fn step_from(from_hz: u32, to_hz: u32) -> FreqSpan {
    FreqSpan {
        f_start_hz: from_hz,
        f_stop_hz: if from_hz + SWEEP_STEP_HZ < to_hz {
            (from_hz + SWEEP_STEP_HZ) as u32
        } else {
            to_hz
        },
    }
}

/// The `n`-th step of a sweep.
pub open spec fn sweep_step(from_hz: u32, to_hz: u32, n: nat) -> FreqSpan {
    step_from((from_hz + n * SWEEP_STEP_HZ) as u32, to_hz)
}

impl Metrics {
    /// The lowest of `best` and the floors of the signal-free steps between two frequencies, the
    /// first one found where several are equally low.
    pub open spec fn swept(
        &self,
        from_hz: u32,
        to_hz: u32,
        signal_bands: Seq<FreqSpan>,
        best: (int, int),
    ) -> (int, int)
        decreases to_hz - from_hz,
    {
        if from_hz >= to_hz {
            best
        } else {
            let step = step_from(from_hz, to_hz);
            let here = self.floor(step);
            let next = if signal_free(step, signal_bands) && here.0 < best.0 {
                here
            } else {
                best
            };
            self.swept(step.f_stop_hz, to_hz, signal_bands, next)
        }
    }

    /// The lower of the floors of two guard bands.
    pub open spec fn guard_floor(&self, low: FreqSpan, high: FreqSpan) -> (int, int) {
        if self.floor(low).0 <= self.floor(high).0 {
            self.floor(low)
        } else {
            self.floor(high)
        }
    }

    /// Whether the floors of two guard bands differ so much that neither is trusted alone.
    pub open spec fn tilted(&self, low: FreqSpan, high: FreqSpan) -> bool {
        crate::binary64::magnitude(difference(self.floor(high).0, self.floor(low).0))
            > GUARD_TILT_THRESHOLD
    }

    /// The noise floor around two guard bands: the lower of theirs or, where they are tilted, of
    /// theirs and those of the signal-free steps between them.
    pub open spec fn noise_floor(
        &self,
        low: FreqSpan,
        high: FreqSpan,
        signal_bands: Seq<FreqSpan>,
    ) -> (int, int) {
        if self.tilted(low, high) {
            self.swept(
                low.f_stop_hz,
                high.f_start_hz,
                signal_bands,
                self.guard_floor(low, high),
            )
        } else {
            self.guard_floor(low, high)
        }
    }
}

/// `reading` is the level and the frequency of a bin.
pub open spec fn is_measured(m: Metrics, reading: (int, int)) -> bool {
    exists|k: int|
        0 <= k < m.bins() && reading.0 == #[trigger] m.mag_db@[k] && reading.1 == m.freq(k)
}

proof fn lemma_floor_measured(m: Metrics, band: FreqSpan)
    requires
        m.readable(),
        m.bins() > 0,
        band.f_start_hz <= band.f_stop_hz,
    ensures
        m.holds_bins(band.f_start_hz, band.f_stop_hz),
        0 <= m.bin_at(band.f_start_hz),
        m.bin_from(band.f_stop_hz) < m.bins(),
        is_measured(m, m.floor(band)),
{
    vstd::arithmetic::div_mod::lemma_div_is_ordered(
        band.f_start_hz * TICKS_PER_HZ,
        band.f_stop_hz * TICKS_PER_HZ + m.fft_bin - 1,
        m.fft_bin as int,
    );
    vstd::arithmetic::div_mod::lemma_div_pos_is_pos(
        band.f_start_hz * TICKS_PER_HZ,
        m.fft_bin as int,
    );
    law_first_min(m.mag_db@, m.bin_at(band.f_start_hz), m.bin_from(band.f_stop_hz));
    assert(m.floor(band).0 == m.mag_db@[m.floor_bin(band)]);
}

proof fn lemma_swept(
    m: Metrics,
    from_hz: u32,
    to_hz: u32,
    signal_bands: Seq<FreqSpan>,
    best: (int, int),
)
    requires
        m.readable(),
        m.bins() > 0,
        is_measured(m, best),
    ensures
        is_measured(m, m.swept(from_hz, to_hz, signal_bands, best)),
        m.swept(from_hz, to_hz, signal_bands, best).0 <= best.0,
        forall|n: nat|
            from_hz + n * SWEEP_STEP_HZ < to_hz && signal_free(
                #[trigger] sweep_step(from_hz, to_hz, n),
                signal_bands,
            ) ==> m.swept(from_hz, to_hz, signal_bands, best).0 <= m.floor(
                sweep_step(from_hz, to_hz, n),
            ).0,
    decreases to_hz - from_hz,
{
    if from_hz < to_hz {
        let step = step_from(from_hz, to_hz);
        lemma_floor_measured(m, step);
        let here = m.floor(step);
        let next = if signal_free(step, signal_bands) && here.0 < best.0 {
            here
        } else {
            best
        };
        lemma_swept(m, step.f_stop_hz, to_hz, signal_bands, next);
        assert forall|n: nat|
            from_hz + n * SWEEP_STEP_HZ < to_hz && signal_free(
                #[trigger] sweep_step(from_hz, to_hz, n),
                signal_bands,
            ) implies m.swept(from_hz, to_hz, signal_bands, best).0 <= m.floor(
            sweep_step(from_hz, to_hz, n),
        ).0 by {
            if n == 0 {
                assert(sweep_step(from_hz, to_hz, n) == step);
            } else {
                assert(sweep_step(from_hz, to_hz, n) == sweep_step(
                    step.f_stop_hz,
                    to_hz,
                    (n - 1) as nat,
                ));
            }
        }
    }
}

/// A noise floor is no estimate: it is the magnitude of a bin, reported at that bin's frequency,
/// and no bin of either guard band lies below it nor, where the guard bands are tilted, the floor
/// of any signal-free step between them.
pub proof fn law_noise_floor_is_lowest(
    m: Metrics,
    low: FreqSpan,
    high: FreqSpan,
    signal_bands: Seq<FreqSpan>,
)
    requires
        m.readable(),
        m.bins() > 0,
        low.f_start_hz <= low.f_stop_hz,
        high.f_start_hz <= high.f_stop_hz,
    ensures
        is_measured(m, m.noise_floor(low, high, signal_bands)),
        forall|i: int|
            m.bin_at(low.f_start_hz) <= i <= m.bin_from(low.f_stop_hz) ==> m.noise_floor(
                low,
                high,
                signal_bands,
            ).0 <= #[trigger] m.mag_db@[i],
        forall|i: int|
            m.bin_at(high.f_start_hz) <= i <= m.bin_from(high.f_stop_hz) ==> m.noise_floor(
                low,
                high,
                signal_bands,
            ).0 <= #[trigger] m.mag_db@[i],
        m.tilted(low, high) ==> forall|n: nat|
            low.f_stop_hz + n * SWEEP_STEP_HZ < high.f_start_hz && signal_free(
                #[trigger] sweep_step(low.f_stop_hz, high.f_start_hz, n),
                signal_bands,
            ) ==> m.noise_floor(low, high, signal_bands).0 <= m.floor(
                sweep_step(low.f_stop_hz, high.f_start_hz, n),
            ).0,
{
    lemma_floor_measured(m, low);
    lemma_floor_measured(m, high);
    law_first_min(m.mag_db@, m.bin_at(low.f_start_hz), m.bin_from(low.f_stop_hz));
    law_first_min(m.mag_db@, m.bin_at(high.f_start_hz), m.bin_from(high.f_stop_hz));
    lemma_swept(m, low.f_stop_hz, high.f_start_hz, signal_bands, m.guard_floor(low, high));
}

fn is_signal_free(span: FreqSpan, signal_bands: &[FreqSpan]) -> (b: bool)
    ensures
        b == signal_free(span, signal_bands@),
{
    let mut j: usize = 0;
    while j < signal_bands.len()
        invariant
            j <= signal_bands@.len(),
            forall|k: int|
                0 <= k < j ==> !(span.f_start_hz < (#[trigger] signal_bands@[k]).f_stop_hz
                    && span.f_stop_hz > signal_bands@[k].f_start_hz),
        decreases signal_bands@.len() - j,
    {
        if span.f_start_hz < signal_bands[j].f_stop_hz && span.f_stop_hz
            > signal_bands[j].f_start_hz {
            return false;
        }
        j = j + 1;
    }
    true
}

/// The noise floor around two guard bands.
pub fn validated_floor(
    m: &Metrics,
    low_guard: &Band,
    high_guard: &Band,
    signal_bands: &[FreqSpan],
) -> (r: Reading)
    requires
        m.readable(),
        m.bins() > 0,
    ensures
        (r.level as int, r.freq as int) == m.noise_floor(
            span_of(*low_guard),
            span_of(*high_guard),
            signal_bands@,
        ),
        -LEVEL_LIMIT <= r.level <= LEVEL_LIMIT,
        r.freq <= 0x20_0000_0000_0000,
{
    let low = guard_floor_mag_db_with_freq(m, low_guard);
    let high = guard_floor_mag_db_with_freq(m, high_guard);
    proof {
        lemma_rounded_in_limits(high.level - low.level, 2);
    }
    let tilt: i128 = round(high.level - low.level);
    let mut best = if low.level <= high.level {
        low
    } else {
        high
    };
    if tilt > GUARD_TILT_THRESHOLD || tilt < -GUARD_TILT_THRESHOLD {
        let ghost first = (best.level as int, best.freq as int);
        let stop: u32 = high_guard.f_start_hz;
        let mut f: u32 = low_guard.f_stop_hz;
        while f < stop
            invariant
                m.readable(),
                m.bins() > 0,
                -LEVEL_LIMIT <= best.level <= LEVEL_LIMIT,
                best.freq <= 0x20_0000_0000_0000,
                m.swept(low_guard.f_stop_hz, stop, signal_bands@, first) == m.swept(
                    f,
                    stop,
                    signal_bands@,
                    (best.level as int, best.freq as int),
                ),
            decreases stop - f,
        {
            let f_end: u32 = if stop - f > SWEEP_STEP_HZ {
                f + SWEEP_STEP_HZ
            } else {
                stop
            };
            let span = FreqSpan { f_start_hz: f, f_stop_hz: f_end };
            assert(span == step_from(f, stop));
            if is_signal_free(span, signal_bands) {
                let here = guard_floor_mag_db_with_freq(
                    m,
                    &Band { name: "", f_start_hz: f, f_stop_hz: f_end },
                );
                if here.level < best.level {
                    best = here;
                }
            }
            f = f_end;
        }
    }
    best
}

/// Where a noise floor was found, in words.
pub open spec fn floor_place(freq: int) -> Seq<char> {
    "at "@ + crate::text::decimal(freq as nat, (1_000_000 * TICKS_PER_HZ) as nat, 2) + " MHz"@
}

/// The noise floor around two guard bands, and where it was found, in words.
pub fn validated_floor_mag_db(
    m: &Metrics,
    low_guard: &Band,
    high_guard: &Band,
    signal_bands: &[FreqSpan],
) -> (r: (i128, String))
    requires
        m.readable(),
        m.bins() > 0,
    ensures
        r.0 == m.noise_floor(span_of(*low_guard), span_of(*high_guard), signal_bands@).0,
        r.1@ == floor_place(
            m.noise_floor(span_of(*low_guard), span_of(*high_guard), signal_bands@).1,
        ),
{
    let floor = validated_floor(m, low_guard, high_guard, signal_bands);
    (floor.level, floor_text(floor.freq))
}

/// Where a noise floor at `freq` (in ticks) was found, in words.
pub fn floor_text(freq: u64) -> (r: String)
    ensures
        r@ == floor_place(freq as int),
{
    let mut place = "at ".to_owned();
    push_decimal(&mut place, freq, 1_000_000 * TICKS_PER_HZ, 2);
    place.append(" MHz");
    place
}

/// The same capture at another gain: every magnitude raised by the same amount.
pub open spec fn is_gained(m: Metrics, n: Metrics, gain: int) -> bool {
    &&& n.fft_bin == m.fft_bin
    &&& n.bins() == m.bins()
    &&& n.mag_db@.len() == m.mag_db@.len()
    &&& n.peak_mag_db@.len() == m.peak_mag_db@.len()
    &&& forall|i: int|
        0 <= i < m.bins() ==> #[trigger] n.mag_db@[i] == m.mag_db@[i] + gain
    &&& forall|i: int|
        0 <= i < m.bins() ==> #[trigger] n.peak_mag_db@[i] == m.peak_mag_db@[i] + gain
}

proof fn lemma_gained_max(m: Metrics, n: Metrics, gain: int, lo: int, hi: int)
    requires
        m.readable(),
        n.readable(),
        is_gained(m, n, gain),
        0 <= lo <= hi < m.bins(),
    ensures
        first_max(n.peak_mag_db@, lo, hi) == first_max(m.peak_mag_db@, lo, hi),
        lo <= first_max(m.peak_mag_db@, lo, hi) <= hi,
    decreases hi - lo,
{
    if lo < hi {
        lemma_gained_max(m, n, gain, lo, hi - 1);
        assert(n.peak_mag_db@[hi] == m.peak_mag_db@[hi] + gain);
    }
}

proof fn lemma_gained_min(m: Metrics, n: Metrics, gain: int, lo: int, hi: int)
    requires
        m.readable(),
        n.readable(),
        is_gained(m, n, gain),
        0 <= lo <= hi < m.bins(),
    ensures
        first_min(n.mag_db@, lo, hi) == first_min(m.mag_db@, lo, hi),
        lo <= first_min(m.mag_db@, lo, hi) <= hi,
    decreases hi - lo,
{
    if lo < hi {
        lemma_gained_min(m, n, gain, lo, hi - 1);
        assert(n.mag_db@[hi] == m.mag_db@[hi] + gain);
    }
}

proof fn lemma_gained_nearest(
    m: Metrics,
    n: Metrics,
    gain: int,
    lo: int,
    hi: int,
    cutoff: int,
    nominal: int,
)
    requires
        is_gained(m, n, gain),
        0 <= lo,
        hi < m.bins(),
        m.readable(),
        n.readable(),
    ensures
        nearest_bin(n, lo, hi, cutoff + gain, nominal) == nearest_bin(m, lo, hi, cutoff, nominal),
    decreases hi - lo + 1,
{
    if lo <= hi {
        lemma_gained_nearest(m, n, gain, lo, hi - 1, cutoff, nominal);
        assert(n.peak_mag_db@[hi] == m.peak_mag_db@[hi] + gain);
    }
}

/// Gain raises the strongest peak and leaves it where it is.
pub proof fn law_gain_keeps_peaks(m: Metrics, n: Metrics, gain: int, span: FreqSpan)
    requires
        m.readable(),
        n.readable(),
        m.bins() > 0,
        is_gained(m, n, gain),
        span.f_start_hz <= span.f_stop_hz,
    ensures
        n.peak_bin(span) == m.peak_bin(span),
        n.peak_mag_db@[n.peak_bin(span)] == m.peak_mag_db@[m.peak_bin(span)] + gain,
{
    lemma_floor_measured(m, span);
    lemma_gained_max(m, n, gain, m.bin_at(span.f_start_hz), m.bin_from(span.f_stop_hz));
}

/// Gain raises the peak nearest to its place and leaves it where it is, unless rounding moves the
/// level from which a peak counts by another amount.
pub proof fn law_gain_keeps_nominal_peaks(
    m: Metrics,
    n: Metrics,
    gain: int,
    span: FreqSpan,
    nominal: int,
)
    requires
        m.readable(),
        n.readable(),
        m.bins() > 0,
        is_gained(m, n, gain),
        span.f_start_hz <= span.f_stop_hz,
        n.cutoff(span) == m.cutoff(span) + gain,
    ensures
        n.nominal_bin(span, nominal) == m.nominal_bin(span, nominal),
        n.peak_mag_db@[n.nominal_bin(span, nominal)] == m.peak_mag_db@[m.nominal_bin(span, nominal)]
            + gain,
{
    lemma_floor_measured(m, span);
    let lo = m.bin_at(span.f_start_hz);
    let hi = m.bin_from(span.f_stop_hz);
    lemma_gained_nearest(m, n, gain, lo, hi, m.cutoff(span), nominal);
    lemma_nearest_bin(m, lo, hi, m.cutoff(span), nominal);
}

proof fn lemma_gained_floor(m: Metrics, n: Metrics, gain: int, band: FreqSpan)
    requires
        m.readable(),
        n.readable(),
        m.bins() > 0,
        is_gained(m, n, gain),
        band.f_start_hz <= band.f_stop_hz,
    ensures
        n.floor(band) == (m.floor(band).0 + gain, m.floor(band).1),
{
    lemma_floor_measured(m, band);
    lemma_gained_min(m, n, gain, m.bin_at(band.f_start_hz), m.bin_from(band.f_stop_hz));
}

proof fn lemma_gained_sweep(
    m: Metrics,
    n: Metrics,
    gain: int,
    from_hz: u32,
    to_hz: u32,
    signal_bands: Seq<FreqSpan>,
    best: (int, int),
)
    requires
        m.readable(),
        n.readable(),
        m.bins() > 0,
        is_gained(m, n, gain),
    ensures
        ({
            let r = m.swept(from_hz, to_hz, signal_bands, best);
            n.swept(from_hz, to_hz, signal_bands, (best.0 + gain, best.1)) == (r.0 + gain, r.1)
        }),
    decreases to_hz - from_hz,
{
    if from_hz < to_hz {
        let step = step_from(from_hz, to_hz);
        lemma_gained_floor(m, n, gain, step);
        let here = m.floor(step);
        let next = if signal_free(step, signal_bands) && here.0 < best.0 {
            here
        } else {
            best
        };
        lemma_gained_sweep(m, n, gain, step.f_stop_hz, to_hz, signal_bands, next);
    }
}

/// Gain raises a noise floor and leaves it where it is.
pub proof fn law_gain_keeps_floors(
    m: Metrics,
    n: Metrics,
    gain: int,
    low: FreqSpan,
    high: FreqSpan,
    signal_bands: Seq<FreqSpan>,
)
    requires
        m.readable(),
        n.readable(),
        m.bins() > 0,
        is_gained(m, n, gain),
        low.f_start_hz <= low.f_stop_hz,
        high.f_start_hz <= high.f_stop_hz,
    ensures
        ({
            let r = m.noise_floor(low, high, signal_bands);
            n.noise_floor(low, high, signal_bands) == (r.0 + gain, r.1)
        }),
{
    lemma_gained_floor(m, n, gain, low);
    lemma_gained_floor(m, n, gain, high);
    lemma_gained_sweep(
        m,
        n,
        gain,
        low.f_stop_hz,
        high.f_start_hz,
        signal_bands,
        m.guard_floor(low, high),
    );
}

/// A bin is looked at in a range of frequencies, of 2097152 ticks to a hertz, where less than a bin
/// lies between the two. The last bin stands for all frequencies above it.
pub open spec fn touches(m: Metrics, span: FreqSpan, i: int) -> bool {
    &&& 0 <= i < m.bins()
    &&& (i + 1) * m.fft_bin > span.f_start_hz * 2_097_152 || i == m.bins() - 1
    &&& i == 0 || (i - 1) * m.fft_bin < span.f_stop_hz * 2_097_152
}

pub(crate) proof fn lemma_touches(m: Metrics, span: FreqSpan)
    requires
        m.readable(),
        m.bins() > 0,
    ensures
        forall|i: int| #[trigger]
            touches(m, span, i) <==> 0 <= i < m.bins() && m.bin_at(span.f_start_hz) <= i
                <= m.bin_from(span.f_stop_hz),
        0 <= m.bin_at(span.f_start_hz) < m.bins(),
        0 <= m.bin_from(span.f_stop_hz) < m.bins(),
        span.f_start_hz <= span.f_stop_hz ==> m.bin_at(span.f_start_hz) <= m.bin_from(
            span.f_stop_hz,
        ),
{
    let b = m.fft_bin as int;
    let t = span.f_start_hz * 2_097_152;
    let u = span.f_stop_hz * 2_097_152;
    let k = t / b;
    let l = (u + b - 1) / b;
    vstd::arithmetic::div_mod::lemma_fundamental_div_mod(t, b);
    vstd::arithmetic::div_mod::lemma_mod_bound(t, b);
    vstd::arithmetic::div_mod::lemma_fundamental_div_mod(u + b - 1, b);
    vstd::arithmetic::div_mod::lemma_mod_bound(u + b - 1, b);
    vstd::arithmetic::div_mod::lemma_div_pos_is_pos(t, b);
    vstd::arithmetic::div_mod::lemma_div_pos_is_pos(u + b - 1, b);
    if span.f_start_hz <= span.f_stop_hz {
        vstd::arithmetic::div_mod::lemma_div_is_ordered(t, u + b - 1, b);
    }
    assert forall|i: int| #[trigger] touches(m, span, i) <==> 0 <= i < m.bins() && m.bin_at(
        span.f_start_hz,
    ) <= i <= m.bin_from(span.f_stop_hz) by {
        assert((i + 1) * b > t <==> i >= k) by (nonlinear_arith)
            requires
                t == b * k + t % b,
                0 <= t % b < b,
        ;
        assert((i - 1) * b < u <==> i <= l) by (nonlinear_arith)
            requires
                u + b - 1 == b * l + (u + b - 1) % b,
                0 <= (u + b - 1) % b < b,
        ;
    }
}

/// `i` is the first of the lowest bins of a range.
pub open spec fn is_lowest(m: Metrics, span: FreqSpan, i: int) -> bool {
    &&& touches(m, span, i)
    &&& forall|j: int| #[trigger] touches(m, span, j) ==> m.mag_db@[i] <= m.mag_db@[j]
    &&& forall|j: int| #[trigger] touches(m, span, j) && j < i ==> m.mag_db@[i] < m.mag_db@[j]
}

/// `i` is the first of the strongest bins of a range.
pub open spec fn is_strongest(m: Metrics, span: FreqSpan, i: int) -> bool {
    &&& touches(m, span, i)
    &&& forall|j: int| #[trigger] touches(m, span, j) ==> m.peak_mag_db@[i] >= m.peak_mag_db@[j]
    &&& forall|j: int| #[trigger]
        touches(m, span, j) && j < i ==> m.peak_mag_db@[i] > m.peak_mag_db@[j]
}

/// A peak is the first of the strongest bins that are looked at.
pub proof fn law_peak_is_strongest(m: Metrics, span: FreqSpan)
    requires
        m.readable(),
        m.bins() > 0,
        span.f_start_hz <= span.f_stop_hz,
    ensures
        is_strongest(m, span, m.peak_bin(span)),
{
    lemma_touches(m, span);
    law_first_max(m.peak_mag_db@, m.bin_at(span.f_start_hz), m.bin_from(span.f_stop_hz));
}

/// A floor is the level and the frequency of the first of the lowest bins that are looked at.
pub proof fn law_floor_is_lowest(m: Metrics, span: FreqSpan, i: int)
    requires
        m.readable(),
        m.bins() > 0,
        span.f_start_hz <= span.f_stop_hz,
        is_lowest(m, span, i),
    ensures
        m.floor(span) == (m.mag_db@[i] as int, i * m.fft_bin),
{
    lemma_floor_is_lowest(m, span);
    let k = m.floor_bin(span);
    assert(touches(m, span, k));
    assert(touches(m, span, i));
}

proof fn lemma_floor_is_lowest(m: Metrics, span: FreqSpan)
    requires
        m.readable(),
        m.bins() > 0,
        span.f_start_hz <= span.f_stop_hz,
    ensures
        is_lowest(m, span, m.floor_bin(span)),
        m.floor(span) == (
            m.mag_db@[m.floor_bin(span)] as int,
            m.floor_bin(span) * m.fft_bin,
        ),
{
    lemma_touches(m, span);
    law_first_min(m.mag_db@, m.bin_at(span.f_start_hz), m.bin_from(span.f_stop_hz));
}

/// The peak near its place is looked at and within a quarter of a decibel of the strongest bin; no
/// such bin is nearer, and none as near is lower. A quarter of a decibel is the 108th power of two.
pub proof fn law_nominal_peak_is_nearest(m: Metrics, span: FreqSpan, nominal: int, top: int, i: int)
    requires
        m.readable(),
        m.bins() > 0,
        span.f_start_hz <= span.f_stop_hz,
        is_strongest(m, span, top),
        touches(m, span, i),
        m.peak_mag_db@[i] >= crate::binary64::rounded(
            m.peak_mag_db@[top] - 0x1000_0000_0000_0000_0000_0000_0000,
        ),
    ensures
        ({
            let k = m.nominal_bin(span, nominal);
            let near = crate::binary64::magnitude(k * m.fft_bin - nominal);
            let other = crate::binary64::magnitude(i * m.fft_bin - nominal);
            &&& touches(m, span, k)
            &&& m.peak_mag_db@[k] >= crate::binary64::rounded(
                m.peak_mag_db@[top] - 0x1000_0000_0000_0000_0000_0000_0000,
            )
            &&& near < other || (near == other && k <= i)
        }),
{
    lemma_touches(m, span);
    law_peak_is_strongest(m, span);
    let p = m.peak_bin(span);
    assert(touches(m, span, p));
    assert(touches(m, span, top));
    law_nominal_bin(m, span, nominal);
    let k = m.nominal_bin(span, nominal);
    assert(touches(m, span, k));
    assert(m.peak_mag_db@[i] >= m.cutoff(span));
    assert(m.freq(i) == i * m.fft_bin);
    assert(m.freq(k) == k * m.fft_bin);
}

/// A sweep step of 500 kHz, the last one cut off at the upper guard band.
pub open spec fn is_step(step: FreqSpan, from_hz: u32, to_hz: u32, n: nat) -> bool {
    &&& step.f_start_hz == from_hz + n * 500_000
    &&& step.f_start_hz < to_hz
    &&& step.f_stop_hz == if step.f_start_hz + 500_000 < to_hz {
        step.f_start_hz + 500_000
    } else {
        to_hz as int
    }
}

/// No frequency of a step lies inside a signal band.
pub open spec fn holds_no_signal(step: FreqSpan, signal_bands: Seq<FreqSpan>) -> bool {
    forall|j: int|
        0 <= j < signal_bands.len() ==> step.f_stop_hz <= (#[trigger] signal_bands[j]).f_start_hz
            || step.f_start_hz >= signal_bands[j].f_stop_hz
}

proof fn lemma_steps(step: FreqSpan, from_hz: u32, to_hz: u32, n: nat)
    requires
        is_step(step, from_hz, to_hz, n),
    ensures
        step == sweep_step(from_hz, to_hz, n),
        from_hz + n * SWEEP_STEP_HZ < to_hz,
{
}

proof fn lemma_sweep_attained(
    m: Metrics,
    from_hz: u32,
    to_hz: u32,
    signal_bands: Seq<FreqSpan>,
    best: (int, int),
)
    requires
        m.readable(),
        m.bins() > 0,
    ensures
        ({
            let r = m.swept(from_hz, to_hz, signal_bands, best);
            r == best || exists|step: FreqSpan, n: nat| #[trigger]
                is_step(step, from_hz, to_hz, n) && holds_no_signal(step, signal_bands) && r
                    == m.floor(step)
        }),
    decreases to_hz - from_hz,
{
    if from_hz < to_hz {
        let step = step_from(from_hz, to_hz);
        let here = m.floor(step);
        let free = signal_free(step, signal_bands);
        let next = if free && here.0 < best.0 {
            here
        } else {
            best
        };
        lemma_sweep_attained(m, step.f_stop_hz, to_hz, signal_bands, next);
        let r = m.swept(from_hz, to_hz, signal_bands, best);
        if r == next {
            if next != best {
                assert(is_step(step, from_hz, to_hz, 0));
                assert(holds_no_signal(step, signal_bands));
            }
        } else {
            let (s, n) = choose|s: FreqSpan, n: nat| #[trigger]
                is_step(s, step.f_stop_hz, to_hz, n) && holds_no_signal(s, signal_bands) && r
                    == m.floor(s);
            assert(step.f_stop_hz == from_hz + 500_000);
            assert(is_step(s, from_hz, to_hz, n + 1));
        }
    }
}

/// Where the floors of the guard bands are 6 dB apart or less, the noise floor is the lower of them,
/// that of the lower band where they are equal. `a` and `b` are the lowest bins of the two bands;
/// 6 dB are 7788445287802241442795744493830144 units.
pub proof fn law_level_guards_are_trusted(
    m: Metrics,
    low: FreqSpan,
    high: FreqSpan,
    signal_bands: Seq<FreqSpan>,
    a: int,
    b: int,
)
    requires
        m.readable(),
        m.bins() > 0,
        low.f_start_hz <= low.f_stop_hz,
        high.f_start_hz <= high.f_stop_hz,
        is_lowest(m, low, a),
        is_lowest(m, high, b),
        -7_788_445_287_802_241_442_795_744_493_830_144 <= crate::binary64::rounded(
            m.mag_db@[b] - m.mag_db@[a],
        ) <= 7_788_445_287_802_241_442_795_744_493_830_144,
    ensures
        m.noise_floor(low, high, signal_bands) == if m.mag_db@[a] <= m.mag_db@[b] {
            (m.mag_db@[a] as int, a * m.fft_bin)
        } else {
            (m.mag_db@[b] as int, b * m.fft_bin)
        },
{
    law_floor_is_lowest(m, low, a);
    law_floor_is_lowest(m, high, b);
}

/// Where the floors of the guard bands are more than 6 dB apart, whichever of them is the lower
/// one, the noise floor is not above any bin of the guard bands, nor of any step between them that
/// holds no signal.
pub proof fn law_tilted_guards_are_swept(
    m: Metrics,
    low: FreqSpan,
    high: FreqSpan,
    signal_bands: Seq<FreqSpan>,
    a: int,
    b: int,
)
    requires
        m.readable(),
        m.bins() > 0,
        low.f_start_hz <= low.f_stop_hz,
        high.f_start_hz <= high.f_stop_hz,
        is_lowest(m, low, a),
        is_lowest(m, high, b),
        crate::binary64::rounded(m.mag_db@[b] - m.mag_db@[a])
            > 7_788_445_287_802_241_442_795_744_493_830_144 || crate::binary64::rounded(
            m.mag_db@[a] - m.mag_db@[b],
        ) > 7_788_445_287_802_241_442_795_744_493_830_144,
    ensures
        ({
            let r = m.noise_floor(low, high, signal_bands);
            &&& r.0 <= m.mag_db@[a]
            &&& r.0 <= m.mag_db@[b]
            &&& forall|step: FreqSpan, n: nat, i: int|
                #![trigger is_step(step, low.f_stop_hz, high.f_start_hz, n), touches(m, step, i)]
                is_step(step, low.f_stop_hz, high.f_start_hz, n) && holds_no_signal(
                    step,
                    signal_bands,
                ) && touches(m, step, i) ==> r.0 <= m.mag_db@[i]
        }),
{
    law_floor_is_lowest(m, low, a);
    law_floor_is_lowest(m, high, b);
    crate::binary64::law_rounding_is_odd(m.mag_db@[a] - m.mag_db@[b]);
    assert(m.mag_db@[b] - m.mag_db@[a] == -(m.mag_db@[a] - m.mag_db@[b]));
    assert(m.tilted(low, high));
    law_noise_floor_is_lowest(m, low, high, signal_bands);
    lemma_floor_measured(m, low);
    lemma_floor_measured(m, high);
    lemma_swept(m, low.f_stop_hz, high.f_start_hz, signal_bands, m.guard_floor(low, high));
    let r = m.noise_floor(low, high, signal_bands);
    assert forall|step: FreqSpan, n: nat, i: int|
        #![trigger is_step(step, low.f_stop_hz, high.f_start_hz, n), touches(m, step, i)]
        is_step(step, low.f_stop_hz, high.f_start_hz, n) && holds_no_signal(step, signal_bands)
            && touches(m, step, i) implies r.0 <= m.mag_db@[i] by {
        lemma_steps(step, low.f_stop_hz, high.f_start_hz, n);
        assert(signal_free(sweep_step(low.f_stop_hz, high.f_start_hz, n), signal_bands));
        lemma_floor_is_lowest(m, step);
    }
}

/// A noise floor is a level that was measured, at the frequency where it was: in one of the guard
/// bands or in a step between them that holds no signal.
pub proof fn law_noise_floor_is_measured(
    m: Metrics,
    low: FreqSpan,
    high: FreqSpan,
    signal_bands: Seq<FreqSpan>,
)
    requires
        m.readable(),
        m.bins() > 0,
        low.f_start_hz <= low.f_stop_hz,
        high.f_start_hz <= high.f_stop_hz,
    ensures
        exists|span: FreqSpan, i: int|
            {
                &&& #[trigger] is_lowest(m, span, i)
                &&& m.noise_floor(low, high, signal_bands) == (m.mag_db@[i] as int, i * m.fft_bin)
                &&& span == low || span == high || (holds_no_signal(span, signal_bands) && exists|
                    n: nat,
                | #[trigger] is_step(span, low.f_stop_hz, high.f_start_hz, n))
            },
{
    lemma_floor_is_lowest(m, low);
    lemma_floor_is_lowest(m, high);
    let best = m.guard_floor(low, high);
    let r = m.noise_floor(low, high, signal_bands);
    if r == best {
        if m.floor(low).0 <= m.floor(high).0 {
            assert(is_lowest(m, low, m.floor_bin(low)));
        } else {
            assert(is_lowest(m, high, m.floor_bin(high)));
        }
    } else {
        lemma_sweep_attained(m, low.f_stop_hz, high.f_start_hz, signal_bands, best);
        let (step, n) = choose|step: FreqSpan, n: nat| #[trigger]
            is_step(step, low.f_stop_hz, high.f_start_hz, n) && holds_no_signal(step, signal_bands)
                && r == m.floor(step);
        lemma_floor_is_lowest(m, step);
        assert(is_lowest(m, step, m.floor_bin(step)));
    }
}

/// A band without bins, which runs downwards, has a floor of -200 dB; 200 dB are
/// 259614842926741381426524816461004800 units.
pub proof fn law_bands_without_bins_are_silent(m: Metrics, span: FreqSpan)
    requires
        m.readable(),
        m.bins() > 0,
        forall|i: int| !#[trigger] touches(m, span, i),
    ensures
        m.floor(span).0 == -259_614_842_926_741_381_426_524_816_461_004_800,
{
    lemma_touches(m, span);
    assert(!touches(m, span, m.bin_at(span.f_start_hz)));
}

/// Where a floor was found is told in megahertz with two decimals.
pub proof fn law_floor_place_is_told_in_megahertz(freq: int)
    ensures
        floor_place(freq) == "at "@ + crate::text::decimal(freq as nat, 2_097_152_000_000, 2)
            + " MHz"@,
{
}

/// The spectrum of a stream carries what the stream was, and the density as it was measured; a
/// magnitude is its density with the bandwidth added, a carrier's its magnitude with the correction
/// added, each rounded to the nearest binary64 number.
pub proof fn law_spectrum_keeps_the_stream(
    m: Metrics,
    done: Finished,
    psd: Seq<i128>,
    bandwidth: i128,
    carrier: i128,
    i: int,
)
    requires
        m.measures(done, psd, bandwidth, carrier),
        m.readable(),
    ensures
        m.bits == done.bits,
        m.sample_rate == done.sample_rate,
        m.num_samples == done.num_samples,
        m.welch_segments == done.welch_segments,
        m.bins() == psd.len(),
        0 <= i < psd.len() ==> m.psd_dbfs_hz@[i] == psd[i],
        0 <= i < psd.len() && -LEVEL_LIMIT <= psd[i] + bandwidth <= LEVEL_LIMIT ==> m.mag_db@[i]
            == crate::binary64::rounded(psd[i] + bandwidth),
        0 <= i < psd.len() && -LEVEL_LIMIT <= m.mag_db@[i] + carrier <= LEVEL_LIMIT
            ==> m.peak_mag_db@[i] == crate::binary64::rounded(m.mag_db@[i] + carrier),
{
    if 0 <= i < psd.len() {
        if -LEVEL_LIMIT <= psd[i] + bandwidth <= LEVEL_LIMIT {
            lemma_rounded_in_limits(psd[i] + bandwidth, 1);
        }
        if -LEVEL_LIMIT <= m.mag_db@[i] + carrier <= LEVEL_LIMIT {
            lemma_rounded_in_limits(m.mag_db@[i] + carrier, 1);
        }
    }
}

} // verus!
