//! Noise density in guard bands, and tones that stand out of the noise.

use crate::binary64::round;
use crate::preset::Band;
use crate::spectrum::{Metrics, EMPTY_BAND_LEVEL, LEVEL_LIMIT, SPUR_THRESHOLD};
use crate::welch::TICKS_PER_HZ;
use vstd::prelude::*;

verus! {

/// At most this many spurs are kept of a capture.
pub const MAX_SPURS: usize = 10;

/// A tone outside the signal bands.
#[derive(Clone, Copy, Debug, PartialEq, Eq, Structural)]
pub struct Spur {
    /// In ticks.
    pub freq: u64,
    pub amplitude_dbfs_hz: i128,
}

/// The order of levels.
pub open spec fn ascending() -> spec_fn(i128, i128) -> bool {
    |a: i128, b: i128| a <= b
}

/// The level in the middle of the levels when they are put in order, the upper one of two.
pub open spec fn median(levels: Seq<i128>) -> i128 {
    if levels.len() == 0 {
        EMPTY_BAND_LEVEL
    } else {
        levels.sort_by(ascending())[levels.len() as int / 2]
    }
}

/// Puts levels in ascending order with `sort` of the standard library's slices. Taken on trust:
/// afterwards the same levels are there, each as often as before, and none is below one that
/// stands before it.
#[verifier::external_body]
fn sort_levels(levels: &mut Vec<i128>)
    ensures
        final(levels)@.to_multiset() == old(levels)@.to_multiset(),
        forall|i: int, j: int|
            0 <= i < j < final(levels)@.len() ==> final(levels)@[i] <= final(levels)@[j],
{
    levels.sort();
}

proof fn lemma_sorted_is_sort_by(s: Seq<i128>, sorted: Seq<i128>)
    requires
        sorted.to_multiset() == s.to_multiset(),
        forall|i: int, j: int| 0 <= i < j < sorted.len() ==> sorted[i] <= sorted[j],
    ensures
        sorted == s.sort_by(ascending()),
        sorted.len() == s.len(),
        forall|i: int| 0 <= i < sorted.len() ==> s.contains(#[trigger] sorted[i]),
{
    broadcast use vstd::seq_lib::group_to_multiset_ensures;

    assert(sorted.len() == sorted.to_multiset().len());
    assert(s.len() == s.to_multiset().len());
    let leq = ascending();
    s.lemma_sort_by_ensures(leq);
    vstd::seq_lib::lemma_sorted_unique(sorted, s.sort_by(leq), leq);
    assert forall|i: int| 0 <= i < sorted.len() implies s.contains(#[trigger] sorted[i]) by {
        assert(sorted.contains(sorted[i]));
        assert(sorted.to_multiset().count(sorted[i]) > 0);
    }
}

fn median_of(levels: Vec<i128>) -> (r: i128)
    ensures
        r == median(levels@),
        levels@.len() > 0 ==> levels@.contains(r),
{
    let mut sorted: Vec<i128> = levels;
    if sorted.len() == 0 {
        return EMPTY_BAND_LEVEL;
    }
    sort_levels(&mut sorted);
    proof {
        lemma_sorted_is_sort_by(levels@, sorted@);
    }
    sorted[sorted.len() / 2]
}

impl Metrics {
    /// The power densities of a band's bins.
    pub open spec fn band_densities(&self, band: Band) -> Seq<i128> {
        if self.holds_bins(band.f_start_hz, band.f_stop_hz) {
            self.psd_dbfs_hz@.subrange(
                self.bin_at(band.f_start_hz),
                self.bin_from(band.f_stop_hz) + 1,
            )
        } else {
            Seq::empty()
        }
    }
}

/// Appends the power densities of a band's bins.
fn push_band(values: &mut Vec<i128>, m: &Metrics, band: &Band)
    requires
        m.readable(),
        m.bins() > 0,
    ensures
        final(values)@ == old(values)@ + m.band_densities(*band),
{
    let (start, stop) = m.bin_range(band.f_start_hz, band.f_stop_hz);
    if start <= stop {
        let bins: usize = m.psd_dbfs_hz.len();
        let mut i: usize = start;
        while i <= stop
            invariant
                m.readable(),
                start <= i <= stop + 1,
                stop < bins == m.psd_dbfs_hz@.len(),
                values@ == old(values)@ + m.psd_dbfs_hz@.subrange(start as int, i as int),
            decreases stop + 1 - i,
        {
            values.push(m.psd_dbfs_hz[i]);
            i = i + 1;
        }
    }
    assert(values@ == old(values)@ + m.band_densities(*band));
}

/// The median power density in two guard bands.
pub fn noise_floor_dbfs(m: &Metrics, low: &Band, high: &Band) -> (r: i128)
    requires
        m.readable(),
        m.bins() > 0,
    ensures
        r == median(m.band_densities(*low) + m.band_densities(*high)),
        -LEVEL_LIMIT <= r <= LEVEL_LIMIT,
{
    let mut values: Vec<i128> = Vec::new();
    push_band(&mut values, m, low);
    push_band(&mut values, m, high);
    assert(values@ == m.band_densities(*low) + m.band_densities(*high));
    let ghost all = values@;
    assert forall|i: int| 0 <= i < all.len() implies -LEVEL_LIMIT <= #[trigger] all[i]
        <= LEVEL_LIMIT by {
        let lows = m.band_densities(*low);
        if i < lows.len() {
            assert(all[i] == m.psd_dbfs_hz@[m.bin_at(low.f_start_hz) + i]);
        } else {
            assert(all[i] == m.psd_dbfs_hz@[m.bin_at(high.f_start_hz) + i - lows.len()]);
        }
    }
    median_of(values)
}

/// The frequency lies in one of the bands, edges and all.
pub open spec fn in_bands(freq: int, bands: Seq<Band>) -> bool {
    exists|j: int|
        0 <= j < bands.len() && (#[trigger] bands[j]).f_start_hz * TICKS_PER_HZ <= freq
            <= bands[j].f_stop_hz * TICKS_PER_HZ
}

impl Metrics {
    /// Whether a bin is a spur: it stands out of the median of all densities, no density of the two
    /// bins on either side is above its own, and it lies outside the excluded bands.
    pub open spec fn is_spur(&self, i: int, exclude: Seq<Band>) -> bool {
        let psd = self.psd_dbfs_hz@;
        &&& 2 <= i < psd.len() - 2
        &&& psd[i] > crate::binary64::rounded(median(psd) + SPUR_THRESHOLD)
        &&& psd[i] >= psd[i - 1]
        &&& psd[i] >= psd[i + 1]
        &&& psd[i] >= psd[i - 2]
        &&& psd[i] >= psd[i + 2]
        &&& !in_bands(self.freq(i), exclude)
    }

    pub open spec fn spur_at(&self, i: int) -> Spur {
        Spur { freq: self.freq(i) as u64, amplitude_dbfs_hz: self.psd_dbfs_hz@[i] }
    }

    /// The spurs among the first `n` bins, by rising frequency.
    pub open spec fn spurs_below(&self, n: int, exclude: Seq<Band>) -> Seq<Spur>
        decreases n,
    {
        if n <= 0 {
            Seq::empty()
        } else if self.is_spur(n - 1, exclude) {
            self.spurs_below(n - 1, exclude).push(self.spur_at(n - 1))
        } else {
            self.spurs_below(n - 1, exclude)
        }
    }

    /// All spurs, by rising frequency.
    pub open spec fn all_spurs(&self, exclude: Seq<Band>) -> Seq<Spur> {
        self.spurs_below(self.bins() as int, exclude)
    }
}

/// `a` ranks before `b`: it is stronger, or as strong and lower in frequency.
pub open spec fn ranks_before(a: Spur, b: Spur) -> bool {
    a.amplitude_dbfs_hz > b.amplitude_dbfs_hz || (a.amplitude_dbfs_hz == b.amplitude_dbfs_hz
        && a.freq < b.freq)
}

/// `top` holds the first `limit` of `all` in rank, in that order, or all where they are fewer.
pub open spec fn is_top(top: Seq<Spur>, all: Seq<Spur>, limit: nat) -> bool {
    &&& top.len() == if all.len() < limit {
        all.len()
    } else {
        limit
    }
    &&& forall|i: int, j: int|
        0 <= i < j < top.len() ==> ranks_before(#[trigger] top[i], #[trigger] top[j])
    &&& forall|i: int| 0 <= i < top.len() ==> all.contains(#[trigger] top[i])
    &&& forall|k: int|
        0 <= k < all.len() ==> top.contains(#[trigger] all[k]) || (top.len() == limit && (
        forall|i: int| 0 <= i < top.len() ==> ranks_before(#[trigger] top[i], all[k])))
}

fn lies_in_bands(freq: u64, bands: &[Band]) -> (b: bool)
    ensures
        b == in_bands(freq as int, bands@),
{
    let mut j: usize = 0;
    while j < bands.len()
        invariant
            j <= bands@.len(),
            forall|k: int|
                0 <= k < j ==> !((#[trigger] bands@[k]).f_start_hz * TICKS_PER_HZ <= freq
                    <= bands@[k].f_stop_hz * TICKS_PER_HZ),
        decreases bands@.len() - j,
    {
        if freq >= bands[j].f_start_hz as u64 * TICKS_PER_HZ && freq <= bands[j].f_stop_hz as u64
            * TICKS_PER_HZ {
            return true;
        }
        j = j + 1;
    }
    false
}

/// Adds a spur above all others in frequency to the top ones.
fn add_to_top(top: &mut Vec<Spur>, spur: Spur, Ghost(all): Ghost<Seq<Spur>>)
    requires
        is_top(old(top)@, all, MAX_SPURS as nat),
        forall|k: int| 0 <= k < all.len() ==> (#[trigger] all[k]).freq < spur.freq,
    ensures
        is_top(final(top)@, all.push(spur), MAX_SPURS as nat),
{
    let mut at: usize = 0;
    while at < top.len() && top[at].amplitude_dbfs_hz >= spur.amplitude_dbfs_hz
        invariant
            at <= top@.len(),
            forall|i: int|
                0 <= i < at ==> (#[trigger] top@[i]).amplitude_dbfs_hz >= spur.amplitude_dbfs_hz,
        decreases top@.len() - at,
    {
        at = at + 1;
    }
    let ghost before = top@;
    let ghost more = all.push(spur);
    proof {
        assert(more[all.len() as int] == spur);
        assert forall|i: int| 0 <= i < before.len() implies more.contains(#[trigger] before[i]) by {
            let k = choose|k: int| 0 <= k < all.len() && all[k] == before[i];
            assert(more[k] == before[i]);
        }
        assert forall|i: int| 0 <= i < at implies ranks_before(#[trigger] before[i], spur) by {
            let k = choose|k: int| 0 <= k < all.len() && all[k] == before[i];
            assert(all[k].freq < spur.freq);
        }
        assert forall|i: int| at <= i < before.len() implies ranks_before(
            spur,
            #[trigger] before[i],
        ) by {
            if i > at {
                assert(ranks_before(before[at as int], before[i]));
            }
        }
    }
    top.insert(at, spur);
    let ghost grown = top@;
    proof {
        assert(grown == before.insert(at as int, spur));
        assert(grown[at as int] == spur);
        assert forall|i: int| 0 <= i < before.len() implies grown.contains(#[trigger] before[i]) by {
            if i < at {
                assert(grown[i] == before[i]);
            } else {
                assert(grown[i + 1] == before[i]);
            }
        }
        assert forall|i: int, j: int| 0 <= i < j < grown.len() implies ranks_before(
            #[trigger] grown[i],
            #[trigger] grown[j],
        ) by {
            let a = if i <= at {
                i
            } else {
                i - 1
            };
            let b = if j <= at {
                j
            } else {
                j - 1
            };
            if i != at && j != at {
                assert(grown[i] == before[a]);
                assert(grown[j] == before[b]);
                assert(ranks_before(before[a], before[b]));
            }
        }
    }
    if top.len() > MAX_SPURS {
        top.truncate(MAX_SPURS);
    }
    proof {
        assert(top@ == grown.take(top@.len() as int));
        assert forall|k: int| 0 <= k < more.len() implies top@.contains(#[trigger] more[k]) || (
        top@.len() == MAX_SPURS && (forall|i: int|
            0 <= i < top@.len() ==> ranks_before(#[trigger] top@[i], more[k]))) by {
            if k == all.len() || before.contains(more[k]) {
                assert(grown.contains(more[k]));
                let j = choose|j: int| 0 <= j < grown.len() && grown[j] == more[k];
                if j < top@.len() {
                    assert(top@[j] == more[k]);
                } else {
                    assert forall|i: int| 0 <= i < top@.len() implies ranks_before(
                        #[trigger] top@[i],
                        more[k],
                    ) by {
                        assert(ranks_before(grown[i], grown[j]));
                    }
                }
            } else {
                assert(more[k] == all[k]);
                assert(before.len() == MAX_SPURS);
                assert forall|i: int| 0 <= i < top@.len() implies ranks_before(
                    #[trigger] top@[i],
                    more[k],
                ) by {
                    if i < at {
                        assert(top@[i] == before[i]);
                    } else if i == at {
                        assert(ranks_before(before[i], more[k]));
                        assert(ranks_before(spur, before[i]));
                    } else {
                        assert(top@[i] == before[i - 1]);
                    }
                }
            }
        }
    }
}

proof fn lemma_spur_freqs(m: Metrics, n: int, exclude: Seq<Band>)
    requires
        m.readable(),
        n <= m.bins(),
    ensures
        forall|k: int|
            0 <= k < m.spurs_below(n, exclude).len() ==> (#[trigger] m.spurs_below(
                n,
                exclude,
            )[k]).freq < m.freq(n),
    decreases n,
{
    if n > 0 {
        lemma_spur_freqs(m, n - 1, exclude);
        assert(0 <= m.freq(n - 1) < m.freq(n) && m.freq(n) <= m.bins() * m.fft_bin)
            by (nonlinear_arith)
            requires
                m.freq(n - 1) == (n - 1) * m.fft_bin,
                m.freq(n) == n * m.fft_bin,
                0 < m.fft_bin,
                0 < n <= m.bins(),
        ;
        let s = m.spurs_below(n, exclude);
        let t = m.spurs_below(n - 1, exclude);
        assert forall|k: int| 0 <= k < s.len() implies (#[trigger] s[k]).freq < m.freq(n) by {
            if k < t.len() {
                assert(s[k] == t[k]);
                assert(t[k].freq < m.freq(n - 1));
            } else {
                assert(s[k] == m.spur_at(n - 1));
            }
        }
    }
}

/// The strongest tones outside the given bands, strongest first.
pub fn detect_spurs(m: &Metrics, exclude_bands: &[Band]) -> (spurs: Vec<Spur>)
    requires
        m.readable(),
    ensures
        is_top(spurs@, m.all_spurs(exclude_bands@), MAX_SPURS as nat),
{
    let len: usize = m.psd_dbfs_hz.len();
    let mut spurs: Vec<Spur> = Vec::new();
    let middle: i128 = median_of(m.psd_dbfs_hz.clone());
    let threshold: i128 = round(middle + SPUR_THRESHOLD);
    let mut i: usize = 0;
    while i < len
        invariant
            m.readable(),
            len == m.psd_dbfs_hz@.len(),
            threshold == crate::binary64::rounded(median(m.psd_dbfs_hz@) + SPUR_THRESHOLD),
            i <= len,
            is_top(spurs@, m.spurs_below(i as int, exclude_bands@), MAX_SPURS as nat),
        decreases len - i,
    {
        if i >= 2 && i < len.saturating_sub(2) {
            let v: i128 = m.psd_dbfs_hz[i];
            if v > threshold && v >= m.psd_dbfs_hz[i - 1] && v >= m.psd_dbfs_hz[i + 1] && v
                >= m.psd_dbfs_hz[i - 2] && v >= m.psd_dbfs_hz[i + 2] {
                let freq: u64 = m.frequency(i);
                if !lies_in_bands(freq, exclude_bands) {
                    proof {
                        lemma_spur_freqs(*m, i as int, exclude_bands@);
                    }
                    add_to_top(
                        &mut spurs,
                        Spur { freq, amplitude_dbfs_hz: v },
                        Ghost(m.spurs_below(i as int, exclude_bands@)),
                    );
                }
            }
        }
        i = i + 1;
    }
    spurs
}

/// Two spurs less than two bins apart are one.
pub open spec fn same_spur(a: Spur, b: Spur, bin: int) -> bool {
    crate::spectrum::distance(a.freq as int, b.freq as int) < 2 * bin
}

/// A spur is one of those already kept.
pub open spec fn is_kept(kept: Seq<Spur>, spur: Spur, bin: int) -> bool {
    exists|k: int| 0 <= k < kept.len() && same_spur(#[trigger] kept[k], spur, bin)
}

/// The spurs of a list, those left out that one kept before them already stands for.
pub open spec fn distinct_spurs(all: Seq<Spur>, bin: int) -> Seq<Spur>
    decreases all.len(),
{
    if all.len() == 0 {
        Seq::empty()
    } else {
        let kept = distinct_spurs(all.drop_last(), bin);
        if is_kept(kept, all.last(), bin) {
            kept
        } else {
            kept.push(all.last())
        }
    }
}

fn is_among(kept: &Vec<Spur>, spur: Spur, bin: u64) -> (b: bool)
    requires
        bin <= 0x4000_0000_0000_0000,
    ensures
        b == is_kept(kept@, spur, bin as int),
{
    let mut k: usize = 0;
    while k < kept.len()
        invariant
            bin <= 0x4000_0000_0000_0000,
            k <= kept@.len(),
            forall|j: int| 0 <= j < k ==> !same_spur(#[trigger] kept@[j], spur, bin as int),
        decreases kept@.len() - k,
    {
        let a: u64 = kept[k].freq;
        let dist: u64 = if a < spur.freq {
            spur.freq - a
        } else {
            a - spur.freq
        };
        if dist < 2 * bin {
            assert(same_spur(kept@[k as int], spur, bin as int));
            return true;
        }
        k = k + 1;
    }
    false
}

fn add_distinct(kept: &mut Vec<Spur>, more: &Vec<Spur>, bin: u64, Ghost(all): Ghost<Seq<Spur>>)
    requires
        bin <= 0x4000_0000_0000_0000,
        old(kept)@ == distinct_spurs(all, bin as int),
    ensures
        final(kept)@ == distinct_spurs(all + more@, bin as int),
{
    let mut i: usize = 0;
    assert(all + more@.take(0) == all);
    while i < more.len()
        invariant
            bin <= 0x4000_0000_0000_0000,
            i <= more@.len(),
            kept@ == distinct_spurs(all + more@.take(i as int), bin as int),
        decreases more@.len() - i,
    {
        proof {
            let next = all + more@.take(i + 1);
            assert(next.drop_last() == all + more@.take(i as int));
            assert(next.last() == more@[i as int]);
        }
        if !is_among(kept, more[i], bin) {
            kept.push(more[i]);
        }
        i = i + 1;
    }
    assert(more@.take(i as int) == more@);
}

/// The spurs of two captures, each once. `bin` is the bin width of the first, in ticks.
pub fn merge_spurs(first: &Vec<Spur>, second: &Vec<Spur>, bin: u64) -> (kept: Vec<Spur>)
    requires
        bin <= 0x4000_0000_0000_0000,
    ensures
        kept@ == distinct_spurs(first@ + second@, bin as int),
{
    let mut kept: Vec<Spur> = Vec::new();
    add_distinct(&mut kept, first, bin, Ghost(Seq::empty()));
    assert(Seq::<Spur>::empty() + first@ == first@);
    add_distinct(&mut kept, second, bin, Ghost(first@));
    kept
}

/// The kept spurs are those of the list at the places `at`, in that order.
pub open spec fn stand_at(kept: Seq<Spur>, all: Seq<Spur>, at: Seq<int>) -> bool {
    &&& at.len() == kept.len()
    &&& forall|i: int| 0 <= i < at.len() ==> 0 <= #[trigger] at[i] < all.len()
    &&& forall|i: int| 0 <= i < at.len() ==> kept[i] == all[#[trigger] at[i]]
    &&& forall|i: int, j: int| 0 <= i < j < at.len() ==> #[trigger] at[i] < #[trigger] at[j]
}

/// Two spurs lie less than two bins apart.
pub open spec fn within_two_bins(a: Spur, b: Spur, bin: int) -> bool {
    -2 * bin < a.freq - b.freq < 2 * bin
}

/// A spur that is kept from before place `i` lies less than two bins from that one.
pub open spec fn meets_earlier(kept: Seq<Spur>, at: Seq<int>, all: Seq<Spur>, i: int, bin: int) -> bool {
    exists|k: int| 0 <= k < at.len() && #[trigger] at[k] < i && within_two_bins(kept[k], all[i], bin)
}

/// The kept spurs are those of the list, at the places `at`, that lie two bins or more from each one
/// kept before them.
pub open spec fn is_merged(kept: Seq<Spur>, all: Seq<Spur>, at: Seq<int>, bin: int) -> bool {
    &&& stand_at(kept, all, at)
    &&& forall|i: int|
        0 <= i < all.len() ==> (at.contains(i) <==> !#[trigger] meets_earlier(
            kept,
            at,
            all,
            i,
            bin,
        ))
}

/// Merged spurs are those of the list that lie two bins or more from each one kept before them, and
/// no others, in the order of the list; each of the list lies less than two bins from one of them.
pub proof fn law_distinct_spurs(all: Seq<Spur>, bin: int)
    requires
        bin > 0,
    ensures
        exists|at: Seq<int>| is_merged(distinct_spurs(all, bin), all, at, bin),
        all.len() > 0 ==> distinct_spurs(all, bin).len() > 0 && distinct_spurs(all, bin)[0]
            == all[0],
        forall|i: int, j: int|
            0 <= i < j < distinct_spurs(all, bin).len() ==> !within_two_bins(
                #[trigger] distinct_spurs(all, bin)[i],
                #[trigger] distinct_spurs(all, bin)[j],
                bin,
            ),
        forall|i: int|
            0 <= i < all.len() ==> is_kept(distinct_spurs(all, bin), #[trigger] all[i], bin),
    decreases all.len(),
{
    let kept = distinct_spurs(all, bin);
    if all.len() > 0 {
        let n = all.len() - 1;
        let front = all.drop_last();
        let last = all.last();
        law_distinct_spurs(front, bin);
        let before = distinct_spurs(front, bin);
        let places = choose|at: Seq<int>| is_merged(before, front, at, bin);
        let at = if is_kept(before, last, bin) {
            places
        } else {
            places.push(n)
        };
        assert(stand_at(kept, all, at));
        assert forall|i: int| 0 <= i < all.len() implies (at.contains(i)
            <==> !#[trigger] meets_earlier(kept, at, all, i, bin)) by {
            if i < n {
                assert(meets_earlier(kept, at, all, i, bin) == meets_earlier(
                    before,
                    places,
                    front,
                    i,
                    bin,
                )) by {
                    if meets_earlier(before, places, front, i, bin) {
                        let k = choose|k: int|
                            0 <= k < places.len() && #[trigger] places[k] < i && within_two_bins(
                                before[k],
                                front[i],
                                bin,
                            );
                        assert(at[k] == places[k]);
                    }
                    if meets_earlier(kept, at, all, i, bin) {
                        let k = choose|k: int|
                            0 <= k < at.len() && #[trigger] at[k] < i && within_two_bins(
                                kept[k],
                                all[i],
                                bin,
                            );
                        assert(places[k] == at[k]);
                    }
                }
                if places.contains(i) {
                    let k = choose|k: int| 0 <= k < places.len() && places[k] == i;
                    assert(at[k] == i);
                }
                if at.contains(i) {
                    let k = choose|k: int| 0 <= k < at.len() && at[k] == i;
                    assert(places[k] == i);
                }
            } else {
                if is_kept(before, last, bin) {
                    let k = choose|k: int|
                        0 <= k < before.len() && same_spur(#[trigger] before[k], last, bin);
                    assert(at[k] < n);
                    assert(within_two_bins(kept[k], all[i], bin));
                    assert(!at.contains(i)) by {
                        if at.contains(i) {
                            let l = choose|l: int| 0 <= l < at.len() && at[l] == i;
                            assert(places[l] < front.len());
                        }
                    }
                } else {
                    assert(at[places.len() as int] == n);
                    if meets_earlier(kept, at, all, i, bin) {
                        let k = choose|k: int|
                            0 <= k < at.len() && #[trigger] at[k] < i && within_two_bins(
                                kept[k],
                                all[i],
                                bin,
                            );
                        assert(same_spur(before[k], last, bin));
                    }
                }
            }
        }
        assert(is_merged(kept, all, at, bin));
        if front.len() > 0 {
            assert(kept[0] == before[0]);
        }
        assert forall|i: int| 0 <= i < all.len() implies is_kept(kept, #[trigger] all[i], bin) by {
            if i < front.len() {
                assert(is_kept(before, front[i], bin));
                let k = choose|k: int|
                    0 <= k < before.len() && same_spur(#[trigger] before[k], front[i], bin);
                assert(kept[k] == before[k]);
            } else if !is_kept(before, last, bin) {
                assert(same_spur(kept[before.len() as int], last, bin));
            }
        }
        assert forall|i: int, j: int| 0 <= i < j < kept.len() implies !within_two_bins(
            #[trigger] kept[i],
            #[trigger] kept[j],
            bin,
        ) by {
            assert(kept[i] == before[i]);
            if j < before.len() {
                assert(kept[j] == before[j]);
            } else {
                assert(!same_spur(before[i], last, bin));
            }
        }
    } else {
        assert(is_merged(kept, all, Seq::empty(), bin));
    }
}

/// The median is the level in the middle of any ascending arrangement of the levels, the upper one
/// of two; without levels it is -200 dB.
pub proof fn law_median_is_in_the_middle(levels: Seq<i128>, sorted: Seq<i128>)
    requires
        sorted.to_multiset() == levels.to_multiset(),
        forall|i: int, j: int| 0 <= i < j < sorted.len() ==> sorted[i] <= sorted[j],
    ensures
        levels.len() > 0 ==> median(levels) == sorted[levels.len() as int / 2],
        levels.len() == 0 ==> median(levels) == -259_614_842_926_741_381_426_524_816_461_004_800,
{
    lemma_sorted_is_sort_by(levels, sorted);
}

/// The densities of a band are those of the bins that are looked at in it, from `a` to `b`.
pub proof fn law_band_densities_are_those_of_its_bins(m: Metrics, band: Band, a: int, b: int)
    requires
        m.readable(),
        m.bins() > 0,
        0 <= a <= b < m.bins(),
        forall|i: int| #[trigger]
            crate::spectrum::touches(m, crate::spectrum::span_of(band), i) <==> a <= i <= b,
    ensures
        m.band_densities(band) == m.psd_dbfs_hz@.subrange(a, b + 1),
{
    let span = crate::spectrum::span_of(band);
    crate::spectrum::lemma_touches(m, span);
    let lo = m.bin_at(band.f_start_hz);
    let hi = m.bin_from(band.f_stop_hz);
    assert(crate::spectrum::touches(m, span, a));
    assert(crate::spectrum::touches(m, span, b));
    assert(lo <= hi);
    assert(crate::spectrum::touches(m, span, lo));
    assert(crate::spectrum::touches(m, span, hi));
}

/// A bin stands out: it is more than 10 dB above the median, no density within two bins is above its
/// own, and it lies in none of the bands. 10 dB are 12980742146337069071326240823050240 units.
pub open spec fn stands_out(m: Metrics, i: int, exclude: Seq<Band>) -> bool {
    &&& 2 <= i < m.bins() - 2
    &&& m.psd_dbfs_hz@[i] > crate::binary64::rounded(
        median(m.psd_dbfs_hz@) + 12_980_742_146_337_069_071_326_240_823_050_240,
    )
    &&& forall|j: int| i - 2 <= j <= i + 2 ==> m.psd_dbfs_hz@[i] >= #[trigger] m.psd_dbfs_hz@[j]
    &&& forall|j: int|
        0 <= j < exclude.len() ==> i * m.fft_bin < (#[trigger] exclude[j]).f_start_hz * 2_097_152 || i
            * m.fft_bin > exclude[j].f_stop_hz * 2_097_152
}

/// A spur is at a bin.
pub open spec fn is_at(m: Metrics, spur: Spur, i: int) -> bool {
    spur.freq == i * m.fft_bin && spur.amplitude_dbfs_hz == m.psd_dbfs_hz@[i]
}

/// A spur is at a bin that stands out.
pub open spec fn is_at_standing_bin(m: Metrics, exclude: Seq<Band>, spur: Spur) -> bool {
    exists|i: int| #[trigger] stands_out(m, i, exclude) && is_at(m, spur, i)
}

proof fn lemma_standing_out(m: Metrics, i: int, exclude: Seq<Band>)
    requires
        m.readable(),
    ensures
        m.is_spur(i, exclude) <==> stands_out(m, i, exclude),
{
    let psd = m.psd_dbfs_hz@;
    if m.is_spur(i, exclude) {
        assert forall|j: int| i - 2 <= j <= i + 2 implies psd[i] >= #[trigger] psd[j] by {
            assert(j == i - 2 || j == i - 1 || j == i || j == i + 1 || j == i + 2);
        }
        assert forall|j: int| 0 <= j < exclude.len() implies i * m.fft_bin < (
        #[trigger] exclude[j]).f_start_hz * 2_097_152 || i * m.fft_bin > exclude[j].f_stop_hz
            * 2_097_152 by {
            assert(!in_bands(m.freq(i), exclude));
        }
    }
    if stands_out(m, i, exclude) {
        assert(psd[i] >= psd[i - 2] && psd[i] >= psd[i - 1] && psd[i] >= psd[i + 1] && psd[i]
            >= psd[i + 2]);
        if in_bands(m.freq(i), exclude) {
            let j = choose|j: int|
                0 <= j < exclude.len() && (#[trigger] exclude[j]).f_start_hz * TICKS_PER_HZ <= m.freq(i)
                    <= exclude[j].f_stop_hz * TICKS_PER_HZ;
            assert(false);
        }
    }
}

spec fn is_spur_below(m: Metrics, n: int, exclude: Seq<Band>, spur: Spur) -> bool {
    exists|i: int| 0 <= i < n && #[trigger] m.is_spur(i, exclude) && spur == m.spur_at(i)
}

proof fn lemma_spurs_listed(m: Metrics, n: int, exclude: Seq<Band>)
    requires
        m.readable(),
        n <= m.bins(),
    ensures
        forall|i: int|
            0 <= i < n && #[trigger] m.is_spur(i, exclude) ==> m.spurs_below(n, exclude).contains(
                m.spur_at(i),
            ),
        forall|k: int|
            0 <= k < m.spurs_below(n, exclude).len() ==> is_spur_below(
                m,
                n,
                exclude,
                #[trigger] m.spurs_below(n, exclude)[k],
            ),
    decreases n,
{
    if n > 0 {
        lemma_spurs_listed(m, n - 1, exclude);
        let t = m.spurs_below(n - 1, exclude);
        let s = m.spurs_below(n, exclude);
        assert forall|i: int| 0 <= i < n && #[trigger] m.is_spur(i, exclude) implies s.contains(
            m.spur_at(i),
        ) by {
            if i < n - 1 {
                let k = choose|k: int| 0 <= k < t.len() && t[k] == m.spur_at(i);
                assert(s[k] == m.spur_at(i));
            } else {
                assert(s[t.len() as int] == m.spur_at(i));
            }
        }
        assert forall|k: int| 0 <= k < s.len() implies is_spur_below(
            m,
            n,
            exclude,
            #[trigger] s[k],
        ) by {
            if k < t.len() {
                assert(s[k] == t[k]);
                assert(is_spur_below(m, n - 1, exclude, t[k]));
                let i = choose|i: int|
                    0 <= i < n - 1 && #[trigger] m.is_spur(i, exclude) && t[k] == m.spur_at(i);
                assert(m.is_spur(i, exclude));
            } else {
                assert(m.is_spur(n - 1, exclude));
            }
        }
    }
}

/// The spurs reported are ten at most, each a bin that stands out, strongest first and the lower
/// one of two as strong. A bin that stands out is among them, or there are ten that come before it.
pub proof fn law_spurs_are_the_strongest(m: Metrics, exclude: Seq<Band>, spurs: Seq<Spur>)
    requires
        m.readable(),
        is_top(spurs, m.all_spurs(exclude), MAX_SPURS as nat),
    ensures
        spurs.len() <= 10,
        forall|k: int|
            0 <= k < spurs.len() ==> is_at_standing_bin(m, exclude, #[trigger] spurs[k]),
        forall|k: int, l: int|
            0 <= k < l < spurs.len() ==> {
                let a = #[trigger] spurs[k];
                let b = #[trigger] spurs[l];
                a.amplitude_dbfs_hz > b.amplitude_dbfs_hz || (a.amplitude_dbfs_hz
                    == b.amplitude_dbfs_hz && a.freq < b.freq)
            },
        forall|i: int| #[trigger]
            stands_out(m, i, exclude) ==> (exists|k: int|
                0 <= k < spurs.len() && is_at(m, #[trigger] spurs[k], i)) || (spurs.len() == 10
                && forall|k: int|
                0 <= k < spurs.len() ==> (#[trigger] spurs[k]).amplitude_dbfs_hz
                    > m.psd_dbfs_hz@[i] || (spurs[k].amplitude_dbfs_hz == m.psd_dbfs_hz@[i]
                    && spurs[k].freq < i * m.fft_bin)),
{
    let all = m.all_spurs(exclude);
    lemma_spurs_listed(m, m.bins() as int, exclude);
    assert forall|k: int| 0 <= k < spurs.len() implies is_at_standing_bin(
        m,
        exclude,
        #[trigger] spurs[k],
    ) by {
        assert(all.contains(spurs[k]));
        let l = choose|l: int| 0 <= l < all.len() && all[l] == spurs[k];
        assert(is_spur_below(m, m.bins() as int, exclude, all[l]));
        let i = choose|i: int|
            0 <= i < m.bins() && #[trigger] m.is_spur(i, exclude) && all[l] == m.spur_at(i);
        lemma_standing_out(m, i, exclude);
        lemma_bin_freq(m, i);
        assert(stands_out(m, i, exclude));
    }
    assert forall|i: int| #[trigger] stands_out(m, i, exclude) implies (exists|k: int|
        0 <= k < spurs.len() && is_at(m, #[trigger] spurs[k], i)) || (spurs.len() == 10 && forall|
        k: int,
    |
        0 <= k < spurs.len() ==> (#[trigger] spurs[k]).amplitude_dbfs_hz > m.psd_dbfs_hz@[i] || (
        spurs[k].amplitude_dbfs_hz == m.psd_dbfs_hz@[i] && spurs[k].freq < i * m.fft_bin)) by {
        lemma_standing_out(m, i, exclude);
        lemma_bin_freq(m, i);
        assert(m.is_spur(i, exclude));
        assert(all.contains(m.spur_at(i)));
        let l = choose|l: int| 0 <= l < all.len() && all[l] == m.spur_at(i);
        if spurs.contains(all[l]) {
            let k = choose|k: int| 0 <= k < spurs.len() && spurs[k] == all[l];
            assert(is_at(m, spurs[k], i));
        }
    }
}

proof fn lemma_bin_freq(m: Metrics, i: int)
    requires
        m.readable(),
        0 <= i < m.bins(),
    ensures
        m.spur_at(i).freq == i * m.fft_bin,
{
    assert(0 <= i * m.fft_bin <= m.bins() * m.fft_bin) by (nonlinear_arith)
        requires
            0 <= i < m.bins(),
            0 <= m.fft_bin,
    ;
}

} // verus!
