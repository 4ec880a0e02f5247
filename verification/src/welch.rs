//! Cutting a sample stream into the segments of a Welch average.

use vstd::arithmetic::power::*;
use vstd::arithmetic::power2::*;
use vstd::prelude::*;

verus! {

/// Frequencies are counted in ticks; this many make a hertz. Every bin width of every sample
/// rate is a whole number of ticks.
pub const TICKS_PER_HZ: u64 = 2_097_152;

/// The sample rate in units of the reference bin width of 2441.41 Hz, rounded to the nearest
/// integer. No rate lies halfway between two.
pub open spec fn reference_bins(sample_rate: nat) -> nat {
    (200 * sample_rate + 244141) / 488282
}

/// `p`, doubled until it reaches `target`.
pub open spec fn doubled_to(p: nat, target: nat) -> nat
    decreases 2 * target - p,
{
    if p == 0 || p >= target {
        p
    } else {
        doubled_to(2 * p, target)
    }
}

/// The transform length for a sample rate: 4096, doubled until it reaches the reference bin count.
pub open spec fn transform_length(sample_rate: nat) -> nat {
    doubled_to(4096, reference_bins(sample_rate))
}

/// The width of one bin, in ticks.
pub open spec fn bin_ticks(sample_rate: nat) -> nat {
    sample_rate * (TICKS_PER_HZ as nat / transform_length(sample_rate))
}

/// The transform length for a sample rate: the smallest power of two, from 4096 up, that is not
/// below the reference bin count. It divides the ticks of a hertz.
pub fn segment_size(sample_rate: u32) -> (size: usize)
    ensures
        size == transform_length(sample_rate as nat),
        exists|k: nat| 12 <= k <= 21 && size == #[trigger] pow2(k),
        size >= reference_bins(sample_rate as nat),
        size == 4096 || size < 2 * reference_bins(sample_rate as nat),
        4096 <= size <= 2_097_152,
        TICKS_PER_HZ as int % (size as int) == 0,
{
    let target: u64 = (200 * sample_rate as u64 + 244141) / 488282;
    let mut size: u64 = 4096;
    let ghost mut k: nat = 12;
    proof {
        lemma2_to64();
    }
    while size < target
        invariant
            12 <= k <= 21,
            size == pow2(k),
            4096 <= size <= 2_097_152,
            pow2(21) == 2_097_152,
            2_097_152int % (size as int) == 0,
            size == 4096 || size < 2 * target,
            target <= 1_759_219,
            doubled_to(4096, target as nat) == doubled_to(size as nat, target as nat),
        decreases 2_097_152 - size,
    {
        proof {
            lemma_pow2_unfold(k + 1);
            lemma2_to64();
            assert(k == 12 || k == 13 || k == 14 || k == 15 || k == 16 || k == 17 || k == 18
                || k == 19 || k == 20);
            k = k + 1;
        }
        size = 2 * size;
    }
    size as usize
}

/// The width of one bin, in ticks.
pub fn bin_width(sample_rate: u32) -> (ticks: u64)
    ensures
        ticks == bin_ticks(sample_rate as nat),
        ticks * transform_length(sample_rate as nat) == sample_rate * TICKS_PER_HZ,
        ticks <= sample_rate * 512,
        sample_rate > 0 ==> ticks > 0,
{
    let size: u64 = segment_size(sample_rate) as u64;
    let per_bin: u64 = TICKS_PER_HZ / size;
    proof {
        vstd::arithmetic::div_mod::lemma_fundamental_div_mod(TICKS_PER_HZ as int, size as int);
        assert(1 <= per_bin <= 512) by (nonlinear_arith)
            requires
                size * per_bin == 2_097_152,
                4096 <= size <= 2_097_152,
        ;
        assert(sample_rate * per_bin <= sample_rate * 512) by (nonlinear_arith)
            requires
                0 <= per_bin <= 512,
                0 <= sample_rate,
        ;
        assert(sample_rate > 0 ==> sample_rate * per_bin > 0) by (nonlinear_arith)
            requires
                per_bin >= 1,
                0 <= sample_rate,
        ;
        assert(sample_rate * per_bin * size == sample_rate * 2_097_152) by (nonlinear_arith)
            requires
                size * per_bin == 2_097_152,
        ;
    }
    sample_rate as u64 * per_bin
}

/// The samples of `s` cut into whole segments of `size`, front to back.
pub open spec fn segments(s: Seq<i32>, size: nat) -> Seq<Seq<i32>>
    decreases s.len(),
{
    if size == 0 || s.len() < size {
        Seq::empty()
    } else {
        seq![s.take(size as int)] + segments(s.skip(size as int), size)
    }
}

/// What is left of `s` behind its last whole segment.
pub open spec fn remainder(s: Seq<i32>, size: nat) -> Seq<i32>
    decreases s.len(),
{
    if size == 0 || s.len() < size {
        s
    } else {
        remainder(s.skip(size as int), size)
    }
}

/// The frames as sequences of samples.
pub open spec fn frames_view(frames: Seq<Vec<i32>>) -> Seq<Seq<i32>> {
    frames.map_values(|f: Vec<i32>| f@)
}

/// A stream of samples on its way into a Welch average.
pub struct Accum {
    pub sample_rate: u32,
    pub bits: u32,
    /// Samples taken in so far.
    pub count: u64,
    /// Samples that wait for their segment to fill.
    pub fft_buf: Vec<i32>,
    pub segment_size: usize,
    /// Whole segments handed out so far.
    pub psd_segments: u64,
}

/// What is left to do when a stream has ended.
pub struct Finished {
    /// A last short segment, zeros behind its samples up to the transform length.
    pub last_frame: Option<Vec<i32>>,
    pub sample_rate: u32,
    pub bits: u32,
    pub num_samples: u64,
    pub welch_segments: u64,
}

/// `s` with zeros behind it, `size` samples in all.
pub open spec fn zero_padded(s: Seq<i32>, size: nat) -> Seq<i32> {
    s + Seq::new((size - s.len()) as nat, |i: int| 0i32)
}

impl Accum {
    /// The buffer is shorter than a segment, and every sample counted was handed out or waits.
    pub open spec fn wf(&self) -> bool {
        &&& self.segment_size == transform_length(self.sample_rate as nat)
        &&& 4096 <= self.segment_size <= 2_097_152
        &&& self.fft_buf@.len() < self.segment_size
        &&& self.count == self.psd_segments * self.segment_size + self.fft_buf@.len()
    }

    /// Whether the samples that still wait are worth a segment of their own: they are the only
    /// ones, or half a segment.
    pub open spec fn tail_counts(&self) -> bool {
        self.fft_buf@.len() > 0 && (self.psd_segments == 0 || self.fft_buf@.len()
            >= self.segment_size as nat / 2)
    }

    /// How taking in `samples` changes the stream, and the frames that it hands out: the samples
    /// join those that wait, whole segments leave from the front, the rest waits.
    pub open spec fn pushed(&self, samples: Seq<i32>, after: Accum, frames: Seq<Vec<i32>>) -> bool {
        let all = self.fft_buf@ + samples;
        &&& after.wf()
        &&& frames_view(frames) == segments(all, self.segment_size as nat)
        &&& after.fft_buf@ == remainder(all, self.segment_size as nat)
        &&& after.count == self.count + samples.len()
        &&& after.psd_segments == self.psd_segments + frames.len()
        &&& after.sample_rate == self.sample_rate
        &&& after.bits == self.bits
        &&& after.segment_size == self.segment_size
    }

    /// What the end of the stream leaves to do: the waiting samples make a last segment where they
    /// count, and are dropped where they do not.
    pub open spec fn finished(&self, done: Finished) -> bool {
        &&& done.last_frame is Some <==> self.tail_counts()
        &&& done.last_frame matches Some(frame) ==> frame@ == zero_padded(
            self.fft_buf@,
            self.segment_size as nat,
        )
        &&& done.sample_rate == self.sample_rate
        &&& done.bits == self.bits
        &&& done.num_samples == self.count
        &&& done.welch_segments == self.psd_segments + if self.tail_counts() {
            1int
        } else {
            0
        }
    }

    /// An empty stream.
    pub fn new(sample_rate: u32, bits: u32) -> (acc: Accum)
        ensures
            acc.wf(),
            acc.sample_rate == sample_rate,
            acc.bits == bits,
            acc.count == 0,
            acc.fft_buf@ == Seq::<i32>::empty(),
            acc.psd_segments == 0,
    {
        let size: usize = segment_size(sample_rate);
        Accum {
            sample_rate,
            bits,
            count: 0,
            fft_buf: Vec::with_capacity(size),
            segment_size: size,
            psd_segments: 0,
        }
    }

    /// Takes samples in and hands out the segments that they fill.
    pub fn push_batch(&mut self, samples: &[i32]) -> (frames: Vec<Vec<i32>>)
        requires
            old(self).wf(),
            old(self).count + samples@.len() <= u64::MAX,
        ensures
            old(self).pushed(samples@, *final(self), frames@),
    {
        let size: usize = self.segment_size;
        let mut frames: Vec<Vec<i32>> = Vec::new();
        let mut offset: usize = 0;
        let ghost all = old(self).fft_buf@ + samples@;
        assert(self.fft_buf@ + samples@.skip(0) == all);
        assert(frames_view(frames@) == Seq::<Seq<i32>>::empty());
        while offset < samples.len()
            invariant
                self.wf(),
                size == self.segment_size,
                0 <= offset <= samples@.len(),
                self.count + (samples@.len() - offset) <= u64::MAX,
                self.count == old(self).count + offset,
                self.psd_segments == old(self).psd_segments + frames@.len(),
                self.sample_rate == old(self).sample_rate,
                self.bits == old(self).bits,
                self.segment_size == old(self).segment_size,
                segments(all, size as nat) == frames_view(frames@) + segments(
                    self.fft_buf@ + samples@.skip(offset as int),
                    size as nat,
                ),
                remainder(all, size as nat) == remainder(
                    self.fft_buf@ + samples@.skip(offset as int),
                    size as nat,
                ),
            decreases samples@.len() - offset,
        {
            let space: usize = size - self.fft_buf.len();
            let left: usize = samples.len() - offset;
            let taken: usize = if space < left {
                space
            } else {
                left
            };
            let ghost before = self.fft_buf@;
            let ghost rest = before + samples@.skip(offset as int);
            let chunk = vstd::slice::slice_subrange(samples, offset, offset + taken);
            self.count = self.count + taken as u64;
            self.fft_buf.extend_from_slice(chunk);
            offset = offset + taken;
            assert(self.fft_buf@ == before + chunk@);
            assert(self.fft_buf@ + samples@.skip(offset as int) == rest);
            if self.fft_buf.len() >= size {
                let mut frame: Vec<i32> = Vec::new();
                std::mem::swap(&mut frame, &mut self.fft_buf);
                let ghost frames_before = frames@;
                proof {
                    assert(rest.take(size as int) == frame@);
                    assert(rest.skip(size as int) == self.fft_buf@ + samples@.skip(offset as int));
                    assert(frames_view(frames_before.push(frame)) == frames_view(
                        frames_before,
                    ).push(frame@));
                    assert(frames_view(frames_before).push(frame@) + segments(
                        rest.skip(size as int),
                        size as nat,
                    ) == frames_view(frames_before) + segments(rest, size as nat));
                }
                frames.push(frame);
                assert((self.psd_segments + 1) * size == self.psd_segments * size + size)
                    by (nonlinear_arith);
                assert(self.psd_segments + 1 <= (self.psd_segments + 1) * size)
                    by (nonlinear_arith)
                    requires
                        size >= 1,
                ;
                self.psd_segments = self.psd_segments + 1;
            }
        }
        assert(self.fft_buf@ + samples@.skip(offset as int) == self.fft_buf@);
        assert(frames_view(frames@) + Seq::<Seq<i32>>::empty() == frames_view(frames@));
        frames
    }

    /// Ends the stream.
    pub fn finalize(self) -> (done: Finished)
        requires
            self.wf(),
        ensures
            self.finished(done),
    {
        let mut frame: Vec<i32> = self.fft_buf;
        if frame.len() > 0 && (self.psd_segments == 0 || frame.len() >= self.segment_size / 2) {
            let ghost buf = frame@;
            while frame.len() < self.segment_size
                invariant
                    buf.len() <= frame@.len() <= self.segment_size,
                    frame@ == zero_padded(buf, frame@.len()),
                decreases self.segment_size - frame@.len(),
            {
                frame.push(0);
            }
            assert(self.psd_segments < self.count) by (nonlinear_arith)
                requires
                    self.count == self.psd_segments * self.segment_size + buf.len(),
                    self.segment_size >= 1,
                    buf.len() > 0,
            ;
            Finished {
                last_frame: Some(frame),
                sample_rate: self.sample_rate,
                bits: self.bits,
                num_samples: self.count,
                welch_segments: self.psd_segments + 1,
            }
        } else {
            Finished {
                last_frame: None,
                sample_rate: self.sample_rate,
                bits: self.bits,
                num_samples: self.count,
                welch_segments: self.psd_segments,
            }
        }
    }
}

/// The amplitude of full scale: half the range of the converter.
pub open spec fn amplitude(bits: nat) -> nat {
    pow2((bits - 1) as nat)
}

/// The amplitude of full scale: half the range of the converter.
pub fn full_scale(bits: u32) -> (r: u64)
    requires
        1 <= bits <= 64,
    ensures
        r == pow2((bits - 1) as nat),
        r == amplitude(bits as nat),
{
    let mut r: u64 = 1;
    let mut i: u32 = 1;
    proof {
        lemma_pow2(0);
        lemma_pow0(2);
    }
    while i < bits
        invariant
            1 <= i <= bits <= 64,
            r == pow2((i - 1) as nat),
        decreases bits - i,
    {
        proof {
            lemma_pow2_unfold(i as nat);
            lemma_pow2_unfold(63);
            lemma2_to64_rest();
            if i < 63 {
                lemma_pow2_strictly_increases(i as nat, 63);
            }
        }
        r = 2 * r;
        i = i + 1;
    }
    r
}

/// How often the power of a bin counts in a one-sided density of `half` bins.
pub open spec fn one_sided(bin: int, half: int) -> int {
    if 0 < bin < half - 1 {
        2
    } else {
        1
    }
}

/// How often the power of a bin counts in a one-sided density of `half` bins: twice, for the
/// negative frequency that is left out, except at the two ends.
pub fn one_sided_weight(bin: usize, half: usize) -> (w: u32)
    requires
        half > 0,
    ensures
        w == if 0 < bin < half - 1 {
            2u32
        } else {
            1u32
        },
        w == one_sided(bin as int, half as int),
{
    if bin > 0 && bin < half - 1 {
        2
    } else {
        1
    }
}

/// The samples of segments, one behind the other.
pub open spec fn joined(parts: Seq<Seq<i32>>) -> Seq<i32>
    decreases parts.len(),
{
    if parts.len() == 0 {
        Seq::empty()
    } else {
        parts[0] + joined(parts.drop_first())
    }
}

/// Cutting a stream loses no sample, repeats none and keeps their order; every segment is whole,
/// and less than a segment is left.
pub proof fn law_no_sample_is_lost(s: Seq<i32>, size: nat)
    requires
        size > 0,
    ensures
        joined(segments(s, size)) + remainder(s, size) == s,
        forall|i: int|
            0 <= i < segments(s, size).len() ==> (#[trigger] segments(s, size)[i]).len() == size,
        remainder(s, size).len() < size,
    decreases s.len(),
{
    if s.len() >= size {
        let rest = s.skip(size as int);
        law_no_sample_is_lost(rest, size);
        let parts = segments(s, size);
        assert(parts.drop_first() =~= segments(rest, size));
        assert(s =~= s.take(size as int) + rest);
        assert(joined(parts) + remainder(s, size) =~= s);
        assert forall|i: int| 0 <= i < parts.len() implies (#[trigger] parts[i]).len() == size by {
            if i > 0 {
                assert(parts[i] == segments(rest, size)[i - 1]);
            }
        }
    } else {
        assert(joined(segments(s, size)) + remainder(s, size) =~= s);
    }
}

/// It does not matter in which batches samples come: what one batch leaves waiting, followed by
/// the next batch, is cut as the two batches in one.
pub proof fn law_batches_do_not_matter(waiting: Seq<i32>, a: Seq<i32>, b: Seq<i32>, size: nat)
    requires
        size > 0,
    ensures
        segments(waiting + (a + b), size) == segments(waiting + a, size) + segments(
            remainder(waiting + a, size) + b,
            size,
        ),
        remainder(waiting + (a + b), size) == remainder(remainder(waiting + a, size) + b, size),
{
    assert(waiting + (a + b) =~= (waiting + a) + b);
    lemma_cut_in_two(waiting + a, b, size);
}

/// Samples taken in as two batches or as one leave the same stream and hand out the same segments.
pub proof fn law_two_batches_are_one(
    acc: Accum,
    a: Seq<i32>,
    b: Seq<i32>,
    first: Accum,
    second: Accum,
    at_once: Accum,
    frames_a: Seq<Vec<i32>>,
    frames_b: Seq<Vec<i32>>,
    frames: Seq<Vec<i32>>,
)
    requires
        acc.wf(),
        acc.pushed(a, first, frames_a),
        first.pushed(b, second, frames_b),
        acc.pushed(a + b, at_once, frames),
    ensures
        second.count == at_once.count,
        second.fft_buf@ == at_once.fft_buf@,
        second.psd_segments == at_once.psd_segments,
        second.sample_rate == at_once.sample_rate,
        second.bits == at_once.bits,
        second.segment_size == at_once.segment_size,
        frames_view(frames_a) + frames_view(frames_b) == frames_view(frames),
{
    law_batches_do_not_matter(acc.fft_buf@, a, b, acc.segment_size as nat);
    assert(frames_view(frames_a).len() == frames_a.len());
    assert(frames_view(frames_b).len() == frames_b.len());
    assert(frames_view(frames).len() == frames.len());
}

/// An empty batch changes nothing and hands nothing out.
pub proof fn law_empty_batch_changes_nothing(acc: Accum, after: Accum, frames: Seq<Vec<i32>>)
    requires
        acc.wf(),
        acc.pushed(Seq::empty(), after, frames),
    ensures
        after.count == acc.count,
        after.fft_buf@ == acc.fft_buf@,
        after.psd_segments == acc.psd_segments,
        after.sample_rate == acc.sample_rate,
        after.bits == acc.bits,
        after.segment_size == acc.segment_size,
        frames.len() == 0,
{
    assert(acc.fft_buf@ + Seq::<i32>::empty() =~= acc.fft_buf@);
    assert(frames_view(frames).len() == frames.len());
}

proof fn lemma_cut_in_two(s: Seq<i32>, t: Seq<i32>, size: nat)
    requires
        size > 0,
    ensures
        segments(s + t, size) == segments(s, size) + segments(remainder(s, size) + t, size),
        remainder(s + t, size) == remainder(remainder(s, size) + t, size),
    decreases s.len(),
{
    if s.len() >= size {
        let rest = s.skip(size as int);
        lemma_cut_in_two(rest, t, size);
        assert((s + t).take(size as int) =~= s.take(size as int));
        assert((s + t).skip(size as int) =~= rest + t);
        assert(segments(s + t, size) =~= segments(s, size) + segments(
            remainder(s, size) + t,
            size,
        ));
    } else {
        assert(segments(s + t, size) =~= segments(s, size) + segments(
            remainder(s, size) + t,
            size,
        ));
    }
}

/// Every capture that holds a sample is measured, in one segment at least, and an empty one in
/// none; less than half a segment is left unmeasured.
pub proof fn law_every_capture_is_measured(acc: Accum, done: Finished)
    requires
        acc.wf(),
        acc.finished(done),
    ensures
        done.welch_segments > 0 <==> done.num_samples > 0,
        done.num_samples - done.welch_segments * acc.segment_size < acc.segment_size as nat / 2,
{
    assert(acc.psd_segments == 0 ==> acc.psd_segments * acc.segment_size == 0);
    assert(acc.psd_segments > 0 ==> acc.psd_segments * acc.segment_size > 0) by (nonlinear_arith)
        requires
            acc.segment_size > 0,
    ;
    assert((acc.psd_segments + 1) * acc.segment_size == acc.psd_segments * acc.segment_size
        + acc.segment_size) by (nonlinear_arith);
}

/// The reference bin count is the integer nearest to the sample rate over 2441.41 Hz.
pub proof fn law_reference_bins_are_nearest(sample_rate: nat)
    ensures
        -244_141 <= 2 * (reference_bins(sample_rate) * 244_141 - 100 * sample_rate) <= 244_141,
{
}

proof fn lemma_doubled(p: nat, target: nat, k: nat, j: nat)
    requires
        p == pow2(k),
        target <= pow2(j),
        k <= j,
    ensures
        exists|e: nat| k <= e <= j && doubled_to(p, target) == #[trigger] pow2(e),
        doubled_to(p, target) >= target,
        doubled_to(p, target) == p || doubled_to(p, target) < 2 * target,
    decreases 2 * target - p,
{
    lemma_pow2_pos(k);
    if p >= target {
        assert(doubled_to(p, target) == pow2(k));
    } else {
        if k == j {
            assert(false);
        }
        lemma_pow2_unfold(k + 1);
        lemma_doubled(2 * p, target, k + 1, j);
        let e = choose|e: nat|
            k + 1 <= e <= j && doubled_to(2 * p, target) == #[trigger] pow2(e);
        assert(doubled_to(p, target) == pow2(e));
    }
}

/// The transform length is a power of two from 4096 up: the first that does not cut the reference
/// bins, of 2441.41 Hz, short. `bins` is their number, the integer nearest to what the sample rate
/// holds of them.
pub proof fn law_transform_length_fits_the_rate(sample_rate: u32, bins: int)
    requires
        -244_141 < 2 * (bins * 244_141 - 100 * sample_rate) < 244_141,
    ensures
        exists|e: nat|
            12 <= e <= 21 && transform_length(sample_rate as nat) == #[trigger] pow2(e),
        transform_length(sample_rate as nat) >= bins,
        transform_length(sample_rate as nat) == 4096 || transform_length(sample_rate as nat) < 2
            * bins,
{
    lemma2_to64();
    law_reference_bins_are_nearest(sample_rate as nat);
    let r = reference_bins(sample_rate as nat);
    assert(r == bins);
    lemma_doubled(4096, r, 12, 21);
}

/// The bins of a transform share the sample rate out evenly: a bin's ticks, of which 2097152 make a
/// hertz, times the length is the rate.
pub proof fn law_bins_share_the_rate(sample_rate: u32)
    ensures
        bin_ticks(sample_rate as nat) * transform_length(sample_rate as nat) == sample_rate
            * 2_097_152,
{
    lemma2_to64();
    law_reference_bins_are_nearest(sample_rate as nat);
    lemma_doubled(4096, reference_bins(sample_rate as nat), 12, 21);
    let len = transform_length(sample_rate as nat);
    let e = choose|e: nat| 12 <= e <= 21 && len == #[trigger] pow2(e);
    lemma_pow2_adds(e, (21 - e) as nat);
    lemma_pow2_pos(e);
    let per = pow2((21 - e) as nat);
    assert(per * len == len * per) by (nonlinear_arith);
    vstd::arithmetic::div_mod::lemma_fundamental_div_mod_converse(
        2_097_152,
        len as int,
        per as int,
        0,
    );
    assert(sample_rate * per * len == sample_rate * (per * len)) by (nonlinear_arith);
}

/// What goes into a stream comes out of it: the segments handed out, one behind the other, and then
/// what waits, are the samples that waited before and then those taken in. Every segment is whole,
/// and what waits is less than one. Samples and segments are counted; nothing else changes.
pub proof fn law_stream_goes_through(
    acc: Accum,
    samples: Seq<i32>,
    after: Accum,
    frames: Seq<Vec<i32>>,
)
    requires
        acc.wf(),
        acc.pushed(samples, after, frames),
    ensures
        joined(frames_view(frames)) + after.fft_buf@ == acc.fft_buf@ + samples,
        forall|i: int| 0 <= i < frames.len() ==> (#[trigger] frames[i])@.len() == acc.segment_size,
        after.fft_buf@.len() < acc.segment_size,
        after.count == acc.count + samples.len(),
        after.psd_segments == acc.psd_segments + frames.len(),
        after.sample_rate == acc.sample_rate,
        after.bits == acc.bits,
        after.segment_size == acc.segment_size,
{
    let all = acc.fft_buf@ + samples;
    let size = acc.segment_size as nat;
    law_no_sample_is_lost(all, size);
    assert forall|i: int| 0 <= i < frames.len() implies (#[trigger] frames[i])@.len()
        == acc.segment_size by {
        assert(frames_view(frames)[i] == frames[i]@);
        assert(segments(all, size)[i].len() == size);
    }
}

/// The end of a stream: waiting samples make a last segment where there was none before, or where
/// they fill half of one, and are dropped else. The segment holds them, and zeros behind them.
pub proof fn law_end_of_stream(acc: Accum, done: Finished)
    requires
        acc.wf(),
        acc.finished(done),
    ensures
        done.last_frame is Some <==> acc.fft_buf@.len() > 0 && (acc.psd_segments == 0 || acc.fft_buf@.len()
            >= acc.segment_size as int / 2),
        done.last_frame matches Some(frame) ==> {
            &&& frame@.len() == acc.segment_size
            &&& forall|i: int|
                0 <= i < frame@.len() ==> #[trigger] frame@[i] == if i < acc.fft_buf@.len() {
                    acc.fft_buf@[i]
                } else {
                    0i32
                }
        },
        done.welch_segments == acc.psd_segments + if done.last_frame is Some {
            1int
        } else {
            0
        },
        done.num_samples == acc.count,
        done.sample_rate == acc.sample_rate,
        done.bits == acc.bits,
{
}

/// Full scale doubles with every bit.
pub proof fn law_full_scale_doubles(bits: nat)
    ensures
        amplitude(1) == 1,
        bits > 0 ==> amplitude(bits + 1) == 2 * amplitude(bits),
{
    lemma_pow2(0);
    lemma_pow0(2);
    if bits > 0 {
        lemma_pow2_unfold(bits);
    }
}

/// The first and the last bin count once, those between them twice.
pub proof fn law_inner_bins_count_twice(bin: nat, half: nat)
    requires
        bin < half,
    ensures
        one_sided(bin as int, half as int) == if bin == 0 || bin + 1 == half {
            1int
        } else {
            2
        },
{
}

} // verus!
