//! From the bytes or decoded words of a capture file to samples.

use crate::text::{lower_is, push_digits};
use crate::welch::{Accum, Finished};
use vstd::arithmetic::power::*;
use vstd::arithmetic::power2::*;
use vstd::prelude::*;

verus! {

/// How a raw capture stores a sample.
#[derive(Clone, Copy, Debug, PartialEq, Eq, Structural)]
pub enum RawEncoding {
    /// One byte, two's complement.
    Signed8,
    /// Two bytes, low one first, two's complement.
    Signed16,
    /// Two bytes, low one first, around the middle of the converter's range.
    Unsigned16,
}

/// How a capture file is read.
#[derive(Clone, Copy, Debug, PartialEq, Eq, Structural)]
pub enum CaptureFormat {
    Flac,
    Raw { encoding: RawEncoding, bits: u32 },
}

#[derive(Clone, Copy, Debug, PartialEq, Eq, Structural)]
pub enum CaptureError {
    /// A raw bit depth outside 1 to 16.
    BitDepth,
    /// A piece of a two-byte capture with an odd number of bytes.
    OddLength,
}

/// The raw encoding that a file name extension stands for.
pub open spec fn raw_encoding(ext: Seq<char>) -> RawEncoding {
    if crate::text::lower(ext) == "8bit"@ {
        RawEncoding::Signed8
    } else if crate::text::lower(ext) == "s16"@ {
        RawEncoding::Signed16
    } else {
        RawEncoding::Unsigned16
    }
}

/// The bit depth of a raw capture: the given one, else 16.
pub open spec fn raw_bits(bits_hint: Option<u32>) -> u32 {
    match bits_hint {
        Some(bits) => bits,
        None => 16,
    }
}

/// How to read a capture with this file name extension.
pub open spec fn format_of(ext: Seq<char>, bits_hint: Option<u32>) -> Result<
    CaptureFormat,
    CaptureError,
> {
    if crate::text::lower(ext) == "flac"@ {
        Ok(CaptureFormat::Flac)
    } else if 1 <= raw_bits(bits_hint) <= 16 {
        Ok((CaptureFormat::Raw { encoding: raw_encoding(ext), bits: raw_bits(bits_hint) }))
    } else {
        Err(CaptureError::BitDepth)
    }
}

/// How to read a capture with this file name extension.
pub fn capture_format(ext: &str, bits_hint: Option<u32>) -> (r: Result<CaptureFormat, CaptureError>)
    ensures
        r == if crate::text::lower(ext@) == "flac"@ {
            Ok::<CaptureFormat, CaptureError>(CaptureFormat::Flac)
        } else if 1 <= raw_bits(bits_hint) <= 16 {
            Ok(
                (CaptureFormat::Raw { encoding: raw_encoding(ext@), bits: raw_bits(bits_hint) }),
            )
        } else {
            Err(CaptureError::BitDepth)
        },
        r == format_of(ext@, bits_hint),
{
    if lower_is(ext, "flac") {
        return Ok(CaptureFormat::Flac);
    }
    let bits: u32 = match bits_hint {
        Some(bits) => bits,
        None => 16,
    };
    if bits == 0 || bits > 16 {
        return Err(CaptureError::BitDepth);
    }
    let encoding = if lower_is(ext, "8bit") {
        RawEncoding::Signed8
    } else if lower_is(ext, "s16") {
        RawEncoding::Signed16
    } else {
        RawEncoding::Unsigned16
    };
    Ok(CaptureFormat::Raw { encoding, bits })
}

impl CaptureError {
    /// The message for the file `path`.
    pub open spec fn words(self, path: Seq<char>) -> Seq<char> {
        match self {
            CaptureError::BitDepth => "raw bit depth must be in 1..=16"@,
            CaptureError::OddLength => "file size is not even: "@ + path,
        }
    }

    /// The message for the file `path`.
    pub fn message(&self, path: &str) -> (r: String)
        ensures
            r@ == match *self {
                CaptureError::BitDepth => "raw bit depth must be in 1..=16"@,
                CaptureError::OddLength => "file size is not even: "@ + path@,
            },
            r@ == self.words(path@),
    {
        match *self {
            CaptureError::BitDepth => "raw bit depth must be in 1..=16".to_owned(),
            CaptureError::OddLength => "file size is not even: ".to_owned().concat(path),
        }
    }
}

/// The number that `width` bits hold in two's complement, from their unsigned value.
pub open spec fn twos_complement(u: int, width: nat) -> int {
    if u < pow2((width - 1) as nat) {
        u
    } else {
        u - pow2(width)
    }
}

/// The unsigned value of the `i`-th pair of bytes, low byte first.
pub open spec fn le_word(bytes: Seq<u8>, i: int) -> int {
    bytes[2 * i] + 256 * bytes[2 * i + 1]
}

/// The number of samples that the bytes of a raw capture hold.
pub open spec fn raw_count(bytes: Seq<u8>, encoding: RawEncoding) -> nat {
    if encoding == RawEncoding::Signed8 {
        bytes.len()
    } else {
        bytes.len() / 2
    }
}

/// The value of the `i`-th sample of a raw capture.
pub open spec fn raw_sample(bytes: Seq<u8>, encoding: RawEncoding, bits: u32, i: int) -> int {
    match encoding {
        RawEncoding::Signed8 => twos_complement(bytes[i] as int, 8),
        RawEncoding::Signed16 => twos_complement(le_word(bytes, i), 16),
        RawEncoding::Unsigned16 => le_word(bytes, i) - pow2((bits - 1) as nat),
    }
}

/// The samples that the bytes of a raw capture hold. Each fits its machine integer.
pub open spec fn raw_samples(bytes: Seq<u8>, encoding: RawEncoding, bits: u32) -> Seq<i32> {
    Seq::new(
        raw_count(bytes, encoding),
        |i: int| raw_sample(bytes, encoding, bits, i) as i32,
    )
}

/// Whether the bytes are whole samples.
pub open spec fn whole_samples(bytes: Seq<u8>, encoding: RawEncoding) -> bool {
    encoding == RawEncoding::Signed8 || bytes.len() % 2 == 0
}

proof fn lemma_small_powers()
    ensures
        pow2(7) == 128,
        pow2(8) == 256,
        pow2(15) == 32768,
        pow2(16) == 65536,
{
    lemma2_to64();
}

fn midpoint(bits: u32) -> (m: i32)
    requires
        1 <= bits <= 16,
    ensures
        m == pow2((bits - 1) as nat),
        1 <= m <= 32768,
{
    let mut m: i32 = 1;
    let mut i: u32 = 1;
    proof {
        lemma2_to64();
    }
    while i < bits
        invariant
            1 <= i <= bits <= 16,
            m == pow2((i - 1) as nat),
            1 <= m,
            pow2(15) == 32768,
        decreases bits - i,
    {
        proof {
            lemma_pow2_unfold(i as nat);
            if i < 15 {
                lemma_pow2_strictly_increases(i as nat, 15);
            }
        }
        m = 2 * m;
        i = i + 1;
    }
    proof {
        if bits < 16 {
            lemma_pow2_strictly_increases((bits - 1) as nat, 15);
        }
    }
    m
}

/// The samples that a piece of a raw capture holds.
pub fn decode_raw(bytes: &[u8], encoding: RawEncoding, bits: u32) -> (r: Result<
    Vec<i32>,
    CaptureError,
>)
    requires
        1 <= bits <= 16,
    ensures
        r is Ok <==> whole_samples(bytes@, encoding),
        r matches Ok(v) ==> v@ == raw_samples(bytes@, encoding, bits),
        r matches Ok(v) ==> forall|i: int|
            0 <= i < v@.len() ==> #[trigger] v@[i] == raw_sample(bytes@, encoding, bits, i),
        r matches Err(e) ==> e == CaptureError::OddLength,
{
    proof {
        lemma_small_powers();
    }
    let n: usize = bytes.len();
    let mut v: Vec<i32> = Vec::new();
    if encoding == RawEncoding::Signed8 {
        let mut i: usize = 0;
        while i < n
            invariant
                n == bytes@.len(),
                i <= n,
                v@.len() == i,
                encoding == RawEncoding::Signed8,
                forall|j: int|
                    0 <= j < i ==> #[trigger] v@[j] == raw_sample(bytes@, encoding, bits, j),
                pow2(7) == 128,
                pow2(8) == 256,
            decreases n - i,
        {
            let u: i32 = bytes[i] as i32;
            v.push(
                if u < 128 {
                    u
                } else {
                    u - 256
                },
            );
            i = i + 1;
        }
        assert(v@ =~= raw_samples(bytes@, encoding, bits));
        return Ok(v);
    }
    if n % 2 != 0 {
        return Err(CaptureError::OddLength);
    }
    let middle: i32 = midpoint(bits);
    let pairs: usize = n / 2;
    let mut i: usize = 0;
    while i < pairs
        invariant
            n == bytes@.len(),
            pairs == n / 2,
            i <= pairs,
            v@.len() == i,
            encoding != RawEncoding::Signed8,
            middle == pow2((bits - 1) as nat),
            1 <= middle <= 32768,
            forall|j: int|
                0 <= j < i ==> #[trigger] v@[j] == raw_sample(bytes@, encoding, bits, j),
            pow2(15) == 32768,
            pow2(16) == 65536,
        decreases pairs - i,
    {
        let u: i32 = bytes[2 * i] as i32 + 256 * (bytes[2 * i + 1] as i32);
        let sample: i32 = if encoding == RawEncoding::Signed16 {
            if u < 32768 {
                u
            } else {
                u - 65536
            }
        } else {
            u - middle
        };
        v.push(sample);
        i = i + 1;
    }
    assert(v@ =~= raw_samples(bytes@, encoding, bits));
    Ok(v)
}

/// The sample rate of a FLAC capture. The header holds at most 655350 Hz, so that a rate from
/// 1000 up to that is counted in kilosamples; without a header rate the hint is read likewise.
pub open spec fn flac_rate(header: Option<u32>, hint: u32) -> u32 {
    let rate = match header {
        Some(rate) => rate,
        None => hint,
    };
    if 1000 <= rate <= 655350 {
        (rate * 1000) as u32
    } else {
        rate
    }
}

/// The sample rate of a FLAC capture, in hertz.
pub fn flac_sample_rate(header: Option<u32>, hint: u32) -> (rate: u32)
    ensures
        rate == flac_rate(header, hint),
{
    let rate: u32 = match header {
        Some(rate) => rate,
        None => hint,
    };
    if rate <= 655350 && rate >= 1000 {
        rate * 1000
    } else {
        rate
    }
}

/// What to tell of a FLAC sample rate that is not the expected one. An expectation that is no
/// default of the program was asked for, and is warned about.
pub open spec fn rate_notice(rate: u32, hint: u32) -> Option<Seq<char>> {
    if rate == hint {
        None
    } else if hint != 40_000_000 && hint != 20_000_000 {
        Some(
            "WARNING: FLAC header says "@ + crate::text::digits(rate as nat)
                + " Hz but --orig-rate/--deci-rate says "@ + crate::text::digits(hint as nat)
                + " Hz; using FLAC header"@,
        )
    } else {
        Some(
            "NOTE: Using sample rate from FLAC header: "@ + crate::text::digits(rate as nat)
                + " Hz"@,
        )
    }
}

/// The line to print about a FLAC sample rate, if any.
pub fn flac_rate_notice(rate: u32, hint: u32) -> (r: Option<String>)
    ensures
        match r {
            Some(line) => rate_notice(rate, hint) == Some(line@),
            None => rate_notice(rate, hint) is None,
        },
{
    if rate == hint {
        return None;
    }
    if hint != 40_000_000 && hint != 20_000_000 {
        let mut line = "WARNING: FLAC header says ".to_owned();
        push_digits(&mut line, rate as u128);
        line.append(" Hz but --orig-rate/--deci-rate says ");
        push_digits(&mut line, hint as u128);
        line.append(" Hz; using FLAC header");
        Some(line)
    } else {
        let mut line = "NOTE: Using sample rate from FLAC header: ".to_owned();
        push_digits(&mut line, rate as u128);
        line.append(" Hz");
        Some(line)
    }
}

/// The bit depth of a FLAC capture: the one in its header, else 16.
pub open spec fn flac_bits(header: Option<u32>) -> u32 {
    match header {
        Some(bits) => bits,
        None => 16,
    }
}

/// Low bits of a decoded word that its sample does not use.
pub open spec fn unused_bits(bits: u32) -> nat {
    if bits < 32 {
        (32 - bits) as nat
    } else {
        0
    }
}

/// The sample in the high bits of a word: the word without its unused bits, rounded down.
pub open spec fn aligned_sample(word: i32, bits: u32) -> int {
    word as int / pow2(unused_bits(bits)) as int
}

/// The samples in words that hold them in their high bits. Each fits its machine integer.
pub open spec fn aligned_samples(words: Seq<i32>, bits: u32) -> Seq<i32> {
    words.map_values(|w: i32| aligned_sample(w, bits) as i32)
}

proof fn lemma_shift_is_division(w: i32, shift: u32)
    requires
        shift < 32,
    ensures
        (w >> shift) as int == w as int / pow2(shift as nat) as int,
{
    lemma_pow2_pos(shift as nat);
    let p = pow2(shift as nat) as int;
    if w >= 0 {
        let u = w as u32;
        vstd::bits::lemma_u32_shr_is_div(u, shift);
        assert((w >> shift) as u32 == u >> shift && (w >> shift) >= 0) by (bit_vector)
            requires
                w >= 0,
                u == w as u32,
                shift < 32,
        ;
    } else {
        let c = (-1 - w) as u32;
        vstd::bits::lemma_u32_shr_is_div(c, shift);
        assert((w >> shift) == -1 - (c >> shift)) by (bit_vector)
            requires
                w < 0,
                c == (-1 - w) as u32,
                shift < 32,
        ;
        let q = (c >> shift) as int;
        assert(w as int / p == -1 - q) by {
            vstd::arithmetic::div_mod::lemma_fundamental_div_mod(c as int, p);
            let r = c as int % p;
            assert(w as int == p * (-1 - q) + (p - 1 - r)) by (nonlinear_arith)
                requires
                    c as int == p * q + r,
                    w as int == -1 - c as int,
            ;
            vstd::arithmetic::div_mod::lemma_fundamental_div_mod_converse(
                w as int,
                p,
                -1 - q,
                p - 1 - r,
            );
        }
    }
}

/// The samples in decoded words, which hold them in their high bits.
pub fn align_samples(words: &[i32], bits: u32) -> (v: Vec<i32>)
    requires
        bits > 0,
    ensures
        v@ == aligned_samples(words@, bits),
        forall|i: int|
            0 <= i < v@.len() ==> #[trigger] v@[i] == aligned_sample(words@[i], bits),
{
    let shift: u32 = 32u32.saturating_sub(bits);
    let mut v: Vec<i32> = Vec::with_capacity(words.len());
    let mut i: usize = 0;
    while i < words.len()
        invariant
            i <= words@.len(),
            shift < 32,
            shift == unused_bits(bits),
            v@.len() == i,
            forall|j: int| 0 <= j < i ==> #[trigger] v@[j] == aligned_sample(words@[j], bits),
        decreases words@.len() - i,
    {
        proof {
            lemma_shift_is_division(words@[i as int], shift);
        }
        v.push(words[i] >> shift);
        i = i + 1;
    }
    assert(v@ =~= aligned_samples(words@, bits));
    v
}

/// A FLAC capture on its way into a Welch average.
pub struct FlacCapture {
    pub track_id: u32,
    pub acc: Accum,
}

impl FlacCapture {
    pub open spec fn wf(&self) -> bool {
        self.acc.wf() && self.acc.bits > 0
    }

    /// The capture that a header opens: of its track, bit depth and sample rate, with no sample yet.
    pub open spec fn opened(
        &self,
        track_id: u32,
        bits: Option<u32>,
        rate: Option<u32>,
        rate_hint: u32,
    ) -> bool {
        &&& self.track_id == track_id
        &&& self.acc.sample_rate == flac_rate(rate, rate_hint)
        &&& self.acc.bits == flac_bits(bits)
        &&& self.acc.count == 0
        &&& self.acc.psd_segments == 0
        &&& self.acc.fft_buf@ == Seq::<i32>::empty()
    }

    /// How a packet of words, or one that did not decode, changes the capture.
    pub open spec fn took(
        &self,
        words: Option<Seq<i32>>,
        after: FlacCapture,
        frames: Seq<Vec<i32>>,
    ) -> bool {
        &&& after.track_id == self.track_id
        &&& match words {
            Some(w) => self.acc.pushed(aligned_samples(w, self.acc.bits), after.acc, frames),
            None => after == *self && frames.len() == 0,
        }
    }

    /// A capture whose header gives the track, its bit depth and its sample rate.
    pub fn new(track_id: u32, bits: Option<u32>, rate: Option<u32>, rate_hint: u32) -> (c: Self)
        requires
            flac_bits(bits) > 0,
        ensures
            c.wf(),
            c.opened(track_id, bits, rate, rate_hint),
            bits matches Some(depth) ==> c.acc.bits == depth,
            bits is None ==> c.acc.bits == 16,
            c.track_id == track_id,
            c.acc.sample_rate == flac_rate(rate, rate_hint),
            c.acc.bits == flac_bits(bits),
            c.acc.count == 0,
            c.acc.psd_segments == 0,
            c.acc.fft_buf@ == Seq::<i32>::empty(),
    {
        let depth: u32 = match bits {
            Some(bits) => bits,
            None => 16,
        };
        FlacCapture { track_id, acc: Accum::new(flac_sample_rate(rate, rate_hint), depth) }
    }

    /// Whether a packet of this track is to be decoded.
    pub fn wants(&self, track_id: u32) -> (b: bool)
        ensures
            b == (track_id == self.track_id),
    {
        track_id == self.track_id
    }

    /// Takes in the words that a packet decoded to, none where it did not decode, and hands out
    /// the segments that they fill.
    pub fn packet(&mut self, words: Option<&[i32]>) -> (frames: Vec<Vec<i32>>)
        requires
            old(self).wf(),
            words matches Some(w) ==> old(self).acc.count + w@.len() <= u64::MAX,
        ensures
            final(self).wf(),
            final(self).track_id == old(self).track_id,
            old(self).took(
                match words {
                    Some(w) => Some(w@),
                    None => None,
                },
                *final(self),
                frames@,
            ),
            words is None ==> *final(self) == *old(self) && frames@.len() == 0,
            words matches Some(w) ==> old(self).acc.pushed(
                aligned_samples(w@, old(self).acc.bits),
                final(self).acc,
                frames@,
            ),
    {
        match words {
            None => Vec::new(),
            Some(w) => {
                let v = align_samples(w, self.acc.bits);
                self.acc.push_batch(v.as_slice())
            },
        }
    }

    /// Ends the capture.
    pub fn finish(self) -> (done: Finished)
        requires
            self.wf(),
        ensures
            self.acc.finished(done),
    {
        self.acc.finalize()
    }
}

/// A raw capture on its way into a Welch average.
pub struct RawCapture {
    pub encoding: RawEncoding,
    pub acc: Accum,
}

impl RawCapture {
    pub open spec fn wf(&self) -> bool {
        self.acc.wf() && 1 <= self.acc.bits <= 16
    }

    /// An empty capture of raw samples.
    pub open spec fn opened(&self, encoding: RawEncoding, sample_rate: u32, bits: u32) -> bool {
        &&& self.encoding == encoding
        &&& self.acc.sample_rate == sample_rate
        &&& self.acc.bits == bits
        &&& self.acc.count == 0
        &&& self.acc.psd_segments == 0
        &&& self.acc.fft_buf@ == Seq::<i32>::empty()
    }

    /// How a piece of the file changes the capture, and the segments that it fills.
    pub open spec fn took(
        &self,
        bytes: Seq<u8>,
        after: RawCapture,
        r: Result<Seq<Vec<i32>>, CaptureError>,
    ) -> bool {
        &&& after.encoding == self.encoding
        &&& match r {
            Ok(frames) => whole_samples(bytes, self.encoding) && self.acc.pushed(
                raw_samples(bytes, self.encoding, self.acc.bits),
                after.acc,
                frames,
            ),
            Err(e) => !whole_samples(bytes, self.encoding) && e == CaptureError::OddLength && after
                == *self,
        }
    }

    /// An empty capture.
    pub fn new(encoding: RawEncoding, sample_rate: u32, bits: u32) -> (c: Self)
        requires
            1 <= bits <= 16,
        ensures
            c.wf(),
            c.opened(encoding, sample_rate, bits),
            c.encoding == encoding,
            c.acc.sample_rate == sample_rate,
            c.acc.bits == bits,
            c.acc.count == 0,
            c.acc.psd_segments == 0,
            c.acc.fft_buf@ == Seq::<i32>::empty(),
    {
        RawCapture { encoding, acc: Accum::new(sample_rate, bits) }
    }

    /// Takes in a piece of the file and hands out the segments that its samples fill.
    pub fn chunk(&mut self, bytes: &[u8]) -> (r: Result<Vec<Vec<i32>>, CaptureError>)
        requires
            old(self).wf(),
            old(self).acc.count + bytes@.len() <= u64::MAX,
        ensures
            final(self).wf(),
            final(self).encoding == old(self).encoding,
            old(self).took(
                bytes@,
                *final(self),
                match r {
                    Ok(frames) => Ok(frames@),
                    Err(e) => Err(e),
                },
            ),
            r is Ok <==> whole_samples(bytes@, old(self).encoding),
            r matches Err(e) ==> e == CaptureError::OddLength && *final(self) == *old(self),
            r matches Ok(frames) ==> old(self).acc.pushed(
                raw_samples(bytes@, old(self).encoding, old(self).acc.bits),
                final(self).acc,
                frames@,
            ),
    {
        match decode_raw(bytes, self.encoding, self.acc.bits) {
            Err(e) => Err(e),
            Ok(v) => {
                let frames = self.acc.push_batch(v.as_slice());
                Ok(frames)
            },
        }
    }

    /// Ends the capture.
    pub fn finish(self) -> (done: Finished)
        requires
            self.wf(),
        ensures
            self.acc.finished(done),
    {
        self.acc.finalize()
    }
}

/// A raw capture may be read in pieces: a piece of whole samples, and the rest behind it, hold the
/// samples of the two together.
pub proof fn law_pieces_hold_the_same_samples(
    a: Seq<u8>,
    b: Seq<u8>,
    encoding: RawEncoding,
    bits: u32,
)
    requires
        whole_samples(a, encoding),
    ensures
        raw_samples(a + b, encoding, bits) == raw_samples(a, encoding, bits) + raw_samples(
            b,
            encoding,
            bits,
        ),
        whole_samples(a + b, encoding) <==> whole_samples(b, encoding),
{
    let whole = raw_samples(a + b, encoding, bits);
    let parts = raw_samples(a, encoding, bits) + raw_samples(b, encoding, bits);
    let n = raw_count(a, encoding) as int;
    assert(whole.len() == parts.len());
    assert forall|i: int| 0 <= i < whole.len() implies whole[i] == parts[i] by {
        if encoding == RawEncoding::Signed8 {
            if i >= n {
                assert((a + b)[i] == b[i - n]);
            }
        } else {
            if i < n {
                assert((a + b)[2 * i] == a[2 * i]);
                assert((a + b)[2 * i + 1] == a[2 * i + 1]);
            } else {
                assert((a + b)[2 * i] == b[2 * (i - n)]);
                assert((a + b)[2 * i + 1] == b[2 * (i - n) + 1]);
            }
        }
    }
    assert(whole =~= parts);
}

/// No sample exceeds the range of its encoding.
pub proof fn law_raw_sample_range(bytes: Seq<u8>, encoding: RawEncoding, bits: u32, i: int)
    requires
        1 <= bits <= 16,
        0 <= i < raw_count(bytes, encoding),
    ensures
        encoding == RawEncoding::Signed8 ==> -128 <= raw_sample(bytes, encoding, bits, i) <= 127,
        encoding == RawEncoding::Signed16 ==> -32768 <= raw_sample(bytes, encoding, bits, i)
            <= 32767,
        encoding == RawEncoding::Unsigned16 ==> -pow2((bits - 1) as nat) <= raw_sample(
            bytes,
            encoding,
            bits,
            i,
        ) <= 65535 - pow2((bits - 1) as nat),
{
    lemma_small_powers();
}

/// A signed sample of two bytes is the number from -32768 to 32767 that its bytes are left of by
/// 65536, and one of a byte likewise by 256, whatever the bit depth. An unsigned one is as far above
/// the middle of the converter's range, which every bit doubles, as its bytes say.
pub proof fn law_raw_samples_follow_their_bytes(
    bytes: Seq<u8>,
    encoding: RawEncoding,
    bits: u32,
    i: int,
)
    requires
        1 <= bits <= 16,
        0 <= i < raw_samples(bytes, encoding, bits).len(),
    ensures
        ({
            let v = raw_samples(bytes, encoding, bits)[i] as int;
            let word = bytes[2 * i] + 256 * bytes[2 * i + 1];
            &&& encoding == RawEncoding::Signed16 ==> -32768 <= v <= 32767 && v % 65536 == word
            &&& encoding == RawEncoding::Signed8 ==> -128 <= v <= 127 && v % 256 == bytes[i]
            &&& encoding == RawEncoding::Unsigned16 ==> v + pow2((bits - 1) as nat) == word
        }),
{
    lemma_small_powers();
    if bits < 16 {
        lemma_pow2_strictly_increases((bits - 1) as nat, 15);
    }
}

/// A raw capture holds a sample to each byte where samples are bytes, and to each pair of bytes
/// else.
pub proof fn law_raw_samples_are_counted(bytes: Seq<u8>, encoding: RawEncoding, bits: u32)
    ensures
        encoding == RawEncoding::Signed8 ==> raw_samples(bytes, encoding, bits).len() == bytes.len()
            && whole_samples(bytes, encoding),
        encoding != RawEncoding::Signed8 ==> raw_samples(bytes, encoding, bits).len() == bytes.len()
            / 2 && (whole_samples(bytes, encoding) <==> bytes.len() % 2 == 0),
{
}

/// Signed samples do not depend on the bit depth.
pub proof fn law_signed_samples_ignore_the_depth(
    bytes: Seq<u8>,
    encoding: RawEncoding,
    a: u32,
    b: u32,
)
    requires
        encoding != RawEncoding::Unsigned16,
    ensures
        raw_samples(bytes, encoding, a) == raw_samples(bytes, encoding, b),
{
    assert(raw_samples(bytes, encoding, a) =~= raw_samples(bytes, encoding, b));
}

/// The extension alone, in capitals or small letters, says how a capture is read; a raw one has the
/// given bit depth, 16 without one, and is refused outside 1 to 16.
pub proof fn law_extension_decides(ext: Seq<char>, bits_hint: Option<u32>)
    ensures
        ({
            let small = crate::text::lower(ext);
            let bits = if bits_hint is Some {
                bits_hint->0
            } else {
                16
            };
            let r = format_of(ext, bits_hint);
            &&& r == format_of(small, bits_hint)
            &&& small == "flac"@ <==> r == Ok::<CaptureFormat, CaptureError>(CaptureFormat::Flac)
            &&& small != "flac"@ && !(1 <= bits <= 16) <==> r == Err::<CaptureFormat, CaptureError>(
                CaptureError::BitDepth,
            )
            &&& r matches Ok(CaptureFormat::Raw { encoding, bits: depth }) ==> {
                &&& depth == bits
                &&& encoding == RawEncoding::Signed8 <==> small == "8bit"@
                &&& encoding == RawEncoding::Signed16 <==> small == "s16"@
            }
        }),
{
    let small = crate::text::lower(ext);
    assert(crate::text::lower(small) =~= small);
    assert("8bit"@ != "s16"@) by {
        reveal_strlit("8bit");
        reveal_strlit("s16");
        assert("8bit"@.len() != "s16"@.len());
    }
}

/// A message about the bit depth is the same for every file, one about the length ends in the path.
pub proof fn law_messages_name_the_file(path: Seq<char>)
    ensures
        CaptureError::BitDepth.words(path) == "raw bit depth must be in 1..=16"@,
        CaptureError::OddLength.words(path) == "file size is not even: "@ + path,
{
}

/// The rate of a FLAC capture is that of its header, the expected one where the header has none. A
/// rate of 1000 to 655350 counts thousands, any other single samples.
pub proof fn law_flac_rate_counts_thousands(rate: u32, hint: u32)
    ensures
        flac_rate(None, rate) == flac_rate(Some(rate), hint),
        1000 <= rate <= 655_350 ==> flac_rate(Some(rate), hint) == 1000 * rate,
        rate < 1000 || rate > 655_350 ==> flac_rate(Some(rate), hint) == rate,
{
}

/// A rate is told about where it is not the expected one: with a warning that names both, unless
/// the expected one is a default of the program.
pub proof fn law_unexpected_rates_are_told(rate: u32, hint: u32)
    ensures
        rate == hint <==> rate_notice(rate, hint) is None,
        rate != hint && (hint == 40_000_000 || hint == 20_000_000) ==> rate_notice(rate, hint)
            == Some(
            "NOTE: Using sample rate from FLAC header: "@ + crate::text::digits(rate as nat)
                + " Hz"@,
        ),
        rate != hint && hint != 40_000_000 && hint != 20_000_000 ==> rate_notice(rate, hint)
            == Some(
            "WARNING: FLAC header says "@ + crate::text::digits(rate as nat)
                + " Hz but --orig-rate/--deci-rate says "@ + crate::text::digits(hint as nat)
                + " Hz; using FLAC header"@,
        ),
{
}

/// A FLAC capture has the bit depth that its header gives, and 16 only where it gives none; it has
/// the header's track, and the header's rate by thousands or single samples.
pub proof fn law_header_opens_the_capture(
    c: FlacCapture,
    track_id: u32,
    depth: u32,
    rate: u32,
    hint: u32,
)
    ensures
        c.opened(track_id, Some(depth), Some(rate), hint) ==> c.acc.bits == depth,
        c.opened(track_id, Some(depth), None, rate) ==> c.acc.bits == depth,
        c.opened(track_id, None, Some(rate), hint) ==> c.acc.bits == 16,
        c.opened(track_id, Some(depth), Some(rate), hint) ==> c.track_id == track_id
            && c.acc.sample_rate == if 1000 <= rate <= 655_350 {
            1000 * rate
        } else {
            rate as int
        } && c.acc.count == 0 && c.acc.psd_segments == 0 && c.acc.fft_buf@.len() == 0,
{
}

/// A sample is its word without the low bits that the bit depth leaves unused: the word is the
/// sample times a power of two, and less than that power. With 32 bits or more it is the word.
pub proof fn law_samples_are_the_high_bits(words: Seq<i32>, bits: u32, i: int)
    requires
        bits > 0,
        0 <= i < words.len(),
    ensures
        aligned_samples(words, bits).len() == words.len(),
        bits >= 32 ==> aligned_samples(words, bits)[i] == words[i],
        bits < 32 ==> {
            let unit = pow2((32 - bits) as nat);
            let v = aligned_samples(words, bits)[i];
            0 <= words[i] - v * unit < unit
        },
{
    let unit = pow2(unused_bits(bits)) as int;
    lemma_pow2_pos(unused_bits(bits));
    let w = words[i] as int;
    let q = w / unit;
    vstd::arithmetic::div_mod::lemma_fundamental_div_mod(w, unit);
    vstd::arithmetic::div_mod::lemma_mod_bound(w, unit);
    assert(-0x8000_0000 <= q <= 0x7fff_ffff) by (nonlinear_arith)
        requires
            -0x8000_0000 <= w <= 0x7fff_ffff,
            w == unit * q + w % unit,
            0 <= w % unit < unit,
            unit > 0,
    ;
    assert(q * unit == unit * q) by (nonlinear_arith);
    if bits >= 32 {
        lemma_pow2(0);
        lemma_pow0(2);
        assert(w / 1 == w);
    }
}

/// The samples of a packet go through the stream of a FLAC capture: the segments that come out, and
/// then what waits, are what waited and then a sample for each word. A packet that did not decode
/// leaves the capture as it was.
pub proof fn law_packets_go_through(
    c: FlacCapture,
    words: Seq<i32>,
    after: FlacCapture,
    frames: Seq<Vec<i32>>,
)
    requires
        c.wf(),
    ensures
        c.took(Some(words), after, frames) ==> {
            &&& crate::welch::joined(crate::welch::frames_view(frames)) + after.acc.fft_buf@
                == c.acc.fft_buf@ + aligned_samples(words, c.acc.bits)
            &&& after.acc.count == c.acc.count + words.len()
            &&& after.acc.bits == c.acc.bits
            &&& after.acc.sample_rate == c.acc.sample_rate
            &&& after.track_id == c.track_id
        },
        c.took(None, after, frames) ==> after == c && frames.len() == 0,
{
    if c.took(Some(words), after, frames) {
        crate::welch::law_stream_goes_through(
            c.acc,
            aligned_samples(words, c.acc.bits),
            after.acc,
            frames,
        );
    }
}

/// The bytes of a piece go through the stream of a raw capture, a sample for each byte or pair of
/// bytes. Only a piece of an odd number of bytes, where samples have two, is refused, and leaves the
/// capture as it was.
pub proof fn law_pieces_go_through(
    c: RawCapture,
    bytes: Seq<u8>,
    after: RawCapture,
    r: Result<Seq<Vec<i32>>, CaptureError>,
)
    requires
        c.wf(),
        c.took(bytes, after, r),
    ensures
        r is Err <==> c.encoding != RawEncoding::Signed8 && bytes.len() % 2 != 0,
        r is Err ==> after == c && r == Err::<Seq<Vec<i32>>, CaptureError>(CaptureError::OddLength),
        r matches Ok(frames) ==> {
            &&& crate::welch::joined(crate::welch::frames_view(frames)) + after.acc.fft_buf@
                == c.acc.fft_buf@ + raw_samples(bytes, c.encoding, c.acc.bits)
            &&& after.acc.count == c.acc.count + raw_samples(bytes, c.encoding, c.acc.bits).len()
            &&& after.acc.bits == c.acc.bits
            &&& after.acc.sample_rate == c.acc.sample_rate
            &&& after.encoding == c.encoding
        },
{
    if r is Ok {
        crate::welch::law_stream_goes_through(
            c.acc,
            raw_samples(bytes, c.encoding, c.acc.bits),
            after.acc,
            r->Ok_0,
        );
    }
}

/// A raw capture starts empty, with the encoding, rate and bit depth that it was given.
pub proof fn law_raw_capture_starts_empty(
    c: RawCapture,
    encoding: RawEncoding,
    sample_rate: u32,
    bits: u32,
)
    requires
        c.opened(encoding, sample_rate, bits),
    ensures
        c.encoding == encoding,
        c.acc.sample_rate == sample_rate,
        c.acc.bits == bits,
        c.acc.count == 0,
        c.acc.psd_segments == 0,
        c.acc.fft_buf@.len() == 0,
{
}

} // verus!
