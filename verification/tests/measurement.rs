use rf_signal::json::results_json_text;
use rf_signal::preset::{rf_preset, Band, FreqSpan, RfPreset};
use rf_signal::report::{metrics_csv_text, psd_csv_text, report_text};
use rf_signal::spectrum::{
    floor_text, guard_floor_mag_db, guard_floor_mag_db_with_freq, peak_in_span_mag_db,
    peak_in_span_mag_db_near_nominal, validated_floor, validated_floor_mag_db, Metrics,
    EMPTY_BAND_LEVEL, LEVEL_PER_DB,
};
use rf_signal::summary::{enob, summarize, CaptureSummary, Comparison};
use rf_signal::text::{format_duration_hms, format_with_commas};
use rf_signal::welch::{segment_size, Finished};

/// A spectrum in floating point.
struct Wave {
    bits: u32,
    rate: u32,
    samples: u64,
    segments: u64,
    bin_hz: f64,
    psd: Vec<f64>,
    mag: Vec<f64>,
    peak: Vec<f64>,
}

fn level(db: f64) -> i128 {
    let units = db * LEVEL_PER_DB as f64;
    assert_eq!(units, units.round());
    units as i128
}

fn ticks(hz: f64) -> u64 {
    (hz * 2_097_152.0) as u64
}

fn finished(rate: u32, bits: u32, samples: u64, segments: u64) -> Finished {
    Finished { last_frame: None, sample_rate: rate, bits, num_samples: samples, welch_segments: segments }
}

const BANDWIDTH: f64 = 36.896_278_113_4;
const CARRIER: f64 = 5.892_917_331_7;

fn wave(rate: u32, bits: u32, samples: u64, seed: u64) -> Wave {
    let nfft = segment_size(rate);
    let mut seed = seed;
    let mut psd: Vec<f64> = Vec::new();
    for i in 0..nfft / 2 {
        seed = seed.wrapping_mul(6364136223846793005).wrapping_add(1442695040888963407);
        let noise: f64 = (seed >> 11) as f64 / 9_007_199_254_740_992.0 * 30.0;
        let tone: f64 = if (seed >> 20) % 97 == 0 { 40.0 } else { 0.0 };
        psd.push(noise + tone - 150.0 + (i % 64) as f64 / 100.0);
    }
    let mag: Vec<f64> = psd.iter().map(|p| p + BANDWIDTH).collect();
    let peak: Vec<f64> = mag.iter().map(|p| p + CARRIER).collect();
    Wave {
        bits,
        rate,
        samples,
        segments: samples / nfft as u64,
        bin_hz: rate as f64 / nfft as f64,
        psd,
        mag,
        peak,
    }
}

fn metrics(w: &Wave) -> Metrics {
    let done = finished(w.rate, w.bits, w.samples, w.segments);
    let psd: Vec<i128> = w.psd.iter().map(|p| level(*p)).collect();
    Metrics::new(&done, psd, level(BANDWIDTH), level(CARRIER))
}

fn bins(w: &Wave, from: f64, to: f64) -> (usize, usize) {
    let last = w.psd.len() - 1;
    (
        ((from / w.bin_hz).floor() as usize).min(last),
        ((to / w.bin_hz).ceil() as usize).min(last),
    )
}

fn peak_of(w: &Wave, from: u32, to: u32) -> (f64, f64) {
    let (start, stop) = bins(w, from as f64, to as f64);
    let mut best = start;
    for i in start..=stop {
        if w.peak[i] > w.peak[best] {
            best = i;
        }
    }
    (w.peak[best], best as f64 * w.bin_hz)
}

fn peak_near(w: &Wave, from: u32, to: u32, nominal: f64) -> (f64, f64) {
    let (start, stop) = bins(w, from as f64, to as f64);
    let top = peak_of(w, from, to).0;
    let mut best = start;
    let mut dist = f64::INFINITY;
    for i in start..=stop {
        let d = (i as f64 * w.bin_hz - nominal).abs();
        if w.peak[i] >= top - 0.25 && d < dist {
            dist = d;
            best = i;
        }
    }
    (w.peak[best], best as f64 * w.bin_hz)
}

fn floor_of(w: &Wave, from: f64, to: f64) -> (f64, f64) {
    let (start, stop) = bins(w, from, to);
    let mut best = start;
    for i in start..=stop {
        if w.mag[i] < w.mag[best] {
            best = i;
        }
    }
    (w.mag[best], best as f64 * w.bin_hz)
}

fn noise_floor(w: &Wave, low: &Band, high: &Band, signal: &[FreqSpan]) -> (f64, f64) {
    let a = floor_of(w, low.f_start_hz as f64, low.f_stop_hz as f64);
    let b = floor_of(w, high.f_start_hz as f64, high.f_stop_hz as f64);
    let mut best = if a.0 <= b.0 { a } else { b };
    if (b.0 - a.0).abs() > 6.0 {
        let stop = high.f_start_hz as f64;
        let mut f = low.f_stop_hz as f64;
        while f < stop {
            let end = (f + 500_000.0).min(stop);
            if !signal.iter().any(|s| f < s.f_stop_hz as f64 && end > s.f_start_hz as f64) {
                let here = floor_of(w, f, end);
                if here.0 < best.0 {
                    best = here;
                }
            }
            f = end;
        }
    }
    best
}

/// The figures in floating point.
struct Figures {
    luma: (f64, f64),
    sync: (f64, f64),
    white: (f64, f64),
    chroma: (f64, f64),
    low: f64,
    high: f64,
    luma_floor: (f64, f64),
    chroma_floor: (f64, f64),
    luma_snr: f64,
    sync_snr: f64,
    white_snr: f64,
    chroma_snr: f64,
    enob: f64,
}

fn span(b: &Band) -> FreqSpan {
    FreqSpan { f_start_hz: b.f_start_hz, f_stop_hz: b.f_stop_hz }
}

fn figures(w: &Wave, p: &RfPreset) -> Figures {
    let peak = |b: &Band| peak_of(w, b.f_start_hz, b.f_stop_hz);
    let floor = |b: &Band| floor_of(w, b.f_start_hz as f64, b.f_stop_hz as f64).0;
    let signal = [span(&p.luma_signal), span(&p.chroma_signal)];
    let luma = peak(&p.luma_signal);
    let sync = peak(&p.luma_sync_band);
    let white = peak(&p.luma_white_band);
    let chroma = peak_near(
        w,
        p.chroma_signal.f_start_hz,
        p.chroma_signal.f_stop_hz,
        p.chroma_carrier_hz as f64,
    );
    let luma_floor = noise_floor(w, &p.luma_noise_low, &p.luma_noise_high, &signal);
    let chroma_floor = noise_floor(w, &p.chroma_noise_high, &p.chroma_noise_high, &signal);
    Figures {
        luma,
        sync,
        white,
        chroma,
        low: floor(&p.luma_noise_low),
        high: floor(&p.luma_noise_high),
        luma_floor,
        chroma_floor,
        luma_snr: luma.0 - luma_floor.0,
        sync_snr: sync.0 - luma_floor.0,
        white_snr: white.0 - luma_floor.0,
        chroma_snr: chroma.0 - chroma_floor.0,
        enob: (luma.0 - luma_floor.0 - 1.76) / 6.02,
    }
}

fn flat(rate: u32, db: i128) -> Metrics {
    let n = segment_size(rate) / 2;
    Metrics::new(&finished(rate, 16, 1, 1), vec![db * DB; n], 0, 0)
}

const DB: i128 = LEVEL_PER_DB;

#[test]
fn spectrum_of_a_stream() {
    let w = wave(40_000_000, 12, 1_000_000, 9);
    let m = metrics(&w);
    assert_eq!((m.bits, m.sample_rate, m.num_samples, m.welch_segments), (12, 40_000_000, 1_000_000, 61));
    assert_eq!(m.nfft, 16384);
    assert_eq!(m.fft_bin, 5_120_000_000);
    for i in 0..w.psd.len() {
        assert_eq!(m.mag_db[i], level(w.psd[i] + BANDWIDTH));
        assert_eq!(m.peak_mag_db[i], level(w.psd[i] + BANDWIDTH + CARRIER));
    }
    assert_eq!(m.frequency(3), 15_360_000_000);
}

#[test]
fn bins_of_a_range() {
    let m = flat(40_000_000, -100);
    assert_eq!(m.bin_range(0, 0), (0, 0));
    assert_eq!(m.bin_range(2442, 2442), (1, 2));
    assert_eq!(m.bin_range(3_300_000, 4_500_000), (1351, 1844));
    assert_eq!(m.bin_range(4_500_000, 3_300_000), (1843, 1352));
    assert_eq!(m.bin_range(30_000_000, 40_000_000), (8191, 8191));
}

#[test]
fn bins_agree_with_floating_point() {
    for rate in [1u32, 999, 1_000_000, 14_318_181, 28_636_363, 35_468_950, 40_000_000, 4_000_000_000] {
        let m = flat(rate, -100);
        let bin = rate as f64 / m.nfft as f64;
        let mut hz: u32 = 0;
        while hz < 8_000_000 {
            let floor = ((hz as f64 / bin).floor() as usize).min(m.nfft / 2 - 1);
            let ceil = ((hz as f64 / bin).ceil() as usize).min(m.nfft / 2 - 1);
            assert_eq!(m.bin_range(hz, hz), (floor, ceil));
            hz += 3_121;
        }
    }
}

#[test]
fn strongest_carrier() {
    let mut m = flat(40_000_000, -100);
    m.peak_mag_db[1500] = -20 * DB;
    m.peak_mag_db[1600] = -20 * DB;
    let s = FreqSpan { f_start_hz: 3_300_000, f_stop_hz: 4_500_000 };
    assert_eq!(peak_in_span_mag_db(&m, s), (Some(-20 * DB), 1500 * m.fft_bin));
    let upper = FreqSpan { f_start_hz: 3_800_000, f_stop_hz: 4_500_000 };
    assert_eq!(peak_in_span_mag_db(&m, upper), (Some(-20 * DB), 1600 * m.fft_bin));
    let backwards = FreqSpan { f_start_hz: 4_500_000, f_stop_hz: 3_300_000 };
    assert_eq!(peak_in_span_mag_db(&m, backwards), (None, 1843 * m.fft_bin));
}

#[test]
fn carrier_nearest_to_its_place() {
    let mut m = flat(40_000_000, -100);
    let s = FreqSpan { f_start_hz: 60_000, f_stop_hz: 1_300_000 };
    m.peak_mag_db[100] = -30 * DB;
    m.peak_mag_db[250] = -30 * DB - DB / 4;
    m.peak_mag_db[256] = -30 * DB - DB / 4 - 1;
    let near = peak_in_span_mag_db_near_nominal(&m, s, ticks(629_371.0));
    assert_eq!((near.level, near.freq), (-30 * DB - DB / 4, 250 * m.fft_bin));
    let low = peak_in_span_mag_db_near_nominal(&m, s, 0);
    assert_eq!((low.level, low.freq), (-30 * DB, 100 * m.fft_bin));
    let tie = peak_in_span_mag_db_near_nominal(&m, s, 175 * m.fft_bin);
    assert_eq!(tie.freq, 100 * m.fft_bin);
    let backwards = FreqSpan { f_start_hz: 1_300_000, f_stop_hz: 60_000 };
    let none = peak_in_span_mag_db_near_nominal(&m, backwards, 0);
    assert_eq!((none.level, none.freq), (-100 * DB, 532 * m.fft_bin));
}

#[test]
fn floors_of_bands() {
    let mut m = flat(40_000_000, -100);
    m.mag_db[900] = -120 * DB;
    m.mag_db[950] = -120 * DB;
    let band = Band { name: "", f_start_hz: 2_000_000, f_stop_hz: 2_500_000 };
    assert_eq!(guard_floor_mag_db(&m, &band), -120 * DB);
    let r = guard_floor_mag_db_with_freq(&m, &band);
    assert_eq!((r.level, r.freq), (-120 * DB, 900 * m.fft_bin));
    let backwards = Band { name: "", f_start_hz: 2_500_000, f_stop_hz: 2_000_000 };
    let r = guard_floor_mag_db_with_freq(&m, &backwards);
    assert_eq!((r.level, r.freq), (EMPTY_BAND_LEVEL, 1024 * m.fft_bin));
    assert_eq!(guard_floor_mag_db(&m, &backwards), -200 * DB);
}

#[test]
fn tilted_guards_are_swept() {
    let p = rf_preset("ntsc").unwrap();
    let signal = [span(&p.luma_signal), span(&p.chroma_signal)];
    let mut m = flat(40_000_000, -100);
    // In the sweep step from 2.5 to 3.0 MHz, outside the guards and the luma band.
    m.mag_db[1100] = -150 * DB;
    // In the step from 3.0 to 3.5 MHz, which the luma band overlaps.
    m.mag_db[1300] = -160 * DB;
    let level_guards = validated_floor(&m, &p.luma_noise_low, &p.luma_noise_high, &signal);
    assert_eq!((level_guards.level, level_guards.freq), (-100 * DB, 819 * m.fft_bin));
    m.mag_db[2400] = -106 * DB;
    assert_eq!(validated_floor(&m, &p.luma_noise_low, &p.luma_noise_high, &signal).level, -106 * DB);
    m.mag_db[2400] = level(-106.000_000_000_000_02);
    let swept = validated_floor(&m, &p.luma_noise_low, &p.luma_noise_high, &signal);
    assert_eq!((swept.level, swept.freq), (-150 * DB, 1100 * m.fft_bin));
    let told = validated_floor_mag_db(&m, &p.luma_noise_low, &p.luma_noise_high, &signal);
    assert_eq!(told, (-150 * DB, "at 2.69 MHz".to_string()));
    let all = validated_floor(&m, &p.luma_noise_low, &p.luma_noise_high, &[]);
    assert_eq!((all.level, all.freq), (-160 * DB, 1300 * m.fft_bin));
}

#[test]
fn places_in_words() {
    assert_eq!(floor_text(0), "at 0.00 MHz");
    assert_eq!(floor_text(ticks(6_045_000.0)), format!("at {:.2} MHz", 6_045_000.0 / 1e6));
}

#[test]
fn equivalent_bits() {
    for snr in [50.0, 0.0, 1.76, -3.5, 42.123456789, 200.0, 1.7600000000000002, 1e-15, -300.0] {
        assert_eq!(enob(level(snr)), level((snr - 1.76) / 6.02));
    }
}

fn assert_figures(s: &CaptureSummary, f: &Figures) {
    for (r, (db, hz)) in [
        (s.luma_peak, f.luma),
        (s.sync_peak, f.sync),
        (s.white_peak, f.white),
        (s.chroma_peak, f.chroma),
        (s.luma_floor, f.luma_floor),
        (s.chroma_floor, f.chroma_floor),
    ] {
        assert_eq!((r.level, r.freq), (level(db), ticks(hz)));
    }
    assert_eq!((s.floor_low, s.floor_high), (level(f.low), level(f.high)));
    assert_eq!(s.luma_snr, level(f.luma_snr));
    assert_eq!(s.sync_snr, level(f.sync_snr));
    assert_eq!(s.white_snr, level(f.white_snr));
    assert_eq!(s.chroma_snr, level(f.chroma_snr));
    assert_eq!(s.enob, level(f.enob));
}

#[test]
fn figures_agree_with_floating_point() {
    for name in ["ntsc", "pal", "m-pal", "n-pal"] {
        let p = rf_preset(name).unwrap();
        for (seed, rate) in [(1, 40_000_000), (2, 20_000_000), (3, 28_636_363), (4, 1_000_000), (5, 16_000_000)] {
            for k in 0..8 {
                let w = wave(rate, 16, 7_000_000, seed + 10 * k);
                assert_figures(&summarize(&metrics(&w), &p), &figures(&w, &p));
            }
        }
    }
}

#[test]
fn gain_changes_no_ratio() {
    let p = rf_preset("pal").unwrap();
    let m = metrics(&wave(40_000_000, 16, 7_000_000, 77));
    let mut n = metrics(&wave(40_000_000, 16, 7_000_000, 77));
    for i in 0..m.mag_db.len() {
        n.mag_db[i] = m.mag_db[i] + 12 * DB;
        n.peak_mag_db[i] = m.peak_mag_db[i] + 12 * DB;
    }
    let s = summarize(&m, &p);
    let t = summarize(&n, &p);
    assert_eq!((s.luma_snr, s.sync_snr, s.white_snr), (t.luma_snr, t.sync_snr, t.white_snr));
    assert_eq!((s.chroma_snr, s.enob, s.deviation), (t.chroma_snr, t.enob, t.deviation));
    assert_eq!(s.luma_peak.level + 12 * DB, t.luma_peak.level);
    assert_eq!(s.chroma_floor.level + 12 * DB, t.chroma_floor.level);
}

#[test]
fn exchange_negates_deltas() {
    let p = rf_preset("ntsc").unwrap();
    let m = metrics(&wave(40_000_000, 16, 7_000_000, 78));
    let n = metrics(&wave(20_000_000, 16, 7_000_000, 79));
    let c = Comparison::new("1", &p, 1, 1, &m, &n);
    let e = Comparison::new("1", &p, 1, 1, &n, &m);
    let rows = |c: &Comparison| -> Vec<Vec<String>> {
        let text = metrics_csv_text(c);
        text.lines().skip(1).map(|l| l.split(',').map(|x| x.to_string()).collect()).collect()
    };
    for (a, b) in rows(&c).iter().zip(rows(&e).iter()) {
        assert_eq!((&a[1], &a[2]), (&b[2], &b[1]));
        assert_eq!(a[3].trim_start_matches('-'), b[3].trim_start_matches('-'));
        assert_ne!(a[3].starts_with('-'), b[3].starts_with('-'));
    }
    assert_eq!((c.o.luma_snr, c.d.luma_snr), (e.d.luma_snr, e.o.luma_snr));
}

/// A spectrum of any number of bins.
fn small(bin_hz: u64, psd: &[f64], mag: &[f64], peak: &[f64]) -> Metrics {
    let levels = |v: &[f64]| -> Vec<i128> { v.iter().map(|x| level(*x)).collect() };
    Metrics {
        bits: 16,
        sample_rate: 1,
        num_samples: 0,
        welch_segments: 0,
        nfft: 0,
        fft_bin: bin_hz * 2_097_152,
        psd_dbfs_hz: levels(psd),
        mag_db: levels(mag),
        peak_mag_db: levels(peak),
    }
}

#[test]
fn a_few_wide_bins_are_swept() {
    let mag = [-10.0, -20.0, -90.0, -30.0, -30.0, -40.0];
    let m = small(500_000, &mag, &mag, &mag);
    let low = Band { name: "", f_start_hz: 0, f_stop_hz: 500_000 };
    let high = Band { name: "", f_start_hz: 2_000_000, f_stop_hz: 2_500_000 };
    let signal = [FreqSpan { f_start_hz: 600_000, f_stop_hz: 1_200_000 }];
    assert_eq!(validated_floor_mag_db(&m, &low, &high, &[]), (-90 * DB, "at 1.00 MHz".to_string()));
    assert_eq!(validated_floor_mag_db(&m, &low, &high, &signal), (-40 * DB, "at 2.50 MHz".to_string()));
}

#[test]
fn the_nearest_of_five_bins() {
    let peak = [0.0, -1.0, -0.2, -5.0, -0.1];
    let m = small(1, &peak, &peak, &peak);
    let span = FreqSpan { f_start_hz: 0, f_stop_hz: 4 };
    let r = peak_in_span_mag_db_near_nominal(&m, span, ticks(2.0));
    assert_eq!((r.level, r.freq), (level(-0.2), ticks(2.0)));
}

#[test]
fn density_table_of_two_bins() {
    let psd = [-1.0, -2.5];
    let m = small(2, &psd, &psd, &psd);
    assert_eq!(
        psd_csv_text("original", &m),
        "freq_hz,original_dbfs_hz\n0.00,-1.000000\n2.00,-2.500000\n"
    );
}

#[test]
fn ratios_are_rounded_as_floating_point_rounds_them() {
    let p = rf_preset("ntsc").unwrap();
    let n = segment_size(40_000_000) / 2;
    let m = small(2_441, &vec![16.0; n], &vec![16.0; n], &vec![16.105; n]);
    let s = summarize(&m, &p);
    assert_eq!(s.luma_snr, level(16.105 - 16.0));
    let c = Comparison::new("1", &p, 1, 1, &m, &m);
    assert!(report_text(&c).contains("+ Sync SNR original:         0.11 dB\n"));
    assert_eq!(format!("{:.2}", 0.105f64), "0.10");
    assert_eq!(format!("{:.2}", 16.105f64 - 16.0), "0.11");
}

#[test]
fn the_tie_tolerance_is_subtracted_in_floating_point() {
    for top in [-30.1f64, -17.3, 0.1, 3.3, -99.7] {
        let edge = top - 0.25;
        let peak = [top, edge, f64::from_bits(edge.to_bits() + 1), f64::from_bits(edge.to_bits() - 1)];
        let m = small(1, &peak, &peak, &peak);
        for (i, v) in peak.iter().enumerate() {
            let r = peak_in_span_mag_db_near_nominal(
                &m,
                FreqSpan { f_start_hz: 0, f_stop_hz: 3 },
                ticks(i as f64),
            );
            assert_eq!(r.freq == ticks(i as f64), *v >= edge);
        }
    }
}

#[test]
fn chroma_floor_is_that_of_the_upper_guard() {
    for seed in 0..5 {
        let p = rf_preset("ntsc").unwrap();
        let m = metrics(&wave(40_000_000, 16, 7_000_000, seed));
        let r = guard_floor_mag_db_with_freq(&m, &p.chroma_noise_high);
        assert_eq!(summarize(&m, &p).chroma_floor, r);
    }
}

fn place(f: (f64, f64)) -> String {
    format!("at {:.2} MHz", f.1 / 1e6)
}

fn line(out: &mut String, text: String) {
    out.push_str(&text);
    out.push('\n');
}

fn input(out: &mut String, label: &str, w: &Wave) {
    line(out, format!(
        "{} {} Hz, {}-bit, {} samples, {} Welch segments, FFT {}",
        label, w.rate, w.bits, format_with_commas(w.samples), w.segments,
        (w.rate as f64 / w.bin_hz).round() as usize
    ));
    line(out, format!(
        "  Duration:  {:.3} s ({})",
        w.samples as f64 / w.rate as f64,
        format_duration_hms(w.samples as i128, w.rate as u64)
    ));
}

fn expected_report(p: &RfPreset, factor: f64, x: &Wave, y: &Wave) -> String {
    let (f, g) = (figures(x, p), figures(y, p));
    let mut out = String::new();
    let o = &mut out;
    let rule = "------------------------------------------------------------------".to_string();
    let none = String::new();
    line(o, "VHS RF Signal Analyser v6.5".to_string());
    line(o, "-------------------------------".to_string());
    line(o, format!("Standard: {}", p.name));
    line(o, format!("Decimation factor: {:.0}", factor));
    line(o, "Window: Blackman-Harris 4-term".to_string());
    line(o, "By ZL3RXT - For VHS Decode 2026".to_string());
    line(o, "-------------------------------".to_string());
    line(o, none.clone());
    line(o, "Input Summary".to_string());
    line(o, "-------------".to_string());
    input(o, "- Original: ", x);
    input(o, "- Comparison:", y);
    line(o, format!("- FFT bin width: {:.2} Hz (orig) / {:.2} Hz (deci)", x.bin_hz, y.bin_hz));
    line(o, none.clone());
    line(o, "Signal Peaks [dB magnitude, full-scale]".to_string());
    line(o, rule.clone());
    line(o, format!("- Sync peak original:        {:.2} dB at {:.6} MHz", f.sync.0, f.sync.1 / 1e6));
    line(o, format!("- Sync peak comparison:      {:.2} dB at {:.6} MHz", g.sync.0, g.sync.1 / 1e6));
    line(o, none.clone());
    line(o, format!("- White peak original:       {:.2} dB at {:.6} MHz", f.white.0, f.white.1 / 1e6));
    line(o, format!("- White peak comparison:     {:.2} dB at {:.6} MHz", g.white.0, g.white.1 / 1e6));
    line(o, none.clone());
    line(o, format!("- Chroma peak original:      {:.2} dB at {:.6} MHz", f.chroma.0, f.chroma.1 / 1e6));
    line(o, format!("- Chroma peak Comparison:    {:.2} dB at {:.6} MHz", g.chroma.0, g.chroma.1 / 1e6));
    line(o, none.clone());
    line(o, "Noise Floors [dB magnitude] (Lowest measured per guard band area)".to_string());
    line(o, rule.clone());
    let (low, high) = (&p.luma_noise_low, &p.luma_noise_high);
    line(o, format!(
        "- Low guard ({:.1}-{:.1} MHz)  original: {:.2} dB  comparison: {:.2} dB",
        low.f_start_hz as f64 / 1e6, low.f_stop_hz as f64 / 1e6, f.low, g.low
    ));
    line(o, format!(
        "- High guard ({:.1}-{:.1} MHz) original: {:.2} dB  comparison: {:.2} dB",
        high.f_start_hz as f64 / 1e6, high.f_stop_hz as f64 / 1e6, f.high, g.high
    ));
    line(o, format!("- Guard tilt original: {:+.2} dB  comparison: {:+.2} dB", f.high - f.low, g.high - g.low));
    line(o, none.clone());
    line(o, format!("+ Sync floor original:       {:.2} dB  ({})", f.luma_floor.0, place(f.luma_floor)));
    line(o, format!("- Sync floor comparison:     {:.2} dB  ({})", g.luma_floor.0, place(g.luma_floor)));
    line(o, none.clone());
    line(o, format!("+ White floor original:      {:.2} dB  ({})", f.luma_floor.0, place(f.luma_floor)));
    line(o, format!("- White floor comparison:    {:.2} dB  ({})", g.luma_floor.0, place(g.luma_floor)));
    line(o, none.clone());
    line(o, format!("+ Chroma floor original:     {:.2} dB  ({})", f.chroma_floor.0, place(f.chroma_floor)));
    line(o, format!("- Chroma floor comparison:   {:.2} dB  ({})", g.chroma_floor.0, place(g.chroma_floor)));
    line(o, none.clone());
    line(o, "SNR [dB] (peak - noise floor)".to_string());
    line(o, rule.clone());
    line(o, format!("+ Sync SNR original:         {:.2} dB", f.sync_snr));
    line(o, format!("- Sync SNR comparison:       {:.2} dB", g.sync_snr));
    line(o, format!("- Sync SNR delta:            {:+.2} dB", g.sync_snr - f.sync_snr));
    line(o, none.clone());
    line(o, format!("+ White SNR original:        {:.2} dB", f.white_snr));
    line(o, format!("- White SNR comparison:      {:.2} dB", g.white_snr));
    line(o, format!("- White SNR delta:           {:+.2} dB", g.white_snr - f.white_snr));
    line(o, none.clone());
    line(o, format!("+ Chroma SNR original:       {:.2} dB", f.chroma_snr));
    line(o, format!("- Chroma SNR comparison:     {:.2} dB", g.chroma_snr));
    line(o, format!("- Chroma SNR delta:          {:+.2} dB", g.chroma_snr - f.chroma_snr));
    line(o, none.clone());
    line(o, "VHS Spec Reference Metrics".to_string());
    line(o, rule.clone());
    let (sync, white, chroma) = (p.luma_sync_hz as f64, p.luma_white_hz as f64, p.chroma_carrier_hz as f64);
    let carrier = |label: &str, at: f64, reference: f64| {
        format!("{} {:.6} MHz ({:+.2} kHz from ref)", label, at / 1e6, (at - reference) / 1e3)
    };
    line(o, format!("+ Sync tip reference:        {:.6} MHz", sync / 1e6));
    line(o, carrier("- Sync carrier original:    ", f.sync.1, sync));
    line(o, carrier("- Sync carrier comparison:  ", g.sync.1, sync));
    line(o, none.clone());
    line(o, format!("+ White peak reference:      {:.6} MHz", white / 1e6));
    line(o, carrier("- White carrier original:   ", f.white.1, white));
    line(o, carrier("- White carrier comparison: ", g.white.1, white));
    line(o, none.clone());
    line(o, format!("+ Luma deviation reference:  {:.2} kHz", (white - sync) / 1e3));
    let deviation = |label: &str, h: &Figures| {
        let d = h.white.1 - h.sync.1;
        format!("{} {:.2} kHz ({:+.2} kHz from ref)", label, d / 1e3, (d - (white - sync)) / 1e3)
    };
    line(o, deviation("- Luma deviation original:  ", &f));
    line(o, deviation("- Luma deviation comparison:", &g));
    line(o, none.clone());
    line(o, format!("+ Chroma carrier reference:  {:.6} MHz", chroma / 1e6));
    line(o, carrier("- Chroma carrier original:  ", f.chroma.1, chroma));
    line(o, carrier("- Chroma carrier comparison:", g.chroma.1, chroma));
    line(o, none.clone());
    line(o, "Derived Summary".to_string());
    line(o, rule.clone());
    line(o, format!("+ Equivalent SNR bits orig:  {:.1} bits", f.enob));
    line(o, format!("- Equivalent SNR bits comp:  {:.1} bits", g.enob));
    line(o, "  *SNR converted to bits. VHS typically 5-7bits, Aim for: 7.6 bits".to_string());
    line(o, "  **Aim for: 7.6 bits".to_string());
    line(o, none.clone());
    line(o, format!(
        "+ ADC quantization ceiling:  {:.1} dB / {:.1} dB ({}-bit / {}-bit)",
        6.02 * x.bits as f64 + 1.76, 6.02 * y.bits as f64 + 1.76, x.bits, y.bits
    ));
    line(o, "  *Maximum possible SNR for the given bit depth.".to_string());
    line(o, "   VHS SNR is always below max - refer specs".to_string());
    line(o, "   Aim for: 74dB, 12-Bit @40MSPS".to_string());
    line(o, none.clone());
    line(o, none);
    out
}

#[test]
fn report_agrees_with_floating_point() {
    for (name, seed) in [("ntsc", 100), ("secam", 200), ("mpal", 300), ("npal", 400)] {
        let p = rf_preset(name).unwrap();
        for (rx, ry, bits) in [(40_000_000, 20_000_000, 8), (28_636_363, 14_318_181, 12), (40_000_000, 40_000_000, 16)] {
            let x = wave(rx, bits, 1_234_567_890, seed);
            let y = wave(ry, 16, 98_765_432, seed + 1);
            let (m, n) = (metrics(&x), metrics(&y));
            let c = Comparison::new("6.5", &p, rx, ry, &m, &n);
            assert_eq!(report_text(&c), expected_report(&p, rx as f64 / ry as f64, &x, &y));
        }
    }
}

#[test]
fn every_bit_depth_has_its_ceiling() {
    let p = rf_preset("ntsc").unwrap();
    for bits in 1..=32 {
        let x = wave(1_000_000, bits, 5000, 5);
        let m = metrics(&x);
        let c = Comparison::new("1", &p, 40_000_000, 20_000_000, &m, &m);
        let db = format!("{:.1}", 6.02 * bits as f64 + 1.76);
        assert!(report_text(&c).contains(&format!("ceiling:  {} dB / {} dB ({}-bit", db, db, bits)));
    }
}

#[test]
fn decimation_factors() {
    let p = rf_preset("ntsc").unwrap();
    let m = flat(1_000_000, -100);
    for (a, b) in [(40_000_000u32, 20_000_000u32), (5, 2), (7, 2), (1, 3), (5, 0), (0, 0), (0, 7)] {
        let c = Comparison::new("1", &p, a, b, &m, &m);
        let told = format!("\nDecimation factor: {:.0}\n", a as f64 / b as f64);
        assert!(report_text(&c).contains(&told), "{}", told);
        assert!(results_json_text(&c).contains(&format!("  \"dec_factor\": {:.0},\n", a as f64 / b as f64)));
    }
}

#[test]
fn metrics_table() {
    let p = rf_preset("pal").unwrap();
    let (x, y) = (wave(40_000_000, 8, 1_000_000, 31), wave(20_000_000, 8, 500_000, 32));
    let (m, n) = (metrics(&x), metrics(&y));
    let (f, g) = (figures(&x, &p), figures(&y, &p));
    let mut out = "metric,original,decimated,delta,unit\n".to_string();
    for (name, a, b, unit) in [
        ("luma_peak", f.luma.0, g.luma.0, "dB_mag"),
        ("sync_peak", f.sync.0, g.sync.0, "dB_mag"),
        ("white_peak", f.white.0, g.white.0, "dB_mag"),
        ("chroma_peak", f.chroma.0, g.chroma.0, "dB_mag"),
        ("luma_snr", f.luma_snr, g.luma_snr, "dB"),
        ("sync_snr", f.sync_snr, g.sync_snr, "dB"),
        ("white_snr", f.white_snr, g.white_snr, "dB"),
        ("chroma_snr", f.chroma_snr, g.chroma_snr, "dB"),
        ("luma_floor", f.luma_floor.0, g.luma_floor.0, "dB_mag"),
        ("sync_floor", f.luma_floor.0, g.luma_floor.0, "dB_mag"),
        ("white_floor", f.luma_floor.0, g.luma_floor.0, "dB_mag"),
        ("chroma_floor", f.chroma_floor.0, g.chroma_floor.0, "dB_mag"),
    ] {
        line(&mut out, format!("{},{:.6},{:.6},{:.6},{}", name, a, b, b - a, unit));
    }
    line(&mut out, format!("enob,{:.2},{:.2},{:.2},bits", f.enob, g.enob, g.enob - f.enob));
    assert_eq!(metrics_csv_text(&Comparison::new("6.5", &p, 1, 1, &m, &n)), out);
}

#[test]
fn density_table() {
    let w = wave(28_636_363, 8, 1_000_000, 51);
    let mut out = "freq_hz,original_dbfs_hz\n".to_string();
    for (i, v) in w.psd.iter().enumerate() {
        line(&mut out, format!("{:.2},{:.6}", i as f64 * w.bin_hz, v));
    }
    assert_eq!(psd_csv_text("original", &metrics(&w)), out);
}

fn items(values: &[f64], places: usize) -> String {
    let texts: Vec<String> = values.iter().map(|v| format!("{:.*}", places, v)).collect();
    texts.join(",")
}

fn expected_json(p: &RfPreset, factor: f64, x: &Wave, y: &Wave) -> String {
    let (f, g) = (figures(x, p), figures(y, p));
    let mut out = String::new();
    let o = &mut out;
    line(o, "{".to_string());
    line(o, "  \"version\": \"6.5\",".to_string());
    line(o, format!("  \"standard\": \"{}\",", p.name));
    line(o, format!("  \"dec_factor\": {:.0},", factor));
    for (name, w) in [("orig", x), ("deci", y)] {
        line(o, format!(
            "  \"{}\": {{ \"rate\": {}, \"bits\": {}, \"samples\": {}, \"welch_segments\": {} }},",
            name, w.rate, w.bits, w.samples, w.segments
        ));
    }
    for (name, a, b) in [
        ("luma_snr", f.luma_snr, g.luma_snr),
        ("sync_snr", f.sync_snr, g.sync_snr),
        ("white_snr", f.white_snr, g.white_snr),
        ("chroma_snr", f.chroma_snr, g.chroma_snr),
    ] {
        line(o, format!("  \"{}\": {{ \"orig\": {:.4}, \"deci\": {:.4}, \"delta\": {:.4} }},", name, a, b, b - a));
    }
    for (name, a, b) in [
        ("luma", f.luma_floor.0, g.luma_floor.0),
        ("sync", f.luma_floor.0, g.luma_floor.0),
        ("white", f.luma_floor.0, g.luma_floor.0),
        ("chroma", f.chroma_floor.0, g.chroma_floor.0),
    ] {
        line(o, format!("  \"noise_floor_{}\": {{ \"orig\": {:.4}, \"deci\": {:.4} }},", name, a, b));
    }
    line(o, format!(
        "  \"noise_floor_chroma_method\": {{ \"orig\": \"{}\", \"deci\": \"{}\" }},",
        place(f.chroma_floor), place(g.chroma_floor)
    ));
    line(o, format!("  \"enob\": {{ \"orig\": {:.2}, \"deci\": {:.2} }},", f.enob, g.enob));
    line(o, "  \"carrier_peaks\": {".to_string());
    for (name, r, end) in [
        ("luma_orig", f.luma, ","),
        ("luma_deci", g.luma, ","),
        ("sync_orig", f.sync, ","),
        ("sync_deci", g.sync, ","),
        ("white_orig", f.white, ","),
        ("white_deci", g.white, ","),
        ("chroma_orig", f.chroma, ","),
        ("chroma_deci", g.chroma, ""),
    ] {
        line(o, format!("    \"{}\": {{ \"mag_db\": {:.4}, \"freq_hz\": {:.2} }}{}", name, r.0, r.1, end));
    }
    line(o, "  },".to_string());
    let freqs = |w: &Wave| -> Vec<f64> { (0..w.psd.len()).map(|i| i as f64 * w.bin_hz).collect() };
    line(o, format!("  \"psd_freq_hz\": [{}],", items(&freqs(x), 1)));
    line(o, format!("  \"psd_deci_freq_hz\": [{}],", items(&freqs(y), 1)));
    line(o, format!("  \"psd_orig_dbfs_hz\": [{}],", items(&x.psd, 2)));
    line(o, format!("  \"psd_deci_dbfs_hz\": [{}],", items(&y.psd, 2)));
    line(o, format!("  \"plot_orig_mag_db\": [{}],", items(&x.peak, 2)));
    line(o, format!("  \"plot_deci_mag_db\": [{}],", items(&y.peak, 2)));
    line(o, "  \"bands\": {".to_string());
    let band = |name: &str, b: &Band, end: &str| {
        format!("    \"{}\": [{:.0}, {:.0}]{}", name, b.f_start_hz as f64, b.f_stop_hz as f64, end)
    };
    line(o, band("luma_signal", &p.luma_signal, ","));
    line(o, format!("    \"luma_sync_ref_hz\": {},", p.luma_sync_hz));
    line(o, format!("    \"luma_white_ref_hz\": {},", p.luma_white_hz));
    line(o, band("chroma_signal", &p.chroma_signal, ","));
    line(o, band("luma_noise_low", &p.luma_noise_low, ","));
    line(o, band("luma_noise_high", &p.luma_noise_high, ","));
    line(o, band("chroma_noise_low", &p.chroma_noise_low, ","));
    line(o, band("chroma_noise_high", &p.chroma_noise_high, ""));
    line(o, "  }".to_string());
    line(o, "}".to_string());
    out
}

#[test]
fn results_agree_with_floating_point() {
    let p = rf_preset("m-pal").unwrap();
    let (x, y) = (wave(40_000_000, 8, 1_000_000, 61), wave(35_468_950, 8, 500_000, 62));
    let (m, n) = (metrics(&x), metrics(&y));
    let c = Comparison::new("6.5", &p, 40_000_000, 20_000_000, &m, &n);
    let text = results_json_text(&c);
    assert_eq!(text, expected_json(&p, 2.0, &x, &y));
    let value: serde_json::Value = serde_json::from_str(&text).unwrap();
    assert_eq!(value["standard"], "M-PAL");
    assert_eq!(value["plot_orig_mag_db"].as_array().unwrap().len(), 8192);
}
