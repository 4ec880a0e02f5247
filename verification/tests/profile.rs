use rf_signal::preset::{rf_preset, Band};
use rf_signal::profile::{profile_json_text, profile_log_text, profile_result_text, Profile};
use rf_signal::spectrum::{Metrics, LEVEL_PER_DB};
use rf_signal::spurs::{detect_spurs, merge_spurs, noise_floor_dbfs, Spur};
use rf_signal::welch::{segment_size, Finished};

const DB: i128 = LEVEL_PER_DB;

fn level(db: f64) -> i128 {
    (db * LEVEL_PER_DB as f64) as i128
}

fn metrics(rate: u32, psd: Vec<i128>) -> Metrics {
    let done = Finished { last_frame: None, sample_rate: rate, bits: 12, num_samples: 1, welch_segments: 1 };
    Metrics::new(&done, psd, 0, 0)
}

fn random(rate: u32, seed: u64) -> (Vec<f64>, Metrics) {
    let mut seed = seed;
    let mut psd: Vec<f64> = Vec::new();
    for _ in 0..segment_size(rate) / 2 {
        seed = seed.wrapping_mul(6364136223846793005).wrapping_add(1442695040888963407);
        psd.push(((seed >> 33) % 2_600) as f64 / 100.0 - 150.0);
    }
    let levels: Vec<i128> = psd.iter().map(|p| level(*p)).collect();
    let m = metrics(rate, levels);
    (psd, m)
}

fn middle(values: &[f64]) -> f64 {
    let mut v = values.to_vec();
    v.sort_by(|a, b| a.partial_cmp(b).unwrap());
    v[v.len() / 2]
}

fn density(psd: &[f64], bin: f64, bands: &[Band]) -> f64 {
    let mut v: Vec<f64> = Vec::new();
    for b in bands {
        let start = ((b.f_start_hz as f64 / bin).floor() as usize).min(psd.len() - 1);
        let stop = ((b.f_stop_hz as f64 / bin).ceil() as usize).min(psd.len() - 1);
        v.extend_from_slice(&psd[start..=stop]);
    }
    middle(&v)
}

fn spurs_of(psd: &[f64], bin: f64, bands: &[Band]) -> Vec<(f64, f64)> {
    let threshold = middle(psd) + 10.0;
    let mut found: Vec<(f64, f64)> = Vec::new();
    for i in 2..psd.len() - 2 {
        let v = psd[i];
        let f = i as f64 * bin;
        let top = v >= psd[i - 1] && v >= psd[i + 1] && v >= psd[i - 2] && v >= psd[i + 2];
        let inside = bands.iter().any(|b| f >= b.f_start_hz as f64 && f <= b.f_stop_hz as f64);
        if v > threshold && top && !inside {
            found.push((f, v));
        }
    }
    found.sort_by(|a, b| b.1.partial_cmp(&a.1).unwrap());
    found.truncate(10);
    found
}

#[test]
fn medians() {
    let n = segment_size(1_000_000) / 2;
    let low = Band { name: "", f_start_hz: 0, f_stop_hz: 0 };
    let next = Band { name: "", f_start_hz: 250, f_stop_hz: 250 };
    let mut psd = vec![-100 * DB; n];
    psd[0] = -50 * DB;
    psd[1] = -70 * DB;
    psd[2] = -60 * DB;
    let m = metrics(1_000_000, psd);
    // One bin, three bins out of order, and the upper of the middle two of four.
    assert_eq!(noise_floor_dbfs(&m, &low, &Band { name: "", f_start_hz: 300, f_stop_hz: 0 }), -50 * DB);
    assert_eq!(noise_floor_dbfs(&m, &low, &next), -60 * DB);
    let three = Band { name: "", f_start_hz: 0, f_stop_hz: 400 };
    assert_eq!(noise_floor_dbfs(&m, &three, &low), -50 * DB);
    let none = Band { name: "", f_start_hz: 9000, f_stop_hz: 0 };
    assert_eq!(noise_floor_dbfs(&m, &none, &none), -200 * DB);
}

#[test]
fn densities_agree_with_floating_point() {
    let p = rf_preset("pal").unwrap();
    for seed in 0..6 {
        for rate in [40_000_000, 28_636_363, 2_000_000] {
            let (psd, m) = random(rate, seed);
            let bin = rate as f64 / m.nfft as f64;
            let d = density(&psd, bin, &[p.luma_noise_low, p.luma_noise_high]);
            let r = noise_floor_dbfs(&m, &p.luma_noise_low, &p.luma_noise_high);
            assert_eq!(r, level(d));
        }
    }
}

#[test]
fn spurs_agree_with_floating_point() {
    let p = rf_preset("ntsc").unwrap();
    for seed in 0..20 {
        for rate in [40_000_000, 28_636_363, 2_000_000] {
            let (psd, m) = random(rate, seed);
            let bin = rate as f64 / m.nfft as f64;
            let expected: Vec<Spur> = spurs_of(&psd, bin, &[p.luma_signal, p.chroma_signal])
                .iter()
                .map(|(f, v)| Spur {
                    freq: (f * 2_097_152.0) as u64,
                    amplitude_dbfs_hz: level(*v),
                })
                .collect();
            assert_eq!(detect_spurs(&m, &[p.luma_signal, p.chroma_signal]), expected);
            assert!(!expected.is_empty());
        }
    }
}

#[test]
fn what_makes_a_spur() {
    let n = segment_size(40_000_000) / 2;
    let mut psd = vec![-120 * DB; n];
    psd[1] = -50 * DB;
    psd[100] = -110 * DB;
    psd[200] = -110 * DB + 1;
    psd[300] = -90 * DB;
    psd[302] = -90 * DB;
    psd[400] = -80 * DB;
    psd[401] = -79 * DB;
    psd[n - 2] = -50 * DB;
    let m = metrics(40_000_000, psd);
    let found: Vec<u64> = detect_spurs(&m, &[]).iter().map(|s| s.freq / m.fft_bin).collect();
    assert_eq!(found, [401, 300, 302, 200]);
    let band = Band { name: "", f_start_hz: 400 * 2441, f_stop_hz: 402 * 2442 };
    let found: Vec<u64> = detect_spurs(&m, &[band]).iter().map(|s| s.freq / m.fft_bin).collect();
    assert_eq!(found, [300, 302, 200]);
    assert!(detect_spurs(&metrics(40_000_000, Vec::new()), &[]).is_empty());
}

#[test]
fn spurs_of_ten_bins() {
    let levels: Vec<i128> = [0, 0, 0, 20, 0, 0, 10, 0, 0, 30].iter().map(|v| v * DB).collect();
    let m = Metrics {
        bits: 16,
        sample_rate: 1,
        num_samples: 0,
        welch_segments: 0,
        nfft: 0,
        fft_bin: 2_097_152,
        psd_dbfs_hz: levels.clone(),
        mag_db: levels.clone(),
        peak_mag_db: levels,
    };
    assert_eq!(detect_spurs(&m, &[]), [Spur { freq: 3 * 2_097_152, amplitude_dbfs_hz: 20 * DB }]);
    assert!(detect_spurs(&m, &[Band { name: "", f_start_hz: 3, f_stop_hz: 5 }]).is_empty());
}

#[test]
fn only_the_strongest_spurs_are_kept() {
    let n = segment_size(40_000_000) / 2;
    let mut psd = vec![-120 * DB; n];
    for k in 0..15 {
        psd[100 + 10 * k] = (k as i128 % 5 - 100) * DB;
    }
    let m = metrics(40_000_000, psd);
    let found: Vec<u64> = detect_spurs(&m, &[]).iter().map(|s| s.freq / m.fft_bin).collect();
    assert_eq!(found, [140, 190, 240, 130, 180, 230, 120, 170, 220, 110]);
}

#[test]
fn merged_spurs_are_apart() {
    let s = |freq: u64, db: i128| Spur { freq, amplitude_dbfs_hz: db * DB };
    let first = vec![s(1000, -10), s(1100, -20), s(1199, -30)];
    let second = vec![s(1299, -5), s(900, -6), s(801, -7), s(800, -8)];
    let kept = merge_spurs(&first, &second, 50);
    assert_eq!(kept, [s(1000, -10), s(1100, -20), s(1299, -5), s(900, -6), s(800, -8)]);
    let apart = merge_spurs(&vec![s(1, 0), s(1, 0)], &vec![s(1, 0)], 0);
    assert_eq!(apart.len(), 3);
    for i in 0..kept.len() {
        for j in 0..i {
            assert!(kept[i].freq.abs_diff(kept[j].freq) >= 100);
        }
    }
}

fn items(values: &[f64]) -> String {
    let texts: Vec<String> = values.iter().map(|v| format!("{:.4}", v)).collect();
    texts.join(",")
}

#[test]
fn profile_texts() {
    let p = rf_preset("npal").unwrap();
    let (a, adc) = random(20_000_000, 5);
    let (c, chain) = random(20_000_000, 6);
    let bin = 20_000_000.0 / 8192.0;
    let luma = [p.luma_noise_low, p.luma_noise_high];
    let chroma = [p.chroma_noise_low, p.chroma_noise_high];
    let (la, lc) = (density(&a, bin, &luma), density(&c, bin, &luma));
    let (ca, cc) = (density(&a, bin, &chroma), density(&c, bin, &chroma));
    let mut spurs: Vec<(f64, f64)> = Vec::new();
    let bands = [p.luma_signal, p.chroma_signal];
    for s in spurs_of(&a, bin, &bands).iter().chain(spurs_of(&c, bin, &bands).iter()) {
        if !spurs.iter().any(|e| (e.0 - s.0).abs() < 2.0 * bin) {
            spurs.push(*s);
        }
    }
    let profile = Profile::new(20_000_000, None, "npal", &p, &adc, &chain);
    let list: Vec<String> = spurs
        .iter()
        .map(|s| format!("{{\"freq_hz\":{:.2},\"amplitude_dbfs_hz\":{:.4}}}", s.0, s.1))
        .collect();
    let mut json = String::from("{\n  \"version\": 1,\n  \"sample_rate\": 20000000,\n  \"bits\": 12,\n");
    json += "  \"standard\": \"npal\",\n";
    json += &format!("  \"fft_bin_hz\": {:.4},\n", bin);
    json += &format!("  \"adc_nsd_luma_dbfs_hz\": {:.6},\n", la);
    json += &format!("  \"chain_nsd_luma_dbfs_hz\": {:.6},\n", lc);
    json += &format!("  \"adc_nsd_chroma_dbfs_hz\": {:.6},\n", ca);
    json += &format!("  \"chain_nsd_chroma_dbfs_hz\": {:.6},\n", cc);
    json += &format!("  \"adc_psd_dbfs_hz\": [{}],\n", items(&a));
    json += &format!("  \"chain_psd_dbfs_hz\": [{}],\n", items(&c));
    json += &format!("  \"spurs\": [{}]\n}}\n", list.join(","));
    assert_eq!(profile_json_text(&profile), json);

    let mut log = String::from("Calibration saved: x.json\n");
    log += &format!("ADC NSD luma:   {:.2} dBFS/Hz\n", la);
    log += &format!("Chain NSD luma: {:.2} dBFS/Hz\n", lc);
    log += &format!("VCR+amp luma:   {:.2} dB above ADC\n", lc - la);
    log += &format!("ADC NSD chroma: {:.2} dBFS/Hz\n", ca);
    log += &format!("Chain NSD chroma:{:.2} dBFS/Hz\n", cc);
    log += &format!("Signal spurs found: {}\n", spurs.len());
    for s in &spurs {
        log += &format!("  {:.3} kHz at {:.2} dBFS/Hz\n", s.0 / 1e3, s.1);
    }
    assert_eq!(profile_log_text(&profile, "x.json"), log);

    let mut result = String::from("PROFILING_COMPLETE\ncal_file=x.json\n");
    result += &format!("adc_nsd_luma={:.6}\nchain_nsd_luma={:.6}\n", la, lc);
    result += &format!("spurs_found={}\n", spurs.len());
    assert_eq!(profile_result_text(&profile, "x.json"), result);
}

#[test]
fn the_given_bit_depth_counts() {
    let p = rf_preset("ntsc").unwrap();
    let (_, adc) = random(20_000_000, 5);
    let profile = Profile::new(1, Some(9), "", &p, &adc, &adc);
    assert_eq!((profile.bits, profile.orig_rate), (9, 1));
    assert_eq!(profile.adc_nsd_luma, profile.chain_nsd_luma);
}
