use rf_signal::welch::{bin_width, full_scale, one_sided_weight, segment_size, Accum};

#[test]
fn segment_sizes() {
    assert_eq!(segment_size(0), 4096);
    assert_eq!(segment_size(1), 4096);
    assert_eq!(segment_size(10_000_000), 4096);
    assert_eq!(segment_size(20_000_000), 8192);
    assert_eq!(segment_size(40_000_000), 16384);
    assert_eq!(segment_size(28_636_363), 16384);
    assert_eq!(segment_size(u32::MAX), 2_097_152);
}

#[test]
fn segment_size_follows_the_reference_bin_width() {
    let mut rate: u64 = 0;
    while rate <= u32::MAX as u64 {
        let raw: usize = (rate as f64 / 2441.41).round() as usize;
        assert_eq!(segment_size(rate as u32), raw.next_power_of_two().max(4096));
        rate += 99_991;
    }
    for size in [4096u64, 8192, 16384, 32768, 65536, 131072, 262144, 524288, 1048576] {
        let near: u64 = (size as f64 * 2441.41) as u64;
        for rate in near - 3000..near + 3000 {
            let raw: usize = (rate as f64 / 2441.41).round() as usize;
            assert_eq!(segment_size(rate as u32), raw.next_power_of_two().max(4096));
        }
    }
}

#[test]
fn bin_widths() {
    assert_eq!(bin_width(40_000_000), 5_120_000_000);
    assert_eq!(bin_width(40_000_000) as f64 / 2_097_152.0, 2441.40625);
    assert_eq!(bin_width(0), 0);
    assert_eq!(bin_width(1), 512);
}

#[test]
fn stream_is_cut_into_segments() {
    let mut acc = Accum::new(20_000_000, 12);
    let samples: Vec<i32> = (0..20_000).collect();
    let frames = acc.push_batch(&samples);
    assert_eq!(frames.len(), 2);
    assert_eq!(frames[0][..], samples[..8192]);
    assert_eq!(frames[1][..], samples[8192..16384]);
    assert_eq!(acc.count, 20_000);
    assert_eq!(acc.psd_segments, 2);
    assert_eq!(acc.fft_buf[..], samples[16384..]);
    let done = acc.finalize();
    assert!(done.last_frame.is_none());
    assert_eq!(done.num_samples, 20_000);
    assert_eq!(done.welch_segments, 2);
    assert_eq!(done.bits, 12);
    assert_eq!(done.sample_rate, 20_000_000);
}

#[test]
fn batches_do_not_matter() {
    let samples: Vec<i32> = (0..50_000).map(|x| x * 7 - 1000).collect();
    let mut one = Accum::new(1_000_000, 16);
    let whole = one.push_batch(&samples);
    for batch in [1usize, 999, 4096, 4097, 10_000] {
        let mut acc = Accum::new(1_000_000, 16);
        let mut frames: Vec<Vec<i32>> = Vec::new();
        for part in samples.chunks(batch) {
            frames.append(&mut acc.push_batch(part));
        }
        assert_eq!(frames, whole);
        assert_eq!(acc.fft_buf, one.fft_buf);
        assert_eq!(acc.count, one.count);
        assert_eq!(acc.psd_segments, one.psd_segments);
    }
}

#[test]
fn an_empty_batch_changes_nothing() {
    let mut acc = Accum::new(1_000_000, 16);
    acc.push_batch(&vec![7; 5000]);
    assert!(acc.push_batch(&[]).is_empty());
    assert_eq!((acc.count, acc.psd_segments, acc.fft_buf.len()), (5000, 1, 904));
}

#[test]
fn no_sample_is_lost() {
    let samples: Vec<i32> = (0..9_000).collect();
    let mut acc = Accum::new(1_000_000, 16);
    let mut joined: Vec<i32> = acc.push_batch(&samples).concat();
    joined.extend_from_slice(&acc.fft_buf);
    assert_eq!(joined, samples);
}

#[test]
fn a_short_capture_is_one_padded_segment() {
    let mut acc = Accum::new(1_000_000, 16);
    assert!(acc.push_batch(&[5, -6]).is_empty());
    let done = acc.finalize();
    let frame = done.last_frame.unwrap();
    assert_eq!(frame.len(), 4096);
    assert_eq!(frame[..3], [5, -6, 0]);
    assert!(frame[2..].iter().all(|x| *x == 0));
    assert_eq!(done.welch_segments, 1);
}

#[test]
fn half_a_segment_counts() {
    let mut acc = Accum::new(1_000_000, 16);
    acc.push_batch(&vec![1; 4096 + 2048]);
    let done = acc.finalize();
    assert!(done.last_frame.is_some());
    assert_eq!(done.welch_segments, 2);
    let mut acc = Accum::new(1_000_000, 16);
    acc.push_batch(&vec![1; 4096 + 2047]);
    let done = acc.finalize();
    assert!(done.last_frame.is_none());
    assert_eq!(done.welch_segments, 1);
}

#[test]
fn an_empty_capture_has_no_segment() {
    let done = Accum::new(40_000_000, 16).finalize();
    assert!(done.last_frame.is_none());
    assert_eq!(done.welch_segments, 0);
    assert_eq!(done.num_samples, 0);
}

#[test]
fn full_scales() {
    assert_eq!(full_scale(1), 1);
    assert_eq!(full_scale(8), 128);
    assert_eq!(full_scale(16), 32768);
    assert_eq!(full_scale(64), 1 << 63);
}

#[test]
fn weights_of_a_one_sided_density() {
    assert_eq!(one_sided_weight(0, 8), 1);
    assert_eq!(one_sided_weight(1, 8), 2);
    assert_eq!(one_sided_weight(6, 8), 2);
    assert_eq!(one_sided_weight(7, 8), 1);
}
