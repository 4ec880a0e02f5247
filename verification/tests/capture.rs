use rf_signal::capture::{
    align_samples, capture_format, decode_raw, flac_rate_notice, flac_sample_rate, CaptureError,
    CaptureFormat, FlacCapture, RawCapture, RawEncoding,
};

#[test]
fn formats_by_extension() {
    assert_eq!(capture_format("flac", None), Ok(CaptureFormat::Flac));
    assert_eq!(capture_format("FLAC", Some(99)), Ok(CaptureFormat::Flac));
    assert_eq!(
        capture_format("8bit", Some(8)),
        Ok(CaptureFormat::Raw { encoding: RawEncoding::Signed8, bits: 8 })
    );
    assert_eq!(
        capture_format("S16", None),
        Ok(CaptureFormat::Raw { encoding: RawEncoding::Signed16, bits: 16 })
    );
    assert_eq!(
        capture_format("u16", Some(12)),
        Ok(CaptureFormat::Raw { encoding: RawEncoding::Unsigned16, bits: 12 })
    );
    assert_eq!(
        capture_format("", Some(1)),
        Ok(CaptureFormat::Raw { encoding: RawEncoding::Unsigned16, bits: 1 })
    );
}

#[test]
fn bit_depths_out_of_range() {
    assert_eq!(capture_format("u16", Some(0)), Err(CaptureError::BitDepth));
    assert_eq!(capture_format("s16", Some(17)), Err(CaptureError::BitDepth));
    assert_eq!(CaptureError::BitDepth.message("x"), "raw bit depth must be in 1..=16");
}

#[test]
fn signed_bytes() {
    let v = decode_raw(&[0, 1, 127, 128, 255], RawEncoding::Signed8, 16).unwrap();
    assert_eq!(v, [0, 1, 127, -128, -1]);
}

#[test]
fn every_word_decodes() {
    let mut bytes: Vec<u8> = Vec::new();
    for w in 0..=u16::MAX {
        bytes.extend_from_slice(&w.to_le_bytes());
    }
    let s = decode_raw(&bytes, RawEncoding::Signed16, 16).unwrap();
    let u = decode_raw(&bytes, RawEncoding::Unsigned16, 16).unwrap();
    let t = decode_raw(&bytes, RawEncoding::Unsigned16, 12).unwrap();
    for w in 0..=u16::MAX {
        assert_eq!(s[w as usize], i16::from_le_bytes(w.to_le_bytes()) as i32);
        assert_eq!(u[w as usize], w as i32 - 32768);
        assert_eq!(t[w as usize], w as i32 - 2048);
    }
}

#[test]
fn odd_pieces_are_refused() {
    assert_eq!(decode_raw(&[1, 2, 3], RawEncoding::Signed16, 16), Err(CaptureError::OddLength));
    assert_eq!(decode_raw(&[1, 2, 3], RawEncoding::Signed8, 16), Ok(vec![1, 2, 3]));
    assert_eq!(CaptureError::OddLength.message("a.u16"), "file size is not even: a.u16");
}

#[test]
fn pieces_hold_the_same_samples() {
    let bytes: Vec<u8> = (0..200u8).collect();
    for encoding in [RawEncoding::Signed16, RawEncoding::Unsigned16] {
        let whole = decode_raw(&bytes, encoding, 10).unwrap();
        let mut parts = decode_raw(&bytes[..64], encoding, 10).unwrap();
        parts.append(&mut decode_raw(&bytes[64..], encoding, 10).unwrap());
        assert_eq!(parts, whole);
    }
}

#[test]
fn flac_rates_count_kilosamples() {
    assert_eq!(flac_sample_rate(Some(40_000), 20_000_000), 40_000_000);
    assert_eq!(flac_sample_rate(Some(655_350), 1), 655_350_000);
    assert_eq!(flac_sample_rate(Some(655_351), 1), 655_351);
    assert_eq!(flac_sample_rate(Some(1000), 1), 1_000_000);
    assert_eq!(flac_sample_rate(Some(999), 1), 999);
    assert_eq!(flac_sample_rate(None, 40_000_000), 40_000_000);
    assert_eq!(flac_sample_rate(None, 28_636), 28_636_000);
}

#[test]
fn flac_rate_notices() {
    assert_eq!(flac_rate_notice(40_000_000, 40_000_000), None);
    assert_eq!(
        flac_rate_notice(28_636_000, 40_000_000).unwrap(),
        "NOTE: Using sample rate from FLAC header: 28636000 Hz"
    );
    assert_eq!(
        flac_rate_notice(40_000_000, 20_000_000).unwrap(),
        "NOTE: Using sample rate from FLAC header: 40000000 Hz"
    );
    assert_eq!(
        flac_rate_notice(40_000_000, 35_000_000).unwrap(),
        "WARNING: FLAC header says 40000000 Hz but --orig-rate/--deci-rate says 35000000 Hz; using FLAC header"
    );
}

#[test]
fn words_are_shifted_down() {
    for bits in 1..40u32 {
        let words = [0, 1, -1, i32::MAX, i32::MIN, 0x1234_5678, -0x1234_5678];
        let shift = 32u32.saturating_sub(bits);
        let expected: Vec<i32> = words.iter().map(|w| w >> shift).collect();
        assert_eq!(align_samples(&words, bits), expected);
    }
    assert_eq!(align_samples(&[0x7FF0_0000, -0x0010_0000], 12), [0x7FF, -1]);
}

#[test]
fn a_flac_capture() {
    let mut c = FlacCapture::new(3, Some(16), Some(1000), 40_000_000);
    assert!(c.wants(3));
    assert!(!c.wants(0));
    assert_eq!(c.acc.sample_rate, 1_000_000);
    assert_eq!(c.acc.bits, 16);
    assert!(c.packet(None).is_empty());
    let words: Vec<i32> = (0..5000).map(|x| (x - 2500) << 16).collect();
    let frames = c.packet(Some(&words));
    assert_eq!(frames.len(), 1);
    assert_eq!(frames[0][0], -2500);
    assert_eq!(frames[0][4095], 1595);
    let done = c.finish();
    assert_eq!(done.num_samples, 5000);
    assert_eq!(done.welch_segments, 1);
    assert_eq!(FlacCapture::new(0, None, None, 40_000_000).acc.bits, 16);
}

#[test]
fn a_raw_capture() {
    let mut c = RawCapture::new(RawEncoding::Unsigned16, 1_000_000, 8);
    let bytes: Vec<u8> = vec![0; 8192];
    let frames = c.chunk(&bytes).unwrap();
    assert_eq!(frames, vec![vec![-128; 4096]]);
    assert_eq!(c.chunk(&[1]), Err(CaptureError::OddLength));
    assert_eq!(c.acc.count, 4096);
    assert!(c.chunk(&[0, 1]).unwrap().is_empty());
    assert_eq!(c.acc.fft_buf, [128]);
    assert_eq!(c.finish().num_samples, 4097);
}
