use rf_signal::preset::{rf_preset, Band};

fn edges(b: &Band) -> (u32, u32) {
    (b.f_start_hz, b.f_stop_hz)
}

#[test]
fn ntsc() {
    let p = rf_preset("NTSC").unwrap();
    assert_eq!(p.name, "NTSC");
    assert_eq!((p.luma_sync_hz, p.luma_white_hz, p.chroma_carrier_hz), (3_400_000, 4_400_000, 629_371));
    assert_eq!(edges(&p.luma_signal), (3_300_000, 4_500_000));
    assert_eq!(edges(&p.luma_sync_band), (3_300_000, 3_500_000));
    assert_eq!(edges(&p.luma_white_band), (4_300_000, 4_500_000));
    assert_eq!(edges(&p.luma_noise_low), (2_000_000, 2_500_000));
    assert_eq!(edges(&p.luma_noise_high), (5_500_000, 6_500_000));
    assert_eq!(edges(&p.chroma_signal), (60_000, 1_300_000));
    assert_eq!(edges(&p.chroma_noise_low), (225_000, 400_000));
    assert_eq!(edges(&p.chroma_noise_high), (950_000, 1_300_000));
    assert_eq!(p.luma_signal.name, "luma_signal_band");
    assert_eq!(p.luma_sync_band.name, "luma_sync_region");
    assert_eq!(p.luma_white_band.name, "luma_white_region");
    assert_eq!(p.chroma_signal.name, "chroma_carrier");
}

#[test]
fn pal_and_secam() {
    for name in ["pal", "Secam", "PAL"] {
        let p = rf_preset(name).unwrap();
        assert_eq!(p.name, "PAL");
        assert_eq!((p.luma_sync_hz, p.luma_white_hz, p.chroma_carrier_hz), (3_800_000, 4_800_000, 625_953));
        assert_eq!(edges(&p.luma_signal), (3_700_000, 4_900_000));
        assert_eq!(edges(&p.luma_sync_band), (3_700_000, 3_900_000));
        assert_eq!(edges(&p.luma_white_band), (4_700_000, 4_900_000));
        assert_eq!(edges(&p.luma_noise_low), (2_500_000, 3_000_000));
        assert_eq!(edges(&p.luma_noise_high), (6_000_000, 7_000_000));
    }
}

#[test]
fn variants_of_pal() {
    for name in ["m-pal", "MPAL"] {
        let p = rf_preset(name).unwrap();
        assert_eq!(p.name, "M-PAL");
        assert_eq!((p.luma_sync_hz, p.luma_white_hz, p.chroma_carrier_hz), (3_400_000, 4_400_000, 631_337));
        assert_eq!(edges(&p.luma_noise_low), (2_000_000, 2_500_000));
    }
    for name in ["n-pal", "nPal"] {
        let p = rf_preset(name).unwrap();
        assert_eq!(p.name, "N-PAL");
        assert_eq!((p.luma_sync_hz, p.luma_white_hz, p.chroma_carrier_hz), (3_800_000, 4_800_000, 626_953));
        assert_eq!(edges(&p.luma_noise_high), (6_000_000, 7_000_000));
    }
}

#[test]
fn unknown_standards() {
    assert_eq!(
        rf_preset("Beta").unwrap_err(),
        "unknown standard 'Beta', expected NTSC, PAL, M-PAL, or N-PAL"
    );
    assert!(rf_preset("").is_err());
    assert!(rf_preset("pal ").is_err());
}

#[test]
fn guard_bands_lie_beside_the_luma_band() {
    for name in ["ntsc", "pal", "m-pal", "n-pal"] {
        let p = rf_preset(name).unwrap();
        assert!(p.chroma_signal.f_stop_hz < p.luma_noise_low.f_start_hz);
        assert!(p.luma_noise_low.f_stop_hz < p.luma_signal.f_start_hz);
        assert!(p.luma_signal.f_stop_hz < p.luma_noise_high.f_start_hz);
    }
}
