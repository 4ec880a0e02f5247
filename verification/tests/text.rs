use rf_signal::text::{
    format_duration_hms, format_with_commas, lower_is, push_decimal, push_digits, push_exact,
    push_exact_plus, push_fixed, push_fixed_plus, push_low_digits, same, to_whole_units,
};

fn decimal(num: u64, den: u64, places: u32) -> String {
    let mut s = String::new();
    push_decimal(&mut s, num, den, places);
    s
}

fn fixed(num: i64, den: u64, places: u32) -> String {
    let mut s = String::new();
    push_fixed(&mut s, num, den, places);
    s
}

#[test]
fn commas_part_thousands() {
    assert_eq!(format_with_commas(0), "0");
    assert_eq!(format_with_commas(7), "7");
    assert_eq!(format_with_commas(999), "999");
    assert_eq!(format_with_commas(1000), "1,000");
    assert_eq!(format_with_commas(12345), "12,345");
    assert_eq!(format_with_commas(100000), "100,000");
    assert_eq!(format_with_commas(1002003), "1,002,003");
    assert_eq!(format_with_commas(u64::MAX), "18,446,744,073,709,551,615");
    assert_eq!(format_with_commas(1234567890).replace(",", ""), "1234567890");
}

#[test]
fn durations_round_to_seconds() {
    assert_eq!(format_duration_hms(0, 40_000_000), "00:00:00");
    assert_eq!(format_duration_hms(20_000_000, 40_000_000), "00:00:01");
    assert_eq!(format_duration_hms(119, 2), "00:01:00");
    assert_eq!(format_duration_hms(-5, 1), "00:00:00");
    assert_eq!(format_duration_hms(i128::MIN, 1), "00:00:00");
    assert_eq!(format_duration_hms(19_999_999, 40_000_000), "00:00:00");
    assert_eq!(format_duration_hms(3661, 1), "01:01:01");
    assert_eq!(format_duration_hms(40_000_000 * 86_399, 40_000_000), "23:59:59");
    assert_eq!(format_duration_hms(360_000, 1), "100:00:00");
}

#[test]
fn digits_of_numbers() {
    let mut s = String::from("n=");
    push_digits(&mut s, 0);
    push_digits(&mut s, 40_000_000);
    assert_eq!(s, "n=040000000");
    let mut t = String::new();
    push_low_digits(&mut t, 7, 3);
    assert_eq!(t, "007");
    push_low_digits(&mut t, 12345, 2);
    assert_eq!(t, "00745");
}

#[test]
fn decimals_round_as_floating_point_prints() {
    assert_eq!(decimal(20_000, 40_000_000, 3), format!("{:.3}", 20_000.0 / 40_000_000.0));
    assert_eq!(decimal(20_000, 40_000_000, 3), "0.001");
    assert_eq!(decimal(5, 2, 0), "2");
    assert_eq!(decimal(7, 2, 0), "4");
    assert_eq!(decimal(1, 8, 2), "0.12");
    assert_eq!(decimal(3, 8, 2), "0.38");
    assert_eq!(decimal(40_000_000, 28_636_363, 0), "1");
    assert_eq!(decimal(1, 3, 6), "0.333333");
    assert_eq!(decimal(0, 9, 4), "0.0000");
    assert_eq!(decimal(u64::MAX, 1, 1), format!("{:.1}", u64::MAX as f64));
}

#[test]
fn quotients_print_as_binary64_quotients() {
    let mut seed: u64 = 1;
    for k in 0..4000u64 {
        seed = seed.wrapping_mul(6364136223846793005).wrapping_add(1442695040888963407);
        let num: u64 = (seed >> 20) >> (k % 40);
        seed = seed.wrapping_mul(6364136223846793005).wrapping_add(1442695040888963407);
        let den: u64 = ((seed >> 24) >> (k % 37)) + 1;
        let q: f64 = num as f64 / den as f64;
        assert_eq!(decimal(num, den, 0), format!("{:.0}", q));
        assert_eq!(decimal(num, den, 2), format!("{:.2}", q));
        assert_eq!(decimal(num, den, 6), format!("{:.6}", q));
    }
}

#[test]
fn every_half_millisecond_prints_as_floating_point_does() {
    for k in 0..4000u64 {
        let n: u64 = 20_000 * k;
        assert_eq!(decimal(n, 40_000_000, 3), format!("{:.3}", n as f64 / 40_000_000.0));
    }
}

#[test]
fn signs() {
    assert_eq!(fixed(-1, 1000, 2), "-0.00");
    assert_eq!(fixed(-12345, 1000, 2), format!("{:.2}", -12.345f64));
    assert_eq!(fixed(0, 1000, 2), "0.00");
    assert_eq!(fixed(i64::MIN, 1, 0), "-9223372036854775808");
    let mut s = String::new();
    push_fixed_plus(&mut s, 0, 10, 2);
    push_fixed_plus(&mut s, -15, 10, 1);
    push_fixed_plus(&mut s, 15, 10, 1);
    assert_eq!(s, "+0.00-1.5+1.5");
}

#[test]
fn whole_numbers_print_as_they_are() {
    for n in [0u64, 1, 9, 10, 4_900_000, 9_007_199_254_740_991] {
        assert_eq!(decimal(n, 1, 0), n.to_string());
    }
}

#[test]
fn counts_beyond_53_bits_print_as_floating_point_does() {
    for n in [u64::MAX, u64::MAX - 1, (1 << 53) + 1, (1 << 60) + 12345, 9_999_999_999_999_999_999] {
        for den in [1u64, 3, 40_000_000] {
            assert_eq!(decimal(n, den, 3), format!("{:.3}", n as f64 / den as f64));
            assert_eq!(to_whole_units(n, den), (n as f64 / den as f64).round() as u128);
        }
    }
}

#[test]
fn whole_quotients_stay() {
    assert_eq!(to_whole_units(40_000_000 * 2_097_152, 5_120_000_000), 16384);
    assert_eq!(to_whole_units(5, 2), 3);
    assert_eq!(to_whole_units(7, 3), 2);
}

#[test]
fn binary_fractions_print_exactly() {
    let unit: u128 = 1 << 110;
    let scale: f64 = 2f64.powi(110);
    let mut seed: u64 = 3;
    for _ in 0..3000 {
        seed = seed.wrapping_mul(6364136223846793005).wrapping_add(1442695040888963407);
        let v: f64 = ((seed >> 11) as f64 / 2f64.powi(53) - 0.5) * 400.0;
        for places in [0u32, 1, 2, 4, 6] {
            let mut s = String::new();
            push_exact(&mut s, (v * scale) as i128, unit, places);
            assert_eq!(s, format!("{:.*}", places as usize, v));
            let mut t = String::new();
            push_exact_plus(&mut t, (v * scale) as i128, unit, places);
            assert_eq!(t, format!("{:+.*}", places as usize, v));
        }
    }
    for (num, text) in [(1i128, "0.12"), (3, "0.38"), (-1, "-0.12"), (0, "0.00"), (16, "2.00")] {
        let mut s = String::new();
        push_exact(&mut s, num, 8, 2);
        assert_eq!(s, text);
    }
}

#[test]
fn small_letters() {
    assert!(lower_is("FLAC", "flac"));
    assert!(lower_is("Flac", "flac"));
    assert!(!lower_is("flac", "FLAC"));
    assert!(!lower_is("flacs", "flac"));
    assert!(!lower_is("\u{212A}", "k"));
    assert!(lower_is("", ""));
    assert!(same("a", "a"));
    assert!(!same("a", "A"));
}
