use rf_signal::binary64::{round, round_ratio};
use rf_signal::spectrum::level_difference;

fn scaled(v: f64) -> i128 {
    (v * 2f64.powi(100)) as i128
}

#[test]
fn sums_round_as_floating_point_rounds_them() {
    let mut seed: u64 = 17;
    for k in 0..20_000 {
        seed = seed.wrapping_mul(6364136223846793005).wrapping_add(1442695040888963407);
        let a: f64 = ((seed >> 11) as f64 / 2f64.powi(53) - 0.5) * 300.0;
        seed = seed.wrapping_mul(6364136223846793005).wrapping_add(1442695040888963407);
        let b: f64 = ((seed >> 11) as f64 / 2f64.powi(53) - 0.5) * 2f64.powi(k % 9 - 4);
        assert_eq!(round(scaled(a) + scaled(b)), scaled(a + b));
        assert_eq!(round(scaled(a) - scaled(b)), scaled(a - b));
    }
}

#[test]
fn integers_round_to_53_bits() {
    let limit: i128 = 1 << 53;
    for (x, r) in [
        (0, 0),
        (1, 1),
        (limit, limit),
        (limit + 1, limit),
        (limit + 2, limit + 2),
        (limit + 3, limit + 4),
        (2 * limit - 1, 2 * limit),
        (4 * limit + 2, 4 * limit),
        (4 * limit + 6, 4 * limit + 8),
    ] {
        assert_eq!(round(x), r);
        assert_eq!(round(-x), -r);
        assert_eq!(x as f64 as i128, r);
    }
}

#[test]
fn quotients_round_as_floating_point_rounds_them() {
    let mut seed: u64 = 23;
    for _ in 0..20_000 {
        seed = seed.wrapping_mul(6364136223846793005).wrapping_add(1442695040888963407);
        let a: f64 = ((seed >> 11) as f64 / 2f64.powi(53) - 0.5) * 300.0;
        let den: u64 = (6.02 * 2f64.powi(50)) as u64;
        assert_eq!(round_ratio(scaled(a), 1 << 50, den), scaled(a / 6.02));
    }
    assert_eq!(round_ratio(1, 1, 2), 0);
    assert_eq!(round_ratio(3, 1, 2), 2);
    assert_eq!(round_ratio(-5, 1, 2), -2);
}

#[test]
fn binary64_numbers_stay() {
    for e in [0, 1, 40, 70] {
        for m in [0i128, 1, -3, 9_007_199_254_740_991, -9_007_199_254_740_991] {
            assert_eq!(round(m << e), m << e);
        }
    }
}

#[test]
fn rounding_keeps_limits_and_is_nearly_exact() {
    let limit: i128 = 1000 << 110;
    for d in [0i128, 1, 1 << 66, (1 << 66) + 1, 1 << 67, 12345 << 60] {
        for x in [limit - d, d - limit] {
            assert!(round(x).abs() <= limit);
            assert!(2 * (round(x) - x).abs() <= 1 << 67);
        }
    }
}

#[test]
fn coarse_levels_differ_exactly() {
    let unit: i128 = 1 << 68;
    for (a, b) in [(1000 << 110, -(1000 << 110)), (unit, 999 << 110), (-7 * unit, 5 * unit)] {
        assert_eq!(level_difference(a, b), a - b);
    }
    assert_ne!(level_difference(1000 << 110, 1), (1000 << 110) - 1);
}
