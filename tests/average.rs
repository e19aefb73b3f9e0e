use auto_exposure::average::{
    average_target, clipped_mean, histogram_total, target_log_luminance, ClippedMean,
};
use auto_exposure::domain::{LogLuminanceDomain, FRACTION_ONE};

fn fraction(x: f64) -> u32 {
    (x * FRACTION_ONE as f64).round() as u32
}

fn three_peaks() -> Vec<u32> {
    let mut h = vec![0u32; 64];
    h[0] = 10;
    h[32] = 80;
    h[63] = 10;
    h
}

#[test]
fn clipping_discards_both_tails() {
    let h = three_peaks();
    // scaled marks 100 * 6554 and 100 * 58982; bucket 0 ends at 10 * 65536,
    // below the low mark, and bucket 63 starts above the high mark, so only
    // bucket 32 keeps mass
    let m = clipped_mean(&h, fraction(0.1), fraction(0.9)).unwrap();
    assert_eq!(m.count, 100 * (58982 - 6554));
    assert_eq!(m, ClippedMean { index_sum: 32 * m.count, count: m.count });
}

#[test]
fn clipping_part_of_a_bucket() {
    let mut h = vec![0u32; 64];
    h[10] = 50;
    h[20] = 50;
    // cumulative marks 25 and 75: half of each bucket stays
    let m = clipped_mean(&h, FRACTION_ONE / 4, 3 * FRACTION_ONE / 4).unwrap();
    let one = FRACTION_ONE as u64;
    assert_eq!(m, ClippedMean { index_sum: (10 * 25 + 20 * 25) * one, count: 50 * one });
}

#[test]
fn clipping_nothing_gives_plain_mean() {
    let h = three_peaks();
    let m = clipped_mean(&h, 0, FRACTION_ONE).unwrap();
    let one = FRACTION_ONE as u64;
    assert_eq!(m, ClippedMean { index_sum: (32 * 80 + 63 * 10) * one, count: 100 * one });
    assert_eq!(m.count, histogram_total(&h) * one);
}

#[test]
fn zero_histogram_gives_no_mean() {
    let h = vec![0u32; 64];
    assert_eq!(clipped_mean(&h, 0, FRACTION_ONE), None);
    assert_eq!(clipped_mean(&h, fraction(0.1), fraction(0.9)), None);
}

#[test]
fn equal_percentiles_retain_nothing() {
    let h = three_peaks();
    assert_eq!(clipped_mean(&h, FRACTION_ONE / 2, FRACTION_ONE / 2), None);
}

#[test]
fn full_buckets_do_not_overflow() {
    let h = vec![u32::MAX; 64];
    assert_eq!(histogram_total(&h), 64 * u32::MAX as u64);
    let m = clipped_mean(&h, 0, FRACTION_ONE).unwrap();
    let one = FRACTION_ONE as u64;
    assert_eq!(m.count, 64 * u32::MAX as u64 * one);
    assert_eq!(m.index_sum, (0..64u64).sum::<u64>() * u32::MAX as u64 * one);
}

#[test]
fn mean_bucket_maps_back_to_log_luminance() {
    let d = LogLuminanceDomain::new(-10, 20).unwrap();
    assert_eq!(target_log_luminance(d, ClippedMean { index_sum: 2560, count: 80 }), 0);
    // -10 + 63 * 20 / 64 = -10 + 19.6875
    assert_eq!(target_log_luminance(d, ClippedMean { index_sum: 63, count: 1 }), 9);
    assert_eq!(target_log_luminance(d, ClippedMean { index_sum: 0, count: 5 }), -10);
}

#[test]
fn mid_bucket_targets_log_luminance_zero() {
    let d = LogLuminanceDomain::new(-10, 20).unwrap();
    let mut h = vec![0u32; 64];
    h[32] = 1000;
    assert_eq!(average_target(d, &h, fraction(0.1), fraction(0.9)), Some(0));
}

#[test]
fn zero_histogram_gives_no_target() {
    let d = LogLuminanceDomain::new(-10, 20).unwrap();
    assert_eq!(average_target(d, &vec![0u32; 64], fraction(0.1), fraction(0.9)), None);
}

#[test]
fn single_unit_of_mass_is_kept() {
    let d = LogLuminanceDomain::new(-10, 20).unwrap();
    let mut h = vec![0u32; 64];
    h[32] = 1;
    let m = clipped_mean(&h, fraction(0.1), fraction(0.9)).unwrap();
    assert_eq!(m, ClippedMean { index_sum: 32 * (58982 - 6554), count: 58982 - 6554 });
    assert_eq!(average_target(d, &h, fraction(0.1), fraction(0.9)), Some(0));
}

#[test]
fn high_mark_is_not_rounded_down() {
    // 0.9 of a mass of 10 is 9 units: the bucket holding units 9 .. 10 is cut
    let mut h = vec![0u32; 64];
    h[5] = 9;
    h[40] = 1;
    let m = clipped_mean(&h, 0, 9 * FRACTION_ONE / 10).unwrap();
    // 9 * FRACTION_ONE / 10 rounds down to 58982, i.e. 10 * 58982 scaled units
    assert_eq!(m.count, 10 * 58982);
    assert_eq!(m.index_sum, 5 * 10 * 58982);
}

#[test]
fn clipped_tails_shift_the_target() {
    let d = LogLuminanceDomain::new(-10, 20).unwrap();
    let mut h = vec![0u32; 64];
    h[0] = 50;
    h[32] = 50;
    // the darkest half goes: only bucket 32 remains
    assert_eq!(average_target(d, &h, FRACTION_ONE / 2, FRACTION_ONE), Some(0));
    // nothing clipped: mean bucket 16, log luminance -10 + 16 * 20 / 64 = -5
    assert_eq!(average_target(d, &h, 0, FRACTION_ONE), Some(-5));
}
