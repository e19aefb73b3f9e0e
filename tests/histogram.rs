use auto_exposure::average::histogram_total;
use auto_exposure::domain::LogLuminanceDomain;
use auto_exposure::histogram::{bucket_of, build_histogram, Sample};

fn domain() -> LogLuminanceDomain {
    LogLuminanceDomain::new(-10, 20).unwrap()
}

#[test]
fn zero_or_non_finite_luminance_goes_to_bucket_zero() {
    assert_eq!(bucket_of(domain(), None), 0);
}

#[test]
fn luminance_is_clamped_to_domain() {
    assert_eq!(bucket_of(domain(), Some(-1000)), 0);
    assert_eq!(bucket_of(domain(), Some(-10)), 0);
    assert_eq!(bucket_of(domain(), Some(10)), 63);
    assert_eq!(bucket_of(domain(), Some(i32::MAX)), 63);
}

#[test]
fn luminance_maps_linearly_to_buckets() {
    assert_eq!(bucket_of(domain(), Some(0)), 32);
    // (5 + 10) * 64 / 20 = 48
    assert_eq!(bucket_of(domain(), Some(5)), 48);
    // (-9 + 10) * 64 / 20 = 3.2
    assert_eq!(bucket_of(domain(), Some(-9)), 3);
}

#[test]
fn uniform_image_fills_one_bucket() {
    let pixels = vec![Sample { log_luminance: Some(0), weight: 3 }; 100];
    let h = build_histogram(domain(), &pixels);
    assert_eq!(h.len(), 64);
    assert_eq!(h[32], 300);
    for (b, &c) in h.iter().enumerate() {
        if b != 32 {
            assert_eq!(c, 0);
        }
    }
    assert_eq!(histogram_total(&h), 300);
}

#[test]
fn histogram_mass_is_sum_of_weights() {
    let pixels = vec![
        Sample { log_luminance: None, weight: 7 },
        Sample { log_luminance: Some(-20), weight: 1 },
        Sample { log_luminance: Some(5), weight: 4 },
        Sample { log_luminance: Some(5), weight: 2 },
        Sample { log_luminance: Some(50), weight: 9 },
        Sample { log_luminance: Some(0), weight: 0 },
    ];
    let h = build_histogram(domain(), &pixels);
    assert_eq!(h[0], 8);
    assert_eq!(h[48], 6);
    assert_eq!(h[63], 9);
    assert_eq!(h[32], 0);
    assert_eq!(histogram_total(&h), 23);
}

#[test]
fn empty_image_gives_empty_histogram() {
    let h = build_histogram(domain(), &Vec::new());
    assert_eq!(h, vec![0u32; 64]);
}

#[test]
fn buckets_may_each_fill_their_counter() {
    let pixels = vec![
        Sample { log_luminance: Some(-10), weight: u32::MAX },
        Sample { log_luminance: Some(10), weight: u32::MAX },
    ];
    let h = build_histogram(domain(), &pixels);
    assert_eq!(h[0], u32::MAX);
    assert_eq!(h[63], u32::MAX);
    assert_eq!(histogram_total(&h), 2 * u32::MAX as u64);
}
