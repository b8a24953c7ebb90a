use lifelogging::audio::resample::{
    compute_resampled_capacity, resample, resample_covering, source_position,
};

fn blend(a: f32, b: f32, k: u32, n: u32) -> f32 {
    let frac = k as f32 / n as f32;
    a * (1.0 - frac) + b * frac
}

#[test]
fn capacity_is_rounded_up() {
    assert_eq!(compute_resampled_capacity(4, 4, 8), 8);
    assert_eq!(compute_resampled_capacity(10, 44100, 48000), 11);
    assert_eq!(compute_resampled_capacity(441, 44100, 48000), 480);
    assert_eq!(compute_resampled_capacity(3, 2, 1), 2);
    assert_eq!(compute_resampled_capacity(0, 2, 1), 0);
    assert_eq!(compute_resampled_capacity(7, 3, 0), 0);
    assert_eq!(compute_resampled_capacity(1, 48000, 1), 1);
}

#[test]
fn position_is_floor_ceil_and_fraction() {
    let at = source_position(3, 4, 4, 8);
    assert_eq!((at.floor, at.ceil, at.fraction), (1, 2, 4));
    let at = source_position(4, 4, 4, 8);
    assert_eq!((at.floor, at.ceil, at.fraction), (2, 2, 0));
    let at = source_position(10, 10, 44100, 48000);
    assert_eq!((at.floor, at.ceil, at.fraction), (9, 10, 9000));
}

#[test]
fn same_rate_copies() {
    assert_eq!(resample(&[1.0f32, 2.0], 8000, 8000, blend), vec![1.0, 2.0]);
    assert_eq!(resample_covering(&[1.0f32, 2.0], 8000, 8000, blend), vec![1.0, 2.0]);
}

#[test]
fn resample_drops_the_last_partial_sample() {
    assert_eq!(resample(&[0.0f32, 1.0, 2.0], 2, 4, blend), vec![0.0, 0.5, 1.0, 1.5, 2.0, 2.0]);
    assert_eq!(resample(&[0.0f32, 1.0, 2.0, 3.0, 4.0], 4, 2, blend), vec![0.0, 2.0]);
    assert_eq!(resample(&[0.0f32, 3.0, 6.0], 3, 2, blend), vec![0.0, 4.5]);
    assert_eq!(resample(&[] as &[f32], 3, 2, blend), Vec::<f32>::new());
    assert_eq!(resample(&[1.0f32, 2.0], 3, 0, blend), Vec::<f32>::new());
}

#[test]
fn resample_covering_counts_the_last_partial_sample() {
    assert_eq!(
        resample_covering(&[0.0f32, 1.0, 2.0, 3.0, 4.0], 4, 2, blend),
        vec![0.0, 2.0, 4.0]
    );
    assert_eq!(resample_covering(&[0.0f32, 3.0, 6.0], 3, 2, blend), vec![0.0, 4.5]);
    assert_eq!(resample_covering(&[0.0f32, 3.0, 6.0, 9.0], 3, 2, blend), vec![0.0, 4.5, 9.0]);
    assert_eq!(resample_covering(&[] as &[f32], 3, 2, blend), Vec::<f32>::new());
    assert_eq!(resample_covering(&[7.0f32], 1, 3, blend), vec![7.0, 7.0, 7.0]);
}
