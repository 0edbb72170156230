use clip_sync::offset::{
    find_best_offset_statistically, get_closest_offset, get_error, MAX_OFFSET_MS,
};
use clip_sync::robust::{find_best_offset_semi_statistically, get_offset};

#[test]
fn closest_prefers_first_on_ties() {
    assert_eq!(get_closest_offset(10, &[0, 20]), 0);
    assert_eq!(get_closest_offset(10, &[20, 0]), 20);
    assert_eq!(get_closest_offset(15, &[0, 20, 14]), 14);
    assert_eq!(get_closest_offset(u64::MAX, &[7]), 7);
}

#[test]
fn error_is_mean_of_positive_lags() {
    assert_eq!(get_error(350, &[1350, 5360], &[1000, 5000, 9000]), Some(3990));
    assert_eq!(get_error(0, &[0], &[1, 2]), Some(1));
    assert_eq!(get_error(0, &[100], &[100]), None);
    assert_eq!(get_error(0, &[100], &[]), None);
}

#[test]
fn exact_search_finds_jittered_offset() {
    let d = [1350, 5360];
    let t = [1000, 5000];
    assert_eq!(find_best_offset_statistically(&d, &t, 0), Some((360, 10)));
    assert_eq!(find_best_offset_statistically(&d, &t, 400), None);
}

#[test]
fn exact_echo_has_no_positive_lag() {
    assert_eq!(find_best_offset_statistically(&[1350, 5350], &[1000, 5000], 0), None);
}

#[test]
fn offset_at_window_upper_bound() {
    let d = [251_000, 255_000];
    let t = [1000, 5010];
    assert_eq!(find_best_offset_statistically(&d, &t, 0), Some((MAX_OFFSET_MS, 10)));
}

#[test]
fn exact_search_empty_streams() {
    assert_eq!(find_best_offset_statistically(&[], &[1000], 0), None);
    assert_eq!(find_best_offset_statistically(&[1000], &[], 0), None);
}

#[test]
fn robust_search_empty_streams() {
    assert_eq!(get_offset(&[], &[1000, 5000], 0), None);
    assert_eq!(get_offset(&[1000, 5000], &[], 0), None);
    assert_eq!(find_best_offset_semi_statistically(&[], &[], 0), None);
}

#[test]
fn robust_search_skips_missed_event() {
    let r = get_offset(&[1350, 5360], &[1000, 5000, 9000], 0);
    assert_eq!(r, Some(360));
    assert!(r.unwrap().abs_diff(350) <= 50);
}

/// Detections: every telemetry event but one, shifted by 60 s and a little early.
fn shifted_with_noise(scale: u64) -> (Vec<u64>, Vec<u64>) {
    let telemetry = vec![10_000, 25_000, 40_000, 52_000, 70_000];
    let early = [1, 3, 0, 0, 2];
    let detected = telemetry
        .iter()
        .zip(early.iter())
        .enumerate()
        .filter(|(k, _)| *k != 2)
        .map(|(_, (t, e))| t + 60_000 - e * scale)
        .collect();
    (detected, telemetry)
}

#[test]
fn robust_search_recovers_true_offset() {
    let (detected, telemetry) = shifted_with_noise(10);
    let r = get_offset(&detected, &telemetry, 40_000).unwrap();
    assert!(r.abs_diff(60_000) <= 50, "offset {r}");
}

#[test]
fn robust_search_is_deterministic() {
    let (detected, telemetry) = shifted_with_noise(7);
    let a = get_offset(&detected, &telemetry, 0);
    let b = get_offset(&detected, &telemetry, 0);
    assert_eq!(a, b);
    assert!(a.is_some());
}

#[test]
fn noise_sweep_fails_past_a_threshold() {
    let scales = [1, 20, 60, 120, 199, 200, 260, 400];
    let results: Vec<Option<u64>> = scales
        .iter()
        .map(|s| {
            let (detected, telemetry) = shifted_with_noise(*s);
            get_offset(&detected, &telemetry, 40_000)
        })
        .collect();
    assert!(results[0].is_some());
    assert!(results[results.len() - 1].is_none());
    let onset = results.iter().position(|r| r.is_none()).unwrap();
    assert!(results[onset..].iter().all(|r| r.is_none()), "{results:?}");
}

#[test]
fn exact_echo_without_jitter_is_degenerate() {
    // Every shifted telemetry point either lands exactly on a detection or
    // thousands of ms away, so no alignment has a small positive mean lag.
    assert_eq!(get_offset(&[1350, 5350], &[1000, 5000, 9000], 0), None);
}
