use clip_sync::rounds::is_attacker_red;
use clip_sync::sync::{estimate_match_offset, min_offset_for_queue, QueueKind};
use clip_sync::vod::parse_length;

#[test]
fn parses_hours_minutes_seconds() {
    assert_eq!(parse_length("3h12m5s"), 3 * 3600 + 12 * 60 + 5);
    assert_eq!(parse_length("45m"), 2700);
    assert_eq!(parse_length("59s"), 59);
    assert_eq!(parse_length("1h0m0s"), 3600);
    assert_eq!(parse_length(""), 0);
    assert_eq!(parse_length("12m30"), 720);
    assert_eq!(parse_length("007s"), 7);
}

#[test]
fn red_attacks_first_half_and_even_overtime() {
    assert!(is_attacker_red(0));
    assert!(is_attacker_red(11));
    assert!(!is_attacker_red(12));
    assert!(!is_attacker_red(23));
    assert!(is_attacker_red(24));
    assert!(!is_attacker_red(25));
    assert!(is_attacker_red(26));
}

#[test]
fn queue_minimum_offsets() {
    assert_eq!(min_offset_for_queue(Some(QueueKind::Deathmatch)), 0);
    assert_eq!(min_offset_for_queue(Some(QueueKind::Competitive)), 60_000);
    assert_eq!(min_offset_for_queue(Some(QueueKind::Other)), 40_000);
    assert_eq!(min_offset_for_queue(None), 40_000);
}

/// Samples at three per second over `len_ms`, positive over each `[start, start + 600)`.
fn banner_samples(starts: &[u64], len_ms: u64) -> Vec<(u64, bool)> {
    (0..len_ms * 3 / 1000)
        .map(|k| {
            let t = k * 1000 / 3;
            (t, starts.iter().any(|s| (*s..*s + 600).contains(&t)))
        })
        .collect()
}

#[test]
fn pipeline_aligns_banners_with_telemetry() {
    // Banners about 330 ms (on the sample grid) after each telemetry event
    // but the last, which was not seen.
    let samples = banner_samples(&[1333, 5333], 12_000);
    let telemetry = [1000, 5010, 9000];
    let r = estimate_match_offset(&samples, &telemetry, 0);
    assert_eq!(r, Some(333));
}

#[test]
fn pipeline_gives_up_without_detections() {
    let samples = banner_samples(&[], 12_000);
    assert_eq!(estimate_match_offset(&samples, &[1000, 5000], 0), None);
}

#[test]
fn pipeline_gives_up_with_too_few_detections() {
    let samples = banner_samples(&[1333], 12_000);
    let telemetry = [1000, 5000, 9000, 11_000];
    assert_eq!(estimate_match_offset(&samples, &telemetry, 0), None);
}
