use clip_sync::clip::{
    clip_shift, ffmpeg_time_parts, get_match_interval, get_match_length, get_video_offset,
    VideoOffsetError, MAX_MATCH_LENGTH_MS,
};
use clip_sync::robust::run_trial;
use clip_sync::rounds::{is_attacker, TeamColor};

#[test]
fn match_length_defaults_to_ninety_minutes() {
    assert_eq!(get_match_length(Some(1_800_000)), 1_800_000);
    assert_eq!(get_match_length(None), 5_400_000);
    assert_eq!(MAX_MATCH_LENGTH_MS, 5_400_000);
}

#[test]
fn video_offset_of_later_match() {
    assert_eq!(get_video_offset(1_700_000_000, 1_700_000_123_456), Ok(123_456));
}

#[test]
fn video_offset_rejects_match_before_recording() {
    let e = Err(VideoOffsetError::VideoStartsAfterMatch);
    assert_eq!(get_video_offset(1_700_000_000, 1_700_000_000_000), e);
    assert_eq!(get_video_offset(1_700_000_001, 1_700_000_000_000), e);
    assert_eq!(get_video_offset(u64::MAX, 5), e);
}

#[test]
fn match_interval_adds_length_and_margin() {
    assert_eq!(get_match_interval(1000, 1_060_000, Some(2_000_000)), Ok((60_000, 2_360_000)));
    assert_eq!(get_match_interval(1000, 1_060_000, None), Ok((60_000, 5_760_000)));
    assert_eq!(
        get_match_interval(2000, 1_060_000, None),
        Err(VideoOffsetError::VideoStartsAfterMatch)
    );
}

#[test]
fn ffmpeg_parts_split_milliseconds() {
    assert_eq!(ffmpeg_time_parts(0), (0, 0, 0, 0));
    assert_eq!(ffmpeg_time_parts(3_723_004), (1, 2, 3, 4));
    assert_eq!(ffmpeg_time_parts(100 * 3_600_000 + 59_999), (100, 0, 59, 999));
}

#[test]
fn clip_shift_removes_latency() {
    assert_eq!(clip_shift(60_350), 60_000);
    assert_eq!(clip_shift(350), 0);
}

#[test]
fn blue_attacks_second_half() {
    assert!(!is_attacker(3, Some(TeamColor::Blue)));
    assert!(is_attacker(13, Some(TeamColor::Blue)));
    assert!(is_attacker(3, Some(TeamColor::Red)));
    assert!(!is_attacker(25, Some(TeamColor::Red)));
    assert!(is_attacker(25, Some(TeamColor::Blue)));
    assert!(!is_attacker(3, Some(TeamColor::Other)));
    assert!(!is_attacker(3, None));
}

#[test]
fn trial_leaves_out_proposed_indices() {
    let d = [1350, 5360];
    let t = [1000, 5000, 9000];
    assert_eq!(run_trial(&d, &t, &vec![2, 2], &vec![2], 0), Some((360, 10)));
    assert_eq!(run_trial(&d, &t, &vec![2, 2], &vec![3], 0), None);
    assert_eq!(run_trial(&d, &t, &vec![0, 1], &vec![2], 0), None);
}
