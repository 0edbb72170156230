use vstd::prelude::*;

verus! {

/// Video kept after a match's nominal end (ms), in case the match ran late.
pub const VIDEO_MATCH_SPLIT_THRESHOLD_MS: u64 = 5 * 60 * 1000;

/// Length assumed (ms) for a match whose length is unknown.
pub const MAX_MATCH_LENGTH_MS: u64 = 90 * 60 * 1000;

/// Encode and broadcast latency (ms) taken off an estimated offset before clips are cut.
pub const LATENCY_CORRECTION_MS: u64 = 350;

#[derive(PartialEq, Eq, Structural, Clone, Copy, Debug)]
pub enum VideoOffsetError {
    /// The recording started at or after the match start.
    VideoStartsAfterMatch,
}

pub open spec fn match_length(game_length_millis: Option<u64>) -> int {
    match game_length_millis {
        Some(l) => l as int,
        None => MAX_MATCH_LENGTH_MS as int,
    }
}

/// A match's length (ms), or `MAX_MATCH_LENGTH_MS` when it is unknown.
pub fn get_match_length(game_length_millis: Option<u64>) -> (r: u64)
    ensures
        r == match_length(game_length_millis),
{
    match game_length_millis {
        Some(l) => l,
        None => MAX_MATCH_LENGTH_MS,
    }
}

/// Where (ms into the recording) the match starts, the recording having
/// started at `video_start_secs` and the match at `match_start_millis` (both
/// Unix time); an error unless the match starts strictly later.
pub fn get_video_offset(video_start_secs: u64, match_start_millis: u64) -> (r: Result<
    u64,
    VideoOffsetError,
>)
    ensures
        match r {
            Ok(o) => match_start_millis > video_start_secs * 1000 && o == match_start_millis
                - video_start_secs * 1000,
            Err(e) => match_start_millis <= video_start_secs * 1000 && e
                == VideoOffsetError::VideoStartsAfterMatch,
        },
{
    if video_start_secs > u64::MAX / 1000 {
        return Err(VideoOffsetError::VideoStartsAfterMatch);
    }
    let video_start = video_start_secs * 1000;
    if match_start_millis > video_start {
        Ok(match_start_millis - video_start)
    } else {
        Err(VideoOffsetError::VideoStartsAfterMatch)
    }
}

/// The part of the recording (ms, start and end) that holds the match: from
/// the match start to its length plus `VIDEO_MATCH_SPLIT_THRESHOLD_MS` later.
pub fn get_match_interval(
    video_start_secs: u64,
    match_start_millis: u64,
    game_length_millis: Option<u64>,
) -> (r: Result<(u64, u64), VideoOffsetError>)
    requires
        match_start_millis + match_length(game_length_millis) + VIDEO_MATCH_SPLIT_THRESHOLD_MS
            <= u64::MAX,
    ensures
        match r {
            Ok((start, end)) => match_start_millis > video_start_secs * 1000 && start
                == match_start_millis - video_start_secs * 1000 && end == start + match_length(
                game_length_millis,
            ) + VIDEO_MATCH_SPLIT_THRESHOLD_MS,
            Err(e) => match_start_millis <= video_start_secs * 1000 && e
                == VideoOffsetError::VideoStartsAfterMatch,
        },
{
    let start = match get_video_offset(video_start_secs, match_start_millis) {
        Ok(o) => o,
        Err(e) => return Err(e),
    };
    let end = start + get_match_length(game_length_millis) + VIDEO_MATCH_SPLIT_THRESHOLD_MS;
    Ok((start, end))
}

/// Hours, minutes, seconds and milliseconds of a duration in ms, as a video
/// tool's `HH:MM:SS.mmm` time shows them.
pub fn ffmpeg_time_parts(millis: u64) -> (r: (u64, u64, u64, u64))
    ensures
        r.0 == millis / 3_600_000,
        r.1 == millis / 60_000 % 60,
        r.2 == millis / 1000 % 60,
        r.3 == millis % 1000,
{
    let hours = millis / 3600 / 1000;
    let minutes = millis / 60 / 1000 % 60;
    let seconds = millis / 1000 % 60;
    let rest = millis % 1000;
    assert(millis / 3600 / 1000 == millis / 3_600_000) by (nonlinear_arith);
    assert(millis / 60 / 1000 == millis / 60_000) by (nonlinear_arith);
    (hours, minutes, seconds, rest)
}

/// The shift (ms) applied to match-clock clip bounds: the estimated offset
/// less the known latency.
pub fn clip_shift(offset: u64) -> (r: u64)
    requires
        offset >= LATENCY_CORRECTION_MS,
    ensures
        r == offset - LATENCY_CORRECTION_MS,
{
    offset - LATENCY_CORRECTION_MS
}

} // verus!
