use crate::debounce::{detect_kill_events, detected_events, lemma_events_bounded, offsets_fit};
use crate::robust::{found_by_trials, get_offset, millis_u32};
use crate::suggest::MAX_CHOICES;
use vstd::prelude::*;

verus! {

/// Game mode of a match, as far as the broadcast delay depends on it.
#[derive(PartialEq, Eq, Structural, Clone, Copy, Debug)]
pub enum QueueKind {
    Deathmatch,
    Competitive,
    Other,
}

/// Smallest plausible delay (ms) between a match and its broadcast: none for
/// deathmatch, a minute for competitive, 40 s otherwise or when unknown.
pub open spec fn queue_min_offset(queue: Option<QueueKind>) -> u64 {
    match queue {
        Some(QueueKind::Deathmatch) => 0,
        Some(QueueKind::Competitive) => 60_000,
        _ => 40_000,
    }
}

pub fn min_offset_for_queue(queue: Option<QueueKind>) -> (r: u64)
    ensures
        r == queue_min_offset(queue),
{
    match queue {
        Some(QueueKind::Deathmatch) => 0,
        Some(QueueKind::Competitive) => 60_000,
        _ => 40_000,
    }
}

/// Detection threshold of the first pass, and of the stricter retry.
pub const FIRST_PASS_THRESHOLD: i32 = 0;
pub const RETRY_THRESHOLD: i32 = 1;

/// Detections are worth aligning only if there are some, and at least half
/// (rounded down) as many as telemetry events.
pub open spec fn enough_detections(detected: nat, telemetry: nat) -> bool {
    detected > 0 && detected >= telemetry / 2
}

/// The detector's events on the samples, read as the aligner reads them.
pub open spec fn pass_events(
    samples: Seq<(u64, bool)>,
    threshold: i32,
    min_offset: u64,
) -> Seq<u32> {
    millis_u32(detected_events(samples, threshold as int, min_offset))
}

/// Whether `enough` holds of the detector's events at `threshold`.
pub open spec fn pass_has_enough(
    samples: Seq<(u64, bool)>,
    telemetry: Seq<u64>,
    threshold: i32,
    min_offset: u64,
) -> bool {
    enough_detections(
        detected_events(samples, threshold as int, min_offset).len(),
        telemetry.len(),
    )
}

/// The offset (ms) between the classifier samples' clock and the telemetry
/// clock: events are detected at the first-pass threshold and aligned with the
/// telemetry; when that finds no alignment, once more at the stricter
/// threshold. A pass with no detections, or fewer than half as many as
/// telemetry events, abandons the match.
pub fn estimate_match_offset(samples: &Vec<(u64, bool)>, telemetry: &[u64], min_offset: u64) -> (r:
    Option<u64>)
    requires
        offsets_fit(samples@, min_offset),
        samples@.len() < MAX_CHOICES,
        telemetry@.len() < MAX_CHOICES,
    ensures
        !pass_has_enough(samples@, telemetry@, FIRST_PASS_THRESHOLD, min_offset) ==> r is None,
        pass_has_enough(samples@, telemetry@, FIRST_PASS_THRESHOLD, min_offset) ==> {
            ||| r is Some && found_by_trials(
                pass_events(samples@, FIRST_PASS_THRESHOLD, min_offset),
                millis_u32(telemetry@),
                min_offset,
                r,
            )
            ||| found_by_trials(
                pass_events(samples@, FIRST_PASS_THRESHOLD, min_offset),
                millis_u32(telemetry@),
                min_offset,
                None,
            ) && if pass_has_enough(samples@, telemetry@, RETRY_THRESHOLD, min_offset) {
                found_by_trials(
                    pass_events(samples@, RETRY_THRESHOLD, min_offset),
                    millis_u32(telemetry@),
                    min_offset,
                    r,
                )
            } else {
                r is None
            }
        },
{
    proof {
        lemma_events_bounded(samples@, FIRST_PASS_THRESHOLD as int, min_offset, samples@.len());
        lemma_events_bounded(samples@, RETRY_THRESHOLD as int, min_offset, samples@.len());
    }
    let detected = detect_kill_events(min_offset, FIRST_PASS_THRESHOLD, samples);
    if detected.len() == 0 || detected.len() < telemetry.len() / 2 {
        return None;
    }
    let first = get_offset(detected.as_slice(), telemetry, min_offset);
    if first.is_some() {
        return first;
    }
    let detected = detect_kill_events(min_offset, RETRY_THRESHOLD, samples);
    if detected.len() == 0 || detected.len() < telemetry.len() / 2 {
        return None;
    }
    get_offset(detected.as_slice(), telemetry, min_offset)
}

} // verus!
