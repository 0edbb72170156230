use vstd::prelude::*;

verus! {

/// Classifier samples taken per second of video.
pub const ANALYSIS_RATE: u64 = 3;

/// Negative samples in cooldown that are tolerated before the detector re-arms;
/// one more than this re-arms it.
pub const REARM_AFTER: u64 = 2 * ANALYSIS_RATE;

/// Where the detector stands between two samples.
#[derive(PartialEq, Eq, Structural, Clone, Copy, Debug)]
pub enum Phase {
    /// No run of positive samples is being counted.
    Idle,
    /// A run of positive samples is being counted but not yet confirmed.
    Accumulating,
    /// An event was emitted; its indicator may still be on screen.
    Cooldown,
}

/// The detector's whole state after a prefix of the samples.
pub struct Debounce {
    pub phase: Phase,
    /// Timestamp (ms) of the first positive sample of the current run.
    pub first: int,
    /// Positive samples counted in the current run.
    pub run: int,
    /// Consecutive negative samples seen in cooldown.
    pub quiet: int,
    /// Events emitted so far (ms).
    pub events: Seq<u64>,
}

pub open spec fn initial_debounce() -> Debounce {
    Debounce { phase: Phase::Idle, first: 0, run: 0, quiet: 0, events: seq![] }
}

/// One transition of the detector on the sample `(t, positive)`.
pub open spec fn debounce_step(
    s: Debounce,
    t: u64,
    positive: bool,
    threshold: int,
    min_offset: u64,
) -> Debounce {
    match s.phase {
        Phase::Cooldown => {
            if positive {
                Debounce { quiet: 0, ..s }
            } else if s.quiet + 1 > REARM_AFTER {
                Debounce { phase: Phase::Idle, quiet: 0, ..s }
            } else {
                Debounce { quiet: s.quiet + 1, ..s }
            }
        },
        _ => {
            if !positive {
                Debounce { phase: Phase::Idle, run: 0, ..s }
            } else {
                let first = if s.phase == Phase::Idle { t as int } else { s.first };
                let run = if s.phase == Phase::Idle { 1 } else { s.run + 1 };
                if run > threshold {
                    Debounce {
                        phase: Phase::Cooldown,
                        first,
                        run: 0,
                        quiet: 0,
                        events: s.events.push((first + min_offset) as u64),
                    }
                } else {
                    Debounce { phase: Phase::Accumulating, first, run, ..s }
                }
            }
        },
    }
}

/// The detector's state after the first `n` samples.
pub open spec fn debounce_upto(
    samples: Seq<(u64, bool)>,
    threshold: int,
    min_offset: u64,
    n: nat,
) -> Debounce
    decreases n,
{
    if n == 0 || n > samples.len() {
        initial_debounce()
    } else {
        let prev = debounce_upto(samples, threshold, min_offset, (n - 1) as nat);
        debounce_step(prev, samples[n - 1].0, samples[n - 1].1, threshold, min_offset)
    }
}

/// Event timestamps (ms) that the detector emits over all the samples.
pub open spec fn detected_events(samples: Seq<(u64, bool)>, threshold: int, min_offset: u64) -> Seq<
    u64,
> {
    debounce_upto(samples, threshold, min_offset, samples.len()).events
}

/// Every emitted timestamp, a sample's timestamp plus the minimum offset, fits in a `u64`.
pub open spec fn offsets_fit(samples: Seq<(u64, bool)>, min_offset: u64) -> bool {
    forall|i: int| 0 <= i < samples.len() ==> samples[i].0 + min_offset <= u64::MAX
}

/// Turns per-sample classifier output `(timestamp ms, indicator visible)` into
/// event timestamps: each confirmed run of positive samples yields one event at
/// its first sample's timestamp plus `min_offset_millis`; a run is confirmed
/// once it counts more than `consecutive_kills` samples.
pub fn detect_kill_events(
    min_offset_millis: u64,
    consecutive_kills: i32,
    kill_timestamps: &Vec<(u64, bool)>,
) -> (r: Vec<u64>)
    requires
        offsets_fit(kill_timestamps@, min_offset_millis),
    ensures
        r@ == detected_events(kill_timestamps@, consecutive_kills as int, min_offset_millis),
{
    let ghost samples = kill_timestamps@;
    let ghost threshold = consecutive_kills as int;
    let mut phase = Phase::Idle;
    let mut first: u64 = 0;
    let mut run: u64 = 0;
    let mut quiet: u64 = 0;
    let mut kills: Vec<u64> = Vec::new();
    let n = kill_timestamps.len();
    let mut i: usize = 0;
    while i < n
        invariant
            n == samples.len(),
            samples == kill_timestamps@,
            threshold == consecutive_kills as int,
            offsets_fit(samples, min_offset_millis),
            0 <= i <= n,
            run <= i,
            first + min_offset_millis <= u64::MAX,
            quiet <= REARM_AFTER,
            debounce_upto(samples, threshold, min_offset_millis, i as nat) == (Debounce {
                phase,
                first: first as int,
                run: run as int,
                quiet: quiet as int,
                events: kills@,
            }),
        decreases n - i,
    {
        let (timestamp, has_kill) = kill_timestamps[i];
        if phase == Phase::Cooldown {
            if !has_kill {
                if quiet + 1 > REARM_AFTER {
                    phase = Phase::Idle;
                    quiet = 0;
                } else {
                    quiet = quiet + 1;
                }
            } else {
                quiet = 0;
            }
        } else if !has_kill {
            phase = Phase::Idle;
            run = 0;
        } else {
            if phase == Phase::Idle {
                first = timestamp;
                run = 1;
            } else {
                run = run + 1;
            }
            if consecutive_kills < 0 || run > consecutive_kills as u64 {
                kills.push(first + min_offset_millis);
                phase = Phase::Cooldown;
                run = 0;
                quiet = 0;
            } else {
                phase = Phase::Accumulating;
            }
        }
        i = i + 1;
    }
    kills
}

/// A sustained run of positive samples, with no confirmation asked beyond the
/// first sample, yields exactly one event, at the run's first timestamp plus the
/// minimum offset.
pub proof fn lemma_positive_run_emits_once(
    samples: Seq<(u64, bool)>,
    threshold: int,
    min_offset: u64,
)
    requires
        samples.len() >= 1,
        threshold <= 0,
        forall|i: int| 0 <= i < samples.len() ==> #[trigger] samples[i].1,
        offsets_fit(samples, min_offset),
    ensures
        detected_events(samples, threshold, min_offset) == seq![(samples[0].0 + min_offset) as u64],
{
    lemma_positive_run_state(samples, threshold, min_offset, samples.len());
}

proof fn lemma_positive_run_state(
    samples: Seq<(u64, bool)>,
    threshold: int,
    min_offset: u64,
    n: nat,
)
    requires
        1 <= n <= samples.len(),
        threshold <= 0,
        forall|i: int| 0 <= i < samples.len() ==> #[trigger] samples[i].1,
    ensures
        debounce_upto(samples, threshold, min_offset, n) == (Debounce {
            phase: Phase::Cooldown,
            first: samples[0].0 as int,
            run: 0,
            quiet: 0,
            events: seq![(samples[0].0 + min_offset) as u64],
        }),
    decreases n,
{
    assert(samples[n - 1].1);
    if n > 1 {
        lemma_positive_run_state(samples, threshold, min_offset, (n - 1) as nat);
    } else {
        assert(debounce_upto(samples, threshold, min_offset, 0) == initial_debounce());
        assert(seq![].push((samples[0].0 + min_offset) as u64) =~= seq![
            (samples[0].0 + min_offset) as u64,
        ]);
    }
}

/// The detector emits at most one event per sample.
pub proof fn lemma_events_bounded(
    samples: Seq<(u64, bool)>,
    threshold: int,
    min_offset: u64,
    n: nat,
)
    requires
        n <= samples.len(),
    ensures
        debounce_upto(samples, threshold, min_offset, n).events.len() <= n,
    decreases n,
{
    if n > 0 {
        lemma_events_bounded(samples, threshold, min_offset, (n - 1) as nat);
    }
}

} // verus!
