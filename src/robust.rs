use crate::offset::{
    best_offset, find_best_offset_statistically, in_window, lemma_best_offset_sound, search, widen,
    MAX_MATCH_ERROR_MS, MAX_OFFSET_MS,
};
use crate::suggest::{zero_seeded_rng, IndexSuggester, TpeSuggester, MAX_CHOICES};
use rand::rngs::StdRng;
use vstd::prelude::*;

verus! {

/// Number of exclusion trials the outlier-robust search runs.
pub const TRIAL_COUNT: usize = 10_000;

/// Exclusion slots used for a stream that is not longer than the other.
pub const DEFAULT_SLOTS: usize = 2;

/// Whether the index list `ex` names index `k`.
pub open spec fn excludes(ex: Seq<usize>, k: int) -> bool {
    exists|q: int| 0 <= q < ex.len() && #[trigger] ex[q] as int == k
}

/// The first `n` elements of `s`, without those whose index `ex` names.
pub open spec fn keep_unexcluded(s: Seq<u32>, ex: Seq<usize>, n: nat) -> Seq<u32>
    decreases n,
{
    if n == 0 || n > s.len() {
        seq![]
    } else {
        let rest = keep_unexcluded(s, ex, (n - 1) as nat);
        if excludes(ex, n - 1) {
            rest
        } else {
            rest.push(s[n - 1])
        }
    }
}

/// `s` without the elements whose index `ex` names, in their order.
pub open spec fn without_indices(s: Seq<u32>, ex: Seq<usize>) -> Seq<u32> {
    keep_unexcluded(s, ex, s.len())
}

/// Exclusion slots for a stream of length `own` against one of length `other`:
/// its excess over the other, or `DEFAULT_SLOTS` when it has none.
pub open spec fn slot_count(own: nat, other: nat) -> nat {
    if own > other {
        (own - other) as nat
    } else {
        DEFAULT_SLOTS as nat
    }
}

/// A trial's proposals: one index per slot of each stream, each at most the
/// stream's length (the length itself excludes nothing).
pub open spec fn well_formed_trial(len1: nat, len2: nat, trial: (Seq<usize>, Seq<usize>)) -> bool {
    &&& trial.0.len() == slot_count(len1, len2)
    &&& trial.1.len() == slot_count(len2, len1)
    &&& forall|q: int| 0 <= q < trial.0.len() ==> #[trigger] trial.0[q] <= len1
    &&& forall|q: int| 0 <= q < trial.1.len() ==> #[trigger] trial.1[q] <= len2
}

/// The exact search on the two streams with the trial's indices left out.
pub open spec fn trial_outcome(
    d: Seq<u32>,
    t: Seq<u32>,
    min_offset: u64,
    trial: (Seq<usize>, Seq<usize>),
) -> Option<(int, int)> {
    best_offset(without_indices(d, trial.0), without_indices(t, trial.1), min_offset)
}

/// Best (offset, error) over a sequence of trials: a trial's result replaces the
/// best so far only with a strictly smaller error.
pub open spec fn best_over_trials(
    d: Seq<u32>,
    t: Seq<u32>,
    min_offset: u64,
    trials: Seq<(Seq<usize>, Seq<usize>)>,
) -> Option<(int, int)>
    decreases trials.len(),
{
    if trials.len() == 0 {
        None
    } else {
        let best = best_over_trials(d, t, min_offset, trials.drop_last());
        match trial_outcome(d, t, min_offset, trials.last()) {
            Some(found) => match best {
                Some(b) => if found.1 < b.1 {
                    Some(found)
                } else {
                    best
                },
                None => Some(found),
            },
            None => best,
        }
    }
}

pub open spec fn offset_part(b: Option<(int, int)>) -> Option<int> {
    match b {
        Some(p) => Some(p.0),
        None => None,
    }
}

pub open spec fn widen_offset(r: Option<u64>) -> Option<int> {
    match r {
        Some(o) => Some(o as int),
        None => None,
    }
}

/// `r` is the best offset over some run of `TRIAL_COUNT` well-formed trials.
pub open spec fn found_by_trials(
    d: Seq<u32>,
    t: Seq<u32>,
    min_offset: u64,
    r: Option<u64>,
) -> bool {
    exists|trials: Seq<(Seq<usize>, Seq<usize>)>|
        {
            &&& trials.len() == TRIAL_COUNT
            &&& forall|k: int|
                0 <= k < trials.len() ==> well_formed_trial(d.len(), t.len(), #[trigger] trials[k])
            &&& widen_offset(r) == offset_part(
                #[trigger] best_over_trials(d, t, min_offset, trials),
            )
        }
}

proof fn lemma_search_no_telemetry(d: Seq<u32>, t: Seq<u32>, min_offset: u64, i: nat)
    requires
        t.len() == 0,
    ensures
        search(d, t, min_offset, i, 0) is None,
    decreases i,
{
    if i > 0 {
        lemma_search_no_telemetry(d, t, min_offset, (i - 1) as nat);
    }
}

/// The exact search finds nothing when either stream is empty.
pub proof fn lemma_best_offset_empty(d: Seq<u32>, t: Seq<u32>, min_offset: u64)
    requires
        d.len() == 0 || t.len() == 0,
    ensures
        best_offset(d, t, min_offset) is None,
{
    if t.len() == 0 {
        lemma_search_no_telemetry(d, t, min_offset, d.len());
    }
}

proof fn lemma_keep_unexcluded_len(s: Seq<u32>, ex: Seq<usize>, n: nat)
    requires
        n <= s.len(),
    ensures
        keep_unexcluded(s, ex, n).len() <= n,
    decreases n,
{
    if n > 0 {
        lemma_keep_unexcluded_len(s, ex, (n - 1) as nat);
    }
}

proof fn lemma_trials_empty(
    d: Seq<u32>,
    t: Seq<u32>,
    min_offset: u64,
    trials: Seq<(Seq<usize>, Seq<usize>)>,
)
    requires
        d.len() == 0 || t.len() == 0,
    ensures
        best_over_trials(d, t, min_offset, trials) is None,
    decreases trials.len(),
{
    if trials.len() > 0 {
        lemma_trials_empty(d, t, min_offset, trials.drop_last());
        lemma_keep_unexcluded_len(d, trials.last().0, d.len());
        lemma_keep_unexcluded_len(t, trials.last().1, t.len());
        lemma_best_offset_empty(
            without_indices(d, trials.last().0),
            without_indices(t, trials.last().1),
            min_offset,
        );
    }
}

/// The best over any trials is the result of one of them, so it lies in the
/// window and its error is below `MAX_MATCH_ERROR_MS`.
pub proof fn lemma_trials_sound(
    d: Seq<u32>,
    t: Seq<u32>,
    min_offset: u64,
    trials: Seq<(Seq<usize>, Seq<usize>)>,
)
    ensures
        best_over_trials(d, t, min_offset, trials) matches Some(b) ==> in_window(b.0, min_offset)
            && b.1 < MAX_MATCH_ERROR_MS,
    decreases trials.len(),
{
    if trials.len() > 0 {
        lemma_trials_sound(d, t, min_offset, trials.drop_last());
        lemma_best_offset_sound(
            without_indices(d, trials.last().0),
            without_indices(t, trials.last().1),
            min_offset,
        );
    }
}

/// The robust search keeps a trial result of smallest error: whenever some
/// trial has a result with error `e`, the best over the trials has an error
/// of at most `e`.
pub proof fn lemma_trials_minimal(
    d: Seq<u32>,
    t: Seq<u32>,
    min_offset: u64,
    trials: Seq<(Seq<usize>, Seq<usize>)>,
    k: int,
)
    requires
        0 <= k < trials.len(),
        trial_outcome(d, t, min_offset, trials[k]) is Some,
    ensures
        best_over_trials(d, t, min_offset, trials) matches Some(found) && found.1
            <= trial_outcome(d, t, min_offset, trials[k])->Some_0.1,
    decreases trials.len(),
{
    if k < trials.len() - 1 {
        assert(trials.drop_last()[k] == trials[k]);
        lemma_trials_minimal(d, t, min_offset, trials.drop_last(), k);
    }
}

/// Whether `indices` holds `i`.
fn contains_index(indices: &Vec<usize>, i: usize) -> (r: bool)
    ensures
        r == excludes(indices@, i as int),
{
    let mut q: usize = 0;
    while q < indices.len()
        invariant
            0 <= q <= indices@.len(),
            forall|p: int| 0 <= p < q ==> indices@[p] != i,
        decreases indices@.len() - q,
    {
        if indices[q] == i {
            return true;
        }
        q = q + 1;
    }
    false
}

/// A copy of `s` without the elements whose index `indices` holds.
fn exclude_indices(s: &[u32], indices: &Vec<usize>) -> (r: Vec<u32>)
    ensures
        r@ == without_indices(s@, indices@),
{
    let mut kept: Vec<u32> = Vec::new();
    let mut k: usize = 0;
    while k < s.len()
        invariant
            0 <= k <= s@.len(),
            kept@ == keep_unexcluded(s@, indices@, k as nat),
        decreases s@.len() - k,
    {
        if !contains_index(indices, k) {
            kept.push(s[k]);
        }
        k = k + 1;
    }
    kept
}

/// One trial of the robust search: the exact search on copies of the two
/// streams without the proposed indices (an index equal to a stream's length
/// leaves nothing out).
pub fn run_trial(
    offsets1: &[u32],
    offsets2: &[u32],
    remove_values: &Vec<usize>,
    remove_values2: &Vec<usize>,
    min_offset: u64,
) -> (r: Option<(u64, u64)>)
    ensures
        widen(r) == trial_outcome(
            offsets1@,
            offsets2@,
            min_offset,
            (remove_values@, remove_values2@),
        ),
{
    let tmp_offsets1 = exclude_indices(offsets1, remove_values);
    let tmp_offsets2 = exclude_indices(offsets2, remove_values2);
    find_best_offset_statistically(tmp_offsets1.as_slice(), tmp_offsets2.as_slice(), min_offset)
}

/// `count` suggesters over the indices `0..choices`.
fn new_suggesters<S: IndexSuggester>(count: usize, choices: usize) -> (r: Vec<S>)
    requires
        1 <= choices <= MAX_CHOICES,
    ensures
        r@.len() == count,
        forall|q: int| 0 <= q < r@.len() ==> (#[trigger] r@[q]).choices() == choices,
{
    let mut suggesters: Vec<S> = Vec::new();
    let mut k: usize = 0;
    while k < count
        invariant
            1 <= choices <= MAX_CHOICES,
            0 <= k <= count,
            suggesters@.len() == k,
            forall|q: int|
                0 <= q < suggesters@.len() ==> (#[trigger] suggesters@[q]).choices() == choices,
        decreases count - k,
    {
        suggesters.push(S::with_choices(choices));
        k = k + 1;
    }
    suggesters
}

/// Asks each suggester, in order, for one index.
fn propose<S: IndexSuggester>(suggesters: &mut Vec<S>, rng: &mut StdRng) -> (r: Vec<usize>)
    ensures
        r@.len() == old(suggesters)@.len(),
        final(suggesters)@.len() == old(suggesters)@.len(),
        forall|q: int|
            0 <= q < r@.len() ==> (#[trigger] final(suggesters)@[q]).choices()
                == old(suggesters)@[q].choices(),
        forall|q: int| 0 <= q < r@.len() ==> #[trigger] r@[q] < old(suggesters)@[q].choices(),
{
    let ghost start = suggesters@;
    let mut proposals: Vec<usize> = Vec::new();
    let mut k: usize = 0;
    while k < suggesters.len()
        invariant
            0 <= k <= suggesters@.len(),
            suggesters@.len() == start.len(),
            proposals@.len() == k,
            forall|q: int|
                0 <= q < start.len() ==> (#[trigger] suggesters@[q]).choices()
                    == start[q].choices(),
            forall|q: int| 0 <= q < k ==> #[trigger] proposals@[q] < start[q].choices(),
        decreases start.len() - k,
    {
        let index = suggesters[k].suggest(rng);
        proposals.push(index);
        k = k + 1;
    }
    proposals
}

/// Tells each suggester the score of the index it proposed.
fn reward_all<S: IndexSuggester>(suggesters: &mut Vec<S>, proposals: &Vec<usize>, score: u64)
    requires
        proposals@.len() == old(suggesters)@.len(),
        forall|q: int|
            0 <= q < proposals@.len() ==> #[trigger] proposals@[q] < old(suggesters)@[q].choices(),
    ensures
        final(suggesters)@.len() == old(suggesters)@.len(),
        forall|q: int|
            0 <= q < proposals@.len() ==> (#[trigger] final(suggesters)@[q]).choices()
                == old(suggesters)@[q].choices(),
{
    let ghost start = suggesters@;
    let mut k: usize = 0;
    while k < suggesters.len()
        invariant
            0 <= k <= suggesters@.len(),
            suggesters@.len() == start.len(),
            proposals@.len() == start.len(),
            forall|q: int|
                0 <= q < start.len() ==> (#[trigger] suggesters@[q]).choices()
                    == start[q].choices(),
            forall|q: int| 0 <= q < start.len() ==> #[trigger] proposals@[q] < start[q].choices(),
        decreases start.len() - k,
    {
        suggesters[k].reward(proposals[k], score);
        k = k + 1;
    }
}

/// The offset that best aligns `offsets2`, shifted forward, onto `offsets1`
/// when some points of either stream may be spurious or missing: over
/// `TRIAL_COUNT` trials, one suggester per exclusion slot proposes an index to
/// leave out of its stream (the stream's length leaves nothing out), the exact
/// search runs on what is left, and its error is fed back to the suggesters.
/// The result of the trial with the smallest error wins (the earliest on ties).
pub fn find_best_offset_with<S: IndexSuggester>(
    offsets1: &[u32],
    offsets2: &[u32],
    min_offset: u64,
) -> (r: Option<u64>)
    requires
        offsets1@.len() < MAX_CHOICES,
        offsets2@.len() < MAX_CHOICES,
    ensures
        offsets1@.len() == 0 || offsets2@.len() == 0 ==> r is None,
        r matches Some(o) ==> min_offset <= o <= MAX_OFFSET_MS,
        found_by_trials(offsets1@, offsets2@, min_offset, r),
{
    let ghost d = offsets1@;
    let ghost t = offsets2@;
    let n1 = offsets1.len();
    let n2 = offsets2.len();
    let slots1 = if n1 > n2 {
        n1 - n2
    } else {
        DEFAULT_SLOTS
    };
    let slots2 = if n2 > n1 {
        n2 - n1
    } else {
        DEFAULT_SLOTS
    };
    let mut removers: Vec<S> = new_suggesters(slots1, n1 + 1);
    let mut removers2: Vec<S> = new_suggesters(slots2, n2 + 1);
    let mut rng = zero_seeded_rng();
    let mut best: Option<(u64, u64)> = None;
    let ghost mut trials: Seq<(Seq<usize>, Seq<usize>)> = seq![];
    let mut trial: usize = 0;
    while trial < TRIAL_COUNT
        invariant
            d == offsets1@,
            t == offsets2@,
            n1 == d.len(),
            n2 == t.len(),
            n1 < MAX_CHOICES,
            n2 < MAX_CHOICES,
            slots1 == slot_count(d.len(), t.len()),
            slots2 == slot_count(t.len(), d.len()),
            removers@.len() == slots1,
            removers2@.len() == slots2,
            forall|q: int|
                0 <= q < removers@.len() ==> (#[trigger] removers@[q]).choices() == n1 + 1,
            forall|q: int|
                0 <= q < removers2@.len() ==> (#[trigger] removers2@[q]).choices() == n2 + 1,
            0 <= trial <= TRIAL_COUNT,
            trials.len() == trial,
            forall|k: int|
                0 <= k < trials.len() ==> well_formed_trial(d.len(), t.len(), #[trigger] trials[k]),
            widen(best) == best_over_trials(d, t, min_offset, trials),
        decreases TRIAL_COUNT - trial,
    {
        let remove_values = propose(&mut removers, &mut rng);
        let remove_values2 = propose(&mut removers2, &mut rng);
        let ghost prev = trials;
        proof {
            trials = trials.push((remove_values@, remove_values2@));
            assert(trials.drop_last() == prev);
            assert forall|k: int| 0 <= k < trials.len() implies well_formed_trial(
                d.len(),
                t.len(),
                #[trigger] trials[k],
            ) by {
                if k < prev.len() {
                    assert(trials[k] == prev[k]);
                }
            }
        }
        match run_trial(offsets1, offsets2, &remove_values, &remove_values2, min_offset) {
            Some(found) => {
                reward_all(&mut removers, &remove_values, found.1);
                reward_all(&mut removers2, &remove_values2, found.1);
                let better = match best {
                    Some(cur) => found.1 < cur.1,
                    None => true,
                };
                if better {
                    best = Some(found);
                }
            },
            None => {},
        }
        trial = trial + 1;
    }
    proof {
        lemma_trials_sound(d, t, min_offset, trials);
        if d.len() == 0 || t.len() == 0 {
            lemma_trials_empty(d, t, min_offset, trials);
        }
    }
    match best {
        Some(found) => Some(found.0),
        None => None,
    }
}

/// The robust search with a tree-structured Parzen estimator for each
/// exclusion slot.
pub fn find_best_offset_semi_statistically(
    offsets1: &[u32],
    offsets2: &[u32],
    min_offset: u64,
) -> (r: Option<u64>)
    requires
        offsets1@.len() < MAX_CHOICES,
        offsets2@.len() < MAX_CHOICES,
    ensures
        offsets1@.len() == 0 || offsets2@.len() == 0 ==> r is None,
        r matches Some(o) ==> min_offset <= o <= MAX_OFFSET_MS,
        found_by_trials(offsets1@, offsets2@, min_offset, r),
{
    find_best_offset_with::<TpeSuggester>(offsets1, offsets2, min_offset)
}

/// Millisecond timestamps as the 32-bit values the search works on (the low
/// 32 bits, which cover about 49 days).
pub open spec fn millis_u32(s: Seq<u64>) -> Seq<u32> {
    s.map_values(|x: u64| x as u32)
}

/// The offset (ms) to add to the `offsets2` timeline (telemetry) to line it up
/// with the `offsets1` timeline (detections), searched in
/// `[min_offset, MAX_OFFSET_MS]`; none when no alignment qualifies.
pub fn get_offset(offsets1: &[u64], offsets2: &[u64], min_offset: u64) -> (r: Option<u64>)
    requires
        offsets1@.len() < MAX_CHOICES,
        offsets2@.len() < MAX_CHOICES,
    ensures
        offsets1@.len() == 0 || offsets2@.len() == 0 ==> r is None,
        r matches Some(o) ==> min_offset <= o <= MAX_OFFSET_MS,
        found_by_trials(millis_u32(offsets1@), millis_u32(offsets2@), min_offset, r),
{
    let millis1 = to_millis_u32(offsets1);
    let millis2 = to_millis_u32(offsets2);
    find_best_offset_semi_statistically(millis1.as_slice(), millis2.as_slice(), min_offset)
}

fn to_millis_u32(s: &[u64]) -> (r: Vec<u32>)
    ensures
        r@ == millis_u32(s@),
{
    let mut out: Vec<u32> = Vec::new();
    let mut k: usize = 0;
    while k < s.len()
        invariant
            0 <= k <= s@.len(),
            out@ == s@.take(k as int).map_values(|x: u64| x as u32),
        decreases s@.len() - k,
    {
        out.push(s[k] as u32);
        k = k + 1;
        assert(s@.take(k as int) == s@.take(k - 1).push(s@[k - 1]));
    }
    assert(s@.take(s@.len() as int) == s@);
    out
}

} // verus!
