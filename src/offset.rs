use vstd::prelude::*;

verus! {

/// Largest offset (ms) between the two timelines that is considered plausible.
pub const MAX_OFFSET_MS: u64 = 250_000;

/// A candidate offset is usable only when its match error is below this (ms).
pub const MAX_MATCH_ERROR_MS: u64 = 200;

pub open spec fn dist(a: int, b: int) -> int {
    if a >= b {
        a - b
    } else {
        b - a
    }
}

/// Index of the first element among the first `n` of `d` that lies closest to `x`.
pub open spec fn closest_index_upto(x: int, d: Seq<u32>, n: nat) -> int
    decreases n,
{
    if n <= 1 {
        0
    } else {
        let k = closest_index_upto(x, d, (n - 1) as nat);
        if dist(x, d[n - 1] as int) < dist(x, d[k] as int) {
            n - 1
        } else {
            k
        }
    }
}

/// Index of the first element of `d` that lies closest to `x`.
pub open spec fn closest_index(x: int, d: Seq<u32>) -> int {
    closest_index_upto(x, d, d.len())
}

/// How far `x` lies after its nearest point of `d` (negative when before it).
pub open spec fn lag(x: int, d: Seq<u32>) -> int {
    x - d[closest_index(x, d)] as int
}

/// Sum and number of the positive lags of the first `n` points of `t`, each
/// shifted by `offset`, against `d`.
pub open spec fn lag_totals(offset: int, d: Seq<u32>, t: Seq<u32>, n: nat) -> (int, nat)
    decreases n,
{
    if n == 0 {
        (0, 0)
    } else {
        let prev = lag_totals(offset, d, t, (n - 1) as nat);
        let l = lag(t[n - 1] + offset, d);
        if l > 0 {
            (prev.0 + l, prev.1 + 1)
        } else {
            prev
        }
    }
}

/// Mean of the positive lags of `t` shifted by `offset` against `d`
/// (rounded down), or none when no shifted point lies after its nearest neighbour.
pub open spec fn match_error(offset: int, d: Seq<u32>, t: Seq<u32>) -> Option<int> {
    let totals = lag_totals(offset, d, t, t.len());
    if totals.1 == 0 {
        None
    } else {
        Some(totals.0 / (totals.1 as int))
    }
}

pub open spec fn in_window(offset: int, min_offset: u64) -> bool {
    min_offset <= offset <= MAX_OFFSET_MS
}

/// The search after looking at candidate `offset`: it is kept when it lies in
/// the window, has a match error, and improves strictly on the best so far.
pub open spec fn consider(
    best: Option<(int, int)>,
    offset: int,
    d: Seq<u32>,
    t: Seq<u32>,
    min_offset: u64,
) -> Option<(int, int)> {
    if in_window(offset, min_offset) {
        match match_error(offset, d, t) {
            Some(e) => match best {
                Some(b) => if e < b.1 {
                    Some((offset, e))
                } else {
                    best
                },
                None => Some((offset, e)),
            },
            None => best,
        }
    } else {
        best
    }
}

/// Best (offset, error) among the candidates `d[a] - t[b]` for all `a < i`,
/// and for `a == i` with `b < j`, taken in that order.
pub open spec fn search(d: Seq<u32>, t: Seq<u32>, min_offset: u64, i: nat, j: nat) -> Option<
    (int, int),
>
    decreases i, j,
{
    if j == 0 {
        if i == 0 {
            None
        } else {
            search(d, t, min_offset, (i - 1) as nat, t.len())
        }
    } else {
        consider(
            search(d, t, min_offset, i, (j - 1) as nat),
            d[i as int] - t[j - 1],
            d,
            t,
            min_offset,
        )
    }
}

/// Offset (with its error) that best aligns `t` shifted onto `d`, among the
/// pairwise differences, if its error is small enough to be trusted.
pub open spec fn best_offset(d: Seq<u32>, t: Seq<u32>, min_offset: u64) -> Option<(int, int)> {
    match search(d, t, min_offset, d.len(), 0) {
        Some(b) => if b.1 < MAX_MATCH_ERROR_MS {
            Some(b)
        } else {
            None
        },
        None => None,
    }
}

pub open spec fn widen(r: Option<(u64, u64)>) -> Option<(int, int)> {
    match r {
        Some(p) => Some((p.0 as int, p.1 as int)),
        None => None,
    }
}

/// The first element of `offsets` among those nearest to `offset`.
pub fn get_closest_offset(offset: u64, offsets: &[u32]) -> (r: u32)
    requires
        offsets@.len() > 0,
    ensures
        r == offsets@[closest_index(offset as int, offsets@)],
        0 <= closest_index(offset as int, offsets@) < offsets@.len(),
        forall|j: int|
            0 <= j < offsets@.len() ==> dist(offset as int, r as int) <= dist(
                offset as int,
                #[trigger] offsets@[j] as int,
            ),
{
    let ghost x = offset as int;
    let mut best: usize = 0;
    let mut best_dist: u64 = if offset >= offsets[0] as u64 {
        offset - offsets[0] as u64
    } else {
        offsets[0] as u64 - offset
    };
    let mut k: usize = 1;
    while k < offsets.len()
        invariant
            x == offset as int,
            1 <= k <= offsets@.len(),
            best as int == closest_index_upto(x, offsets@, k as nat),
            0 <= best < k,
            best_dist == dist(x, offsets@[best as int] as int),
            forall|j: int|
                0 <= j < k ==> best_dist <= dist(x, #[trigger] offsets@[j] as int),
        decreases offsets@.len() - k,
    {
        let v = offsets[k] as u64;
        let d = if offset >= v {
            offset - v
        } else {
            v - offset
        };
        assert(v == offsets@[k as int] as u64);
        assert(d == dist(x, offsets@[k as int] as int));
        assert(closest_index_upto(x, offsets@, (k + 1) as nat) == if dist(
            x,
            offsets@[k as int] as int,
        ) < dist(x, offsets@[closest_index_upto(x, offsets@, k as nat)] as int) {
            k as int
        } else {
            closest_index_upto(x, offsets@, k as nat)
        });
        if d < best_dist {
            best = k;
            best_dist = d;
        }
        k = k + 1;
    }
    offsets[best]
}

/// Mean positive lag of `offsets2` shifted by `offset` against `offsets1`, or
/// none when no shifted point lies after its nearest neighbour.
pub fn get_error(offset: u64, offsets1: &[u32], offsets2: &[u32]) -> (r: Option<u64>)
    requires
        offsets1@.len() > 0 || offsets2@.len() == 0,
        offset <= u64::MAX - u32::MAX,
    ensures
        match r {
            Some(e) => match_error(offset as int, offsets1@, offsets2@) == Some(e as int),
            None => match_error(offset as int, offsets1@, offsets2@) is None,
        },
{
    let ghost d = offsets1@;
    let ghost t = offsets2@;
    let mut sum: u128 = 0;
    let mut count: u64 = 0;
    let mut k: usize = 0;
    while k < offsets2.len()
        invariant
            d == offsets1@,
            t == offsets2@,
            d.len() > 0 || t.len() == 0,
            offset <= u64::MAX - u32::MAX,
            0 <= k <= t.len(),
            count <= k,
            sum <= (count as int) * 0xFFFF_FFFF_FFFF_FFFF,
            lag_totals(offset as int, d, t, k as nat) == (sum as int, count as nat),
        decreases t.len() - k,
    {
        let x = offsets2[k] as u64 + offset;
        let c = get_closest_offset(x, offsets1) as u64;
        if x > c {
            sum = sum + (x - c) as u128;
            count = count + 1;
        }
        k = k + 1;
    }
    if count == 0 {
        None
    } else {
        let mean = sum / (count as u128);
        assert(mean <= 0xFFFF_FFFF_FFFF_FFFF) by (nonlinear_arith)
            requires
                mean == sum / (count as u128),
                count > 0,
                sum <= (count as int) * 0xFFFF_FFFF_FFFF_FFFF,
        ;
        Some(mean as u64)
    }
}

/// The offset (with its match error) that best aligns `offsets2`, shifted
/// forward, onto `offsets1`: the candidates are all differences
/// `offsets1[a] - offsets2[b]` within `[min_offset, MAX_OFFSET_MS]`; the one with
/// the smallest match error wins (the earliest on ties), and only if that error
/// is below `MAX_MATCH_ERROR_MS`.
pub fn find_best_offset_statistically(offsets1: &[u32], offsets2: &[u32], min_offset: u64) -> (r:
    Option<(u64, u64)>)
    ensures
        widen(r) == best_offset(offsets1@, offsets2@, min_offset),
        r matches Some(b) ==> b.1 < MAX_MATCH_ERROR_MS && sound_candidate(
            offsets1@,
            offsets2@,
            min_offset,
            b.0 as int,
            b.1 as int,
        ),
{
    let ghost d = offsets1@;
    let ghost t = offsets2@;
    let mut best: Option<(u64, u64)> = None;
    let mut a: usize = 0;
    while a < offsets1.len()
        invariant
            d == offsets1@,
            t == offsets2@,
            0 <= a <= d.len(),
            widen(best) == search(d, t, min_offset, a as nat, 0),
        decreases d.len() - a,
    {
        let mut b: usize = 0;
        while b < offsets2.len()
            invariant
                d == offsets1@,
                t == offsets2@,
                0 <= a < d.len(),
                0 <= b <= t.len(),
                widen(best) == search(d, t, min_offset, a as nat, b as nat),
            decreases t.len() - b,
        {
            let o1 = offsets1[a] as u64;
            let o2 = offsets2[b] as u64;
            let ghost prev = best;
            if o1 >= o2 && min_offset <= o1 - o2 && o1 - o2 <= MAX_OFFSET_MS {
                let offset = o1 - o2;
                match get_error(offset, offsets1, offsets2) {
                    Some(error) => {
                        let better = match best {
                            Some(cur) => error < cur.1,
                            None => true,
                        };
                        if better {
                            best = Some((offset, error));
                        }
                    },
                    None => {},
                }
            }
            let ghost candidate = d[a as int] - t[b as int];
            assert(widen(best) == consider(widen(prev), candidate, d, t, min_offset));
            b = b + 1;
        }
        a = a + 1;
    }
    proof {
        lemma_best_offset_sound(d, t, min_offset);
    }
    match best {
        Some(found) => if found.1 < MAX_MATCH_ERROR_MS {
            Some(found)
        } else {
            None
        },
        None => None,
    }
}

/// `(offset, error)` is one the exact search may report: the offset is the
/// difference of a point of `d` and a point of `t`, lies in the window, and
/// `error` is its match error.
pub open spec fn sound_candidate(
    d: Seq<u32>,
    t: Seq<u32>,
    min_offset: u64,
    offset: int,
    error: int,
) -> bool {
    &&& in_window(offset, min_offset)
    &&& match_error(offset, d, t) == Some(error)
    &&& exists|a: int, b: int|
        0 <= a < d.len() && 0 <= b < t.len() && offset == #[trigger] d[a] - #[trigger] t[b]
}

proof fn lemma_search_sound(d: Seq<u32>, t: Seq<u32>, min_offset: u64, i: nat, j: nat)
    requires
        i < d.len() || (i == d.len() && j == 0),
        j <= t.len(),
    ensures
        search(d, t, min_offset, i, j) matches Some(b) ==> sound_candidate(
            d,
            t,
            min_offset,
            b.0,
            b.1,
        ),
    decreases i, j,
{
    if j == 0 {
        if i > 0 {
            lemma_search_sound(d, t, min_offset, (i - 1) as nat, t.len());
        }
    } else {
        lemma_search_sound(d, t, min_offset, i, (j - 1) as nat);
        let o = d[i as int] - t[j - 1];
        let a = i as int;
        let b = j - 1;
        assert(o == d[a] - t[b]);
    }
}

/// Whatever the exact search reports is a pairwise difference of the two
/// streams inside the window, whose match error is the reported error and is
/// below `MAX_MATCH_ERROR_MS`.
pub proof fn lemma_best_offset_sound(d: Seq<u32>, t: Seq<u32>, min_offset: u64)
    ensures
        best_offset(d, t, min_offset) matches Some(b) ==> {
            &&& sound_candidate(d, t, min_offset, b.0, b.1)
            &&& b.1 < MAX_MATCH_ERROR_MS
        },
{
    lemma_search_sound(d, t, min_offset, d.len(), 0);
}

proof fn lemma_search_minimal(
    d: Seq<u32>,
    t: Seq<u32>,
    min_offset: u64,
    i: nat,
    j: nat,
    a: int,
    b: int,
    e: int,
)
    requires
        i < d.len() || (i == d.len() && j == 0),
        j <= t.len(),
        0 <= a < d.len(),
        0 <= b < t.len(),
        a < i || (a == i && b < j),
        in_window(d[a] - t[b], min_offset),
        match_error(d[a] - t[b], d, t) == Some(e),
    ensures
        search(d, t, min_offset, i, j) matches Some(found) && found.1 <= e,
    decreases i, j,
{
    if j == 0 {
        lemma_search_minimal(d, t, min_offset, (i - 1) as nat, t.len(), a, b, e);
    } else if a == i && b == j - 1 {
    } else {
        lemma_search_minimal(d, t, min_offset, i, (j - 1) as nat, a, b, e);
    }
}

/// Among the candidates, the exact search keeps one of smallest match error:
/// whenever some pairwise difference in the window has a match error `e`
/// below `MAX_MATCH_ERROR_MS`, the search reports an offset whose error is at
/// most `e`.
pub proof fn lemma_best_offset_minimal(
    d: Seq<u32>,
    t: Seq<u32>,
    min_offset: u64,
    a: int,
    b: int,
    e: int,
)
    requires
        0 <= a < d.len(),
        0 <= b < t.len(),
        in_window(d[a] - t[b], min_offset),
        match_error(d[a] - t[b], d, t) == Some(e),
        e < MAX_MATCH_ERROR_MS,
    ensures
        best_offset(d, t, min_offset) matches Some(found) && found.1 <= e,
{
    lemma_search_minimal(d, t, min_offset, d.len(), 0, a, b, e);
}

/// The exact search is a function of its inputs: any two results that meet
/// its contract on the same streams and window are equal.
pub proof fn lemma_exact_search_deterministic(
    d: Seq<u32>,
    t: Seq<u32>,
    min_offset: u64,
    r1: Option<(u64, u64)>,
    r2: Option<(u64, u64)>,
)
    requires
        widen(r1) == best_offset(d, t, min_offset),
        widen(r2) == best_offset(d, t, min_offset),
    ensures
        r1 == r2,
{
}

} // verus!
