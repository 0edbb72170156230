use vstd::prelude::*;

verus! {

pub open spec fn is_unit(c: char) -> bool {
    c == 'h' || c == 'm' || c == 's'
}

/// Seconds in one of the units `h`, `m` and `s`.
pub open spec fn unit_seconds(c: char) -> int {
    if c == 'h' {
        3600
    } else if c == 'm' {
        60
    } else if c == 's' {
        1
    } else {
        0
    }
}

pub open spec fn is_digit(c: char) -> bool {
    '0' <= c <= '9'
}

/// Value of the decimal digits `s[a..b]`.
pub open spec fn digits_value(s: Seq<char>, a: int, b: int) -> int
    decreases b - a,
{
    if b <= a {
        0
    } else {
        digits_value(s, a, b - 1) * 10 + (s[b - 1] as int - '0' as int)
    }
}

/// Index of the last unit letter before index `k`, or -1 when there is none.
pub open spec fn last_unit_before(s: Seq<char>, k: int) -> int
    decreases k,
{
    if k <= 0 {
        -1
    } else if is_unit(s[k - 1]) {
        k - 1
    } else {
        last_unit_before(s, k - 1)
    }
}

/// Seconds counted by the unit letters among the first `n` characters: each
/// adds the number written just before it (since the previous unit letter)
/// times its unit.
pub open spec fn seconds_upto(s: Seq<char>, n: int) -> int
    decreases n,
{
    if n <= 0 {
        0
    } else {
        seconds_upto(s, n - 1) + if is_unit(s[n - 1]) {
            digits_value(s, last_unit_before(s, n - 1) + 1, n - 1) * unit_seconds(s[n - 1])
        } else {
            0
        }
    }
}

/// Every unit letter closes a non-empty run of decimal digits.
pub open spec fn well_formed_length(s: Seq<char>) -> bool {
    forall|k: int|
        0 <= k < s.len() && #[trigger] is_unit(s[k]) ==> {
            &&& last_unit_before(s, k) + 1 < k
            &&& forall|j: int| last_unit_before(s, k) + 1 <= j < k ==> is_digit(#[trigger] s[j])
        }
}

proof fn lemma_last_unit_before_bounds(s: Seq<char>, k: int)
    requires
        0 <= k <= s.len(),
    ensures
        -1 <= last_unit_before(s, k) < k,
    decreases k,
{
    if k > 0 {
        lemma_last_unit_before_bounds(s, k - 1);
    }
}

proof fn lemma_digits_value_grows(s: Seq<char>, a: int, k: int, b: int)
    requires
        a <= k <= b,
        forall|j: int| a <= j < b ==> is_digit(#[trigger] s[j]),
    ensures
        0 <= digits_value(s, a, k) <= digits_value(s, a, b),
    decreases b - k,
{
    if k < b {
        lemma_digits_value_grows(s, a, k, b - 1);
        assert(is_digit(s[b - 1]));
    } else {
        lemma_digits_value_nonneg(s, a, b);
    }
}

proof fn lemma_digits_value_nonneg(s: Seq<char>, a: int, b: int)
    requires
        forall|j: int| a <= j < b ==> is_digit(#[trigger] s[j]),
    ensures
        0 <= digits_value(s, a, b),
    decreases b - a,
{
    if b > a {
        lemma_digits_value_nonneg(s, a, b - 1);
        assert(is_digit(s[b - 1]));
    }
}

proof fn lemma_seconds_grow(s: Seq<char>, k: int, n: int)
    requires
        0 <= k <= n <= s.len(),
        well_formed_length(s),
    ensures
        0 <= seconds_upto(s, k) <= seconds_upto(s, n),
    decreases n - k,
{
    if k < n {
        lemma_seconds_grow(s, k, n - 1);
        if is_unit(s[n - 1]) {
            let a = last_unit_before(s, n - 1) + 1;
            lemma_last_unit_before_bounds(s, n - 1);
            lemma_digits_value_grows(s, a, a, n - 1);
        }
    } else {
        lemma_seconds_nonneg(s, n);
    }
}

proof fn lemma_seconds_nonneg(s: Seq<char>, n: int)
    requires
        0 <= n <= s.len(),
        well_formed_length(s),
    ensures
        0 <= seconds_upto(s, n),
    decreases n,
{
    if n > 0 {
        lemma_seconds_nonneg(s, n - 1);
        if is_unit(s[n - 1]) {
            let a = last_unit_before(s, n - 1) + 1;
            lemma_last_unit_before_bounds(s, n - 1);
            lemma_digits_value_nonneg(s, a, n - 1);
        }
    }
}

/// Value of the digits `s[a..b]`.
fn parse_digits(s: &str, a: usize, b: usize) -> (r: usize)
    requires
        a <= b <= s@.len(),
        forall|j: int| a <= j < b ==> is_digit(#[trigger] s@[j]),
        digits_value(s@, a as int, b as int) <= usize::MAX,
    ensures
        r == digits_value(s@, a as int, b as int),
{
    let mut value: usize = 0;
    let mut k: usize = a;
    while k < b
        invariant
            a <= k <= b <= s@.len(),
            forall|j: int| a <= j < b ==> is_digit(#[trigger] s@[j]),
            digits_value(s@, a as int, b as int) <= usize::MAX,
            value == digits_value(s@, a as int, k as int),
        decreases b - k,
    {
        let c = s.get_char(k);
        proof {
            lemma_digits_value_grows(s@, a as int, (k + 1) as int, b as int);
            assert(is_digit(s@[k as int]));
        }
        value = value * 10 + (c as u32 - '0' as u32) as usize;
        k = k + 1;
    }
    value
}

/// Seconds in a duration written as runs of digits each closed by `h`, `m` or
/// `s` (such as `3h12m5s`); a trailing run without a unit is ignored.
pub fn parse_length(length: &str) -> (r: usize)
    requires
        well_formed_length(length@),
        seconds_upto(length@, length@.len() as int) <= usize::MAX,
    ensures
        r == seconds_upto(length@, length@.len() as int),
{
    let ghost s = length@;
    let n = length.unicode_len();
    let mut seconds: usize = 0;
    let mut start: usize = 0;
    let mut i: usize = 0;
    while i < n
        invariant
            s == length@,
            n == s.len(),
            well_formed_length(s),
            seconds_upto(s, n as int) <= usize::MAX,
            0 <= start <= i <= n,
            start == last_unit_before(s, i as int) + 1,
            seconds == seconds_upto(s, i as int),
        decreases n - i,
    {
        let c = length.get_char(i);
        proof {
            lemma_seconds_grow(s, (i + 1) as int, n as int);
            lemma_seconds_grow(s, i as int, (i + 1) as int);
        }
        if c == 'h' || c == 'm' || c == 's' {
            assert(is_unit(s[i as int]));
            proof {
                lemma_digits_value_grows(s, start as int, start as int, i as int);
            }
            let value = parse_digits(length, start, i);
            let unit: usize = if c == 'h' {
                3600
            } else if c == 'm' {
                60
            } else {
                1
            };
            seconds = seconds + value * unit;
            start = i + 1;
        }
        i = i + 1;
    }
    seconds
}

} // verus!
