//! The workload settings of the benchmark driver, read from the text of its
//! environment variables: the number of tasks, the ratio of CPU to IO tasks
//! and whether every task takes the same time.
use vstd::prelude::*;

verus! {

/// Whether a byte is an ASCII decimal digit.
pub open spec fn is_digit(b: u8) -> bool {
    48 <= b <= 57
}

/// Whether every byte of `s` is a decimal digit.
pub open spec fn all_digits(s: Seq<u8>) -> bool {
    forall|i: int| 0 <= i < s.len() ==> #[trigger] is_digit(s[i])
}

/// The number that a string of decimal digits writes.
pub open spec fn digits_value(s: Seq<u8>) -> nat
    decreases s.len(),
{
    if s.len() == 0 {
        0
    } else {
        digits_value(s.drop_last()) * 10 + (s.last() - 48) as nat
    }
}

/// What `i32::from_str_radix(s, 10)` accepts: an optional `+` or `-`, then one
/// or more decimal digits, and nothing else, writing a number in the range of
/// `i32`. `None` for every other text.
pub open spec fn decimal_i32(s: Seq<u8>) -> Option<i32> {
    let negative = s.len() > 0 && s[0] == 45;
    let signed = s.len() > 0 && (s[0] == 45 || s[0] == 43);
    let digits = if signed { s.skip(1) } else { s };
    let magnitude = digits_value(digits) as int;
    let value = if negative { -magnitude } else { magnitude };
    if digits.len() > 0 && all_digits(digits) && i32::MIN <= value <= i32::MAX {
        Some(value as i32)
    } else {
        None
    }
}

/// The index just past the run of digits that starts at `i`.
pub open spec fn run_end(s: Seq<u8>, i: int) -> int
    decreases s.len() - i,
{
    if 0 <= i < s.len() && is_digit(s[i]) {
        run_end(s, i + 1)
    } else {
        i
    }
}

/// Whether the pattern `([0-9]+):([0-9]+)` matches at index `i`.
pub open spec fn matches_at(s: Seq<u8>, i: int) -> bool {
    let j = run_end(s, i);
    &&& i < j
    &&& j + 1 < s.len()
    &&& s[j] == 58
    &&& is_digit(s[j + 1])
}

/// The first index at or after `i` where the pattern matches.
pub open spec fn first_match(s: Seq<u8>, i: int) -> Option<int>
    decreases s.len() - i,
{
    if i < 0 || i >= s.len() {
        None
    } else if matches_at(s, i) {
        Some(i)
    } else {
        first_match(s, i + 1)
    }
}

/// The two groups of the leftmost match of `([0-9]+):([0-9]+)` in `s`: each
/// group takes as many digits as there are, so the first is the whole run of
/// digits before the colon and the second the whole run after it.
pub open spec fn dist_groups(s: Seq<u8>) -> Option<(Seq<u8>, Seq<u8>)> {
    match first_match(s, 0) {
        Some(i) => {
            let j = run_end(s, i);
            let k = run_end(s, j + 1);
            Some((s.subrange(i, j), s.subrange(j + 1, k)))
        },
        None => None,
    }
}

/// Why a ratio of task kinds was refused.
#[derive(Clone, Copy, Debug, PartialEq, Eq, Structural)]
pub enum DistError {
    /// No `x:y` in the text.
    InvalidFormat,
    /// One side of the ratio does not fit in an `i32`.
    WeightTooLarge,
}

/// The ratio that the text `s` gives, as the driver reads it: the leftmost
/// `x:y` anywhere in it, each side a run of decimal digits.
pub open spec fn spec_parse_dist(s: Seq<u8>) -> Result<(i32, i32), DistError> {
    match dist_groups(s) {
        None => Err(DistError::InvalidFormat),
        Some((a, b)) => if digits_value(a) <= i32::MAX && digits_value(b) <= i32::MAX {
            Ok((digits_value(a) as i32, digits_value(b) as i32))
        } else {
            Err(DistError::WeightTooLarge)
        },
    }
}

/// The weights of CPU and IO tasks when none are given.
pub const DEFAULT_CPU_WEIGHT: i32 = 7;

pub const DEFAULT_IO_WEIGHT: i32 = 3;

proof fn lemma_run_end_bounds(s: Seq<u8>, i: int)
    requires
        0 <= i <= s.len(),
    ensures
        i <= run_end(s, i) <= s.len(),
        forall|k: int| i <= k < run_end(s, i) ==> #[trigger] is_digit(s[k]),
        run_end(s, i) < s.len() ==> !is_digit(s[run_end(s, i)]),
    decreases s.len() - i,
{
    if i < s.len() && is_digit(s[i]) {
        lemma_run_end_bounds(s, i + 1);
    }
}

proof fn lemma_digits_value_push(s: Seq<u8>, b: u8)
    ensures
        digits_value(s.push(b)) == digits_value(s) * 10 + (b - 48) as nat,
{
    assert(s.push(b).drop_last() =~= s);
}

/// A longer string of digits writes a number at least as large.
proof fn lemma_digits_value_prefix(s: Seq<u8>, i: int)
    requires
        0 <= i <= s.len(),
        all_digits(s),
    ensures
        digits_value(s.take(i)) <= digits_value(s),
    decreases s.len() - i,
{
    if i < s.len() {
        lemma_digits_value_prefix(s, i + 1);
        assert(s.take(i + 1) =~= s.take(i).push(s[i]));
        lemma_digits_value_push(s.take(i), s[i]);
        assert(is_digit(s[i]));
    } else {
        assert(s.take(i) =~= s);
    }
}

/// The end of the run of digits that starts at `i`.
fn digit_run_end(s: &[u8], i: usize) -> (j: usize)
    requires
        i <= s@.len(),
    ensures
        j == run_end(s@, i as int),
{
    let mut j = i;
    while j < s.len() && 48 <= s[j] && s[j] <= 57
        invariant
            i <= j <= s@.len(),
            run_end(s@, i as int) == run_end(s@, j as int),
        decreases s@.len() - j,
    {
        j = j + 1;
    }
    j
}

/// The number that the digits `s[start..end]` write, when it fits in an `i32`.
fn digits_to_i32(s: &[u8], start: usize, end: usize) -> (v: Option<i32>)
    requires
        start <= end <= s@.len(),
        all_digits(s@.subrange(start as int, end as int)),
    ensures
        v == (if digits_value(s@.subrange(start as int, end as int)) <= i32::MAX {
            Some(digits_value(s@.subrange(start as int, end as int)) as i32)
        } else {
            None::<i32>
        }),
{
    let ghost digits = s@.subrange(start as int, end as int);
    let mut acc: u64 = 0;
    let mut i = start;
    while i < end
        invariant
            start <= i <= end <= s@.len(),
            digits == s@.subrange(start as int, end as int),
            all_digits(digits),
            acc == digits_value(digits.take(i - start)),
            acc <= i32::MAX,
        decreases end - i,
    {
        proof {
            assert(digits.take(i - start + 1) =~= digits.take(i - start).push(s@[i as int]));
            lemma_digits_value_push(digits.take(i - start), s@[i as int]);
            assert(is_digit(digits[i - start]));
        }
        acc = acc * 10 + (s[i] - 48) as u64;
        i = i + 1;
        if acc > 2147483647 {
            proof {
                lemma_digits_value_prefix(digits, i - start);
            }
            return None;
        }
    }
    assert(digits.take(i - start) =~= digits);
    Some(acc as i32)
}

/// Reads a whole number as `i32::from_str_radix(s, 10)` does: an optional `+`
/// or `-`, then one or more decimal digits and nothing else; `None` when the
/// text is not of that form or the number does not fit in an `i32`.
pub fn parse_i32(s: &[u8]) -> (v: Option<i32>)
    ensures
        v == decimal_i32(s@),
{
    let negative = s.len() > 0 && s[0] == 45;
    let signed = s.len() > 0 && (s[0] == 45 || s[0] == 43);
    let start: usize = if signed { 1 } else { 0 };
    let ghost digits = if signed { s@.skip(1) } else { s@ };
    assert(digits =~= s@.subrange(start as int, s@.len() as int));
    if start == s.len() {
        return None;
    }
    let mut i = start;
    while i < s.len()
        invariant
            start <= i <= s@.len(),
            start <= 1,
            digits == s@.subrange(start as int, s@.len() as int),
            digits == (if signed { s@.skip(1) } else { s@ }),
            signed == (s@.len() > 0 && (s@[0] == 45 || s@[0] == 43)),
            forall|k: int| start <= k < i ==> #[trigger] is_digit(s@[k]),
        decreases s@.len() - i,
    {
        if !(48 <= s[i] && s[i] <= 57) {
            assert(!is_digit(digits[i - start]));
            assert(!all_digits(digits));
            return None;
        }
        i = i + 1;
    }
    assert(all_digits(digits)) by {
        assert forall|k: int| 0 <= k < digits.len() implies #[trigger] is_digit(digits[k]) by {
            assert(is_digit(s@[k + start]));
        }
    }
    // the magnitude of i32::MIN is one more than i32::MAX: read it apart
    let mut acc: u64 = 0;
    let mut i = start;
    while i < s.len()
        invariant
            start <= i <= s@.len(),
            digits == s@.subrange(start as int, s@.len() as int),
            digits == (if signed { s@.skip(1) } else { s@ }),
            signed == (s@.len() > 0 && (s@[0] == 45 || s@[0] == 43)),
            negative == (s@.len() > 0 && s@[0] == 45),
            digits.len() > 0,
            all_digits(digits),
            acc == digits_value(digits.take(i - start)),
            acc <= 2147483648,
        decreases s@.len() - i,
    {
        proof {
            assert(digits.take(i - start + 1) =~= digits.take(i - start).push(s@[i as int]));
            lemma_digits_value_push(digits.take(i - start), s@[i as int]);
            assert(is_digit(digits[i - start]));
        }
        acc = acc * 10 + (s[i] - 48) as u64;
        i = i + 1;
        if acc > 2147483648 {
            proof {
                lemma_digits_value_prefix(digits, i - start);
            }
            return None;
        }
    }
    assert(digits.take(i - start) =~= digits);
    if negative {
        Some((0 - acc as i64) as i32)
    } else if acc <= 2147483647 {
        Some(acc as i32)
    } else {
        None
    }
}

/// Reads the ratio of CPU to IO tasks from the text `s`: the leftmost `x:y` in
/// it, each side a run of decimal digits (what the pattern `([0-9]+):([0-9]+)`
/// finds). An error when there is none, or when a side does not fit in an `i32`.
pub fn parse_dist(s: &[u8]) -> (r: Result<(i32, i32), DistError>)
    ensures
        r == spec_parse_dist(s@),
{
    let mut i: usize = 0;
    while i < s.len()
        invariant
            i <= s@.len(),
            first_match(s@, 0) == first_match(s@, i as int),
        decreases s@.len() - i,
    {
        let j = digit_run_end(s, i);
        proof {
            lemma_run_end_bounds(s@, i as int);
        }
        if i < j && j < s.len() && j + 1 < s.len() && s[j] == 58 && 48 <= s[j + 1] && s[j + 1] <= 57 {
            assert(matches_at(s@, i as int));
            let k = digit_run_end(s, j + 1);
            proof {
                lemma_run_end_bounds(s@, j + 1);
                assert(all_digits(s@.subrange(i as int, j as int)));
                assert(all_digits(s@.subrange(j + 1, k as int)));
            }
            let a = digits_to_i32(s, i, j);
            let b = digits_to_i32(s, j + 1, k);
            return match (a, b) {
                (Some(a), Some(b)) => Ok((a, b)),
                _ => Err(DistError::WeightTooLarge),
            };
        }
        assert(!matches_at(s@, i as int));
        i = i + 1;
    }
    Err(DistError::InvalidFormat)
}

/// The weights of CPU and IO tasks: from the text of the setting when there is
/// one, else 7 to 3.
pub fn kind_weights(setting: Option<&[u8]>) -> (r: Result<(i32, i32), DistError>)
    ensures
        match setting {
            Some(s) => r == spec_parse_dist(s@),
            None => r == Ok::<(i32, i32), DistError>((DEFAULT_CPU_WEIGHT, DEFAULT_IO_WEIGHT)),
        },
{
    match setting {
        Some(s) => parse_dist(s),
        None => Ok((DEFAULT_CPU_WEIGHT, DEFAULT_IO_WEIGHT)),
    }
}

/// Whether every task takes the same time: unless the setting is given and is
/// exactly `0`.
pub fn uniform_durations(setting: Option<&[u8]>) -> (uniform: bool)
    ensures
        uniform == match setting {
            Some(s) => s@ != seq![48u8],
            None => true,
        },
{
    match setting {
        Some(s) => {
            let zero = s.len() == 1 && s[0] == 48;
            proof {
                if !zero && s@.len() == 1 {
                    assert(s@[0] != seq![48u8][0]);
                }
                if zero {
                    assert(s@ =~= seq![48u8]);
                }
            }
            !zero
        },
        None => true,
    }
}

/// The number of tasks to generate: the text of the setting read as
/// `i32::from_str_radix(_, 10)` reads it, 1000 when there is none; `None` when
/// the text is not a whole number in the range of `i32`.
pub fn task_count(setting: Option<&[u8]>) -> (n: Option<i32>)
    ensures
        match setting {
            Some(s) => n == decimal_i32(s@),
            None => n == Some(1000i32),
        },
{
    match setting {
        Some(s) => parse_i32(s),
        None => Some(1000),
    }
}

} // verus!
