use vstd::prelude::*;

verus! {

/// Why a duration string such as `"30m"` was rejected.
#[derive(Debug, Clone, Copy, PartialEq, Eq, Structural)]
pub enum DurationError {
    /// No character after the digits, so no unit.
    MissingUnit,
    /// The digits before the unit are absent or too large.
    InvalidNumber,
    /// The text after the digits is not exactly one of `h`, `m`, `s`.
    UnknownUnit,
}

/// A non-negative span of time in milliseconds.
#[derive(Debug, Clone, Copy, PartialEq, Eq, Structural)]
pub struct UnsignedMillis(pub u64);

pub open spec fn is_digit(c: char) -> bool {
    '0' <= c && c <= '9'
}

pub open spec fn digit_value(c: char) -> nat {
    (c as int - '0' as int) as nat
}

/// Number of leading decimal digits of `s`.
pub open spec fn digit_prefix_len(s: Seq<char>) -> nat
    decreases s.len(),
{
    if s.len() == 0 || !is_digit(s[0]) {
        0
    } else {
        1 + digit_prefix_len(s.drop_first())
    }
}

/// The value of a string of decimal digits, most significant first.
pub open spec fn digits_value(s: Seq<char>) -> nat
    decreases s.len(),
{
    if s.len() == 0 {
        0
    } else {
        digits_value(s.drop_last()) * 10 + digit_value(s.last())
    }
}

/// Milliseconds in one of the unit `c`, or zero where `c` is no unit.
pub open spec fn unit_millis(c: char) -> nat {
    if c == 'h' {
        3_600_000
    } else if c == 'm' {
        60_000
    } else if c == 's' {
        1_000
    } else {
        0
    }
}

/// What parsing `s` yields: the digits before the first non-digit,
/// times the milliseconds of the single unit letter after them.
pub open spec fn parse_duration(s: Seq<char>) -> Result<nat, DurationError> {
    let k = digit_prefix_len(s);
    let n = digits_value(s.take(k as int));
    if k == s.len() {
        Err(DurationError::MissingUnit)
    } else if k == 0 || n > u64::MAX {
        Err(DurationError::InvalidNumber)
    } else if s.len() != k + 1 || unit_millis(s[k as int]) == 0 {
        Err(DurationError::UnknownUnit)
    } else if n * unit_millis(s[k as int]) > u64::MAX {
        Err(DurationError::InvalidNumber)
    } else {
        Ok(n * unit_millis(s[k as int]))
    }
}

proof fn lemma_digit_prefix_len(s: Seq<char>, i: int)
    requires
        0 <= i <= s.len(),
        forall|j: int| 0 <= j < i ==> is_digit(#[trigger] s[j]),
        i == s.len() || !is_digit(s[i]),
    ensures
        digit_prefix_len(s) == i,
    decreases i,
{
    if i > 0 {
        lemma_digit_prefix_len(s.drop_first(), i - 1);
    }
}

proof fn lemma_digits_value_monotone(s: Seq<char>, i: int, k: int)
    requires
        0 <= i <= k <= s.len(),
    ensures
        digits_value(s.take(i)) <= digits_value(s.take(k)),
    decreases k - i,
{
    if i < k {
        lemma_digits_value_monotone(s, i, k - 1);
        assert(s.take(k).drop_last() =~= s.take(k - 1));
    }
}

/// A run of digits followed by one of `h`, `m`, `s` parses to the digits'
/// value times 3,600,000, 60,000 or 1,000, whenever that product fits in a `u64`.
pub proof fn lemma_valid_duration(d: Seq<char>, u: char)
    requires
        d.len() > 0,
        forall|j: int| 0 <= j < d.len() ==> is_digit(#[trigger] d[j]),
        u == 'h' || u == 'm' || u == 's',
        digits_value(d) * unit_millis(u) <= u64::MAX,
    ensures
        parse_duration(d.push(u)) == Ok::<nat, DurationError>(digits_value(d) * unit_millis(u)),
        u == 'h' ==> unit_millis(u) == 3_600_000,
        u == 'm' ==> unit_millis(u) == 60_000,
        u == 's' ==> unit_millis(u) == 1_000,
{
    let s = d.push(u);
    assert forall|j: int| 0 <= j < d.len() implies is_digit(#[trigger] s[j]) by {
        assert(s[j] == d[j]);
    }
    lemma_digit_prefix_len(s, d.len() as int);
    assert(s.take(d.len() as int) =~= d);
    assert(digits_value(d) <= u64::MAX) by (nonlinear_arith)
        requires
            digits_value(d) * unit_millis(u) <= u64::MAX,
            unit_millis(u) >= 1,
    ;
}

/// A string made of digits alone has no unit.
pub proof fn lemma_missing_unit(s: Seq<char>)
    requires
        forall|j: int| 0 <= j < s.len() ==> is_digit(#[trigger] s[j]),
    ensures
        parse_duration(s) == Err::<nat, DurationError>(DurationError::MissingUnit),
{
    lemma_digit_prefix_len(s, s.len() as int);
}

/// A string that starts with a character other than a digit has no number.
pub proof fn lemma_invalid_number(s: Seq<char>)
    requires
        s.len() > 0,
        !is_digit(s[0]),
    ensures
        parse_duration(s) == Err::<nat, DurationError>(DurationError::InvalidNumber),
{
}

/// A number that fits, followed by anything but a single `h`, `m` or `s`,
/// has an unknown unit.
pub proof fn lemma_unknown_unit(d: Seq<char>, rest: Seq<char>)
    requires
        d.len() > 0,
        forall|j: int| 0 <= j < d.len() ==> is_digit(#[trigger] d[j]),
        digits_value(d) <= u64::MAX,
        rest.len() > 0,
        !is_digit(rest[0]),
        rest.len() > 1 || unit_millis(rest[0]) == 0,
    ensures
        parse_duration(d + rest) == Err::<nat, DurationError>(DurationError::UnknownUnit),
{
    let s = d + rest;
    assert forall|j: int| 0 <= j < d.len() implies is_digit(#[trigger] s[j]) by {
        assert(s[j] == d[j]);
    }
    assert(s[d.len() as int] == rest[0]);
    lemma_digit_prefix_len(s, d.len() as int);
    assert(s.take(d.len() as int) =~= d);
}

impl UnsignedMillis {
    /// Parses `"{n}h"`, `"{n}m"` or `"{n}s"` into milliseconds.
    pub fn from_str(s: &str) -> (r: Result<UnsignedMillis, DurationError>)
        ensures
            match parse_duration(s@) {
                Ok(ms) => r == Ok::<UnsignedMillis, DurationError>(UnsignedMillis(ms as u64)),
                Err(e) => r == Err::<UnsignedMillis, DurationError>(e),
            },
    {
        let len = s.unicode_len();
        let mut k: usize = 0;
        while k < len && '0' <= s.get_char(k) && s.get_char(k) <= '9'
            invariant
                len == s@.len(),
                k <= len,
                forall|j: int| 0 <= j < k ==> is_digit(#[trigger] s@[j]),
            decreases len - k,
        {
            k = k + 1;
        }
        proof {
            lemma_digit_prefix_len(s@, k as int);
        }
        if k == len {
            return Err(DurationError::MissingUnit);
        }
        if k == 0 {
            return Err(DurationError::InvalidNumber);
        }
        let mut n: u64 = 0;
        let mut i: usize = 0;
        while i < k
            invariant
                k < len == s@.len(),
                i <= k,
                digit_prefix_len(s@) == k,
                forall|j: int| 0 <= j < k ==> is_digit(#[trigger] s@[j]),
                n == digits_value(s@.take(i as int)),
            decreases k - i,
        {
            let c = s.get_char(i);
            let d = (c as u32 - '0' as u32) as u64;
            proof {
                assert(s@.take(i + 1).drop_last() =~= s@.take(i as int));
                assert(s@.take(i + 1).last() == s@[i as int]);
                assert(d == digit_value(s@[i as int]));
                assert(digits_value(s@.take(i + 1)) == n * 10 + d);
            }
            if n > (u64::MAX - d) / 10 {
                proof {
                    assert(digits_value(s@.take(i + 1)) > u64::MAX) by (nonlinear_arith)
                        requires
                            n > (u64::MAX - d) / 10,
                            d <= 9,
                            digits_value(s@.take(i + 1)) == n * 10 + d,
                    ;
                    lemma_digits_value_monotone(s@, i + 1, k as int);
                }
                return Err(DurationError::InvalidNumber);
            }
            n = n * 10 + d;
            i = i + 1;
        }
        let unit = s.get_char(k);
        if len != k + 1 {
            return Err(DurationError::UnknownUnit);
        }
        let factor: u64 = if unit == 'h' {
            3_600_000
        } else if unit == 'm' {
            60_000
        } else if unit == 's' {
            1_000
        } else {
            return Err(DurationError::UnknownUnit);
        };
        match n.checked_mul(factor) {
            Some(ms) => Ok(UnsignedMillis(ms)),
            None => Err(DurationError::InvalidNumber),
        }
    }
}

} // verus!
