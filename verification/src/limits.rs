//! Numeric tuning options read from the raw option bag: the bound on
//! in-flight operations and the retry count handed to the retry policy.
//! The retry count is the one retry knob honored; the policy's timing
//! settings (timeout and backoff) stay at the provider's defaults.

use vstd::prelude::*;

use crate::options::StorageOptions;
use crate::options::last_raw;

verus! {

/// The largest bound the in-flight limiter can be built with; larger
/// requested bounds are capped here instead of failing downstream.
pub const MAX_IN_FLIGHT_BOUND: usize = usize::MAX >> 3;

/// Every character is a decimal digit, and there is at least one.
pub open spec fn is_digits(s: Seq<char>) -> bool {
    s.len() > 0 && (forall|i: int| 0 <= i < s.len() ==> 48 <= (#[trigger] s[i]) as u32 <= 57)
}

/// The number the decimal digits denote.
pub open spec fn digits_value(s: Seq<char>) -> int
    decreases s.len(),
{
    if s.len() == 0 {
        0
    } else {
        digits_value(s.drop_last()) * 10 + (s.last() as u32 - 48)
    }
}

/// The unsigned number a string denotes: all decimal digits, within range.
pub open spec fn usize_of(s: Seq<char>) -> Option<usize> {
    if is_digits(s) && digits_value(s) <= usize::MAX as int {
        Some(digits_value(s) as usize)
    } else {
        None
    }
}

/// A digit string denotes a non-negative number.
proof fn lemma_digits_value_nonneg(s: Seq<char>)
    requires
        forall|i: int| 0 <= i < s.len() ==> 48 <= (#[trigger] s[i]) as u32 <= 57,
    ensures
        digits_value(s) >= 0,
    decreases s.len(),
{
    if s.len() > 0 {
        lemma_digits_value_nonneg(s.drop_last());
    }
}

/// A prefix of a digit string denotes no more than the whole string.
proof fn lemma_digits_prefix_le(s: Seq<char>, i: int)
    requires
        0 <= i <= s.len(),
        forall|j: int| 0 <= j < s.len() ==> 48 <= (#[trigger] s[j]) as u32 <= 57,
    ensures
        digits_value(s.take(i)) <= digits_value(s),
    decreases s.len() - i,
{
    if i == s.len() {
        assert(s.take(i) =~= s);
    } else {
        lemma_digits_prefix_le(s, i + 1);
        assert(s.take(i + 1).drop_last() =~= s.take(i));
        assert(s.take(i + 1).last() == s[i]);
        lemma_digits_value_nonneg(s.take(i));
    }
}

/// Parses a decimal number. Anything but a plain in-range digit string
/// yields `None`.
pub fn parse_usize(s: &str) -> (r: Option<usize>)
    ensures
        r == usize_of(s@),
{
    let n = s.unicode_len();
    if n == 0 {
        return None;
    }
    let mut acc: usize = 0;
    for i in 0..n
        invariant
            n == s@.len(),
            forall|j: int| 0 <= j < i ==> 48 <= (#[trigger] s@[j]) as u32 <= 57,
            acc == digits_value(s@.take(i as int)),
    {
        let c = s.get_char(i);
        let cu = c as u32;
        if cu < 48 || cu > 57 {
            return None;
        }
        let d = (cu - 48) as usize;
        proof {
            assert(s@.take(i + 1).drop_last() =~= s@.take(i as int));
            assert(s@.take(i + 1).last() == s@[i as int]);
        }
        let acc10 = match acc.checked_mul(10) {
            Some(t) => t,
            None => {
                proof {
                    if is_digits(s@) {
                        lemma_digits_prefix_le(s@, i + 1);
                    }
                }
                return None;
            },
        };
        acc = match acc10.checked_add(d) {
            Some(t) => t,
            None => {
                proof {
                    if is_digits(s@) {
                        lemma_digits_prefix_le(s@, i + 1);
                    }
                }
                return None;
            },
        };
    }
    proof {
        assert(s@.take(n as int) =~= s@);
    }
    Some(acc)
}

/// The bound on in-flight operations that the option bag asks for: the last
/// "object_store_concurrency_limit" value when it parses and fits, capped
/// at the largest constructible bound; otherwise effectively unbounded.
pub open spec fn spec_limit(pairs: Seq<(Seq<char>, Seq<char>)>) -> usize {
    match last_raw(pairs, "object_store_concurrency_limit"@) {
        Some(v) => match usize_of(v) {
            Some(l) => if l <= MAX_IN_FLIGHT_BOUND {
                l
            } else {
                MAX_IN_FLIGHT_BOUND
            },
            None => MAX_IN_FLIGHT_BOUND,
        },
        None => MAX_IN_FLIGHT_BOUND,
    }
}

/// Reads the in-flight bound out of the raw option bag.
pub fn concurrency_limit(options: &StorageOptions) -> (r: usize)
    ensures
        r == spec_limit(options.pairs()),
        r <= MAX_IN_FLIGHT_BOUND,
{
    match crate::options::raw_lookup(options, "object_store_concurrency_limit") {
        Some(v) => match parse_usize(v.as_str()) {
            Some(l) => if l <= MAX_IN_FLIGHT_BOUND {
                l
            } else {
                MAX_IN_FLIGHT_BOUND
            },
            None => MAX_IN_FLIGHT_BOUND,
        },
        None => MAX_IN_FLIGHT_BOUND,
    }
}

/// The retry count the option bag asks for, when "max_retries" is set to a
/// number; otherwise the retry policy keeps its default.
pub open spec fn spec_retries(pairs: Seq<(Seq<char>, Seq<char>)>) -> Option<usize> {
    match last_raw(pairs, "max_retries"@) {
        Some(v) => usize_of(v),
        None => None,
    }
}

/// Reads the retry count out of the raw option bag.
pub fn retries(options: &StorageOptions) -> (r: Option<usize>)
    ensures
        r == spec_retries(options.pairs()),
{
    match crate::options::raw_lookup(options, "max_retries") {
        Some(v) => parse_usize(v.as_str()),
        None => None,
    }
}

} // verus!
