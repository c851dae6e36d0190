//! Reading the repeat count: a non-negative decimal integer, written as an
//! optional leading `+` followed by ascii digits, that fits in `u64`.
use vstd::prelude::*;
use vstd::string::StrSliceExecFns;

verus! {

/// Why a count value was rejected.
#[derive(Clone, Copy, Debug, PartialEq, Eq, Structural)]
pub enum CountError {
    /// The value was the empty string.
    Empty,
    /// A character other than an ascii digit stood where digits belong.
    BadDigit,
    /// The digits denote a number above `u64::MAX`.
    TooLarge,
}

/// An ascii decimal digit.
pub open spec fn is_ascii_digit(c: char) -> bool {
    '0' <= c && c <= '9'
}

/// The numeric value of one ascii digit.
pub open spec fn digit_val(c: char) -> nat {
    ((c as u32) - ('0' as u32)) as nat
}

/// The digits of a count string: everything after an optional leading `+`.
pub open spec fn digits_part(s: Seq<char>) -> Seq<char> {
    if s.len() > 0 && s[0] == '+' {
        s.skip(1)
    } else {
        s
    }
}

/// Every character of `s` is an ascii digit.
pub open spec fn all_digits(s: Seq<char>) -> bool {
    forall|i: int| 0 <= i < s.len() ==> is_ascii_digit(#[trigger] s[i])
}

/// The number that a digit string denotes, most significant digit first.
pub open spec fn dec_value(s: Seq<char>) -> nat
    decreases s.len(),
{
    if s.len() == 0 {
        0
    } else {
        dec_value(s.drop_last()) * 10 + digit_val(s.last())
    }
}

/// A string that denotes a count: an optional leading `+`, then at least
/// one ascii digit, with a value that fits in `u64`.
pub open spec fn is_valid_count(s: Seq<char>) -> bool {
    &&& digits_part(s).len() > 0
    &&& all_digits(digits_part(s))
    &&& dec_value(digits_part(s)) <= u64::MAX
}

/// The error that an invalid count string is rejected with.
pub open spec fn count_error_of(s: Seq<char>) -> CountError {
    if s.len() == 0 {
        CountError::Empty
    } else if digits_part(s).len() == 0 || !all_digits(digits_part(s)) {
        CountError::BadDigit
    } else {
        CountError::TooLarge
    }
}

/// Extending a digit string on the right never lowers its value.
proof fn lemma_dec_value_prefix_le(s: Seq<char>, t: Seq<char>)
    requires
        s.len() <= t.len(),
        s == t.subrange(0, s.len() as int),
    ensures
        dec_value(s) <= dec_value(t),
    decreases t.len() - s.len(),
{
    if s.len() < t.len() {
        let t1 = t.drop_last();
        assert(s =~= t1.subrange(0, s.len() as int));
        lemma_dec_value_prefix_le(s, t1);
        assert(dec_value(t1) * 10 >= dec_value(t1)) by (nonlinear_arith);
    } else {
        assert(s =~= t);
    }
}

/// Reads a non-negative decimal count, exactly as `is_valid_count` allows
/// it: `Ok` holds the denoted value, and each invalid string is rejected
/// with the error that `count_error_of` names.
pub fn parse_count(s: &str) -> (r: Result<u64, CountError>)
    ensures
        r is Ok <==> is_valid_count(s@),
        r matches Ok(v) ==> v == dec_value(digits_part(s@)),
        r matches Err(e) ==> e == count_error_of(s@),
{
    let n = s.unicode_len();
    if n == 0 {
        return Err(CountError::Empty);
    }
    let first = s.get_char(0);
    let start: usize = if first == '+' {
        1
    } else {
        0
    };
    assert(digits_part(s@) =~= s@.skip(start as int));
    if start == n {
        return Err(CountError::BadDigit);
    }
    let mut i: usize = start;
    while i < n
        invariant
            start <= i <= n,
            n == s@.len(),
            digits_part(s@) == s@.skip(start as int),
            forall|j: int| start <= j < i ==> is_ascii_digit(#[trigger] s@[j]),
        decreases n - i,
    {
        let c = s.get_char(i);
        let cv: u32 = c as u32;
        if cv < 48 || cv > 57 {
            assert(!is_ascii_digit(s@[i as int]));
            assert(digits_part(s@)[i - start] == s@[i as int]);
            assert(!all_digits(digits_part(s@)));
            return Err(CountError::BadDigit);
        }
        assert(is_ascii_digit(s@[i as int]));
        i = i + 1;
    }
    assert(all_digits(digits_part(s@)));
    let ghost digits = digits_part(s@);
    let mut acc: u64 = 0;
    let mut k: usize = start;
    while k < n
        invariant
            start <= k <= n,
            n == s@.len(),
            digits == digits_part(s@),
            digits == s@.skip(start as int),
            all_digits(digits),
            acc == dec_value(s@.subrange(start as int, k as int)),
        decreases n - k,
    {
        let c = s.get_char(k);
        proof {
            assert(s@[k as int] == digits[k - start]);
            assert(is_ascii_digit(s@[k as int]));
        }
        let d: u64 = ((c as u32) - 48) as u64;
        let ghost prefix = s@.subrange(start as int, k as int);
        let ghost prefix1 = s@.subrange(start as int, k as int + 1);
        proof {
            assert(prefix =~= prefix1.drop_last());
            assert(dec_value(prefix1) == dec_value(prefix) * 10 + digit_val(s@[k as int]));
            assert(prefix1 =~= digits.subrange(0, k - start + 1));
        }
        if acc > (u64::MAX - d) / 10 {
            proof {
                assert(acc * 10 + d > u64::MAX) by (nonlinear_arith)
                    requires
                        acc > (u64::MAX - d) / 10,
                        d <= 9,
                ;
                lemma_dec_value_prefix_le(prefix1, digits);
                assert(dec_value(digits) > u64::MAX);
            }
            return Err(CountError::TooLarge);
        }
        proof {
            assert(acc * 10 + d <= u64::MAX) by (nonlinear_arith)
                requires
                    acc <= (u64::MAX - d) / 10,
                    d <= 9,
            ;
        }
        acc = acc * 10 + d;
        k = k + 1;
    }
    assert(s@.subrange(start as int, n as int) =~= digits);
    Ok(acc)
}

} // verus!
