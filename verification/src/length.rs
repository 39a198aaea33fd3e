//! The declared length of a request, as its length header gives it.
//!
//! The header is written by the client: it is read to turn away a request that
//! announces too much, and never to size a write.

use vstd::prelude::*;

verus! {

/// Whether `b` is an ASCII decimal digit.
pub open spec fn is_digit(b: u8) -> bool {
    48 <= b <= 57
}

/// Whether every byte of `s` is a decimal digit.
pub open spec fn all_digits(s: Seq<u8>) -> bool {
    forall|i: int| 0 <= i < s.len() ==> is_digit(#[trigger] s[i])
}

/// The number that the digits of `s` write in base ten.
pub open spec fn digits_value(s: Seq<u8>) -> nat
    decreases s.len(),
{
    if s.len() == 0 {
        0
    } else {
        digits_value(s.drop_last()) * 10 + (s.last() - 48) as nat
    }
}

/// The digits of a header value: the value itself, without one leading `+`.
pub open spec fn digits_of(s: Seq<u8>) -> Seq<u8> {
    if s.len() > 0 && s[0] == 43 {
        s.subrange(1, s.len() as int)
    } else {
        s
    }
}

/// Whether a header value is a length: one or more digits after an optional `+`.
pub open spec fn is_length(s: Seq<u8>) -> bool {
    digits_of(s).len() > 0 && all_digits(digits_of(s))
}

/// The length that a request declares.
///
/// A missing header and a value that is no length both count as zero. A length
/// too large for `u64` counts as `u64::MAX`.
pub open spec fn declared_length_of(header: Option<Seq<u8>>) -> u64 {
    match header {
        Some(s) => if is_length(s) {
            if digits_value(digits_of(s)) > u64::MAX {
                u64::MAX
            } else {
                digits_value(digits_of(s)) as u64
            }
        } else {
            0
        },
        None => 0,
    }
}

proof fn lemma_digits_value_step(s: Seq<u8>, i: int)
    requires
        0 <= i < s.len(),
        is_digit(s[i]),
    ensures
        digits_value(s.subrange(0, i + 1)) == digits_value(s.subrange(0, i)) * 10 + (s[i] - 48),
{
    assert(s.subrange(0, i + 1).drop_last() =~= s.subrange(0, i));
}

/// Reads the declared length from the value of the length header.
pub fn declared_length(header: Option<&[u8]>) -> (n: u64)
    ensures
        n == declared_length_of(
            match header {
                Some(h) => Some(h@),
                None => None,
            },
        ),
{
    match header {
        Some(h) => read_length(h),
        None => 0,
    }
}

/// Reads a length from a header value that is present.
pub fn read_length(bytes: &[u8]) -> (n: u64)
    ensures
        n == declared_length_of(Some(bytes@)),
{
    let start: usize = if bytes.len() > 0 && bytes[0] == 43 {
        1
    } else {
        0
    };
    if start == bytes.len() {
        return 0;
    }
    let ghost digits = digits_of(bytes@);
    assert(digits =~= bytes@.subrange(start as int, bytes.len() as int));
    let mut total: u64 = 0;
    let mut i: usize = start;
    while i < bytes.len()
        invariant
            start <= i <= bytes.len(),
            digits == bytes@.subrange(start as int, bytes.len() as int),
            digits == digits_of(bytes@),
            all_digits(digits.subrange(0, i - start)),
            total == if digits_value(digits.subrange(0, i - start)) > u64::MAX {
                u64::MAX
            } else {
                digits_value(digits.subrange(0, i - start)) as u64
            },
        decreases bytes.len() - i,
    {
        let b: u8 = bytes[i];
        assert(digits[i - start] == b);
        if b < 48 || b > 57 {
            assert(!is_digit(digits[i - start]));
            assert(!all_digits(digits));
            return 0;
        }
        proof {
            lemma_digits_value_step(digits, i - start);
            assert forall|k: int| 0 <= k < i - start + 1 implies is_digit(
                #[trigger] digits.subrange(0, i - start + 1)[k],
            ) by {
                if k < i - start {
                    assert(digits.subrange(0, i - start)[k] == digits[k]);
                }
            }
        }
        let digit: u64 = (b - 48) as u64;
        total = match total.checked_mul(10) {
            Some(tens) => match tens.checked_add(digit) {
                Some(sum) => sum,
                None => u64::MAX,
            },
            None => u64::MAX,
        };
        i += 1;
    }
    assert(digits.subrange(0, i - start) =~= digits);
    total
}

} // verus!
