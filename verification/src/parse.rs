//! Exact parsing of decimal integer fields out of scene-node names and
//! operator input, over raw bytes.

use vstd::prelude::*;

verus! {

/// ASCII decimal digit.
pub open spec fn is_digit(b: u8) -> bool {
    48 <= b <= 57
}

pub open spec fn all_digits(s: Seq<u8>) -> bool {
    forall|i: int| 0 <= i < s.len() ==> is_digit(#[trigger] s[i])
}

/// The value of a digit string, most significant first.
pub open spec fn digits_value(s: Seq<u8>) -> int
    recommends
        all_digits(s),
    decreases s.len(),
{
    if s.len() == 0 {
        0
    } else {
        digits_value(s.drop_last()) * 10 + (s.last() - 48)
    }
}

/// The bytes form a decimal integer: digits, or a minus sign followed by
/// digits, at least one digit either way.
pub open spec fn is_int_literal(s: Seq<u8>) -> bool {
    if s.len() == 0 {
        false
    } else if s[0] == 45 {
        s.len() > 1 && all_digits(s.skip(1))
    } else {
        all_digits(s)
    }
}

/// The integer a literal denotes.
pub open spec fn int_value(s: Seq<u8>) -> int
    recommends
        is_int_literal(s),
{
    if s.len() > 0 && s[0] == 45 {
        -digits_value(s.skip(1))
    } else {
        digits_value(s)
    }
}

pub proof fn lemma_digits_value_nonneg(s: Seq<u8>)
    requires
        all_digits(s),
    ensures
        digits_value(s) >= 0,
    decreases s.len(),
{
    if s.len() > 0 {
        lemma_digits_value_nonneg(s.drop_last());
    }
}

/// Cap used while accumulating a digit value, far above the `i32` range.
const DIGIT_ACC_CAP: i64 = 1_000_000_000_000;

/// The value of the digit bytes, saturated at `DIGIT_ACC_CAP`: exact while
/// below the cap, and at least the cap otherwise.
fn digits_value_saturating(s: &[u8], from: usize) -> (r: Option<i64>)
    requires
        from <= s@.len(),
    ensures
        match r {
            Some(v) => v >= 0 && all_digits(s@.skip(from as int)) && s@.len() - from >= 1 && (
            (digits_value(s@.skip(from as int)) < DIGIT_ACC_CAP && v == digits_value(
                s@.skip(from as int),
            )) || (digits_value(s@.skip(from as int)) >= DIGIT_ACC_CAP && v >= DIGIT_ACC_CAP)),
            None => !(all_digits(s@.skip(from as int)) && s@.len() - from >= 1),
        },
{
    let ghost digits = s@.skip(from as int);
    let n = s.len();
    if from >= n {
        return None;
    }
    let mut acc: i64 = 0;
    let mut i: usize = from;
    proof {
        assert(digits.take(0) =~= Seq::<u8>::empty());
    }
    while i < n
        invariant
            from <= i <= n,
            n == s@.len(),
            digits == s@.skip(from as int),
            all_digits(digits.take(i - from as int)),
            digits_value(digits.take(i - from as int)) >= 0,
            (digits_value(digits.take(i - from as int)) < DIGIT_ACC_CAP && acc == digits_value(
                digits.take(i - from as int),
            )) || (digits_value(digits.take(i - from as int)) >= DIGIT_ACC_CAP && DIGIT_ACC_CAP
                <= acc <= 11 * DIGIT_ACC_CAP),
        decreases n - i,
    {
        let b = s[i];
        if b < 48 || b > 57 {
            proof {
                assert(digits[i - from as int] == b);
            }
            return None;
        }
        let ghost prefix = digits.take(i - from as int);
        let ghost next_prefix = digits.take(i + 1 - from as int);
        proof {
            assert(next_prefix.drop_last() =~= prefix);
            assert(next_prefix.last() == digits[i - from as int]);
            assert(digits[i - from as int] == s@[i as int]);
            lemma_digits_value_nonneg(prefix);
        }
        if acc >= DIGIT_ACC_CAP {
            // the true value only grows with more digits; stay saturated
        } else {
            acc = acc * 10 + (b - 48) as i64;
        }
        i += 1;
    }
    proof {
        assert(digits.take(n - from as int) =~= digits);
    }
    Some(acc)
}

/// Parse the bytes as an `i32`: the whole slice must be a decimal integer
/// literal whose value fits, else nothing.
pub fn parse_i32(s: &[u8]) -> (r: Option<i32>)
    ensures
        match r {
            Some(v) => is_int_literal(s@) && i32::MIN <= int_value(s@) <= i32::MAX && v
                == int_value(s@),
            None => !(is_int_literal(s@) && i32::MIN <= int_value(s@) <= i32::MAX),
        },
{
    let n = s.len();
    if n == 0 {
        return None;
    }
    if s[0] == 45 {
        match digits_value_saturating(s, 1) {
            None => None,
            Some(v) => {
                if v <= 2_147_483_648 {
                    Some((-v) as i32)
                } else {
                    None
                }
            },
        }
    } else {
        match digits_value_saturating(s, 0) {
            None => {
                proof {
                    assert(s@.skip(0) =~= s@);
                }
                None
            },
            Some(v) => {
                proof {
                    assert(s@.skip(0) =~= s@);
                }
                if v <= 2_147_483_647 {
                    Some(v as i32)
                } else {
                    None
                }
            },
        }
    }
}

} // verus!
