use vstd::prelude::*;
use crate::error::NumberError;

verus! {

/// One of the ten decimal digits `0` to `9`.
pub open spec fn is_digit(c: char) -> bool {
    '0' <= c <= '9'
}

/// The number that a decimal digit stands for.
pub open spec fn digit_value(c: char) -> nat
    recommends
        is_digit(c),
{
    (c as nat - '0' as nat) as nat
}

/// Every character of `text` is a decimal digit.
pub open spec fn all_digits(text: Seq<char>) -> bool {
    forall|i: int| 0 <= i < text.len() ==> is_digit(#[trigger] text[i])
}

/// The number written by a string of decimal digits, the most significant first.
pub open spec fn decimal_value(digits: Seq<char>) -> nat
    decreases digits.len(),
{
    if digits.len() == 0 {
        0
    } else {
        10 * decimal_value(digits.drop_last()) + digit_value(digits.last())
    }
}

/// Some run of digits at the start of `text` already writes a number above the 64-bit range.
pub open spec fn overflows(text: Seq<char>) -> bool {
    exists|k: int|
        0 <= k <= text.len() && all_digits(#[trigger] text.take(k)) && decimal_value(text.take(k))
            > u64::MAX
}

/// What reading `text` as a decimal number gives.
///
/// The text is read from the left. Reading stops at the first character that is no digit, or at
/// the first digit with which the number leaves the 64-bit range, whichever comes first.
pub open spec fn parsed_number(text: Seq<char>) -> Result<u64, NumberError> {
    if text.len() == 0 {
        Err(NumberError::Empty)
    } else if overflows(text) {
        Err(NumberError::TooLarge)
    } else if !all_digits(text) {
        Err(NumberError::InvalidDigit)
    } else {
        Ok(decimal_value(text) as u64)
    }
}

/// A longer run of characters never writes a smaller number.
pub proof fn lemma_decimal_value_grows(text: Seq<char>, j: int, k: int)
    requires
        0 <= j <= k <= text.len(),
    ensures
        decimal_value(text.take(j)) <= decimal_value(text.take(k)),
    decreases k - j,
{
    if j < k {
        lemma_decimal_value_grows(text, j, k - 1);
        assert(text.take(k).drop_last() == text.take(k - 1));
    }
}

/// A text is read as a number exactly when it is a run of one or more digits that writes a
/// number of the 64-bit range, and the number read is the one written.
pub proof fn lemma_number_read_iff_digits_in_range(text: Seq<char>)
    ensures
        parsed_number(text) is Ok <==> text.len() > 0 && all_digits(text) && decimal_value(text)
            <= u64::MAX,
        parsed_number(text) matches Ok(number) ==> number == decimal_value(text),
{
    if text.len() > 0 && all_digits(text) {
        assert(text.take(text.len() as int) == text);
        if decimal_value(text) <= u64::MAX {
            assert forall|k: int|
                0 <= k <= text.len() && all_digits(#[trigger] text.take(k)) implies decimal_value(
                text.take(k),
            ) <= u64::MAX by {
                lemma_decimal_value_grows(text, k, text.len() as int);
            }
        }
    }
}

/// Reads a decimal number of at most 64 bits: one or more of the digits `0` to `9`, and nothing
/// else, neither a sign nor a blank.
pub fn parse_decimal(text: &str) -> (number: Result<u64, NumberError>)
    ensures
        number == parsed_number(text@),
{
    if text.is_empty() {
        return Err(NumberError::Empty);
    }
    let mut value: u64 = 0;
    for c in it: text.chars()
        invariant
            it.seq() == text@,
            all_digits(text@.take(it.index())),
            value == decimal_value(text@.take(it.index())),
    {
        let ghost i = it.index();
        if !('0' <= c && c <= '9') {
            proof {
                assert forall|k: int|
                    0 <= k <= text@.len() && all_digits(#[trigger] text@.take(k)) implies decimal_value(
                    text@.take(k),
                ) <= u64::MAX by {
                    if k > i {
                        assert(text@.take(k)[i] == text@[i]);
                    } else {
                        lemma_decimal_value_grows(text@, k, i);
                    }
                }
            }
            return Err(NumberError::InvalidDigit);
        }
        let digit: u64 = (c as u32 - '0' as u32) as u64;
        proof {
            assert(text@.take(i + 1).drop_last() == text@.take(i));
            assert(all_digits(text@.take(i + 1))) by {
                assert(forall|j: int| 0 <= j < i ==> text@.take(i)[j] == text@.take(i + 1)[j]);
            }
        }
        let next = match value.checked_mul(10) {
            Some(tenfold) => tenfold.checked_add(digit),
            None => None,
        };
        match next {
            Some(n) => {
                value = n;
            },
            None => {
                return Err(NumberError::TooLarge);
            },
        }
    }
    proof {
        assert(text@.take(text@.len() as int) == text@);
        assert forall|k: int|
            0 <= k <= text@.len() && all_digits(#[trigger] text@.take(k)) implies decimal_value(
            text@.take(k),
        ) <= u64::MAX by {
            lemma_decimal_value_grows(text@, k, text@.len() as int);
        }
    }
    Ok(value)
}

} // verus!
