//! The form that sets the size of the pattern: two fields of text, one
//! for the number of columns and one for the number of rows.

use vstd::prelude::*;
use vstd::string::*;

verus! {

/// Whether every character of `s` is a decimal digit.
pub open spec fn is_digits(s: Seq<char>) -> bool {
    forall|i: int| 0 <= i < s.len() ==> '0' <= #[trigger] s[i] <= '9'
}

/// The number that decimal digits write.
pub open spec fn digits_value(s: Seq<char>) -> nat
    decreases s.len(),
{
    if s.len() == 0 {
        0
    } else {
        (digits_value(s.drop_last()) * 10 + (s.last() as u8 - 48)) as nat
    }
}

/// `s` without one leading plus sign, if it has one.
pub open spec fn strip_plus(s: Seq<char>) -> Seq<char> {
    if s.len() > 0 && s[0] == '+' {
        s.subrange(1, s.len() as int)
    } else {
        s
    }
}

/// The count that `s` writes, if it writes one: decimal digits, at least
/// one, after an optional plus sign, for a number that `usize` can hold.
pub open spec fn written_count(s: Seq<char>) -> Option<usize> {
    let digits = strip_plus(s);
    if digits.len() > 0 && is_digits(digits) && digits_value(digits) <= usize::MAX {
        Some(digits_value(digits) as usize)
    } else {
        None
    }
}

/// Reads a count from a field of the form.
pub fn parse_count(text: &str) -> (count: Option<usize>)
    ensures
        count == written_count(text@),
{
    if !text.is_ascii() {
        proof {
            let at = choose|i: int| 0 <= i < text@.len() && !('\0' <= #[trigger] text@[i] <= '\u{7f}');
            if text@.len() > 0 && text@[0] == '+' {
                assert(strip_plus(text@)[at - 1] == text@[at]);
            }
        }
        return None;
    }
    let length = text.unicode_len();
    let start: usize = if length > 0 && text.get_ascii(0) == 43 {
        1
    } else {
        0
    };
    let ghost digits = strip_plus(text@);
    assert(digits =~= text@.subrange(start as int, length as int));
    if start == length {
        return None;
    }
    let mut value: usize = 0;
    let mut i: usize = start;
    assert(digits.subrange(0, 0) =~= Seq::<char>::empty());
    while i < length
        invariant
            start <= i <= length,
            length == text@.len(),
            text.is_ascii(),
            digits == text@.subrange(start as int, length as int),
            digits == strip_plus(text@),
            is_digits(digits.subrange(0, i - start)),
            value == digits_value(digits.subrange(0, i - start)),
        decreases length - i,
    {
        let byte = text.get_ascii(i);
        let ghost seen = digits.subrange(0, i - start);
        let ghost next = digits.subrange(0, i - start + 1);
        assert(next.drop_last() =~= seen);
        assert(next.last() == text@[i as int]);
        if byte < 48 || byte > 57 {
            assert(!('0' <= digits[i - start] <= '9'));
            return None;
        }
        let digit = (byte - 48) as usize;
        if value > (usize::MAX - digit) / 10 {
            proof {
                if is_digits(digits) {
                    lemma_digits_value_grows(digits, i - start + 1);
                }
            }
            return None;
        }
        value = value * 10 + digit;
        assert(is_digits(next)) by {
            assert forall|k: int| 0 <= k < next.len() implies '0' <= #[trigger] next[k] <= '9' by {
                if k < seen.len() {
                    assert(next[k] == seen[k]);
                }
            }
        }
        i += 1;
    }
    assert(digits.subrange(0, length - start) =~= digits);
    Some(value)
}

/// The digits at the head of a number write a number that is no larger.
pub proof fn lemma_digits_value_grows(s: Seq<char>, count: int)
    requires
        0 <= count <= s.len(),
        is_digits(s),
    ensures
        digits_value(s.subrange(0, count)) <= digits_value(s),
    decreases s.len() - count,
{
    if count < s.len() {
        lemma_digits_value_grows(s, count + 1);
        assert(s.subrange(0, count + 1).drop_last() =~= s.subrange(0, count));
        assert(s.subrange(0, count + 1).last() == s[count]);
    } else {
        assert(s.subrange(0, count) =~= s);
    }
}

} // verus!
