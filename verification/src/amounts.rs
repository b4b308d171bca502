//! Amounts of cents as text: an optional sign and decimal digits.

use vstd::prelude::*;

verus! {

/// Whether `c` is a decimal digit.
pub open spec fn is_digit(c: char) -> bool {
    '0' <= c <= '9'
}

/// Whether `text` holds nothing but decimal digits.
pub open spec fn all_digits(text: Seq<char>) -> bool {
    forall|i: int| 0 <= i < text.len() ==> is_digit(#[trigger] text[i])
}

/// The number that the decimal digits `digits` write.
pub open spec fn decimal_value(digits: Seq<char>) -> int
    decreases digits.len(),
{
    if digits.len() == 0 {
        0
    } else {
        10 * decimal_value(digits.drop_last()) + (digits.last() as int - '0' as int)
    }
}

/// Whether `text` begins with a sign.
pub open spec fn has_sign(text: Seq<char>) -> bool {
    text.len() > 0 && (text[0] == '-' || text[0] == '+')
}

/// `text` without its sign.
pub open spec fn unsigned_part(text: Seq<char>) -> Seq<char> {
    if has_sign(text) {
        text.skip(1)
    } else {
        text
    }
}

/// The amount that `text` writes: an optional `+` or `-`, then one decimal
/// digit or more, nothing else, and a value that fits in 64 bits with a sign.
/// Any other text writes no amount.
pub open spec fn parsed_amount(text: Seq<char>) -> Option<int> {
    let digits = unsigned_part(text);
    let value = if has_sign(text) && text[0] == '-' {
        -decimal_value(digits)
    } else {
        decimal_value(digits)
    };
    if digits.len() > 0 && all_digits(digits) && i64::MIN <= value <= i64::MAX {
        Some(value)
    } else {
        None
    }
}

proof fn lemma_value_is_no_less_than_zero(digits: Seq<char>)
    requires
        all_digits(digits),
    ensures
        0 <= decimal_value(digits),
    decreases digits.len(),
{
    if digits.len() > 0 {
        assert(is_digit(digits[digits.len() - 1]));
        assert forall|i: int| 0 <= i < digits.drop_last().len() implies is_digit(
            #[trigger] digits.drop_last()[i],
        ) by {
            assert(is_digit(digits[i]));
        }
        lemma_value_is_no_less_than_zero(digits.drop_last());
    }
}

proof fn lemma_value_grows(digits: Seq<char>, n: int)
    requires
        0 <= n <= digits.len(),
        all_digits(digits),
    ensures
        decimal_value(digits.take(n)) <= decimal_value(digits),
    decreases digits.len(),
{
    if n == digits.len() {
        assert(digits.take(n) =~= digits);
    } else {
        assert(is_digit(digits[digits.len() - 1]));
        assert forall|i: int| 0 <= i < digits.drop_last().len() implies is_digit(
            #[trigger] digits.drop_last()[i],
        ) by {
            assert(is_digit(digits[i]));
        }
        lemma_value_grows(digits.drop_last(), n);
        lemma_value_is_no_less_than_zero(digits.drop_last());
        assert(digits.drop_last().take(n) =~= digits.take(n));
    }
}

proof fn lemma_next_digit(digits: Seq<char>, k: int)
    requires
        0 <= k < digits.len(),
        all_digits(digits.take(k)),
        is_digit(digits[k]),
    ensures
        all_digits(digits.take(k + 1)),
        decimal_value(digits.take(k + 1)) == 10 * decimal_value(digits.take(k)) + (digits[k] as int
            - '0' as int),
{
    let longer = digits.take(k + 1);
    assert(longer.drop_last() =~= digits.take(k));
    assert(longer.last() == digits[k]);
    assert forall|j: int| 0 <= j < longer.len() implies is_digit(#[trigger] longer[j]) by {
        if j < k {
            assert(digits.take(k)[j] == longer[j]);
        }
    }
}

proof fn lemma_not_a_digit(digits: Seq<char>, k: int)
    requires
        0 <= k < digits.len(),
        !is_digit(digits[k]),
    ensures
        !all_digits(digits),
{
}

/// Reads an amount of cents.
pub fn parse_amount(text: &str) -> (amount: Option<i64>)
    ensures
        match parsed_amount(text@) {
            Some(value) => amount == Some(value as i64),
            None => amount is None,
        },
{
    let ghost all = text@;
    let ghost digits = unsigned_part(all);
    let mut first = true;
    let mut signed = false;
    let mut negative = false;
    let mut any = false;
    let mut magnitude: u64 = 0;
    for c in it: text.chars()
        invariant
            it.seq() == all,
            all == text@,
            digits == unsigned_part(all),
            first == (it.index() == 0),
            first ==> !signed && !negative && !any && magnitude == 0,
            !first ==> signed == has_sign(all),
            negative == (signed && all[0] == '-'),
            any == (it.index() > (if signed { 1int } else { 0int })),
            !first ==> all_digits(digits.take(it.index() - (if signed { 1int } else { 0int }))),
            !first ==> magnitude == decimal_value(
                digits.take(it.index() - (if signed { 1int } else { 0int })),
            ),
            magnitude <= 0x8000_0000_0000_0000,
    {
        if first && (c == '-' || c == '+') {
            signed = true;
            negative = c == '-';
            first = false;
            assert(digits.take(0) =~= Seq::<char>::empty());
        } else {
            let ghost k = it.index() - (if signed { 1int } else { 0int });
            proof {
                if first {
                    assert(digits.take(0) =~= Seq::<char>::empty());
                }
                assert(digits[k] == c);
            }
            first = false;
            if !(c >= '0' && c <= '9') {
                proof {
                    lemma_not_a_digit(digits, k);
                }
                return None;
            }
            proof {
                lemma_next_digit(digits, k);
            }
            let digit: u64 = (c as u32 - '0' as u32) as u64;
            if magnitude > 922337203685477580 || magnitude * 10 + digit > 0x8000_0000_0000_0000 {
                proof {
                    if all_digits(digits) {
                        lemma_value_grows(digits, k + 1);
                    }
                }
                return None;
            }
            magnitude = magnitude * 10 + digit;
            any = true;
        }
    }
    proof {
        if !first {
            assert(digits.take(digits.len() as int) =~= digits);
        }
    }
    if !any {
        None
    } else if negative {
        if magnitude == 0x8000_0000_0000_0000 {
            Some(i64::MIN)
        } else {
            Some(-(magnitude as i64))
        }
    } else if magnitude == 0x8000_0000_0000_0000 {
        None
    } else {
        Some(magnitude as i64)
    }
}

} // verus!
