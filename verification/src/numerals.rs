//! Decimal numbers in text: how they are written and read.

use vstd::prelude::*;
use vstd::string::*;

use crate::text::{chars_of, decimal, digit, push_char, push_decimal};

verus! {

/// A decimal digit.
pub open spec fn is_digit(c: char) -> bool {
    '0' <= c <= '9'
}

/// The number that a row of decimal digits stands for.
pub open spec fn number(digits: Seq<char>) -> nat
    decreases digits.len(),
{
    if digits.len() == 0 {
        0
    } else {
        (10 * number(digits.drop_last()) + (digits.last() as nat - '0' as nat)) as nat
    }
}

/// A row of at least one decimal digit.
pub open spec fn is_numeral(digits: Seq<char>) -> bool {
    &&& digits.len() > 0
    &&& forall|i: int| 0 <= i < digits.len() ==> is_digit(#[trigger] digits[i])
}

/// The text after a sign, where it begins with one of these.
pub open spec fn after_sign(text: Seq<char>, sign: char) -> Seq<char> {
    if text.len() > 0 && text[0] == sign {
        text.skip(1)
    } else {
        text
    }
}

/// The unsigned number that a text names: digits, with or without a plus sign before them.
pub open spec fn unsigned(text: Seq<char>) -> Option<u64> {
    let digits = after_sign(text, '+');
    if is_numeral(digits) && number(digits) <= u64::MAX {
        Some(number(digits) as u64)
    } else {
        None
    }
}

/// The signed number that a text names: digits, with or without a sign before them.
pub open spec fn signed(text: Seq<char>) -> Option<i64> {
    if text.len() > 0 && text[0] == '-' {
        let digits = text.skip(1);
        if is_numeral(digits) && number(digits) <= 0x8000_0000_0000_0000 {
            Some((-number(digits)) as i64)
        } else {
            None
        }
    } else {
        let digits = after_sign(text, '+');
        if is_numeral(digits) && number(digits) <= i64::MAX {
            Some(number(digits) as i64)
        } else {
            None
        }
    }
}

/// `n` in decimal, with a minus sign before it where it is negative.
pub open spec fn signed_decimal(n: int) -> Seq<char> {
    if n < 0 {
        seq!['-'] + decimal((-n) as nat)
    } else {
        decimal(n as nat)
    }
}

pub proof fn lemma_decimal_is_numeral(n: nat)
    ensures
        is_numeral(decimal(n)),
        number(decimal(n)) == n,
    decreases n,
{
    let text = decimal(n);
    if n < 10 {
        assert(text.drop_last().len() == 0);
        assert(number(text.drop_last()) == 0);
    } else {
        lemma_decimal_is_numeral(n / 10);
        assert(text.drop_last() =~= decimal(n / 10));
        assert(text.last() == digit(n % 10));
    }
}

/// Reading a number that was written in decimal gives it back.
pub proof fn law_decimal_round_trip(n: u64)
    ensures
        unsigned(decimal(n as nat)) == Some(n),
{
    lemma_decimal_is_numeral(n as nat);
    assert(is_digit(decimal(n as nat)[0]));
}

/// Reading a signed number that was written in decimal gives it back.
pub proof fn law_signed_decimal_round_trip(n: i64)
    ensures
        signed(signed_decimal(n as int)) == Some(n),
{
    if n < 0 {
        lemma_decimal_is_numeral((-n) as nat);
        assert(signed_decimal(n as int).skip(1) =~= decimal((-n) as nat));
    } else {
        lemma_decimal_is_numeral(n as nat);
        assert(is_digit(decimal(n as nat)[0]));
    }
}

proof fn lemma_number_grows(digits: Seq<char>, count: int)
    requires
        0 <= count <= digits.len(),
        is_numeral(digits),
    ensures
        number(digits.take(count)) <= number(digits),
    decreases digits.len() - count,
{
    if count == digits.len() {
        assert(digits.take(count) =~= digits);
    } else {
        lemma_number_grows(digits, count + 1);
        assert(digits.take(count + 1).drop_last() =~= digits.take(count));
        assert(is_digit(digits[count]));
    }
}

/// Reads the digits from `start` on.
fn read_digits(chars: &[char], start: usize) -> (value: Option<u64>)
    requires
        start <= chars.len(),
    ensures
        ({
            let digits = chars@.skip(start as int);
            value == (if is_numeral(digits) && number(digits) <= u64::MAX {
                Some(number(digits) as u64)
            } else {
                None
            })
        }),
{
    let ghost digits = chars@.skip(start as int);
    if start == chars.len() {
        return None;
    }
    let mut value: u64 = 0;
    let mut too_large: bool = false;
    let mut i: usize = start;
    assert(digits.take(0).len() == 0);
    while i < chars.len()
        invariant
            start <= i <= chars.len(),
            digits == chars@.skip(start as int),
            forall|j: int| 0 <= j < i - start ==> is_digit(#[trigger] digits[j]),
            too_large ==> number(digits.take(i - start)) > u64::MAX,
            !too_large ==> number(digits.take(i - start)) == value,
        decreases chars.len() - i,
    {
        let c: char = chars[i];
        assert(digits[i - start] == c);
        if c < '0' || c > '9' {
            assert(!is_digit(digits[i - start]));
            return None;
        }
        let d: u64 = (c as u32 - 48) as u64;
        assert(digits.take(i + 1 - start).drop_last() =~= digits.take(i - start));
        if !too_large {
            if value > (u64::MAX - d) / 10 {
                too_large = true;
            } else {
                value = value * 10 + d;
            }
        }
        i += 1;
    }
    assert(digits.take(i - start) =~= digits);
    if too_large {
        None
    } else {
        Some(value)
    }
}

/// Reads an unsigned number.
pub fn parse_u64(text: &str) -> (value: Option<u64>)
    ensures
        value == unsigned(text@),
{
    let chars: Vec<char> = chars_of(text);
    let signed: bool = chars.len() > 0 && chars[0] == '+';
    let start: usize = if signed {
        1
    } else {
        0
    };
    assert(chars@.skip(start as int) =~= after_sign(text@, '+'));
    read_digits(&chars, start)
}

/// Reads a signed number.
pub fn parse_i64(text: &str) -> (value: Option<i64>)
    ensures
        value == signed(text@),
{
    let chars: Vec<char> = chars_of(text);
    if chars.len() > 0 && chars[0] == '-' {
        assert(chars@.skip(1) =~= text@.skip(1));
        match read_digits(&chars, 1) {
            Some(magnitude) => {
                if magnitude < 0x8000_0000_0000_0000 {
                    Some(-(magnitude as i64))
                } else if magnitude == 0x8000_0000_0000_0000 {
                    Some(i64::MIN)
                } else {
                    None
                }
            },
            None => None,
        }
    } else {
        let plus: bool = chars.len() > 0 && chars[0] == '+';
        let start: usize = if plus {
            1
        } else {
            0
        };
        assert(chars@.skip(start as int) =~= after_sign(text@, '+'));
        match read_digits(&chars, start) {
            Some(magnitude) => {
                if magnitude <= 0x7fff_ffff_ffff_ffff {
                    Some(magnitude as i64)
                } else {
                    None
                }
            },
            None => None,
        }
    }
}

/// Appends a signed number in decimal.
pub fn push_signed_decimal(text: &mut String, n: i64)
    ensures
        final(text)@ == old(text)@ + signed_decimal(n as int),
{
    if n < 0 {
        push_char(text, '-');
        let magnitude: u64 = if n == i64::MIN {
            0x8000_0000_0000_0000
        } else {
            (-n) as u64
        };
        push_decimal(text, magnitude);
        assert(text@ =~= old(text)@ + signed_decimal(n as int));
    } else {
        push_decimal(text, n as u64);
    }
}

/// `n` in decimal, with zeros before it up to `width` characters.
pub open spec fn padded(n: nat, width: nat) -> Seq<char> {
    let text = decimal(n);
    if text.len() < width {
        Seq::new((width - text.len()) as nat, |i: int| '0') + text
    } else {
        text
    }
}

/// Appends `n` in decimal, with zeros before it up to `width` characters.
pub fn push_padded(text: &mut String, n: u64, width: usize)
    ensures
        final(text)@ == old(text)@ + padded(n as nat, width as nat),
{
    let mut digits: String = String::new();
    push_decimal(&mut digits, n);
    assert(digits@ =~= decimal(n as nat));
    let count: usize = chars_of(digits.as_str()).len();
    let missing: usize = if count < width {
        width - count
    } else {
        0
    };
    let mut i: usize = 0;
    while i < missing
        invariant
            i <= missing,
            text@ == old(text)@ + Seq::new(i as nat, |k: int| '0'),
        decreases missing - i,
    {
        push_char(text, '0');
        i += 1;
        assert(text@ =~= old(text)@ + Seq::new(i as nat, |k: int| '0'));
    }
    text.append(digits.as_str());
    assert(text@ =~= old(text)@ + padded(n as nat, width as nat));
}

} // verus!
