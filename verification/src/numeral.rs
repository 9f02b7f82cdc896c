//! Decimal numerals: writing a count, and reading the number of a choice.

use vstd::prelude::*;
use crate::text::copy_range;

verus! {

/// The character of the decimal digit `d`.
pub open spec fn digit(d: int) -> char {
    seq!['0', '1', '2', '3', '4', '5', '6', '7', '8', '9'][d]
}

/// The decimal numeral of `n`, without leading zeros.
pub open spec fn decimal(n: nat) -> Seq<char>
    decreases n,
{
    if n < 10 {
        seq![digit(n as int)]
    } else {
        decimal(n / 10).push(digit((n % 10) as int))
    }
}

/// The character of the decimal digit `d`.
fn digit_char(d: usize) -> (r: char)
    requires
        d < 10,
    ensures
        r == digit(d as int),
{
    if d == 0 {
        '0'
    } else if d == 1 {
        '1'
    } else if d == 2 {
        '2'
    } else if d == 3 {
        '3'
    } else if d == 4 {
        '4'
    } else if d == 5 {
        '5'
    } else if d == 6 {
        '6'
    } else if d == 7 {
        '7'
    } else if d == 8 {
        '8'
    } else {
        '9'
    }
}

/// Writes `n` as a decimal numeral.
pub fn decimal_text(n: usize) -> (r: Vec<char>)
    ensures
        r@ == decimal(n as nat),
    decreases n,
{
    if n < 10 {
        let mut out: Vec<char> = Vec::new();
        out.push(digit_char(n));
        assert(out@ == seq![digit(n as int)]);
        out
    } else {
        let mut out = decimal_text(n / 10);
        out.push(digit_char(n % 10));
        out
    }
}

/// The value of a decimal digit, and `None` for any other character.
pub open spec fn digit_value(c: char) -> Option<nat> {
    if c == '0' {
        Some(0nat)
    } else if c == '1' {
        Some(1nat)
    } else if c == '2' {
        Some(2nat)
    } else if c == '3' {
        Some(3nat)
    } else if c == '4' {
        Some(4nat)
    } else if c == '5' {
        Some(5nat)
    } else if c == '6' {
        Some(6nat)
    } else if c == '7' {
        Some(7nat)
    } else if c == '8' {
        Some(8nat)
    } else if c == '9' {
        Some(9nat)
    } else {
        None
    }
}

/// The value of a decimal digit, and `None` for any other character.
fn value_of_digit(c: char) -> (r: Option<u8>)
    ensures
        match digit_value(c) {
            Some(d) => r == Some(d as u8),
            None => r is None,
        },
{
    if c == '0' {
        Some(0)
    } else if c == '1' {
        Some(1)
    } else if c == '2' {
        Some(2)
    } else if c == '3' {
        Some(3)
    } else if c == '4' {
        Some(4)
    } else if c == '5' {
        Some(5)
    } else if c == '6' {
        Some(6)
    } else if c == '7' {
        Some(7)
    } else if c == '8' {
        Some(8)
    } else if c == '9' {
        Some(9)
    } else {
        None
    }
}

/// The number that a run of decimal digits writes. A run that is empty, or
/// that holds another character, writes none.
pub open spec fn digits_value(digits: Seq<char>) -> Option<nat>
    decreases digits.len(),
{
    if digits.len() == 0 {
        None
    } else {
        match digit_value(digits.last()) {
            None => None,
            Some(d) => if digits.len() == 1 {
                Some(d)
            } else {
                match digits_value(digits.drop_last()) {
                    None => None,
                    Some(v) => Some(10 * v + d),
                }
            },
        }
    }
}

/// What the reader's answer to a menu amounts to.
#[derive(Clone, Copy, Debug, PartialEq, Eq, Structural)]
pub enum Answer {
    /// The answer writes no whole number.
    Unreadable,
    /// The answer writes a number that is no option of the menu.
    OutOfRange,
    /// The answer picks the option of this number, counted from one.
    Pick(usize),
}

/// Whether an answer begins with a minus sign.
pub open spec fn negative(text: Seq<char>) -> bool {
    text.len() > 0 && text[0] == '-'
}

/// The digits of an answer: the answer itself, without the sign that it may
/// begin with.
pub open spec fn unsigned(text: Seq<char>) -> Seq<char> {
    if text.len() > 0 && (text[0] == '+' || text[0] == '-') {
        text.subrange(1, text.len() as int)
    } else {
        text
    }
}

/// What the answer `text` amounts to for a menu of `count` options. It is
/// read as a whole number in decimal digits with or without a sign, and it
/// picks an option where that number is from 1 to `count`.
pub open spec fn answer_spec(text: Seq<char>, count: usize) -> Answer {
    match digits_value(unsigned(text)) {
        None => Answer::Unreadable,
        Some(v) => if !negative(text) && 1 <= v <= count {
            Answer::Pick(v as usize)
        } else {
            Answer::OutOfRange
        },
    }
}

/// Reads the answer `text` to a menu of `count` options.
pub fn read_answer(text: &[char], count: usize) -> (r: Answer)
    ensures
        r == answer_spec(text@, count),
{
    let signed = text.len() > 0 && (text[0] == '+' || text[0] == '-');
    let minus = text.len() > 0 && text[0] == '-';
    let digits = if signed {
        copy_range(text, 1, text.len())
    } else {
        copy_range(text, 0, text.len())
    };
    assert(digits@ == unsigned(text@));
    let n: usize = digits.len();
    if n == 0 {
        return Answer::Unreadable;
    }
    let mut value: usize = 0;
    let mut beyond: bool = false;
    let mut i: usize = 0;
    while i < n
        invariant
            n == digits.len(),
            digits@ == unsigned(text@),
            i <= n,
            i > 0 ==> digits_value(digits@.take(i as int)) is Some,
            i > 0 && !beyond ==> digits_value(digits@.take(i as int)) == Some(value as nat),
            i > 0 && beyond ==> digits_value(digits@.take(i as int))->Some_0 > count,
            i == 0 ==> value == 0 && !beyond,
            !beyond ==> value <= count,
        decreases n - i,
    {
        let ghost upto = digits@.take(i + 1);
        assert(upto.last() == digits@[i as int]);
        assert(upto.drop_last() == digits@.take(i as int));
        let d = match value_of_digit(digits[i]) {
            Some(d) => d,
            None => {
                proof {
                    lemma_digits_value_prefix(digits@, i + 1);
                }
                return Answer::Unreadable;
            },
        };
        if !beyond {
            let wide: u128 = (value as u128) * 10 + (d as u128);
            if wide > count as u128 {
                beyond = true;
            } else {
                value = wide as usize;
            }
        }
        i += 1;
    }
    assert(digits@.take(n as int) == digits@);
    if beyond || value < 1 || minus {
        Answer::OutOfRange
    } else {
        Answer::Pick(value)
    }
}

/// A run of digits writes a number only where each of its beginnings does.
pub proof fn lemma_digits_value_prefix(digits: Seq<char>, upto: int)
    requires
        0 < upto <= digits.len(),
        digits_value(digits.take(upto)) is None,
    ensures
        digits_value(digits) is None,
    decreases digits.len() - upto,
{
    if upto < digits.len() {
        assert(digits.take(upto + 1).drop_last() == digits.take(upto));
        lemma_digits_value_prefix(digits, upto + 1);
    } else {
        assert(digits.take(upto) == digits);
    }
}

} // verus!
