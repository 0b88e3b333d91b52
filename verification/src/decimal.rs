//! Decimal notation, for the score display and for entity names.

use vstd::prelude::*;

verus! {

/// The decimal digits of `value`, most significant first.
pub open spec fn digits_of(value: nat) -> Seq<u8>
    decreases value,
{
    if value < 10 {
        seq![value as u8]
    } else {
        digits_of(value / 10).push((value % 10) as u8)
    }
}

/// The character that stands for a decimal digit.
pub open spec fn digit_char(digit: u8) -> char {
    if digit == 0 {
        '0'
    } else if digit == 1 {
        '1'
    } else if digit == 2 {
        '2'
    } else if digit == 3 {
        '3'
    } else if digit == 4 {
        '4'
    } else if digit == 5 {
        '5'
    } else if digit == 6 {
        '6'
    } else if digit == 7 {
        '7'
    } else if digit == 8 {
        '8'
    } else {
        '9'
    }
}

/// `value` in decimal notation.
pub open spec fn decimal_text(value: nat) -> Seq<char> {
    Seq::new(digits_of(value).len(), |place: int| digit_char(digits_of(value)[place]))
}

/// Every digit of a number in decimal notation is below ten.
pub proof fn lemma_digits_are_decimal(value: nat)
    ensures
        forall|place: int| 0 <= place < digits_of(value).len() ==> digits_of(value)[place] < 10,
    decreases value,
{
    if value >= 10 {
        lemma_digits_are_decimal(value / 10);
        assert forall|place: int| 0 <= place < digits_of(value).len() implies digits_of(
            value,
        )[place] < 10 by {
            if place < digits_of(value / 10).len() {
                assert(digits_of(value)[place] == digits_of(value / 10)[place]);
            }
        }
    }
}

/// The decimal digits of `value`, most significant first.
pub fn decimal_digits(value: usize) -> (digits: Vec<u8>)
    ensures
        digits@ == digits_of(value as nat),
        forall|place: int| 0 <= place < digits@.len() ==> digits@[place] < 10,
{
    proof {
        lemma_digits_are_decimal(value as nat);
    }
    let mut digits: Vec<u8> = Vec::new();
    let mut rest: usize = value;
    while rest >= 10
        invariant
            digits_of(value as nat) == digits_of(rest as nat) + digits@,
        decreases rest,
    {
        let ghost tail = digits@;
        let digit: u8 = (rest % 10) as u8;
        digits.insert(0, digit);
        assert(digits_of(rest as nat) + tail =~= digits_of((rest / 10) as nat) + digits@);
        rest = rest / 10;
    }
    let ghost tail = digits@;
    digits.insert(0, rest as u8);
    assert(digits_of(rest as nat) + tail =~= digits@);
    digits
}

/// A number that fits into 32 bits has at most ten decimal digits.
pub proof fn lemma_at_most_ten_digits(value: nat)
    requires
        value <= u32::MAX,
    ensures
        1 <= digits_of(value).len() <= 10,
{
    reveal_with_fuel(digits_of, 11);
}

} // verus!
