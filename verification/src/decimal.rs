//! Decimal numbers of any length, by their digits.
use crate::text::{digit_char, digit_text, digits};
use vstd::prelude::*;

verus! {

/// Ten to the power `exponent`.
pub open spec fn ten_pow(exponent: nat) -> nat
    decreases exponent,
{
    if exponent == 0 {
        1
    } else {
        10 * ten_pow((exponent - 1) as nat)
    }
}

/// The number whose decimal digits are `digits`, the last of which comes first.
pub open spec fn number_of(digits: Seq<u8>) -> nat
    decreases digits.len(),
{
    if digits.len() == 0 {
        0
    } else {
        digits[0] as nat + 10 * number_of(digits.skip(1))
    }
}

/// Whether `digits` are those of a number, without leading zeros.
pub open spec fn are_digits(digits: Seq<u8>) -> bool {
    &&& digits.len() > 0
    &&& digits.len() > 1 ==> digits.last() > 0
    &&& forall|i: int| 0 <= i < digits.len() ==> #[trigger] digits[i] < 10
}

proof fn lemma_number_push(digits: Seq<u8>, digit: u8)
    ensures
        number_of(digits.push(digit)) == number_of(digits) + digit * ten_pow(digits.len()),
    decreases digits.len(),
{
    let longer = digits.push(digit);
    if digits.len() == 0 {
        assert(longer.skip(1) =~= seq![]);
        assert(number_of(longer.skip(1)) == 0);
        assert(digit * 1 == digit);
    } else {
        let rest = digits.skip(1);
        assert(longer.skip(1) =~= rest.push(digit));
        lemma_number_push(rest, digit);
        let power = ten_pow(rest.len());
        assert(10 * (number_of(rest) + digit * power) == 10 * number_of(rest) + digit * (10
            * power)) by (nonlinear_arith);
    }
}

proof fn lemma_number_positive(digits: Seq<u8>)
    requires
        digits.len() > 0,
        digits.last() > 0,
    ensures
        number_of(digits) > 0,
    decreases digits.len(),
{
    if digits.len() > 1 {
        assert(digits.skip(1).last() == digits.last());
        lemma_number_positive(digits.skip(1));
    }
}

/// The decimal digits of `number`, the last of which comes first.
pub fn digits_of(number: u64) -> (found: Vec<u8>)
    ensures
        number_of(found@) == number,
        are_digits(found@),
        found@.len() <= 20,
{
    let mut found: Vec<u8> = Vec::new();
    let mut rest: u64 = number;
    proof {
        assert(ten_pow(20) == 100_000_000_000_000_000_000) by {
            reveal_with_fuel(ten_pow, 21);
        }
        assert(ten_pow(0) == 1);
        assert(rest * 1 == rest);
    }
    while rest >= 10
        invariant
            number == number_of(found@) + rest * ten_pow(found@.len()),
            forall|i: int| 0 <= i < found@.len() ==> #[trigger] found@[i] < 10,
            found@.len() > 0 ==> rest > 0,
            rest < ten_pow((20 - found@.len()) as nat),
            found@.len() < 20,
        decreases rest,
    {
        let digit: u8 = (rest % 10) as u8;
        proof {
            lemma_number_push(found@, digit);
            let power = ten_pow(found@.len());
            assert(ten_pow(found@.len() + 1) == 10 * power);
            assert(rest * power == digit * power + (rest / 10) * (10 * power)) by (nonlinear_arith)
                requires
                    rest == 10 * (rest / 10) + digit,
            ;
            assert(ten_pow((20 - found@.len()) as nat) == 10 * ten_pow(
                (19 - found@.len()) as nat,
            ));
        }
        found.push(digit);
        rest = rest / 10;
    }
    proof {
        lemma_number_push(found@, rest as u8);
    }
    found.push(rest as u8);
    found
}

/// The decimal digits of a number times `factor`.
pub fn times(digits: &Vec<u8>, factor: u8) -> (product: Vec<u8>)
    requires
        are_digits(digits@),
        0 < factor < 10,
        digits@.len() < usize::MAX,
    ensures
        number_of(product@) == factor * number_of(digits@),
        are_digits(product@),
        product@.len() <= digits@.len() + 1,
{
    let mut product: Vec<u8> = Vec::new();
    let mut carry: u8 = 0;
    proof {
        assert(digits@.take(0) =~= seq![]);
        assert(factor * 0 == 0);
        assert(0 * ten_pow(0) == 0);
    }
    for i in 0..digits.len()
        invariant
            are_digits(digits@),
            0 < factor < 10,
            product@.len() == i,
            carry < factor,
            forall|j: int| 0 <= j < i ==> #[trigger] product@[j] < 10,
            i > 0 ==> product@.last() + 10 * carry >= digits@[i - 1],
            number_of(product@) + carry * ten_pow(i as nat) == factor * number_of(
                digits@.take(i as int),
            ),
    {
        let digit: u8 = digits[i];
        assert(digit < 10);
        assert(digit * factor <= 9 * factor) by (nonlinear_arith)
            requires
                digit <= 9,
        ;
        assert(digit * factor >= digit) by (nonlinear_arith)
            requires
                factor >= 1,
        ;
        let total: u8 = digit * factor + carry;
        let low: u8 = total % 10;
        proof {
            lemma_number_push(product@, low);
            assert(digits@.take(i + 1) =~= digits@.take(i as int).push(digit));
            lemma_number_push(digits@.take(i as int), digit);
            let power = ten_pow(i as nat) as int;
            let before = number_of(digits@.take(i as int)) as int;
            let so_far = number_of(product@) as int;
            let high = (total / 10) as int;
            assert(ten_pow((i + 1) as nat) == 10 * power);
            assert(so_far + low * power + high * (10 * power) == factor * (before + digit * power))
                by (nonlinear_arith)
                requires
                    so_far + carry * power == factor * before,
                    digit * factor + carry == 10 * high + low,
            ;
        }
        product.push(low);
        carry = total / 10;
    }
    assert(digits@.take(digits@.len() as int) =~= digits@);
    if carry > 0 {
        proof {
            lemma_number_push(product@, carry);
        }
        product.push(carry);
    }
    product
}

/// Writes a number in decimal.
pub fn text_of(number: &Vec<u8>) -> (text: String)
    requires
        are_digits(number@),
    ensures
        text@ == digits(number_of(number@)),
        text@.len() == number@.len(),
{
    let mut left: usize = number.len() - 1;
    let mut text = digit_text(number[left]).to_owned();
    proof {
        let last = number@.skip(left as int);
        assert(last.skip(1) =~= seq![]);
        assert(number_of(last.skip(1)) == 0);
        assert(last[0] == number@[left as int]);
    }
    while left > 0
        invariant
            are_digits(number@),
            left < number@.len(),
            text@ == digits(number_of(number@.skip(left as int))),
            text@.len() == number@.len() - left,
        decreases left,
    {
        let ghost before = number@.skip(left as int);
        left = left - 1;
        proof {
            let now = number@.skip(left as int);
            assert(now.skip(1) =~= before);
            assert(before.last() == number@.last());
            lemma_number_positive(before);
            assert(now[0] == number@[left as int]);
            assert(digits(number_of(now)) == digits(number_of(before)).push(
                digit_char(number@[left as int] as nat),
            ));
        }
        text.append(digit_text(number[left]));
    }
    assert(number@.skip(0) =~= number@);
    text
}

} // verus!
