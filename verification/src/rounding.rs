//! How far double precision is off.
use crate::decimal::ten_pow;
use crate::double::{
    aligned, common_exponent, difference_of, five_pow, is_less, is_normal, is_within,
    lemma_count_exponent, lemma_difference_exponent, lemma_product_exponent,
    lemma_quotient_exponent, lemma_sum_exponent, lemma_two_pow_adds, lemma_two_pow_positive,
    lemma_two_pow_values, nearest, number_in_decimal, of_count, product_of, quotient_of, rounded,
    rounded_down, sum_of, two_pow, zero, Binary,
};
use crate::screenshot::variance_of;
use crate::text::digits;
use vstd::arithmetic::div_mod::lemma_fundamental_div_mod;
use vstd::prelude::*;

verus! {

/// What one is in units of [`scaled`], as a power of two.
pub open spec fn unit_bits() -> nat {
    1200
}

/// What one is in units of [`scaled`].
pub open spec fn unit() -> nat {
    two_pow(unit_bits())
}

/// `number` as a whole number of units that are finer than any double here needs.
pub open spec fn scaled(number: Binary) -> nat {
    number.mantissa * two_pow((number.exponent + unit_bits()) as nat)
}

/// Whether `near` is `exact` up to the precision of a double: off by at most one part in two to
/// the power 53.
pub open spec fn is_close(near: int, exact: int) -> bool {
    &&& 0x20_0000_0000_0000 * near <= 0x20_0000_0000_0001 * exact
    &&& 0x1f_ffff_ffff_ffff * exact <= 0x20_0000_0000_0000 * near
}

proof fn lemma_close_scales(near: int, exact: int, factor: int)
    requires
        0 <= factor,
        is_close(near, exact),
    ensures
        is_close(near * factor, exact * factor),
{
    assert(0x20_0000_0000_0000 * (near * factor) <= 0x20_0000_0000_0001 * (exact * factor))
        by (nonlinear_arith)
        requires
            0x20_0000_0000_0000 * near <= 0x20_0000_0000_0001 * exact,
            0 <= factor,
    ;
    assert(0x1f_ffff_ffff_ffff * (exact * factor) <= 0x20_0000_0000_0000 * (near * factor))
        by (nonlinear_arith)
        requires
            0x1f_ffff_ffff_ffff * exact <= 0x20_0000_0000_0000 * near,
            0 <= factor,
    ;
}

proof fn lemma_close_unscales(near: int, exact: int, factor: int)
    requires
        0 < factor,
        is_close(near * factor, exact * factor),
    ensures
        is_close(near, exact),
{
    assert(0x20_0000_0000_0000 * near <= 0x20_0000_0000_0001 * exact) by (nonlinear_arith)
        requires
            0x20_0000_0000_0000 * (near * factor) <= 0x20_0000_0000_0001 * (exact * factor),
            0 < factor,
    ;
    assert(0x1f_ffff_ffff_ffff * exact <= 0x20_0000_0000_0000 * near) by (nonlinear_arith)
        requires
            0x1f_ffff_ffff_ffff * (exact * factor) <= 0x20_0000_0000_0000 * (near * factor),
            0 < factor,
    ;
}

proof fn lemma_nearest_close(numerator: nat, denominator: nat, exponent: int)
    requires
        0 < denominator,
        0x10_0000_0000_0000 * denominator <= numerator,
        exponent + unit_bits() >= 0,
    ensures
        is_close(
            (scaled(nearest(numerator, denominator, exponent)) * denominator) as int,
            (numerator * two_pow((exponent + unit_bits()) as nat)) as int,
        ),
{
    let quotient = (numerator / denominator) as int;
    let rest = (numerator % denominator) as int;
    lemma_fundamental_div_mod(numerator as int, denominator as int);
    let up = 2 * rest > denominator || 2 * rest == denominator && quotient % 2 == 1;
    let mantissa = if up {
        quotient + 1
    } else {
        quotient
    };
    let power = two_pow((exponent + unit_bits()) as nat) as int;
    let number = nearest(numerator, denominator, exponent);
    assert(two_pow((exponent + 1 + unit_bits()) as nat) == 2 * power);
    assert(scaled(number) == mantissa * power) by {
        assert(0x10_0000_0000_0000 * (2 * power) == 0x20_0000_0000_0000 * power);
    }
    assert(mantissa * denominator == numerator - rest + (if up {
        denominator as int
    } else {
        0
    })) by (nonlinear_arith)
        requires
            numerator == denominator * quotient + rest,
            mantissa == if up {
                quotient + 1
            } else {
                quotient
            },
    ;
    assert(is_close(mantissa * denominator, numerator as int));
    lemma_close_scales(mantissa * denominator, numerator as int, power);
    assert((mantissa * power) * denominator == (mantissa * denominator) * power)
        by (nonlinear_arith);
}

proof fn lemma_rounded_down_close(numerator: nat, denominator: nat, exponent: int)
    requires
        0 < denominator,
        0x10_0000_0000_0000 * denominator <= numerator,
        exponent + unit_bits() >= 0,
    ensures
        is_close(
            (scaled(rounded_down(numerator, denominator, exponent)) * denominator) as int,
            (numerator * two_pow((exponent + unit_bits()) as nat)) as int,
        ),
    decreases numerator - denominator,
{
    if numerator < 0x20_0000_0000_0000 * denominator {
        lemma_nearest_close(numerator, denominator, exponent);
    } else {
        lemma_rounded_down_close(numerator, 2 * denominator, exponent + 1);
        let power = two_pow((exponent + unit_bits()) as nat);
        assert(two_pow((exponent + 1 + unit_bits()) as nat) == 2 * power);
        let value = scaled(rounded_down(numerator, denominator, exponent));
        assert(value * (2 * denominator) == (value * denominator) * 2) by (nonlinear_arith);
        assert(numerator * (2 * power) == (numerator * power) * 2) by (nonlinear_arith);
        lemma_close_unscales((value * denominator) as int, (numerator * power) as int, 2);
    }
}

/// A quotient is rounded to a double that is close to it.
proof fn lemma_rounded_close(numerator: nat, denominator: nat, exponent: int)
    requires
        0 < numerator,
        0 < denominator,
        exponent + unit_bits() >= 0,
        rounded(numerator, denominator, exponent).exponent + unit_bits() > 0,
    ensures
        is_close(
            (scaled(rounded(numerator, denominator, exponent)) * denominator) as int,
            (numerator * two_pow((exponent + unit_bits()) as nat)) as int,
        ),
    decreases 0x20_0000_0000_0000 * denominator - numerator,
{
    if numerator < 0x10_0000_0000_0000 * denominator {
        lemma_rounded_exponent(2 * numerator, denominator, exponent - 1);
        lemma_rounded_close(2 * numerator, denominator, exponent - 1);
        let power = two_pow((exponent - 1 + unit_bits()) as nat);
        assert(two_pow((exponent + unit_bits()) as nat) == 2 * power);
        assert((2 * numerator) * power == numerator * (2 * power)) by (nonlinear_arith);
    } else {
        lemma_rounded_down_close(numerator, denominator, exponent);
    }
}

/// Scaling a quotient up leaves the exponent no greater than one above where it started.
proof fn lemma_rounded_exponent(numerator: nat, denominator: nat, exponent: int)
    requires
        0 < numerator < 0x20_0000_0000_0000 * denominator,
    ensures
        rounded(numerator, denominator, exponent).exponent <= exponent + 1,
    decreases 0x20_0000_0000_0000 * denominator - numerator,
{
    if numerator < 0x10_0000_0000_0000 * denominator {
        lemma_rounded_exponent(2 * numerator, denominator, exponent - 1);
    }
}

/// Whether the exponent of `number` is such that it and what is computed from it have units.
pub open spec fn is_moderate(number: Binary) -> bool {
    is_normal(number) && -400 <= number.exponent <= 400
}

proof fn lemma_aligned_scaled(number: Binary, exponent: int)
    requires
        -1000 <= exponent <= number.exponent,
    ensures
        aligned(number, exponent) * two_pow((exponent + unit_bits()) as nat) == scaled(number),
{
    let shift = (number.exponent - exponent) as nat;
    let base = (exponent + unit_bits()) as nat;
    lemma_two_pow_adds(shift, base);
    let x = number.mantissa;
    let y = two_pow(shift);
    let z = two_pow(base);
    assert(shift + base == number.exponent + unit_bits());
    assert((x * y) * z == x * (y * z)) by (nonlinear_arith);
}

/// A sum is close to what it is of.
pub proof fn lemma_sum_close(left: Binary, right: Binary)
    requires
        is_moderate(left),
        is_moderate(right),
        is_moderate(sum_of(left, right)),
    ensures
        is_close(scaled(sum_of(left, right)) as int, (scaled(left) + scaled(right)) as int),
{
    if left.mantissa == 0 {
        assert(0 * two_pow((left.exponent + unit_bits()) as nat) == 0);
    } else if right.mantissa == 0 {
        assert(0 * two_pow((right.exponent + unit_bits()) as nat) == 0);
    } else {
        let exponent = common_exponent(left, right);
        lemma_aligned_scaled(left, exponent);
        lemma_aligned_scaled(right, exponent);
        let x = aligned(left, exponent);
        let y = aligned(right, exponent);
        let power = two_pow((exponent + unit_bits()) as nat);
        lemma_two_pow_positive((left.exponent - exponent) as nat);
        assert(x > 0) by (nonlinear_arith)
            requires
                x == left.mantissa * two_pow((left.exponent - exponent) as nat),
                left.mantissa > 0,
                two_pow((left.exponent - exponent) as nat) > 0,
        ;
        assert((x + y) * power == x * power + y * power) by (nonlinear_arith);
        lemma_rounded_close(x + y, 1, exponent);
        let value = scaled(sum_of(left, right));
        assert(value * 1 == value);
    }
}

/// A product is close to what it is of.
pub proof fn lemma_product_close(left: Binary, right: Binary)
    requires
        is_moderate(left),
        is_moderate(right),
        is_moderate(product_of(left, right)),
    ensures
        is_close(
            (scaled(product_of(left, right)) * unit()) as int,
            (scaled(left) * scaled(right)) as int,
        ),
{
    let a = (left.exponent + unit_bits()) as nat;
    let b = (right.exponent + unit_bits()) as nat;
    let c = (left.exponent + right.exponent + unit_bits()) as nat;
    lemma_two_pow_adds(a, b);
    lemma_two_pow_adds(c, unit_bits());
    let n = left.mantissa * right.mantissa;
    let value = scaled(product_of(left, right));
    assert((left.mantissa * two_pow(a)) * (right.mantissa * two_pow(b)) == n * (two_pow(a)
        * two_pow(b))) by (nonlinear_arith)
        requires
            n == left.mantissa * right.mantissa,
    ;
    assert(n * (two_pow(c) * unit()) == (n * two_pow(c)) * unit()) by (nonlinear_arith);
    if n > 0 {
        lemma_rounded_close(n, 1, left.exponent + right.exponent);
        assert(value * 1 == value);
        lemma_close_scales(value as int, (n * two_pow(c)) as int, unit() as int);
    } else {
        assert(0 * two_pow(unit_bits()) == 0 && 0 * two_pow(c) == 0 && 0 * unit() == 0);
    }
}

/// A quotient is close to what it is of.
pub proof fn lemma_quotient_close(left: Binary, right: Binary)
    requires
        is_moderate(left),
        is_moderate(right),
        right.mantissa > 0,
        is_moderate(quotient_of(left, right)),
    ensures
        is_close(
            (scaled(quotient_of(left, right)) * scaled(right)) as int,
            (scaled(left) * unit()) as int,
        ),
{
    let a = (left.exponent + unit_bits()) as nat;
    let b = (right.exponent + unit_bits()) as nat;
    let c = (left.exponent - right.exponent + unit_bits()) as nat;
    lemma_two_pow_adds(c, b);
    lemma_two_pow_adds(a, unit_bits());
    let value = scaled(quotient_of(left, right));
    let n = left.mantissa;
    let d = right.mantissa;
    assert((n * two_pow(c)) * two_pow(b) == n * (two_pow(c) * two_pow(b))) by (nonlinear_arith);
    assert(n * (two_pow(a) * unit()) == (n * two_pow(a)) * unit()) by (nonlinear_arith);
    assert(value * (d * two_pow(b)) == (value * d) * two_pow(b)) by (nonlinear_arith);
    if n > 0 {
        lemma_rounded_close(n, d, left.exponent - right.exponent);
        lemma_close_scales((value * d) as int, (n * two_pow(c)) as int, two_pow(b) as int);
    } else {
        assert(0 * two_pow(unit_bits()) == 0 && 0 * d == 0 && 0 * two_pow(b) == 0);
        assert(0 * two_pow(c) == 0);
    }
}

/// The double of a count is close to it.
pub proof fn lemma_count_close(count: nat)
    requires
        is_moderate(of_count(count)),
    ensures
        is_close(scaled(of_count(count)) as int, (count * unit()) as int),
{
    let value = scaled(of_count(count));
    if count > 0 {
        lemma_rounded_close(count, 1, 0);
        assert(value * 1 == value);
    } else {
        assert(0 * two_pow(unit_bits()) == 0 && 0 * unit() == 0);
    }
}

/// One number is less than another exactly where it has fewer units.
pub proof fn lemma_less_scaled(left: Binary, right: Binary)
    requires
        is_moderate(left),
        is_moderate(right),
    ensures
        is_less(left, right) <==> scaled(left) < scaled(right),
{
    let exponent = common_exponent(left, right);
    lemma_aligned_scaled(left, exponent);
    lemma_aligned_scaled(right, exponent);
    let power = two_pow((exponent + unit_bits()) as nat);
    lemma_two_pow_positive((exponent + unit_bits()) as nat);
    let x = aligned(left, exponent);
    let y = aligned(right, exponent);
    assert(x < y <==> x * power < y * power) by (nonlinear_arith)
        requires
            power > 0,
    ;
}

/// The sum of `count` times the same double, added up one after the other.
pub open spec fn repeated(number: Binary, count: nat) -> Binary
    decreases count,
{
    if count == 0 {
        zero()
    } else {
        sum_of(repeated(number, (count - 1) as nat), number)
    }
}

/// The exponents that repeated sums have.
pub proof fn lemma_repeated_exponent(number: Binary, count: nat, low: int, high: int)
    requires
        is_normal(number),
        is_within(number, low, high - 57),
    ensures
        is_normal(repeated(number, count)),
        is_within(repeated(number, count), low, high),
    decreases count,
{
    if count > 0 {
        let before = repeated(number, (count - 1) as nat);
        lemma_repeated_exponent(number, (count - 1) as nat, low, high);
        lemma_sum_exponent(before, number);
        assert(is_within(sum_of(before, number), low, high));
    }
}

/// Adding one double up is off by at most one part in two to the power 53 for each time.
pub proof fn lemma_repeated_close(number: Binary, count: nat)
    requires
        is_normal(number),
        is_within(number, -200, 100),
        count <= 0x8_0000_0000,
    ensures
        ({
            let sum = scaled(repeated(number, count)) as int;
            let exact = (count * scaled(number)) as int;
            &&& 0x20_0000_0000_0000 * sum <= 0x20_0000_0000_0000 * exact + count * exact
            &&& 0x20_0000_0000_0000 * sum >= 0x20_0000_0000_0000 * exact - count * exact
        }),
    decreases count,
{
    let one = scaled(number) as int;
    if count == 0 {
        assert(0 * two_pow(unit_bits()) == 0);
        assert(0 * scaled(number) == 0);
    } else {
        let before = (count - 1) as nat;
        lemma_repeated_close(number, before);
        lemma_repeated_exponent(number, before, -200, 157);
        lemma_repeated_exponent(number, count, -200, 157);
        lemma_sum_close(repeated(number, before), number);
        let sum = scaled(repeated(number, before)) as int;
        let exact = (before * scaled(number)) as int;
        let off = before * exact;
        assert(0 <= exact) by (nonlinear_arith)
            requires
                exact == before * one,
                before >= 0,
                one >= 0,
        ;
        assert(0 <= off <= 0x20_0000_0000_0000 * exact) by (nonlinear_arith)
            requires
                off == before * exact,
                0 <= before <= 0x8_0000_0000,
                0 <= exact,
        ;
        assert(count * one == exact + one) by (nonlinear_arith)
            requires
                count == before + 1,
                exact == before * one,
        ;
        assert(count * (exact + one) == off + 2 * exact + one) by (nonlinear_arith)
            requires
                count == before + 1,
                exact == before * one,
                off == before * exact,
        ;
    }
}

/// A mean of up to two to the power 35 equal doubles is close to each of them.
proof fn lemma_mean_close(
    sum: int,
    one: int,
    count: int,
    total: int,
    mean: int,
    unit: int,
)
    requires
        0 < count <= 0x8_0000_0000,
        0 < unit,
        0 <= one,
        0 <= sum,
        0 <= mean,
        0x20_0000_0000_0000 * sum <= 0x20_0000_0000_0000 * (count * one) + count * (count * one),
        0x20_0000_0000_0000 * sum >= 0x20_0000_0000_0000 * (count * one) - count * (count * one),
        is_close(total, count * unit),
        is_close(mean * total, sum * unit),
    ensures
        0x2_0000 * mean <= 0x2_0001 * one,
        0x2_0000 * mean >= 0x1_ffff * one,
{
    let exact = count * one;
    assert(0 <= exact) by (nonlinear_arith)
        requires
            exact == count * one,
            0 < count,
            0 <= one,
    ;
    assert(0 <= count * exact <= 0x8_0000_0000 * exact) by (nonlinear_arith)
        requires
            0 < count <= 0x8_0000_0000,
            0 <= exact,
    ;
    assert(0x4_0000 * sum <= 0x4_0001 * exact);
    assert(0x4_0000 * sum >= 0x3_ffff * exact);
    let product = mean * count;
    assert(mean * (count * unit) == product * unit) by (nonlinear_arith)
        requires
            product == mean * count,
    ;
    let scaled_product = product * unit;
    let scaled_sum = sum * unit;
    assert(0x1f_ffff_ffff_ffff * scaled_product <= 0x20_0000_0000_0000 * (mean * total))
        by (nonlinear_arith)
        requires
            0x1f_ffff_ffff_ffff * (count * unit) <= 0x20_0000_0000_0000 * total,
            mean * (count * unit) == scaled_product,
            0 <= mean,
    ;
    assert(0x20_0000_0000_0000 * (mean * total) <= 0x20_0000_0000_0001 * scaled_product)
        by (nonlinear_arith)
        requires
            0x20_0000_0000_0000 * total <= 0x20_0000_0000_0001 * (count * unit),
            mean * (count * unit) == scaled_product,
            0 <= mean,
    ;
    assert(0x1f_ffff_ffff_ffff * product <= 0x20_0000_0000_0001 * sum) by (nonlinear_arith)
        requires
            0x1f_ffff_ffff_ffff * scaled_product <= 0x20_0000_0000_0001 * scaled_sum,
            scaled_product == product * unit,
            scaled_sum == sum * unit,
            0 < unit,
    ;
    assert(0x1f_ffff_ffff_ffff * sum <= 0x20_0000_0000_0001 * product) by (nonlinear_arith)
        requires
            0x1f_ffff_ffff_ffff * scaled_sum <= 0x20_0000_0000_0001 * scaled_product,
            scaled_product == product * unit,
            scaled_sum == sum * unit,
            0 < unit,
    ;
    assert(0x2_0000 * product <= 0x2_0001 * exact);
    assert(0x2_0000 * product >= 0x1_ffff * exact);
    assert(0x2_0000 * mean <= 0x2_0001 * one) by (nonlinear_arith)
        requires
            0x2_0000 * product <= 0x2_0001 * exact,
            product == mean * count,
            exact == count * one,
            0 < count,
    ;
    assert(0x2_0000 * mean >= 0x1_ffff * one) by (nonlinear_arith)
        requires
            0x2_0000 * product >= 0x1_ffff * exact,
            product == mean * count,
            exact == count * one,
            0 < count,
    ;
}

/// The square of a mean is not far below the mean of squares, where both are of equal numbers.
proof fn lemma_squares_close(
    one: int,
    square: int,
    mean: int,
    mean_square: int,
    squared_mean: int,
    unit: int,
)
    requires
        0 < unit,
        0 <= one,
        0 <= mean,
        0 <= square <= 67_601 * unit,
        is_close(square * unit, one * one),
        is_close(squared_mean * unit, mean * mean),
        0x2_0000 * mean >= 0x1_ffff * one,
        0x2_0000 * mean_square <= 0x2_0001 * square,
    ensures
        mean_square - squared_mean < 3 * unit,
{
    let ones = one * one;
    let means = mean * mean;
    assert(0x4_0000_0000 * means >= 0x3_fffc_0001 * ones) by (nonlinear_arith)
        requires
            ones == one * one,
            means == mean * mean,
            0x2_0000 * mean >= 0x1_ffff * one,
            0 <= one,
            0 <= mean,
    ;
    let a = squared_mean * unit;
    let b = square * unit;
    assert(0 <= b) by (nonlinear_arith)
        requires
            b == square * unit,
            0 <= square,
            0 < unit,
    ;
    assert(0 <= ones && 0 <= means) by (nonlinear_arith)
        requires
            ones == one * one,
            means == mean * mean,
    ;
    assert(0x2_0000 * a >= 0x1_fffd * b);
    assert(0x2_0000 * squared_mean >= 0x1_fffd * square) by (nonlinear_arith)
        requires
            0x2_0000 * a >= 0x1_fffd * b,
            a == squared_mean * unit,
            b == square * unit,
            0 < unit,
    ;
}

proof fn lemma_zero_repeated(count: nat)
    ensures
        repeated(zero(), count) == zero(),
    decreases count,
{
    if count > 0 {
        lemma_zero_repeated((count - 1) as nat);
    }
}

/// A difference is close to what it is of, or zero.
proof fn lemma_difference_close(left: Binary, right: Binary)
    requires
        is_normal(left),
        is_normal(right),
        is_within(left, -200, 200),
        is_within(right, -200, 200),
        scaled(left) < scaled(right) + 3 * unit(),
    ensures
        scaled(difference_of(left, right)) < 4 * unit(),
        is_moderate(difference_of(left, right)),
{
    lemma_two_pow_positive(unit_bits());
    lemma_less_scaled(right, left);
    if !is_less(right, left) {
        assert(0 * two_pow(unit_bits()) == 0);
    } else if right.mantissa == 0 {
        assert(0 * two_pow((right.exponent + unit_bits()) as nat) == 0);
    } else {
        let exponent = common_exponent(left, right);
        lemma_aligned_scaled(left, exponent);
        lemma_aligned_scaled(right, exponent);
        let x = aligned(left, exponent);
        let y = aligned(right, exponent);
        let power = two_pow((exponent + unit_bits()) as nat);
        let n = (x - y) as nat;
        assert(n * power == x * power - y * power) by (nonlinear_arith)
            requires
                n == x - y,
        ;
        lemma_difference_exponent(left, right);
        lemma_rounded_close(n, 1, exponent);
        let value = scaled(difference_of(left, right));
        assert(value * 1 == value);
    }
}

/// The variance of up to two to the power 35 equal doubles is less than four, if their square is
/// not above 67601.
pub proof fn lemma_equal_numbers_vary_little(number: Binary, count: nat)
    requires
        is_normal(number),
        is_within(number, -56, -39),
        scaled(number) <= 260 * unit(),
        0 < count <= 0x8_0000_0000,
    ensures
        scaled(
            variance_of(
                repeated(number, count),
                repeated(product_of(number, number), count),
                count,
            ),
        ) < 4 * unit(),
        is_moderate(
            variance_of(
                repeated(number, count),
                repeated(product_of(number, number), count),
                count,
            ),
        ),
{
    let unit = unit() as int;
    lemma_two_pow_positive(unit_bits());
    lemma_two_pow_values();
    let square = product_of(number, number);
    lemma_product_exponent(number, number);
    let sum = repeated(number, count);
    let squares = repeated(square, count);
    lemma_repeated_exponent(number, count, -56, 18);
    lemma_repeated_exponent(square, count, -60, 33);
    lemma_count_exponent(count, 64);
    let total = of_count(count);
    lemma_quotient_exponent(sum, total);
    lemma_quotient_exponent(squares, total);
    let mean = quotient_of(sum, total);
    let mean_square = quotient_of(squares, total);
    lemma_product_exponent(mean, mean);
    let squared_mean = product_of(mean, mean);
    let variance = difference_of(mean_square, squared_mean);
    if number.mantissa == 0 {
        lemma_zero_repeated(count);
        assert(square == zero());
        assert(mean == zero() && mean_square == zero());
        assert(0 * two_pow(0) == 0);
        assert(variance == zero());
        assert(0 * two_pow(unit_bits()) == 0);
    } else {
        lemma_product_close(number, number);
        lemma_repeated_close(number, count);
        lemma_repeated_close(square, count);
        lemma_count_close(count);
        lemma_quotient_close(sum, total);
        lemma_quotient_close(squares, total);
        lemma_product_close(mean, mean);
        let one = scaled(number) as int;
        let q = scaled(square) as int;
        lemma_mean_close(
            scaled(sum) as int,
            one,
            count as int,
            scaled(total) as int,
            scaled(mean) as int,
            unit,
        );
        lemma_mean_close(
            scaled(squares) as int,
            q,
            count as int,
            scaled(total) as int,
            scaled(mean_square) as int,
            unit,
        );
        assert(q <= 67_601 * unit) by {
            let ones = one * one;
            let units = unit * unit;
            assert(ones <= 67_600 * units) by (nonlinear_arith)
                requires
                    ones == one * one,
                    units == unit * unit,
                    0 <= one <= 260 * unit,
            ;
            assert(0 <= units) by (nonlinear_arith)
                requires
                    units == unit * unit,
            ;
            assert(q * unit <= 67_601 * units);
            assert(q <= 67_601 * unit) by (nonlinear_arith)
                requires
                    q * unit <= 67_601 * (unit * unit),
                    0 < unit,
            ;
        }
        lemma_squares_close(
            one,
            q,
            scaled(mean) as int,
            scaled(mean_square) as int,
            scaled(squared_mean) as int,
            unit,
        );
        lemma_difference_close(mean_square, squared_mean);
    }
}

/// Whether `near` is `exact` up to `parts` parts in two to the power 53.
pub open spec fn is_near(near: int, exact: int, parts: int) -> bool {
    &&& 0x20_0000_0000_0000 * near <= 0x20_0000_0000_0000 * exact + parts * exact
    &&& 0x20_0000_0000_0000 * exact <= 0x20_0000_0000_0000 * near + parts * exact
}

pub(crate) proof fn lemma_near_widens(near: int, exact: int, parts: int, more: int)
    requires
        is_near(near, exact, parts),
        parts <= more,
        0 <= exact,
    ensures
        is_near(near, exact, more),
{
    assert(parts * exact <= more * exact) by (nonlinear_arith)
        requires
            parts <= more,
            0 <= exact,
    ;
}

pub(crate) proof fn lemma_close_is_near(near: int, exact: int)
    requires
        is_close(near, exact),
    ensures
        is_near(near, exact, 1),
{
}

pub(crate) proof fn lemma_near_scales(near: int, exact: int, parts: int, factor: int)
    requires
        is_near(near, exact, parts),
        0 <= factor,
    ensures
        is_near(near * factor, exact * factor, parts),
        is_near(factor * near, factor * exact, parts),
{
    let off = parts * exact;
    assert(parts * (exact * factor) == off * factor) by (nonlinear_arith)
        requires
            off == parts * exact,
    ;
    assert(0x20_0000_0000_0000 * (near * factor) <= 0x20_0000_0000_0000 * (exact * factor) + off
        * factor) by (nonlinear_arith)
        requires
            0x20_0000_0000_0000 * near <= 0x20_0000_0000_0000 * exact + off,
            0 <= factor,
    ;
    assert(0x20_0000_0000_0000 * (exact * factor) <= 0x20_0000_0000_0000 * (near * factor) + off
        * factor) by (nonlinear_arith)
        requires
            0x20_0000_0000_0000 * exact <= 0x20_0000_0000_0000 * near + off,
            0 <= factor,
    ;
    assert(near * factor == factor * near && exact * factor == factor * exact)
        by (nonlinear_arith);
}

pub(crate) proof fn lemma_near_unscales(near: int, exact: int, parts: int, factor: int)
    requires
        is_near(near * factor, exact * factor, parts),
        0 < factor,
    ensures
        is_near(near, exact, parts),
{
    let off = parts * exact;
    assert(parts * (exact * factor) == off * factor) by (nonlinear_arith)
        requires
            off == parts * exact,
    ;
    assert(0x20_0000_0000_0000 * near <= 0x20_0000_0000_0000 * exact + off) by (nonlinear_arith)
        requires
            0x20_0000_0000_0000 * (near * factor) <= 0x20_0000_0000_0000 * (exact * factor) + off
                * factor,
            0 < factor,
    ;
    assert(0x20_0000_0000_0000 * exact <= 0x20_0000_0000_0000 * near + off) by (nonlinear_arith)
        requires
            0x20_0000_0000_0000 * (exact * factor) <= 0x20_0000_0000_0000 * (near * factor) + off
                * factor,
            0 < factor,
    ;
}

pub(crate) proof fn lemma_near_chains(x: int, y: int, z: int, a: int, b: int)
    requires
        is_near(x, y, a),
        is_near(y, z, b),
        0 <= a <= 1000,
        0 <= b <= 1000,
        0 <= x,
        0 <= y,
        0 <= z,
    ensures
        is_near(x, z, a + b + 1),
{
    let u: int = 0x20_0000_0000_0000;
    assert(u * x <= (u + a) * y && (u - a) * y <= u * x) by (nonlinear_arith)
        requires
            u * x <= u * y + a * y,
            u * y <= u * x + a * y,
    ;
    assert(u * y <= (u + b) * z && (u - b) * z <= u * y) by (nonlinear_arith)
        requires
            u * y <= u * z + b * z,
            u * z <= u * y + b * z,
    ;
    assert(u * (u * x) <= (u + a) * ((u + b) * z)) by (nonlinear_arith)
        requires
            u * x <= (u + a) * y,
            u * y <= (u + b) * z,
            0 <= a,
            u == 0x20_0000_0000_0000,
            0 <= y,
    ;
    assert((u - a) * ((u - b) * z) <= u * (u * x)) by (nonlinear_arith)
        requires
            (u - a) * y <= u * x,
            (u - b) * z <= u * y,
            0 <= a <= 1000,
            u == 0x20_0000_0000_0000,
            0 <= y,
    ;
    let c = a + b + 1;
    assert((u + a) * ((u + b) * z) <= u * (u * z + c * z)) by (nonlinear_arith)
        requires
            c == a + b + 1,
            0 <= a <= 1000,
            0 <= b <= 1000,
            0 <= z,
            u == 0x20_0000_0000_0000,
    ;
    assert(u * (u * z - c * z) <= (u - a) * ((u - b) * z)) by (nonlinear_arith)
        requires
            c == a + b + 1,
            0 <= a <= 1000,
            0 <= b <= 1000,
            0 <= z,
            u == 0x20_0000_0000_0000,
    ;
    assert(u * x <= u * z + c * z);
    assert(u * z - c * z <= u * x);
}

pub(crate) proof fn lemma_near_multiplies(x: int, y: int, v: int, w: int, a: int, b: int)
    requires
        is_near(x, y, a),
        is_near(v, w, b),
        0 <= a <= 1000,
        0 <= b <= 1000,
        0 <= x,
        0 <= y,
        0 <= v,
        0 <= w,
    ensures
        is_near(x * v, y * w, a + b + 1),
{
    lemma_near_scales(x, y, a, v);
    lemma_near_scales(v, w, b, y);
    assert(0 <= x * v && 0 <= y * v && 0 <= y * w) by (nonlinear_arith)
        requires
            0 <= x,
            0 <= y,
            0 <= v,
            0 <= w,
    ;
    lemma_near_chains(x * v, y * v, y * w, a, b);
}

/// What is near to a number has that number near to it.
pub(crate) proof fn lemma_near_turns(x: int, y: int, a: int)
    requires
        is_near(x, y, a),
        0 <= a <= 1000,
        0 <= x,
        0 <= y,
    ensures
        is_near(y, x, a + 1),
{
    let u: int = 0x20_0000_0000_0000;
    let b = a + 1;
    assert(u * y <= u * x + b * x) by (nonlinear_arith)
        requires
            u * y <= u * x + a * y,
            b == a + 1,
            0 <= a <= 1000,
            0 <= x,
            0 <= y,
            u == 0x20_0000_0000_0000,
    ;
    assert(u * x <= u * y + b * x) by (nonlinear_arith)
        requires
            u * x <= u * y + a * y,
            b == a + 1,
            0 <= a <= 1000,
            0 <= x,
            0 <= y,
            u == 0x20_0000_0000_0000,
    ;
}

pub(crate) proof fn lemma_near_adds(x: int, y: int, v: int, w: int, a: int)
    requires
        is_near(x, y, a),
        is_near(v, w, a),
    ensures
        is_near(x + v, y + w, a),
{
    assert(a * (y + w) == a * y + a * w) by (nonlinear_arith);
}

pub(crate) proof fn lemma_equal_is_near(x: int, a: int)
    requires
        0 <= a,
        0 <= x,
    ensures
        is_near(x, x, a),
{
    assert(0 <= a * x) by (nonlinear_arith)
        requires
            0 <= a,
            0 <= x,
    ;
}

/// How far apart two numbers are.
pub open spec fn distance(left: int, right: int) -> int {
    if left <= right {
        right - left
    } else {
        left - right
    }
}

proof fn lemma_nearest_is_nearest(numerator: nat, denominator: nat, exponent: int, other: Binary)
    requires
        0 < denominator,
        0x10_0000_0000_0000 * denominator <= numerator < 0x20_0000_0000_0000 * denominator,
        exponent + unit_bits() > 0,
        is_normal(other),
        other.exponent + unit_bits() >= 0,
    ensures
        ({
            let exact = (numerator * two_pow((exponent + unit_bits()) as nat)) as int;
            let near = distance(
                (scaled(nearest(numerator, denominator, exponent)) * denominator) as int,
                exact,
            );
            let far = distance((scaled(other) * denominator) as int, exact);
            &&& near <= far
            &&& near == far ==> scaled(other) == scaled(nearest(numerator, denominator, exponent))
                || nearest(numerator, denominator, exponent).mantissa % 2 == 0
        }),
{
    let d = denominator as int;
    let n = numerator as int;
    let quotient = n / d;
    let rest = n % d;
    lemma_fundamental_div_mod(n, d);
    let up = 2 * rest > d || 2 * rest == d && quotient % 2 == 1;
    let mantissa = if up {
        quotient + 1
    } else {
        quotient
    };
    let base = (exponent + unit_bits()) as nat;
    let power = two_pow(base) as int;
    lemma_two_pow_positive(base);
    let number = nearest(numerator, denominator, exponent);
    assert(two_pow((exponent + 1 + unit_bits()) as nat) == 2 * power);
    assert(scaled(number) == mantissa * power) by {
        assert(0x10_0000_0000_0000 * (2 * power) == 0x20_0000_0000_0000 * power);
    }
    assert((mantissa * power) * d == (mantissa * d) * power) by (nonlinear_arith);
    let off = distance(mantissa * d, n);
    assert(mantissa * d == n - rest + (if up {
        d
    } else {
        0
    })) by (nonlinear_arith)
        requires
            n == d * quotient + rest,
            mantissa == if up {
                quotient + 1
            } else {
                quotient
            },
    ;
    assert(off <= rest && off <= d - rest);
    lemma_distance_scales(mantissa * d, n, power);
    if other.exponent >= exponent && other.mantissa > 0 {
        let shift = (other.exponent - exponent) as nat;
        lemma_two_pow_adds(shift, base);
        assert(shift + base == other.exponent + unit_bits());
        let k = (other.mantissa * two_pow(shift)) as int;
        assert(scaled(other) == k * power) by (nonlinear_arith)
            requires
                scaled(other) == other.mantissa * (two_pow(shift) * power),
                k == other.mantissa * two_pow(shift),
        ;
        assert((k * power) * d == (k * d) * power) by (nonlinear_arith);
        if k < quotient {
            assert(k * d <= d * quotient - d) by (nonlinear_arith)
                requires
                    k <= quotient - 1,
                    0 < d,
            ;
        } else if k == quotient {
            assert(k * d == d * quotient) by (nonlinear_arith)
                requires
                    k == quotient,
            ;
        } else if k == quotient + 1 {
            assert(k * d == d * quotient + d) by (nonlinear_arith)
                requires
                    k == quotient + 1,
            ;
        } else {
            assert(k * d >= d * quotient + 2 * d) by (nonlinear_arith)
                requires
                    k >= quotient + 2,
                    0 < d,
            ;
        }
        assert(off <= distance(k * d, n));
        assert(off == distance(k * d, n) ==> k == mantissa || number.mantissa % 2 == 0);
        lemma_distance_scales(k * d, n, power);
        let far = distance(k * d, n);
        assert(off * power <= far * power && (off < far ==> off * power < far * power))
            by (nonlinear_arith)
            requires
                off <= far,
                0 < power,
        ;
    } else {
        let value = scaled(other) as int;
        assert(2 * value < 0x20_0000_0000_0000 * power) by {
            if other.mantissa == 0 {
                assert(0 * two_pow((other.exponent + unit_bits()) as nat) == 0);
            } else {
                let high = (exponent - 1 + unit_bits()) as nat;
                let low = (other.exponent + unit_bits()) as nat;
                lemma_two_pow_ordered(low, high);
                assert(power == 2 * two_pow(high));
                lemma_two_pow_positive(high);
                assert(value < 0x20_0000_0000_0000 * two_pow(high)) by (nonlinear_arith)
                    requires
                        value == other.mantissa * two_pow(low),
                        other.mantissa < 0x20_0000_0000_0000,
                        two_pow(low) <= two_pow(high),
                        0 < two_pow(high),
                ;
            }
        }
        let floor = 0x10_0000_0000_0000 * d;
        assert(value * d < floor * power) by (nonlinear_arith)
            requires
                2 * value < 0x20_0000_0000_0000 * power,
                floor == 0x10_0000_0000_0000 * d,
                0 < d,
        ;
        assert(off <= n - floor) by {
            assert(0x10_0000_0000_0000 <= quotient) by (nonlinear_arith)
                requires
                    n == d * quotient + rest,
                    rest < d,
                    floor <= n,
                    floor == 0x10_0000_0000_0000 * d,
                    0 < d,
            ;
            assert(floor <= d * quotient) by (nonlinear_arith)
                requires
                    0x10_0000_0000_0000 <= quotient,
                    floor == 0x10_0000_0000_0000 * d,
                    0 < d,
            ;
        }
        assert(off * power <= n * power - floor * power) by (nonlinear_arith)
            requires
                off <= n - floor,
                0 < power,
        ;
        assert(floor * power <= n * power) by (nonlinear_arith)
            requires
                floor <= n,
                0 < power,
        ;
    }
}

proof fn lemma_two_pow_ordered(low: nat, high: nat)
    requires
        low <= high,
    ensures
        two_pow(low) <= two_pow(high),
    decreases high,
{
    if low < high {
        lemma_two_pow_ordered(low, (high - 1) as nat);
        lemma_two_pow_positive((high - 1) as nat);
    }
}

pub(crate) proof fn lemma_distance_scales(left: int, right: int, factor: int)
    requires
        0 < factor,
    ensures
        distance(left * factor, right * factor) == distance(left, right) * factor,
{
    assert((right - left) * factor == right * factor - left * factor && (left - right) * factor
        == left * factor - right * factor) by (nonlinear_arith);
    assert(left <= right <==> left * factor <= right * factor) by (nonlinear_arith)
        requires
            0 < factor,
    ;
}

proof fn lemma_rounded_down_nearest(
    numerator: nat,
    denominator: nat,
    exponent: int,
    other: Binary,
)
    requires
        0 < denominator,
        0x10_0000_0000_0000 * denominator <= numerator,
        exponent + unit_bits() > 0,
        is_normal(other),
        other.exponent + unit_bits() >= 0,
    ensures
        ({
            let exact = (numerator * two_pow((exponent + unit_bits()) as nat)) as int;
            let number = rounded_down(numerator, denominator, exponent);
            let near = distance((scaled(number) * denominator) as int, exact);
            let far = distance((scaled(other) * denominator) as int, exact);
            &&& near <= far
            &&& near == far ==> scaled(other) == scaled(number) || number.mantissa % 2 == 0
        }),
    decreases numerator - denominator,
{
    if numerator < 0x20_0000_0000_0000 * denominator {
        lemma_nearest_is_nearest(numerator, denominator, exponent, other);
    } else {
        lemma_rounded_down_nearest(numerator, 2 * denominator, exponent + 1, other);
        let power = two_pow((exponent + unit_bits()) as nat);
        assert(two_pow((exponent + 1 + unit_bits()) as nat) == 2 * power);
        let value = scaled(rounded_down(numerator, denominator, exponent));
        assert(value * (2 * denominator) == (value * denominator) * 2) by (nonlinear_arith);
        assert(scaled(other) * (2 * denominator) == (scaled(other) * denominator) * 2)
            by (nonlinear_arith);
        assert(numerator * (2 * power) == (numerator * power) * 2) by (nonlinear_arith);
    }
}

/// A quotient is rounded to the nearest double: no other is nearer to it, and where another is as
/// near, the mantissa is even.
pub proof fn law_rounding_is_to_the_nearest(
    numerator: nat,
    denominator: nat,
    exponent: int,
    other: Binary,
)
    requires
        0 < numerator,
        0 < denominator,
        exponent + unit_bits() > 0,
        rounded(numerator, denominator, exponent).exponent + unit_bits() > 1,
        is_normal(other),
        other.exponent + unit_bits() >= 0,
    ensures
        ({
            let exact = (numerator * two_pow((exponent + unit_bits()) as nat)) as int;
            let number = rounded(numerator, denominator, exponent);
            let near = distance((scaled(number) * denominator) as int, exact);
            let far = distance((scaled(other) * denominator) as int, exact);
            &&& near <= far
            &&& near == far ==> scaled(other) == scaled(number) || number.mantissa % 2 == 0
        }),
    decreases 0x20_0000_0000_0000 * denominator - numerator,
{
    if numerator < 0x10_0000_0000_0000 * denominator {
        lemma_rounded_exponent(2 * numerator, denominator, exponent - 1);
        law_rounding_is_to_the_nearest(2 * numerator, denominator, exponent - 1, other);
        let power = two_pow((exponent - 1 + unit_bits()) as nat);
        assert(two_pow((exponent + unit_bits()) as nat) == 2 * power);
        assert((2 * numerator) * power == numerator * (2 * power)) by (nonlinear_arith);
    } else {
        lemma_rounded_down_nearest(numerator, denominator, exponent, other);
    }
}

/// The sum of two doubles is the double nearest to what they add up to.
pub proof fn law_sums_are_the_nearest(left: Binary, right: Binary, other: Binary)
    requires
        is_moderate(left),
        is_moderate(right),
        is_moderate(sum_of(left, right)),
        is_moderate(other),
    ensures
        distance(
            scaled(sum_of(left, right)) as int,
            (scaled(left) + scaled(right)) as int,
        ) <= distance(scaled(other) as int, (scaled(left) + scaled(right)) as int),
{
    if left.mantissa == 0 {
        assert(0 * two_pow((left.exponent + unit_bits()) as nat) == 0);
    } else if right.mantissa == 0 {
        assert(0 * two_pow((right.exponent + unit_bits()) as nat) == 0);
    } else {
        let exponent = common_exponent(left, right);
        lemma_aligned_scaled(left, exponent);
        lemma_aligned_scaled(right, exponent);
        let x = aligned(left, exponent);
        let y = aligned(right, exponent);
        let power = two_pow((exponent + unit_bits()) as nat);
        lemma_two_pow_positive((left.exponent - exponent) as nat);
        assert(x > 0) by (nonlinear_arith)
            requires
                x == left.mantissa * two_pow((left.exponent - exponent) as nat),
                left.mantissa > 0,
                two_pow((left.exponent - exponent) as nat) > 0,
        ;
        assert((x + y) * power == x * power + y * power) by (nonlinear_arith);
        law_rounding_is_to_the_nearest(x + y, 1, exponent, other);
        assert(scaled(sum_of(left, right)) * 1 == scaled(sum_of(left, right)));
        assert(scaled(other) * 1 == scaled(other));
    }
}

/// The product of two doubles is the double nearest to what they multiply to.
pub proof fn law_products_are_the_nearest(left: Binary, right: Binary, other: Binary)
    requires
        is_moderate(left),
        is_moderate(right),
        is_moderate(product_of(left, right)),
        is_moderate(other),
    ensures
        distance(
            (scaled(product_of(left, right)) * unit()) as int,
            (scaled(left) * scaled(right)) as int,
        ) <= distance((scaled(other) * unit()) as int, (scaled(left) * scaled(right)) as int),
{
    let a = (left.exponent + unit_bits()) as nat;
    let b = (right.exponent + unit_bits()) as nat;
    let c = (left.exponent + right.exponent + unit_bits()) as nat;
    lemma_two_pow_adds(a, b);
    lemma_two_pow_adds(c, unit_bits());
    lemma_two_pow_positive(unit_bits());
    let n = left.mantissa * right.mantissa;
    let value = scaled(product_of(left, right));
    assert((left.mantissa * two_pow(a)) * (right.mantissa * two_pow(b)) == n * (two_pow(a)
        * two_pow(b))) by (nonlinear_arith)
        requires
            n == left.mantissa * right.mantissa,
    ;
    assert(n * (two_pow(c) * unit()) == (n * two_pow(c)) * unit()) by (nonlinear_arith);
    if n > 0 {
        law_rounding_is_to_the_nearest(n, 1, left.exponent + right.exponent, other);
        assert(value * 1 == value && scaled(other) * 1 == scaled(other));
        let exact = (n * two_pow(c)) as int;
        lemma_distance_scales(value as int, exact, unit() as int);
        lemma_distance_scales(scaled(other) as int, exact, unit() as int);
        let near = distance(value as int, exact);
        let far = distance(scaled(other) as int, exact);
        assert(near * unit() <= far * unit()) by (nonlinear_arith)
            requires
                near <= far,
                unit() > 0,
        ;
    } else {
        assert(0 * two_pow(unit_bits()) == 0 && 0 * two_pow(c) == 0 && 0 * unit() == 0);
    }
}

/// The quotient of two doubles is the double nearest to what they divide to.
pub proof fn law_quotients_are_the_nearest(left: Binary, right: Binary, other: Binary)
    requires
        is_moderate(left),
        is_moderate(right),
        right.mantissa > 0,
        is_moderate(quotient_of(left, right)),
        is_moderate(other),
    ensures
        distance(
            (scaled(quotient_of(left, right)) * scaled(right)) as int,
            (scaled(left) * unit()) as int,
        ) <= distance((scaled(other) * scaled(right)) as int, (scaled(left) * unit()) as int),
{
    let a = (left.exponent + unit_bits()) as nat;
    let b = (right.exponent + unit_bits()) as nat;
    let c = (left.exponent - right.exponent + unit_bits()) as nat;
    lemma_two_pow_adds(c, b);
    lemma_two_pow_adds(a, unit_bits());
    lemma_two_pow_positive(b);
    let value = scaled(quotient_of(left, right));
    let n = left.mantissa;
    let d = right.mantissa;
    let power = two_pow(b) as int;
    assert((n * two_pow(c)) * two_pow(b) == n * (two_pow(c) * two_pow(b))) by (nonlinear_arith);
    assert(n * (two_pow(a) * unit()) == (n * two_pow(a)) * unit()) by (nonlinear_arith);
    assert(value * (d * two_pow(b)) == (value * d) * two_pow(b)) by (nonlinear_arith);
    assert(scaled(other) * (d * two_pow(b)) == (scaled(other) * d) * two_pow(b))
        by (nonlinear_arith);
    if n > 0 {
        law_rounding_is_to_the_nearest(n, d, left.exponent - right.exponent, other);
        let exact = (n * two_pow(c)) as int;
        lemma_distance_scales((value * d) as int, exact, power);
        lemma_distance_scales((scaled(other) * d) as int, exact, power);
        let near = distance((value * d) as int, exact);
        let far = distance((scaled(other) * d) as int, exact);
        assert(near * power <= far * power) by (nonlinear_arith)
            requires
                near <= far,
                power > 0,
        ;
    } else {
        assert(0 * two_pow(unit_bits()) == 0 && 0 * d == 0 && 0 * two_pow(b) == 0);
        assert(0 * two_pow(c) == 0 && 0 * two_pow(a) == 0 && 0 * unit() == 0);
        assert(value == 0);
        assert(0 * scaled(right) == 0);
    }
}

/// A count below two to the power 53 is a double as it is.
pub proof fn law_small_counts_are_exact(count: nat)
    requires
        count < 0x20_0000_0000_0000,
    ensures
        scaled(of_count(count)) == count * unit(),
        is_moderate(of_count(count)),
{
    lemma_two_pow_values();
    lemma_count_exponent(count, 53);
    if count > 0 {
        lemma_count_exact(count, 0);
    } else {
        assert(0 * two_pow(unit_bits()) == 0 && 0 * unit() == 0);
    }
}

proof fn lemma_count_exact(count: nat, exponent: int)
    requires
        0 < count < 0x20_0000_0000_0000,
        rounded(count, 1, exponent).exponent + unit_bits() > 1,
        exponent + unit_bits() >= 0,
    ensures
        scaled(rounded(count, 1, exponent)) == count * two_pow((exponent + unit_bits()) as nat),
    decreases 0x20_0000_0000_0000 - count,
{
    if count < 0x10_0000_0000_0000 {
        lemma_rounded_exponent(2 * count, 1, exponent - 1);
        lemma_count_exact(2 * count, exponent - 1);
        let power = two_pow((exponent - 1 + unit_bits()) as nat);
        assert(two_pow((exponent + unit_bits()) as nat) == 2 * power);
        assert((2 * count) * power == count * (2 * power)) by (nonlinear_arith);
    }
}

/// A difference is close to what it is of, and zero where that would not be positive.
pub(crate) proof fn lemma_differences_close(left: Binary, right: Binary)
    requires
        is_moderate(left),
        is_moderate(right),
        is_moderate(difference_of(left, right)),
    ensures
        scaled(left) <= scaled(right) ==> scaled(difference_of(left, right)) == 0,
        scaled(left) > scaled(right) ==> is_close(
            scaled(difference_of(left, right)) as int,
            scaled(left) - scaled(right),
        ),
{
    lemma_less_scaled(right, left);
    if !is_less(right, left) {
        assert(0 * two_pow(unit_bits()) == 0);
    } else if right.mantissa == 0 {
        assert(0 * two_pow((right.exponent + unit_bits()) as nat) == 0);
    } else {
        let exponent = common_exponent(left, right);
        lemma_aligned_scaled(left, exponent);
        lemma_aligned_scaled(right, exponent);
        let x = aligned(left, exponent);
        let y = aligned(right, exponent);
        let power = two_pow((exponent + unit_bits()) as nat);
        let n = (x - y) as nat;
        assert(n * power == x * power - y * power) by (nonlinear_arith)
            requires
                n == x - y,
        ;
        lemma_rounded_close(n, 1, exponent);
        let value = scaled(difference_of(left, right));
        assert(value * 1 == value);
    }
}

/// The difference of two doubles is the double nearest to what they differ by, and zero where
/// that would not be positive.
pub proof fn law_differences_are_the_nearest(left: Binary, right: Binary, other: Binary)
    requires
        is_moderate(left),
        is_moderate(right),
        is_moderate(difference_of(left, right)),
        is_moderate(other),
    ensures
        scaled(left) <= scaled(right) ==> scaled(difference_of(left, right)) == 0,
        scaled(left) > scaled(right) ==> distance(
            scaled(difference_of(left, right)) as int,
            scaled(left) - scaled(right),
        ) <= distance(scaled(other) as int, scaled(left) - scaled(right)),
{
    lemma_differences_close(left, right);
    lemma_less_scaled(right, left);
    if is_less(right, left) {
        if right.mantissa == 0 {
            assert(0 * two_pow((right.exponent + unit_bits()) as nat) == 0);
        } else {
            let exponent = common_exponent(left, right);
            lemma_aligned_scaled(left, exponent);
            lemma_aligned_scaled(right, exponent);
            let x = aligned(left, exponent);
            let y = aligned(right, exponent);
            let power = two_pow((exponent + unit_bits()) as nat);
            let n = (x - y) as nat;
            assert(n * power == x * power - y * power) by (nonlinear_arith)
                requires
                    n == x - y,
            ;
            law_rounding_is_to_the_nearest(n, 1, exponent, other);
            assert(scaled(difference_of(left, right)) * 1 == scaled(difference_of(left, right)));
            assert(scaled(other) * 1 == scaled(other));
        }
    }
}

proof fn lemma_ten_pow(exponent: nat)
    ensures
        ten_pow(exponent) == five_pow(exponent) * two_pow(exponent),
    decreases exponent,
{
    if exponent > 0 {
        let before = (exponent - 1) as nat;
        lemma_ten_pow(before);
        let five = five_pow(before);
        let two = two_pow(before);
        let more_fives = five_pow(exponent);
        let more_twos = two_pow(exponent);
        assert(10 * (five * two) == more_fives * more_twos) by (nonlinear_arith)
            requires
                more_fives == 5 * five,
                more_twos == 2 * two,
        ;
    } else {
        assert(1 * 1 == 1);
    }
}

/// A double is written in decimal exactly: the whole number that is written, over ten to the
/// power of the places that are written, is its value.
pub proof fn law_decimals_are_exact(number: Binary)
    requires
        is_moderate(number),
    ensures
        exists|whole: nat, places: nat|
            number_in_decimal(number) == #[trigger] digits(whole) + "e-"@ + #[trigger] digits(
                places,
            ) && whole * unit() == scaled(number) * ten_pow(places),
{
    let m = number.mantissa;
    if number.exponent >= 0 {
        let shift = number.exponent as nat;
        let whole = m * two_pow(shift);
        lemma_two_pow_adds(shift, unit_bits());
        assert(ten_pow(0) == 1);
        assert((m * two_pow(shift)) * unit() == m * (two_pow(shift) * unit()))
            by (nonlinear_arith);
        assert(scaled(number) * 1 == scaled(number));
        assert(number_in_decimal(number) == digits(whole) + "e-"@ + digits(0) && whole * unit()
            == scaled(number) * ten_pow(0));
    } else {
        let places = (-number.exponent) as nat;
        let base = (number.exponent + unit_bits()) as nat;
        let whole = m * five_pow(places);
        lemma_ten_pow(places);
        lemma_two_pow_adds(base, places);
        let five = five_pow(places);
        let two = two_pow(places);
        let rest = two_pow(base);
        assert((m * five) * (rest * two) == (m * rest) * (five * two)) by (nonlinear_arith);
        assert(number_in_decimal(number) == digits(whole) + "e-"@ + digits(places) && whole
            * unit() == scaled(number) * ten_pow(places));
    }
}

/// The double of a count is the double nearest to it.
pub proof fn law_counts_are_the_nearest(count: nat, other: Binary)
    requires
        is_moderate(of_count(count)),
        is_moderate(other),
    ensures
        distance(scaled(of_count(count)) as int, (count * unit()) as int) <= distance(
            scaled(other) as int,
            (count * unit()) as int,
        ),
{
    if count > 0 {
        law_rounding_is_to_the_nearest(count, 1, 0, other);
        assert(scaled(of_count(count)) * 1 == scaled(of_count(count)));
        assert(scaled(other) * 1 == scaled(other));
    } else {
        assert(0 * two_pow(unit_bits()) == 0 && 0 * unit() == 0);
    }
}

} // verus!
