//! Double precision arithmetic on numbers that are not negative, by integers.
use crate::decimal::{digits_of, number_of, text_of, times};
use crate::json::is_number;
use crate::text::{digits, number_text};
use vstd::arithmetic::div_mod::{lemma_fundamental_div_mod, lemma_fundamental_div_mod_converse};
use vstd::prelude::*;

verus! {

/// The least mantissa of a double that is not zero: two to the power 52.
pub const LEAST_MANTISSA: u64 = 0x10_0000_0000_0000;

/// What every mantissa is below: two to the power 53.
pub const MANTISSA_LIMIT: u64 = 0x20_0000_0000_0000;

/// The number `mantissa` times two to the power `exponent`.
pub struct Binary {
    pub mantissa: nat,
    pub exponent: int,
}

/// Zero.
pub open spec fn zero() -> Binary {
    Binary { mantissa: 0, exponent: 0 }
}

/// Two to the power `exponent`.
pub open spec fn two_pow(exponent: nat) -> nat
    decreases exponent,
{
    if exponent == 0 {
        1
    } else {
        2 * two_pow((exponent - 1) as nat)
    }
}

/// Whether `number` is zero or has a mantissa of 53 bits.
pub open spec fn is_normal(number: Binary) -> bool {
    ||| number == zero()
    ||| LEAST_MANTISSA <= number.mantissa < MANTISSA_LIMIT
}

/// Whether the exponent of `number` is in a range. Zero is in all of them.
pub open spec fn is_within(number: Binary, low: int, high: int) -> bool {
    number.mantissa == 0 || low <= number.exponent <= high
}

/// `numerator / denominator` times two to the power `exponent`, rounded to a whole mantissa: to
/// the nearest, and to the even one of two that are as near.
pub open spec fn nearest(numerator: nat, denominator: nat, exponent: int) -> Binary {
    let quotient = numerator / denominator;
    let rest = numerator % denominator;
    let mantissa = if 2 * rest > denominator || 2 * rest == denominator && quotient % 2 == 1 {
        quotient + 1
    } else {
        quotient
    };
    if mantissa == MANTISSA_LIMIT {
        Binary { mantissa: LEAST_MANTISSA as nat, exponent: exponent + 1 }
    } else {
        Binary { mantissa, exponent }
    }
}

/// As [`rounded`], of a quotient that has 53 bits or more before the point.
pub open spec fn rounded_down(numerator: nat, denominator: nat, exponent: int) -> Binary
    decreases numerator - denominator,
{
    if denominator == 0 || numerator < 0x20_0000_0000_0000 * denominator {
        nearest(numerator, denominator, exponent)
    } else {
        rounded_down(numerator, 2 * denominator, exponent + 1)
    }
}

/// The double nearest to `numerator / denominator` times two to the power `exponent`: the
/// quotient is scaled until it has 53 bits before the point, and is rounded there.
pub open spec fn rounded(numerator: nat, denominator: nat, exponent: int) -> Binary
    decreases 0x20_0000_0000_0000 * denominator - numerator,
{
    if numerator == 0 || denominator == 0 {
        zero()
    } else if numerator < 0x10_0000_0000_0000 * denominator {
        rounded(2 * numerator, denominator, exponent - 1)
    } else {
        rounded_down(numerator, denominator, exponent)
    }
}

/// The double of a count.
pub open spec fn of_count(count: nat) -> Binary {
    rounded(count, 1, 0)
}

/// The lesser of two exponents.
pub open spec fn common_exponent(left: Binary, right: Binary) -> int {
    if left.exponent <= right.exponent {
        left.exponent
    } else {
        right.exponent
    }
}

/// The mantissa of `number` for a lesser exponent.
pub open spec fn aligned(number: Binary, exponent: int) -> nat {
    number.mantissa * two_pow((number.exponent - exponent) as nat)
}

/// The sum of two doubles, as a double.
pub open spec fn sum_of(left: Binary, right: Binary) -> Binary {
    if left.mantissa == 0 {
        right
    } else if right.mantissa == 0 {
        left
    } else {
        let exponent = common_exponent(left, right);
        rounded(aligned(left, exponent) + aligned(right, exponent), 1, exponent)
    }
}

/// The product of two doubles, as a double.
pub open spec fn product_of(left: Binary, right: Binary) -> Binary {
    rounded(left.mantissa * right.mantissa, 1, left.exponent + right.exponent)
}

/// The quotient of two doubles, as a double.
pub open spec fn quotient_of(left: Binary, right: Binary) -> Binary {
    rounded(left.mantissa, right.mantissa, left.exponent - right.exponent)
}

/// Whether one number is less than another.
pub open spec fn is_less(left: Binary, right: Binary) -> bool {
    let exponent = common_exponent(left, right);
    aligned(left, exponent) < aligned(right, exponent)
}

/// The difference of two doubles, as a double, or zero where it would be negative.
pub open spec fn difference_of(left: Binary, right: Binary) -> Binary {
    if !is_less(right, left) {
        zero()
    } else if right.mantissa == 0 {
        left
    } else {
        let exponent = common_exponent(left, right);
        rounded((aligned(left, exponent) - aligned(right, exponent)) as nat, 1, exponent)
    }
}

pub(crate) proof fn lemma_two_pow_adds(a: nat, b: nat)
    ensures
        two_pow(a + b) == two_pow(a) * two_pow(b),
        two_pow(a) > 0,
    decreases b,
{
    if b > 0 {
        lemma_two_pow_adds(a, (b - 1) as nat);
        assert(two_pow(a + b) == 2 * two_pow((a + b - 1) as nat));
        let x = two_pow(a);
        let y = two_pow((b - 1) as nat);
        assert(2 * (x * y) == x * (2 * y)) by (nonlinear_arith);
    } else {
        lemma_two_pow_positive(a);
        assert(two_pow(0) == 1);
    }
}

pub(crate) proof fn lemma_two_pow_positive(a: nat)
    ensures
        two_pow(a) >= 1,
    decreases a,
{
    if a > 0 {
        lemma_two_pow_positive((a - 1) as nat);
    }
}

proof fn lemma_two_pow_monotone(a: nat, b: nat)
    requires
        a <= b,
    ensures
        1 <= two_pow(a) <= two_pow(b),
    decreases b,
{
    if a < b {
        lemma_two_pow_monotone(a, (b - 1) as nat);
    } else {
        lemma_two_pow_positive(a);
    }
}

pub(crate) proof fn lemma_two_pow_values()
    ensures
        two_pow(1) == 2,
        two_pow(52) == LEAST_MANTISSA,
        two_pow(53) == MANTISSA_LIMIT,
        two_pow(54) == 2 * MANTISSA_LIMIT,
        two_pow(55) == 4 * MANTISSA_LIMIT,
        two_pow(64) == 0x1_0000_0000_0000_0000,
        two_pow(126) == 0x4000_0000_0000_0000_0000_0000_0000_0000,
{
    reveal_with_fuel(two_pow, 64);
    assert(two_pow(63) == 0x8000_0000_0000_0000);
    assert(two_pow(64) == 2 * two_pow(63));
    lemma_two_pow_adds(63, 63);
    assert(0x8000_0000_0000_0000int * 0x8000_0000_0000_0000int
        == 0x4000_0000_0000_0000_0000_0000_0000_0000int) by (nonlinear_arith);
}

/// Where the quotient is `shift` bits too long, it is rounded that many bits further down.
proof fn lemma_rounded_down(numerator: nat, denominator: nat, exponent: int, shift: nat)
    requires
        0 < denominator,
        0x10_0000_0000_0000 * (denominator * two_pow(shift)) <= numerator,
        numerator < 0x20_0000_0000_0000 * (denominator * two_pow(shift)),
    ensures
        rounded(numerator, denominator, exponent) == nearest(
            numerator,
            denominator * two_pow(shift),
            exponent + shift,
        ),
        rounded_down(numerator, denominator, exponent) == nearest(
            numerator,
            denominator * two_pow(shift),
            exponent + shift,
        ),
    decreases shift,
{
    let power = two_pow(shift);
    lemma_two_pow_positive(shift);
    assert(denominator <= denominator * power) by (nonlinear_arith)
        requires
            power >= 1,
    ;
    if shift == 0 {
        assert(denominator * 1 == denominator);
    } else {
        let half = two_pow((shift - 1) as nat);
        lemma_two_pow_positive((shift - 1) as nat);
        assert(denominator * power == 2 * denominator * half) by (nonlinear_arith)
            requires
                power == 2 * half,
        ;
        assert(denominator * power >= 2 * denominator) by (nonlinear_arith)
            requires
                power == 2 * half,
                half >= 1,
        ;
        lemma_rounded_down(numerator, 2 * denominator, exponent + 1, (shift - 1) as nat);
    }
}

/// Where the quotient is `shift` bits too short, it is rounded that many bits further up.
proof fn lemma_rounded_up(numerator: nat, denominator: nat, exponent: int, shift: nat)
    requires
        0 < denominator,
        0x10_0000_0000_0000 * denominator <= numerator * two_pow(shift),
        numerator * two_pow(shift) < 0x20_0000_0000_0000 * denominator,
    ensures
        rounded(numerator, denominator, exponent) == nearest(
            numerator * two_pow(shift),
            denominator,
            exponent - shift,
        ),
    decreases shift,
{
    let power = two_pow(shift);
    assert(numerator > 0) by (nonlinear_arith)
        requires
            numerator * power > 0,
            numerator >= 0,
    ;
    if shift == 0 {
        assert(two_pow(0) == 1);
        assert(numerator * 1 == numerator);
    } else {
        let half = two_pow((shift - 1) as nat);
        lemma_two_pow_positive((shift - 1) as nat);
        assert(numerator * power == (2 * numerator) * half) by (nonlinear_arith)
            requires
                power == 2 * half,
        ;
        assert(numerator * power >= 2 * numerator) by (nonlinear_arith)
            requires
                power == 2 * half,
                half >= 1,
        ;
        lemma_rounded_up(2 * numerator, denominator, exponent - 1, (shift - 1) as nat);
    }
}

/// A quotient that has 53 bits before the point is rounded to a double.
pub(crate) proof fn lemma_nearest_is_normal(numerator: nat, denominator: nat, exponent: int)
    requires
        0 < denominator,
        0x10_0000_0000_0000 * denominator <= numerator < 0x20_0000_0000_0000 * denominator,
    ensures
        ({
            let number = nearest(numerator, denominator, exponent);
            &&& LEAST_MANTISSA <= number.mantissa < MANTISSA_LIMIT
            &&& exponent <= number.exponent <= exponent + 1
            &&& LEAST_MANTISSA <= numerator / denominator < MANTISSA_LIMIT
        }),
{
    let quotient = (numerator / denominator) as int;
    let rest = (numerator % denominator) as int;
    lemma_fundamental_div_mod(numerator as int, denominator as int);
    assert(LEAST_MANTISSA <= quotient) by (nonlinear_arith)
        requires
            numerator == denominator * quotient + rest,
            rest < denominator,
            0x10_0000_0000_0000 * denominator <= numerator,
            0 < denominator,
    ;
    assert(quotient < MANTISSA_LIMIT) by (nonlinear_arith)
        requires
            numerator == denominator * quotient + rest,
            0 <= rest,
            numerator < 0x20_0000_0000_0000 * denominator,
            0 < denominator,
    ;
}

/// A number that is not negative, in double precision: zero or a normal number, and neither so
/// large nor so small that its exponent comes near its limits.
#[derive(Clone, Copy, Debug, PartialEq, Eq, Structural)]
pub struct Double {
    mantissa: u64,
    exponent: i32,
}

impl View for Double {
    type V = Binary;

    closed spec fn view(&self) -> Binary {
        Binary { mantissa: self.mantissa as nat, exponent: self.exponent as int }
    }
}

impl Double {
    #[verifier::type_invariant]
    spec fn is_valid(self) -> bool {
        &&& is_normal(self@)
        &&& -300 <= self.exponent <= 280
    }

    /// The double `mantissa` times two to the power `exponent`.
    pub(crate) fn new(mantissa: u64, exponent: i32) -> (double: Double)
        requires
            LEAST_MANTISSA <= mantissa < MANTISSA_LIMIT,
            -300 <= exponent <= 280,
        ensures
            double@ == (Binary { mantissa: mantissa as nat, exponent: exponent as int }),
    {
        Double { mantissa, exponent }
    }

    /// Zero.
    pub(crate) fn zero() -> (double: Double)
        ensures
            double@ == zero(),
    {
        Double { mantissa: 0, exponent: 0 }
    }
}

/// The double nearest to a quotient of 53 bits before the point.
fn round_nearest(numerator: u128, denominator: u128, exponent: i32) -> (double: Double)
    requires
        0 < denominator,
        0x10_0000_0000_0000 * denominator <= numerator < 0x20_0000_0000_0000 * denominator,
        2 * denominator <= u128::MAX,
        -1000 <= exponent <= 1000,
        -300 <= nearest(numerator as nat, denominator as nat, exponent as int).exponent <= 280,
    ensures
        double@ == nearest(numerator as nat, denominator as nat, exponent as int),
{
    proof {
        lemma_nearest_is_normal(numerator as nat, denominator as nat, exponent as int);
    }
    let quotient: u128 = numerator / denominator;
    let rest: u128 = numerator % denominator;
    let up: bool = 2 * rest > denominator || 2 * rest == denominator && quotient % 2 == 1;
    let mantissa: u64 = if up {
        quotient as u64 + 1
    } else {
        quotient as u64
    };
    if mantissa == MANTISSA_LIMIT {
        Double::new(LEAST_MANTISSA, exponent + 1)
    } else {
        Double::new(mantissa, exponent)
    }
}

/// The double nearest to `numerator / denominator` times two to the power `exponent`.
fn round(numerator: u128, denominator: u128, exponent: i32) -> (double: Double)
    requires
        0 < denominator < 0x1_0000_0000_0000_0000,
        0 < numerator < 0x4000_0000_0000_0000_0000_0000_0000_0000,
        -800 <= exponent <= 800,
        is_within(rounded(numerator as nat, denominator as nat, exponent as int), -300, 280),
    ensures
        double@ == rounded(numerator as nat, denominator as nat, exponent as int),
{
    let ghost n = numerator as nat;
    let ghost d = denominator as nat;
    let mut scaled: u128 = numerator;
    let mut up: i32 = 0;
    proof {
        lemma_two_pow_values();
        assert(two_pow(0) == 1);
        assert(n * 1 == n);
    }
    while scaled < 0x10_0000_0000_0000 * denominator
        invariant
            0 < denominator < 0x1_0000_0000_0000_0000,
            n == numerator,
            d == denominator,
            0 < numerator,
            0 <= up <= 117,
            scaled == n * two_pow(up as nat),
            up > 0 ==> scaled < 0x20_0000_0000_0000 * denominator,
        decreases 117 - up,
    {
        proof {
            lemma_two_pow_values();
            let power = two_pow(up as nat);
            assert(two_pow((up + 1) as nat) == 2 * power);
            assert(n * (2 * power) == 2 * (n * power)) by (nonlinear_arith);
            assert(power <= n * power) by (nonlinear_arith)
                requires
                    n >= 1,
                    power >= 0,
            ;
            if up >= 117 {
                lemma_two_pow_adds(53, 64);
                lemma_two_pow_monotone(117, up as nat);
                assert(two_pow(53) * two_pow(64) == 0x20_0000_0000_0000 * 0x1_0000_0000_0000_0000);
            }
        }
        scaled = scaled * 2;
        up = up + 1;
    }
    if up > 0 {
        proof {
            lemma_rounded_up(n, d, exponent as int, up as nat);
            lemma_nearest_is_normal(scaled as nat, d, exponent - up);
        }
        return round_nearest(scaled, denominator, exponent - up);
    }
    let mut divisor: u128 = denominator;
    let mut down: i32 = 0;
    proof {
        assert(two_pow(0) == 1);
        assert(d * 1 == d);
    }
    while numerator >= 0x20_0000_0000_0000 * divisor
        invariant
            0 < denominator,
            n == numerator,
            d == denominator,
            numerator < 0x4000_0000_0000_0000_0000_0000_0000_0000,
            0 <= down <= 126,
            divisor == d * two_pow(down as nat),
            0 < divisor,
            0x20_0000_0000_0000 * divisor < 0x8000_0000_0000_0000_0000_0000_0000_0000,
            0x10_0000_0000_0000 * divisor <= numerator,
        decreases 126 - down,
    {
        proof {
            lemma_two_pow_values();
            let power = two_pow(down as nat);
            assert(two_pow((down + 1) as nat) == 2 * power);
            assert(d * (2 * power) == 2 * (d * power)) by (nonlinear_arith);
            assert(power <= d * power) by (nonlinear_arith)
                requires
                    d >= 1,
                    power >= 0,
            ;
            if down >= 126 {
                lemma_two_pow_monotone(126, down as nat);
            }
        }
        divisor = divisor * 2;
        down = down + 1;
    }
    proof {
        lemma_rounded_down(n, d, exponent as int, down as nat);
        lemma_nearest_is_normal(n, divisor as nat, exponent + down);
    }
    round_nearest(numerator, divisor, exponent + down)
}

/// The exponents that products have.
pub(crate) proof fn lemma_product_exponent(left: Binary, right: Binary)
    requires
        is_normal(left),
        is_normal(right),
    ensures
        is_normal(product_of(left, right)),
        product_of(left, right).mantissa == 0 <==> left.mantissa == 0 || right.mantissa == 0,
        is_within(
            product_of(left, right),
            left.exponent + right.exponent + 52,
            left.exponent + right.exponent + 54,
        ),
{
    let n = left.mantissa * right.mantissa;
    if left.mantissa == 0 || right.mantissa == 0 {
        assert(n == 0) by (nonlinear_arith)
            requires
                n == left.mantissa * right.mantissa,
                left.mantissa == 0 || right.mantissa == 0,
        ;
    } else {
        lemma_two_pow_values();
        assert(0x10_0000_0000_0000 * 0x10_0000_0000_0000 <= n < 0x20_0000_0000_0000
            * 0x20_0000_0000_0000) by (nonlinear_arith)
            requires
                n == left.mantissa * right.mantissa,
                0x10_0000_0000_0000 <= left.mantissa < 0x20_0000_0000_0000,
                0x10_0000_0000_0000 <= right.mantissa < 0x20_0000_0000_0000,
        ;
        let shift: nat = if n < 0x20_0000_0000_0000 * 0x10_0000_0000_0000 {
            52
        } else {
            53
        };
        let exponent = left.exponent + right.exponent;
        assert(1 * two_pow(shift) == two_pow(shift));
        lemma_rounded_down(n, 1, exponent, shift);
        lemma_nearest_is_normal(n, two_pow(shift), exponent + shift);
    }
}

/// The exponents that quotients have.
pub(crate) proof fn lemma_quotient_exponent(left: Binary, right: Binary)
    requires
        is_normal(left),
        is_normal(right),
        right.mantissa > 0,
    ensures
        is_normal(quotient_of(left, right)),
        quotient_of(left, right).mantissa == 0 <==> left.mantissa == 0,
        is_within(
            quotient_of(left, right),
            left.exponent - right.exponent - 53,
            left.exponent - right.exponent - 51,
        ),
{
    if left.mantissa > 0 {
        lemma_two_pow_values();
        let shift: nat = if left.mantissa >= right.mantissa {
            52
        } else {
            53
        };
        let exponent = left.exponent - right.exponent;
        let n = left.mantissa * two_pow(shift);
        if shift == 52 {
            assert(n == left.mantissa * 0x10_0000_0000_0000);
        } else {
            assert(n == left.mantissa * 0x20_0000_0000_0000);
        }
        lemma_rounded_up(left.mantissa, right.mantissa, exponent, shift);
        lemma_nearest_is_normal(n, right.mantissa, exponent - shift);
    }
}

/// The sum of two doubles, of which the first has the greater exponent.
proof fn lemma_ordered_sum(left: Binary, right: Binary)
    requires
        is_normal(left),
        is_normal(right),
        left.mantissa > 0,
        right.mantissa > 0,
        left.exponent >= right.exponent,
    ensures
        ({
            let shift = (left.exponent - right.exponent) as nat;
            let sum = rounded(left.mantissa * two_pow(shift) + right.mantissa, 1, right.exponent);
            &&& is_normal(sum)
            &&& sum.mantissa > 0
            &&& left.exponent <= sum.exponent <= left.exponent + 2
            &&& shift >= 55 ==> sum == left
        }),
{
    let shift = (left.exponent - right.exponent) as nat;
    let power = two_pow(shift);
    let n = left.mantissa * power + right.mantissa;
    lemma_two_pow_positive(shift);
    assert(two_pow(shift + 1) == 2 * power);
    assert(0x10_0000_0000_0000 * power <= n < 0x40_0000_0000_0000 * power) by (nonlinear_arith)
        requires
            n == left.mantissa * power + right.mantissa,
            0x10_0000_0000_0000 <= left.mantissa < 0x20_0000_0000_0000,
            0 < right.mantissa < 0x20_0000_0000_0000,
            power >= 1,
    ;
    if n < 0x20_0000_0000_0000 * power {
        assert(1 * power == power);
        lemma_rounded_down(n, 1, right.exponent, shift);
        lemma_nearest_is_normal(n, power, right.exponent + shift);
    } else {
        assert(1 * (2 * power) == 2 * power);
        lemma_rounded_down(n, 1, right.exponent, shift + 1);
        lemma_nearest_is_normal(n, 2 * power, right.exponent + shift + 1);
    }
    if shift >= 55 {
        lemma_two_pow_values();
        lemma_two_pow_monotone(55, shift);
        assert(n < 0x20_0000_0000_0000 * power) by (nonlinear_arith)
            requires
                n == left.mantissa * power + right.mantissa,
                left.mantissa <= 0x20_0000_0000_0000 - 1,
                right.mantissa < power,
        ;
        assert(n == power * left.mantissa + right.mantissa) by (nonlinear_arith)
            requires
                n == left.mantissa * power + right.mantissa,
        ;
        lemma_fundamental_div_mod_converse(
            n as int,
            power as int,
            left.mantissa as int,
            right.mantissa as int,
        );
    }
}

/// The exponents that sums have: a sum is not far above the greater one, and stays where the
/// lesser one is lost in it.
pub(crate) proof fn lemma_sum_exponent(left: Binary, right: Binary)
    requires
        is_normal(left),
        is_normal(right),
    ensures
        is_normal(sum_of(left, right)),
        sum_of(left, right).mantissa == 0 <==> left.mantissa == 0 && right.mantissa == 0,
        forall|low: int, high: int|
            is_within(left, low, high) && is_within(right, low, high) ==> #[trigger] is_within(
                sum_of(left, right),
                low,
                high + 2,
            ),
        forall|low: int, high: int|
            is_within(left, low, high) && is_within(right, low, high - 57)
                ==> #[trigger] is_within(sum_of(left, right), low, high),
{
    if left.mantissa > 0 && right.mantissa > 0 {
        assert(two_pow(0) == 1);
        assert(left.mantissa * 1 == left.mantissa && right.mantissa * 1 == right.mantissa);
        if left.exponent >= right.exponent {
            lemma_ordered_sum(left, right);
        } else {
            lemma_ordered_sum(right, left);
        }
    }
}

impl Double {
    /// The double of a count.
    pub(crate) fn from_count(count: u64) -> (double: Double)
        ensures
            double@ == of_count(count as nat),
            is_normal(double@),
            double@.mantissa == 0 <==> count == 0,
            is_within(double@, -52, 12),
    {
        proof {
            lemma_two_pow_values();
            lemma_count_exponent(count as nat, 64);
        }
        if count == 0 {
            Double::zero()
        } else {
            round(count as u128, 1, 0)
        }
    }

    /// The product of two doubles.
    pub(crate) fn times(&self, other: &Double) -> (product: Double)
        requires
            is_within(product_of(self@, other@), -300, 280),
        ensures
            product@ == product_of(self@, other@),
    {
        proof {
            use_type_invariant(self);
            use_type_invariant(other);
            lemma_product_exponent(self@, other@);
        }
        if self.mantissa == 0 || other.mantissa == 0 {
            return Double::zero();
        }
        proof {
            assert(0 < self.mantissa * other.mantissa < 0x20_0000_0000_0000 * 0x20_0000_0000_0000)
                by (nonlinear_arith)
                requires
                    0 < self.mantissa < 0x20_0000_0000_0000,
                    0 < other.mantissa < 0x20_0000_0000_0000,
            ;
        }
        round(
            (self.mantissa as u128) * (other.mantissa as u128),
            1,
            self.exponent + other.exponent,
        )
    }

    /// The quotient of two doubles.
    pub(crate) fn over(&self, other: &Double) -> (quotient: Double)
        requires
            other@.mantissa > 0,
            is_within(quotient_of(self@, other@), -300, 280),
        ensures
            quotient@ == quotient_of(self@, other@),
    {
        proof {
            use_type_invariant(self);
            use_type_invariant(other);
        }
        if self.mantissa == 0 {
            return Double::zero();
        }
        round(self.mantissa as u128, other.mantissa as u128, self.exponent - other.exponent)
    }

    /// The sum of two doubles.
    pub(crate) fn plus(&self, other: &Double) -> (sum: Double)
        requires
            is_within(sum_of(self@, other@), -300, 280),
        ensures
            sum@ == sum_of(self@, other@),
    {
        proof {
            use_type_invariant(self);
            use_type_invariant(other);
            assert(two_pow(0) == 1);
            assert(self@.mantissa * 1 == self@.mantissa && other@.mantissa * 1 == other@.mantissa);
        }
        if self.mantissa == 0 {
            *other
        } else if other.mantissa == 0 {
            *self
        } else if self.exponent >= other.exponent {
            add_ordered(self, other)
        } else {
            proof {
                lemma_ordered_sum(other@, self@);
                let shift = (other@.exponent - self@.exponent) as nat;
                assert(other@.mantissa * two_pow(shift) + self@.mantissa == self@.mantissa
                    + other@.mantissa * two_pow(shift));
            }
            add_ordered(other, self)
        }
    }
}

fn add_ordered(left: &Double, right: &Double) -> (sum: Double)
    requires
        left@.mantissa > 0,
        right@.mantissa > 0,
        right@.exponent <= left@.exponent,
        is_within(
            rounded(
                left@.mantissa * two_pow((left@.exponent - right@.exponent) as nat)
                    + right@.mantissa,
                1,
                right@.exponent,
            ),
            -300,
            280,
        ),
    ensures
        sum@ == rounded(
            left@.mantissa * two_pow((left@.exponent - right@.exponent) as nat)
                + right@.mantissa,
            1,
            right@.exponent,
        ),
{
    proof {
        use_type_invariant(left);
        use_type_invariant(right);
        lemma_ordered_sum(left@, right@);
    }
    let shift: i32 = left.exponent - right.exponent;
    if shift >= 55 {
        return *left;
    }
    let power: u128 = power_of_two(shift as u32);
    proof {
        lemma_two_pow_values();
        lemma_two_pow_monotone(shift as nat, 54);
        assert(0 < left.mantissa * power < 0x20_0000_0000_0000 * 0x40_0000_0000_0000)
            by (nonlinear_arith)
            requires
                0 < left.mantissa < 0x20_0000_0000_0000,
                0 < power <= 0x40_0000_0000_0000,
        ;
    }
    round((left.mantissa as u128) * power + (right.mantissa as u128), 1, right.exponent)
}

fn power_of_two(exponent: u32) -> (power: u128)
    requires
        exponent <= 54,
    ensures
        power == two_pow(exponent as nat),
{
    let mut power: u128 = 1;
    for i in 0..exponent
        invariant
            exponent <= 54,
            power == two_pow(i as nat),
    {
        proof {
            lemma_two_pow_values();
            lemma_two_pow_monotone(i as nat, 54);
        }
        power = power * 2;
    }
    power
}

/// Of two doubles, the one of the greater exponent is the greater.
proof fn lemma_exponents_order(left: Binary, right: Binary)
    requires
        is_normal(left),
        is_normal(right),
        left.mantissa > 0,
        right.mantissa > 0,
        left.exponent > right.exponent,
    ensures
        is_less(right, left),
        !is_less(left, right),
{
    let shift = (left.exponent - right.exponent) as nat;
    let half = two_pow((shift - 1) as nat);
    lemma_two_pow_positive((shift - 1) as nat);
    assert(two_pow(0) == 1);
    assert(right.mantissa * 1 == right.mantissa);
    assert(right.mantissa < left.mantissa * two_pow(shift)) by (nonlinear_arith)
        requires
            two_pow(shift) == 2 * half,
            half >= 1,
            left.mantissa >= 0x10_0000_0000_0000,
            right.mantissa < 0x20_0000_0000_0000,
    ;
}

/// A double that is lost in a greater one is lost in the difference too.
proof fn lemma_far_difference(left: Binary, right: Binary)
    requires
        is_normal(left),
        is_normal(right),
        left.mantissa > 0,
        right.mantissa > 0,
        left.exponent - right.exponent >= 55,
    ensures
        ({
            let shift = (left.exponent - right.exponent) as nat;
            let n = (left.mantissa * two_pow(shift) - right.mantissa) as nat;
            rounded(n, 1, right.exponent) == left
        }),
{
    let shift = (left.exponent - right.exponent) as nat;
    let power = two_pow(shift);
    let half = two_pow((shift - 1) as nat);
    lemma_two_pow_values();
    lemma_two_pow_monotone(55, shift);
    assert(left.mantissa * power >= power) by (nonlinear_arith)
        requires
            left.mantissa >= 1,
            power >= 0,
    ;
    let n = (left.mantissa * power - right.mantissa) as nat;
    assert(1 * power == power && 1 * half == half);
    if left.mantissa == LEAST_MANTISSA {
        assert(n == 0x20_0000_0000_0000 * half - right.mantissa) by (nonlinear_arith)
            requires
                n == 0x10_0000_0000_0000 * power - right.mantissa,
                power == 2 * half,
        ;
        lemma_rounded_down(n, 1, right.exponent, (shift - 1) as nat);
        lemma_fundamental_div_mod_converse(
            n as int,
            half as int,
            0x20_0000_0000_0000 - 1,
            half - right.mantissa,
        );
    } else {
        assert(n == power * (left.mantissa - 1) + (power - right.mantissa)) by (nonlinear_arith)
            requires
                n == left.mantissa * power - right.mantissa,
        ;
        assert(0x10_0000_0000_0000 * power <= n < 0x20_0000_0000_0000 * power) by (nonlinear_arith)
            requires
                n == power * (left.mantissa - 1) + (power - right.mantissa),
                0x10_0000_0000_0000 <= left.mantissa - 1,
                left.mantissa <= 0x20_0000_0000_0000 - 1,
                0 < right.mantissa < power,
        ;
        lemma_rounded_down(n, 1, right.exponent, shift);
        lemma_fundamental_div_mod_converse(
            n as int,
            power as int,
            left.mantissa - 1,
            power - right.mantissa,
        );
    }
}

impl Double {
    /// Whether this double is less than another.
    pub(crate) fn is_below(&self, other: &Double) -> (less: bool)
        ensures
            less == is_less(self@, other@),
    {
        proof {
            use_type_invariant(self);
            use_type_invariant(other);
            let shift = (if self@.exponent <= other@.exponent {
                other@.exponent - self@.exponent
            } else {
                self@.exponent - other@.exponent
            }) as nat;
            let power = two_pow(shift);
            lemma_two_pow_positive(shift);
            assert(two_pow(0) == 1);
            assert(0 * power == 0);
            assert(self@.mantissa * 1 == self@.mantissa && other@.mantissa * 1 == other@.mantissa);
            assert(other@.mantissa > 0 ==> other@.mantissa * power > 0) by (nonlinear_arith)
                requires
                    power >= 1,
            ;
            if self@.mantissa > 0 && other@.mantissa > 0 {
                if self@.exponent > other@.exponent {
                    lemma_exponents_order(self@, other@);
                } else if self@.exponent < other@.exponent {
                    lemma_exponents_order(other@, self@);
                }
            }
        }
        if other.mantissa == 0 {
            false
        } else if self.mantissa == 0 {
            true
        } else if self.exponent != other.exponent {
            self.exponent < other.exponent
        } else {
            self.mantissa < other.mantissa
        }
    }

    /// The difference of two doubles, or zero where it would be negative.
    pub(crate) fn minus(&self, other: &Double) -> (difference: Double)
        requires
            is_within(difference_of(self@, other@), -300, 280),
        ensures
            difference@ == difference_of(self@, other@),
    {
        if !other.is_below(self) {
            return Double::zero();
        }
        proof {
            use_type_invariant(self);
            use_type_invariant(other);
        }
        if other.mantissa == 0 {
            return *self;
        }
        proof {
            assert(two_pow(0) == 1);
            assert(self@.mantissa * 1 == self@.mantissa && other@.mantissa * 1 == other@.mantissa);
            if self@.mantissa == 0 {
                let shift = (other@.exponent - self@.exponent) as nat;
                assert(0 * two_pow((self@.exponent - common_exponent(other@, self@)) as nat) == 0);
            } else if other@.exponent > self@.exponent {
                lemma_exponents_order(other@, self@);
            }
        }
        let shift: i32 = self.exponent - other.exponent;
        if shift >= 55 {
            proof {
                lemma_far_difference(self@, other@);
            }
            return *self;
        }
        let power: u128 = power_of_two(shift as u32);
        proof {
            lemma_two_pow_values();
            lemma_two_pow_monotone(shift as nat, 54);
            assert(0 < self.mantissa * power < 0x20_0000_0000_0000 * 0x40_0000_0000_0000)
                by (nonlinear_arith)
                requires
                    0 < self.mantissa < 0x20_0000_0000_0000,
                    0 < power <= 0x40_0000_0000_0000,
            ;
        }
        round((self.mantissa as u128) * power - (other.mantissa as u128), 1, other.exponent)
    }

    /// The quotient of two counts, each taken as a double. There is none by zero.
    pub fn ratio(numerator: u64, denominator: u64) -> (ratio: Option<Double>)
        ensures
            ratio is None <==> denominator == 0,
            ratio matches Some(ratio) ==> ratio@ == quotient_of(
                of_count(numerator as nat),
                of_count(denominator as nat),
            ),
    {
        if denominator == 0 {
            return None;
        }
        let left = Double::from_count(numerator);
        let right = Double::from_count(denominator);
        proof {
            lemma_quotient_exponent(left@, right@);
        }
        Some(left.over(&right))
    }
}

/// Five to the power `exponent`.
pub open spec fn five_pow(exponent: nat) -> nat
    decreases exponent,
{
    if exponent == 0 {
        1
    } else {
        5 * five_pow((exponent - 1) as nat)
    }
}

/// `number` in decimal, exactly: as a whole number, times a power of ten that is one at most.
pub open spec fn number_in_decimal(number: Binary) -> Seq<char> {
    if number.exponent >= 0 {
        digits(number.mantissa * two_pow(number.exponent as nat)) + "e-"@ + digits(0)
    } else {
        let places = (-number.exponent) as nat;
        digits(number.mantissa * five_pow(places)) + "e-"@ + digits(places)
    }
}

/// The decimal digits of `number` times `factor`, `count` times over.
fn times_repeated(number: u64, factor: u8, count: u32) -> (product: Vec<u8>)
    requires
        factor == 2 || factor == 5,
        count <= 300,
    ensures
        crate::decimal::are_digits(product@),
        product@.len() <= 20 + count,
        factor == 2 ==> number_of(product@) == number * two_pow(count as nat),
        factor == 5 ==> number_of(product@) == number * five_pow(count as nat),
{
    let mut product: Vec<u8> = digits_of(number);
    proof {
        assert(two_pow(0) == 1 && five_pow(0) == 1);
        assert(number * 1 == number);
    }
    for i in 0..count
        invariant
            factor == 2 || factor == 5,
            count <= 300,
            crate::decimal::are_digits(product@),
            product@.len() <= 20 + i,
            factor == 2 ==> number_of(product@) == number * two_pow(i as nat),
            factor == 5 ==> number_of(product@) == number * five_pow(i as nat),
    {
        proof {
            let two = two_pow(i as nat);
            let five = five_pow(i as nat);
            assert(2 * (number * two) == number * (2 * two)) by (nonlinear_arith);
            assert(5 * (number * five) == number * (5 * five)) by (nonlinear_arith);
        }
        product = times(&product, factor);
    }
    product
}

impl Double {
    /// Writes this double in decimal, exactly.
    pub fn to_text(&self) -> (text: String)
        ensures
            text@ == number_in_decimal(self@),
            exists|whole: nat, places: nat| is_number(text@, whole, places),
    {
        proof {
            use_type_invariant(self);
        }
        let (product, places): (Vec<u8>, u64) = if self.exponent >= 0 {
            (times_repeated(self.mantissa, 2, self.exponent as u32), 0)
        } else {
            let places: u32 = (-self.exponent) as u32;
            (times_repeated(self.mantissa, 5, places), places as u64)
        };
        let text = text_of(&product).concat("e-").concat(number_text(places).as_str());
        assert(is_number(text@, number_of(product@), places as nat));
        text
    }
}

/// The exponents that whole numbers have, times a power of two.
pub(crate) proof fn lemma_whole_exponent(whole: nat, bits: nat, exponent: int)
    requires
        whole < two_pow(bits),
    ensures
        is_normal(rounded(whole, 1, exponent)),
        rounded(whole, 1, exponent).mantissa == 0 <==> whole == 0,
        is_within(rounded(whole, 1, exponent), exponent - 52, exponent + bits - 52),
    decreases bits,
{
    if whole > 0 && bits > 0 {
        lemma_two_pow_values();
        let last = (bits - 1) as nat;
        let power = two_pow(last);
        if whole < power {
            lemma_whole_exponent(whole, last, exponent);
        } else if last <= 52 {
            let shift = (52 - last) as nat;
            let scale = two_pow(shift);
            lemma_two_pow_adds(last, shift);
            lemma_two_pow_positive(shift);
            assert(0x10_0000_0000_0000 * 1 <= whole * scale < 0x20_0000_0000_0000 * 1)
                by (nonlinear_arith)
                requires
                    power * scale == 0x10_0000_0000_0000,
                    power <= whole < 2 * power,
                    scale > 0,
            ;
            lemma_rounded_up(whole, 1, exponent, shift);
            lemma_nearest_is_normal(whole * scale, 1, exponent - shift);
        } else {
            let shift = (last - 52) as nat;
            let scale = two_pow(shift);
            lemma_two_pow_adds(52, shift);
            assert(1 * scale == scale);
            lemma_rounded_down(whole, 1, exponent, shift);
            lemma_nearest_is_normal(whole, scale, exponent + shift);
        }
    }
}

/// The exponents that counts have.
pub(crate) proof fn lemma_count_exponent(count: nat, bits: nat)
    requires
        count < two_pow(bits),
    ensures
        is_normal(of_count(count)),
        of_count(count).mantissa == 0 <==> count == 0,
        is_within(of_count(count), -52, bits - 52),
{
    lemma_whole_exponent(count, bits, 0);
}

/// The exponents that differences have.
pub(crate) proof fn lemma_difference_exponent(left: Binary, right: Binary)
    requires
        is_normal(left),
        is_normal(right),
        right.mantissa > 0,
        is_less(right, left),
    ensures
        is_normal(difference_of(left, right)),
        difference_of(left, right).mantissa > 0,
        is_within(
            difference_of(left, right),
            common_exponent(left, right) - 52,
            left.exponent + 1,
        ),
{
    let exponent = common_exponent(left, right);
    let shift = (left.exponent - exponent) as nat;
    let power = two_pow(shift);
    lemma_two_pow_values();
    lemma_two_pow_adds(53, shift);
    lemma_two_pow_positive(shift);
    assert(left.mantissa * power < 0x20_0000_0000_0000 * power) by (nonlinear_arith)
        requires
            left.mantissa < 0x20_0000_0000_0000,
            power > 0,
    ;
    let n = (aligned(left, exponent) - aligned(right, exponent)) as nat;
    lemma_whole_exponent(n, 53 + shift, exponent);
}

/// A double over itself is one.
pub(crate) proof fn lemma_one_over_one(number: Binary)
    requires
        is_normal(number),
        number.mantissa > 0,
    ensures
        quotient_of(number, number) == of_count(1),
        of_count(1) == (Binary { mantissa: LEAST_MANTISSA as nat, exponent: -52 }),
{
    lemma_two_pow_values();
    let m = number.mantissa;
    assert(m * two_pow(52) == m * 0x10_0000_0000_0000);
    lemma_rounded_up(m, m, 0, 52);
    lemma_fundamental_div_mod_converse(
        (m * 0x10_0000_0000_0000) as int,
        m as int,
        0x10_0000_0000_0000,
        0,
    );
    assert(1 * two_pow(52) == 0x10_0000_0000_0000);
    lemma_rounded_up(1, 1, 0, 52);
}

} // verus!
