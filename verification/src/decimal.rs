//! Fixed-precision decimal numbers, computed by `rust_decimal`.

use crate::text::{
    digits, digits_fill_their_places, digits_show_the_number, padded_digits,
    padded_digits_have_their_width, padded_digits_show_the_number,
};
use core::cmp::Ordering;
use vstd::arithmetic::div_mod::{
    lemma_div_denominator, lemma_div_pos_is_pos, lemma_fundamental_div_mod,
    lemma_hoist_over_denominator, lemma_mod_bound, lemma_mod_multiples_vanish,
};
use vstd::arithmetic::mul::{
    lemma_mul_basics, lemma_mul_is_associative, lemma_mul_is_distributive_add_other_way,
    lemma_mul_is_distributive_sub_other_way, lemma_mul_unary_negation,
};
use vstd::arithmetic::power::{lemma_pow0, lemma_pow1, lemma_pow_adds, lemma_pow_positive, pow};
use vstd::prelude::*;
use vstd::std_specs::cmp::{
    PartialEqSpec, PartialEqSpecImpl, PartialOrdSpec, PartialOrdSpecImpl,
};

verus! {

/// The largest number of decimal places.
pub const MAX_SCALE: u32 = 28;

/// One more than the largest magnitude: two to the power of ninety-six.
pub const MAGNITUDE_LIMIT: u128 = 0x1_0000_0000_0000_0000_0000_0000;

/// What a [`Decimal`] stands for: `magnitude` over ten to the power of `scale`, with a sign.
///
/// Zero has a sign and a scale of its own, which show in its text and nowhere else.
pub struct Amount {
    pub negative: bool,
    pub magnitude: nat,
    pub scale: nat,
}

impl Amount {
    /// Whether the amount fits the 96 bits and the scale of a [`Decimal`].
    pub open spec fn in_range(self) -> bool {
        self.magnitude < MAGNITUDE_LIMIT && self.scale <= MAX_SCALE
    }

    /// The magnitude with its sign.
    pub open spec fn mantissa(self) -> int {
        if self.negative {
            -(self.magnitude as int)
        } else {
            self.magnitude as int
        }
    }

    /// The mantissa that the amount has at `scale`, which is no smaller than its own.
    pub open spec fn mantissa_at(self, scale: nat) -> int
        recommends
            self.scale <= scale,
    {
        self.mantissa() * pow(10, (scale - self.scale) as nat)
    }

    /// The number that the amount stands for, in units of the smallest decimal place.
    pub open spec fn value(self) -> int
        recommends
            self.in_range(),
    {
        self.mantissa_at(MAX_SCALE as nat)
    }

    pub open spec fn zero() -> Amount {
        Amount { negative: false, magnitude: 0, scale: 0 }
    }

    /// The amount without its sign.
    pub open spec fn abs(self) -> Amount {
        Amount { negative: false, ..self }
    }

    /// The amount with the other sign; a zero stays as it is.
    pub open spec fn negated(self) -> Amount {
        if self.magnitude == 0 {
            self
        } else {
            Amount { negative: !self.negative, ..self }
        }
    }
}

/// The amount with a given mantissa; a zero of it has no sign.
pub open spec fn amount_of(mantissa: int, scale: nat) -> Amount {
    Amount {
        negative: mantissa < 0,
        magnitude: if mantissa < 0 { -mantissa as nat } else { mantissa as nat },
        scale,
    }
}

/// The larger of two scales.
pub open spec fn common_scale(left: Amount, right: Amount) -> nat {
    if left.scale < right.scale {
        right.scale
    } else {
        left.scale
    }
}

/// Whether a product needs no rounding: a factor is zero, or all digits of the product fit.
pub open spec fn product_is_exact(left: Amount, right: Amount) -> bool {
    ||| left.magnitude == 0
    ||| right.magnitude == 0
    ||| left.magnitude * right.magnitude < MAGNITUDE_LIMIT && left.scale + right.scale <= MAX_SCALE
}

/// The product with all of its digits; a zero has no sign and no decimal places.
pub open spec fn exact_product(left: Amount, right: Amount) -> Amount {
    if left.magnitude == 0 || right.magnitude == 0 {
        Amount::zero()
    } else {
        Amount {
            negative: left.negative != right.negative,
            magnitude: left.magnitude * right.magnitude,
            scale: left.scale + right.scale,
        }
    }
}

/// What `rust_decimal` makes of a product that it has to round: `None` where it overflows.
pub uninterp spec fn rounded_product(left: Amount, right: Amount) -> Option<Amount>;

/// The product as a [`Decimal`] holds it.
pub open spec fn product(left: Amount, right: Amount) -> Option<Amount> {
    if product_is_exact(left, right) {
        Some(exact_product(left, right))
    } else {
        rounded_product(left, right)
    }
}

/// The mantissa of the sum at the common scale.
pub open spec fn sum_mantissa(left: Amount, right: Amount) -> int {
    left.mantissa_at(common_scale(left, right)) + right.mantissa_at(common_scale(left, right))
}

/// Whether a sum needs no rounding: an operand is zero, or the sum fits at the common scale.
pub open spec fn sum_is_exact(left: Amount, right: Amount) -> bool {
    ||| left.magnitude == 0
    ||| right.magnitude == 0
    ||| -MAGNITUDE_LIMIT < sum_mantissa(left, right) < MAGNITUDE_LIMIT
}

/// The sum at the common scale; a zero operand gives the other one back.
pub open spec fn exact_sum(left: Amount, right: Amount) -> Amount {
    if left.magnitude == 0 {
        right
    } else if right.magnitude == 0 {
        left
    } else {
        amount_of(sum_mantissa(left, right), common_scale(left, right))
    }
}

/// What `rust_decimal` makes of a sum that it has to round: `None` where it overflows.
pub uninterp spec fn rounded_sum(left: Amount, right: Amount) -> Option<Amount>;

/// The sum as a [`Decimal`] holds it.
pub open spec fn sum(left: Amount, right: Amount) -> Option<Amount> {
    if sum_is_exact(left, right) {
        Some(exact_sum(left, right))
    } else {
        rounded_sum(left, right)
    }
}

/// The mantissa of the difference at the common scale.
pub open spec fn difference_mantissa(left: Amount, right: Amount) -> int {
    left.mantissa_at(common_scale(left, right)) - right.mantissa_at(common_scale(left, right))
}

/// Whether a difference needs no rounding: an operand is zero, or the difference fits at the
/// common scale.
pub open spec fn difference_is_exact(left: Amount, right: Amount) -> bool {
    ||| left.magnitude == 0
    ||| right.magnitude == 0
    ||| -MAGNITUDE_LIMIT < difference_mantissa(left, right) < MAGNITUDE_LIMIT
}

/// The difference at the common scale; a zero on the right gives the left operand back, a zero
/// on the left the right one with the other sign.
pub open spec fn exact_difference(left: Amount, right: Amount) -> Amount {
    if left.magnitude == 0 {
        right.negated()
    } else if right.magnitude == 0 {
        left
    } else {
        amount_of(difference_mantissa(left, right), common_scale(left, right))
    }
}

/// What `rust_decimal` makes of a difference that it has to round: `None` where it overflows.
pub uninterp spec fn rounded_difference(left: Amount, right: Amount) -> Option<Amount>;

/// The difference as a [`Decimal`] holds it.
pub open spec fn difference(left: Amount, right: Amount) -> Option<Amount> {
    if difference_is_exact(left, right) {
        Some(exact_difference(left, right))
    } else {
        rounded_difference(left, right)
    }
}

/// The text of an amount: the sign, the whole part, and as many decimal places as its scale.
pub open spec fn amount_text(amount: Amount) -> Seq<char> {
    let unit = pow(10, amount.scale) as nat;
    let sign = if amount.negative { seq!['-'] } else { seq![] };
    let places = if amount.scale == 0 {
        seq![]
    } else {
        seq!['.'] + padded_digits(amount.magnitude % unit, amount.scale)
    };
    sign + digits(amount.magnitude / unit) + places
}

/// The amount of a sign, a magnitude and a scale held in machine integers.
pub open spec fn amount(parts: (bool, u128, u32)) -> Amount {
    Amount { negative: parts.0, magnitude: parts.1 as nat, scale: parts.2 as nat }
}

/// The amount of an optional result held in machine integers.
pub open spec fn optional_amount(parts: Option<(bool, u128, u32)>) -> Option<Amount> {
    match parts {
        Some(parts) => Some(amount(parts)),
        None => None,
    }
}

/// Multiplies with `rust_decimal`'s `Decimal::checked_mul`.
///
/// A zero factor gives zero with no sign and no decimal places. A product that fits is exact, its
/// scale the sum of the scales. Any other product is rounded, which the contract only names;
/// `None` is returned where the rounded product overflows, and only for magnitudes whose product
/// is over 96 bits.
#[verifier::external_body]
fn checked_mul(left: (bool, u128, u32), right: (bool, u128, u32)) -> (result: Option<(bool, u128, u32)>)
    requires
        amount(left).in_range(),
        amount(right).in_range(),
    ensures
        product_is_exact(amount(left), amount(right)) ==> optional_amount(result) == Some(
            exact_product(amount(left), amount(right)),
        ),
        !product_is_exact(amount(left), amount(right)) ==> optional_amount(result) == rounded_product(
            amount(left),
            amount(right),
        ),
        result matches Some(parts) ==> amount(parts).in_range(),
        result is None ==> left.1 * right.1 >= MAGNITUDE_LIMIT,
{
    let mut a = rust_decimal::Decimal::from_i128_with_scale(left.1 as i128, left.2);
    a.set_sign_negative(left.0);
    let mut b = rust_decimal::Decimal::from_i128_with_scale(right.1 as i128, right.2);
    b.set_sign_negative(right.0);
    a.checked_mul(b).map(|d| (d.is_sign_negative(), d.mantissa().unsigned_abs(), d.scale()))
}

/// Adds with `rust_decimal`'s `Decimal::checked_add`.
///
/// A zero operand gives the other one back as it is. A sum that fits 96 bits at the larger of the
/// two scales is exact at that scale. Any other sum is rounded, which the contract only names;
/// `None` is returned where the rounded sum overflows.
#[verifier::external_body]
fn checked_add(left: (bool, u128, u32), right: (bool, u128, u32)) -> (result: Option<(bool, u128, u32)>)
    requires
        amount(left).in_range(),
        amount(right).in_range(),
    ensures
        sum_is_exact(amount(left), amount(right)) ==> optional_amount(result) == Some(
            exact_sum(amount(left), amount(right)),
        ),
        !sum_is_exact(amount(left), amount(right)) ==> optional_amount(result) == rounded_sum(
            amount(left),
            amount(right),
        ),
        result matches Some(parts) ==> amount(parts).in_range(),
{
    let mut a = rust_decimal::Decimal::from_i128_with_scale(left.1 as i128, left.2);
    a.set_sign_negative(left.0);
    let mut b = rust_decimal::Decimal::from_i128_with_scale(right.1 as i128, right.2);
    b.set_sign_negative(right.0);
    a.checked_add(b).map(|d| (d.is_sign_negative(), d.mantissa().unsigned_abs(), d.scale()))
}

/// Subtracts with `rust_decimal`'s `Decimal::checked_sub`.
///
/// A zero on the right gives the left operand back as it is, a zero on the left the right operand
/// with the other sign. A difference that fits 96 bits at the larger of the two scales is exact
/// at that scale. Any other difference is rounded, which the contract only names, and of which it
/// says that it has the sign of the difference and is never rounded to zero; `None` is returned
/// where the rounded difference overflows.
#[verifier::external_body]
fn checked_sub(left: (bool, u128, u32), right: (bool, u128, u32)) -> (result: Option<(bool, u128, u32)>)
    requires
        amount(left).in_range(),
        amount(right).in_range(),
    ensures
        difference_is_exact(amount(left), amount(right)) ==> optional_amount(result) == Some(
            exact_difference(amount(left), amount(right)),
        ),
        !difference_is_exact(amount(left), amount(right)) ==> optional_amount(result) == rounded_difference(
            amount(left),
            amount(right),
        ),
        result matches Some(parts) ==> amount(parts).in_range(),
        !difference_is_exact(amount(left), amount(right)) ==> match result {
            Some(parts) => {
                &&& parts.1 > 0
                &&& parts.0 == (amount(left).value() < amount(right).value())
            },
            None => true,
        },
{
    let mut a = rust_decimal::Decimal::from_i128_with_scale(left.1 as i128, left.2);
    a.set_sign_negative(left.0);
    let mut b = rust_decimal::Decimal::from_i128_with_scale(right.1 as i128, right.2);
    b.set_sign_negative(right.0);
    a.checked_sub(b).map(|d| (d.is_sign_negative(), d.mantissa().unsigned_abs(), d.scale()))
}

/// Compares with `<=`, by `rust_decimal`'s `PartialOrd`: the numbers that the two stand for,
/// whatever their scales and the sign of a zero.
#[verifier::external_body]
fn at_most(left: (bool, u128, u32), right: (bool, u128, u32)) -> (result: bool)
    requires
        amount(left).in_range(),
        amount(right).in_range(),
    ensures
        result == (amount(left).value() <= amount(right).value()),
{
    let mut a = rust_decimal::Decimal::from_i128_with_scale(left.1 as i128, left.2);
    a.set_sign_negative(left.0);
    let mut b = rust_decimal::Decimal::from_i128_with_scale(right.1 as i128, right.2);
    b.set_sign_negative(right.0);
    a <= b
}

/// Writes with `rust_decimal`'s `Display`, with no width and no precision given: the sign, the
/// whole part, and as many decimal places as the scale.
#[verifier::external_body]
fn written(number: (bool, u128, u32)) -> (text: String)
    requires
        amount(number).in_range(),
    ensures
        text@ == amount_text(amount(number)),
{
    let mut a = rust_decimal::Decimal::from_i128_with_scale(number.1 as i128, number.2);
    a.set_sign_negative(number.0);
    a.to_string()
}

/// A decimal number of at most 96 bits and 28 decimal places.
#[derive(Clone, Copy, Debug)]
pub struct Decimal {
    negative: bool,
    magnitude: u128,
    scale: u32,
}

impl View for Decimal {
    type V = Amount;

    closed spec fn view(&self) -> Amount {
        amount((self.negative, self.magnitude, self.scale))
    }
}

impl Decimal {
    #[verifier::type_invariant]
    closed spec fn valid(self) -> bool {
        self@.in_range()
    }

    /// The number `magnitude` over ten to the power of `scale`, with a sign; `None` where it has
    /// too many bits or too many decimal places.
    pub fn from_parts(negative: bool, magnitude: u128, scale: u32) -> (result: Option<Decimal>)
        ensures
            result is Some <==> amount((negative, magnitude, scale)).in_range(),
            result matches Some(decimal) ==> decimal@ == amount((negative, magnitude, scale)),
    {
        if magnitude < MAGNITUDE_LIMIT && scale <= MAX_SCALE {
            Some(Decimal { negative, magnitude, scale })
        } else {
            None
        }
    }

    /// The sign, the magnitude and the scale.
    pub fn parts(self) -> (parts: (bool, u128, u32))
        ensures
            amount(parts) == self@,
            self@.in_range(),
    {
        proof {
            use_type_invariant(&self);
        }
        (self.negative, self.magnitude, self.scale)
    }

    pub fn zero() -> (zero: Decimal)
        ensures
            zero@ == Amount::zero(),
    {
        Decimal { negative: false, magnitude: 0, scale: 0 }
    }

    pub fn is_zero(self) -> (result: bool)
        ensures
            result == (self@.magnitude == 0),
    {
        self.magnitude == 0
    }

    /// The number without its sign.
    pub fn abs(self) -> (result: Decimal)
        ensures
            result@ == self@.abs(),
    {
        proof {
            use_type_invariant(&self);
        }
        Decimal { negative: false, magnitude: self.magnitude, scale: self.scale }
    }

    fn from_result(result: Option<(bool, u128, u32)>) -> (decimal: Option<Decimal>)
        requires
            result matches Some(parts) ==> amount(parts).in_range(),
        ensures
            optional_view(decimal) == optional_amount(result),
    {
        match result {
            Some(parts) => Some(Decimal { negative: parts.0, magnitude: parts.1, scale: parts.2 }),
            None => None,
        }
    }

    /// The product, rounded where it has too many digits; `None` where it overflows.
    pub fn checked_mul(self, other: Decimal) -> (result: Option<Decimal>)
        ensures
            optional_view(result) == product(self@, other@),
            result is None ==> self@.magnitude * other@.magnitude >= MAGNITUDE_LIMIT,
    {
        Decimal::from_result(checked_mul(self.parts(), other.parts()))
    }

    /// The sum, rounded where it has too many digits; `None` where it overflows.
    pub fn checked_add(self, other: Decimal) -> (result: Option<Decimal>)
        ensures
            optional_view(result) == sum(self@, other@),
    {
        Decimal::from_result(checked_add(self.parts(), other.parts()))
    }

    /// The difference, rounded where it has too many digits; `None` where it overflows.
    ///
    /// Rounding does not take it across zero or to it.
    pub fn checked_sub(self, other: Decimal) -> (result: Option<Decimal>)
        ensures
            optional_view(result) == difference(self@, other@),
            result matches Some(left) ==> {
                &&& left@.value() < 0 <==> self@.value() < other@.value()
                &&& left@.value() == 0 <==> self@.value() == other@.value()
            },
    {
        let result = Decimal::from_result(checked_sub(self.parts(), other.parts()));
        proof {
            if let Some(left) = result {
                if difference_is_exact(self@, other@) {
                    exact_difference_is_the_difference(self@, other@);
                } else {
                    sign_of_the_value(left@);
                    differences_that_round_are_not_zero(self@, other@);
                }
            }
        }
        result
    }

    /// Whether the number is no larger than `other`.
    pub fn at_most(self, other: Decimal) -> (result: bool)
        ensures
            result == (self@.value() <= other@.value()),
    {
        at_most(self.parts(), other.parts())
    }

    /// The number in decimal digits.
    pub fn text(self) -> (text: String)
        ensures
            text@ == amount_text(self@),
    {
        written(self.parts())
    }
}

impl PartialEqSpecImpl for Decimal {
    open spec fn obeys_eq_spec() -> bool {
        true
    }

    open spec fn eq_spec(&self, other: &Decimal) -> bool {
        self@.value() == other@.value()
    }
}

/// Two numbers are equal where they stand for the same number, whatever their scales.
impl PartialEq for Decimal {
    fn eq(&self, other: &Decimal) -> (result: bool) {
        self.at_most(*other) && other.at_most(*self)
    }
}

impl Eq for Decimal {

}

/// How two integers compare.
pub open spec fn ordering(left: int, right: int) -> Ordering {
    if left < right {
        Ordering::Less
    } else if left == right {
        Ordering::Equal
    } else {
        Ordering::Greater
    }
}

impl PartialOrdSpecImpl for Decimal {
    open spec fn obeys_partial_cmp_spec() -> bool {
        true
    }

    open spec fn partial_cmp_spec(&self, other: &Decimal) -> Option<Ordering> {
        Some(ordering(self@.value(), other@.value()))
    }
}

/// Numbers are ordered by the number that they stand for.
impl PartialOrd for Decimal {
    fn partial_cmp(&self, other: &Decimal) -> (result: Option<Ordering>) {
        if !self.at_most(*other) {
            Some(Ordering::Greater)
        } else if other.at_most(*self) {
            Some(Ordering::Equal)
        } else {
            Some(Ordering::Less)
        }
    }
}

/// The amount of an optional number.
pub open spec fn optional_view(decimal: Option<Decimal>) -> Option<Amount> {
    match decimal {
        Some(decimal) => Some(decimal@),
        None => None,
    }
}

/// A magnitude of zero stands for zero, at every scale.
pub proof fn zero_has_no_value(amount: Amount)
    requires
        amount.magnitude == 0,
    ensures
        amount.value() == 0,
{
    lemma_mul_basics(pow(10, (MAX_SCALE - amount.scale) as nat));
}

/// The value of an amount has the sign of the amount.
pub proof fn sign_of_the_value(amount: Amount)
    ensures
        amount.magnitude > 0 ==> (amount.value() < 0 <==> amount.negative) && amount.value() != 0,
{
    let unit = pow(10, (MAX_SCALE - amount.scale) as nat);
    lemma_pow_positive(10, (MAX_SCALE - amount.scale) as nat);
    let mantissa = amount.mantissa();
    assert(mantissa > 0 ==> mantissa * unit > 0) by (nonlinear_arith)
        requires
            unit > 0,
    ;
    assert(mantissa < 0 ==> mantissa * unit < 0) by (nonlinear_arith)
        requires
            unit > 0,
    ;
}

/// Two numbers whose difference has to be rounded are not equal.
proof fn differences_that_round_are_not_zero(left: Amount, right: Amount)
    requires
        left.in_range(),
        right.in_range(),
        !difference_is_exact(left, right),
    ensures
        left.value() != right.value(),
{
    exact_difference_is_the_difference(left, right);
    sign_of_the_value(exact_difference(left, right));
}

/// The value of an amount is its mantissa at any larger scale, brought to the smallest decimal
/// place.
proof fn value_through_scale(amount: Amount, scale: nat)
    requires
        amount.scale <= scale <= MAX_SCALE,
    ensures
        amount.value() == amount.mantissa_at(scale) * pow(10, (MAX_SCALE - scale) as nat),
{
    let to_scale = (scale - amount.scale) as nat;
    let to_place = (MAX_SCALE - scale) as nat;
    lemma_pow_adds(10, to_scale, to_place);
    lemma_mul_is_associative(amount.mantissa(), pow(10, to_scale), pow(10, to_place));
}

/// A product that needs no rounding stands for the product of the two numbers.
pub proof fn exact_product_is_the_product(left: Amount, right: Amount)
    requires
        left.in_range(),
        right.in_range(),
        product_is_exact(left, right),
    ensures
        exact_product(left, right).value() * pow(10, MAX_SCALE as nat) == left.value()
            * right.value(),
{
    if left.magnitude == 0 || right.magnitude == 0 {
        zero_has_no_value(exact_product(left, right));
        if left.magnitude == 0 {
            zero_has_no_value(left);
        } else {
            zero_has_no_value(right);
        }
        lemma_mul_basics(left.value());
        lemma_mul_basics(right.value());
    } else {
        let a = (MAX_SCALE - left.scale) as nat;
        let b = (MAX_SCALE - right.scale) as nat;
        let c = (MAX_SCALE - left.scale - right.scale) as nat;
        lemma_pow_adds(10, a, b);
        lemma_pow_adds(10, c, MAX_SCALE as nat);
        let (x, y) = (left.mantissa(), right.mantissa());
        let (p, q, r, t) = (pow(10, a), pow(10, b), pow(10, c), pow(10, MAX_SCALE as nat));
        assert(exact_product(left, right).mantissa() == x * y) by (nonlinear_arith)
            requires
                x == left.mantissa(),
                y == right.mantissa(),
                exact_product(left, right).magnitude == left.magnitude * right.magnitude,
                exact_product(left, right).negative == (left.negative != right.negative),
        ;
        assert((x * y * r) * t == (x * p) * (y * q)) by (nonlinear_arith)
            requires
                p * q == r * t,
        ;
    }
}

/// A sum that needs no rounding stands for the sum of the two numbers.
pub proof fn exact_sum_is_the_sum(left: Amount, right: Amount)
    requires
        left.in_range(),
        right.in_range(),
    ensures
        exact_sum(left, right).value() == left.value() + right.value(),
{
    let scale = common_scale(left, right);
    if left.magnitude == 0 {
        zero_has_no_value(left);
    } else if right.magnitude == 0 {
        zero_has_no_value(right);
    } else {
        value_through_scale(left, scale);
        value_through_scale(right, scale);
        lemma_mul_is_distributive_add_other_way(
            pow(10, (MAX_SCALE - scale) as nat),
            left.mantissa_at(scale),
            right.mantissa_at(scale),
        );
    }
}

/// A difference that needs no rounding stands for the difference of the two numbers.
pub proof fn exact_difference_is_the_difference(left: Amount, right: Amount)
    requires
        left.in_range(),
        right.in_range(),
    ensures
        exact_difference(left, right).value() == left.value() - right.value(),
{
    let scale = common_scale(left, right);
    if left.magnitude == 0 {
        zero_has_no_value(left);
        lemma_mul_unary_negation(right.mantissa(), pow(10, (MAX_SCALE - right.scale) as nat));
        if right.magnitude == 0 {
            zero_has_no_value(right);
        }
    } else if right.magnitude == 0 {
        zero_has_no_value(right);
    } else {
        value_through_scale(left, scale);
        value_through_scale(right, scale);
        lemma_mul_is_distributive_sub_other_way(
            pow(10, (MAX_SCALE - scale) as nat),
            left.mantissa_at(scale),
            right.mantissa_at(scale),
        );
    }
}

/// The value of an amount is its magnitude with its sign, over ten to the power of its scale,
/// counted in the smallest decimal place.
pub proof fn the_value_is_the_number(amount: Amount)
    requires
        amount.scale <= 28,
    ensures
        amount.value() * pow(10, amount.scale) == pow(10, 28) * (if amount.negative {
            -amount.magnitude
        } else {
            amount.magnitude as int
        }),
        amount.value() == 0 <==> amount.magnitude == 0,
        amount.value() < 0 <==> amount.negative && amount.magnitude > 0,
{
    let mantissa = amount.mantissa();
    let (p, q) = (pow(10, (28 - amount.scale) as nat), pow(10, amount.scale));
    lemma_pow_adds(10, (28 - amount.scale) as nat, amount.scale);
    assert((mantissa * p) * q == pow(10, 28) * mantissa) by (nonlinear_arith)
        requires
            p * q == pow(10, 28),
    ;
    sign_of_the_value(amount);
    if amount.magnitude == 0 {
        zero_has_no_value(amount);
    }
}

/// An amount has the sign, the magnitude and the scale that it is made of, and is in range where
/// the magnitude has no more than 96 bits and the scale is no more than 28.
pub proof fn an_amount_is_its_parts(negative: bool, magnitude: u128, scale: u32)
    ensures
        amount((negative, magnitude, scale)).negative == negative,
        amount((negative, magnitude, scale)).magnitude == magnitude,
        amount((negative, magnitude, scale)).scale == scale,
        amount((negative, magnitude, scale)).in_range() <==> (magnitude
            < 79_228_162_514_264_337_593_543_950_336 && scale <= 28),
{
}

/// An optional number is seen as the amount of the number, and as nothing where there is none.
pub proof fn an_optional_number_is_seen_as_it_is(decimal: Decimal, parts: (bool, u128, u32))
    ensures
        optional_view(Some(decimal)) == Some(decimal@),
        optional_view(None) is None,
        optional_amount(Some(parts)) == Some(
            Amount { negative: parts.0, magnitude: parts.1 as nat, scale: parts.2 as nat },
        ),
        optional_amount(None) is None,
{
}

/// An amount without its sign stands for the distance from zero, at the same scale; with the other
/// sign it stands for the number on the other side of zero.
pub proof fn signs_turn_the_value(amount: Amount)
    ensures
        amount.abs().value() == if amount.value() < 0 {
            -amount.value()
        } else {
            amount.value()
        },
        amount.abs().magnitude == amount.magnitude,
        amount.abs().scale == amount.scale,
        !amount.abs().negative,
        amount.negated().value() == -amount.value(),
        Amount::zero().value() == 0,
{
    sign_of_the_value(amount);
    sign_of_the_value(amount.abs());
    if amount.magnitude == 0 {
        zero_has_no_value(amount);
        zero_has_no_value(amount.abs());
    }
    zero_has_no_value(Amount::zero());
    lemma_mul_unary_negation(
        amount.magnitude as int,
        pow(10, (MAX_SCALE - amount.scale) as nat),
    );
}

/// Numbers are equal, and come one before the other, as the numbers that they stand for.
pub proof fn numbers_compare_by_value(a: Decimal, b: Decimal)
    ensures
        PartialEqSpec::eq_spec(&a, &b) <==> a@.value() == b@.value(),
        PartialOrdSpec::partial_cmp_spec(&a, &b) == Some(Ordering::Less) <==> a@.value() < b@.value(),
        PartialOrdSpec::partial_cmp_spec(&a, &b) == Some(Ordering::Equal) <==> a@.value() == b@.value(),
        PartialOrdSpec::partial_cmp_spec(&a, &b) == Some(Ordering::Greater) <==> a@.value() > b@.value(),
{
}

/// A product whose digits fit stands for the product of the two numbers, and has all of their
/// decimal places; a zero has none and no sign.
pub proof fn a_product_that_fits_is_the_product(left: Amount, right: Amount)
    requires
        left.in_range(),
        right.in_range(),
        left.magnitude * right.magnitude == 0 || (left.magnitude * right.magnitude
            < 79_228_162_514_264_337_593_543_950_336 && left.scale + right.scale <= 28),
    ensures
        ({
            &&& product(left, right) matches Some(result)
            &&& result.value() * pow(10, 28) == left.value() * right.value()
            &&& result.in_range()
            &&& result.magnitude == left.magnitude * right.magnitude
            &&& result.magnitude > 0 ==> result.scale == left.scale + right.scale
            &&& result.magnitude > 0 ==> result.negative == (left.negative != right.negative)
            &&& result.magnitude == 0 ==> result.scale == 0 && !result.negative
        }),
{
    assert(left.magnitude * right.magnitude == 0 <==> left.magnitude == 0 || right.magnitude == 0)
        by (nonlinear_arith);
    exact_product_is_the_product(left, right);
}

/// A sum that fits at the larger of the two scales stands for the sum of the two numbers, at that
/// scale; a zero gives the other number back as it is.
pub proof fn a_sum_that_fits_is_the_sum(left: Amount, right: Amount)
    requires
        left.in_range(),
        right.in_range(),
        left.magnitude == 0 || right.magnitude == 0 || ({
            let scale = if left.scale < right.scale {
                right.scale
            } else {
                left.scale
            };
            let limit = 79_228_162_514_264_337_593_543_950_336 * pow(10, (28 - scale) as nat);
            -limit < left.value() + right.value() < limit
        }),
    ensures
        ({
            &&& sum(left, right) matches Some(result)
            &&& result.value() == left.value() + right.value()
            &&& result.in_range()
            &&& if left.magnitude == 0 {
                result == right
            } else if right.magnitude == 0 {
                result == left
            } else {
                &&& result.scale == if left.scale < right.scale {
                    right.scale
                } else {
                    left.scale
                }
                &&& result.negative <==> left.value() + right.value() < 0
            }
        }),
{
    if left.magnitude != 0 && right.magnitude != 0 {
        let scale = common_scale(left, right);
        let unit = pow(10, (28 - scale) as nat);
        lemma_pow_positive(10, (28 - scale) as nat);
        value_through_scale(left, scale);
        value_through_scale(right, scale);
        lemma_mul_is_distributive_add_other_way(
            unit,
            left.mantissa_at(scale),
            right.mantissa_at(scale),
        );
        fits_at_the_scale(left.mantissa_at(scale) + right.mantissa_at(scale), unit);
    }
    exact_sum_is_the_sum(left, right);
    sign_of_the_value(exact_sum(left, right));
}

/// A difference that fits at the larger of the two scales stands for the difference of the two
/// numbers, at that scale; a zero gives the other number back, with the other sign where the zero
/// is on the left.
pub proof fn a_difference_that_fits_is_the_difference(left: Amount, right: Amount)
    requires
        left.in_range(),
        right.in_range(),
        left.magnitude == 0 || right.magnitude == 0 || ({
            let scale = if left.scale < right.scale {
                right.scale
            } else {
                left.scale
            };
            let limit = 79_228_162_514_264_337_593_543_950_336 * pow(10, (28 - scale) as nat);
            -limit < left.value() - right.value() < limit
        }),
    ensures
        ({
            &&& difference(left, right) matches Some(result)
            &&& result.value() == left.value() - right.value()
            &&& result.in_range()
            &&& if right.magnitude == 0 && left.magnitude > 0 {
                result == left
            } else if left.magnitude == 0 {
                &&& result.scale == right.scale
                &&& result.magnitude == right.magnitude
                &&& result.negative == (right.negative != (right.magnitude > 0))
            } else {
                &&& result.scale == if left.scale < right.scale {
                    right.scale
                } else {
                    left.scale
                }
                &&& result.negative <==> left.value() < right.value()
            }
        }),
{
    if left.magnitude != 0 && right.magnitude != 0 {
        let scale = common_scale(left, right);
        let unit = pow(10, (28 - scale) as nat);
        lemma_pow_positive(10, (28 - scale) as nat);
        value_through_scale(left, scale);
        value_through_scale(right, scale);
        lemma_mul_is_distributive_sub_other_way(
            unit,
            left.mantissa_at(scale),
            right.mantissa_at(scale),
        );
        fits_at_the_scale(left.mantissa_at(scale) - right.mantissa_at(scale), unit);
    }
    exact_difference_is_the_difference(left, right);
    sign_of_the_value(exact_difference(left, right));
}

/// A product whose digits do not fit is what `rust_decimal` makes of it.
pub proof fn a_product_that_does_not_fit_is_rounded(left: Amount, right: Amount)
    requires
        left.magnitude > 0,
        right.magnitude > 0,
        left.magnitude * right.magnitude >= 79_228_162_514_264_337_593_543_950_336 || left.scale
            + right.scale > 28,
    ensures
        product(left, right) == rounded_product(left, right),
{
}

/// A sum that does not fit at the larger of the two scales is what `rust_decimal` makes of it.
pub proof fn a_sum_that_does_not_fit_is_rounded(left: Amount, right: Amount)
    requires
        left.in_range(),
        right.in_range(),
        left.magnitude > 0,
        right.magnitude > 0,
        ({
            let scale = if left.scale < right.scale {
                right.scale
            } else {
                left.scale
            };
            let limit = 79_228_162_514_264_337_593_543_950_336 * pow(10, (28 - scale) as nat);
            left.value() + right.value() <= -limit || left.value() + right.value() >= limit
        }),
    ensures
        sum(left, right) == rounded_sum(left, right),
{
    let scale = common_scale(left, right);
    let unit = pow(10, (28 - scale) as nat);
    value_through_scale(left, scale);
    value_through_scale(right, scale);
    lemma_mul_is_distributive_add_other_way(
        unit,
        left.mantissa_at(scale),
        right.mantissa_at(scale),
    );
    does_not_fit_at_the_scale(sum_mantissa(left, right), unit, scale);
}

/// A difference that does not fit at the larger of the two scales is what `rust_decimal` makes of
/// it.
pub proof fn a_difference_that_does_not_fit_is_rounded(left: Amount, right: Amount)
    requires
        left.in_range(),
        right.in_range(),
        left.magnitude > 0,
        right.magnitude > 0,
        ({
            let scale = if left.scale < right.scale {
                right.scale
            } else {
                left.scale
            };
            let limit = 79_228_162_514_264_337_593_543_950_336 * pow(10, (28 - scale) as nat);
            left.value() - right.value() <= -limit || left.value() - right.value() >= limit
        }),
    ensures
        difference(left, right) == rounded_difference(left, right),
{
    let scale = common_scale(left, right);
    let unit = pow(10, (28 - scale) as nat);
    value_through_scale(left, scale);
    value_through_scale(right, scale);
    lemma_mul_is_distributive_sub_other_way(
        unit,
        left.mantissa_at(scale),
        right.mantissa_at(scale),
    );
    does_not_fit_at_the_scale(difference_mantissa(left, right), unit, scale);
}

/// A mantissa does not fit where it does not in units of a smaller decimal place.
proof fn does_not_fit_at_the_scale(mantissa: int, unit: int, scale: nat)
    requires
        unit == pow(10, (28 - scale) as nat),
        mantissa * unit <= -(MAGNITUDE_LIMIT * unit) || mantissa * unit >= MAGNITUDE_LIMIT * unit,
    ensures
        mantissa <= -MAGNITUDE_LIMIT || mantissa >= MAGNITUDE_LIMIT,
{
    lemma_pow_positive(10, (28 - scale) as nat);
    let limit = MAGNITUDE_LIMIT as int;
    assert(mantissa <= -limit || mantissa >= limit) by (nonlinear_arith)
        requires
            unit > 0,
            mantissa * unit <= -(limit * unit) || mantissa * unit >= limit * unit,
    ;
}

/// A mantissa fits where it does in units of a smaller decimal place.
proof fn fits_at_the_scale(mantissa: int, unit: int)
    requires
        unit > 0,
        -(MAGNITUDE_LIMIT * unit) < mantissa * unit < MAGNITUDE_LIMIT * unit,
    ensures
        -MAGNITUDE_LIMIT < mantissa < MAGNITUDE_LIMIT,
{
    let limit = MAGNITUDE_LIMIT as int;
    assert(-limit < mantissa < limit) by (nonlinear_arith)
        requires
            unit > 0,
            -(limit * unit) < mantissa * unit < limit * unit,
    ;
}

/// The digit of a remainder is that of the number.
proof fn digit_of_a_remainder(n: nat, place: nat, width: nat)
    requires
        place < width,
    ensures
        pow(10, width) > 0,
        (n as int % pow(10, width)) / pow(10, place) % 10 == n as int / pow(10, place) % 10,
{
    let (a, b) = (pow(10, place), pow(10, (width - place) as nat));
    let c = pow(10, (width - place - 1) as nat);
    let p = pow(10, width);
    lemma_pow_adds(10, place, (width - place) as nat);
    lemma_pow_adds(10, 1, (width - place - 1) as nat);
    lemma_pow1(10);
    lemma_pow_positive(10, width);
    lemma_pow_positive(10, place);
    let (q, r) = (n as int / p, n as int % p);
    lemma_fundamental_div_mod(n as int, p);
    assert(n as int == r + (b * q) * a) by (nonlinear_arith)
        requires
            n as int == p * q + r,
            p == a * b,
    ;
    lemma_hoist_over_denominator(r, b * q, a as nat);
    assert(b * q == 10 * (c * q)) by (nonlinear_arith)
        requires
            b == 10 * c,
    ;
    lemma_mod_multiples_vanish(c * q, r / a, 10);
}

/// The text of an amount shows its sign, every digit of its magnitude down to the last, and the
/// point before as many digits as its scale; before the point stands one digit at least, and no
/// zero leads where there are more.
pub proof fn the_text_shows_every_digit(amount: Amount)
    ensures
        ({
            let text = amount_text(amount);
            let start: int = if amount.negative { 1 } else { 0 };
            let point: int = if amount.scale > 0 { 1 } else { 0 };
            let shown = text.len() - start - point;
            &&& shown > amount.scale
            &&& amount.negative ==> text[0] == '-'
            &&& amount.scale > 0 ==> text[text.len() - 1 - amount.scale] == '.'
            &&& forall|place: int|
                #![trigger pow(10, place as nat)]
                0 <= place < amount.scale ==> text[text.len() - 1 - place] == (48
                    + amount.magnitude as int / pow(10, place as nat) % 10) as char
            &&& forall|place: int|
                #![trigger pow(10, place as nat)]
                amount.scale <= place < shown ==> text[text.len() - 1 - point - place] == (48
                    + amount.magnitude as int / pow(10, place as nat) % 10) as char
            &&& (amount.magnitude as int) < pow(10, shown as nat)
            &&& shown > amount.scale + 1 ==> amount.magnitude as int >= pow(
                10,
                (shown - 1) as nat,
            )
        }),
{
    let text = amount_text(amount);
    let scale = amount.scale;
    let unit = pow(10, scale);
    let start: int = if amount.negative { 1 } else { 0 };
    let point: int = if scale > 0 { 1 } else { 0 };
    let shown = text.len() - start - point;
    lemma_pow_positive(10, scale);
    lemma_pow0(10);
    let whole = (amount.magnitude as int / unit) as nat;
    lemma_div_pos_is_pos(amount.magnitude as int, unit);
    lemma_mod_bound(amount.magnitude as int, unit);
    let part = (amount.magnitude as int % unit) as nat;
    assert(amount.magnitude / (unit as nat) == whole);
    assert(amount.magnitude % (unit as nat) == part);
    digits_fill_their_places(whole);
    padded_digits_have_their_width(part, scale);
    assert(shown == scale + digits(whole).len());
    assert forall|place: int|
        #![trigger pow(10, place as nat)]
        0 <= place < scale implies text[text.len() - 1 - place] == (48 + amount.magnitude as int
        / pow(10, place as nat) % 10) as char by {
        padded_digits_show_the_number(part, scale, place as nat);
        digit_of_a_remainder(amount.magnitude, place as nat, scale);
        assert(text[text.len() - 1 - place] == padded_digits(part, scale)[scale - 1 - place]);
    }
    assert forall|place: int|
        #![trigger pow(10, place as nat)]
        scale <= place < shown implies text[text.len() - 1 - point - place] == (48
        + amount.magnitude as int / pow(10, place as nat) % 10) as char by {
        let above = (place - scale) as nat;
        digits_show_the_number(whole, above);
        lemma_pow_adds(10, scale, above);
        lemma_pow_positive(10, above);
        lemma_div_denominator(amount.magnitude as int, unit, pow(10, above));
        assert(text[text.len() - 1 - point - place] == digits(whole)[digits(whole).len() - 1
            - above]);
    }
    let len = digits(whole).len();
    lemma_pow_adds(10, scale, len);
    lemma_fundamental_div_mod(amount.magnitude as int, unit);
    assert((amount.magnitude as int) < pow(10, shown as nat)) by (nonlinear_arith)
        requires
            amount.magnitude as int == unit * (whole as int) + (part as int),
            (part as int) < unit,
            whole + 1 <= pow(10, len),
            pow(10, shown as nat) == unit * pow(10, len),
            unit > 0,
    ;
    if len > 1 {
        lemma_pow_adds(10, scale, (len - 1) as nat);
        assert(amount.magnitude as int >= pow(10, (shown - 1) as nat)) by (nonlinear_arith)
            requires
                amount.magnitude as int == unit * (whole as int) + (part as int),
                whole as int >= pow(10, (len - 1) as nat),
                pow(10, (shown - 1) as nat) == unit * pow(10, (len - 1) as nat),
                unit > 0,
        ;
    }
}

} // verus!
