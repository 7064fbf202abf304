//! What an order costs by its side, in the numbers of the request.

use super::cost::{cost_of, debit_of, Cost, Debit, DebitOutcome, OrderCost};
use super::laws::{buying_costs_the_value_and_the_fee, selling_costs_the_quantity_and_the_fee};
use super::Exchange;
use crate::decimal::{
    difference, exact_product, product, product_is_exact, signs_turn_the_value, sum, sum_is_exact,
    sum_mantissa, Amount,
};
use crate::order::{OrderRequestOpen, Side};
use vstd::arithmetic::power::{lemma_pow0, pow};
use vstd::prelude::*;

verus! {

/// An order costs what its own side, price and quantity cost at the fee rate of the exchange.
pub proof fn an_order_costs_what_its_request_says(exchange: Exchange, request: OrderRequestOpen)
    ensures
        exchange.cost(request) == cost_of(
            request.state.side,
            request.state.price@,
            request.state.quantity@,
            exchange.fees_percent@,
        ),
{
}

/// A buyer's cost is a value and a fee on it: the value is the price times the quantity without its
/// sign, the fee is the value times the fee rate, and both are required. There is a cost exactly
/// where none of the three overflows.
pub proof fn a_buyer_needs_the_value_and_the_fee(
    price: Amount,
    quantity: Amount,
    fees_percent: Amount,
    cost: Cost,
)
    ensures
        cost_of(Side::Buy, price, quantity, fees_percent) == Some(cost) <==> exists|value: Amount|
            {
                &&& product(price, Amount { negative: false, ..quantity }) == Some(value)
                &&& #[trigger] product(value, fees_percent) == Some(cost.fee_quote)
                &&& sum(value, cost.fee_quote) == Some(cost.required)
            },
{
    let unsigned = Amount { negative: false, ..quantity };
    assert(quantity.abs() == unsigned);
    if let Some(value) = product(price, unsigned) {
        assert(product(value, fees_percent) is Some || product(value, fees_percent) is None);
    }
}

/// A seller's cost is the quantity without its sign and a fee on it: the fee is the quantity times
/// the fee rate, both are required, and the fee is reported at the price. There is a cost exactly
/// where none of the three overflows.
pub proof fn a_seller_needs_the_quantity_and_the_fee(
    price: Amount,
    quantity: Amount,
    fees_percent: Amount,
    cost: Cost,
)
    ensures
        cost_of(Side::Sell, price, quantity, fees_percent) == Some(cost) <==> exists|fee: Amount|
            {
                &&& product(Amount { negative: false, ..quantity }, fees_percent) == Some(fee)
                &&& #[trigger] product(fee, price) == Some(cost.fee_quote)
                &&& sum(Amount { negative: false, ..quantity }, fee) == Some(cost.required)
            },
{
    let unsigned = Amount { negative: false, ..quantity };
    assert(quantity.abs() == unsigned);
    if let Some(fee) = product(unsigned, fees_percent) {
        assert(product(fee, price) is Some || product(fee, price) is None);
    }
}

/// The fee rate with its sign, in units of its last decimal place, and one more than it.
spec fn one_and_the_rate(fees_percent: Amount) -> int {
    pow(10, fees_percent.scale) + fees_percent.mantissa()
}

/// An amount and a fee on it fit together where their sum does.
proof fn amount_and_fee_fit(base: Amount, fees_percent: Amount)
    requires
        base.magnitude * fees_percent.magnitude == 0 || -79_228_162_514_264_337_593_543_950_336
            < base.magnitude * one_and_the_rate(fees_percent)
            < 79_228_162_514_264_337_593_543_950_336,
    ensures
        sum_is_exact(base, exact_product(base, fees_percent)),
{
    let fee = exact_product(base, fees_percent);
    assert(base.magnitude * fees_percent.magnitude == 0 <==> base.magnitude == 0
        || fees_percent.magnitude == 0) by (nonlinear_arith);
    if base.magnitude != 0 && fees_percent.magnitude != 0 {
        let unit = pow(10, fees_percent.scale);
        let (m, f) = (base.magnitude as int, fees_percent.magnitude as int);
        lemma_pow0(10);
        assert(fee.mantissa_at(fee.scale) == fee.mantissa());
        assert(base.mantissa_at(fee.scale) == base.mantissa() * unit);
        let total = base.mantissa() * unit + fee.mantissa();
        assert(sum_mantissa(base, fee) == total);
        let rate = fees_percent.mantissa();
        let signed = base.mantissa();
        assert(fee.mantissa() == signed * rate) by (nonlinear_arith)
            requires
                signed == (if base.negative { -m } else { m }),
                rate == (if fees_percent.negative { -f } else { f }),
                fee.mantissa() == (if base.negative != fees_percent.negative {
                    -(m * f)
                } else {
                    m * f
                }),
        ;
        assert(total == signed * (unit + rate)) by (nonlinear_arith)
            requires
                total == signed * unit + signed * rate,
        ;
        assert(signed * (unit + rate) == if base.negative {
            -(m * (unit + rate))
        } else {
            m * (unit + rate)
        }) by (nonlinear_arith)
            requires
                signed == (if base.negative { -m } else { m }),
        ;
    }
}

/// Where nothing is rounded, a buyer needs the price times the quantity and the fee rate on that,
/// and the fee is that rate on that value. Nothing is rounded where the value, the fee and the two
/// together fit, or are zero.
///
/// Products of values count in powers of the smallest decimal place, hence the powers of ten.
pub proof fn a_buyer_pays_the_price_of_the_quantity_and_the_fee(
    price: Amount,
    quantity: Amount,
    fees_percent: Amount,
)
    requires
        price.in_range(),
        quantity.in_range(),
        fees_percent.in_range(),
        ({
            let value = price.magnitude * quantity.magnitude;
            let scale = price.scale + quantity.scale;
            let fee = value * fees_percent.magnitude;
            let rate = if fees_percent.negative {
                -fees_percent.magnitude
            } else {
                fees_percent.magnitude as int
            };
            &&& value == 0 || value < 79_228_162_514_264_337_593_543_950_336 && scale <= 28
            &&& fee == 0 || fee < 79_228_162_514_264_337_593_543_950_336 && scale
                + fees_percent.scale <= 28
            &&& fee == 0 || -79_228_162_514_264_337_593_543_950_336 < value * (pow(
                10,
                fees_percent.scale,
            ) + rate) < 79_228_162_514_264_337_593_543_950_336
        }),
    ensures
        ({
            let unit = pow(10, 28);
            let bought = if quantity.value() < 0 {
                -quantity.value()
            } else {
                quantity.value()
            };
            &&& cost_of(Side::Buy, price, quantity, fees_percent) matches Some(cost)
            &&& cost.required.value() * unit * unit == price.value() * bought * (unit
                + fees_percent.value())
            &&& cost.fee_quote.value() * unit * unit == price.value() * bought
                * fees_percent.value()
        }),
{
    let unit = pow(10, 28);
    let unsigned = quantity.abs();
    let value = exact_product(price, unsigned);
    signs_turn_the_value(quantity);
    assert(price.magnitude * quantity.magnitude == 0 <==> price.magnitude == 0
        || quantity.magnitude == 0) by (nonlinear_arith);
    assert(value.magnitude == price.magnitude * quantity.magnitude);
    assert(value.magnitude * fees_percent.magnitude == 0 <==> value.magnitude == 0
        || fees_percent.magnitude == 0) by (nonlinear_arith);
    assert(product_is_exact(price, unsigned));
    assert(product_is_exact(value, fees_percent));
    amount_and_fee_fit(value, fees_percent);
    buying_costs_the_value_and_the_fee(price, quantity, fees_percent);
    if let Some(cost) = cost_of(Side::Buy, price, quantity, fees_percent) {
        let (v, f, r) = (value.value(), cost.fee_quote.value(), cost.required.value());
        let (p, q, rate) = (price.value(), unsigned.value(), fees_percent.value());
        assert(r * unit * unit == p * q * (unit + rate) && f * unit * unit == p * q * rate)
            by (nonlinear_arith)
            requires
                v * unit == p * q,
                f * unit == v * rate,
                r == v + f,
        ;
    }
}

/// Where nothing is rounded, a seller needs the quantity and the fee rate on that, and the fee is
/// that rate on the quantity, at the price. Nothing is rounded where the fee, the fee at the price,
/// and the quantity with the fee fit, or are zero.
///
/// Products of values count in powers of the smallest decimal place, hence the powers of ten.
pub proof fn a_seller_pays_the_quantity_and_the_fee(
    price: Amount,
    quantity: Amount,
    fees_percent: Amount,
)
    requires
        price.in_range(),
        quantity.in_range(),
        fees_percent.in_range(),
        ({
            let fee = quantity.magnitude * fees_percent.magnitude;
            let scale = quantity.scale + fees_percent.scale;
            let priced = fee * price.magnitude;
            let rate = if fees_percent.negative {
                -fees_percent.magnitude
            } else {
                fees_percent.magnitude as int
            };
            &&& fee == 0 || fee < 79_228_162_514_264_337_593_543_950_336 && scale <= 28
            &&& priced == 0 || priced < 79_228_162_514_264_337_593_543_950_336 && scale
                + price.scale <= 28
            &&& fee == 0 || -79_228_162_514_264_337_593_543_950_336 < quantity.magnitude * (pow(
                10,
                fees_percent.scale,
            ) + rate) < 79_228_162_514_264_337_593_543_950_336
        }),
    ensures
        ({
            let unit = pow(10, 28);
            let sold = if quantity.value() < 0 {
                -quantity.value()
            } else {
                quantity.value()
            };
            &&& cost_of(Side::Sell, price, quantity, fees_percent) matches Some(cost)
            &&& cost.required.value() * unit == sold * (unit + fees_percent.value())
            &&& cost.fee_quote.value() * unit * unit == sold * fees_percent.value() * price.value()
        }),
{
    let unit = pow(10, 28);
    let unsigned = quantity.abs();
    let fee = exact_product(unsigned, fees_percent);
    signs_turn_the_value(quantity);
    assert(quantity.magnitude * fees_percent.magnitude == 0 <==> quantity.magnitude == 0
        || fees_percent.magnitude == 0) by (nonlinear_arith);
    assert(fee.magnitude == quantity.magnitude * fees_percent.magnitude);
    assert(fee.magnitude * price.magnitude == 0 <==> fee.magnitude == 0 || price.magnitude == 0)
        by (nonlinear_arith);
    assert(product_is_exact(unsigned, fees_percent));
    assert(product_is_exact(fee, price));
    amount_and_fee_fit(unsigned, fees_percent);
    selling_costs_the_quantity_and_the_fee(price, quantity, fees_percent);
    if let Some(cost) = cost_of(Side::Sell, price, quantity, fees_percent) {
        let (b, f, r) = (fee.value(), cost.fee_quote.value(), cost.required.value());
        let (p, q, rate) = (price.value(), unsigned.value(), fees_percent.value());
        assert(r * unit == q * (unit + rate) && f * unit * unit == q * rate * p)
            by (nonlinear_arith)
            requires
                b * unit == q * rate,
                f * unit == b * p,
                r == q + b,
        ;
    }
}

/// A debit is paid exactly where the free balance covers it and neither balance overflows, and then
/// takes the same from both; it is short exactly where the free balance does not cover it.
pub proof fn a_debit_is_paid_where_it_is_covered(free: Amount, total: Amount, required: Amount)
    ensures
        match debit_of(free, total, required) {
            DebitOutcome::Paid { free: free_left, total: total_left } => {
                &&& free.value() >= required.value()
                &&& difference(free, required) == Some(free_left)
                &&& difference(total, required) == Some(total_left)
            },
            DebitOutcome::Short => {
                &&& free.value() < required.value()
                &&& difference(free, required) is Some
            },
            DebitOutcome::Overflow => {
                ||| difference(free, required) is None
                ||| free.value() >= required.value() && difference(total, required) is None
            },
        },
{
}

/// A cost and a debit are seen as the numbers that they hold.
pub proof fn costs_and_debits_are_seen_as_they_are(cost: OrderCost, debit: Debit)
    ensures
        cost@.fee_quote == cost.fee_quote@,
        cost@.required == cost.required@,
        match debit {
            Debit::Paid(left) => debit@ == (DebitOutcome::Paid {
                free: left.free@,
                total: left.total@,
            }),
            Debit::Short => debit@ is Short,
            Debit::Overflow => debit@ is Overflow,
        },
{
}

} // verus!
