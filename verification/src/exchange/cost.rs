//! What an order costs, and whether an account can pay for it.

use crate::decimal::{difference, product, sum, Amount, Decimal};
use crate::order::Side;
use crate::snapshot::Balance;
use vstd::prelude::*;

verus! {

/// What an [`OrderCost`] stands for.
pub struct Cost {
    pub fee_quote: Amount,
    pub required: Amount,
}

/// What a buyer pays, in the quote asset: the price of the quantity, and a fee on it.
pub open spec fn cost_of_buying(price: Amount, quantity: Amount, fees_percent: Amount) -> Option<Cost> {
    match product(price, quantity.abs()) {
        Some(value) => match product(value, fees_percent) {
            Some(fee) => match sum(value, fee) {
                Some(required) => Some(Cost { fee_quote: fee, required }),
                None => None,
            },
            None => None,
        },
        None => None,
    }
}

/// What a seller pays, in the base asset: the quantity, and a fee on it, which is reported at
/// the price in the quote asset.
pub open spec fn cost_of_selling(price: Amount, quantity: Amount, fees_percent: Amount) -> Option<Cost> {
    match product(quantity.abs(), fees_percent) {
        Some(fee) => match product(fee, price) {
            Some(fee_quote) => match sum(quantity.abs(), fee) {
                Some(required) => Some(Cost { fee_quote, required }),
                None => None,
            },
            None => None,
        },
        None => None,
    }
}

/// What an order costs; `None` where a number on the way overflows.
pub open spec fn cost_of(
    side: Side,
    price: Amount,
    quantity: Amount,
    fees_percent: Amount,
) -> Option<Cost> {
    match side {
        Side::Buy => cost_of_buying(price, quantity, fees_percent),
        Side::Sell => cost_of_selling(price, quantity, fees_percent),
    }
}

/// The fee of an order in the quote asset, and what is taken from the balance that pays for it.
#[derive(Clone, Copy, Debug)]
pub struct OrderCost {
    pub fee_quote: Decimal,
    pub required: Decimal,
}

impl View for OrderCost {
    type V = Cost;

    open spec fn view(&self) -> Cost {
        Cost { fee_quote: self.fee_quote@, required: self.required@ }
    }
}

impl OrderCost {
    /// What an order costs; `None` where a number on the way overflows.
    pub fn of(side: Side, price: Decimal, quantity: Decimal, fees_percent: Decimal) -> (result: Option<
        OrderCost,
    >)
        ensures
            match result {
                Some(cost) => cost_of(side, price@, quantity@, fees_percent@) == Some(cost@),
                None => cost_of(side, price@, quantity@, fees_percent@) is None,
            },
    {
        match side {
            Side::Buy => {
                let order_value = price.checked_mul(quantity.abs())?;
                let fee = order_value.checked_mul(fees_percent)?;
                let required = order_value.checked_add(fee)?;
                Some(OrderCost { fee_quote: fee, required })
            },
            Side::Sell => {
                let order_value_base = quantity.abs();
                let fee_base = order_value_base.checked_mul(fees_percent)?;
                let fee_quote = fee_base.checked_mul(price)?;
                let required = order_value_base.checked_add(fee_base)?;
                Some(OrderCost { fee_quote, required })
            },
        }
    }
}

/// What a [`Debit`] stands for.
pub enum DebitOutcome {
    /// A balance overflows.
    Overflow,
    /// The free balance is not enough.
    Short,
    /// The balances that are left.
    Paid { free: Amount, total: Amount },
}

/// What becomes of a balance from which an amount is taken, which the free balance has to cover.
pub open spec fn debit_of(free: Amount, total: Amount, required: Amount) -> DebitOutcome {
    match difference(free, required) {
        Some(left) => if free.value() >= required.value() {
            match difference(total, required) {
                Some(total) => DebitOutcome::Paid { free: left, total },
                None => DebitOutcome::Overflow,
            }
        } else {
            DebitOutcome::Short
        },
        None => DebitOutcome::Overflow,
    }
}

/// What becomes of a balance from which an amount is taken.
#[derive(Clone, Copy, Debug)]
pub enum Debit {
    /// A balance overflows.
    Overflow,
    /// The free balance is not enough.
    Short,
    /// The balance that is left.
    Paid(Balance),
}

impl View for Debit {
    type V = DebitOutcome;

    open spec fn view(&self) -> DebitOutcome {
        match *self {
            Debit::Overflow => DebitOutcome::Overflow,
            Debit::Short => DebitOutcome::Short,
            Debit::Paid(balance) => DebitOutcome::Paid {
                free: balance.free@,
                total: balance.total@,
            },
        }
    }
}

impl Debit {
    /// Takes an amount from a balance, where the free balance covers it.
    pub fn of(held: Balance, required: Decimal) -> (debit: Debit)
        ensures
            debit@ == debit_of(held.free@, held.total@, required@),
            debit matches Debit::Paid(left) ==> left.free@.value() >= 0,
    {
        match held.free.checked_sub(required) {
            Some(free) => {
                assert(Amount::zero().value() == 0);
                if free >= Decimal::zero() {
                    match held.total.checked_sub(required) {
                        Some(total) => Debit::Paid(Balance { total, free }),
                        None => Debit::Overflow,
                    }
                } else {
                    Debit::Short
                }
            },
            None => Debit::Overflow,
        }
    }
}

} // verus!
