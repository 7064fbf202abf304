//! Prices as the keys of the two sides of a book, ordered so that the best price comes first.

use crate::decimal::{ordering, Amount, Decimal};
use core::cmp::Ordering;
use vstd::prelude::*;
use vstd::std_specs::cmp::{
    PartialEqSpec, PartialEqSpecImpl, PartialOrdSpec, PartialOrdSpecImpl,
};
use vstd::std_specs::convert::{FromSpec, FromSpecImpl};

verus! {

/// The key of a price level: a price, and the order in which the levels of a side come.
pub trait PriceKey: PartialOrd + core::fmt::Debug + Copy + From<Decimal> {
    /// The price of the key.
    spec fn spec_price(&self) -> Decimal;

    /// The place of the key among the keys of its side: a lower rank comes first.
    spec fn rank(&self) -> int;

    /// Whether an order at `price` can be filled from the level.
    spec fn spec_fill_possible(&self, price: Amount) -> bool;

    /// Keys compare by their ranks.
    proof fn compared_by_rank()
        ensures
            Self::obeys_partial_cmp_spec(),
            forall|a: Self, b: Self|
                #[trigger] a.partial_cmp_spec(&b) == Some(ordering(a.rank(), b.rank())),
    ;

    /// The key that is made from a price has that price.
    proof fn made_from_price()
        ensures
            Self::obeys_from_spec(),
            forall|price: Decimal| (#[trigger] Self::from_spec(price)).spec_price() == price,
    ;

    fn fill_possible(&self, price: Decimal) -> (result: bool)
        ensures
            result == self.spec_fill_possible(price@),
    ;

    fn price(&self) -> (result: Decimal)
        ensures
            result == self.spec_price(),
    ;
}

/// A price at which someone sells: the lowest comes first.
#[derive(Clone, Copy, Debug)]
pub struct AskPrice {
    price: Decimal,
}

impl PartialEqSpecImpl for AskPrice {
    open spec fn obeys_eq_spec() -> bool {
        true
    }

    open spec fn eq_spec(&self, other: &AskPrice) -> bool {
        self.rank() == other.rank()
    }
}

impl PartialEq for AskPrice {
    fn eq(&self, other: &AskPrice) -> (result: bool) {
        self.price == other.price
    }
}

impl Eq for AskPrice {

}

impl PartialOrdSpecImpl for AskPrice {
    open spec fn obeys_partial_cmp_spec() -> bool {
        true
    }

    open spec fn partial_cmp_spec(&self, other: &AskPrice) -> Option<Ordering> {
        Some(ordering(self.rank(), other.rank()))
    }
}

impl PartialOrd for AskPrice {
    fn partial_cmp(&self, other: &AskPrice) -> (result: Option<Ordering>) {
        self.price.partial_cmp(&other.price)
    }
}

impl FromSpecImpl<Decimal> for AskPrice {
    open spec fn obeys_from_spec() -> bool {
        true
    }

    closed spec fn from_spec(price: Decimal) -> AskPrice {
        AskPrice { price }
    }
}

impl From<Decimal> for AskPrice {
    fn from(price: Decimal) -> (result: AskPrice) {
        AskPrice { price }
    }
}

impl PriceKey for AskPrice {
    closed spec fn spec_price(&self) -> Decimal {
        self.price
    }

    open spec fn rank(&self) -> int {
        self.spec_price()@.value()
    }

    /// A buyer pays at least the ask, or takes any price where theirs is zero.
    open spec fn spec_fill_possible(&self, price: Amount) -> bool {
        self.spec_price()@.value() <= price.value() || price.magnitude == 0
    }

    proof fn compared_by_rank() {
    }

    proof fn made_from_price() {
    }

    fn fill_possible(&self, price: Decimal) -> (result: bool) {
        self.price <= price || price.is_zero()
    }

    fn price(&self) -> (result: Decimal) {
        self.price
    }
}

/// A price at which someone buys: the highest comes first.
#[derive(Clone, Copy, Debug)]
pub struct BidPrice {
    price: Decimal,
}

impl PartialEqSpecImpl for BidPrice {
    open spec fn obeys_eq_spec() -> bool {
        true
    }

    open spec fn eq_spec(&self, other: &BidPrice) -> bool {
        self.rank() == other.rank()
    }
}

impl PartialEq for BidPrice {
    fn eq(&self, other: &BidPrice) -> (result: bool) {
        self.price == other.price
    }
}

impl Eq for BidPrice {

}

impl PartialOrdSpecImpl for BidPrice {
    open spec fn obeys_partial_cmp_spec() -> bool {
        true
    }

    open spec fn partial_cmp_spec(&self, other: &BidPrice) -> Option<Ordering> {
        Some(ordering(self.rank(), other.rank()))
    }
}

impl PartialOrd for BidPrice {
    fn partial_cmp(&self, other: &BidPrice) -> (result: Option<Ordering>) {
        other.price.partial_cmp(&self.price)
    }
}

impl FromSpecImpl<Decimal> for BidPrice {
    open spec fn obeys_from_spec() -> bool {
        true
    }

    closed spec fn from_spec(price: Decimal) -> BidPrice {
        BidPrice { price }
    }
}

impl From<Decimal> for BidPrice {
    fn from(price: Decimal) -> (result: BidPrice) {
        BidPrice { price }
    }
}

impl PriceKey for BidPrice {
    closed spec fn spec_price(&self) -> Decimal {
        self.price
    }

    open spec fn rank(&self) -> int {
        -self.spec_price()@.value()
    }

    /// A seller takes at most the bid, or any price where theirs is zero.
    open spec fn spec_fill_possible(&self, price: Amount) -> bool {
        self.spec_price()@.value() >= price.value() || price.magnitude == 0
    }

    proof fn compared_by_rank() {
    }

    proof fn made_from_price() {
    }

    fn fill_possible(&self, price: Decimal) -> (result: bool) {
        self.price >= price || price.is_zero()
    }

    fn price(&self) -> (result: Decimal) {
        self.price
    }
}

/// Of two asks the one that asks for less comes first; asks for the same price are equal.
pub proof fn the_lower_ask_comes_first(a: AskPrice, b: AskPrice)
    ensures
        PartialEqSpec::eq_spec(&a, &b) <==> a.spec_price()@.value() == b.spec_price()@.value(),
        PartialOrdSpec::partial_cmp_spec(&a, &b) == Some(Ordering::Less)
            <==> a.spec_price()@.value() < b.spec_price()@.value(),
        PartialOrdSpec::partial_cmp_spec(&a, &b) == Some(Ordering::Equal)
            <==> a.spec_price()@.value() == b.spec_price()@.value(),
        PartialOrdSpec::partial_cmp_spec(&a, &b) == Some(Ordering::Greater)
            <==> a.spec_price()@.value() > b.spec_price()@.value(),
{
}

/// Of two bids the one that offers more comes first; bids of the same price are equal.
pub proof fn the_higher_bid_comes_first(a: BidPrice, b: BidPrice)
    ensures
        PartialEqSpec::eq_spec(&a, &b) <==> a.spec_price()@.value() == b.spec_price()@.value(),
        PartialOrdSpec::partial_cmp_spec(&a, &b) == Some(Ordering::Less)
            <==> a.spec_price()@.value() > b.spec_price()@.value(),
        PartialOrdSpec::partial_cmp_spec(&a, &b) == Some(Ordering::Equal)
            <==> a.spec_price()@.value() == b.spec_price()@.value(),
        PartialOrdSpec::partial_cmp_spec(&a, &b) == Some(Ordering::Greater)
            <==> a.spec_price()@.value() < b.spec_price()@.value(),
{
}

} // verus!
