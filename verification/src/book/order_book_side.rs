//! One side of a book: a queue of orders at each price, the best price first.

use super::price_key::{AskPrice, BidPrice, PriceKey};
use crate::decimal::{sign_of_the_value, zero_has_no_value, Amount, Decimal};
use crate::order::{Open, Order};
use std::collections::VecDeque;
use vstd::prelude::*;
use vstd::std_specs::convert::FromSpec;

verus! {

/// What a [`PriceLevel`] stands for: a key, and the orders at its price in the order of arrival.
#[verifier::ext_equal]
pub struct Level<T> {
    pub key: T,
    pub orders: Seq<Order<Open>>,
}

/// The levels of a side, each before those of a higher rank.
pub open spec fn in_order<T: PriceKey>(levels: Seq<Level<T>>) -> bool {
    forall|i: int, j: int|
        0 <= i < j < levels.len() ==> (#[trigger] levels[i]).key.rank() < (#[trigger] levels[j]).key.rank()
}

/// The number of levels that come before a rank.
pub open spec fn place<T: PriceKey>(levels: Seq<Level<T>>, rank: int) -> int
    decreases levels.len(),
{
    if levels.len() == 0 || levels[0].key.rank() >= rank {
        0
    } else {
        1 + place(levels.drop_first(), rank)
    }
}

/// Whether a level has the rank.
pub open spec fn has_level<T: PriceKey>(levels: Seq<Level<T>>, rank: int) -> bool {
    let place = place(levels, rank);
    place < levels.len() && levels[place].key.rank() == rank
}

/// The orders that wait at a rank, in the order of arrival.
pub open spec fn queue<T: PriceKey>(levels: Seq<Level<T>>, rank: int) -> Seq<Order<Open>> {
    if has_level(levels, rank) {
        levels[place(levels, rank)].orders
    } else {
        seq![]
    }
}

/// The levels after `order` has joined the end of the queue at the rank of `key`; a level that
/// is there keeps its key.
pub open spec fn with_order<T: PriceKey>(
    levels: Seq<Level<T>>,
    key: T,
    order: Order<Open>,
) -> Seq<Level<T>> {
    let place = place(levels, key.rank());
    if has_level(levels, key.rank()) {
        levels.update(
            place,
            Level { key: levels[place].key, orders: levels[place].orders.push(order) },
        )
    } else {
        levels.insert(place, Level { key, orders: seq![order] })
    }
}

proof fn place_splits_the_levels<T: PriceKey>(levels: Seq<Level<T>>, rank: int)
    ensures
        0 <= place(levels, rank) <= levels.len(),
        forall|i: int|
            0 <= i < place(levels, rank) ==> (#[trigger] levels[i]).key.rank() < rank,
        place(levels, rank) < levels.len() ==> levels[place(levels, rank)].key.rank() >= rank,
    decreases levels.len(),
{
    if levels.len() > 0 && levels[0].key.rank() < rank {
        let rest = levels.drop_first();
        place_splits_the_levels(rest, rank);
        assert forall|i: int| 0 <= i < place(levels, rank) implies (
        #[trigger] levels[i]).key.rank() < rank by {
            if i > 0 {
                assert(levels[i] == rest[i - 1]);
            }
        }
    }
}

proof fn place_is_where_the_levels_split<T: PriceKey>(levels: Seq<Level<T>>, rank: int, at: int)
    requires
        0 <= at <= levels.len(),
        forall|i: int| 0 <= i < at ==> (#[trigger] levels[i]).key.rank() < rank,
        at < levels.len() ==> levels[at].key.rank() >= rank,
    ensures
        place(levels, rank) == at,
{
    place_splits_the_levels(levels, rank);
    let place = place(levels, rank);
    if place < at {
        assert(levels[place].key.rank() < rank);
    }
    if at < place {
        assert(levels[at].key.rank() < rank);
    }
}

/// Whether a key comes before another one of its side.
fn comes_first<T: PriceKey>(key: &T, other: &T) -> (result: bool)
    ensures
        result == (key.rank() < other.rank()),
{
    proof {
        T::compared_by_rank();
    }
    *key < *other
}

/// The orders that wait at one price.
#[derive(Debug)]
pub struct PriceLevel<T> {
    pub key: T,
    pub orders: VecDeque<Order<Open>>,
}

impl<T> View for PriceLevel<T> {
    type V = Level<T>;

    open spec fn view(&self) -> Level<T> {
        Level { key: self.key, orders: self.orders@ }
    }
}

/// The price levels of one side, the best price first.
#[derive(Debug)]
pub struct PriceLevels<T> {
    levels: Vec<PriceLevel<T>>,
}

impl<T> View for PriceLevels<T> {
    type V = Seq<Level<T>>;

    closed spec fn view(&self) -> Seq<Level<T>> {
        self.levels@.map_values(|level: PriceLevel<T>| level@)
    }
}

impl<T: PriceKey> PriceLevels<T> {
    /// No two levels have the same rank, and each comes before those of a higher rank.
    pub open spec fn wf(&self) -> bool {
        in_order(self@)
    }

    pub fn new() -> (levels: PriceLevels<T>)
        ensures
            levels.wf(),
            levels@ == Seq::<Level<T>>::empty(),
    {
        let levels = PriceLevels { levels: Vec::new() };
        assert(levels@ =~= Seq::<Level<T>>::empty());
        levels
    }

    pub fn len(&self) -> (len: usize)
        ensures
            len == self@.len(),
    {
        self.levels.len()
    }

    /// The level at a place, where the best price is at zero.
    pub fn level(&self, at: usize) -> (level: Option<&PriceLevel<T>>)
        ensures
            level is Some <==> at < self@.len(),
            level matches Some(level) ==> level@ == self@[at as int],
    {
        if at < self.levels.len() {
            Some(&self.levels[at])
        } else {
            None
        }
    }

    /// Puts an order at the end of the queue at a price.
    pub fn push_back(&mut self, key: T, order: Order<Open>)
        requires
            old(self).wf(),
        ensures
            final(self).wf(),
            final(self)@ == with_order(old(self)@, key, order),
    {
        let ghost before = self@;
        let mut at: usize = 0;
        while at < self.levels.len() && comes_first(&self.levels[at].key, &key)
            invariant
                *self == *old(self),
                self@ == before,
                at <= self.levels.len(),
                forall|i: int| 0 <= i < at ==> (#[trigger] before[i]).key.rank() < key.rank(),
            decreases self.levels.len() - at,
        {
            assert(before[at as int] == self.levels[at as int]@);
            at = at + 1;
        }
        assert(at < self.levels.len() ==> before[at as int] == self.levels[at as int]@);
        proof {
            place_is_where_the_levels_split(before, key.rank(), at as int);
        }
        if at < self.levels.len() && !comes_first(&key, &self.levels[at].key) {
            self.levels[at].orders.push_back(order);
        } else {
            let mut orders: VecDeque<Order<Open>> = VecDeque::new();
            orders.push_back(order);
            self.levels.insert(at, PriceLevel { key, orders });
        }
        assert(self@ =~= with_order(before, key, order));
    }
}

/// One side of a book.
#[derive(Debug)]
pub struct OrderBookSide<T> where T: PriceKey + From<Decimal> {
    pub levels: PriceLevels<T>,
}

impl<T: PriceKey + From<Decimal>> OrderBookSide<T> {
    pub open spec fn wf(&self) -> bool {
        self.levels.wf()
    }

    pub fn new(levels: PriceLevels<T>) -> (side: OrderBookSide<T>)
        ensures
            side.levels == levels,
    {
        OrderBookSide { levels }
    }

    /// Puts a copy of the order at the end of the queue at its price.
    pub fn insert_order(&mut self, order: &Order<Open>)
        requires
            old(self).wf(),
        ensures
            final(self).wf(),
            final(self).levels@ == with_order(old(self).levels@, T::from_spec(order.price), *order),
    {
        proof {
            T::made_from_price();
        }
        let key = T::from(order.price);
        self.levels.push_back(key, order.clone());
    }

    /// Whether the best level of the side can fill the order; a side without levels fills none.
    pub fn is_order_fillable(&mut self, order: &Order<Open>) -> (result: bool)
        ensures
            *final(self) == *old(self),
            result == fillable(old(self).levels@, order.price@),
    {
        match self.levels.level(0) {
            Some(best) => best.key.fill_possible(order.price),
            None => false,
        }
    }
}

/// Whether an order at `price` can be filled from the first of the levels.
pub open spec fn fillable<T: PriceKey>(levels: Seq<Level<T>>, price: Amount) -> bool {
    levels.len() > 0 && levels[0].key.spec_fill_possible(price)
}

/// Whether orders wait at a level, all of them at its price.
pub open spec fn stocked<T: PriceKey>(level: Level<T>) -> bool {
    &&& level.orders.len() > 0
    &&& forall|i: int|
        0 <= i < level.orders.len() ==> (#[trigger] level.orders[i]).price@.value()
            == level.key.spec_price()@.value()
}

/// Whether every level is stocked.
pub open spec fn all_stocked<T: PriceKey>(levels: Seq<Level<T>>) -> bool {
    forall|i: int| 0 <= i < levels.len() ==> stocked(#[trigger] levels[i])
}

/// The number of orders on a side.
pub open spec fn order_count<T>(levels: Seq<Level<T>>) -> nat
    decreases levels.len(),
{
    if levels.len() == 0 {
        0
    } else {
        levels[0].orders.len() + order_count(levels.drop_first())
    }
}

/// Time priority: an order joins the end of the queue at its price, and every other queue stays
/// as it is.
pub proof fn an_order_joins_its_queue<T: PriceKey>(
    levels: Seq<Level<T>>,
    key: T,
    order: Order<Open>,
    rank: int,
)
    requires
        in_order(levels),
    ensures
        queue(with_order(levels, key, order), rank) == if rank == key.rank() {
            queue(levels, rank).push(order)
        } else {
            queue(levels, rank)
        },
{
    let after = with_order(levels, key, order);
    let at = place(levels, key.rank());
    let before = place(levels, rank);
    place_splits_the_levels(levels, key.rank());
    place_splits_the_levels(levels, rank);
    if has_level(levels, key.rank()) {
        place_is_where_the_levels_split(after, rank, before);
    } else {
        let place = if rank <= key.rank() {
            before
        } else {
            before + 1
        };
        assert forall|i: int| 0 <= i < place implies (#[trigger] after[i]).key.rank() < rank by {
            if i > at {
                assert(after[i] == levels[i - 1]);
            } else if i < at {
                assert(after[i] == levels[i]);
            }
        }
        place_is_where_the_levels_split(after, rank, place);
    }
}

/// Inserting adds one order and takes none away.
pub proof fn inserting_adds_one_order<T: PriceKey>(
    levels: Seq<Level<T>>,
    key: T,
    order: Order<Open>,
)
    requires
        in_order(levels),
    ensures
        order_count(with_order(levels, key, order)) == order_count(levels) + 1,
    decreases levels.len(),
{
    let after = with_order(levels, key, order);
    place_splits_the_levels(levels, key.rank());
    if levels.len() > 0 && levels[0].key.rank() < key.rank() {
        let rest = levels.drop_first();
        assert forall|i: int, j: int| 0 <= i < j < rest.len() implies (
        #[trigger] rest[i]).key.rank() < (#[trigger] rest[j]).key.rank() by {
            assert(rest[i] == levels[i + 1] && rest[j] == levels[j + 1]);
        }
        inserting_adds_one_order(rest, key, order);
        place_splits_the_levels(rest, key.rank());
        assert(after.drop_first() =~= with_order(rest, key, order));
    } else if has_level(levels, key.rank()) {
        assert(after.drop_first() =~= levels.drop_first());
    } else {
        assert(after.drop_first() =~= levels);
    }
}

/// Where the first level is after an order has been inserted: at the key of the order, or at the
/// rank that it had, whichever comes first.
proof fn the_first_rank_after_inserting<T: PriceKey>(
    levels: Seq<Level<T>>,
    key: T,
    order: Order<Open>,
)
    requires
        in_order(levels),
    ensures
        with_order(levels, key, order).len() > 0,
        with_order(levels, key, order)[0].key.rank() == if levels.len() == 0 || key.rank()
            <= levels[0].key.rank() {
            key.rank()
        } else {
            levels[0].key.rank()
        },
{
    place_splits_the_levels(levels, key.rank());
}

/// Levels stay stocked, where keys of the same rank have the same price.
proof fn inserting_keeps_levels_stocked<T: PriceKey>(
    levels: Seq<Level<T>>,
    key: T,
    order: Order<Open>,
)
    requires
        all_stocked(levels),
        key.spec_price() == order.price,
        forall|a: T, b: T|
            (#[trigger] a.rank()) == (#[trigger] b.rank()) ==> a.spec_price()@.value()
                == b.spec_price()@.value(),
    ensures
        all_stocked(with_order(levels, key, order)),
{
    let after = with_order(levels, key, order);
    let place = place(levels, key.rank());
    place_splits_the_levels(levels, key.rank());
    assert forall|i: int| 0 <= i < after.len() implies stocked(#[trigger] after[i]) by {
        if has_level(levels, key.rank()) {
            assert(stocked(levels[i]));
        } else if i < place {
            assert(after[i] == levels[i]);
        } else if i > place {
            assert(after[i] == levels[i - 1]);
        }
    }
}

/// Every level of asks holds orders, all of them at its price: an ask that is inserted at its
/// price keeps that so.
pub proof fn an_ask_waits_at_its_price(
    levels: Seq<Level<AskPrice>>,
    key: AskPrice,
    order: Order<Open>,
)
    requires
        all_stocked(levels),
        key.spec_price() == order.price,
    ensures
        all_stocked(with_order(levels, key, order)),
{
    inserting_keeps_levels_stocked(levels, key, order);
}

/// Every level of bids holds orders, all of them at its price: a bid that is inserted at its
/// price keeps that so.
pub proof fn a_bid_waits_at_its_price(
    levels: Seq<Level<BidPrice>>,
    key: BidPrice,
    order: Order<Open>,
)
    requires
        all_stocked(levels),
        key.spec_price() == order.price,
    ensures
        all_stocked(with_order(levels, key, order)),
{
    inserting_keeps_levels_stocked(levels, key, order);
}

/// Price priority: the first ask is the lowest.
pub proof fn the_lowest_ask_is_first(levels: Seq<Level<AskPrice>>, at: int)
    requires
        in_order(levels),
        0 <= at < levels.len(),
    ensures
        levels[0].key.spec_price()@.value() <= levels[at].key.spec_price()@.value(),
{
}

/// Price priority: the first bid is the highest.
pub proof fn the_highest_bid_is_first(levels: Seq<Level<BidPrice>>, at: int)
    requires
        in_order(levels),
        0 <= at < levels.len(),
    ensures
        levels[0].key.spec_price()@.value() >= levels[at].key.spec_price()@.value(),
{
}

/// The best ask decides: asks fill an order exactly where one of them does.
pub proof fn asks_fill_what_one_of_them_fills(levels: Seq<Level<AskPrice>>, price: Amount)
    requires
        in_order(levels),
    ensures
        fillable(levels, price) <==> exists|i: int|
            0 <= i < levels.len() && (#[trigger] levels[i]).key.spec_fill_possible(price),
{
    if fillable(levels, price) {
        assert(levels[0].key.spec_fill_possible(price));
    }
}

/// The best bid decides: bids fill an order exactly where one of them does.
pub proof fn bids_fill_what_one_of_them_fills(levels: Seq<Level<BidPrice>>, price: Amount)
    requires
        in_order(levels),
    ensures
        fillable(levels, price) <==> exists|i: int|
            0 <= i < levels.len() && (#[trigger] levels[i]).key.spec_fill_possible(price),
{
    if fillable(levels, price) {
        assert(levels[0].key.spec_fill_possible(price));
    }
}

/// Asks with one more order fill what they did, and what that order fills.
pub proof fn an_ask_adds_what_it_fills(
    levels: Seq<Level<AskPrice>>,
    key: AskPrice,
    order: Order<Open>,
    price: Amount,
)
    requires
        in_order(levels),
    ensures
        fillable(with_order(levels, key, order), price) <==> fillable(levels, price)
            || key.spec_fill_possible(price),
{
    the_first_rank_after_inserting(levels, key, order);
}

/// Bids with one more order fill what they did, and what that order fills.
pub proof fn a_bid_adds_what_it_fills(
    levels: Seq<Level<BidPrice>>,
    key: BidPrice,
    order: Order<Open>,
    price: Amount,
)
    requires
        in_order(levels),
    ensures
        fillable(with_order(levels, key, order), price) <==> fillable(levels, price)
            || key.spec_fill_possible(price),
{
    the_first_rank_after_inserting(levels, key, order);
}

/// A side without orders fills none.
pub proof fn an_empty_side_fills_nothing<T: PriceKey>(price: Amount)
    ensures
        !fillable(Seq::<Level<T>>::empty(), price),
{
}

/// An ask can fill a price exactly where it asks for no more than that, or where the price is zero.
pub proof fn an_ask_fills_what_pays_it(key: AskPrice, price: Amount)
    ensures
        key.spec_fill_possible(price) <==> key.spec_price()@.value() <= price.value()
            || price.value() == 0,
{
    sign_of_the_value(price);
    if price.magnitude == 0 {
        zero_has_no_value(price);
    }
}

/// A bid can fill a price exactly where it offers no less than that, or where the price is zero.
pub proof fn a_bid_fills_what_it_pays(key: BidPrice, price: Amount)
    ensures
        key.spec_fill_possible(price) <==> key.spec_price()@.value() >= price.value()
            || price.value() == 0,
{
    sign_of_the_value(price);
    if price.magnitude == 0 {
        zero_has_no_value(price);
    }
}

/// Asks fill an order exactly where there is one and the price is zero, or where one of them asks
/// for no more than the price.
pub proof fn asks_fill_prices_that_pay_one_of_them(levels: Seq<Level<AskPrice>>, price: Amount)
    requires
        in_order(levels),
    ensures
        fillable(levels, price) <==> {
            ||| levels.len() > 0 && price.value() == 0
            ||| exists|i: int|
                0 <= i < levels.len() && (#[trigger] levels[i]).key.spec_price()@.value()
                    <= price.value()
        },
{
    if levels.len() > 0 {
        an_ask_fills_what_pays_it(levels[0].key, price);
    }
}

/// Bids fill an order exactly where there is one and the price is zero, or where one of them offers
/// no less than the price.
pub proof fn bids_fill_prices_that_one_of_them_pays(levels: Seq<Level<BidPrice>>, price: Amount)
    requires
        in_order(levels),
    ensures
        fillable(levels, price) <==> {
            ||| levels.len() > 0 && price.value() == 0
            ||| exists|i: int|
                0 <= i < levels.len() && (#[trigger] levels[i]).key.spec_price()@.value()
                    >= price.value()
        },
{
    if levels.len() > 0 {
        a_bid_fills_what_it_pays(levels[0].key, price);
    }
}

/// A price other than zero that is below every ask is not filled.
pub proof fn a_price_below_every_ask_is_not_filled(levels: Seq<Level<AskPrice>>, price: Amount)
    requires
        price.value() != 0,
        forall|i: int|
            0 <= i < levels.len() ==> price.value() < (
            #[trigger] levels[i]).key.spec_price()@.value(),
    ensures
        !fillable(levels, price),
{
    if levels.len() > 0 {
        an_ask_fills_what_pays_it(levels[0].key, price);
    }
}

/// A price other than zero that is above every bid is not filled.
pub proof fn a_price_above_every_bid_is_not_filled(levels: Seq<Level<BidPrice>>, price: Amount)
    requires
        price.value() != 0,
        forall|i: int|
            0 <= i < levels.len() ==> price.value() > (
            #[trigger] levels[i]).key.spec_price()@.value(),
    ensures
        !fillable(levels, price),
{
    if levels.len() > 0 {
        a_bid_fills_what_it_pays(levels[0].key, price);
    }
}

/// A buyer who pays more is filled where one who pays less is, unless that one takes any price.
pub proof fn paying_more_fills_no_less(
    levels: Seq<Level<AskPrice>>,
    price: Amount,
    higher: Amount,
)
    requires
        price.value() != 0,
        price.value() <= higher.value(),
        fillable(levels, price),
    ensures
        fillable(levels, higher),
{
    an_ask_fills_what_pays_it(levels[0].key, price);
    an_ask_fills_what_pays_it(levels[0].key, higher);
}

/// A seller who takes less is filled where one who takes more is, unless that one takes any price.
pub proof fn taking_less_fills_no_less(levels: Seq<Level<BidPrice>>, price: Amount, lower: Amount)
    requires
        price.value() != 0,
        price.value() >= lower.value(),
        fillable(levels, price),
    ensures
        fillable(levels, lower),
{
    a_bid_fills_what_it_pays(levels[0].key, price);
    a_bid_fills_what_it_pays(levels[0].key, lower);
}

/// Where an order goes, by rank: to the end of the one queue of its rank, or to a new level between
/// those of lower and of higher ranks.
proof fn where_an_order_goes<T: PriceKey>(levels: Seq<Level<T>>, key: T, order: Order<Open>) -> (at: int)
    requires
        in_order(levels),
    ensures
        ({
            let after = with_order(levels, key, order);
            &&& in_order(after)
            &&& 0 <= at < after.len()
            &&& if at < levels.len() && levels[at].key.rank() == key.rank() {
                &&& after.len() == levels.len()
                &&& after[at].key == levels[at].key
                &&& after[at].orders == levels[at].orders.push(order)
                &&& forall|i: int|
                    0 <= i < levels.len() && i != at ==> #[trigger] after[i] == levels[i]
            } else {
                &&& forall|i: int|
                    0 <= i < levels.len() ==> (#[trigger] levels[i]).key.rank() != key.rank()
                &&& after.len() == levels.len() + 1
                &&& after[at].key == key
                &&& after[at].orders == seq![order]
                &&& forall|i: int| 0 <= i < at ==> #[trigger] after[i] == levels[i]
                &&& forall|i: int| at < i < after.len() ==> #[trigger] after[i] == levels[i - 1]
            }
        }),
{
    place_splits_the_levels(levels, key.rank());
    let at = place(levels, key.rank());
    if !has_level(levels, key.rank()) {
        assert forall|i: int| 0 <= i < levels.len() implies (#[trigger] levels[i]).key.rank()
            != key.rank() by {
            if i > at {
                assert(levels[at].key.rank() < levels[i].key.rank());
            }
        }
    }
    at
}

/// Asks are in order exactly where each asks for less than those behind it.
pub proof fn asks_ascend(levels: Seq<Level<AskPrice>>)
    ensures
        in_order(levels) <==> forall|i: int, j: int|
            0 <= i < j < levels.len() ==> (#[trigger] levels[i]).key.spec_price()@.value() < (
            #[trigger] levels[j]).key.spec_price()@.value(),
{
    if in_order(levels) {
        assert forall|i: int, j: int| 0 <= i < j < levels.len() implies (
        #[trigger] levels[i]).key.spec_price()@.value() < (
        #[trigger] levels[j]).key.spec_price()@.value() by {
            assert(levels[i].key.rank() < levels[j].key.rank());
        }
    }
}

/// Bids are in order exactly where each offers more than those behind it.
pub proof fn bids_descend(levels: Seq<Level<BidPrice>>)
    ensures
        in_order(levels) <==> forall|i: int, j: int|
            0 <= i < j < levels.len() ==> (#[trigger] levels[i]).key.spec_price()@.value() > (
            #[trigger] levels[j]).key.spec_price()@.value(),
{
    if in_order(levels) {
        assert forall|i: int, j: int| 0 <= i < j < levels.len() implies (
        #[trigger] levels[i]).key.spec_price()@.value() > (
        #[trigger] levels[j]).key.spec_price()@.value() by {
            assert(levels[i].key.rank() < levels[j].key.rank());
        }
    }
}

/// An ask joins the end of the queue at its price, where one asks for that price; elsewhere it is
/// the first at a level of its own. Nothing else changes, and the asks still ascend.
pub proof fn an_ask_goes_to_its_price(
    levels: Seq<Level<AskPrice>>,
    key: AskPrice,
    order: Order<Open>,
) -> (at: int)
    requires
        in_order(levels),
    ensures
        ({
            let after = with_order(levels, key, order);
            let price = key.spec_price()@.value();
            &&& in_order(after)
            &&& 0 <= at < after.len()
            &&& after[at].key.spec_price()@.value() == price
            &&& after[at].orders.last() == order
            &&& if exists|i: int|
                0 <= i < levels.len() && (#[trigger] levels[i]).key.spec_price()@.value() == price {
                &&& after.len() == levels.len()
                &&& after[at].key == levels[at].key
                &&& after[at].orders == levels[at].orders.push(order)
                &&& forall|i: int|
                    0 <= i < levels.len() && i != at ==> #[trigger] after[i] == levels[i]
            } else {
                &&& after.len() == levels.len() + 1
                &&& after[at].key == key
                &&& after[at].orders.len() == 1
                &&& forall|i: int| 0 <= i < at ==> #[trigger] after[i] == levels[i]
                &&& forall|i: int| at < i < after.len() ==> #[trigger] after[i] == levels[i - 1]
            }
        }),
{
    let at = where_an_order_goes(levels, key, order);
    if at < levels.len() && levels[at].key.rank() == key.rank() {
        assert(levels[at].key.spec_price()@.value() == key.spec_price()@.value());
    } else {
        assert(forall|i: int|
            0 <= i < levels.len() ==> (#[trigger] levels[i]).key.rank() != key.rank());
    }
    at
}

/// A bid joins the end of the queue at its price, where one offers that price; elsewhere it is the
/// first at a level of its own. Nothing else changes, and the bids still descend.
pub proof fn a_bid_goes_to_its_price(
    levels: Seq<Level<BidPrice>>,
    key: BidPrice,
    order: Order<Open>,
) -> (at: int)
    requires
        in_order(levels),
    ensures
        ({
            let after = with_order(levels, key, order);
            let price = key.spec_price()@.value();
            &&& in_order(after)
            &&& 0 <= at < after.len()
            &&& after[at].key.spec_price()@.value() == price
            &&& after[at].orders.last() == order
            &&& if exists|i: int|
                0 <= i < levels.len() && (#[trigger] levels[i]).key.spec_price()@.value() == price {
                &&& after.len() == levels.len()
                &&& after[at].key == levels[at].key
                &&& after[at].orders == levels[at].orders.push(order)
                &&& forall|i: int|
                    0 <= i < levels.len() && i != at ==> #[trigger] after[i] == levels[i]
            } else {
                &&& after.len() == levels.len() + 1
                &&& after[at].key == key
                &&& after[at].orders.len() == 1
                &&& forall|i: int| 0 <= i < at ==> #[trigger] after[i] == levels[i]
                &&& forall|i: int| at < i < after.len() ==> #[trigger] after[i] == levels[i - 1]
            }
        }),
{
    let at = where_an_order_goes(levels, key, order);
    if at < levels.len() && levels[at].key.rank() == key.rank() {
        assert(levels[at].key.spec_price()@.value() == key.spec_price()@.value());
    } else {
        assert(forall|i: int|
            0 <= i < levels.len() ==> (#[trigger] levels[i]).key.rank() != key.rank());
    }
    at
}

/// A level shows the key and the orders that it holds.
pub proof fn a_level_shows_what_it_holds<T>(level: PriceLevel<T>)
    ensures
        level@.key == level.key,
        level@.orders == level.orders@,
{
}

} // verus!
