//! An order book: orders waiting at their prices, the best price first on each side.

pub mod order_book_side;
pub mod price_key;

use order_book_side::OrderBookSide;
use price_key::{AskPrice, BidPrice};
use vstd::prelude::*;

verus! {

/// The two sides of a book.
#[derive(Debug)]
pub struct OrderBook {
    bid: OrderBookSide<BidPrice>,
    ask: OrderBookSide<AskPrice>,
}

impl OrderBook {
    /// The side of those who buy.
    pub closed spec fn bids(&self) -> OrderBookSide<BidPrice> {
        self.bid
    }

    /// The side of those who sell.
    pub closed spec fn asks(&self) -> OrderBookSide<AskPrice> {
        self.ask
    }

    pub fn new(bid: OrderBookSide<BidPrice>, ask: OrderBookSide<AskPrice>) -> (book: OrderBook)
        ensures
            book.bids() == bid,
            book.asks() == ask,
    {
        OrderBook { bid, ask }
    }
}

} // verus!
