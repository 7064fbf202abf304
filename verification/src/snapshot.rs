//! What an account holds and what happens to it, as the exchange reports them.

use crate::decimal::Decimal;
use crate::names::{
    AssetNameExchange, ExchangeId, InstrumentNameExchange, OrderId, StrategyId, TradeId,
};
use crate::order::{Order, OrderState, Side};
use crate::time::Timestamp;
use vstd::prelude::*;
use vstd::std_specs::convert::FromSpecImpl;

verus! {

/// How much of an asset an account holds, and how much of that is not bound by orders.
#[derive(Clone, Copy, Debug, PartialEq, Eq)]
pub struct Balance {
    pub total: Decimal,
    pub free: Decimal,
}

/// The balance of one asset at a time.
#[derive(Debug, PartialEq, Eq)]
pub struct AssetBalance {
    pub asset: AssetNameExchange,
    pub balance: Balance,
    pub time_exchange: Timestamp,
}

impl Clone for AssetBalance {
    fn clone(&self) -> (result: AssetBalance)
        ensures
            result == *self,
    {
        AssetBalance {
            asset: self.asset.clone(),
            balance: self.balance,
            time_exchange: self.time_exchange,
        }
    }
}

/// The state of a thing as a whole, in place of what was known of it.
#[derive(Debug, PartialEq, Eq)]
pub struct Snapshot<T>(pub T);

/// The asset that an instrument is priced in.
#[derive(Clone, Copy, Debug, PartialEq, Eq)]
pub struct QuoteAsset;

/// Fees paid in the quote asset.
#[derive(Clone, Copy, Debug, PartialEq, Eq)]
pub struct AssetFees {
    pub asset: QuoteAsset,
    pub fees: Decimal,
}

impl AssetFees {
    pub fn quote_fees(fees: Decimal) -> (result: AssetFees)
        ensures
            result.fees == fees,
    {
        AssetFees { asset: QuoteAsset, fees }
    }
}

/// A fill of an order.
#[derive(Debug, PartialEq, Eq)]
pub struct Trade {
    pub id: TradeId,
    pub order_id: OrderId,
    pub instrument: InstrumentNameExchange,
    pub strategy: StrategyId,
    pub time_exchange: Timestamp,
    pub side: Side,
    pub price: Decimal,
    pub quantity: Decimal,
    pub fees: AssetFees,
}

impl Clone for Trade {
    fn clone(&self) -> (result: Trade)
        ensures
            result == *self,
    {
        Trade {
            id: self.id.clone(),
            order_id: self.order_id.clone(),
            instrument: self.instrument.clone(),
            strategy: self.strategy.clone(),
            time_exchange: self.time_exchange,
            side: self.side,
            price: self.price,
            quantity: self.quantity,
            fees: self.fees,
        }
    }
}

/// The orders of an account in one instrument.
#[derive(Debug, PartialEq, Eq)]
pub struct InstrumentAccountSnapshot {
    pub instrument: InstrumentNameExchange,
    pub orders: Vec<Order<OrderState>>,
}

/// All that an account holds.
#[derive(Debug, PartialEq, Eq)]
pub struct AccountSnapshot {
    pub exchange: ExchangeId,
    pub balances: Vec<AssetBalance>,
    pub instruments: Vec<InstrumentAccountSnapshot>,
}

/// The orders of several instruments, one instrument after the other.
pub open spec fn all_orders(instruments: Seq<InstrumentAccountSnapshot>) -> Seq<Order<OrderState>>
    decreases instruments.len(),
{
    if instruments.len() == 0 {
        seq![]
    } else {
        all_orders(instruments.drop_last()) + instruments.last().orders@
    }
}

/// What happened to an account.
#[derive(Debug, PartialEq, Eq)]
pub enum AccountEventKind {
    BalanceSnapshot(Snapshot<AssetBalance>),
    Trade(Trade),
}

impl Clone for AccountEventKind {
    fn clone(&self) -> (result: AccountEventKind)
        ensures
            result == *self,
    {
        match self {
            AccountEventKind::BalanceSnapshot(Snapshot(balance)) => {
                AccountEventKind::BalanceSnapshot(Snapshot(balance.clone()))
            },
            AccountEventKind::Trade(trade) => AccountEventKind::Trade(trade.clone()),
        }
    }
}

impl FromSpecImpl<Snapshot<AssetBalance>> for AccountEventKind {
    open spec fn obeys_from_spec() -> bool {
        true
    }

    open spec fn from_spec(balance: Snapshot<AssetBalance>) -> AccountEventKind {
        AccountEventKind::BalanceSnapshot(balance)
    }
}

impl From<Snapshot<AssetBalance>> for AccountEventKind {
    fn from(balance: Snapshot<AssetBalance>) -> (kind: AccountEventKind) {
        AccountEventKind::BalanceSnapshot(balance)
    }
}

impl FromSpecImpl<Trade> for AccountEventKind {
    open spec fn obeys_from_spec() -> bool {
        true
    }

    open spec fn from_spec(trade: Trade) -> AccountEventKind {
        AccountEventKind::Trade(trade)
    }
}

impl From<Trade> for AccountEventKind {
    fn from(trade: Trade) -> (kind: AccountEventKind) {
        AccountEventKind::Trade(trade)
    }
}

/// Something that happened to an account on an exchange.
#[derive(Debug, PartialEq, Eq)]
pub struct AccountEvent {
    pub exchange: ExchangeId,
    pub kind: AccountEventKind,
}

impl Clone for AccountEvent {
    fn clone(&self) -> (result: AccountEvent)
        ensures
            result == *self,
    {
        AccountEvent { exchange: self.exchange, kind: self.kind.clone() }
    }
}

/// The orders of all instruments are those of the first, then those of the second, and so on: those
/// of the instrument at `at` stand together, behind all orders of the instruments before it.
pub proof fn orders_stand_together_by_instrument(
    instruments: Seq<InstrumentAccountSnapshot>,
    at: int,
)
    requires
        0 <= at < instruments.len(),
    ensures
        all_orders(Seq::<InstrumentAccountSnapshot>::empty()).len() == 0,
        all_orders(instruments.take(at + 1)).len() == all_orders(instruments.take(at)).len()
            + instruments[at].orders@.len(),
        all_orders(instruments.take(at + 1)).len() <= all_orders(instruments).len(),
        forall|j: int|
            0 <= j < instruments[at].orders@.len() ==> all_orders(instruments)[all_orders(
                instruments.take(at),
            ).len() + j] == #[trigger] instruments[at].orders@[j],
    decreases instruments.len(),
{
    let rest = instruments.drop_last();
    assert(instruments.take(at + 1).drop_last() =~= instruments.take(at));
    if at < rest.len() {
        orders_stand_together_by_instrument(rest, at);
        assert(rest.take(at) =~= instruments.take(at));
        assert(rest.take(at + 1) =~= instruments.take(at + 1));
    } else {
        assert(rest =~= instruments.take(at));
        assert(instruments =~= instruments.take(at + 1));
    }
}

/// Every one of all orders stands among those of some instrument.
pub proof fn every_order_stands_by_an_instrument(
    instruments: Seq<InstrumentAccountSnapshot>,
    place: int,
) -> (found: (int, int))
    requires
        0 <= place < all_orders(instruments).len(),
    ensures
        0 <= found.0 < instruments.len(),
        0 <= found.1 < instruments[found.0].orders@.len(),
        instruments[found.0].orders@[found.1] == all_orders(instruments)[place],
    decreases instruments.len(),
{
    let rest = instruments.drop_last();
    let before = all_orders(rest).len();
    if place < before {
        every_order_stands_by_an_instrument(rest, place)
    } else {
        (instruments.len() - 1, place - before)
    }
}

} // verus!
