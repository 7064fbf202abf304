//! Orders, and the requests that lead to them.

use crate::decimal::Decimal;
use crate::error::OrderError;
use crate::names::{ClientOrderId, ExchangeId, InstrumentNameExchange, OrderId, StrategyId};
use crate::time::Timestamp;
use vstd::prelude::*;
use vstd::std_specs::convert::FromSpecImpl;

verus! {

#[derive(Clone, Copy, Debug, PartialEq, Eq, Structural)]
pub enum Side {
    Buy,
    Sell,
}

#[derive(Clone, Copy, Debug, PartialEq, Eq, Structural)]
pub enum OrderKind {
    Market,
    Limit,
}

impl OrderKind {
    /// The kind in words.
    pub open spec fn words(self) -> Seq<char> {
        match self {
            OrderKind::Market => "market"@,
            OrderKind::Limit => "limit"@,
        }
    }

    /// The kind in words.
    pub fn name(self) -> (name: &'static str)
        ensures
            name@ == self.words(),
    {
        match self {
            OrderKind::Market => "market",
            OrderKind::Limit => "limit",
        }
    }
}

/// How long an order stays open.
#[derive(Clone, Copy, Debug, PartialEq, Eq, Structural)]
pub enum TimeInForce {
    GoodUntilCancelled { post_only: bool },
    GoodUntilEndOfDay,
    FillOrKill,
    ImmediateOrCancel,
}

/// What identifies an order from the client's side.
#[derive(Debug, PartialEq, Eq)]
pub struct OrderKey {
    pub exchange: ExchangeId,
    pub instrument: InstrumentNameExchange,
    pub strategy: StrategyId,
    pub cid: ClientOrderId,
}

impl Clone for OrderKey {
    fn clone(&self) -> (result: OrderKey)
        ensures
            result == *self,
    {
        OrderKey {
            exchange: self.exchange,
            instrument: self.instrument.clone(),
            strategy: self.strategy.clone(),
            cid: self.cid.clone(),
        }
    }
}

/// An order, in a state of its own type.
#[derive(Debug, PartialEq, Eq)]
pub struct Order<State> {
    pub key: OrderKey,
    pub side: Side,
    pub price: Decimal,
    pub quantity: Decimal,
    pub kind: OrderKind,
    pub time_in_force: TimeInForce,
    pub state: State,
}

impl<State> Order<State> {
    /// The same order in another state.
    pub open spec fn in_state<Other>(self, state: Other) -> Order<Other> {
        Order {
            key: self.key,
            side: self.side,
            price: self.price,
            quantity: self.quantity,
            kind: self.kind,
            time_in_force: self.time_in_force,
            state,
        }
    }
}

impl<State: Clone> Clone for Order<State> {
    fn clone(&self) -> (result: Order<State>)
        ensures
            result == self.in_state(result.state),
            cloned::<State>(self.state, result.state),
    {
        Order {
            key: self.key.clone(),
            side: self.side,
            price: self.price,
            quantity: self.quantity,
            kind: self.kind,
            time_in_force: self.time_in_force,
            state: self.state.clone(),
        }
    }
}

/// The state of an order that the exchange has taken.
#[derive(Debug, PartialEq, Eq)]
pub struct Open {
    pub id: OrderId,
    pub time_exchange: Timestamp,
    pub filled_quantity: Decimal,
}

impl Clone for Open {
    fn clone(&self) -> (result: Open)
        ensures
            result == *self,
    {
        Open {
            id: self.id.clone(),
            time_exchange: self.time_exchange,
            filled_quantity: self.filled_quantity,
        }
    }
}

/// The state of an order that was cancelled.
#[derive(Debug, PartialEq, Eq)]
pub struct Cancelled {
    pub id: OrderId,
    pub time_exchange: Timestamp,
}

impl Clone for Cancelled {
    fn clone(&self) -> (result: Cancelled)
        ensures
            result == *self,
    {
        Cancelled { id: self.id.clone(), time_exchange: self.time_exchange }
    }
}

/// The state of an order that can still be filled.
#[derive(Debug, PartialEq, Eq)]
pub enum ActiveOrderState {
    OpenInFlight,
    Open(Open),
    CancelInFlight,
}

/// The state of an order that is done with.
#[derive(Debug, PartialEq, Eq)]
pub enum InactiveOrderState {
    Cancelled(Cancelled),
    FullyFilled,
    OpenFailed(OrderError),
    Expired,
}

/// Any state of an order.
#[derive(Debug, PartialEq, Eq)]
pub enum OrderState {
    Active(ActiveOrderState),
    Inactive(InactiveOrderState),
}

impl OrderState {
    pub open spec fn open(state: Open) -> OrderState {
        OrderState::Active(ActiveOrderState::Open(state))
    }

    pub open spec fn cancelled(state: Cancelled) -> OrderState {
        OrderState::Inactive(InactiveOrderState::Cancelled(state))
    }
}

impl FromSpecImpl<Order<Open>> for Order<OrderState> {
    open spec fn obeys_from_spec() -> bool {
        true
    }

    open spec fn from_spec(order: Order<Open>) -> Order<OrderState> {
        order.in_state(OrderState::open(order.state))
    }
}

impl From<Order<Open>> for Order<OrderState> {
    fn from(order: Order<Open>) -> (result: Order<OrderState>) {
        Order {
            key: order.key,
            side: order.side,
            price: order.price,
            quantity: order.quantity,
            kind: order.kind,
            time_in_force: order.time_in_force,
            state: OrderState::Active(ActiveOrderState::Open(order.state)),
        }
    }
}

impl FromSpecImpl<Order<Cancelled>> for Order<OrderState> {
    open spec fn obeys_from_spec() -> bool {
        true
    }

    open spec fn from_spec(order: Order<Cancelled>) -> Order<OrderState> {
        order.in_state(OrderState::cancelled(order.state))
    }
}

impl From<Order<Cancelled>> for Order<OrderState> {
    fn from(order: Order<Cancelled>) -> (result: Order<OrderState>) {
        Order {
            key: order.key,
            side: order.side,
            price: order.price,
            quantity: order.quantity,
            kind: order.kind,
            time_in_force: order.time_in_force,
            state: OrderState::Inactive(InactiveOrderState::Cancelled(order.state)),
        }
    }
}

/// The order that a client wants to open.
#[derive(Clone, Copy, Debug, PartialEq, Eq)]
pub struct RequestOpen {
    pub side: Side,
    pub price: Decimal,
    pub quantity: Decimal,
    pub kind: OrderKind,
    pub time_in_force: TimeInForce,
}

/// A request to open an order.
#[derive(Debug, PartialEq, Eq)]
pub struct OrderRequestOpen {
    pub key: OrderKey,
    pub state: RequestOpen,
}

impl OrderRequestOpen {
    /// The order of the request, in a given state.
    pub open spec fn order<State>(self, state: State) -> Order<State> {
        Order {
            key: self.key,
            side: self.state.side,
            price: self.state.price,
            quantity: self.state.quantity,
            kind: self.state.kind,
            time_in_force: self.state.time_in_force,
            state,
        }
    }
}

/// A request to cancel an order.
#[derive(Debug, PartialEq, Eq)]
pub struct OrderRequestCancel {
    pub key: OrderKey,
    pub id: Option<OrderId>,
}

/// An order in another state is the same order: nothing that was asked for changes.
pub proof fn an_order_keeps_what_was_asked_for<State, Other>(order: Order<State>, state: Other)
    ensures
        order.in_state(state).key == order.key,
        order.in_state(state).side == order.side,
        order.in_state(state).price == order.price,
        order.in_state(state).quantity == order.quantity,
        order.in_state(state).kind == order.kind,
        order.in_state(state).time_in_force == order.time_in_force,
        order.in_state(state).state == state,
{
}

/// The two kinds of orders are called by their names.
pub proof fn kinds_are_called_by_their_names(kind: OrderKind)
    ensures
        kind == OrderKind::Market ==> kind.words() == "market"@,
        kind == OrderKind::Limit ==> kind.words() == "limit"@,
{
}

} // verus!
