//! Names and identifiers: texts told apart by what they name.

use vstd::prelude::*;

verus! {

/// Identifies an exchange.
#[derive(Clone, Copy, Debug, PartialEq, Eq)]
pub struct ExchangeId(pub &'static str);

/// The name that the exchange gives an instrument.
#[derive(Debug, PartialEq, Eq)]
pub struct InstrumentNameExchange(pub String);

impl View for InstrumentNameExchange {
    type V = Seq<char>;

    open spec fn view(&self) -> Seq<char> {
        self.0@
    }
}

impl Clone for InstrumentNameExchange {
    fn clone(&self) -> (result: InstrumentNameExchange)
        ensures
            result == *self,
    {
        InstrumentNameExchange(self.0.clone())
    }
}

/// The name that the exchange gives an asset.
#[derive(Debug, PartialEq, Eq)]
pub struct AssetNameExchange(pub String);

impl View for AssetNameExchange {
    type V = Seq<char>;

    open spec fn view(&self) -> Seq<char> {
        self.0@
    }
}

impl Clone for AssetNameExchange {
    fn clone(&self) -> (result: AssetNameExchange)
        ensures
            result == *self,
    {
        AssetNameExchange(self.0.clone())
    }
}

/// The number of an order on the exchange, as text.
#[derive(Debug, PartialEq, Eq)]
pub struct OrderId(pub String);

impl View for OrderId {
    type V = Seq<char>;

    open spec fn view(&self) -> Seq<char> {
        self.0@
    }
}

impl Clone for OrderId {
    fn clone(&self) -> (result: OrderId)
        ensures
            result == *self,
    {
        OrderId(self.0.clone())
    }
}

/// The number of a trade on the exchange, as text.
#[derive(Debug, PartialEq, Eq)]
pub struct TradeId(pub String);

impl View for TradeId {
    type V = Seq<char>;

    open spec fn view(&self) -> Seq<char> {
        self.0@
    }
}

impl Clone for TradeId {
    fn clone(&self) -> (result: TradeId)
        ensures
            result == *self,
    {
        TradeId(self.0.clone())
    }
}

/// The strategy that an order belongs to.
#[derive(Debug, PartialEq, Eq)]
pub struct StrategyId(pub String);

impl Clone for StrategyId {
    fn clone(&self) -> (result: StrategyId)
        ensures
            result == *self,
    {
        StrategyId(self.0.clone())
    }
}

/// The number that the client gives an order, as text.
#[derive(Debug, PartialEq, Eq)]
pub struct ClientOrderId(pub String);

impl Clone for ClientOrderId {
    fn clone(&self) -> (result: ClientOrderId)
        ensures
            result == *self,
    {
        ClientOrderId(self.0.clone())
    }
}

} // verus!
