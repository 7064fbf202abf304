//! Why the exchange refuses an order.

use crate::names::{AssetNameExchange, InstrumentNameExchange};
use vstd::prelude::*;
use vstd::std_specs::convert::FromSpecImpl;

verus! {

/// What the exchange answers a request that it refuses, with a message for people to read.
#[derive(Debug, PartialEq, Eq)]
pub enum ApiError {
    /// The exchange does not know the instrument.
    InstrumentInvalid(InstrumentNameExchange, String),
    /// The account does not hold enough of the asset.
    BalanceInsufficient(AssetNameExchange, String),
    /// The exchange does not take the order.
    OrderRejected(String),
}

/// Why an order is not open.
#[derive(Debug, PartialEq, Eq)]
pub enum OrderError {
    Rejected(ApiError),
}

impl FromSpecImpl<ApiError> for OrderError {
    open spec fn obeys_from_spec() -> bool {
        true
    }

    open spec fn from_spec(error: ApiError) -> OrderError {
        OrderError::Rejected(error)
    }
}

impl From<ApiError> for OrderError {
    fn from(error: ApiError) -> (result: OrderError) {
        OrderError::Rejected(error)
    }
}

} // verus!
