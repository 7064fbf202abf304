//! What becomes of an order, in the fields of its request and of the account.

use super::request::answers_order;
use super::{
    balance_event, funds, opens, trade_event, Exchange, Funding, MockExchange,
    OpenOrderNotifications,
};
use crate::account::{
    a_balance_is_that_of_its_asset, an_account_has_one_of_each, putting_a_balance_moves_no_other,
    Account,
};
use crate::decimal::{amount_text, difference};
use crate::error::{ApiError, OrderError};
use crate::instrument::instruments_of;
use crate::names::ExchangeId;
use crate::order::{Open, Order, OrderKind, OrderRequestOpen, Side};
use crate::snapshot::{AccountEvent, AccountEventKind, AssetBalance, AssetFees, Snapshot, Trade};
use crate::text::digits;
use vstd::prelude::*;

verus! {

/// The order that the client is answered is the one that was asked for, whatever became of it.
pub proof fn an_order_is_answered_as_requested(
    before: Exchange,
    request: OrderRequestOpen,
    response: Order<Result<Open, OrderError>>,
    notifications: Option<OpenOrderNotifications>,
    after: Exchange,
)
    requires
        opens(before, request, response, notifications, after),
    ensures
        response.key == request.key,
        response.side == request.state.side,
        response.price == request.state.price,
        response.quantity == request.state.quantity,
        response.kind == request.state.kind,
        response.time_in_force == request.state.time_in_force,
{
}

/// A filled order has the number that was next and the time of the exchange, and is filled in full;
/// its trade says the same of it, and has the fee that the order costs.
pub proof fn a_filled_order_is_reported_as_requested(
    before: Exchange,
    request: OrderRequestOpen,
    response: Order<Result<Open, OrderError>>,
    notifications: Option<OpenOrderNotifications>,
    after: Exchange,
)
    requires
        opens(before, request, response, notifications, after),
        response.state is Ok,
    ensures
        ({
            &&& response.state matches Ok(open)
            &&& notifications matches Some(OpenOrderNotifications { balance: _, trade })
            &&& open.id.0@ == digits(before.order_sequence)
            &&& open.time_exchange == before.time_exchange
            &&& open.filled_quantity == request.state.quantity
            &&& trade.id.0@ == open.id.0@
            &&& trade.order_id.0@ == open.id.0@
            &&& trade.instrument == request.key.instrument
            &&& trade.strategy == request.key.strategy
            &&& trade.time_exchange == before.time_exchange
            &&& trade.side == request.state.side
            &&& trade.price == request.state.price
            &&& trade.quantity == request.state.quantity
            &&& before.cost(request) matches Some(cost)
            &&& trade.fees.fees@ == cost.fee_quote
        }),
{
}

/// A filled order is paid from the quote asset by a buyer and from the base asset by a seller: the
/// account holds that asset, the free balance covers the cost, and the cost is taken from the free
/// balance and from the total.
pub proof fn a_filled_order_is_paid_by_its_side(
    before: Exchange,
    request: OrderRequestOpen,
    response: Order<Result<Open, OrderError>>,
    notifications: Option<OpenOrderNotifications>,
    after: Exchange,
) -> (at: int)
    requires
        opens(before, request, response, notifications, after),
        response.state is Ok,
    ensures
        ({
            let underlying = before.instruments[request.key.instrument.0@].underlying;
            let held = before.account.balances[at];
            &&& before.instruments.contains_key(request.key.instrument.0@)
            &&& 0 <= at < before.account.balances.len()
            &&& notifications matches Some(OpenOrderNotifications { balance: Snapshot(left), trade: _ })
            &&& request.state.side == Side::Buy ==> left.asset.0@ == underlying.quote.0@
            &&& request.state.side == Side::Sell ==> left.asset.0@ == underlying.base.0@
            &&& left.asset == held.asset
            &&& before.cost(request) matches Some(cost)
            &&& held.balance.free@.value() >= cost.required.value()
            &&& difference(held.balance.free@, cost.required) == Some(left.balance.free@)
            &&& difference(held.balance.total@, cost.required) == Some(left.balance.total@)
            &&& left.balance.free@.value() >= 0
            &&& left.time_exchange == before.time_exchange
        }),
{
    let underlying = before.instruments[request.key.instrument@].underlying;
    let asset = if request.state.side == Side::Buy {
        underlying.quote@
    } else {
        underlying.base@
    };
    a_balance_is_that_of_its_asset(before.account, asset);
    before.account.balances.index_of(before.account.balance(asset)->0)
}

/// A filled order leaves everything as it is but the balance that pays for it, which the client is
/// told, and the number that is next.
pub proof fn a_filled_order_changes_its_balance_and_the_number(
    before: Exchange,
    request: OrderRequestOpen,
    response: Order<Result<Open, OrderError>>,
    notifications: Option<OpenOrderNotifications>,
    after: Exchange,
)
    requires
        before.wf(),
        opens(before, request, response, notifications, after),
        response.state is Ok,
    ensures
        ({
            let left = notifications->0.balance.0;
            &&& after.exchange == before.exchange
            &&& after.latency_ms == before.latency_ms
            &&& after.fees_percent == before.fees_percent
            &&& after.instruments == before.instruments
            &&& after.time_exchange == before.time_exchange
            &&& after.order_sequence == before.order_sequence + 1
            &&& after.account.orders_open == before.account.orders_open
            &&& after.account.orders_cancelled == before.account.orders_cancelled
            &&& after.account.trades == before.account.trades
            &&& after.account.balances.len() == before.account.balances.len()
            &&& forall|i: int|
                0 <= i < before.account.balances.len() ==> #[trigger] after.account.balances[i]
                    == if before.account.balances[i].asset.0@ == left.asset.0@ {
                    left
                } else {
                    before.account.balances[i]
                }
        }),
{
    let at = a_filled_order_is_paid_by_its_side(before, request, response, notifications, after);
    let left = notifications->0.balance.0;
    assert(before.account.balances[at].asset.0@ == left.asset.0@);
    putting_a_balance_moves_no_other(before.account.balances, left);
}

/// An order is filled exactly where it is a market order in an instrument that the exchange knows,
/// and the account holds enough of the asset that pays for it, free of other orders.
pub proof fn an_order_is_filled_exactly_where_it_is_paid_for(
    before: Exchange,
    request: OrderRequestOpen,
    response: Order<Result<Open, OrderError>>,
    notifications: Option<OpenOrderNotifications>,
    after: Exchange,
)
    requires
        before.wf(),
        opens(before, request, response, notifications, after),
    ensures
        response.state is Ok <==> {
            let underlying = before.instruments[request.key.instrument.0@].underlying;
            let asset = if request.state.side == Side::Buy {
                underlying.quote.0@
            } else {
                underlying.base.0@
            };
            &&& request.state.kind == OrderKind::Market
            &&& before.instruments.contains_key(request.key.instrument.0@)
            &&& before.cost(request) matches Some(cost)
            &&& exists|i: int|
                {
                    &&& 0 <= i < before.account.balances.len()
                    &&& (#[trigger] before.account.balances[i]).asset.0@ == asset
                    &&& before.account.balances[i].balance.free@.value() >= cost.required.value()
                }
        },
{
    let underlying = before.instruments[request.key.instrument@].underlying;
    let asset = if request.state.side == Side::Buy {
        underlying.quote@
    } else {
        underlying.base@
    };
    the_one_balance(before.account, asset);
    a_balance_is_that_of_its_asset(before.account, asset);
    if response.state is Ok {
        let at = a_filled_order_is_paid_by_its_side(
            before,
            request,
            response,
            notifications,
            after,
        );
        assert(before.account.balances[at].asset.0@ == asset);
    }
}

/// The balance of an asset is the only one of that asset.
proof fn the_one_balance(account: Account, asset: Seq<char>)
    requires
        account.wf(),
    ensures
        forall|i: int|
            0 <= i < account.balances.len() && (#[trigger] account.balances[i]).asset.0@ == asset
                ==> account.balance(asset) == Some(account.balances[i]),
{
    assert forall|i: int|
        0 <= i < account.balances.len() && (
        #[trigger] account.balances[i]).asset.0@ == asset implies account.balance(asset) == Some(
        account.balances[i],
    ) by {
        a_balance_is_that_of_its_asset(account, asset);
        an_account_has_one_of_each(account);
        let held = account.balance(asset)->0;
        let j = account.balances.index_of(held);
        assert(account.balances[j] == held);
    }
}

/// A refused order changes nothing and nobody is told of it, and the client is told why: the kind
/// of the order, an instrument that the exchange does not know, or a balance that does not cover
/// what is required, each in its own words.
pub proof fn a_refusal_says_why(
    before: Exchange,
    request: OrderRequestOpen,
    response: Order<Result<Open, OrderError>>,
    notifications: Option<OpenOrderNotifications>,
    after: Exchange,
)
    requires
        opens(before, request, response, notifications, after),
        response.state is Err,
    ensures
        after == before,
        notifications is None,
        ({
            let name = request.key.instrument.0@;
            let underlying = before.instruments[name].underlying;
            let asset = if request.state.side == Side::Buy {
                underlying.quote.0@
            } else {
                underlying.base.0@
            };
            if request.state.kind == OrderKind::Limit {
                &&& response.state matches Err(OrderError::Rejected(ApiError::OrderRejected(message)))
                &&& message@ == "MockExchange does not supported OrderKind: "@ + "limit"@
            } else if !before.instruments.contains_key(name) {
                &&& response.state matches Err(
                    OrderError::Rejected(ApiError::InstrumentInvalid(instrument, message)),
                )
                &&& instrument == request.key.instrument
                &&& message@ == "MockExchange is not set-up for managing: "@ + name
            } else {
                &&& response.state matches Err(
                    OrderError::Rejected(ApiError::BalanceInsufficient(lacking, message)),
                )
                &&& lacking.0@ == asset
                &&& before.cost(request) matches Some(cost)
                &&& exists|i: int|
                    {
                        let held = #[trigger] before.account.balances[i];
                        &&& 0 <= i < before.account.balances.len()
                        &&& held.asset.0@ == asset
                        &&& held.balance.free@.value() < cost.required.value()
                        &&& message@ == "Available Balance: "@ + amount_text(held.balance.free@)
                            + ", Required Balance inc. fees: "@ + amount_text(cost.required)
                    }
            }
        }),
{
    let name = request.key.instrument@;
    if request.state.kind == OrderKind::Market && before.instruments.contains_key(name) {
        let underlying = before.instruments[name].underlying;
        let asset = if request.state.side == Side::Buy {
            underlying.quote@
        } else {
            underlying.base@
        };
        a_balance_is_that_of_its_asset(before.account, asset);
        let held = before.account.balance(asset)->0;
        let i = before.account.balances.index_of(held);
        assert(before.account.balances[i] == held);
    }
}

/// Whether an order can be paid for is told exactly where the instrument is not known, or the
/// account has a balance of the asset that pays, there is a cost, and no balance overflows that
/// has to be worked out.
pub proof fn funding_is_told_where_it_can_be(exchange: Exchange, request: OrderRequestOpen)
    ensures
        ({
            let name = request.key.instrument.0@;
            let underlying = exchange.instruments[name].underlying;
            let asset = if request.state.side == Side::Buy {
                underlying.quote.0@
            } else {
                underlying.base.0@
            };
            match exchange.funding(request) {
                Some(Funding::UnknownInstrument) => !exchange.instruments.contains_key(name),
                Some(Funding::Short { held, required }) => {
                    &&& exchange.instruments.contains_key(name)
                    &&& exchange.account.balances.contains(held)
                    &&& held.asset.0@ == asset
                    &&& exchange.cost(request) matches Some(cost)
                    &&& required == cost.required
                    &&& held.balance.free@.value() < required.value()
                },
                Some(Funding::Paid { held, free, total, fee_quote }) => {
                    &&& exchange.instruments.contains_key(name)
                    &&& exchange.account.balances.contains(held)
                    &&& held.asset.0@ == asset
                    &&& exchange.cost(request) matches Some(cost)
                    &&& fee_quote == cost.fee_quote
                    &&& held.balance.free@.value() >= cost.required.value()
                    &&& difference(held.balance.free@, cost.required) == Some(free)
                    &&& difference(held.balance.total@, cost.required) == Some(total)
                },
                None => {
                    &&& exchange.instruments.contains_key(name)
                    &&& exchange.cost(request) matches Some(cost) ==> {
                        ||| forall|i: int|
                            0 <= i < exchange.account.balances.len() ==> (
                            #[trigger] exchange.account.balances[i]).asset.0@ != asset
                        ||| exists|i: int|
                            {
                                let held = #[trigger] exchange.account.balances[i];
                                &&& 0 <= i < exchange.account.balances.len()
                                &&& held.asset.0@ == asset
                                &&& difference(held.balance.free@, cost.required) is None
                                    || difference(held.balance.total@, cost.required) is None
                            }
                    }
                },
            }
        }),
{
    let name = request.key.instrument@;
    if exchange.instruments.contains_key(name) {
        let underlying = exchange.instruments[name].underlying;
        let asset = if request.state.side == Side::Buy {
            underlying.quote@
        } else {
            underlying.base@
        };
        a_balance_is_that_of_its_asset(exchange.account, asset);
        if let Some(held) = exchange.account.balance(asset) {
            let i = exchange.account.balances.index_of(held);
            assert(exchange.account.balances[i] == held);
        }
    }
}

/// Every order can be opened or refused that is not a market order, or of which it can be told
/// whether it is paid for, with a number left where it is; and no other.
pub proof fn an_order_is_opened_or_refused_where_that_is_told(
    exchange: Exchange,
    request: OrderRequestOpen,
)
    ensures
        exchange.can_open(request) <==> {
            ||| request.state.kind == OrderKind::Limit
            ||| exchange.funding(request) matches Some(Funding::UnknownInstrument)
            ||| exchange.funding(request) matches Some(Funding::Short { .. })
            ||| exchange.funding(request) is Some && exchange.order_sequence
                < 18_446_744_073_709_551_615
        },
{
}

/// The check of the balance alone takes what the order costs, or leaves everything as it is, as
/// opening the order does: what it gives back is what the client is then told.
pub proof fn the_check_of_the_balance_pays_for_the_order(
    before: Exchange,
    request: OrderRequestOpen,
    result: Result<(Snapshot<AssetBalance>, AssetFees), ApiError>,
    after: Exchange,
) -> (at: int)
    requires
        before.wf(),
        funds(before, request, result, after),
    ensures
        after.exchange == before.exchange,
        after.latency_ms == before.latency_ms,
        after.fees_percent == before.fees_percent,
        after.instruments == before.instruments,
        after.time_exchange == before.time_exchange,
        after.order_sequence == before.order_sequence,
        after.account.orders_open == before.account.orders_open,
        after.account.orders_cancelled == before.account.orders_cancelled,
        after.account.trades == before.account.trades,
        ({
            let name = request.key.instrument.0@;
            let underlying = before.instruments[name].underlying;
            let asset = if request.state.side == Side::Buy {
                underlying.quote.0@
            } else {
                underlying.base.0@
            };
            let held = before.account.balances[at];
            match result {
                Ok((Snapshot(left), fees)) => {
                    &&& before.instruments.contains_key(name)
                    &&& 0 <= at < before.account.balances.len()
                    &&& held.asset.0@ == asset
                    &&& left.asset == held.asset
                    &&& left.time_exchange == before.time_exchange
                    &&& before.cost(request) matches Some(cost)
                    &&& fees.fees@ == cost.fee_quote
                    &&& held.balance.free@.value() >= cost.required.value()
                    &&& difference(held.balance.free@, cost.required) == Some(left.balance.free@)
                    &&& difference(held.balance.total@, cost.required) == Some(left.balance.total@)
                    &&& after.account.balances == before.account.balances.update(at, left)
                },
                Err(error) => {
                    &&& after == before
                    &&& if !before.instruments.contains_key(name) {
                        &&& error matches ApiError::InstrumentInvalid(instrument, message)
                        &&& instrument == request.key.instrument
                        &&& message@ == "MockExchange is not set-up for managing: "@ + name
                    } else {
                        &&& error matches ApiError::BalanceInsufficient(lacking, message)
                        &&& lacking.0@ == asset
                        &&& 0 <= at < before.account.balances.len()
                        &&& held.asset.0@ == asset
                        &&& before.cost(request) matches Some(cost)
                        &&& held.balance.free@.value() < cost.required.value()
                        &&& message@ == "Available Balance: "@ + amount_text(held.balance.free@)
                            + ", Required Balance inc. fees: "@ + amount_text(cost.required)
                    }
                },
            }
        }),
{
    let name = request.key.instrument@;
    let underlying = before.instruments[name].underlying;
    let asset = if request.state.side == Side::Buy {
        underlying.quote@
    } else {
        underlying.base@
    };
    if before.instruments.contains_key(name) {
        a_balance_is_that_of_its_asset(before.account, asset);
        let held = before.account.balance(asset)->0;
        let at = before.account.balances.index_of(held);
        assert(before.account.balances[at] == held);
        if let Ok((Snapshot(left), _)) = result {
            an_account_has_one_of_each(before.account);
            putting_a_balance_moves_no_other(before.account.balances, left);
            assert(after.account.balances =~= before.account.balances.update(at, left));
        }
        at
    } else {
        0
    }
}

/// Where a request to open an order is answered with events, the first is that of the balance and
/// the second that of the trade, both of this exchange, and the trade is put on record behind all
/// others; there are events exactly where the order was filled, and the order was opened in either
/// case.
pub proof fn an_order_is_opened_reported_and_recorded(
    at: Exchange,
    request: OrderRequestOpen,
    response: Order<Result<Open, OrderError>>,
    events: Option<(AccountEvent, AccountEvent)>,
    after: Exchange,
)
    requires
        answers_order(at, request, response, events, after),
    ensures
        events is Some <==> response.state is Ok,
        match events {
            Some((first, second)) => {
                &&& first.exchange == at.exchange
                &&& second.exchange == at.exchange
                &&& first.kind matches AccountEventKind::BalanceSnapshot(balance)
                &&& second.kind matches AccountEventKind::Trade(trade)
                &&& after.account.trades == at.account.trades.push(trade)
                &&& opens(
                    at,
                    request,
                    response,
                    Some(OpenOrderNotifications { balance, trade }),
                    Exchange {
                        account: Account { trades: at.account.trades, ..after.account },
                        ..after
                    },
                )
            },
            None => opens(at, request, response, None, after),
        },
{
}

/// An event is of the exchange that it comes from, and of the balance or the trade that it reports.
pub proof fn events_report_what_happened(
    exchange: ExchangeId,
    balance: Snapshot<AssetBalance>,
    trade: Trade,
)
    ensures
        balance_event(exchange, balance).exchange == exchange,
        balance_event(exchange, balance).kind == AccountEventKind::BalanceSnapshot(balance),
        trade_event(exchange, trade).exchange == exchange,
        trade_event(exchange, trade).kind == AccountEventKind::Trade(trade),
{
}

/// An exchange is seen as the fields that it holds.
pub proof fn an_exchange_is_seen_as_it_is(exchange: MockExchange)
    ensures
        exchange@.exchange == exchange.exchange,
        exchange@.latency_ms == exchange.latency_ms,
        exchange@.fees_percent == exchange.fees_percent,
        exchange@.instruments == instruments_of(exchange.instruments),
        exchange@.account == exchange.account@,
        exchange@.order_sequence == exchange.order_sequence,
        exchange@.time_exchange == exchange.time_exchange_latest,
{
}

} // verus!
