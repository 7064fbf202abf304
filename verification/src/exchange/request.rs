//! Requests to the exchange, one at a time, and how it answers them.

use super::{
    arrival, at_time, opens, snapshots, Exchange, MockExchange, OpenOrderNotifications,
};
use crate::account::{trades_since, Account};
use crate::error::OrderError;
use crate::order::{Open, Order, OrderRequestCancel, OrderRequestOpen};
use crate::snapshot::{AccountEvent, AccountEventKind, AccountSnapshot, AssetBalance, Trade};
use crate::time::Timestamp;
use vstd::prelude::*;

verus! {

/// What a client asks of the exchange.
#[derive(Debug)]
pub enum RequestKind {
    FetchAccountSnapshot,
    FetchBalances,
    FetchOrdersOpen,
    FetchTrades { time_since: Timestamp },
    CancelOrder(OrderRequestCancel),
    OpenOrder(OrderRequestOpen),
}

/// What the exchange sends back to the client.
#[derive(Debug)]
pub enum Reply {
    AccountSnapshot(AccountSnapshot),
    Balances(Vec<AssetBalance>),
    OrdersOpen(Vec<Order<Open>>),
    Trades(Vec<Trade>),
    /// Nothing: the exchange fills every order that it takes, so there is none to cancel.
    NoneToCancel(OrderRequestCancel),
    /// The order, and where it was filled the events of the balance and of the trade.
    OrderOpened(Order<Result<Open, OrderError>>, Option<(AccountEvent, AccountEvent)>),
}

/// Whether the exchange `at` the arrival of a request answers it with `reply` and is `after` then.
pub open spec fn answers(at: Exchange, request: RequestKind, reply: Reply, after: Exchange) -> bool {
    match request {
        RequestKind::FetchAccountSnapshot => {
            &&& after == at
            &&& reply matches Reply::AccountSnapshot(snapshot)
            &&& snapshots(snapshot, at)
        },
        RequestKind::FetchBalances => {
            &&& after == at
            &&& reply matches Reply::Balances(balances)
            &&& balances@ == at.account.balances
        },
        RequestKind::FetchOrdersOpen => {
            &&& after == at
            &&& reply matches Reply::OrdersOpen(orders)
            &&& orders@ == at.account.orders_open
        },
        RequestKind::FetchTrades { time_since } => {
            &&& after == at
            &&& reply matches Reply::Trades(trades)
            &&& trades@ == trades_since(at.account.trades, time_since@)
        },
        RequestKind::CancelOrder(request) => {
            &&& after == at
            &&& reply == Reply::NoneToCancel(request)
        },
        RequestKind::OpenOrder(request) => {
            &&& reply matches Reply::OrderOpened(response, events)
            &&& answers_order(at, request, response, events, after)
        },
    }
}

/// Whether the exchange `at` the arrival of a request to open an order answers it with `response`
/// and `events` and is `after` then.
///
/// There are events where the order was filled, and the trade that they report is on record.
pub open spec fn answers_order(
    at: Exchange,
    request: OrderRequestOpen,
    response: Order<Result<Open, OrderError>>,
    events: Option<(AccountEvent, AccountEvent)>,
    after: Exchange,
) -> bool {
    match events {
        Some((first, second)) => {
            &&& first.kind matches AccountEventKind::BalanceSnapshot(balance)
            &&& second.kind matches AccountEventKind::Trade(trade)
            &&& first.exchange == at.exchange
            &&& second.exchange == at.exchange
            &&& after.account.trades == at.account.trades.push(trade)
            &&& opens(
                at,
                request,
                response,
                Some(OpenOrderNotifications { balance, trade }),
                with_trades(after, at.account.trades),
            )
        },
        None => opens(at, request, response, None, after),
    }
}

/// The exchange with other trades on record.
pub open spec fn with_trades(exchange: Exchange, trades: Seq<Trade>) -> Exchange {
    Exchange { account: Account { trades, ..exchange.account }, ..exchange }
}

impl MockExchange {
    /// Answers a request that was sent at `time_request`.
    ///
    /// `None` where an order can neither be opened nor refused; the exchange then is as it was,
    /// at the time of the arrival.
    pub fn handle_request(&mut self, time_request: Timestamp, request: RequestKind) -> (reply: Option<
        Reply,
    >)
        requires
            old(self)@.wf(),
        ensures
            final(self)@.wf(),
            final(self)@.time_exchange@ == arrival(time_request@, old(self)@.latency_ms),
            ({
                let at = at_time(old(self)@, final(self)@.time_exchange);
                &&& reply is None <==> (request matches RequestKind::OpenOrder(request)
                    && !at.can_open(request))
                &&& match reply {
                    Some(reply) => answers(at, request, reply, final(self)@),
                    None => final(self)@ == at,
                }
            }),
    {
        self.update_time_exchange(time_request);
        let ghost at = self@;
        match request {
            RequestKind::FetchAccountSnapshot => Some(
                Reply::AccountSnapshot(self.account_snapshot()),
            ),
            RequestKind::FetchBalances => {
                let balances = self.account.balances().clone();
                assert(balances@ =~= at.account.balances);
                Some(Reply::Balances(balances))
            },
            RequestKind::FetchOrdersOpen => {
                let orders = self.account.orders_open().clone();
                assert(orders@ =~= at.account.orders_open);
                Some(Reply::OrdersOpen(orders))
            },
            RequestKind::FetchTrades { time_since } => Some(
                Reply::Trades(self.account.trades(time_since)),
            ),
            RequestKind::CancelOrder(request) => Some(Reply::NoneToCancel(request)),
            RequestKind::OpenOrder(request) => {
                if !self.can_open_order(&request) {
                    return None;
                }
                let (response, notifications) = self.open_order(request);
                let ghost opened = self@;
                match notifications {
                    Some(notifications) => {
                        self.account.ack_trade(notifications.trade.clone());
                        let events = self.notification_events(notifications);
                        assert(with_trades(self@, at.account.trades) =~= opened);
                        Some(Reply::OrderOpened(response, Some(events)))
                    },
                    None => Some(Reply::OrderOpened(response, None)),
                }
            },
        }
    }
}

} // verus!
