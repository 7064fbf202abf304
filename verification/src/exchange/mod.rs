//! The exchange: an account, the instruments that it can trade, and the requests that it answers.

pub mod cost;
pub mod laws;
pub mod outcome;
pub mod payment;
pub mod reading;
pub mod request;
pub mod restore;

use crate::account::{balances_at, cancelled_among, open_among, Account, AccountState};
use crate::decimal::{amount_text, Amount, Decimal};
use crate::error::{ApiError, OrderError};
use crate::grouping::{group_by_instrument, grouped};
use crate::instrument::{instrument_named, instruments_of, Instrument, Underlying};
use crate::keyed::{gathered, slot_is_first, with_item};
use crate::names::{AssetNameExchange, ExchangeId, InstrumentNameExchange, OrderId, TradeId};
use crate::order::{Cancelled, Open, Order, OrderKind, OrderRequestOpen, OrderState, Side};
use crate::snapshot::{
    all_orders, AccountEvent, AccountEventKind, AccountSnapshot, AssetBalance, AssetFees, Snapshot,
    Trade,
};
use crate::text::{digits, number_text};
use crate::time::{Instant, Timestamp, LAST_SECOND};
use cost::{cost_of, debit_of, Cost, Debit, DebitOutcome, OrderCost};
use fnv::FnvHashMap;
use vstd::prelude::*;
use vstd::std_specs::convert::IntoSpec;

verus! {

/// What an exchange starts from.
#[derive(Debug)]
pub struct MockExecutionConfig {
    pub mocked_exchange: ExchangeId,
    pub initial_state: AccountSnapshot,
    pub latency_ms: u64,
    pub fees_percent: Decimal,
}

/// What a [`MockExchange`] stands for.
#[verifier::ext_equal]
pub struct Exchange {
    pub exchange: ExchangeId,
    pub latency_ms: nat,
    pub fees_percent: Decimal,
    pub instruments: Map<Seq<char>, Instrument>,
    pub account: Account,
    pub order_sequence: nat,
    pub time_exchange: Timestamp,
}

/// Whether an order can be paid for.
pub enum Funding {
    /// The exchange does not know the instrument.
    UnknownInstrument,
    /// The account does not hold enough of the asset that pays for the order.
    Short { held: AssetBalance, required: Amount },
    /// The balance of the asset that pays for the order, and what it is after that.
    Paid { held: AssetBalance, free: Amount, total: Amount, fee_quote: Amount },
}

/// The asset that pays for an order.
pub open spec fn paying_asset(underlying: Underlying, side: Side) -> AssetNameExchange {
    match side {
        Side::Buy => underlying.quote,
        Side::Sell => underlying.base,
    }
}

impl Exchange {
    pub open spec fn wf(self) -> bool {
        self.account.wf()
    }

    /// Whether an order can be paid for; `None` where that cannot be told: a number on the way
    /// overflows, or the account has no balance of the asset that pays for the order.
    pub open spec fn funding(self, request: OrderRequestOpen) -> Option<Funding> {
        if !self.instruments.contains_key(request.key.instrument@) {
            Some(Funding::UnknownInstrument)
        } else {
            let underlying = self.instruments[request.key.instrument@].underlying;
            let asset = paying_asset(underlying, request.state.side);
            match (self.cost(request), self.account.balance(asset@)) {
                (Some(cost), Some(held)) => match debit_of(
                    held.balance.free@,
                    held.balance.total@,
                    cost.required,
                ) {
                    DebitOutcome::Overflow => None,
                    DebitOutcome::Short => Some(Funding::Short { held, required: cost.required }),
                    DebitOutcome::Paid { free, total } => Some(
                        Funding::Paid { held, free, total, fee_quote: cost.fee_quote },
                    ),
                },
                _ => None,
            }
        }
    }

    /// What an order costs on the exchange.
    pub open spec fn cost(self, request: OrderRequestOpen) -> Option<Cost> {
        cost_of(
            request.state.side,
            request.state.price@,
            request.state.quantity@,
            self.fees_percent@,
        )
    }

    /// Whether an order can be opened or refused: where its kind is supported, it can be told
    /// whether it is paid for, and where it is, there is a number left for it.
    pub open spec fn can_open(self, request: OrderRequestOpen) -> bool {
        request.state.kind == OrderKind::Market ==> match self.funding(request) {
            Some(Funding::Paid { .. }) => self.order_sequence < u64::MAX,
            Some(_) => true,
            None => false,
        }
    }
}

/// Whether `trade` fills the whole order of a request at its price.
pub open spec fn fills(
    trade: Trade,
    request: OrderRequestOpen,
    number: nat,
    time: Timestamp,
    fees: Amount,
) -> bool {
    &&& trade.id@ == digits(number)
    &&& trade.order_id@ == digits(number)
    &&& trade.instrument == request.key.instrument
    &&& trade.strategy == request.key.strategy
    &&& trade.time_exchange == time
    &&& trade.side == request.state.side
    &&& trade.price == request.state.price
    &&& trade.quantity == request.state.quantity
    &&& trade.fees.fees@ == fees
}

/// Whether opening an order gives `response` and `notifications` and leaves `after`.
pub open spec fn opens(
    before: Exchange,
    request: OrderRequestOpen,
    response: Order<Result<Open, OrderError>>,
    notifications: Option<OpenOrderNotifications>,
    after: Exchange,
) -> bool {
    &&& response == request.order(response.state)
    &&& if request.state.kind != OrderKind::Market {
        &&& after == before
        &&& notifications is None
        &&& response.state matches Err(error)
        &&& is_unsupported_kind(error, request.state.kind)
    } else {
        match before.funding(request) {
            Some(Funding::Paid { held, free, total, fee_quote }) => {
                &&& response.state matches Ok(open)
                &&& open.id@ == digits(before.order_sequence)
                &&& open.time_exchange == before.time_exchange
                &&& open.filled_quantity == request.state.quantity
                &&& notifications matches Some(notifications)
                &&& fills(
                    notifications.trade,
                    request,
                    before.order_sequence,
                    before.time_exchange,
                    fee_quote,
                )
                &&& notifications.balance.0.asset == held.asset
                &&& notifications.balance.0.balance.free@ == free
                &&& free.value() >= 0
                &&& notifications.balance.0.balance.total@ == total
                &&& notifications.balance.0.time_exchange == before.time_exchange
                &&& after == (Exchange {
                    account: Account {
                        balances: with_item(before.account.balances, notifications.balance.0),
                        ..before.account
                    },
                    order_sequence: before.order_sequence + 1,
                    ..before
                })
            },
            Some(Funding::UnknownInstrument) => {
                &&& after == before
                &&& notifications is None
                &&& response.state matches Err(OrderError::Rejected(error))
                &&& is_unknown_instrument(error, request.key.instrument)
            },
            Some(Funding::Short { held, required }) => {
                &&& after == before
                &&& notifications is None
                &&& response.state matches Err(OrderError::Rejected(error))
                &&& is_insufficient_balance(error, held, required)
            },
            None => false,
        }
    }
}

/// The message for an order of a kind that the exchange does not take.
pub open spec fn unsupported_kind_text(kind: OrderKind) -> Seq<char> {
    "MockExchange does not supported OrderKind: "@ + kind.words()
}

/// The message for an instrument that the exchange does not know.
pub open spec fn unknown_instrument_text(instrument: Seq<char>) -> Seq<char> {
    "MockExchange is not set-up for managing: "@ + instrument
}

/// The message for a balance that is not enough.
pub open spec fn insufficient_balance_text(free: Amount, required: Amount) -> Seq<char> {
    "Available Balance: "@ + amount_text(free) + ", Required Balance inc. fees: "@ + amount_text(
        required,
    )
}

/// Whether `error` says that the exchange does not take orders of the kind.
pub open spec fn is_unsupported_kind(error: OrderError, kind: OrderKind) -> bool {
    error matches OrderError::Rejected(ApiError::OrderRejected(message)) && message@
        == unsupported_kind_text(kind)
}

/// Whether `error` says that the exchange does not know the instrument.
pub open spec fn is_unknown_instrument(error: ApiError, instrument: InstrumentNameExchange) -> bool {
    error matches ApiError::InstrumentInvalid(name, message) && name == instrument && message@
        == unknown_instrument_text(instrument@)
}

/// Whether `error` says that a balance is not enough.
pub open spec fn is_insufficient_balance(error: ApiError, held: AssetBalance, required: Amount) -> bool {
    error matches ApiError::BalanceInsufficient(asset, message) && asset@ == held.asset@ && message@
        == insufficient_balance_text(held.balance.free@, required)
}

/// The time on the exchange when a request arrives, half of the latency after it was sent.
pub open spec fn arrival(time_request: Instant, latency_ms: nat) -> Instant {
    let later = time_request.plus_millis(latency_ms / 2);
    if later.seconds <= LAST_SECOND {
        later
    } else {
        time_request
    }
}

/// The exchange at another time, which every balance then has too.
pub open spec fn at_time(exchange: Exchange, time: Timestamp) -> Exchange {
    Exchange {
        time_exchange: time,
        account: Account {
            balances: balances_at(exchange.account.balances, time),
            ..exchange.account
        },
        ..exchange
    }
}

/// Whether the check of the balance gives `result` and leaves `after`.
pub open spec fn funds(
    before: Exchange,
    request: OrderRequestOpen,
    result: Result<(Snapshot<AssetBalance>, AssetFees), ApiError>,
    after: Exchange,
) -> bool {
    match before.funding(request) {
        Some(Funding::UnknownInstrument) => {
            &&& after == before
            &&& result matches Err(error)
            &&& is_unknown_instrument(error, request.key.instrument)
        },
        Some(Funding::Short { held, required }) => {
            &&& after == before
            &&& result matches Err(error)
            &&& is_insufficient_balance(error, held, required)
        },
        Some(Funding::Paid { held, free, total, fee_quote }) => {
            &&& result matches Ok((Snapshot(balance), fees))
            &&& balance.asset == held.asset
            &&& balance.balance.free@ == free
            &&& free.value() >= 0
            &&& balance.balance.total@ == total
            &&& balance.time_exchange == before.time_exchange
            &&& fees.fees@ == fee_quote
            &&& after == (Exchange {
                account: Account {
                    balances: with_item(before.account.balances, balance),
                    ..before.account
                },
                ..before
            })
        },
        None => false,
    }
}

/// Open orders as orders in any state.
pub open spec fn any_open(orders: Seq<Order<Open>>) -> Seq<Order<OrderState>> {
    orders.map_values(|order: Order<Open>| order.in_state(OrderState::open(order.state)))
}

/// Cancelled orders as orders in any state.
pub open spec fn any_cancelled(orders: Seq<Order<Cancelled>>) -> Seq<Order<OrderState>> {
    orders.map_values(|order: Order<Cancelled>| order.in_state(OrderState::cancelled(order.state)))
}

/// Whether `snapshot` shows the account of the exchange: its balances, and its open and cancelled
/// orders in groups by instrument.
pub open spec fn snapshots(snapshot: AccountSnapshot, exchange: Exchange) -> bool {
    &&& snapshot.exchange == exchange.exchange
    &&& snapshot.balances@ == exchange.account.balances
    &&& grouped(
        snapshot.instruments@,
        any_open(exchange.account.orders_open) + any_cancelled(exchange.account.orders_cancelled),
    )
}

/// The event of a balance on an exchange.
pub open spec fn balance_event(exchange: ExchangeId, balance: Snapshot<AssetBalance>) -> AccountEvent {
    AccountEvent { exchange, kind: AccountEventKind::BalanceSnapshot(balance) }
}

/// The event of a trade on an exchange.
pub open spec fn trade_event(exchange: ExchangeId, trade: Trade) -> AccountEvent {
    AccountEvent { exchange, kind: AccountEventKind::Trade(trade) }
}

/// The exchange.
#[derive(Debug)]
pub struct MockExchange {
    pub exchange: ExchangeId,
    pub latency_ms: u64,
    pub fees_percent: Decimal,
    pub instruments: FnvHashMap<String, Instrument>,
    pub account: AccountState,
    pub order_sequence: u64,
    pub time_exchange_latest: Timestamp,
}

impl View for MockExchange {
    type V = Exchange;

    open spec fn view(&self) -> Exchange {
        Exchange {
            exchange: self.exchange,
            latency_ms: self.latency_ms as nat,
            fees_percent: self.fees_percent,
            instruments: instruments_of(self.instruments),
            account: self.account@,
            order_sequence: self.order_sequence as nat,
            time_exchange: self.time_exchange_latest,
        }
    }
}

impl MockExchange {
    /// An exchange with the account of the configuration, before its first order.
    pub fn new(config: MockExecutionConfig, instruments: FnvHashMap<String, Instrument>) -> (exchange:
        MockExchange)
        ensures
            exchange@.wf(),
            exchange@.exchange == config.mocked_exchange,
            exchange@.latency_ms == config.latency_ms,
            exchange@.fees_percent == config.fees_percent,
            exchange@.instruments == instruments_of(instruments),
            exchange@.order_sequence == 0,
            exchange@.time_exchange@ == Instant::epoch(),
            exchange@.account == (Account {
                balances: gathered(config.initial_state.balances@),
                orders_open: gathered(open_among(all_orders(config.initial_state.instruments@))),
                orders_cancelled: gathered(
                    cancelled_among(all_orders(config.initial_state.instruments@)),
                ),
                trades: seq![],
            }),
    {
        MockExchange {
            exchange: config.mocked_exchange,
            latency_ms: config.latency_ms,
            fees_percent: config.fees_percent,
            instruments,
            account: AccountState::from_snapshot(config.initial_state),
            order_sequence: 0,
            time_exchange_latest: Timestamp::default(),
        }
    }

    /// Moves the time of the exchange to the arrival of a request.
    pub fn update_time_exchange(&mut self, time_request: Timestamp)
        requires
            old(self)@.wf(),
        ensures
            final(self)@.wf(),
            final(self)@.time_exchange@ == arrival(time_request@, old(self)@.latency_ms),
            final(self)@ == at_time(old(self)@, final(self)@.time_exchange),
    {
        let client_to_exchange_latency: u64 = self.latency_ms / 2;
        self.time_exchange_latest = match time_request.checked_add_millis(
            client_to_exchange_latency as i64,
        ) {
            Some(time) => time,
            None => time_request,
        };
        self.account.update_time_exchange(self.time_exchange_latest);
    }

    /// The time on the exchange.
    pub fn time_exchange(&self) -> (time: Timestamp)
        ensures
            time == self@.time_exchange,
    {
        self.time_exchange_latest
    }

    /// Whether the exchange takes orders of the kind.
    pub fn validate_order_kind_supported(&self, order_kind: OrderKind) -> (result: Result<
        (),
        OrderError,
    >)
        ensures
            result is Ok <==> order_kind == OrderKind::Market,
            result matches Err(error) ==> is_unsupported_kind(error, order_kind),
    {
        if order_kind == OrderKind::Market {
            Ok(())
        } else {
            let mut message: String = "MockExchange does not supported OrderKind: ".to_owned();
            message.append(order_kind.name());
            Err(OrderError::Rejected(ApiError::OrderRejected(message)))
        }
    }

    /// The instrument with a name.
    pub fn find_instrument_data(&self, instrument: &InstrumentNameExchange) -> (result: Result<
        &Instrument,
        ApiError,
    >)
        ensures
            result is Ok <==> self@.instruments.contains_key(instrument@),
            result matches Ok(data) ==> *data == self@.instruments[instrument@],
            result matches Err(error) ==> is_unknown_instrument(error, *instrument),
    {
        match instrument_named(&self.instruments, instrument) {
            Some(data) => Ok(data),
            None => {
                let mut message: String = "MockExchange is not set-up for managing: ".to_owned();
                message.append(instrument.0.as_str());
                Err(ApiError::InstrumentInvalid(instrument.clone(), message))
            },
        }
    }

    /// Takes what an order costs from the balance that pays for it, where the free balance
    /// covers it.
    pub fn has_sufficient_available_balance_for_request(
        &mut self,
        request: &OrderRequestOpen,
    ) -> (result: Result<(Snapshot<AssetBalance>, AssetFees), ApiError>)
        requires
            old(self)@.wf(),
            old(self)@.funding(*request) is Some,
        ensures
            final(self)@.wf(),
            funds(old(self)@, *request, result, final(self)@),
    {
        let underlying = match self.find_instrument_data(&request.key.instrument) {
            Ok(instrument) => instrument.underlying.clone(),
            Err(error) => return Err(error),
        };
        let time_exchange = self.time_exchange();
        let asset = match request.state.side {
            Side::Buy => &underlying.quote,
            Side::Sell => &underlying.base,
        };
        let cost = OrderCost::of(
            request.state.side,
            request.state.price,
            request.state.quantity,
            self.fees_percent,
        ).unwrap();
        let ghost before = self.account@;
        proof {
            slot_is_first(before.balances, asset@);
        }
        let current = self.account.balance_mut(asset).unwrap();
        let result = match Debit::of(current.balance, cost.required) {
            Debit::Paid(balance) => {
                current.balance = balance;
                current.time_exchange = time_exchange;
                Ok((Snapshot(current.clone()), AssetFees::quote_fees(cost.fee_quote)))
            },
            // An order on which a balance overflows is not let in.
            Debit::Short | Debit::Overflow => {
                let mut message: String = "Available Balance: ".to_owned();
                message.append(current.balance.free.text().as_str());
                message.append(", Required Balance inc. fees: ");
                message.append(cost.required.text().as_str());
                Err(ApiError::BalanceInsufficient(asset.clone(), message))
            },
        };
        assert(result is Err ==> self.account@.balances =~= before.balances);
        result
    }

    /// Whether the account can pay for an order; `None` where that cannot be told: a number on the
    /// way overflows, or the account has no balance of the asset that pays for the order.
    pub fn can_pay(&self, request: &OrderRequestOpen) -> (result: Option<bool>)
        requires
            self@.wf(),
        ensures
            result == (match self@.funding(*request) {
                Some(Funding::Paid { .. }) => Some(true),
                Some(_) => Some(false),
                None => None::<bool>,
            }),
    {
        let underlying = match self.find_instrument_data(&request.key.instrument) {
            Ok(instrument) => instrument.underlying.clone(),
            Err(_) => return Some(false),
        };
        let asset = match request.state.side {
            Side::Buy => &underlying.quote,
            Side::Sell => &underlying.base,
        };
        let cost = OrderCost::of(
            request.state.side,
            request.state.price,
            request.state.quantity,
            self.fees_percent,
        )?;
        let held = self.account.balance(asset)?;
        match Debit::of(held.balance, cost.required) {
            Debit::Overflow => None,
            Debit::Short => Some(false),
            Debit::Paid(_) => Some(true),
        }
    }

    /// Whether an order can be opened or refused.
    pub fn can_open_order(&self, request: &OrderRequestOpen) -> (result: bool)
        requires
            self@.wf(),
        ensures
            result == self@.can_open(*request),
    {
        match request.state.kind {
            OrderKind::Market => match self.can_pay(request) {
                Some(paid) => !paid || self.order_sequence < u64::MAX,
                None => false,
            },
            OrderKind::Limit => true,
        }
    }

    /// Opens an order and fills it, or refuses it.
    pub fn open_order(&mut self, request: OrderRequestOpen) -> (result: (
        Order<Result<Open, OrderError>>,
        Option<OpenOrderNotifications>,
    ))
        requires
            old(self)@.wf(),
            old(self)@.can_open(request),
        ensures
            final(self)@.wf(),
            opens(old(self)@, request, result.0, result.1, final(self)@),
    {
        match self.validate_order_kind_supported(request.state.kind) {
            Ok(()) => {},
            Err(error) => return (build_open_order_err_response(request, error), None),
        }
        let (balance_snapshot, fees) = match self.has_sufficient_available_balance_for_request(
            &request,
        ) {
            Ok((balance_snapshot, fees)) => (balance_snapshot, fees),
            Err(error) => {
                return (build_open_order_err_response(request, OrderError::from(error)), None);
            },
        };
        let order_id = self.order_id_sequence_fetch_add();
        let trade_id = TradeId(order_id.0.clone());
        let order_response = Order {
            key: request.key.clone(),
            side: request.state.side,
            price: request.state.price,
            quantity: request.state.quantity,
            kind: request.state.kind,
            time_in_force: request.state.time_in_force,
            state: Ok(
                Open {
                    id: order_id.clone(),
                    time_exchange: self.time_exchange(),
                    filled_quantity: request.state.quantity,
                },
            ),
        };
        let notifications = OpenOrderNotifications {
            balance: balance_snapshot,
            trade: Trade {
                id: trade_id,
                order_id,
                instrument: request.key.instrument,
                strategy: request.key.strategy,
                time_exchange: self.time_exchange(),
                side: request.state.side,
                price: request.state.price,
                quantity: request.state.quantity,
                fees,
            },
        };
        (order_response, Some(notifications))
    }

    /// An event of the account on this exchange.
    fn build_account_event<Kind: Into<AccountEventKind>>(&self, kind: Kind) -> (event: AccountEvent)
        ensures
            event.exchange == self@.exchange,
            Kind::obeys_into_spec() ==> event.kind == kind.into_spec(),
    {
        AccountEvent { exchange: self.exchange, kind: kind.into() }
    }

    /// The events that tell the client of an order that was filled: the balance, then the trade.
    pub fn notification_events(&self, notifications: OpenOrderNotifications) -> (events: (
        AccountEvent,
        AccountEvent,
    ))
        ensures
            events.0 == balance_event(self@.exchange, notifications.balance),
            events.1 == trade_event(self@.exchange, notifications.trade),
    {
        let balance = self.build_account_event(notifications.balance);
        let trade = self.build_account_event(notifications.trade);
        (balance, trade)
    }

    /// The account: its balances, and its open and cancelled orders by instrument.
    pub fn account_snapshot(&self) -> (snapshot: AccountSnapshot)
        ensures
            snapshots(snapshot, self@),
    {
        let balances = self.account.balances().clone();
        assert(balances@ =~= self@.account.balances);
        let mut orders: Vec<Order<OrderState>> = Vec::new();
        let orders_open = self.account.orders_open();
        let orders_cancelled = self.account.orders_cancelled();
        let mut i: usize = 0;
        while i < orders_open.len()
            invariant
                orders_open@ == self@.account.orders_open,
                i <= orders_open.len(),
                orders@ == any_open(orders_open@.take(i as int)),
            decreases orders_open.len() - i,
        {
            orders.push(Order::from(orders_open[i].clone()));
            assert(orders@ =~= any_open(orders_open@.take(i + 1)));
            i = i + 1;
        }
        assert(orders_open@.take(i as int) =~= orders_open@);
        let mut j: usize = 0;
        while j < orders_cancelled.len()
            invariant
                orders_cancelled@ == self@.account.orders_cancelled,
                j <= orders_cancelled.len(),
                orders@ == any_open(self@.account.orders_open) + any_cancelled(
                    orders_cancelled@.take(j as int),
                ),
            decreases orders_cancelled.len() - j,
        {
            orders.push(Order::from(orders_cancelled[j].clone()));
            assert(orders@ =~= any_open(self@.account.orders_open) + any_cancelled(
                orders_cancelled@.take(j + 1),
            ));
            j = j + 1;
        }
        assert(orders_cancelled@.take(j as int) =~= orders_cancelled@);
        AccountSnapshot {
            exchange: self.exchange,
            balances,
            instruments: group_by_instrument(orders),
        }
    }

    /// The number of the next order, which is then taken.
    fn order_id_sequence_fetch_add(&mut self) -> (id: OrderId)
        requires
            old(self).order_sequence < u64::MAX,
        ensures
            id@ == digits(old(self).order_sequence as nat),
            *final(self) == (MockExchange {
                order_sequence: (old(self).order_sequence + 1) as u64,
                ..*old(self)
            }),
    {
        let sequence: u64 = self.order_sequence;
        self.order_sequence = sequence + 1;
        OrderId(number_text(sequence))
    }
}

/// The order of a request that is refused.
fn build_open_order_err_response(request: OrderRequestOpen, error: OrderError) -> (order: Order<
    Result<Open, OrderError>,
>)
    ensures
        order == request.order(Err::<Open, OrderError>(error)),
{
    Order {
        key: request.key,
        side: request.state.side,
        price: request.state.price,
        quantity: request.state.quantity,
        kind: request.state.kind,
        time_in_force: request.state.time_in_force,
        state: Err(error),
    }
}

/// What the client is told of an order that was filled.
#[derive(Debug)]
pub struct OpenOrderNotifications {
    pub balance: Snapshot<AssetBalance>,
    pub trade: Trade,
}

} // verus!
