use fnv::FnvHashMap;
use simulated_exchange::decimal::Decimal;
use simulated_exchange::error::{ApiError, OrderError};
use simulated_exchange::exchange::cost::{Debit, OrderCost};
use simulated_exchange::exchange::request::{Reply, RequestKind};
use simulated_exchange::exchange::{MockExchange, MockExecutionConfig, OpenOrderNotifications};
use simulated_exchange::instrument::{Instrument, Underlying};
use simulated_exchange::names::{
    AssetNameExchange, ClientOrderId, ExchangeId, InstrumentNameExchange, OrderId, StrategyId,
    TradeId,
};
use simulated_exchange::order::{
    ActiveOrderState, Cancelled, InactiveOrderState, Open, Order, OrderKey, OrderKind,
    OrderRequestCancel, OrderRequestOpen, OrderState, RequestOpen, Side, TimeInForce,
};
use simulated_exchange::snapshot::{
    AccountEventKind, AccountSnapshot, AssetBalance, AssetFees, Balance, InstrumentAccountSnapshot,
    Snapshot, Trade,
};
use simulated_exchange::time::{Timestamp, LAST_SECOND};

type Parts = (bool, u128, u32);

const EXCHANGE: ExchangeId = ExchangeId("mock");

fn dec(mantissa: i128, scale: u32) -> Decimal {
    Decimal::from_parts(mantissa < 0, mantissa.unsigned_abs(), scale).unwrap()
}

fn largest() -> Decimal {
    Decimal::from_parts(false, (1u128 << 96) - 1, 0).unwrap()
}

fn at(seconds: i64) -> Timestamp {
    Timestamp::from_parts(seconds, 0).unwrap()
}

fn asset(name: &str) -> AssetNameExchange {
    AssetNameExchange(name.to_string())
}

fn balance(name: &str, total: Decimal, free: Decimal) -> AssetBalance {
    AssetBalance { asset: asset(name), balance: Balance { total, free }, time_exchange: at(0) }
}

fn instruments() -> FnvHashMap<String, Instrument> {
    let mut instruments = FnvHashMap::default();
    for (name, base, quote) in [("btc_usdt", "btc", "usdt"), ("eth_usdt", "eth", "usdt")] {
        instruments.insert(
            name.to_string(),
            Instrument {
                exchange: EXCHANGE,
                name_exchange: InstrumentNameExchange(name.to_string()),
                underlying: Underlying { base: asset(base), quote: asset(quote) },
            },
        );
    }
    instruments
}

fn snapshot(
    balances: Vec<AssetBalance>,
    instruments: Vec<InstrumentAccountSnapshot>,
) -> AccountSnapshot {
    AccountSnapshot { exchange: EXCHANGE, balances, instruments }
}

fn exchange_from(initial_state: AccountSnapshot) -> MockExchange {
    let config = MockExecutionConfig {
        mocked_exchange: EXCHANGE,
        initial_state,
        latency_ms: 1_000,
        fees_percent: dec(5, 2),
    };
    MockExchange::new(config, instruments())
}

fn exchange() -> MockExchange {
    exchange_from(snapshot(
        vec![
            balance("usdt", dec(2_000, 0), dec(1_000, 0)),
            balance("btc", dec(10, 0), dec(75, 1)),
        ],
        vec![],
    ))
}

fn key(instrument: &str) -> OrderKey {
    OrderKey {
        exchange: EXCHANGE,
        instrument: InstrumentNameExchange(instrument.to_string()),
        strategy: StrategyId("strategy".to_string()),
        cid: ClientOrderId("client".to_string()),
    }
}

fn request(instrument: &str, side: Side, price: Decimal, quantity: Decimal) -> OrderRequestOpen {
    OrderRequestOpen {
        key: key(instrument),
        state: RequestOpen {
            side,
            price,
            quantity,
            kind: OrderKind::Market,
            time_in_force: TimeInForce::ImmediateOrCancel,
        },
    }
}

fn buy(price: Decimal, quantity: Decimal) -> OrderRequestOpen {
    request("btc_usdt", Side::Buy, price, quantity)
}

fn sell(price: Decimal, quantity: Decimal) -> OrderRequestOpen {
    request("btc_usdt", Side::Sell, price, quantity)
}

fn limit(mut request: OrderRequestOpen) -> OrderRequestOpen {
    request.state.kind = OrderKind::Limit;
    request
}

fn order<State>(instrument: &str, state: State) -> Order<State> {
    Order {
        key: key(instrument),
        side: Side::Buy,
        price: dec(100, 0),
        quantity: dec(1, 0),
        kind: OrderKind::Limit,
        time_in_force: TimeInForce::GoodUntilEndOfDay,
        state,
    }
}

fn open(instrument: &str, id: &str, filled: i128) -> Order<Open> {
    order(
        instrument,
        Open {
            id: OrderId(id.to_string()),
            time_exchange: at(1),
            filled_quantity: dec(filled, 0),
        },
    )
}

fn cancelled(instrument: &str, id: &str) -> Order<Cancelled> {
    order(instrument, Cancelled { id: OrderId(id.to_string()), time_exchange: at(2) })
}

/// Total and free balance, in the digits that they are held in.
fn held(exchange: &MockExchange, name: &str) -> (Parts, Parts) {
    let held = exchange.account.balance(&asset(name)).unwrap();
    (held.balance.total.parts(), held.balance.free.parts())
}

fn shown(exchange: &MockExchange) -> String {
    format!("{exchange:?}")
}

fn opened(exchange: &mut MockExchange, request: OrderRequestOpen) -> (Open, OpenOrderNotifications) {
    let (response, notifications) = exchange.open_order(request);
    (response.state.unwrap(), notifications.unwrap())
}

fn refused(exchange: &mut MockExchange, request: OrderRequestOpen) -> OrderError {
    let before = shown(exchange);
    let (response, notifications) = exchange.open_order(request);
    assert!(notifications.is_none());
    assert_eq!(shown(exchange), before);
    response.state.unwrap_err()
}

fn fetch_trades(exchange: &mut MockExchange, now: Timestamp, time_since: Timestamp) -> Vec<Trade> {
    match exchange.handle_request(now, RequestKind::FetchTrades { time_since }) {
        Some(Reply::Trades(trades)) => trades,
        other => panic!("{other:?}"),
    }
}

fn fetch_snapshot(exchange: &mut MockExchange) -> AccountSnapshot {
    match exchange.handle_request(at(0), RequestKind::FetchAccountSnapshot) {
        Some(Reply::AccountSnapshot(snapshot)) => snapshot,
        other => panic!("{other:?}"),
    }
}

#[test]
fn buying_costs_the_value_and_a_fee_on_it() {
    let cost = OrderCost::of(Side::Buy, dec(100, 0), dec(25, 1), dec(5, 2)).unwrap();
    assert_eq!(cost.fee_quote.parts(), (false, 12_500, 3));
    assert_eq!(cost.required.parts(), (false, 262_500, 3));
}

#[test]
fn selling_costs_the_quantity_and_a_fee_on_it() {
    let cost = OrderCost::of(Side::Sell, dec(100, 0), dec(25, 1), dec(5, 2)).unwrap();
    assert_eq!(cost.fee_quote.parts(), (false, 12_500, 3));
    assert_eq!(cost.required.parts(), (false, 2_625, 3));
}

#[test]
fn the_quantity_counts_without_its_sign() {
    for side in [Side::Buy, Side::Sell] {
        let cost = OrderCost::of(side, dec(100, 0), dec(25, 1), dec(5, 2)).unwrap();
        let other = OrderCost::of(side, dec(100, 0), dec(-25, 1), dec(5, 2)).unwrap();
        assert_eq!(cost.fee_quote.parts(), other.fee_quote.parts());
        assert_eq!(cost.required.parts(), other.required.parts());
    }
}

#[test]
fn a_cost_that_overflows_is_none() {
    assert!(OrderCost::of(Side::Buy, largest(), dec(2, 0), dec(0, 0)).is_none());
    assert!(OrderCost::of(Side::Buy, largest(), dec(1, 0), dec(2, 0)).is_none());
    assert!(OrderCost::of(Side::Buy, largest(), dec(1, 0), dec(1, 0)).is_none());
    assert!(OrderCost::of(Side::Sell, dec(2, 0), largest(), dec(1, 0)).is_none());
    assert!(OrderCost::of(Side::Sell, dec(0, 0), largest(), dec(1, 0)).is_none());
}

#[test]
fn a_debit_takes_from_free_and_total() {
    let paid = Debit::of(Balance { total: dec(20, 0), free: dec(10, 0) }, dec(25, 1));
    match paid {
        Debit::Paid(left) => {
            assert_eq!(left.free.parts(), (false, 75, 1));
            assert_eq!(left.total.parts(), (false, 175, 1));
        }
        other => panic!("{other:?}"),
    }
}

#[test]
fn a_debit_may_take_all_that_is_free_and_no_more() {
    let held = Balance { total: dec(20, 0), free: dec(10, 0) };
    assert!(matches!(Debit::of(held, dec(100, 1)), Debit::Paid(_)));
    assert!(matches!(Debit::of(held, dec(101, 1)), Debit::Short));
}

#[test]
fn a_debit_is_paid_where_the_free_balance_covers_it_though_it_is_rounded() {
    let large = Balance { total: largest(), free: largest() };
    match Debit::of(large, dec(3, 1)) {
        Debit::Paid(left) => assert_eq!(left.free.parts(), largest().parts()),
        other => panic!("{other:?}"),
    }
    let small = Balance { total: largest(), free: dec(3, 1) };
    assert!(matches!(Debit::of(small, largest()), Debit::Short));
}

#[test]
fn an_order_is_filled_exactly_where_it_is_covered() {
    for (quantity, filled) in [(952, true), (953, false)] {
        let mut exchange = exchange();
        let (response, _) = exchange.open_order(buy(dec(1_000, 0), dec(quantity, 3)));
        assert_eq!(response.state.is_ok(), filled);
    }
    let mut exchange = exchange_from(snapshot(
        vec![balance("usdt", largest(), largest()), balance("btc", dec(0, 0), dec(0, 0))],
        vec![],
    ));
    opened(&mut exchange, buy(dec(1, 1), dec(1, 0)));
    assert_eq!(held(&exchange, "usdt"), (largest().parts(), largest().parts()));
}

#[test]
fn a_debit_can_overflow() {
    let lowest = Decimal::from_parts(true, (1u128 << 96) - 1, 0).unwrap();
    let free_overflows = Balance { total: dec(0, 0), free: lowest };
    let total_overflows = Balance { total: lowest, free: dec(1, 0) };
    assert!(matches!(Debit::of(free_overflows, dec(1, 0)), Debit::Overflow));
    assert!(matches!(Debit::of(total_overflows, dec(1, 0)), Debit::Overflow));
}

#[test]
fn a_new_exchange_is_as_configured() {
    let exchange = exchange();
    assert_eq!(exchange.exchange, EXCHANGE);
    assert_eq!(exchange.latency_ms, 1_000);
    assert_eq!(exchange.fees_percent.parts(), (false, 5, 2));
    assert_eq!(exchange.order_sequence, 0);
    assert_eq!(exchange.time_exchange(), Timestamp::default());
    assert_eq!(exchange.account.balances().len(), 2);
    assert_eq!(exchange.account.trades(at(0)).len(), 0);
}

#[test]
fn only_market_orders_are_supported() {
    let exchange = exchange();
    assert_eq!(exchange.validate_order_kind_supported(OrderKind::Market), Ok(()));
    assert_eq!(
        exchange.validate_order_kind_supported(OrderKind::Limit),
        Err(OrderError::Rejected(ApiError::OrderRejected(
            "MockExchange does not supported OrderKind: limit".to_string()
        ))),
    );
}

#[test]
fn instruments_are_found_by_name() {
    let exchange = exchange();
    let found = exchange.find_instrument_data(&InstrumentNameExchange("eth_usdt".to_string()));
    assert_eq!(found.unwrap().underlying.base, asset("eth"));
    assert_eq!(
        exchange.find_instrument_data(&InstrumentNameExchange("sol_usdt".to_string())),
        Err(ApiError::InstrumentInvalid(
            InstrumentNameExchange("sol_usdt".to_string()),
            "MockExchange is not set-up for managing: sol_usdt".to_string(),
        )),
    );
}

#[test]
fn a_buyer_pays_in_the_quote_asset() {
    let mut exchange = exchange();
    exchange.update_time_exchange(at(10));
    let (response, notifications) = exchange.open_order(buy(dec(100, 0), dec(25, 1)));
    let now = Timestamp::from_parts(10, 500_000_000).unwrap();

    assert_eq!(response.key, key("btc_usdt"));
    assert_eq!(response.side, Side::Buy);
    assert_eq!(response.price.parts(), (false, 100, 0));
    assert_eq!(response.quantity.parts(), (false, 25, 1));
    assert_eq!(response.kind, OrderKind::Market);
    assert_eq!(response.time_in_force, TimeInForce::ImmediateOrCancel);
    assert_eq!(
        response.state,
        Ok(Open {
            id: OrderId("0".to_string()),
            time_exchange: now,
            filled_quantity: dec(25, 1),
        }),
    );

    let notifications = notifications.unwrap();
    assert_eq!(
        notifications.trade,
        Trade {
            id: TradeId("0".to_string()),
            order_id: OrderId("0".to_string()),
            instrument: InstrumentNameExchange("btc_usdt".to_string()),
            strategy: StrategyId("strategy".to_string()),
            time_exchange: now,
            side: Side::Buy,
            price: dec(100, 0),
            quantity: dec(25, 1),
            fees: AssetFees::quote_fees(dec(12_500, 3)),
        },
    );
    let Snapshot(left) = notifications.balance;
    assert_eq!(left.asset, asset("usdt"));
    assert_eq!(left.time_exchange, now);
    assert_eq!(left.balance.total.parts(), (false, 1_737_500, 3));
    assert_eq!(left.balance.free.parts(), (false, 737_500, 3));

    assert_eq!(held(&exchange, "usdt"), ((false, 1_737_500, 3), (false, 737_500, 3)));
    assert_eq!(held(&exchange, "btc"), ((false, 10, 0), (false, 75, 1)));
    assert_eq!(exchange.order_sequence, 1);
}

#[test]
fn a_seller_pays_in_the_base_asset() {
    let mut exchange = exchange();
    let (open, notifications) = opened(&mut exchange, sell(dec(100, 0), dec(25, 1)));
    assert_eq!(open.filled_quantity.parts(), (false, 25, 1));
    assert_eq!(notifications.trade.side, Side::Sell);
    assert_eq!(notifications.trade.fees.fees.parts(), (false, 12_500, 3));
    assert_eq!(notifications.balance.0.asset, asset("btc"));
    assert_eq!(held(&exchange, "btc"), ((false, 7_375, 3), (false, 4_875, 3)));
    assert_eq!(held(&exchange, "usdt"), ((false, 2_000, 0), (false, 1_000, 0)));
}

#[test]
fn a_filled_order_is_paid_from_free_and_total_alike() {
    let mut exchange = exchange();
    let before = exchange.account.balance(&asset("usdt")).unwrap().balance;
    let (_, notifications) = opened(&mut exchange, buy(dec(123, 1), dec(7, 2)));
    let after = notifications.balance.0.balance;
    assert_eq!(
        before.total.checked_sub(before.free).unwrap(),
        after.total.checked_sub(after.free).unwrap(),
    );
}

#[test]
fn the_whole_free_balance_can_be_spent() {
    let mut exchange = exchange_from(snapshot(
        vec![balance("usdt", dec(1_050, 0), dec(1_050, 0)), balance("btc", dec(0, 0), dec(0, 0))],
        vec![],
    ));
    opened(&mut exchange, buy(dec(1_000, 0), dec(1, 0)));
    assert_eq!(held(&exchange, "usdt"), ((false, 0, 2), (false, 0, 2)));
    assert!(matches!(
        refused(&mut exchange, buy(dec(1, 28), dec(1, 0))),
        OrderError::Rejected(ApiError::BalanceInsufficient(_, _)),
    ));
}

#[test]
fn a_limit_order_is_refused() {
    assert_eq!(
        refused(&mut exchange(), limit(buy(dec(100, 0), dec(1, 0)))),
        OrderError::Rejected(ApiError::OrderRejected(
            "MockExchange does not supported OrderKind: limit".to_string()
        )),
    );
}

#[test]
fn an_order_in_an_unknown_instrument_is_refused() {
    assert_eq!(
        refused(&mut exchange(), request("sol_usdt", Side::Buy, dec(1, 0), dec(1, 0))),
        OrderError::Rejected(ApiError::InstrumentInvalid(
            InstrumentNameExchange("sol_usdt".to_string()),
            "MockExchange is not set-up for managing: sol_usdt".to_string(),
        )),
    );
}

#[test]
fn an_order_over_the_free_balance_is_refused() {
    assert_eq!(
        refused(&mut exchange(), buy(dec(1_000, 0), dec(10, 1))),
        OrderError::Rejected(ApiError::BalanceInsufficient(
            asset("usdt"),
            "Available Balance: 1000, Required Balance inc. fees: 1050.000".to_string(),
        )),
    );
    assert_eq!(
        refused(&mut exchange(), sell(dec(1, 0), dec(8, 0))),
        OrderError::Rejected(ApiError::BalanceInsufficient(
            asset("btc"),
            "Available Balance: 7.5, Required Balance inc. fees: 8.40".to_string(),
        )),
    );
}

#[test]
fn a_refused_order_keeps_its_request() {
    let (response, _) = exchange().open_order(limit(buy(dec(100, 0), dec(1, 0))));
    assert_eq!(response.key, key("btc_usdt"));
    assert_eq!(response.side, Side::Buy);
    assert_eq!(response.price.parts(), (false, 100, 0));
    assert_eq!(response.quantity.parts(), (false, 1, 0));
    assert_eq!(response.kind, OrderKind::Limit);
    assert_eq!(response.time_in_force, TimeInForce::ImmediateOrCancel);
}

#[test]
fn the_balance_check_takes_what_the_order_costs() {
    let mut exchange = exchange();
    let (Snapshot(left), fees) = exchange
        .has_sufficient_available_balance_for_request(&buy(dec(100, 0), dec(25, 1)))
        .unwrap();
    assert_eq!(left, *exchange.account.balance(&asset("usdt")).unwrap());
    assert_eq!(left.balance.free.parts(), (false, 737_500, 3));
    assert_eq!(fees.fees.parts(), (false, 12_500, 3));
    assert_eq!(exchange.order_sequence, 0);
}

#[test]
fn whether_an_order_can_be_paid_for_is_told_beforehand() {
    let exchange = exchange();
    assert_eq!(exchange.can_pay(&buy(dec(100, 0), dec(1, 0))), Some(true));
    assert_eq!(exchange.can_pay(&buy(dec(1_000, 0), dec(1, 0))), Some(false));
    assert_eq!(exchange.can_pay(&request("x", Side::Buy, dec(1, 0), dec(1, 0))), Some(false));
    assert_eq!(exchange.can_pay(&request("eth_usdt", Side::Sell, dec(1, 0), dec(1, 0))), None);
    assert_eq!(exchange.can_pay(&buy(largest(), dec(2, 0))), None);
}

#[test]
fn an_order_that_cannot_be_told_of_gets_no_reply() {
    let mut exchange = exchange();
    let no_balance = request("eth_usdt", Side::Sell, dec(1, 0), dec(1, 0));
    let overflow = buy(largest(), dec(2, 0));
    let expected = {
        let mut other = self::exchange();
        other.update_time_exchange(at(10));
        shown(&other)
    };
    for request in [no_balance, overflow] {
        assert!(!exchange.can_open_order(&request));
        assert!(exchange.handle_request(at(10), RequestKind::OpenOrder(request)).is_none());
        assert_eq!(shown(&exchange), expected);
    }
}

#[test]
fn the_last_number_is_not_given_out() {
    let mut exchange = exchange();
    exchange.order_sequence = u64::MAX - 1;
    let (open, _) = opened(&mut exchange, buy(dec(1, 0), dec(1, 0)));
    assert_eq!(open.id, OrderId("18446744073709551614".to_string()));
    assert!(!exchange.can_open_order(&buy(dec(1, 0), dec(1, 0))));
    assert!(exchange.can_open_order(&buy(dec(1_000, 0), dec(1, 0))));
    assert!(exchange.can_open_order(&limit(buy(dec(1, 0), dec(1, 0)))));
}

#[test]
fn filled_orders_are_numbered_and_refused_ones_are_not() {
    let mut exchange = exchange();
    let mut ids = Vec::new();
    for n in 0..12 {
        let (open, notifications) = opened(&mut exchange, buy(dec(1, 0), dec(1, 0)));
        assert_eq!(notifications.trade.order_id, open.id);
        assert_eq!(notifications.trade.id.0, open.id.0);
        assert_eq!(open.id.0, n.to_string());
        assert!(!ids.contains(&open.id));
        ids.push(open.id);
        refused(&mut exchange, limit(buy(dec(1, 0), dec(1, 0))));
    }
}

#[test]
fn no_order_overdraws_the_account() {
    let mut exchange = exchange();
    let mut filled = 0;
    for _ in 0..12 {
        let request = RequestKind::OpenOrder(buy(dec(100, 0), dec(1, 0)));
        match exchange.handle_request(at(0), request) {
            Some(Reply::OrderOpened(order, _)) => filled += order.state.is_ok() as u32,
            other => panic!("{other:?}"),
        }
        for held in exchange.account.balances() {
            assert!(held.balance.free >= Decimal::zero());
        }
    }
    assert_eq!(filled, 9);
    assert_eq!(held(&exchange, "usdt").1, (false, 5_500, 2));
}

#[test]
fn the_time_is_half_the_latency_after_the_request() {
    let mut exchange = exchange();
    exchange.latency_ms = 2_501;
    exchange.update_time_exchange(at(100));
    assert_eq!(exchange.time_exchange().parts(), (101, 250_000_000));
    for held in exchange.account.balances() {
        assert_eq!(held.time_exchange.parts(), (101, 250_000_000));
    }
}

#[test]
fn a_time_out_of_range_is_that_of_the_request() {
    let mut exchange = exchange();
    exchange.latency_ms = u64::MAX;
    exchange.update_time_exchange(at(100));
    assert_eq!(exchange.time_exchange().parts(), (100, 0));
    exchange.latency_ms = 2_000;
    exchange.update_time_exchange(at(LAST_SECOND));
    assert_eq!(exchange.time_exchange().parts(), (LAST_SECOND, 0));
}

#[test]
fn a_request_does_not_arrive_before_it_was_sent() {
    let mut exchange = exchange();
    for latency_ms in [0, 1, 1_999, u64::MAX] {
        exchange.latency_ms = latency_ms;
        exchange.update_time_exchange(at(7));
        assert!(exchange.time_exchange().not_before(at(7)));
    }
}

#[test]
fn balances_are_fetched() {
    let mut exchange = exchange();
    opened(&mut exchange, buy(dec(100, 0), dec(25, 1)));
    match exchange.handle_request(at(5), RequestKind::FetchBalances) {
        Some(Reply::Balances(balances)) => {
            assert_eq!(balances.len(), 2);
            assert_eq!(balances[0].asset, asset("usdt"));
            assert_eq!(balances[0].balance.free.parts(), (false, 737_500, 3));
            assert_eq!(balances[0].time_exchange.parts(), (5, 500_000_000));
            assert_eq!(balances[1].asset, asset("btc"));
        }
        other => panic!("{other:?}"),
    }
}

#[test]
fn open_orders_are_fetched() {
    let orders = vec![
        Order::from(open("btc_usdt", "a", 0)),
        Order::from(cancelled("btc_usdt", "b")),
        Order::from(open("btc_usdt", "c", 0)),
    ];
    let mut exchange = exchange_from(snapshot(
        vec![],
        vec![InstrumentAccountSnapshot {
            instrument: InstrumentNameExchange("btc_usdt".to_string()),
            orders,
        }],
    ));
    match exchange.handle_request(at(5), RequestKind::FetchOrdersOpen) {
        Some(Reply::OrdersOpen(orders)) => {
            assert_eq!(orders, vec![open("btc_usdt", "a", 0), open("btc_usdt", "c", 0)]);
        }
        other => panic!("{other:?}"),
    }
}

#[test]
fn a_cancel_request_finds_nothing_to_cancel() {
    let mut exchange = exchange();
    let request = || OrderRequestCancel {
        key: key("btc_usdt"),
        id: Some(OrderId("0".to_string())),
    };
    exchange.update_time_exchange(at(5));
    let before = shown(&exchange);
    match exchange.handle_request(at(5), RequestKind::CancelOrder(request())) {
        Some(Reply::NoneToCancel(sent_back)) => assert_eq!(sent_back, request()),
        other => panic!("{other:?}"),
    }
    assert_eq!(shown(&exchange), before);
}

#[test]
fn requests_that_open_no_order_change_only_the_time() {
    let mut exchange = exchange();
    exchange.update_time_exchange(at(5));
    let before = shown(&exchange);
    for kind in [
        RequestKind::FetchAccountSnapshot,
        RequestKind::FetchBalances,
        RequestKind::FetchOrdersOpen,
        RequestKind::FetchTrades { time_since: at(0) },
    ] {
        assert!(exchange.handle_request(at(5), kind).is_some());
        assert_eq!(shown(&exchange), before);
    }
}

#[test]
fn a_filled_order_is_reported_and_recorded() {
    let mut exchange = exchange();
    let request = RequestKind::OpenOrder(buy(dec(100, 0), dec(1, 0)));
    let (order, events) = match exchange.handle_request(at(10), request) {
        Some(Reply::OrderOpened(order, events)) => (order, events.unwrap()),
        other => panic!("{other:?}"),
    };
    assert_eq!(order.state.unwrap().time_exchange.parts(), (10, 500_000_000));
    assert_eq!(events.0.exchange, EXCHANGE);
    assert_eq!(events.1.exchange, EXCHANGE);
    match (events.0.kind, events.1.kind) {
        (AccountEventKind::BalanceSnapshot(Snapshot(left)), AccountEventKind::Trade(trade)) => {
            assert_eq!(left, *exchange.account.balance(&asset("usdt")).unwrap());
            assert_eq!(fetch_trades(&mut exchange, at(11), at(0)), vec![trade]);
        }
        other => panic!("{other:?}"),
    }
}

#[test]
fn a_refused_order_is_not_reported() {
    let mut exchange = exchange();
    let request = RequestKind::OpenOrder(buy(dec(1_000, 0), dec(1, 0)));
    match exchange.handle_request(at(10), request) {
        Some(Reply::OrderOpened(order, events)) => {
            assert!(order.state.is_err());
            assert!(events.is_none());
        }
        other => panic!("{other:?}"),
    }
    assert_eq!(fetch_trades(&mut exchange, at(11), at(0)), vec![]);
}

#[test]
fn trades_are_fetched_from_a_time_on() {
    let mut exchange = exchange();
    for seconds in [10, 20, 30] {
        let request = RequestKind::OpenOrder(buy(dec(1, 0), dec(1, 0)));
        assert!(exchange.handle_request(at(seconds), request).is_some());
    }
    let ids = |trades: Vec<Trade>| trades.into_iter().map(|trade| trade.id.0).collect::<Vec<_>>();
    let second = Timestamp::from_parts(20, 500_000_000).unwrap();
    let after_second = Timestamp::from_parts(20, 500_000_001).unwrap();
    assert_eq!(ids(fetch_trades(&mut exchange, at(40), at(0))), vec!["0", "1", "2"]);
    assert_eq!(ids(fetch_trades(&mut exchange, at(40), second)), vec!["1", "2"]);
    assert_eq!(ids(fetch_trades(&mut exchange, at(40), after_second)), vec!["2"]);
    assert!(fetch_trades(&mut exchange, at(40), at(31)).is_empty());
}

#[test]
fn an_order_keeps_the_set_up_and_the_record() {
    let orders = vec![Order::from(open("btc_usdt", "a", 0)), Order::from(cancelled("btc_usdt", "b"))];
    let mut exchange = exchange_from(snapshot(
        vec![balance("usdt", dec(2_000, 0), dec(1_000, 0)), balance("btc", dec(1, 0), dec(1, 0))],
        vec![InstrumentAccountSnapshot {
            instrument: InstrumentNameExchange("btc_usdt".to_string()),
            orders,
        }],
    ));
    let mut record = Vec::new();
    for _ in 0..3 {
        let request = RequestKind::OpenOrder(buy(dec(1, 0), dec(1, 0)));
        assert!(exchange.handle_request(at(1), request).is_some());
        let trades = exchange.account.trades(at(0));
        assert_eq!(trades[..record.len()], record);
        assert_eq!(trades.len(), record.len() + 1);
        record = trades;
    }
    assert_eq!(*exchange.account.orders_open(), vec![open("btc_usdt", "a", 0)]);
    assert_eq!(*exchange.account.orders_cancelled(), vec![cancelled("btc_usdt", "b")]);
    assert_eq!(exchange.exchange, EXCHANGE);
    assert_eq!(exchange.latency_ms, 1_000);
    assert_eq!(exchange.fees_percent.parts(), (false, 5, 2));
    assert_eq!(exchange.instruments, instruments());
}

#[test]
fn events_carry_the_exchange() {
    let mut exchange = exchange();
    let (_, notifications) = opened(&mut exchange, buy(dec(1, 0), dec(1, 0)));
    let trade = notifications.trade.clone();
    let left = notifications.balance.0.clone();
    let (first, second) = exchange.notification_events(notifications);
    assert_eq!(first.exchange, EXCHANGE);
    assert_eq!(first.kind, AccountEventKind::BalanceSnapshot(Snapshot(left)));
    assert_eq!(second.exchange, EXCHANGE);
    assert_eq!(second.kind, AccountEventKind::Trade(trade));
    assert_eq!(second.clone(), second);
}

/// Orders in a mixed order, with balances.
fn mixed_account() -> AccountSnapshot {
    let group = |instrument: &str, orders: Vec<Order<OrderState>>| InstrumentAccountSnapshot {
        instrument: InstrumentNameExchange(instrument.to_string()),
        orders,
    };
    snapshot(
        vec![balance("usdt", dec(20, 0), dec(10, 0)), balance("btc", dec(2, 0), dec(1, 0))],
        vec![
            group("sol", vec![Order::from(open("sol", "0", 0)), Order::from(open("btc", "1", 0))]),
            group("btc", vec![Order::from(cancelled("eth", "2")), Order::from(open("\u{e9}", "3", 0))]),
            group("x", vec![Order::from(cancelled("btc", "4")), Order::from(open("btc2", "5", 0))]),
        ],
    )
}

/// The numbers of the orders in each group, in ascending order.
fn groups(snapshot: &AccountSnapshot) -> Vec<(String, Vec<String>)> {
    let mut groups = Vec::new();
    for instrument in &snapshot.instruments {
        let mut ids: Vec<String> = Vec::new();
        for order in &instrument.orders {
            assert_eq!(order.key.instrument, instrument.instrument);
            match &order.state {
                OrderState::Active(ActiveOrderState::Open(state)) => ids.push(state.id.0.clone()),
                OrderState::Inactive(InactiveOrderState::Cancelled(state)) => {
                    ids.push(state.id.0.clone())
                }
                other => panic!("{other:?}"),
            }
        }
        ids.sort();
        groups.push((instrument.instrument.0.clone(), ids));
    }
    groups
}

#[test]
fn a_snapshot_groups_orders_by_instrument() {
    let snapshot = exchange_from(mixed_account()).account_snapshot();
    let expected = [
        ("btc", vec!["1", "4"]),
        ("btc2", vec!["5"]),
        ("eth", vec!["2"]),
        ("sol", vec!["0"]),
        ("\u{e9}", vec!["3"]),
    ];
    let shown = groups(&snapshot);
    assert_eq!(shown.len(), expected.len());
    for (group, (instrument, ids)) in shown.iter().zip(expected) {
        assert_eq!(group.0, instrument);
        assert_eq!(group.1, ids);
    }
    assert_eq!(snapshot.exchange, EXCHANGE);
    assert_eq!(snapshot.balances, mixed_account().balances);
}

#[test]
fn a_snapshot_without_orders_has_no_groups() {
    assert!(exchange().account_snapshot().instruments.is_empty());
}

#[test]
fn an_exchange_is_restored_from_a_snapshot() {
    let mut first = exchange_from(mixed_account());
    let snapshot = fetch_snapshot(&mut first);
    let mut second = exchange_from(snapshot);
    let ids = |exchange: &MockExchange| {
        let mut open: Vec<String> =
            exchange.account.orders_open().iter().map(|order| order.state.id.0.clone()).collect();
        let mut cancelled: Vec<String> = exchange
            .account
            .orders_cancelled()
            .iter()
            .map(|order| order.state.id.0.clone())
            .collect();
        open.sort();
        cancelled.sort();
        (open, cancelled)
    };
    assert_eq!(ids(&first), ids(&second));
    assert_eq!(first.account.balances(), second.account.balances());
    let again = groups(&fetch_snapshot(&mut second));
    assert_eq!(again, groups(&fetch_snapshot(&mut first)));
}
