use simulated_exchange::account::AccountState;
use simulated_exchange::decimal::Decimal;
use simulated_exchange::error::{ApiError, OrderError};
use simulated_exchange::grouping::group_by_instrument;
use simulated_exchange::keyed::put;
use simulated_exchange::names::{
    AssetNameExchange, ClientOrderId, ExchangeId, InstrumentNameExchange, OrderId, StrategyId,
};
use simulated_exchange::order::{
    ActiveOrderState, Cancelled, InactiveOrderState, Open, Order, OrderKey, OrderKind, OrderState,
    Side, TimeInForce,
};
use simulated_exchange::snapshot::{
    AccountSnapshot, AssetBalance, Balance, InstrumentAccountSnapshot,
};
use simulated_exchange::time::Timestamp;

fn balance(name: &str, amount: u128) -> AssetBalance {
    let amount = Decimal::from_parts(false, amount, 0).unwrap();
    AssetBalance {
        asset: AssetNameExchange(name.to_string()),
        balance: Balance { total: amount, free: amount },
        time_exchange: Timestamp::default(),
    }
}

fn order<State>(instrument: &str, quantity: u128, state: State) -> Order<State> {
    Order {
        key: OrderKey {
            exchange: ExchangeId("mock"),
            instrument: InstrumentNameExchange(instrument.to_string()),
            strategy: StrategyId("strategy".to_string()),
            cid: ClientOrderId("client".to_string()),
        },
        side: Side::Sell,
        price: Decimal::from_parts(false, 100, 0).unwrap(),
        quantity: Decimal::from_parts(false, quantity, 0).unwrap(),
        kind: OrderKind::Limit,
        time_in_force: TimeInForce::FillOrKill,
        state,
    }
}

fn open(id: &str, quantity: u128) -> Order<Open> {
    let state = Open {
        id: OrderId(id.to_string()),
        time_exchange: Timestamp::default(),
        filled_quantity: Decimal::zero(),
    };
    order("btc_usdt", quantity, state)
}

fn cancelled(id: &str, quantity: u128) -> Order<Cancelled> {
    let state = Cancelled { id: OrderId(id.to_string()), time_exchange: Timestamp::default() };
    order("btc_usdt", quantity, state)
}

fn account(balances: Vec<AssetBalance>, groups: Vec<Vec<Order<OrderState>>>) -> AccountState {
    let mut instruments = Vec::new();
    for orders in groups {
        instruments.push(InstrumentAccountSnapshot {
            instrument: InstrumentNameExchange("btc_usdt".to_string()),
            orders,
        });
    }
    AccountState::from_snapshot(AccountSnapshot {
        exchange: ExchangeId("mock"),
        balances,
        instruments,
    })
}

#[test]
fn a_later_balance_takes_the_place_of_an_earlier_one() {
    let account = account(vec![balance("a", 1), balance("b", 2), balance("a", 3)], vec![]);
    assert_eq!(*account.balances(), vec![balance("a", 3), balance("b", 2)]);
}

#[test]
fn a_later_order_takes_the_place_of_an_earlier_one() {
    let account = account(
        vec![],
        vec![
            vec![Order::from(open("0", 1)), Order::from(cancelled("0", 2))],
            vec![Order::from(open("1", 3)), Order::from(open("0", 4)), Order::from(cancelled("0", 5))],
        ],
    );
    assert_eq!(*account.orders_open(), vec![open("0", 4), open("1", 3)]);
    assert_eq!(*account.orders_cancelled(), vec![cancelled("0", 5)]);
}

#[test]
fn orders_in_other_states_are_left_out() {
    let error = OrderError::from(ApiError::OrderRejected("no".to_string()));
    let account = account(
        vec![],
        vec![vec![
            order("x", 1, OrderState::Active(ActiveOrderState::OpenInFlight)),
            order("x", 1, OrderState::Active(ActiveOrderState::CancelInFlight)),
            order("x", 1, OrderState::Inactive(InactiveOrderState::FullyFilled)),
            order("x", 1, OrderState::Inactive(InactiveOrderState::Expired)),
            order("x", 1, OrderState::Inactive(InactiveOrderState::OpenFailed(error))),
            Order::from(open("0", 1)),
        ]],
    );
    assert_eq!(*account.orders_open(), vec![open("0", 1)]);
    assert!(account.orders_cancelled().is_empty());
}

#[test]
fn balances_are_found_by_asset() {
    let mut account = account(vec![balance("a", 1), balance("b", 2)], vec![]);
    let name = AssetNameExchange("b".to_string());
    assert_eq!(account.balance(&name), Some(&balance("b", 2)));
    assert!(account.balance(&AssetNameExchange("c".to_string())).is_none());
    assert!(account.balance_mut(&AssetNameExchange("c".to_string())).is_none());
    account.balance_mut(&name).unwrap().balance = balance("b", 7).balance;
    assert_eq!(*account.balances(), vec![balance("a", 1), balance("b", 7)]);
}

#[test]
fn the_time_is_set_on_every_balance() {
    let mut account = account(vec![balance("a", 1), balance("b", 2)], vec![]);
    let time = Timestamp::from_parts(5, 6).unwrap();
    account.update_time_exchange(time);
    for held in account.balances() {
        assert_eq!(held.time_exchange, time);
    }
    assert_eq!(account.balances()[1].balance, balance("b", 2).balance);
}

#[test]
fn an_item_is_put_in_the_place_of_its_key() {
    let mut balances = vec![balance("a", 1), balance("b", 2)];
    put(&mut balances, balance("a", 3));
    put(&mut balances, balance("c", 4));
    assert_eq!(balances, vec![balance("a", 3), balance("b", 2), balance("c", 4)]);
}

#[test]
fn orders_change_into_orders_in_any_state() {
    let any: Order<OrderState> = Order::from(open("0", 1));
    assert_eq!(any.state, OrderState::Active(ActiveOrderState::Open(open("0", 1).state)));
    assert_eq!(any.quantity, open("0", 1).quantity);
    let any: Order<OrderState> = Order::from(cancelled("0", 2));
    assert_eq!(
        any.state,
        OrderState::Inactive(InactiveOrderState::Cancelled(cancelled("0", 2).state)),
    );
    assert_eq!(any.time_in_force, TimeInForce::FillOrKill);
}

#[test]
fn order_kinds_have_names() {
    assert_eq!(OrderKind::Market.name(), "market");
    assert_eq!(OrderKind::Limit.name(), "limit");
}

#[test]
fn groups_come_in_the_order_of_their_names() {
    let names = ["b", "", "a", "b", "aa", "\u{1F600}", "\u{FFFD}", "a", "B"];
    let mut orders = Vec::new();
    for name in names {
        orders.push(order(name, 1, OrderState::Active(ActiveOrderState::OpenInFlight)));
    }
    let groups = group_by_instrument(orders);
    let mut shown = Vec::new();
    for group in &groups {
        shown.push((group.instrument.0.as_str(), group.orders.len()));
    }
    assert_eq!(
        shown,
        vec![("", 1), ("B", 1), ("a", 2), ("aa", 1), ("b", 2), ("\u{FFFD}", 1), ("\u{1F600}", 1)],
    );
}

#[test]
fn groups_of_no_orders_are_none() {
    assert!(group_by_instrument(vec![]).is_empty());
}
