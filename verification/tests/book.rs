use simulated_exchange::book::order_book_side::{OrderBookSide, PriceLevels};
use simulated_exchange::book::price_key::{AskPrice, BidPrice, PriceKey};
use simulated_exchange::book::OrderBook;
use simulated_exchange::decimal::Decimal;
use simulated_exchange::names::{
    ClientOrderId, ExchangeId, InstrumentNameExchange, OrderId, StrategyId,
};
use simulated_exchange::order::{Open, Order, OrderKey, OrderKind, Side, TimeInForce};
use simulated_exchange::time::Timestamp;

fn dec(mantissa: i128, scale: u32) -> Decimal {
    Decimal::from_parts(mantissa < 0, mantissa.unsigned_abs(), scale).unwrap()
}

fn order(id: &str, price: Decimal) -> Order<Open> {
    Order {
        key: OrderKey {
            exchange: ExchangeId("mock"),
            instrument: InstrumentNameExchange("btc_usdt".to_string()),
            strategy: StrategyId("strategy".to_string()),
            cid: ClientOrderId(format!("client-{id}")),
        },
        side: Side::Buy,
        price,
        quantity: dec(1, 0),
        kind: OrderKind::Limit,
        time_in_force: TimeInForce::GoodUntilCancelled { post_only: false },
        state: Open {
            id: OrderId(id.to_string()),
            time_exchange: Timestamp::default(),
            filled_quantity: dec(0, 0),
        },
    }
}

/// The text of each level's price, with the numbers of its orders.
fn shown<T: PriceKey>(side: &OrderBookSide<T>) -> Vec<(String, Vec<String>)> {
    let mut levels = Vec::new();
    for at in 0..side.levels.len() {
        let level = side.levels.level(at).unwrap();
        let ids = level.orders.iter().map(|order| order.state.id.0.clone()).collect();
        levels.push((level.key.price().text(), ids));
    }
    levels
}

fn side<T: PriceKey>(prices: &[(&str, Decimal)]) -> OrderBookSide<T> {
    let mut side = OrderBookSide::new(PriceLevels::new());
    for (id, price) in prices {
        side.insert_order(&order(id, *price));
    }
    side
}

fn level(price: &str, ids: &[&str]) -> (String, Vec<String>) {
    (price.to_string(), ids.iter().map(|id| id.to_string()).collect())
}

#[test]
fn asks_come_lowest_first() {
    let asks = side::<AskPrice>(&[("0", dec(102, 0)), ("1", dec(100, 0)), ("2", dec(1015, 1))]);
    assert_eq!(
        shown(&asks),
        vec![level("100", &["1"]), level("101.5", &["2"]), level("102", &["0"])],
    );
}

#[test]
fn bids_come_highest_first() {
    let bids = side::<BidPrice>(&[("0", dec(99, 0)), ("1", dec(100, 0)), ("2", dec(995, 1))]);
    assert_eq!(
        shown(&bids),
        vec![level("100", &["1"]), level("99.5", &["2"]), level("99", &["0"])],
    );
}

#[test]
fn orders_at_a_price_wait_in_the_order_of_arrival() {
    let asks = side::<AskPrice>(&[
        ("0", dec(100, 0)),
        ("1", dec(101, 0)),
        ("2", dec(100, 0)),
        ("3", dec(100, 0)),
    ]);
    assert_eq!(shown(&asks), vec![level("100", &["0", "2", "3"]), level("101", &["1"])]);
}

#[test]
fn equal_prices_share_a_level_which_keeps_its_key() {
    let bids = side::<BidPrice>(&[("0", dec(100, 1)), ("1", dec(10, 0)), ("2", dec(1000, 2))]);
    assert_eq!(shown(&bids), vec![level("10.0", &["0", "1", "2"])]);
}

#[test]
fn an_order_is_inserted_as_a_copy() {
    let first = order("7", dec(100, 0));
    let mut asks = OrderBookSide::<AskPrice>::new(PriceLevels::new());
    asks.insert_order(&first);
    assert_eq!(asks.levels.level(0).unwrap().orders[0], first);
    assert!(asks.levels.level(1).is_none());
}

#[test]
fn orders_wait_at_the_level_of_their_price() {
    let mut asks = OrderBookSide::<AskPrice>::new(PriceLevels::new());
    let mut bids = OrderBookSide::<BidPrice>::new(PriceLevels::new());
    for n in 0..40 {
        let waiting = order("x", dec(n * 7 % 11 * 10i128.pow(n as u32 % 3), n as u32 % 3));
        asks.insert_order(&waiting);
        bids.insert_order(&waiting);
        for at in 0..asks.levels.len() {
            let (ask, bid) = (asks.levels.level(at).unwrap(), bids.levels.level(at).unwrap());
            assert!(!ask.orders.is_empty() && !bid.orders.is_empty());
            assert!(ask.orders.iter().all(|order| order.price == ask.key.price()));
            assert!(bid.orders.iter().all(|order| order.price == bid.key.price()));
        }
    }
    assert_eq!((asks.levels.len(), bids.levels.len()), (11, 11));
}

#[test]
fn every_insert_adds_one_order() {
    let mut asks = OrderBookSide::<AskPrice>::new(PriceLevels::new());
    for n in 0..50 {
        asks.insert_order(&order("x", dec(n * 7 % 13, 0)));
        let mut count = 0;
        for at in 0..asks.levels.len() {
            count += asks.levels.level(at).unwrap().orders.len();
        }
        assert_eq!(count as i128, n + 1);
    }
    assert_eq!(asks.levels.len(), 13);
}

#[test]
fn asks_fill_buyers_who_pay_the_lowest_of_them() {
    let mut asks = side::<AskPrice>(&[("0", dec(102, 0)), ("1", dec(100, 0))]);
    assert!(!asks.is_order_fillable(&order("b", dec(9999, 2))));
    assert!(asks.is_order_fillable(&order("b", dec(1000, 1))));
    assert!(asks.is_order_fillable(&order("b", dec(101, 0))));
    assert_eq!(shown(&asks), vec![level("100", &["1"]), level("102", &["0"])]);
}

#[test]
fn bids_fill_sellers_who_take_the_highest_of_them() {
    let mut bids = side::<BidPrice>(&[("0", dec(98, 0)), ("1", dec(100, 0))]);
    assert!(!bids.is_order_fillable(&order("s", dec(10001, 2))));
    assert!(bids.is_order_fillable(&order("s", dec(1000, 1))));
    assert!(bids.is_order_fillable(&order("s", dec(99, 0))));
}

#[test]
fn a_price_of_zero_is_filled_at_any_price() {
    let mut asks = side::<AskPrice>(&[("0", dec(102, 0))]);
    let mut bids = side::<BidPrice>(&[("0", dec(-5, 0))]);
    assert!(asks.is_order_fillable(&order("b", dec(0, 0))));
    assert!(asks.is_order_fillable(&order("b", dec(0, 8))));
    assert!(bids.is_order_fillable(&order("s", dec(0, 3))));
}

#[test]
fn a_side_without_orders_fills_nothing() {
    let mut asks = OrderBookSide::<AskPrice>::new(PriceLevels::new());
    let mut bids = OrderBookSide::<BidPrice>::new(PriceLevels::new());
    assert!(!asks.is_order_fillable(&order("b", dec(0, 0))));
    assert!(!bids.is_order_fillable(&order("s", dec(0, 0))));
    assert_eq!(asks.levels.len(), 0);
}

#[test]
fn one_more_order_fills_no_less() {
    let mut asks = side::<AskPrice>(&[("0", dec(102, 0))]);
    let mut bids = side::<BidPrice>(&[("0", dec(98, 0))]);
    assert!(!asks.is_order_fillable(&order("b", dec(101, 0))));
    assert!(!bids.is_order_fillable(&order("s", dec(99, 0))));
    asks.insert_order(&order("1", dec(101, 0)));
    asks.insert_order(&order("2", dec(103, 0)));
    bids.insert_order(&order("1", dec(99, 0)));
    bids.insert_order(&order("2", dec(97, 0)));
    assert!(asks.is_order_fillable(&order("b", dec(101, 0))));
    assert!(asks.is_order_fillable(&order("b", dec(102, 0))));
    assert!(bids.is_order_fillable(&order("s", dec(99, 0))));
    assert!(bids.is_order_fillable(&order("s", dec(98, 0))));
}

#[test]
fn keys_compare_by_what_comes_first() {
    assert!(AskPrice::from(dec(1, 0)) < AskPrice::from(dec(2, 0)));
    assert!(BidPrice::from(dec(2, 0)) < BidPrice::from(dec(1, 0)));
    assert!(AskPrice::from(dec(10, 1)) == AskPrice::from(dec(1, 0)));
    assert!(BidPrice::from(dec(10, 1)) == BidPrice::from(dec(1, 0)));
    assert_eq!(
        AskPrice::from(dec(10, 1)).partial_cmp(&AskPrice::from(dec(1, 0))),
        Some(std::cmp::Ordering::Equal),
    );
}

#[test]
fn keys_hold_the_price_that_they_are_made_from() {
    assert_eq!(AskPrice::from(dec(-150, 2)).price().parts(), (true, 150, 2));
    assert_eq!(BidPrice::from(dec(150, 2)).price().parts(), (false, 150, 2));
}

#[test]
fn keys_fill_prices_on_their_side() {
    let ask = AskPrice::from(dec(100, 0));
    let bid = BidPrice::from(dec(100, 0));
    assert!(ask.fill_possible(dec(100, 0)) && bid.fill_possible(dec(100, 0)));
    assert!(ask.fill_possible(dec(101, 0)) && !bid.fill_possible(dec(101, 0)));
    assert!(!ask.fill_possible(dec(99, 0)) && bid.fill_possible(dec(99, 0)));
    assert!(ask.fill_possible(dec(0, 0)) && bid.fill_possible(dec(0, 0)));
    assert!(!ask.fill_possible(dec(-1, 28)));
}

#[test]
fn a_book_is_made_of_its_sides() {
    let bids = side::<BidPrice>(&[("0", dec(98, 0))]);
    let asks = side::<AskPrice>(&[("1", dec(102, 0))]);
    let parts = format!("OrderBook {{ bid: {bids:?}, ask: {asks:?} }}");
    assert_eq!(format!("{:?}", OrderBook::new(bids, asks)), parts);
}
