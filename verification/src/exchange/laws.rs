//! What holds of every exchange and every request.

use super::cost::{cost_of, cost_of_buying, cost_of_selling, Cost};
use super::request::{answers, answers_order, Reply, RequestKind};
use super::{arrival, at_time, opens, paying_asset, Exchange, OpenOrderNotifications};
use crate::account::{trades_since, Account};
use crate::decimal::{
    difference_is_exact, exact_difference_is_the_difference, exact_product,
    exact_product_is_the_product, exact_sum_is_the_sum, product_is_exact, sum_is_exact, Amount,
    MAX_SCALE,
};
use crate::error::OrderError;
use crate::keyed::{lookup_after_put, slot_is_first};
use crate::order::{Open, Order, OrderKind, OrderRequestOpen, Side};
use crate::snapshot::{AccountEvent, AccountEventKind, AssetBalance};
use crate::text::digits_determine_the_number;
use crate::time::{adding_millis_is_not_before, Instant, Timestamp};
use vstd::arithmetic::power::pow;
use vstd::prelude::*;

verus! {

/// An order that is refused leaves the exchange as it is, and nobody is told of a trade.
pub proof fn a_refused_order_changes_nothing(
    before: Exchange,
    request: OrderRequestOpen,
    response: Order<Result<Open, OrderError>>,
    notifications: Option<OpenOrderNotifications>,
    after: Exchange,
)
    requires
        opens(before, request, response, notifications, after),
        response.state is Err,
    ensures
        after == before,
        notifications is None,
{
}

/// An order is filled only where it is a market order, and then in full and in one trade, which
/// has the number of the order.
pub proof fn a_filled_order_is_filled_in_full(
    before: Exchange,
    request: OrderRequestOpen,
    response: Order<Result<Open, OrderError>>,
    notifications: Option<OpenOrderNotifications>,
    after: Exchange,
)
    requires
        opens(before, request, response, notifications, after),
        response.state is Ok,
    ensures
        request.state.kind == OrderKind::Market,
        response.state->Ok_0.filled_quantity == request.state.quantity,
        notifications is Some,
        notifications->0.trade.quantity == request.state.quantity,
        notifications->0.trade.order_id@ == response.state->Ok_0.id@,
        notifications->0.trade.id@ == response.state->Ok_0.id@,
{
}

/// An order changes no balance but that of the asset that pays for it, and the client is told
/// what that balance then is.
pub proof fn an_order_changes_one_balance(
    before: Exchange,
    request: OrderRequestOpen,
    response: Order<Result<Open, OrderError>>,
    notifications: Option<OpenOrderNotifications>,
    after: Exchange,
    asset: Seq<char>,
)
    requires
        opens(before, request, response, notifications, after),
    ensures
        ({
            let underlying = before.instruments[request.key.instrument@].underlying;
            let paying = paying_asset(underlying, request.state.side)@;
            if response.state is Ok && asset == paying {
                after.account.balance(asset) == Some(notifications->0.balance.0)
            } else {
                after.account.balance(asset) == before.account.balance(asset)
            }
        }),
{
    if response.state is Ok {
        let underlying = before.instruments[request.key.instrument@].underlying;
        slot_is_first(
            before.account.balances,
            paying_asset(underlying, request.state.side)@,
        );
        lookup_after_put(before.account.balances, notifications->0.balance.0, asset);
    }
}

/// A market order that can be paid for or refused is filled exactly where the free balance of the
/// asset that pays for it covers what it costs.
pub proof fn an_order_is_filled_where_it_is_covered(
    before: Exchange,
    request: OrderRequestOpen,
    response: Order<Result<Open, OrderError>>,
    notifications: Option<OpenOrderNotifications>,
    after: Exchange,
    held: AssetBalance,
    cost: Cost,
)
    requires
        opens(before, request, response, notifications, after),
        request.state.kind == OrderKind::Market,
        before.instruments.contains_key(request.key.instrument@),
        before.cost(request) == Some(cost),
        before.account.balance(
            paying_asset(
                before.instruments[request.key.instrument@].underlying,
                request.state.side,
            )@,
        ) == Some(held),
    ensures
        response.state is Ok <==> held.balance.free@.value() >= cost.required.value(),
{
}

/// Whether the differences of a debit need no rounding.
pub open spec fn debit_is_exact(held: AssetBalance, required: Amount) -> bool {
    &&& difference_is_exact(held.balance.free@, required)
    &&& difference_is_exact(held.balance.total@, required)
}

/// An order that is filled takes what it costs from the free balance and from the total, so that
/// what is bound by other orders stays the same. This is exact where nothing is rounded.
pub proof fn a_filled_order_takes_its_cost(
    before: Exchange,
    request: OrderRequestOpen,
    response: Order<Result<Open, OrderError>>,
    notifications: Option<OpenOrderNotifications>,
    after: Exchange,
    held: AssetBalance,
    cost: Cost,
)
    requires
        opens(before, request, response, notifications, after),
        response.state is Ok,
        before.cost(request) == Some(cost),
        before.account.balance(
            paying_asset(
                before.instruments[request.key.instrument@].underlying,
                request.state.side,
            )@,
        ) == Some(held),
        held.balance.free@.in_range(),
        held.balance.total@.in_range(),
        cost.required.in_range(),
        debit_is_exact(held, cost.required),
    ensures
        ({
            let left = notifications->0.balance.0.balance;
            &&& left.free@.value() == held.balance.free@.value() - cost.required.value()
            &&& left.total@.value() == held.balance.total@.value() - cost.required.value()
            &&& left.total@.value() - left.free@.value() == held.balance.total@.value()
                - held.balance.free@.value()
        }),
{
    exact_difference_is_the_difference(held.balance.free@, cost.required);
    exact_difference_is_the_difference(held.balance.total@, cost.required);
}

/// No free balance is below zero.
pub open spec fn not_overdrawn(account: Account) -> bool {
    forall|i: int|
        0 <= i < account.balances.len() ==> (
        #[trigger] account.balances[i]).balance.free@.value() >= 0
}

/// An account that is not overdrawn is never overdrawn by a request.
pub proof fn no_request_overdraws(
    before: Exchange,
    time: Timestamp,
    request: RequestKind,
    reply: Reply,
    after: Exchange,
)
    requires
        not_overdrawn(before.account),
        answers(at_time(before, time), request, reply, after),
    ensures
        not_overdrawn(after.account),
{
    let at = at_time(before, time);
    assert forall|i: int| 0 <= i < at.account.balances.len() implies (
    #[trigger] at.account.balances[i]).balance.free@.value() >= 0 by {
        assert(at.account.balances[i].balance == before.account.balances[i].balance);
    }
    if let RequestKind::OpenOrder(order) = request {
        if let Reply::OrderOpened(response, events) = reply {
            if events is Some {
                let paying = paying_asset(
                    at.instruments[order.key.instrument@].underlying,
                    order.state.side,
                )@;
                slot_is_first(at.account.balances, paying);
            }
        }
    }
}

/// A number is used up by each order that is filled, and by no other request.
pub proof fn a_filled_order_uses_up_a_number(
    at: Exchange,
    request: RequestKind,
    reply: Reply,
    after: Exchange,
)
    requires
        answers(at, request, reply, after),
    ensures
        after.order_sequence == at.order_sequence + if reply matches Reply::OrderOpened(response, _)
            && response.state is Ok {
            1nat
        } else {
            0nat
        },
{
}

/// Two orders that are filled one after the other have different numbers.
pub proof fn order_numbers_do_not_repeat(
    before: Exchange,
    request: OrderRequestOpen,
    response: Order<Result<Open, OrderError>>,
    notifications: Option<OpenOrderNotifications>,
    after: Exchange,
    later: Exchange,
    later_request: OrderRequestOpen,
    later_response: Order<Result<Open, OrderError>>,
    later_notifications: Option<OpenOrderNotifications>,
    last: Exchange,
)
    requires
        opens(before, request, response, notifications, after),
        response.state is Ok,
        later.order_sequence >= after.order_sequence,
        opens(later, later_request, later_response, later_notifications, last),
        later_response.state is Ok,
    ensures
        response.state->Ok_0.id@ != later_response.state->Ok_0.id@,
{
    if response.state->Ok_0.id@ == later_response.state->Ok_0.id@ {
        digits_determine_the_number(before.order_sequence, later.order_sequence);
    }
}

/// The trade of an order that was filled comes last among the trades that are fetched after it,
/// from any time that its own is not before.
pub proof fn a_filled_order_is_on_record(
    at: Exchange,
    request: OrderRequestOpen,
    response: Order<Result<Open, OrderError>>,
    events: Option<(AccountEvent, AccountEvent)>,
    after: Exchange,
    time_since: Instant,
)
    requires
        answers_order(at, request, response, events, after),
        response.state is Ok,
        at.time_exchange@.not_before(time_since),
    ensures
        ({
            &&& events matches Some((_, event))
            &&& event.kind matches AccountEventKind::Trade(trade)
            &&& trades_since(after.account.trades, time_since) == trades_since(
                at.account.trades,
                time_since,
            ).push(trade)
        }),
{
    if let Some((_, event)) = events {
        if let AccountEventKind::Trade(trade) = event.kind {
            assert(after.account.trades.drop_last() =~= at.account.trades);
        }
    }
}

/// A request that does not open an order leaves the exchange as it is.
pub proof fn only_orders_change_the_exchange(
    at: Exchange,
    request: RequestKind,
    reply: Reply,
    after: Exchange,
)
    requires
        answers(at, request, reply, after),
        !(request is OpenOrder),
    ensures
        after == at,
{
}

/// No request changes what the exchange was set up with or the orders that its account started
/// from, and no trade on record is lost or changed.
pub proof fn a_request_keeps_the_set_up_and_the_record(
    at: Exchange,
    request: RequestKind,
    reply: Reply,
    after: Exchange,
)
    requires
        answers(at, request, reply, after),
    ensures
        after.exchange == at.exchange,
        after.latency_ms == at.latency_ms,
        after.fees_percent == at.fees_percent,
        after.instruments == at.instruments,
        after.account.orders_open == at.account.orders_open,
        after.account.orders_cancelled == at.account.orders_cancelled,
        at.account.trades.is_prefix_of(after.account.trades),
{
}

/// A request arrives no earlier than it was sent.
pub proof fn a_request_arrives_after_it_was_sent(time_request: Instant, latency_ms: nat)
    requires
        time_request.in_range(),
    ensures
        arrival(time_request, latency_ms).not_before(time_request),
{
    adding_millis_is_not_before(time_request, latency_ms / 2);
}

/// An order costs the same whatever the sign of its quantity.
pub proof fn the_sign_of_the_quantity_does_not_count(
    side: Side,
    price: Amount,
    quantity: Amount,
    fees_percent: Amount,
)
    ensures
        cost_of(side, price, quantity, fees_percent) == cost_of(
            side,
            price,
            quantity.negated(),
            fees_percent,
        ),
{
    assert(quantity.negated().abs() == quantity.abs());
}

/// A buyer pays the price of the quantity and the fee on that, where nothing is rounded.
///
/// Products of values count in squares of the smallest decimal place, hence the power of ten.
pub proof fn buying_costs_the_value_and_the_fee(
    price: Amount,
    quantity: Amount,
    fees_percent: Amount,
)
    requires
        price.in_range(),
        quantity.in_range(),
        fees_percent.in_range(),
        product_is_exact(price, quantity.abs()),
        product_is_exact(exact_product(price, quantity.abs()), fees_percent),
        sum_is_exact(
            exact_product(price, quantity.abs()),
            exact_product(exact_product(price, quantity.abs()), fees_percent),
        ),
    ensures
        ({
            let unit = pow(10, MAX_SCALE as nat);
            let value = exact_product(price, quantity.abs()).value();
            &&& cost_of_buying(price, quantity, fees_percent) matches Some(cost)
            &&& value * unit == price.value() * quantity.abs().value()
            &&& cost.fee_quote.value() * unit == value * fees_percent.value()
            &&& cost.required.value() == value + cost.fee_quote.value()
        }),
{
    let value = exact_product(price, quantity.abs());
    let fee = exact_product(value, fees_percent);
    exact_product_is_the_product(price, quantity.abs());
    exact_product_is_the_product(value, fees_percent);
    exact_sum_is_the_sum(value, fee);
}

/// A seller pays the quantity and the fee on that, where nothing is rounded; the fee is reported
/// at the price.
///
/// Products of values count in squares of the smallest decimal place, hence the power of ten.
pub proof fn selling_costs_the_quantity_and_the_fee(
    price: Amount,
    quantity: Amount,
    fees_percent: Amount,
)
    requires
        price.in_range(),
        quantity.in_range(),
        fees_percent.in_range(),
        product_is_exact(quantity.abs(), fees_percent),
        product_is_exact(exact_product(quantity.abs(), fees_percent), price),
        sum_is_exact(quantity.abs(), exact_product(quantity.abs(), fees_percent)),
    ensures
        ({
            let unit = pow(10, MAX_SCALE as nat);
            let fee = exact_product(quantity.abs(), fees_percent).value();
            &&& cost_of_selling(price, quantity, fees_percent) matches Some(cost)
            &&& fee * unit == quantity.abs().value() * fees_percent.value()
            &&& cost.fee_quote.value() * unit == fee * price.value()
            &&& cost.required.value() == quantity.abs().value() + fee
        }),
{
    let fee = exact_product(quantity.abs(), fees_percent);
    exact_product_is_the_product(quantity.abs(), fees_percent);
    exact_product_is_the_product(fee, price);
    exact_sum_is_the_sum(quantity.abs(), fee);
}

} // verus!
