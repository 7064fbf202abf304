//! What a client reads of the exchange, in the fields of the account as it was before the request.

use super::request::{answers, answers_order, Reply, RequestKind};
use super::{any_cancelled, any_open, arrival, at_time, snapshots, Exchange};
use crate::account::{
    a_balance_is_that_of_its_asset, an_account_has_one_of_each, setting_the_time_keeps_every_amount,
    trades_since_a_time_are_no_earlier,
};
use crate::grouping::groups_hold_the_orders_by_instrument;
use crate::order::{
    ActiveOrderState, InactiveOrderState, Order, OrderRequestCancel, OrderRequestOpen, OrderState,
};
use crate::snapshot::{all_orders, AccountSnapshot};
use crate::time::{Instant, Timestamp};
use vstd::prelude::*;

verus! {

/// A request arrives half of the latency after it was sent, counted in nanoseconds, where that time
/// can be reached, and else at the time at which it was sent. A leap second that is left on the way
/// counts for nothing.
pub proof fn a_request_takes_half_of_the_latency(time_request: Instant, latency_ms: nat)
    requires
        time_request.in_range(),
    ensures
        ({
            let now = arrival(time_request, latency_ms);
            let passed = (latency_ms / 2) * 1_000_000;
            let leap = time_request.nanos >= 1_000_000_000;
            let nanos = time_request.nanos + passed;
            let end = time_request.seconds * 1_000_000_000 + nanos - if leap {
                1_000_000_000int
            } else {
                0int
            };
            if leap && nanos < 2_000_000_000 {
                now.seconds == time_request.seconds && now.nanos == nanos
            } else if end / 1_000_000_000 <= 8_210_266_876_799 {
                now.seconds == end / 1_000_000_000 && now.nanos == end % 1_000_000_000
            } else {
                now == time_request
            }
        }),
{
}

/// Moving the time of the exchange moves the time of every balance, and changes nothing else: no
/// asset, no amount, no order, no trade, and nothing that the exchange was set up with.
pub proof fn moving_the_time_changes_nothing_else(before: Exchange, time: Timestamp)
    ensures
        ({
            let at = at_time(before, time);
            &&& at.time_exchange == time
            &&& at.exchange == before.exchange
            &&& at.latency_ms == before.latency_ms
            &&& at.fees_percent == before.fees_percent
            &&& at.instruments == before.instruments
            &&& at.order_sequence == before.order_sequence
            &&& at.account.orders_open == before.account.orders_open
            &&& at.account.orders_cancelled == before.account.orders_cancelled
            &&& at.account.trades == before.account.trades
            &&& at.account.balances.len() == before.account.balances.len()
            &&& forall|i: int|
                0 <= i < before.account.balances.len() ==> {
                    let held = #[trigger] at.account.balances[i];
                    &&& held.asset == before.account.balances[i].asset
                    &&& held.balance.total == before.account.balances[i].balance.total
                    &&& held.balance.free == before.account.balances[i].balance.free
                    &&& held.time_exchange == time
                }
        }),
{
    setting_the_time_keeps_every_amount(before.account.balances, time);
}

/// At the arrival of a request the account holds of every asset what it held before, in total and
/// free, and nothing of an asset of which it held nothing.
pub proof fn every_asset_is_held_as_before(before: Exchange, time: Timestamp, asset: Seq<char>)
    requires
        before.wf(),
    ensures
        match (before.account.balance(asset), at_time(before, time).account.balance(asset)) {
            (Some(held), Some(now)) => {
                &&& now.asset == held.asset
                &&& now.balance.total == held.balance.total
                &&& now.balance.free == held.balance.free
                &&& now.time_exchange == time
            },
            (None, None) => true,
            _ => false,
        },
{
    let at = at_time(before, time);
    moving_the_time_changes_nothing_else(before, time);
    a_balance_is_that_of_its_asset(before.account, asset);
    a_balance_is_that_of_its_asset(at.account, asset);
    an_account_has_one_of_each(before.account);
    if let Some(held) = before.account.balance(asset) {
        let i = before.account.balances.index_of(held);
        assert(at.account.balances[i].asset.0@ == asset);
        if let Some(now) = at.account.balance(asset) {
            let j = at.account.balances.index_of(now);
            assert(at.account.balances[j] == now);
            assert(before.account.balances[j].asset.0@ == asset);
            assert(before.account.balances[i].asset.0@ == asset);
        }
    } else {
        assert forall|i: int| 0 <= i < at.account.balances.len() implies (
        #[trigger] at.account.balances[i]).asset.0@ != asset by {
            assert(before.account.balances[i].asset.0@ != asset);
        }
    }
}

/// A client who fetches the balances is told of every asset what the account held before, in total
/// and free, at the time of the arrival.
pub proof fn fetched_balances_are_those_of_the_account(
    before: Exchange,
    time: Timestamp,
    reply: Reply,
    after: Exchange,
)
    requires
        answers(at_time(before, time), RequestKind::FetchBalances, reply, after),
    ensures
        after == at_time(before, time),
        ({
            &&& reply matches Reply::Balances(balances)
            &&& balances@.len() == before.account.balances.len()
            &&& forall|i: int|
                0 <= i < before.account.balances.len() ==> {
                    let told = #[trigger] balances@[i];
                    &&& told.asset == before.account.balances[i].asset
                    &&& told.balance.total == before.account.balances[i].balance.total
                    &&& told.balance.free == before.account.balances[i].balance.free
                    &&& told.time_exchange == time
                }
        }),
{
    moving_the_time_changes_nothing_else(before, time);
}

/// A client who fetches the open orders is told those of the account, as they are.
pub proof fn fetched_orders_are_those_of_the_account(
    before: Exchange,
    time: Timestamp,
    reply: Reply,
    after: Exchange,
)
    requires
        answers(at_time(before, time), RequestKind::FetchOrdersOpen, reply, after),
    ensures
        after == at_time(before, time),
        reply matches Reply::OrdersOpen(orders) && orders@ == before.account.orders_open,
{
}

/// A client who fetches the trades since a time is told those on record that were made then or
/// later, each of them once and in the order of the record.
///
/// `places` are where they stand on record.
pub proof fn fetched_trades_are_no_earlier(
    before: Exchange,
    time: Timestamp,
    time_since: Timestamp,
    reply: Reply,
    after: Exchange,
) -> (places: Seq<int>)
    requires
        answers(at_time(before, time), RequestKind::FetchTrades { time_since }, reply, after),
    ensures
        after == at_time(before, time),
        ({
            let record = before.account.trades;
            &&& reply matches Reply::Trades(trades)
            &&& trades@.len() == places.len()
            &&& forall|k: int| 0 <= k < places.len() ==> 0 <= #[trigger] places[k] < record.len()
            &&& forall|k: int|
                0 <= k < places.len() ==> #[trigger] trades@[k] == record[places[k]]
            &&& forall|k: int, l: int|
                0 <= k < l < places.len() ==> #[trigger] places[k] < #[trigger] places[l]
            &&& forall|i: int|
                0 <= i < record.len() ==> (places.contains(i) <==> {
                    let made = (#[trigger] record[i]).time_exchange@;
                    made.seconds > time_since@.seconds || (made.seconds == time_since@.seconds
                        && made.nanos >= time_since@.nanos)
                })
            &&& forall|k: int|
                0 <= k < trades@.len() ==> {
                    let made = (#[trigger] trades@[k]).time_exchange@;
                    made.seconds > time_since@.seconds || (made.seconds == time_since@.seconds
                        && made.nanos >= time_since@.nanos)
                }
        }),
{
    let places = trades_since_a_time_are_no_earlier(before.account.trades, time_since@);
    if let Reply::Trades(trades) = reply {
        assert forall|k: int| 0 <= k < trades@.len() implies {
            let made = (#[trigger] trades@[k]).time_exchange@;
            made.seconds > time_since@.seconds || (made.seconds == time_since@.seconds
                && made.nanos >= time_since@.nanos)
        } by {
            let place = places[k];
            assert(places.contains(place));
            assert(trades@[k] == before.account.trades[place]);
        }
    }
    places
}

/// A client who wants to cancel an order is sent the request back, and nothing is cancelled.
pub proof fn a_cancel_request_is_sent_back(
    before: Exchange,
    time: Timestamp,
    request: OrderRequestCancel,
    reply: Reply,
    after: Exchange,
)
    requires
        answers(at_time(before, time), RequestKind::CancelOrder(request), reply, after),
    ensures
        after == at_time(before, time),
        reply matches Reply::NoneToCancel(sent_back) && sent_back == request,
{
}

/// A snapshot is of the exchange and shows the balances of the account as they stand, and as many
/// orders as there are open and cancelled ones.
pub proof fn a_snapshot_shows_the_balances(snapshot: AccountSnapshot, exchange: Exchange)
    requires
        snapshots(snapshot, exchange),
    ensures
        snapshot.exchange == exchange.exchange,
        snapshot.balances@ == exchange.account.balances,
        all_orders(snapshot.instruments@).len() == exchange.account.orders_open.len()
            + exchange.account.orders_cancelled.len(),
{
    groups_hold_the_orders_by_instrument(
        snapshot.instruments@,
        any_open(exchange.account.orders_open) + any_cancelled(exchange.account.orders_cancelled),
    );
}

/// A snapshot shows every open order of the account, in the group of its instrument and with all
/// that was asked for.
pub proof fn a_snapshot_shows_every_open_order(
    snapshot: AccountSnapshot,
    exchange: Exchange,
    k: int,
) -> (found: (int, int))
    requires
        snapshots(snapshot, exchange),
        0 <= k < exchange.account.orders_open.len(),
    ensures
        ({
            let (i, j) = found;
            let order = exchange.account.orders_open[k];
            &&& 0 <= i < snapshot.instruments@.len()
            &&& 0 <= j < snapshot.instruments@[i].orders@.len()
            &&& snapshot.instruments@[i].instrument.0@ == order.key.instrument.0@
            &&& snapshot.instruments@[i].orders@[j] == (Order {
                key: order.key,
                side: order.side,
                price: order.price,
                quantity: order.quantity,
                kind: order.kind,
                time_in_force: order.time_in_force,
                state: OrderState::Active(ActiveOrderState::Open(order.state)),
            })
        }),
{
    let groups = snapshot.instruments@;
    let open = any_open(exchange.account.orders_open);
    let cancelled = any_cancelled(exchange.account.orders_cancelled);
    let all = open + cancelled;
    groups_hold_the_orders_by_instrument(groups, all);
    let place = k;
    assert(all[place] == open[k]);
    assert(all.contains(all[place]));
    let (i, j) = choose|i: int, j: int|
        0 <= i < groups.len() && 0 <= j < groups[i].orders@.len()
            && #[trigger] groups[i].orders@[j] == all[place];
    (i, j)
}

/// A snapshot shows every cancelled order of the account, in the group of its instrument and with all
/// that was asked for.
pub proof fn a_snapshot_shows_every_cancelled_order(
    snapshot: AccountSnapshot,
    exchange: Exchange,
    k: int,
) -> (found: (int, int))
    requires
        snapshots(snapshot, exchange),
        0 <= k < exchange.account.orders_cancelled.len(),
    ensures
        ({
            let (i, j) = found;
            let order = exchange.account.orders_cancelled[k];
            &&& 0 <= i < snapshot.instruments@.len()
            &&& 0 <= j < snapshot.instruments@[i].orders@.len()
            &&& snapshot.instruments@[i].instrument.0@ == order.key.instrument.0@
            &&& snapshot.instruments@[i].orders@[j] == (Order {
                key: order.key,
                side: order.side,
                price: order.price,
                quantity: order.quantity,
                kind: order.kind,
                time_in_force: order.time_in_force,
                state: OrderState::Inactive(InactiveOrderState::Cancelled(order.state)),
            })
        }),
{
    let groups = snapshot.instruments@;
    let open = any_open(exchange.account.orders_open);
    let cancelled = any_cancelled(exchange.account.orders_cancelled);
    let all = open + cancelled;
    groups_hold_the_orders_by_instrument(groups, all);
    let place = open.len() + k;
    assert(all[place] == cancelled[k]);
    assert(all.contains(all[place]));
    let (i, j) = choose|i: int, j: int|
        0 <= i < groups.len() && 0 <= j < groups[i].orders@.len()
            && #[trigger] groups[i].orders@[j] == all[place];
    (i, j)
}

/// A snapshot shows no order but the open and the cancelled ones of the account, at the place `k`
/// among the ones or the others.
pub proof fn a_snapshot_shows_no_other_order(
    snapshot: AccountSnapshot,
    exchange: Exchange,
    i: int,
    j: int,
) -> (k: int)
    requires
        snapshots(snapshot, exchange),
        0 <= i < snapshot.instruments@.len(),
        0 <= j < snapshot.instruments@[i].orders@.len(),
    ensures
        ({
            let shown = snapshot.instruments@[i].orders@[j];
            &&& shown.key.instrument.0@ == snapshot.instruments@[i].instrument.0@
            &&& {
                ||| {
                    let order = exchange.account.orders_open[k];
                    &&& 0 <= k < exchange.account.orders_open.len()
                    &&& shown == (Order {
                        key: order.key,
                        side: order.side,
                        price: order.price,
                        quantity: order.quantity,
                        kind: order.kind,
                        time_in_force: order.time_in_force,
                        state: OrderState::Active(ActiveOrderState::Open(order.state)),
                    })
                }
                ||| {
                    let order = exchange.account.orders_cancelled[k];
                    &&& 0 <= k < exchange.account.orders_cancelled.len()
                    &&& shown == (Order {
                        key: order.key,
                        side: order.side,
                        price: order.price,
                        quantity: order.quantity,
                        kind: order.kind,
                        time_in_force: order.time_in_force,
                        state: OrderState::Inactive(InactiveOrderState::Cancelled(order.state)),
                    })
                }
            }
        }),
{
    let groups = snapshot.instruments@;
    let open = any_open(exchange.account.orders_open);
    let cancelled = any_cancelled(exchange.account.orders_cancelled);
    let all = open + cancelled;
    groups_hold_the_orders_by_instrument(groups, all);
    let shown = groups[i].orders@[j];
    assert(all.contains(shown));
    let place = all.index_of(shown);
    assert(all[place] == shown);
    if place < open.len() {
        assert(shown == open[place]);
        place
    } else {
        assert(shown == cancelled[place - open.len()]);
        place - open.len()
    }
}

/// A client who fetches a snapshot is sent one of the account at the arrival of the request.
pub proof fn a_fetched_snapshot_is_that_of_the_account(
    before: Exchange,
    time: Timestamp,
    reply: Reply,
    after: Exchange,
)
    requires
        answers(at_time(before, time), RequestKind::FetchAccountSnapshot, reply, after),
    ensures
        after == at_time(before, time),
        ({
            &&& reply matches Reply::AccountSnapshot(snapshot)
            &&& snapshots(snapshot, at_time(before, time))
            &&& snapshot.exchange == before.exchange
            &&& snapshot.balances@.len() == before.account.balances.len()
            &&& forall|i: int|
                0 <= i < before.account.balances.len() ==> {
                    let told = #[trigger] snapshot.balances@[i];
                    &&& told.asset == before.account.balances[i].asset
                    &&& told.balance.total == before.account.balances[i].balance.total
                    &&& told.balance.free == before.account.balances[i].balance.free
                    &&& told.time_exchange == time
                }
        }),
{
    moving_the_time_changes_nothing_else(before, time);
}

/// A client who opens an order is answered as the exchange opens it at the arrival of the request.
pub proof fn a_request_to_open_is_answered_with_the_order(
    at: Exchange,
    request: OrderRequestOpen,
    reply: Reply,
    after: Exchange,
)
    requires
        answers(at, RequestKind::OpenOrder(request), reply, after),
    ensures
        reply matches Reply::OrderOpened(response, events) && answers_order(
            at,
            request,
            response,
            events,
            after,
        ),
{
}

} // verus!
