//! An exchange that starts from the snapshot of another one holds the same account.

use super::{any_cancelled, any_open, snapshots, Exchange};
use crate::account::{cancelled_among, open_among};
use crate::keyed::{first_is_slot, gathered, keys_differ, Keyed};
use crate::order::{Cancelled, Open, Order, OrderState};
use crate::snapshot::{all_orders, AccountSnapshot};
use vstd::prelude::*;

verus! {

/// Items whose keys differ are gathered as they are.
proof fn gathering_keeps_items_apart<A: Keyed>(items: Seq<A>)
    requires
        keys_differ(items),
    ensures
        gathered(items) == items,
    decreases items.len(),
{
    if items.len() > 0 {
        let rest = items.drop_last();
        gathering_keeps_items_apart(rest);
        first_is_slot(rest, items.last().key(), rest.len() as int);
        assert(rest.push(items.last()) =~= items);
    }
}

/// Items in another order have keys that differ where theirs do.
proof fn keys_differ_in_any_order<A: Keyed>(items: Seq<A>, others: Seq<A>)
    requires
        keys_differ(items),
        others.to_multiset() == items.to_multiset(),
    ensures
        keys_differ(others),
{
    broadcast use vstd::seq_lib::to_multiset_contains;

    assert(items.no_duplicates());
    items.lemma_multiset_has_no_duplicates();
    others.lemma_multiset_has_no_duplicates_conv();
    assert forall|i: int, j: int| 0 <= i < j < others.len() implies (#[trigger] others[i]).key() != (
    #[trigger] others[j]).key() by {
        assert(others.contains(others[i]) && others.contains(others[j]));
        assert(others.to_multiset().count(others[i]) > 0);
        assert(others.to_multiset().count(others[j]) > 0);
        let a = choose|a: int| 0 <= a < items.len() && items[a] == others[i];
        let b = choose|b: int| 0 <= b < items.len() && items[b] == others[j];
        assert(items[a].key() == others[i].key() && items[b].key() == others[j].key());
    }
}

/// An open order occurs among the open ones as often as it occurs among all.
proof fn open_orders_are_counted(orders: Seq<Order<OrderState>>, order: Order<Open>)
    ensures
        open_among(orders).to_multiset().count(order) == orders.to_multiset().count(
            order.in_state(OrderState::open(order.state)),
        ),
    decreases orders.len(),
{
    broadcast use vstd::seq_lib::group_to_multiset_ensures;

    if orders.len() > 0 {
        open_orders_are_counted(orders.drop_last(), order);
        assert(orders =~= orders.drop_last().push(orders.last()));
    }
}

/// A cancelled order occurs among the cancelled ones as often as it occurs among all.
proof fn cancelled_orders_are_counted(orders: Seq<Order<OrderState>>, order: Order<Cancelled>)
    ensures
        cancelled_among(orders).to_multiset().count(order) == orders.to_multiset().count(
            order.in_state(OrderState::cancelled(order.state)),
        ),
    decreases orders.len(),
{
    broadcast use vstd::seq_lib::group_to_multiset_ensures;

    if orders.len() > 0 {
        cancelled_orders_are_counted(orders.drop_last(), order);
        assert(orders =~= orders.drop_last().push(orders.last()));
    }
}

/// Open and cancelled orders that are put together can be told apart again.
proof fn orders_are_told_apart(open: Seq<Order<Open>>, cancelled: Seq<Order<Cancelled>>)
    ensures
        open_among(any_open(open) + any_cancelled(cancelled)) == open,
        cancelled_among(any_open(open) + any_cancelled(cancelled)) == cancelled,
    decreases open.len() + cancelled.len(),
{
    let all = any_open(open) + any_cancelled(cancelled);
    if cancelled.len() > 0 {
        orders_are_told_apart(open, cancelled.drop_last());
        assert(all.drop_last() =~= any_open(open) + any_cancelled(cancelled.drop_last()));
        assert(cancelled =~= cancelled.drop_last().push(cancelled.last()));
        assert(all.last() == cancelled.last().in_state(
            OrderState::cancelled(cancelled.last().state),
        ));
    } else if open.len() > 0 {
        orders_are_told_apart(open.drop_last(), cancelled);
        assert(all.drop_last() =~= any_open(open.drop_last()) + any_cancelled(cancelled));
        assert(open =~= open.drop_last().push(open.last()));
        assert(all.last() == open.last().in_state(OrderState::open(open.last().state)));
    }
}

/// What an account is made of from a snapshot of an exchange is what the exchange held: the
/// balances as they stood, and the open and the cancelled orders in some order.
pub proof fn a_snapshot_restores_the_account(exchange: Exchange, snapshot: AccountSnapshot)
    requires
        exchange.wf(),
        snapshots(snapshot, exchange),
    ensures
        gathered(snapshot.balances@) == exchange.account.balances,
        gathered(open_among(all_orders(snapshot.instruments@))).to_multiset()
            == exchange.account.orders_open.to_multiset(),
        gathered(cancelled_among(all_orders(snapshot.instruments@))).to_multiset()
            == exchange.account.orders_cancelled.to_multiset(),
{
    let open = exchange.account.orders_open;
    let cancelled = exchange.account.orders_cancelled;
    let all = any_open(open) + any_cancelled(cancelled);
    let shown = all_orders(snapshot.instruments@);
    gathering_keeps_items_apart(exchange.account.balances);
    orders_are_told_apart(open, cancelled);
    assert(open_among(shown).to_multiset() =~= open.to_multiset()) by {
        assert forall|order: Order<Open>|
            open_among(shown).to_multiset().count(order) == open.to_multiset().count(order) by {
            open_orders_are_counted(shown, order);
            open_orders_are_counted(all, order);
        }
    }
    assert(cancelled_among(shown).to_multiset() =~= cancelled.to_multiset()) by {
        assert forall|order: Order<Cancelled>|
            cancelled_among(shown).to_multiset().count(order) == cancelled.to_multiset().count(
                order,
            ) by {
            cancelled_orders_are_counted(shown, order);
            cancelled_orders_are_counted(all, order);
        }
    }
    keys_differ_in_any_order(open, open_among(shown));
    gathering_keeps_items_apart(open_among(shown));
    keys_differ_in_any_order(cancelled, cancelled_among(shown));
    gathering_keeps_items_apart(cancelled_among(shown));
}

} // verus!
