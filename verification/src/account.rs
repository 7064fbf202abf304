//! The account that the exchange keeps.

use crate::keyed::{
    first_is_slot, gathered, gathered_items_are_the_last_of_their_keys, gathered_keys_differ,
    keys_differ, lookup, put, putting_an_item_moves_no_other, slot, slot_is_first, with_item, Keyed,
};
use crate::names::AssetNameExchange;
use crate::order::{ActiveOrderState, Cancelled, InactiveOrderState, Open, Order, OrderState};
use crate::snapshot::{all_orders, AccountSnapshot, AssetBalance, Trade};
use crate::time::{Instant, Timestamp};
use vstd::prelude::*;

verus! {

impl Keyed for AssetBalance {
    open spec fn key(&self) -> Seq<char> {
        self.asset@
    }

    fn same_key(&self, other: &AssetBalance) -> (result: bool) {
        self.asset.0 == other.asset.0
    }
}

impl Keyed for Order<Open> {
    open spec fn key(&self) -> Seq<char> {
        self.state.id@
    }

    fn same_key(&self, other: &Order<Open>) -> (result: bool) {
        self.state.id.0 == other.state.id.0
    }
}

impl Keyed for Order<Cancelled> {
    open spec fn key(&self) -> Seq<char> {
        self.state.id@
    }

    fn same_key(&self, other: &Order<Cancelled>) -> (result: bool) {
        self.state.id.0 == other.state.id.0
    }
}

/// What an [`AccountState`] holds.
#[verifier::ext_equal]
pub struct Account {
    pub balances: Seq<AssetBalance>,
    pub orders_open: Seq<Order<Open>>,
    pub orders_cancelled: Seq<Order<Cancelled>>,
    pub trades: Seq<Trade>,
}

impl Account {
    /// One balance for an asset, and one order for an order number.
    pub open spec fn wf(self) -> bool {
        &&& keys_differ(self.balances)
        &&& keys_differ(self.orders_open)
        &&& keys_differ(self.orders_cancelled)
    }

    /// The balance of an asset.
    pub open spec fn balance(self, asset: Seq<char>) -> Option<AssetBalance> {
        lookup(self.balances, asset)
    }
}

/// The open orders among orders in any state.
pub open spec fn open_among(orders: Seq<Order<OrderState>>) -> Seq<Order<Open>>
    decreases orders.len(),
{
    if orders.len() == 0 {
        seq![]
    } else {
        let before = open_among(orders.drop_last());
        match orders.last().state {
            OrderState::Active(ActiveOrderState::Open(state)) => before.push(
                orders.last().in_state(state),
            ),
            _ => before,
        }
    }
}

/// The cancelled orders among orders in any state.
pub open spec fn cancelled_among(orders: Seq<Order<OrderState>>) -> Seq<Order<Cancelled>>
    decreases orders.len(),
{
    if orders.len() == 0 {
        seq![]
    } else {
        let before = cancelled_among(orders.drop_last());
        match orders.last().state {
            OrderState::Inactive(InactiveOrderState::Cancelled(state)) => before.push(
                orders.last().in_state(state),
            ),
            _ => before,
        }
    }
}

/// The trades that are not before a time, in the order in which they were made.
pub open spec fn trades_since(trades: Seq<Trade>, time_since: Instant) -> Seq<Trade>
    decreases trades.len(),
{
    if trades.len() == 0 {
        seq![]
    } else {
        let before = trades_since(trades.drop_last(), time_since);
        if trades.last().time_exchange@.not_before(time_since) {
            before.push(trades.last())
        } else {
            before
        }
    }
}

/// The balances with another time.
pub open spec fn balances_at(balances: Seq<AssetBalance>, time: Timestamp) -> Seq<AssetBalance> {
    balances.map_values(
        |balance: AssetBalance| AssetBalance { time_exchange: time, ..balance },
    )
}

/// The balances, orders and trades of an account.
#[derive(Debug)]
pub struct AccountState {
    balances: Vec<AssetBalance>,
    orders_open: Vec<Order<Open>>,
    orders_cancelled: Vec<Order<Cancelled>>,
    trades: Vec<Trade>,
}

impl View for AccountState {
    type V = Account;

    closed spec fn view(&self) -> Account {
        Account {
            balances: self.balances@,
            orders_open: self.orders_open@,
            orders_cancelled: self.orders_cancelled@,
            trades: self.trades@,
        }
    }
}

impl AccountState {
    /// An account with the balances and orders of a snapshot, and no trades.
    ///
    /// A later balance or order takes the place of an earlier one of the same asset or order
    /// number. Orders that are neither open nor cancelled are left out.
    pub fn from_snapshot(snapshot: AccountSnapshot) -> (account: AccountState)
        ensures
            account@.wf(),
            account@.balances == gathered(snapshot.balances@),
            account@.orders_open == gathered(open_among(all_orders(snapshot.instruments@))),
            account@.orders_cancelled == gathered(cancelled_among(all_orders(snapshot.instruments@))),
            account@.trades == Seq::<Trade>::empty(),
    {
        let mut balances: Vec<AssetBalance> = Vec::new();
        let ghost given = snapshot.balances@;
        for balance in it: snapshot.balances
            invariant
                it.seq() == given,
                keys_differ(balances@),
                balances@ == gathered(given.take(it.index())),
        {
            put(&mut balances, balance);
            assert(given.take(it.index() + 1).drop_last() =~= given.take(it.index()));
        }
        assert(given.take(given.len() as int) =~= given);
        let mut orders_open: Vec<Order<Open>> = Vec::new();
        let mut orders_cancelled: Vec<Order<Cancelled>> = Vec::new();
        let ghost instruments = snapshot.instruments@;
        for instrument in outer: snapshot.instruments
            invariant
                outer.seq() == instruments,
                keys_differ(orders_open@),
                keys_differ(orders_cancelled@),
                orders_open@ == gathered(open_among(all_orders(instruments.take(outer.index())))),
                orders_cancelled@ == gathered(
                    cancelled_among(all_orders(instruments.take(outer.index()))),
                ),
        {
            let ghost before = all_orders(instruments.take(outer.index()));
            let ghost orders = instrument.orders@;
            assert(before + orders.take(0) =~= before);
            for order in inner: instrument.orders
                invariant
                    inner.seq() == orders,
                    keys_differ(orders_open@),
                    keys_differ(orders_cancelled@),
                    orders_open@ == gathered(open_among(before + orders.take(inner.index()))),
                    orders_cancelled@ == gathered(
                        cancelled_among(before + orders.take(inner.index())),
                    ),
            {
                let ghost seen = before + orders.take(inner.index());
                assert(before + orders.take(inner.index() + 1) =~= seen.push(order));
                file_order(Ghost(seen), order, &mut orders_open, &mut orders_cancelled);
            }
            assert(orders.take(orders.len() as int) =~= orders);
            assert(instruments.take(outer.index() + 1).drop_last() =~= instruments.take(
                outer.index(),
            ));
        }
        assert(instruments.take(instruments.len() as int) =~= instruments);
        AccountState { balances, orders_open, orders_cancelled, trades: Vec::new() }
    }

    /// Sets the time of every balance.
    pub fn update_time_exchange(&mut self, time_exchange: Timestamp)
        requires
            old(self)@.wf(),
        ensures
            final(self)@.wf(),
            final(self)@ == (Account {
                balances: balances_at(old(self)@.balances, time_exchange),
                ..old(self)@
            }),
    {
        let ghost before = self.balances@;
        let ghost after = balances_at(before, time_exchange);
        let mut i: usize = 0;
        while i < self.balances.len()
            invariant
                i <= self.balances.len(),
                self.balances.len() == before.len(),
                after == balances_at(before, time_exchange),
                forall|j: int| 0 <= j < i ==> self.balances@[j] == after[j],
                forall|j: int| i <= j < before.len() ==> self.balances@[j] == before[j],
                self.orders_open == old(self).orders_open,
                self.orders_cancelled == old(self).orders_cancelled,
                self.trades == old(self).trades,
            decreases self.balances.len() - i,
        {
            self.balances[i].time_exchange = time_exchange;
            i = i + 1;
        }
        assert(self.balances@ =~= after);
    }

    /// The balances.
    pub fn balances(&self) -> (balances: &Vec<AssetBalance>)
        ensures
            balances@ == self@.balances,
    {
        &self.balances
    }

    /// The open orders.
    pub fn orders_open(&self) -> (orders: &Vec<Order<Open>>)
        ensures
            orders@ == self@.orders_open,
    {
        &self.orders_open
    }

    /// The cancelled orders.
    pub fn orders_cancelled(&self) -> (orders: &Vec<Order<Cancelled>>)
        ensures
            orders@ == self@.orders_cancelled,
    {
        &self.orders_cancelled
    }

    /// The trades that are not before a time, in the order in which they were made.
    pub fn trades(&self, time_since: Timestamp) -> (trades: Vec<Trade>)
        ensures
            trades@ == trades_since(self@.trades, time_since@),
    {
        let mut trades: Vec<Trade> = Vec::new();
        let mut i: usize = 0;
        while i < self.trades.len()
            invariant
                i <= self.trades.len(),
                trades@ == trades_since(self.trades@.take(i as int), time_since@),
            decreases self.trades.len() - i,
        {
            assert(self.trades@.take(i + 1).drop_last() =~= self.trades@.take(i as int));
            if self.trades[i].time_exchange.not_before(time_since) {
                trades.push(self.trades[i].clone());
            }
            i = i + 1;
        }
        assert(self.trades@.take(i as int) =~= self.trades@);
        trades
    }

    /// The balance of an asset.
    pub fn balance(&self, asset: &AssetNameExchange) -> (balance: Option<&AssetBalance>)
        ensures
            match balance {
                Some(balance) => self@.balance(asset@) == Some(*balance),
                None => self@.balance(asset@) is None,
            },
    {
        let mut i: usize = 0;
        while i < self.balances.len() && !(self.balances[i].asset.0 == asset.0)
            invariant
                i <= self.balances.len(),
                forall|j: int| 0 <= j < i ==> (#[trigger] self@.balances[j]).key() != asset@,
            decreases self.balances.len() - i,
        {
            i = i + 1;
        }
        proof {
            first_is_slot(self@.balances, asset@, i as int);
        }
        if i < self.balances.len() {
            Some(&self.balances[i])
        } else {
            None
        }
    }

    /// The balance of an asset, to be changed.
    pub fn balance_mut(&mut self, asset: &AssetNameExchange) -> (balance: Option<&mut AssetBalance>)
        requires
            old(self)@.wf(),
        ensures
            match balance {
                Some(balance) => {
                    &&& old(self)@.balance(asset@) == Some(*balance)
                    &&& final(self)@ == (Account {
                        balances: old(self)@.balances.update(
                            slot(old(self)@.balances, asset@),
                            *final(balance),
                        ),
                        ..old(self)@
                    })
                },
                None => {
                    &&& old(self)@.balance(asset@) is None
                    &&& *final(self) == *old(self)
                },
            },
    {
        let mut i: usize = 0;
        while i < self.balances.len() && !(self.balances[i].asset.0 == asset.0)
            invariant
                *self == *old(self),
                i <= self.balances.len(),
                forall|j: int| 0 <= j < i ==> (#[trigger] self@.balances[j]).key() != asset@,
            decreases self.balances.len() - i,
        {
            i = i + 1;
        }
        proof {
            first_is_slot(self@.balances, asset@, i as int);
        }
        if i < self.balances.len() {
            Some(&mut self.balances[i])
        } else {
            None
        }
    }

    /// Records a trade.
    pub fn ack_trade(&mut self, trade: Trade)
        requires
            old(self)@.wf(),
        ensures
            final(self)@.wf(),
            final(self)@ == (Account { trades: old(self)@.trades.push(trade), ..old(self)@ }),
    {
        self.trades.push(trade);
    }
}

/// Puts an order among the open or the cancelled ones, or leaves it out where it is neither.
fn file_order(
    Ghost(seen): Ghost<Seq<Order<OrderState>>>,
    order: Order<OrderState>,
    orders_open: &mut Vec<Order<Open>>,
    orders_cancelled: &mut Vec<Order<Cancelled>>,
)
    requires
        old(orders_open)@ == gathered(open_among(seen)),
        old(orders_cancelled)@ == gathered(cancelled_among(seen)),
        keys_differ(old(orders_open)@),
        keys_differ(old(orders_cancelled)@),
    ensures
        final(orders_open)@ == gathered(open_among(seen.push(order))),
        final(orders_cancelled)@ == gathered(cancelled_among(seen.push(order))),
        keys_differ(final(orders_open)@),
        keys_differ(final(orders_cancelled)@),
{
    assert(seen.push(order).drop_last() =~= seen);
    match order.state {
        OrderState::Active(ActiveOrderState::Open(state)) => {
            let open = Order {
                key: order.key,
                side: order.side,
                price: order.price,
                quantity: order.quantity,
                kind: order.kind,
                time_in_force: order.time_in_force,
                state,
            };
            assert(open_among(seen).push(open).drop_last() =~= open_among(seen));
            put(orders_open, open);
        },
        OrderState::Inactive(InactiveOrderState::Cancelled(state)) => {
            let cancelled = Order {
                key: order.key,
                side: order.side,
                price: order.price,
                quantity: order.quantity,
                kind: order.kind,
                time_in_force: order.time_in_force,
                state,
            };
            assert(cancelled_among(seen).push(cancelled).drop_last() =~= cancelled_among(seen));
            put(orders_cancelled, cancelled);
        },
        _ => {},
    }
}

/// The trades since a time are those on record that were made at that time or later, each of them
/// once and in the order of the record.
///
/// `places` are where they stand on record.
pub proof fn trades_since_a_time_are_no_earlier(trades: Seq<Trade>, time_since: Instant) -> (places:
    Seq<int>)
    ensures
        places.len() == trades_since(trades, time_since).len(),
        forall|k: int| 0 <= k < places.len() ==> 0 <= #[trigger] places[k] < trades.len(),
        forall|k: int|
            0 <= k < places.len() ==> #[trigger] trades_since(trades, time_since)[k]
                == trades[places[k]],
        forall|k: int, l: int|
            0 <= k < l < places.len() ==> #[trigger] places[k] < #[trigger] places[l],
        forall|i: int|
            0 <= i < trades.len() ==> (places.contains(i) <==> {
                let made = (#[trigger] trades[i]).time_exchange@;
                made.seconds > time_since.seconds || (made.seconds == time_since.seconds
                    && made.nanos >= time_since.nanos)
            }),
    decreases trades.len(),
{
    if trades.len() == 0 {
        seq![]
    } else {
        let rest = trades.drop_last();
        let before = trades_since_a_time_are_no_earlier(rest, time_since);
        let last = trades.len() - 1;
        let made = trades[last].time_exchange@;
        let places = if made.seconds > time_since.seconds || (made.seconds == time_since.seconds
            && made.nanos >= time_since.nanos) {
            before.push(last)
        } else {
            before
        };
        assert forall|i: int| 0 <= i < trades.len() implies (places.contains(i) <==> {
            let made = (#[trigger] trades[i]).time_exchange@;
            made.seconds > time_since.seconds || (made.seconds == time_since.seconds && made.nanos
                >= time_since.nanos)
        }) by {
            if i < last {
                assert(rest[i] == trades[i]);
                if before.contains(i) {
                    let k = before.index_of(i);
                    assert(places[k] == i);
                }
                if places.contains(i) {
                    let k = places.index_of(i);
                    assert(before[k] == i);
                }
            } else {
                if places.len() > before.len() {
                    assert(places[before.len() as int] == last);
                }
                if places.contains(i) {
                    let k = places.index_of(i);
                    assert(places[k] == i);
                    if k < before.len() {
                        assert(before[k] < rest.len());
                    }
                }
            }
        }
        places
    }
}

/// A trade is among those since a time exactly where it is on record and was made at that time or
/// later.
pub proof fn a_trade_is_fetched_where_it_is_no_earlier(
    trades: Seq<Trade>,
    time_since: Instant,
    trade: Trade,
)
    ensures
        trades_since(trades, time_since).contains(trade) <==> trades.contains(trade) && {
            let made = trade.time_exchange@;
            made.seconds > time_since.seconds || (made.seconds == time_since.seconds && made.nanos
                >= time_since.nanos)
        },
{
    let since = trades_since(trades, time_since);
    let places = trades_since_a_time_are_no_earlier(trades, time_since);
    if since.contains(trade) {
        let k = since.index_of(trade);
        let place = places[k];
        assert(places.contains(place));
        assert(trades[place] == since[k]);
    }
    if trades.contains(trade) {
        let i = trades.index_of(trade);
        if places.contains(i) {
            let k = places.index_of(i);
            assert(since[k] == trades[places[k]]);
        }
    }
}

/// The open orders among orders are those whose state is open, each of them once, in the order in
/// which they stand and with all that they ask for.
///
/// `places` are where they stand.
pub proof fn open_orders_are_picked_out(orders: Seq<Order<OrderState>>) -> (places: Seq<int>)
    ensures
        places.len() == open_among(orders).len(),
        forall|k: int| 0 <= k < places.len() ==> 0 <= #[trigger] places[k] < orders.len(),
        forall|k: int|
            0 <= k < places.len() ==> {
                let picked = #[trigger] open_among(orders)[k];
                let order = orders[places[k]];
                &&& order.state == OrderState::Active(ActiveOrderState::Open(picked.state))
                &&& picked.key == order.key
                &&& picked.side == order.side
                &&& picked.price == order.price
                &&& picked.quantity == order.quantity
                &&& picked.kind == order.kind
                &&& picked.time_in_force == order.time_in_force
            },
        forall|k: int, l: int|
            0 <= k < l < places.len() ==> #[trigger] places[k] < #[trigger] places[l],
        forall|i: int|
            0 <= i < orders.len() ==> (places.contains(i) <==> ((#[trigger] orders[i]).state
                matches OrderState::Active(ActiveOrderState::Open(_)))),
    decreases orders.len(),
{
    if orders.len() == 0 {
        seq![]
    } else {
        let rest = orders.drop_last();
        let before = open_orders_are_picked_out(rest);
        let last = orders.len() - 1;
        let places = if orders[last].state matches OrderState::Active(ActiveOrderState::Open(_)) {
            before.push(last)
        } else {
            before
        };
        assert forall|i: int| 0 <= i < orders.len() implies (places.contains(i) <==> ((
        #[trigger] orders[i]).state matches OrderState::Active(ActiveOrderState::Open(_)))) by {
            pushed_places(before, places, i, last);
            if i < last {
                assert(rest[i] == orders[i]);
            }
        }
        places
    }
}

/// The cancelled orders among orders are those whose state is cancelled, each of them once, in the
/// order in which they stand and with all that they asked for.
///
/// `places` are where they stand.
pub proof fn cancelled_orders_are_picked_out(orders: Seq<Order<OrderState>>) -> (places: Seq<int>)
    ensures
        places.len() == cancelled_among(orders).len(),
        forall|k: int| 0 <= k < places.len() ==> 0 <= #[trigger] places[k] < orders.len(),
        forall|k: int|
            0 <= k < places.len() ==> {
                let picked = #[trigger] cancelled_among(orders)[k];
                let order = orders[places[k]];
                &&& order.state == OrderState::Inactive(
                    InactiveOrderState::Cancelled(picked.state),
                )
                &&& picked.key == order.key
                &&& picked.side == order.side
                &&& picked.price == order.price
                &&& picked.quantity == order.quantity
                &&& picked.kind == order.kind
                &&& picked.time_in_force == order.time_in_force
            },
        forall|k: int, l: int|
            0 <= k < l < places.len() ==> #[trigger] places[k] < #[trigger] places[l],
        forall|i: int|
            0 <= i < orders.len() ==> (places.contains(i) <==> ((#[trigger] orders[i]).state
                matches OrderState::Inactive(InactiveOrderState::Cancelled(_)))),
    decreases orders.len(),
{
    if orders.len() == 0 {
        seq![]
    } else {
        let rest = orders.drop_last();
        let before = cancelled_orders_are_picked_out(rest);
        let last = orders.len() - 1;
        let places = if orders[last].state matches OrderState::Inactive(
            InactiveOrderState::Cancelled(_),
        ) {
            before.push(last)
        } else {
            before
        };
        assert forall|i: int| 0 <= i < orders.len() implies (places.contains(i) <==> ((
        #[trigger] orders[i]).state matches OrderState::Inactive(
            InactiveOrderState::Cancelled(_),
        ))) by {
            pushed_places(before, places, i, last);
            if i < last {
                assert(rest[i] == orders[i]);
            }
        }
        places
    }
}

/// Which places there are after one behind all others may have joined them.
proof fn pushed_places(before: Seq<int>, places: Seq<int>, i: int, last: int)
    requires
        places == before || places == before.push(last),
        forall|k: int| 0 <= k < before.len() ==> #[trigger] before[k] < last,
        i <= last,
    ensures
        i < last ==> (places.contains(i) <==> before.contains(i)),
        i == last ==> (places.contains(i) <==> places == before.push(last)),
{
    if before.contains(i) {
        let k = before.index_of(i);
        assert(places[k] == i);
    }
    if places.contains(i) {
        let k = places.index_of(i);
        assert(places[k] == i);
        if k < before.len() {
            assert(before[k] == i);
        }
    }
    if places == before.push(last) {
        assert(places[before.len() as int] == last);
        assert(places.len() != before.len());
    }
}

/// Setting the time of balances changes no asset and no amount.
pub proof fn setting_the_time_keeps_every_amount(balances: Seq<AssetBalance>, time: Timestamp)
    ensures
        balances_at(balances, time).len() == balances.len(),
        forall|i: int|
            0 <= i < balances.len() ==> {
                let held = #[trigger] balances_at(balances, time)[i];
                &&& held.asset == balances[i].asset
                &&& held.balance.total == balances[i].balance.total
                &&& held.balance.free == balances[i].balance.free
                &&& held.time_exchange == time
            },
{
}

/// The balance of an asset is one that the account holds, and there is none exactly where the
/// account holds none of the asset.
pub proof fn a_balance_is_that_of_its_asset(account: Account, asset: Seq<char>)
    ensures
        account.balance(asset) matches Some(held) ==> account.balances.contains(held)
            && held.asset.0@ == asset,
        account.balance(asset) is None <==> forall|i: int|
            0 <= i < account.balances.len() ==> (#[trigger] account.balances[i]).asset.0@ != asset,
{
    slot_is_first(account.balances, asset);
    let at = slot(account.balances, asset);
    if at < account.balances.len() {
        assert(account.balances[at].asset.0@ == asset);
    } else {
        assert forall|i: int| 0 <= i < account.balances.len() implies (
        #[trigger] account.balances[i]).asset.0@ != asset by {
            assert(account.balances[i].key() != asset);
        }
    }
}

/// An account in order has one balance for an asset, and one open and one cancelled order for an
/// order number.
pub proof fn an_account_has_one_of_each(account: Account)
    ensures
        account.wf() <==> {
            &&& forall|i: int, j: int|
                0 <= i < j < account.balances.len() ==> (#[trigger] account.balances[i]).asset.0@
                    != (#[trigger] account.balances[j]).asset.0@
            &&& forall|i: int, j: int|
                0 <= i < j < account.orders_open.len() ==> (
                #[trigger] account.orders_open[i]).state.id.0@ != (
                #[trigger] account.orders_open[j]).state.id.0@
            &&& forall|i: int, j: int|
                0 <= i < j < account.orders_cancelled.len() ==> (
                #[trigger] account.orders_cancelled[i]).state.id.0@ != (
                #[trigger] account.orders_cancelled[j]).state.id.0@
        },
{
    if account.wf() {
        assert forall|i: int, j: int| 0 <= i < j < account.balances.len() implies (
        #[trigger] account.balances[i]).asset.0@ != (#[trigger] account.balances[j]).asset.0@ by {
            assert(account.balances[i].key() != account.balances[j].key());
        }
        assert forall|i: int, j: int| 0 <= i < j < account.orders_open.len() implies (
        #[trigger] account.orders_open[i]).state.id.0@ != (
        #[trigger] account.orders_open[j]).state.id.0@ by {
            assert(account.orders_open[i].key() != account.orders_open[j].key());
        }
        assert forall|i: int, j: int| 0 <= i < j < account.orders_cancelled.len() implies (
        #[trigger] account.orders_cancelled[i]).state.id.0@ != (
        #[trigger] account.orders_cancelled[j]).state.id.0@ by {
            assert(account.orders_cancelled[i].key() != account.orders_cancelled[j].key());
        }
    }
}

/// An account starts with the last balance that is given for each asset, and with no other.
pub proof fn the_last_balance_of_an_asset_counts(balances: Seq<AssetBalance>, held: AssetBalance)
    ensures
        keys_differ(gathered(balances)),
        gathered(balances).contains(held) <==> exists|at: int|
            {
                &&& 0 <= at < balances.len()
                &&& #[trigger] balances[at] == held
                &&& forall|i: int|
                    at < i < balances.len() ==> (#[trigger] balances[i]).asset.0@ != held.asset.0@
            },
{
    gathered_keys_differ(balances);
    gathered_items_are_the_last_of_their_keys(balances, held);
    assert(forall|i: int|
        0 <= i < balances.len() ==> (#[trigger] balances[i]).key() == balances[i].asset.0@);
    assert(held.key() == held.asset.0@);
}

/// An account starts with the last open order that is given for each order number, and with no
/// other.
pub proof fn the_last_open_order_of_a_number_counts(orders: Seq<Order<Open>>, order: Order<Open>)
    ensures
        keys_differ(gathered(orders)),
        gathered(orders).contains(order) <==> exists|at: int|
            {
                &&& 0 <= at < orders.len()
                &&& #[trigger] orders[at] == order
                &&& forall|i: int|
                    at < i < orders.len() ==> (#[trigger] orders[i]).state.id.0@
                        != order.state.id.0@
            },
{
    gathered_keys_differ(orders);
    gathered_items_are_the_last_of_their_keys(orders, order);
    assert(forall|i: int|
        0 <= i < orders.len() ==> (#[trigger] orders[i]).key() == orders[i].state.id.0@);
    assert(order.key() == order.state.id.0@);
}

/// An account starts with the last cancelled order that is given for each order number, and with
/// no other.
pub proof fn the_last_cancelled_order_of_a_number_counts(
    orders: Seq<Order<Cancelled>>,
    order: Order<Cancelled>,
)
    ensures
        keys_differ(gathered(orders)),
        gathered(orders).contains(order) <==> exists|at: int|
            {
                &&& 0 <= at < orders.len()
                &&& #[trigger] orders[at] == order
                &&& forall|i: int|
                    at < i < orders.len() ==> (#[trigger] orders[i]).state.id.0@
                        != order.state.id.0@
            },
{
    gathered_keys_differ(orders);
    gathered_items_are_the_last_of_their_keys(orders, order);
    assert(forall|i: int|
        0 <= i < orders.len() ==> (#[trigger] orders[i]).key() == orders[i].state.id.0@);
    assert(order.key() == order.state.id.0@);
}

/// A balance that is put into an account is that of its asset, and every other balance stays where
/// it is.
pub proof fn putting_a_balance_moves_no_other(balances: Seq<AssetBalance>, held: AssetBalance)
    requires
        keys_differ(balances),
        exists|i: int|
            0 <= i < balances.len() && (#[trigger] balances[i]).asset.0@ == held.asset.0@,
    ensures
        with_item(balances, held).len() == balances.len(),
        forall|i: int|
            0 <= i < balances.len() ==> #[trigger] with_item(balances, held)[i] == if balances[i].asset.0@
                == held.asset.0@ {
                held
            } else {
                balances[i]
            },
{
    putting_an_item_moves_no_other(balances, held);
    let i = choose|i: int|
        0 <= i < balances.len() && (#[trigger] balances[i]).asset.0@ == held.asset.0@;
    assert(balances[i].key() == held.key());
}

} // verus!
