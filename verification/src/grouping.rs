//! Orders sorted and grouped by their instruments, with `itertools`.

use crate::names::InstrumentNameExchange;
use crate::order::{Order, OrderState};
use crate::snapshot::{
    all_orders, every_order_stands_by_an_instrument, orders_stand_together_by_instrument,
    InstrumentAccountSnapshot,
};
use crate::text::{
    not_after, not_after_is_antisymmetric, not_after_is_transitive, the_first_difference_decides,
};
use itertools::Itertools;
use vstd::prelude::*;

verus! {

/// The name of the instrument of an order.
pub open spec fn instrument_of(order: Order<OrderState>) -> Seq<char> {
    order.key.instrument@
}

/// Orders of which none comes before one with an earlier instrument.
pub open spec fn sorted_by_instrument(orders: Seq<Order<OrderState>>) -> bool {
    forall|i: int, j: int|
        0 <= i < j < orders.len() ==> not_after(
            instrument_of(#[trigger] orders[i]),
            instrument_of(#[trigger] orders[j]),
        )
}

/// The orders of several runs, one run after the other.
pub open spec fn joined(runs: Seq<(String, Vec<Order<OrderState>>)>) -> Seq<Order<OrderState>>
    decreases runs.len(),
{
    if runs.len() == 0 {
        seq![]
    } else {
        joined(runs.drop_last()) + runs.last().1@
    }
}

/// Sorts with `itertools`' `sorted_unstable_by_key`, the key a copy of the name of the
/// instrument: the same orders, by the lexicographic order of `String`. Where two orders have the
/// same instrument, nothing is said of which comes first.
#[verifier::external_body]
fn sort_by_instrument(orders: Vec<Order<OrderState>>) -> (result: Vec<Order<OrderState>>)
    ensures
        result@.to_multiset() == orders@.to_multiset(),
        sorted_by_instrument(result@),
{
    orders.into_iter().sorted_unstable_by_key(|order| order.key.instrument.0.clone()).collect()
}

/// Splits with `itertools`' `chunk_by`, the key a copy of the name of the instrument: the orders
/// as they stand, in runs that are as long as the name stays the same.
#[verifier::external_body]
fn chunk_by_instrument(orders: Vec<Order<OrderState>>) -> (runs: Vec<(String, Vec<Order<OrderState>>)>)
    ensures
        joined(runs@) == orders@,
        forall|i: int| 0 <= i < runs@.len() ==> (#[trigger] runs@[i]).1@.len() > 0,
        forall|i: int, j: int|
            0 <= i < runs@.len() && 0 <= j < runs@[i].1@.len() ==> instrument_of(
                #[trigger] runs@[i].1@[j],
            ) == runs@[i].0@,
        forall|i: int| 0 < i < runs@.len() ==> (#[trigger] runs@[i]).0@ != runs@[i - 1].0@,
{
    let runs = orders.into_iter().chunk_by(|order| order.key.instrument.0.clone());
    runs.into_iter().map(|(instrument, orders)| (instrument, orders.collect())).collect()
}

/// Whether `groups` are the orders in groups, one for each instrument, in the order of the names.
///
/// Within a group the orders may come in any order.
pub open spec fn grouped(
    groups: Seq<InstrumentAccountSnapshot>,
    orders: Seq<Order<OrderState>>,
) -> bool {
    &&& all_orders(groups).to_multiset() == orders.to_multiset()
    &&& forall|i: int| 0 <= i < groups.len() ==> (#[trigger] groups[i]).orders@.len() > 0
    &&& forall|i: int, j: int|
        0 <= i < groups.len() && 0 <= j < groups[i].orders@.len() ==> instrument_of(
            #[trigger] groups[i].orders@[j],
        ) == groups[i].instrument@
    &&& forall|i: int, j: int|
        0 <= i < j < groups.len() ==> {
            &&& not_after((#[trigger] groups[i]).instrument@, (#[trigger] groups[j]).instrument@)
            &&& groups[i].instrument@ != groups[j].instrument@
        }
}

/// The run at `at` stands in the joined runs behind those before it.
proof fn run_in_joined(runs: Seq<(String, Vec<Order<OrderState>>)>, at: int)
    requires
        0 <= at < runs.len(),
    ensures
        joined(runs.take(at)).len() + runs[at].1@.len() <= joined(runs).len(),
        forall|k: int|
            0 <= k < runs[at].1@.len() ==> #[trigger] runs[at].1@[k] == joined(runs)[joined(
                runs.take(at),
            ).len() + k],
    decreases runs.len(),
{
    let rest = runs.drop_last();
    if at < rest.len() {
        run_in_joined(rest, at);
        assert(rest.take(at) =~= runs.take(at));
    } else {
        assert(rest =~= runs.take(at));
    }
}

/// The runs of sorted orders come in the order of their names, and no name comes twice.
proof fn runs_of_sorted_orders_ascend(
    runs: Seq<(String, Vec<Order<OrderState>>)>,
    i: int,
    j: int,
)
    requires
        0 <= i < j < runs.len(),
        sorted_by_instrument(joined(runs)),
        forall|i: int| 0 <= i < runs.len() ==> (#[trigger] runs[i]).1@.len() > 0,
        forall|i: int, j: int|
            0 <= i < runs.len() && 0 <= j < runs[i].1@.len() ==> instrument_of(
                #[trigger] runs[i].1@[j],
            ) == runs[i].0@,
        forall|i: int| 0 < i < runs.len() ==> (#[trigger] runs[i]).0@ != runs[i - 1].0@,
    ensures
        not_after(runs[i].0@, runs[j].0@),
        runs[i].0@ != runs[j].0@,
    decreases j - i,
{
    let before = runs.take(j);
    run_in_joined(runs, j);
    run_in_joined(before, j - 1);
    assert(before.take(j - 1) =~= runs.take(j - 1));
    assert(joined(runs.take(j)).len() == joined(runs.take(j - 1)).len() + runs[j - 1].1@.len())
        by {
        assert(before.drop_last() =~= runs.take(j - 1));
    }
    run_in_joined(runs, j - 1);
    assert(runs[j - 1].1@.len() > 0 && runs[j].1@.len() > 0);
    assert(instrument_of(runs[j - 1].1@[0]) == runs[j - 1].0@);
    assert(instrument_of(runs[j].1@[0]) == runs[j].0@);
    assert(not_after(runs[j - 1].0@, runs[j].0@));
    if i < j - 1 {
        runs_of_sorted_orders_ascend(runs, i, j - 1);
        not_after_is_transitive(runs[i].0@, runs[j - 1].0@, runs[j].0@);
        if runs[i].0@ == runs[j].0@ {
            not_after_is_antisymmetric(runs[j - 1].0@, runs[j].0@);
        }
    }
}

/// Groups orders by their instruments.
pub fn group_by_instrument(orders: Vec<Order<OrderState>>) -> (groups: Vec<InstrumentAccountSnapshot>)
    ensures
        grouped(groups@, orders@),
{
    let sorted = sort_by_instrument(orders);
    let runs = chunk_by_instrument(sorted);
    let ghost all_runs = runs@;
    let mut groups: Vec<InstrumentAccountSnapshot> = Vec::new();
    for run in it: runs
        invariant
            it.seq() == all_runs,
            groups@.len() == it.index(),
            forall|i: int|
                0 <= i < groups@.len() ==> (#[trigger] groups@[i]).instrument@ == all_runs[i].0@
                    && groups@[i].orders == all_runs[i].1,
            all_orders(groups@) == joined(all_runs.take(it.index())),
    {
        let ghost before = groups@;
        groups.push(InstrumentAccountSnapshot {
            instrument: InstrumentNameExchange(run.0),
            orders: run.1,
        });
        assert(groups@.drop_last() =~= before);
        assert(all_runs.take(it.index() + 1).drop_last() =~= all_runs.take(it.index()));
    }
    assert(all_runs.take(all_runs.len() as int) =~= all_runs);
    proof {
        assert forall|i: int, j: int| 0 <= i < j < groups@.len() implies {
            &&& not_after((#[trigger] groups@[i]).instrument@, (#[trigger] groups@[j]).instrument@)
            &&& groups@[i].instrument@ != groups@[j].instrument@
        } by {
            runs_of_sorted_orders_ascend(all_runs, i, j);
        }
    }
    groups
}

/// Groups hold the orders that were grouped and no others, each as often as it was there. A group
/// is not empty and all of its orders are in its instrument, and the names of the groups ascend:
/// each begins the next or has the smaller character at the first difference, and is another name.
pub proof fn groups_hold_the_orders_by_instrument(
    groups: Seq<InstrumentAccountSnapshot>,
    orders: Seq<Order<OrderState>>,
)
    requires
        grouped(groups, orders),
    ensures
        all_orders(groups).len() == orders.len(),
        forall|order: Order<OrderState>|
            all_orders(groups).to_multiset().count(order) == #[trigger] orders.to_multiset().count(
                order,
            ),
        forall|order: Order<OrderState>| #[trigger]
            orders.contains(order) ==> exists|i: int, j: int|
                0 <= i < groups.len() && 0 <= j < groups[i].orders@.len()
                    && #[trigger] groups[i].orders@[j] == order,
        forall|i: int, j: int|
            0 <= i < groups.len() && 0 <= j < groups[i].orders@.len() ==> orders.contains(
                #[trigger] groups[i].orders@[j],
            ),
        forall|i: int, j: int|
            0 <= i < groups.len() && 0 <= j < groups[i].orders@.len() ==> (
            #[trigger] groups[i].orders@[j]).key.instrument.0@ == groups[i].instrument.0@,
        forall|i: int| 0 <= i < groups.len() ==> (#[trigger] groups[i]).orders@.len() > 0,
        forall|i: int, j: int|
            0 <= i < j < groups.len() ==> {
                let a = (#[trigger] groups[i]).instrument.0@;
                let b = (#[trigger] groups[j]).instrument.0@;
                &&& a != b
                &&& a.is_prefix_of(b) || exists|k: int|
                    {
                        &&& 0 <= k < a.len() && k < b.len()
                        &&& #[trigger] a[k] < b[k]
                        &&& a.take(k) == b.take(k)
                    }
            },
{
    broadcast use vstd::seq_lib::group_to_multiset_ensures;

    let all = all_orders(groups);
    assert(all.len() == orders.len()) by {
        assert(all.to_multiset().len() == all.len());
        assert(orders.to_multiset().len() == orders.len());
    }
    assert forall|order: Order<OrderState>| #[trigger] orders.contains(order) implies exists|
        i: int,
        j: int,
    |
        0 <= i < groups.len() && 0 <= j < groups[i].orders@.len()
            && #[trigger] groups[i].orders@[j] == order by {
        assert(orders.to_multiset().count(order) > 0);
        assert(all.to_multiset().count(order) > 0);
        assert(all.contains(order));
        let place = all.index_of(order);
        let found = every_order_stands_by_an_instrument(groups, place);
        assert(groups[found.0].orders@[found.1] == order);
    }
    assert forall|i: int, j: int|
        0 <= i < groups.len() && 0 <= j < groups[i].orders@.len() implies orders.contains(
        #[trigger] groups[i].orders@[j],
    ) by {
        orders_stand_together_by_instrument(groups, i);
        let order = groups[i].orders@[j];
        let place = all_orders(groups.take(i)).len() + j;
        assert(all[place] == order);
        assert(all.contains(order));
        assert(all.to_multiset().count(order) > 0);
        assert(orders.to_multiset().count(order) > 0);
    }
    assert forall|i: int, j: int|
        0 <= i < groups.len() && 0 <= j < groups[i].orders@.len() implies (
    #[trigger] groups[i].orders@[j]).key.instrument.0@ == groups[i].instrument.0@ by {
        assert(instrument_of(groups[i].orders@[j]) == groups[i].instrument@);
    }
    assert forall|i: int, j: int| 0 <= i < j < groups.len() implies {
        let a = (#[trigger] groups[i]).instrument.0@;
        let b = (#[trigger] groups[j]).instrument.0@;
        &&& a != b
        &&& a.is_prefix_of(b) || exists|k: int|
            {
                &&& 0 <= k < a.len() && k < b.len()
                &&& #[trigger] a[k] < b[k]
                &&& a.take(k) == b.take(k)
            }
    } by {
        the_first_difference_decides(groups[i].instrument@, groups[j].instrument@);
    }
}

} // verus!
