//! Lists in which every item has a key of its own.

use vstd::prelude::*;

verus! {

/// An item that is found by a text.
pub trait Keyed {
    spec fn key(&self) -> Seq<char>;

    fn same_key(&self, other: &Self) -> (result: bool)
        ensures
            result == (self.key() == other.key()),
    ;
}

/// No two items have the same key.
pub open spec fn keys_differ<A: Keyed>(items: Seq<A>) -> bool {
    forall|i: int, j: int|
        0 <= i < j < items.len() ==> (#[trigger] items[i]).key() != (#[trigger] items[j]).key()
}

/// The first place at which an item has the key, or the number of items where none has it.
pub open spec fn slot<A: Keyed>(items: Seq<A>, key: Seq<char>) -> int
    decreases items.len(),
{
    if items.len() == 0 || items[0].key() == key {
        0
    } else {
        1 + slot(items.drop_first(), key)
    }
}

/// The item with the key.
pub open spec fn lookup<A: Keyed>(items: Seq<A>, key: Seq<char>) -> Option<A> {
    let slot = slot(items, key);
    if slot < items.len() {
        Some(items[slot])
    } else {
        None
    }
}

/// The items after `item` has taken the place of the one with its key, or has joined them at the
/// end where there is none.
pub open spec fn with_item<A: Keyed>(items: Seq<A>, item: A) -> Seq<A> {
    let slot = slot(items, item.key());
    if slot < items.len() {
        items.update(slot, item)
    } else {
        items.push(item)
    }
}

/// The items one after the other, each in place of an earlier one with its key.
pub open spec fn gathered<A: Keyed>(items: Seq<A>) -> Seq<A>
    decreases items.len(),
{
    if items.len() == 0 {
        items
    } else {
        with_item(gathered(items.drop_last()), items.last())
    }
}

/// A slot is where the key occurs first.
pub proof fn slot_is_first<A: Keyed>(items: Seq<A>, key: Seq<char>)
    ensures
        0 <= slot(items, key) <= items.len(),
        slot(items, key) < items.len() ==> items[slot(items, key)].key() == key,
        forall|i: int| 0 <= i < slot(items, key) ==> (#[trigger] items[i]).key() != key,
    decreases items.len(),
{
    if items.len() > 0 && items[0].key() != key {
        let rest = items.drop_first();
        slot_is_first(rest, key);
        assert forall|i: int| 0 <= i < slot(items, key) implies (#[trigger] items[i]).key()
            != key by {
            if i > 0 {
                assert(items[i] == rest[i - 1]);
            }
        }
    }
}

/// The one place where the key occurs first is the slot.
pub proof fn first_is_slot<A: Keyed>(items: Seq<A>, key: Seq<char>, at: int)
    requires
        0 <= at <= items.len(),
        at < items.len() ==> items[at].key() == key,
        forall|i: int| 0 <= i < at ==> (#[trigger] items[i]).key() != key,
    ensures
        slot(items, key) == at,
{
    slot_is_first(items, key);
    let slot = slot(items, key);
    if slot < at {
        assert(items[slot].key() != key);
    }
    if at < slot {
        assert(items[at].key() != key);
    }
}

/// An item that is put into a list is found by its key, and every other key finds what it did.
pub proof fn lookup_after_put<A: Keyed>(items: Seq<A>, item: A, key: Seq<char>)
    ensures
        lookup(with_item(items, item), key) == if key == item.key() {
            Some(item)
        } else {
            lookup(items, key)
        },
{
    let after = with_item(items, item);
    slot_is_first(items, key);
    slot_is_first(items, item.key());
    let at = slot(items, key);
    if key == item.key() || at < items.len() {
        first_is_slot(after, key, at);
    } else {
        first_is_slot(after, key, after.len() as int);
    }
}

/// Gathered items have keys of their own.
pub proof fn gathered_keys_differ<A: Keyed>(items: Seq<A>)
    ensures
        keys_differ(gathered(items)),
    decreases items.len(),
{
    if items.len() > 0 {
        gathered_keys_differ(items.drop_last());
        slot_is_first(gathered(items.drop_last()), items.last().key());
    }
}

/// What is found by a key among gathered items is the last one that had it.
pub proof fn lookup_finds_the_last<A: Keyed>(items: Seq<A>, at: int)
    requires
        0 <= at < items.len(),
        forall|i: int| at < i < items.len() ==> (#[trigger] items[i]).key() != items[at].key(),
    ensures
        lookup(gathered(items), items[at].key()) == Some(items[at]),
    decreases items.len(),
{
    let rest = items.drop_last();
    lookup_after_put(gathered(rest), items.last(), items[at].key());
    if at < items.len() - 1 {
        assert forall|i: int| at < i < rest.len() implies (#[trigger] rest[i]).key()
            != rest[at].key() by {
            assert(rest[i] == items[i]);
        }
        lookup_finds_the_last(rest, at);
        assert(items.last().key() != items[at].key());
    }
}

/// Puts an item in place of the one with its key, or at the end where there is none.
pub fn put<A: Keyed>(items: &mut Vec<A>, item: A)
    requires
        keys_differ(old(items)@),
    ensures
        final(items)@ == with_item(old(items)@, item),
        keys_differ(final(items)@),
{
    let mut at: usize = 0;
    while at < items.len() && !items[at].same_key(&item)
        invariant
            items@ == old(items)@,
            at <= items.len(),
            forall|i: int| 0 <= i < at ==> (#[trigger] items@[i]).key() != item.key(),
        decreases items.len() - at,
    {
        at = at + 1;
    }
    proof {
        first_is_slot(items@, item.key(), at as int);
    }
    if at < items.len() {
        items.set(at, item);
    } else {
        items.push(item);
    }
}

/// An item that is put into a list takes the one place of its key, or a place of its own behind all
/// others; every item with another key stays where it is.
pub proof fn putting_an_item_moves_no_other<A: Keyed>(items: Seq<A>, item: A)
    requires
        keys_differ(items),
    ensures
        ({
            let after = with_item(items, item);
            &&& keys_differ(after)
            &&& forall|i: int|
                0 <= i < items.len() ==> #[trigger] after[i] == if items[i].key() == item.key() {
                    item
                } else {
                    items[i]
                }
            &&& if exists|i: int| 0 <= i < items.len() && (#[trigger] items[i]).key() == item.key() {
                after.len() == items.len()
            } else {
                after.len() == items.len() + 1 && after.last() == item
            }
        }),
{
    slot_is_first(items, item.key());
    let slot = slot(items, item.key());
    if slot < items.len() {
        assert(items[slot].key() == item.key());
    }
}

/// Gathered items are those of which no later one has the key, and no others.
pub proof fn gathered_items_are_the_last_of_their_keys<A: Keyed>(items: Seq<A>, item: A)
    ensures
        gathered(items).contains(item) <==> exists|at: int|
            {
                &&& 0 <= at < items.len()
                &&& #[trigger] items[at] == item
                &&& forall|i: int| at < i < items.len() ==> (#[trigger] items[i]).key() != item.key()
            },
    decreases items.len(),
{
    if gathered(items).contains(item) {
        let place = gathered(items).index_of(item);
        let rest = items.drop_last();
        let last = items.last();
        gathered_keys_differ(rest);
        gathered_items_are_the_last_of_their_keys(rest, item);
        putting_an_item_moves_no_other(gathered(rest), last);
        assert(gathered(items) == with_item(gathered(rest), last));
        if item == last {
            assert(items[items.len() - 1] == item);
        } else {
            assert(place < gathered(rest).len());
            assert(gathered(rest)[place] == item && item.key() != last.key());
            assert(gathered(rest).contains(item));
            let at = choose|at: int|
                {
                    &&& 0 <= at < rest.len()
                    &&& #[trigger] rest[at] == item
                    &&& forall|i: int|
                        at < i < rest.len() ==> (#[trigger] rest[i]).key() != item.key()
                };
            assert(items[at] == item);
            assert forall|i: int| at < i < items.len() implies (#[trigger] items[i]).key()
                != item.key() by {
                if i < rest.len() {
                    assert(rest[i] == items[i]);
                }
            }
        }
    }
    if exists|at: int|
        {
            &&& 0 <= at < items.len()
            &&& #[trigger] items[at] == item
            &&& forall|i: int| at < i < items.len() ==> (#[trigger] items[i]).key() != item.key()
        } {
        let at = choose|at: int|
            {
                &&& 0 <= at < items.len()
                &&& #[trigger] items[at] == item
                &&& forall|i: int| at < i < items.len() ==> (#[trigger] items[i]).key() != item.key()
            };
        lookup_finds_the_last(items, at);
        slot_is_first(gathered(items), item.key());
        assert(gathered(items)[slot(gathered(items), item.key())] == item);
    }
}

} // verus!
