//! What holds of the store whatever its callers do.
//!
//! The theorems here speak of the store as [`StoreView`] and of the
//! operations as the functions of [`crate::model`]. The contracts of the
//! executable operations say that they compute exactly those functions, so
//! what is proved here holds of every run of the crate.

use crate::error::{Action, ItemError};
use crate::item::ItemView;
use crate::model::{
    id_limit, items_below, lemma_items_below_are_stored, lemma_items_below_has_stored, owned_by,
    Op, StoreView,
};
use vstd::prelude::*;

verus! {

/// A valid store stays valid under every change that an identity asks for.
pub proof fn lemma_apply_keeps_wf(s: StoreView, op: Op)
    requires
        s.wf(),
        op.wf(),
    ensures
        s.apply(op).wf(),
{
}

/// A valid store stays valid under every sequence of such changes.
pub proof fn lemma_run_keeps_wf(s: StoreView, ops: Seq<Op>)
    requires
        s.wf(),
        forall|i: int| 0 <= i < ops.len() ==> (#[trigger] ops[i]).wf(),
    ensures
        s.run(ops).wf(),
    decreases ops.len(),
{
    if ops.len() > 0 {
        lemma_apply_keeps_wf(s, ops.first());
        let rest = ops.drop_first();
        assert forall|i: int| 0 <= i < rest.len() implies (#[trigger] rest[i]).wf() by {
            assert(rest[i] == ops[i + 1]);
        }
        lemma_run_keeps_wf(s.apply(ops.first()), rest);
    }
}

/// The counter never goes back, whatever is created, updated or deleted.
pub proof fn lemma_counter_never_goes_back(s: StoreView, ops: Seq<Op>)
    ensures
        s.next_id <= s.run(ops).next_id,
    decreases ops.len(),
{
    if ops.len() > 0 {
        lemma_counter_never_goes_back(s.apply(ops.first()), ops.drop_first());
    }
}

/// The ids that a sequence of changes gives to the items it creates are
/// strictly increasing, so none is given twice, also where deletions and
/// updates stand between the creations; and none is an id that the counter
/// had passed before.
pub proof fn lemma_created_ids_increase(s: StoreView, ops: Seq<Op>)
    ensures
        forall|i: int, j: int|
            0 <= i < j < s.created_ids(ops).len() ==> s.created_ids(ops)[i] < s.created_ids(
                ops,
            )[j],
        forall|i: int| 0 <= i < s.created_ids(ops).len() ==> s.next_id <= s.created_ids(ops)[i],
    decreases ops.len(),
{
    if ops.len() > 0 {
        let next = s.apply(ops.first());
        let later = next.created_ids(ops.drop_first());
        lemma_created_ids_increase(next, ops.drop_first());
        if s.creates(ops.first()) {
            let ids = s.created_ids(ops);
            assert(ids == seq![s.next_id] + later);
            assert forall|i: int, j: int| 0 <= i < j < ids.len() implies ids[i] < ids[j] by {
                assert(ids[j] == later[j - 1]);
                if i > 0 {
                    assert(ids[i] == later[i - 1]);
                }
            }
            assert forall|i: int| 0 <= i < ids.len() implies s.next_id <= ids[i] by {
                if i > 0 {
                    assert(ids[i] == later[i - 1]);
                }
            }
        }
    }
}

/// An item that was just created is what `get` returns for its id: its owner
/// is the caller who created it, and its two times are the time of creation.
pub proof fn lemma_created_item_is_stored(
    s: StoreView,
    caller: Seq<u8>,
    name: Seq<char>,
    description: Seq<char>,
    now: u64,
)
    requires
        s.can_allocate(),
    ensures
        ({
            let item = s.new_item(caller, name, description, now);
            &&& s.create(caller, name, description, now).get(item.id) == Ok::<
                ItemView,
                ItemError,
            >(item)
            &&& item.id == s.next_id
            &&& item.owner == caller
            &&& item.created_at == now
            &&& item.updated_at == item.created_at
        }),
{
}

/// Whether an item exists is settled before whose it is: an update or a
/// deletion of an id that is not stored is `NotFound` for every caller, and
/// one of a stored item by another than its owner is `Forbidden`. Neither
/// changes the store.
pub proof fn lemma_existence_is_settled_first(
    s: StoreView,
    caller: Seq<u8>,
    id: u64,
    name: Seq<char>,
    description: Seq<char>,
    now: u64,
)
    ensures
        !s.items.dom().contains(id) ==> {
            &&& s.update_result(caller, id, name, description, now) == Err::<ItemView, ItemError>(
                ItemError::NotFound { id },
            )
            &&& s.owned(caller, id, Action::Delete) == Err::<ItemView, ItemError>(
                ItemError::NotFound { id },
            )
        },
        s.items.dom().contains(id) && s.items[id].owner != caller ==> {
            &&& s.update_result(caller, id, name, description, now) == Err::<ItemView, ItemError>(
                ItemError::Forbidden { id, action: Action::Update },
            )
            &&& s.owned(caller, id, Action::Delete) == Err::<ItemView, ItemError>(
                ItemError::Forbidden { id, action: Action::Delete },
            )
        },
        !(s.items.dom().contains(id) && s.items[id].owner == caller) ==> {
            &&& s.update(caller, id, name, description, now) == s
            &&& s.delete(caller, id) == s
        },
{
}

/// An update by the owner replaces the name and the description, sets the
/// update time, and leaves the id, the owner and the creation time as they
/// were; the item is then stored as returned, and no other item has changed.
pub proof fn lemma_update_by_owner(
    s: StoreView,
    caller: Seq<u8>,
    id: u64,
    name: Seq<char>,
    description: Seq<char>,
    now: u64,
)
    requires
        s.items.dom().contains(id),
        s.items[id].owner == caller,
    ensures
        s.update_result(caller, id, name, description, now) matches Ok(updated) && {
            &&& updated.name == name
            &&& updated.description == description
            &&& updated.updated_at == now
            &&& updated.id == s.items[id].id
            &&& updated.owner == s.items[id].owner
            &&& updated.created_at == s.items[id].created_at
            &&& s.update(caller, id, name, description, now).get(id) == Ok::<ItemView, ItemError>(
                updated,
            )
        },
        forall|other: u64|
            other != id ==> #[trigger] s.update(caller, id, name, description, now).get(other)
                == s.get(other),
        s.update(caller, id, name, description, now).next_id == s.next_id,
{
}

/// Where the clock has not gone back since the item was last updated, an
/// update by the owner does not move the update time back, and the item is
/// still not updated before it was created.
pub proof fn lemma_update_time_advances(
    s: StoreView,
    caller: Seq<u8>,
    id: u64,
    name: Seq<char>,
    description: Seq<char>,
    now: u64,
)
    requires
        s.items.dom().contains(id),
        s.items[id].owner == caller,
        s.items[id].updated_at <= now,
    ensures
        s.update_result(caller, id, name, description, now) matches Ok(updated) && {
            &&& s.items[id].updated_at <= updated.updated_at
            &&& s.items[id].created_at <= s.items[id].updated_at ==> updated.created_at
                <= updated.updated_at
        },
{
}

/// No change makes an item older than its creation, as long as the clock
/// does not go back.
pub proof fn lemma_timestamps_stay_ordered(s: StoreView, op: Op)
    requires
        s.timestamps_ordered(),
        s.clock_holds(op),
    ensures
        s.apply(op).timestamps_ordered(),
{
}

/// As long as the clock does not go back, no sequence of changes makes an
/// item older than its creation.
pub proof fn lemma_run_keeps_timestamps_ordered(s: StoreView, ops: Seq<Op>)
    requires
        s.timestamps_ordered(),
        s.clock_holds_during(ops),
    ensures
        s.run(ops).timestamps_ordered(),
    decreases ops.len(),
{
    if ops.len() > 0 {
        lemma_timestamps_stay_ordered(s, ops.first());
        lemma_run_keeps_timestamps_ordered(s.apply(ops.first()), ops.drop_first());
    }
}

/// A creation for which no id is left, and an update or a deletion that
/// fails, leave the store exactly as it was: a failed update does not touch
/// the update time.
pub proof fn lemma_failure_changes_nothing(s: StoreView, op: Op)
    requires
        match op {
            Op::Create { .. } => !s.can_allocate(),
            Op::Update { caller, id, .. } => s.owned(caller, id, Action::Update) is Err,
            Op::Delete { caller, id } => s.owned(caller, id, Action::Delete) is Err,
        },
    ensures
        s.apply(op) == s,
{
}

/// A deletion by the owner removes the item: `get` no longer finds it, and
/// neither the list of all items nor anyone's list of their own holds an
/// item with its id. No other item has changed.
pub proof fn lemma_deleted_item_is_gone(s: StoreView, caller: Seq<u8>, id: u64, reader: Seq<u8>)
    requires
        s.wf(),
        s.items.dom().contains(id),
        s.items[id].owner == caller,
    ensures
        s.delete(caller, id).get(id) == Err::<ItemView, ItemError>(ItemError::NotFound { id }),
        forall|i: int|
            0 <= i < s.delete(caller, id).list_all().len() ==> (#[trigger] s.delete(
                caller,
                id,
            ).list_all()[i]).id != id,
        forall|i: int|
            0 <= i < s.delete(caller, id).list_mine(reader).len() ==> (#[trigger] s.delete(
                caller,
                id,
            ).list_mine(reader)[i]).id != id,
        forall|other: u64| other != id ==> #[trigger] s.delete(caller, id).get(other) == s.get(other),
{
    let after = s.delete(caller, id);
    let all = after.list_all();
    let mine = after.list_mine(reader);
    assert forall|i: int| 0 <= i < all.len() implies (#[trigger] all[i]).id != id by {
        lemma_items_below_are_stored(after.items, id_limit(), i);
    }
    assert forall|i: int| 0 <= i < mine.len() implies (#[trigger] mine[i]).id != id by {
        assert(mine.contains(mine[i]));
        all.lemma_filter_contains_rev(owned_by(reader), mine[i]);
        let j = choose|j: int| 0 <= j < all.len() && all[j] == mine[i];
        assert(all[j].id != id);
    }
}

/// The list of all items holds exactly the stored items, each once and in
/// ascending order of id.
pub proof fn lemma_list_all_is_the_store(s: StoreView)
    requires
        s.wf(),
    ensures
        forall|i: int|
            0 <= i < s.list_all().len() ==> s.get((#[trigger] s.list_all()[i]).id) == Ok::<
                ItemView,
                ItemError,
            >(s.list_all()[i]),
        forall|id: u64| #[trigger]
            s.items.dom().contains(id) ==> s.list_all().contains(s.items[id]),
        forall|i: int, j: int|
            0 <= i < j < s.list_all().len() ==> s.list_all()[i].id < s.list_all()[j].id,
{
    let all = s.list_all();
    assert forall|i: int| 0 <= i < all.len() implies s.get((#[trigger] all[i]).id) == Ok::<
        ItemView,
        ItemError,
    >(all[i]) by {
        lemma_items_below_are_stored(s.items, id_limit(), i);
    }
    assert forall|id: u64| #[trigger] s.items.dom().contains(id) implies all.contains(
        s.items[id],
    ) by {
        lemma_items_below_has_stored(s.items, id_limit(), id);
    }
    lemma_items_below_ascend(s, id_limit());
}

/// The listed items below a bound have ascending ids below that bound.
proof fn lemma_items_below_ascend(s: StoreView, bound: nat)
    requires
        s.wf(),
    ensures
        forall|i: int, j: int|
            0 <= i < j < items_below(s.items, bound).len() ==> items_below(s.items, bound)[i].id
                < items_below(s.items, bound)[j].id,
        forall|i: int|
            0 <= i < items_below(s.items, bound).len() ==> items_below(s.items, bound)[i].id
                < bound,
    decreases bound,
{
    if bound > 0 {
        let before = items_below(s.items, (bound - 1) as nat);
        let listed = items_below(s.items, bound);
        let id = (bound - 1) as u64;
        lemma_items_below_ascend(s, (bound - 1) as nat);
        assert forall|i: int| 0 <= i < listed.len() implies listed[i].id < bound by {
            if i < before.len() {
                assert(listed[i] == before[i]);
            } else {
                assert(s.items.dom().contains(id));
            }
        }
        assert forall|i: int, j: int| 0 <= i < j < listed.len() implies listed[i].id
            < listed[j].id by {
            assert(listed[i] == before[i]);
            if j < before.len() {
                assert(listed[j] == before[j]);
            } else {
                assert(s.items.dom().contains(id));
            }
        }
    }
}

/// A caller's own items are exactly those among all items that the caller
/// owns, in the same order, whoever the other owners are.
pub proof fn lemma_mine_are_those_of_all(s: StoreView, caller: Seq<u8>)
    ensures
        s.list_mine(caller) == s.list_all().filter(owned_by(caller)),
        forall|i: int|
            0 <= i < s.list_mine(caller).len() ==> (#[trigger] s.list_mine(caller)[i]).owner
                == caller && s.list_all().contains(s.list_mine(caller)[i]),
        forall|i: int|
            0 <= i < s.list_all().len() && (#[trigger] s.list_all()[i]).owner == caller
                ==> s.list_mine(caller).contains(s.list_all()[i]),
{
    let all = s.list_all();
    let mine = s.list_mine(caller);
    assert forall|i: int| 0 <= i < mine.len() implies (#[trigger] mine[i]).owner == caller
        && all.contains(mine[i]) by {
        all.lemma_filter_pred(owned_by(caller), i);
        assert(mine.contains(mine[i]));
        all.lemma_filter_contains_rev(owned_by(caller), mine[i]);
    }
    assert forall|i: int| 0 <= i < all.len() && (#[trigger] all[i]).owner == caller implies mine.contains(
        all[i],
    ) by {
        all.lemma_filter_contains(owned_by(caller), i);
    }
}

/// An id that the counter has passed and that is not stored is never stored
/// again: no id is given out a second time.
pub proof fn lemma_ids_are_not_reused(s: StoreView, ops: Seq<Op>, id: u64)
    requires
        id < s.next_id,
        !s.items.dom().contains(id),
    ensures
        !s.run(ops).items.dom().contains(id),
    decreases ops.len(),
{
    if ops.len() > 0 {
        lemma_ids_are_not_reused(s.apply(ops.first()), ops.drop_first(), id);
    }
}

/// The owner of an item is set once: as long as the item is stored, its id,
/// its owner and its creation time are what they were, whatever changes
/// were made in between.
pub proof fn lemma_owner_is_kept(s: StoreView, ops: Seq<Op>, id: u64)
    requires
        s.wf(),
        s.items.dom().contains(id),
        s.run(ops).items.dom().contains(id),
    ensures
        s.run(ops).items[id].id == s.items[id].id,
        s.run(ops).items[id].owner == s.items[id].owner,
        s.run(ops).items[id].created_at == s.items[id].created_at,
{
    lemma_owner_is_kept_from(s, ops, id);
}

/// One change leaves the id, the owner and the creation time of a stored
/// item whose id the counter has passed.
proof fn lemma_owner_is_kept_by_one(s: StoreView, op: Op, id: u64)
    requires
        id < s.next_id,
        s.items.dom().contains(id),
        s.apply(op).items.dom().contains(id),
    ensures
        id < s.apply(op).next_id,
        s.apply(op).items[id].id == s.items[id].id,
        s.apply(op).items[id].owner == s.items[id].owner,
        s.apply(op).items[id].created_at == s.items[id].created_at,
{
}

/// The same for a sequence of changes.
proof fn lemma_owner_is_kept_from(s: StoreView, ops: Seq<Op>, id: u64)
    requires
        id < s.next_id,
        s.items.dom().contains(id),
        s.run(ops).items.dom().contains(id),
    ensures
        s.run(ops).items[id].id == s.items[id].id,
        s.run(ops).items[id].owner == s.items[id].owner,
        s.run(ops).items[id].created_at == s.items[id].created_at,
    decreases ops.len(),
{
    if ops.len() > 0 {
        let next = s.apply(ops.first());
        if next.items.dom().contains(id) {
            lemma_owner_is_kept_by_one(s, ops.first(), id);
            lemma_owner_is_kept_from(next, ops.drop_first(), id);
        } else {
            lemma_ids_are_not_reused(next, ops.drop_first(), id);
        }
    }
}

} // verus!
