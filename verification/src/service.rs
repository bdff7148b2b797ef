//! The operations that callers reach: who they are, reading items, and the
//! changes that only an owner may make.
//!
//! Each operation takes the store, the identity of the caller and, where it
//! stamps a time, the current time. Its contract says that the store's view
//! and the result are what the function of the same name in
//! [`crate::model`] gives.

use crate::error::{Action, ItemError};
use crate::identity::{principal_text, Identity};
use crate::item::{CreateItemRequest, Item, ItemView, UpdateItemRequest};
use crate::model::owned_by;
use crate::record::texts_fit;
use crate::store::{next_id, views, Store};
use crate::text::{deleted_message, deletion_message};
use vstd::prelude::*;

verus! {

/// What a result that holds an item stands for.
pub open spec fn result_view(r: Result<Item, ItemError>) -> Result<ItemView, ItemError> {
    match r {
        Ok(item) => Ok(item@),
        Err(e) => Err(e),
    }
}

/// The external representation of the caller's identity.
pub fn whoami(caller: &Identity) -> (text: String)
    ensures
        text@ == principal_text(caller@),
{
    caller.to_text()
}

/// Every item, of every owner, in ascending order of id.
pub fn get_all_items(store: &Store) -> (items: Vec<Item>)
    requires
        store.wf(),
    ensures
        views(items@) == store@.list_all(),
{
    store.iterate()
}

/// The items that `caller` owns, in ascending order of id.
pub fn get_my_items(store: &Store, caller: &Identity) -> (items: Vec<Item>)
    requires
        store.wf(),
    ensures
        views(items@) == store@.list_mine(caller@),
{
    let all = store.iterate();
    let ghost listed = all@;
    let mut items: Vec<Item> = Vec::new();
    for item in it: all
        invariant
            it.seq() == listed,
            views(items@) == views(listed.take(it.index() as int)).filter(owned_by(caller@)),
    {
        proof {
            let k = it.index() as int;
            assert(listed.take(k + 1) =~= listed.take(k).push(item));
            assert(views(listed.take(k + 1)) =~= views(listed.take(k)).push(item@));
            views(listed.take(k)).lemma_filter_push(item@, owned_by(caller@));
        }
        let ghost before = items@;
        if item.owner.same_as(caller) {
            items.push(item);
            assert(views(items@) =~= views(before).push(item@));
        }
    }
    assert(listed.take(listed.len() as int) =~= listed);
    items
}

/// The item `id`, for any caller.
pub fn get_item(store: &Store, id: u64) -> (r: Result<Item, ItemError>)
    requires
        store.wf(),
    ensures
        result_view(r) == store@.get(id),
{
    match store.get(id) {
        Some(item) => Ok(item),
        None => Err(ItemError::NotFound { id }),
    }
}

/// The item `id` where `caller` may make the change `action`: where the item
/// exists and `caller` owns it. Whether the item exists is settled before
/// whose it is.
pub fn owned_item(store: &Store, caller: &Identity, id: u64, action: Action) -> (r: Result<
    Item,
    ItemError,
>)
    requires
        store.wf(),
    ensures
        result_view(r) == store@.owned(caller@, id, action),
{
    let existing = match store.get(id) {
        Some(existing) => existing,
        None => {
            return Err(ItemError::NotFound { id });
        },
    };
    if existing.owner.same_as(caller) {
        Ok(existing)
    } else {
        Err(ItemError::Forbidden { id, action })
    }
}

/// Creates an item that `caller` owns, with the next id and with `now` as
/// the time of both its creation and its last update, and returns it. Fails
/// only where no id is left, and then leaves the store as it is.
pub fn create_item(store: &mut Store, caller: &Identity, now: u64, req: CreateItemRequest) -> (r:
    Result<Item, ItemError>)
    requires
        old(store).wf(),
        texts_fit(req.name@, req.description@),
    ensures
        final(store).wf(),
        final(store).memory() == old(store).memory(),
        old(store)@.can_allocate() ==> (r matches Ok(item) && item@ == old(store)@.new_item(
            caller@,
            req.name@,
            req.description@,
            now,
        )),
        old(store)@.can_allocate() ==> final(store)@ == old(store)@.create(
            caller@,
            req.name@,
            req.description@,
            now,
        ),
        !old(store)@.can_allocate() ==> r == Err::<Item, ItemError>(ItemError::StorageFailure)
            && final(store)@ == old(store)@,
{
    let given = next_id(store);
    create_with(store, given, caller, now, req)
}

/// Creates the item once its id is settled: with the id `given`, which the
/// counter has passed, the item is stored under it and returned; with none,
/// nothing is stored.
pub fn create_with(
    store: &mut Store,
    given: Option<u64>,
    caller: &Identity,
    now: u64,
    req: CreateItemRequest,
) -> (r: Result<Item, ItemError>)
    requires
        old(store).wf(),
        texts_fit(req.name@, req.description@),
        given matches Some(id) ==> id < old(store)@.next_id,
    ensures
        final(store).wf(),
        final(store).memory() == old(store).memory(),
        given matches Some(id) ==> (r matches Ok(item) && item@ == (ItemView {
            id,
            owner: caller@,
            name: req.name@,
            description: req.description@,
            created_at: now,
            updated_at: now,
        }) && final(store)@ == old(store)@.put(item@)),
        given is None ==> r == Err::<Item, ItemError>(ItemError::StorageFailure) && final(store)@
            == old(store)@,
{
    let id = match given {
        Some(id) => id,
        None => {
            return Err(ItemError::StorageFailure);
        },
    };
    let item = Item {
        id,
        owner: caller.clone(),
        name: req.name,
        description: req.description,
        created_at: now,
        updated_at: now,
    };
    store.put(&item);
    Ok(item)
}

/// Replaces the name and the description of item `req.id` and sets its
/// update time to `now`, where the item exists and `caller` owns it; the id,
/// the owner and the creation time stay. Whether the item exists is settled
/// before whose it is. Where it fails the store is left as it is, and the
/// texts may be of any length.
pub fn update_item(store: &mut Store, caller: &Identity, now: u64, req: UpdateItemRequest) -> (r:
    Result<Item, ItemError>)
    requires
        old(store).wf(),
        old(store)@.owned(caller@, req.id, Action::Update) is Ok ==> texts_fit(
            req.name@,
            req.description@,
        ),
    ensures
        final(store).wf(),
        final(store).memory() == old(store).memory(),
        result_view(r) == old(store)@.update_result(
            caller@,
            req.id,
            req.name@,
            req.description@,
            now,
        ),
        final(store)@ == old(store)@.update(caller@, req.id, req.name@, req.description@, now),
{
    proof {
        store.lemma_view_wf();
    }
    let existing = match owned_item(store, caller, req.id, Action::Update) {
        Ok(existing) => existing,
        Err(e) => {
            return Err(e);
        },
    };
    let updated = Item {
        id: existing.id,
        owner: existing.owner,
        name: req.name,
        description: req.description,
        created_at: existing.created_at,
        updated_at: now,
    };
    store.put(&updated);
    Ok(updated)
}

/// Removes item `id`, where it exists and `caller` owns it, and returns the
/// confirmation. Whether the item exists is settled before whose it is.
/// Where it fails the store is left as it is.
pub fn delete_item(store: &mut Store, caller: &Identity, id: u64) -> (r: Result<String, ItemError>)
    requires
        old(store).wf(),
    ensures
        final(store).wf(),
        final(store).memory() == old(store).memory(),
        r matches Ok(text) ==> old(store)@.owned(caller@, id, Action::Delete) is Ok && text@
            == deleted_message(id),
        r matches Err(e) ==> old(store)@.owned(caller@, id, Action::Delete) == Err::<
            ItemView,
            ItemError,
        >(e),
        final(store)@ == old(store)@.delete(caller@, id),
{
    match owned_item(store, caller, id, Action::Delete) {
        Ok(_) => {
            store.remove(id);
            Ok(deletion_message(id))
        },
        Err(e) => Err(e),
    }
}

} // verus!
