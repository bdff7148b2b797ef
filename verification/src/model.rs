//! The store as a mathematical value, and what each operation makes of it.
//!
//! Every executable operation of this crate is specified by a function here:
//! its contract says that the store's view afterwards, and the result, are
//! what these functions give for the view before.

use crate::error::{Action, ItemError};
use crate::identity::MAX_IDENTITY_BYTES;
use crate::item::ItemView;
use vstd::prelude::*;

verus! {

/// One more than the greatest id.
pub open spec fn id_limit() -> nat {
    0x1_0000_0000_0000_0000
}

/// The items among `items` whose id is below `bound`, in ascending order of id.
pub open spec fn items_below(items: Map<u64, ItemView>, bound: nat) -> Seq<ItemView>
    decreases bound,
{
    if bound == 0 {
        Seq::empty()
    } else {
        let id = (bound - 1) as u64;
        let before = items_below(items, (bound - 1) as nat);
        if bound <= id_limit() && items.dom().contains(id) {
            before.push(items[id])
        } else {
            before
        }
    }
}

/// The test that an item belongs to `caller`.
pub open spec fn owned_by(caller: Seq<u8>) -> spec_fn(ItemView) -> bool {
    |item: ItemView| item.owner == caller
}

/// A store: the id that the next created item gets, and the items by id.
pub struct StoreView {
    pub next_id: u64,
    pub items: Map<u64, ItemView>,
}

impl StoreView {
    /// Every item is stored under its own id, that id has been given out, and
    /// its owner is an identity.
    pub open spec fn wf(self) -> bool {
        forall|id: u64| #[trigger]
            self.items.dom().contains(id) ==> {
                &&& self.items[id].id == id
                &&& id < self.next_id
                &&& self.items[id].owner.len() <= MAX_IDENTITY_BYTES
            }
    }

    /// Whether an id is left to give out.
    pub open spec fn can_allocate(self) -> bool {
        self.next_id < u64::MAX
    }

    /// The store after it has given out `next_id`.
    pub open spec fn allocate(self) -> StoreView
        recommends
            self.can_allocate(),
    {
        StoreView { next_id: (self.next_id + 1) as u64, items: self.items }
    }

    /// The store with `item` under its id, in place of what was there.
    pub open spec fn put(self, item: ItemView) -> StoreView {
        StoreView { next_id: self.next_id, items: self.items.insert(item.id, item) }
    }

    /// The store without the item `id`.
    pub open spec fn remove(self, id: u64) -> StoreView {
        StoreView { next_id: self.next_id, items: self.items.remove(id) }
    }

    /// Every item, in ascending order of id.
    pub open spec fn list_all(self) -> Seq<ItemView> {
        items_below(self.items, id_limit())
    }

    /// The items of `caller`, in ascending order of id.
    pub open spec fn list_mine(self, caller: Seq<u8>) -> Seq<ItemView> {
        self.list_all().filter(owned_by(caller))
    }

    /// The item `id`, whoever asks.
    pub open spec fn get(self, id: u64) -> Result<ItemView, ItemError> {
        if self.items.dom().contains(id) {
            Ok(self.items[id])
        } else {
            Err(ItemError::NotFound { id })
        }
    }

    /// The item `id` where `caller` may change it. Whether the item exists is
    /// settled first: a missing item is `NotFound` for every caller.
    pub open spec fn owned(self, caller: Seq<u8>, id: u64, action: Action) -> Result<
        ItemView,
        ItemError,
    > {
        if !self.items.dom().contains(id) {
            Err(ItemError::NotFound { id })
        } else if self.items[id].owner != caller {
            Err(ItemError::Forbidden { id, action })
        } else {
            Ok(self.items[id])
        }
    }

    /// The item that `caller` creates at time `now`.
    pub open spec fn new_item(
        self,
        caller: Seq<u8>,
        name: Seq<char>,
        description: Seq<char>,
        now: u64,
    ) -> ItemView {
        ItemView {
            id: self.next_id,
            owner: caller,
            name,
            description,
            created_at: now,
            updated_at: now,
        }
    }

    /// The store after `caller` has created an item at time `now`.
    pub open spec fn create(
        self,
        caller: Seq<u8>,
        name: Seq<char>,
        description: Seq<char>,
        now: u64,
    ) -> StoreView
        recommends
            self.can_allocate(),
    {
        self.allocate().put(self.new_item(caller, name, description, now))
    }

    /// What `caller` gets for an update of item `id` at time `now`: the item
    /// with both texts replaced and the update time set to `now`, or the error.
    pub open spec fn update_result(
        self,
        caller: Seq<u8>,
        id: u64,
        name: Seq<char>,
        description: Seq<char>,
        now: u64,
    ) -> Result<ItemView, ItemError> {
        match self.owned(caller, id, Action::Update) {
            Ok(existing) => Ok(
                ItemView {
                    id: existing.id,
                    owner: existing.owner,
                    name,
                    description,
                    created_at: existing.created_at,
                    updated_at: now,
                },
            ),
            Err(e) => Err(e),
        }
    }

    /// The store after that update: unchanged where it fails.
    pub open spec fn update(
        self,
        caller: Seq<u8>,
        id: u64,
        name: Seq<char>,
        description: Seq<char>,
        now: u64,
    ) -> StoreView {
        match self.update_result(caller, id, name, description, now) {
            Ok(updated) => StoreView { next_id: self.next_id, items: self.items.insert(id, updated) },
            Err(_) => self,
        }
    }

    /// The store after `caller` has asked to delete item `id`: unchanged where
    /// the caller may not.
    pub open spec fn delete(self, caller: Seq<u8>, id: u64) -> StoreView {
        match self.owned(caller, id, Action::Delete) {
            Ok(_) => self.remove(id),
            Err(_) => self,
        }
    }
}

/// Whether `ids` is in strictly ascending order.
pub open spec fn ascending(ids: Seq<u64>) -> bool {
    forall|i: int, j: int| 0 <= i < j < ids.len() ==> ids[i] < ids[j]
}

/// A list of ids in ascending order that holds, below `bound`, exactly the
/// ids of `items`, names the items below `bound` in their order.
pub proof fn lemma_items_below_by_ids(items: Map<u64, ItemView>, ids: Seq<u64>, bound: nat)
    requires
        bound <= id_limit(),
        ascending(ids),
        forall|i: int| 0 <= i < ids.len() ==> ids[i] < bound,
        forall|id: u64| id < bound ==> (items.dom().contains(id) <==> ids.contains(id)),
    ensures
        items_below(items, bound) == ids.map_values(|id: u64| items[id]),
    decreases bound,
{
    let listed = ids.map_values(|id: u64| items[id]);
    if bound == 0 {
        assert(ids.len() == 0) by {
            if ids.len() > 0 {
                assert(ids[0] < bound);
            }
        }
        assert(items_below(items, bound) =~= listed);
    } else {
        let id = (bound - 1) as u64;
        let below = (bound - 1) as nat;
        if ids.len() > 0 && ids.last() == id {
            let front = ids.drop_last();
            assert(ids.contains(id)) by {
                assert(ids[ids.len() - 1] == id);
            }
            assert forall|other: u64| other < below implies (items.dom().contains(other)
                <==> front.contains(other)) by {
                if ids.contains(other) {
                    let i = choose|i: int| 0 <= i < ids.len() && ids[i] == other;
                    assert(front[i] == other);
                }
                if front.contains(other) {
                    let i = choose|i: int| 0 <= i < front.len() && front[i] == other;
                    assert(ids[i] == other);
                }
            }
            assert forall|i: int| 0 <= i < front.len() implies front[i] < below by {
                assert(ids[i] < ids[ids.len() - 1]);
            }
            lemma_items_below_by_ids(items, front, below);
            assert(front.map_values(|id: u64| items[id]).push(items[id]) =~= listed);
        } else {
            assert(!ids.contains(id)) by {
                if ids.contains(id) {
                    let i = choose|i: int| 0 <= i < ids.len() && ids[i] == id;
                    assert(ids[ids.len() - 1] < bound);
                    if i < ids.len() - 1 {
                        assert(ids[i] < ids[ids.len() - 1]);
                    }
                }
            }
            assert forall|i: int| 0 <= i < ids.len() implies ids[i] < below by {
                assert(ids[i] < bound);
                assert(ids.contains(ids[i]));
            }
            lemma_items_below_by_ids(items, ids, below);
        }
    }
}

/// A change that a caller asks for.
pub enum Op {
    Create { caller: Seq<u8>, name: Seq<char>, description: Seq<char>, now: u64 },
    Update { caller: Seq<u8>, id: u64, name: Seq<char>, description: Seq<char>, now: u64 },
    Delete { caller: Seq<u8>, id: u64 },
}

impl Op {
    /// Whether the caller of this change is an identity.
    pub open spec fn wf(self) -> bool {
        match self {
            Op::Create { caller, .. } => caller.len() <= MAX_IDENTITY_BYTES,
            Op::Update { caller, .. } => caller.len() <= MAX_IDENTITY_BYTES,
            Op::Delete { caller, .. } => caller.len() <= MAX_IDENTITY_BYTES,
        }
    }
}

impl StoreView {
    /// Whether `op` creates an item in this store: it is a creation, and an
    /// id is left for it.
    pub open spec fn creates(self, op: Op) -> bool {
        op is Create && self.can_allocate()
    }

    /// The store after `op`. A creation for which no id is left changes
    /// nothing, as does an update or a deletion that fails.
    pub open spec fn apply(self, op: Op) -> StoreView {
        match op {
            Op::Create { caller, name, description, now } => if self.can_allocate() {
                self.create(caller, name, description, now)
            } else {
                self
            },
            Op::Update { caller, id, name, description, now } => self.update(
                caller,
                id,
                name,
                description,
                now,
            ),
            Op::Delete { caller, id } => self.delete(caller, id),
        }
    }

    /// The store after `ops`, one after the other.
    pub open spec fn run(self, ops: Seq<Op>) -> StoreView
        decreases ops.len(),
    {
        if ops.len() == 0 {
            self
        } else {
            self.apply(ops.first()).run(ops.drop_first())
        }
    }

    /// The ids of the items that `ops` create, in the order of their creation.
    pub open spec fn created_ids(self, ops: Seq<Op>) -> Seq<u64>
        decreases ops.len(),
    {
        if ops.len() == 0 {
            Seq::empty()
        } else {
            let later = self.apply(ops.first()).created_ids(ops.drop_first());
            if self.creates(ops.first()) {
                seq![self.next_id] + later
            } else {
                later
            }
        }
    }

    /// Whether no item was updated before it was created.
    pub open spec fn timestamps_ordered(self) -> bool {
        forall|id: u64| #[trigger]
            self.items.dom().contains(id) ==> self.items[id].created_at
                <= self.items[id].updated_at
    }

    /// Whether the time that `op` carries is not before the last update of
    /// the item that it changes.
    pub open spec fn clock_holds(self, op: Op) -> bool {
        op matches Op::Update { id, now, .. } ==> (self.items.dom().contains(id)
            ==> self.items[id].updated_at <= now)
    }

    /// Whether that is so of each of `ops` in the store that it is applied to.
    pub open spec fn clock_holds_during(self, ops: Seq<Op>) -> bool
        decreases ops.len(),
    {
        ops.len() == 0 || (self.clock_holds(ops.first()) && self.apply(
            ops.first(),
        ).clock_holds_during(ops.drop_first()))
    }
}

/// Every listed item is a stored item with an id below the bound.
pub proof fn lemma_items_below_are_stored(items: Map<u64, ItemView>, bound: nat, i: int)
    requires
        0 <= i < items_below(items, bound).len(),
    ensures
        exists|id: u64|
            id < bound && #[trigger] items.dom().contains(id) && items_below(items, bound)[i]
                == items[id],
    decreases bound,
{
    if bound > 0 {
        let id = (bound - 1) as u64;
        let before = items_below(items, (bound - 1) as nat);
        if i < before.len() {
            lemma_items_below_are_stored(items, (bound - 1) as nat, i);
            let found = choose|found: u64|
                found < bound - 1 && #[trigger] items.dom().contains(found) && before[i]
                    == items[found];
            assert(found < bound && items.dom().contains(found) && items_below(items, bound)[i]
                == items[found]);
        } else {
            assert(id < bound && items.dom().contains(id) && items_below(items, bound)[i]
                == items[id]);
        }
    }
}

/// Every stored item with an id below the bound is listed.
pub proof fn lemma_items_below_has_stored(items: Map<u64, ItemView>, bound: nat, id: u64)
    requires
        id < bound <= id_limit(),
        items.dom().contains(id),
    ensures
        items_below(items, bound).contains(items[id]),
    decreases bound,
{
    let listed = items_below(items, bound);
    let before = items_below(items, (bound - 1) as nat);
    if id == bound - 1 {
        assert(listed[listed.len() - 1] == items[id]);
    } else {
        lemma_items_below_has_stored(items, (bound - 1) as nat, id);
        let i = choose|i: int| 0 <= i < before.len() && before[i] == items[id];
        assert(listed[i] == items[id]);
    }
}

} // verus!
