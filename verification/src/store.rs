//! The durable store: a counter cell and a sorted map of records, both kept
//! in stable memory by the `ic_stable_structures` crate.
//!
//! The two structures are outside code. What this module believes of them is
//! written on the functions that wrap their methods; the store itself, its
//! validity and every operation on it are verified against those contracts.

use crate::error::OpenError;
use crate::identity::MAX_IDENTITY_BYTES;
use crate::item::{Item, ItemView};
use crate::model::{ascending, id_limit, lemma_items_below_by_ids, StoreView};
use crate::record::{
    decode_record, lemma_encode_decode, lemma_record_len, texts_fit, MAX_RECORD_BYTES,
};
use ic_stable_structures::cell::{InitError, ValueError};
use ic_stable_structures::memory_manager::{MemoryId, MemoryManager, VirtualMemory};
use ic_stable_structures::{DefaultMemoryImpl, StableBTreeMap, StableCell};
use vstd::prelude::*;

verus! {

/// `ic_stable_structures::cell::InitError`, the error of `StableCell::init`.
/// It is carried and never looked into.
#[verifier::external_type_specification]
#[verifier::external_body]
pub struct ExInitError(InitError);

/// `ic_stable_structures::cell::ValueError`, the error of `StableCell::set`.
/// It is carried and never looked into.
#[verifier::external_type_specification]
#[verifier::external_body]
pub struct ExValueError(ValueError);

/// The memory that the store lives in, divided into numbered memories by a
/// `MemoryManager` of `ic_stable_structures` over that crate's default
/// memory: the stable memory of the canister on `wasm32`, and a new, empty
/// vector of bytes elsewhere. Nothing is known of what it holds.
///
/// The manager's type is bound by a trait of that crate, which the verifier
/// cannot be told of, so the manager is held here unseen.
#[verifier::external_body]
pub struct Backing {
    manager: MemoryManager<DefaultMemoryImpl>,
}

/// A `StableCell` of `ic_stable_structures` that holds the id counter, held
/// unseen for the same reason. All that is known of it is
/// [`counter_value`], through the functions below.
#[verifier::external_body]
pub struct Counter {
    cell: StableCell<u64, VirtualMemory<DefaultMemoryImpl>>,
}

/// A `StableBTreeMap` of `ic_stable_structures` from id to record, held
/// unseen for the same reason. All that is known of it is
/// [`stored_records`], through the functions below.
#[verifier::external_body]
pub struct Records {
    map: StableBTreeMap<u64, Vec<u8>, VirtualMemory<DefaultMemoryImpl>>,
}

/// The value that a counter cell holds.
pub uninterp spec fn counter_value(counter: Counter) -> u64;

/// The records that a map holds, by key.
pub uninterp spec fn stored_records(records: Records) -> Map<u64, Seq<u8>>;

/// Whether `entries` lists `stored` in full, in ascending order of key.
pub open spec fn lists_records(entries: Seq<(u64, Vec<u8>)>, stored: Map<u64, Seq<u8>>) -> bool {
    &&& forall|i: int|
        0 <= i < entries.len() ==> stored.dom().contains((#[trigger] entries[i]).0)
            && stored[entries[i].0] == entries[i].1@
    &&& forall|i: int, j: int|
        0 <= i < j < entries.len() ==> (#[trigger] entries[i]).0 < (#[trigger] entries[j]).0
    &&& forall|key: u64| #[trigger]
        stored.dom().contains(key) ==> exists|i: int|
            0 <= i < entries.len() && (#[trigger] entries[i]).0 == key
}

/// Calls `MemoryManager::init` on the default memory of `ic_stable_structures`.
/// Nothing is said of what the memory holds.
#[verifier::external_body]
fn manager_init() -> (backing: Backing) {
    Backing { manager: MemoryManager::init(DefaultMemoryImpl::default()) }
}

/// Calls `StableCell::init` on the memory `memory` of the manager: the cell
/// that the memory holds, or a new one with `initial` where it holds none, or
/// the error. `MemoryId::new` panics on 255, which `requires` leaves out.
#[verifier::external_body]
fn counter_init(backing: &Backing, memory: u8, initial: u64) -> (r: Result<Counter, InitError>)
    requires
        memory < 255,
{
    match StableCell::init(backing.manager.get(MemoryId::new(memory)), initial) {
        Ok(cell) => Ok(Counter { cell }),
        Err(e) => Err(e),
    }
}

/// Calls `StableBTreeMap::init` on the memory `memory` of the manager: the
/// map that the memory holds, or a new one where it holds none.
#[verifier::external_body]
fn records_init(backing: &Backing, memory: u8) -> (records: Records)
    requires
        memory < 255,
{
    Records { map: StableBTreeMap::init(backing.manager.get(MemoryId::new(memory))) }
}

/// Calls `StableCell::get`, which hands out the value that the cell holds.
#[verifier::external_body]
fn counter_get(counter: &Counter) -> (value: u64)
    ensures
        value == counter_value(*counter),
{
    *counter.cell.get()
}

/// Calls `StableCell::set` on the counter cell: afterwards the cell holds
/// `value`, and the value it held before is returned.
///
/// `set` returns an error only where it must grow the memory and cannot, and
/// it grows the memory only where that has no page or the value does not fit
/// in the pages there are. The memory of a cell has a page from the cell's
/// making on, since `init` writes a new cell before it returns it and finds
/// an old one only in a memory that has one; and a `u64` is written as eight
/// bytes. So the call on this cell succeeds.
#[verifier::external_body]
fn counter_set(counter: &mut Counter, value: u64) -> (r: Result<u64, ValueError>)
    ensures
        r matches Ok(previous) && previous == counter_value(*old(counter)),
        counter_value(*final(counter)) == value,
{
    counter.cell.set(value)
}

/// Calls `StableBTreeMap::get`: the record stored under `key`, if there is one.
#[verifier::external_body]
fn records_get(records: &Records, key: u64) -> (r: Option<Vec<u8>>)
    ensures
        r is Some <==> stored_records(*records).dom().contains(key),
        r matches Some(bytes) ==> bytes@ == stored_records(*records)[key],
{
    records.map.get(&key)
}

/// Calls `StableBTreeMap::insert`: afterwards `value` is stored under `key`
/// and every other key holds what it held; the record that `key` held
/// before, if any, is returned. The map writes a record's length in 32 bits,
/// so longer records are left out.
#[verifier::external_body]
fn records_insert(records: &mut Records, key: u64, value: Vec<u8>) -> (r: Option<Vec<u8>>)
    requires
        value@.len() <= MAX_RECORD_BYTES,
    ensures
        stored_records(*final(records)) == stored_records(*old(records)).insert(key, value@),
        r is Some <==> stored_records(*old(records)).dom().contains(key),
        r matches Some(bytes) ==> bytes@ == stored_records(*old(records))[key],
{
    records.map.insert(key, value)
}

/// Calls `StableBTreeMap::remove`: afterwards nothing is stored under `key`
/// and every other key holds what it held; the record that `key` held
/// before, if any, is returned.
#[verifier::external_body]
fn records_remove(records: &mut Records, key: u64) -> (r: Option<Vec<u8>>)
    ensures
        stored_records(*final(records)) == stored_records(*old(records)).remove(key),
        r is Some <==> stored_records(*old(records)).dom().contains(key),
        r matches Some(bytes) ==> bytes@ == stored_records(*old(records))[key],
{
    records.map.remove(&key)
}

/// Calls `StableBTreeMap::iter` and collects what it yields: every entry of
/// the map once, sorted by key.
#[verifier::external_body]
fn records_entries(records: &Records) -> (entries: Vec<(u64, Vec<u8>)>)
    ensures
        lists_records(entries@, stored_records(*records)),
{
    records.map.iter().collect()
}

/// The number of the memory that holds the counter cell.
pub const COUNTER_MEMORY: u8 = 0;

/// The number of the memory that holds the map of records.
pub const RECORDS_MEMORY: u8 = 1;

/// Whether `bytes`, stored under `key`, is the record of an item with that
/// id, and the id is one that a counter at `next_id` has given out.
pub open spec fn record_valid(next_id: u64, key: u64, bytes: Seq<u8>) -> bool {
    decode_record(bytes) matches Some(item) && item.id == key && key < next_id
}

/// Whether every stored record is valid.
pub open spec fn records_valid(next_id: u64, stored: Map<u64, Seq<u8>>) -> bool {
    forall|key: u64| #[trigger]
        stored.dom().contains(key) ==> record_valid(next_id, key, stored[key])
}

/// Whether every listed entry is a valid record.
pub open spec fn entries_valid(next_id: u64, entries: Seq<(u64, Vec<u8>)>) -> bool {
    forall|i: int|
        0 <= i < entries.len() ==> record_valid(
            next_id,
            (#[trigger] entries[i]).0,
            entries[i].1@,
        )
}

/// The items that the stored records stand for.
pub open spec fn decoded(stored: Map<u64, Seq<u8>>) -> Map<u64, ItemView> {
    Map::new(|id: u64| stored.dom().contains(id), |id: u64| decode_record(stored[id])->0)
}

/// The store that a counter and a map of records hold.
pub open spec fn held(counter: Counter, records: Records) -> StoreView {
    StoreView { next_id: counter_value(counter), items: decoded(stored_records(records)) }
}

/// What a list of items stands for.
pub open spec fn views(items: Seq<Item>) -> Seq<ItemView> {
    items.map_values(|item: Item| item@)
}

/// Checks the entries of a map of records against the counter's value.
pub fn check_entries(next_id: u64, entries: &Vec<(u64, Vec<u8>)>) -> (ok: bool)
    ensures
        ok == entries_valid(next_id, entries@),
{
    let mut i: usize = 0;
    while i < entries.len()
        invariant
            i <= entries@.len(),
            forall|j: int|
                0 <= j < i ==> record_valid(next_id, (#[trigger] entries@[j]).0, entries@[j].1@),
        decreases entries@.len() - i,
    {
        let key = entries[i].0;
        match Item::from_bytes(entries[i].1.as_slice()) {
            Some(item) => {
                if item.id != key || key >= next_id {
                    assert(!record_valid(next_id, entries@[i as int].0, entries@[i as int].1@));
                    return false;
                }
            },
            None => {
                assert(!record_valid(next_id, entries@[i as int].0, entries@[i as int].1@));
                return false;
            },
        }
        i += 1;
    }
    true
}

/// The durable store of items: the id counter and the records, by id,
/// together with the memory that holds them.
pub struct Store {
    backing: Backing,
    counter: Counter,
    records: Records,
}

impl View for Store {
    type V = StoreView;

    closed spec fn view(&self) -> StoreView {
        held(self.counter, self.records)
    }
}

impl Backing {
    /// The memory of this process, with whatever it holds. On `wasm32` every
    /// call gives the same stable memory, which one store at a time may use:
    /// call it once.
    pub fn new() -> Backing {
        manager_init()
    }
}

impl Store {
    /// Every stored record is the record of an item, stored under that item's
    /// id, and the counter is beyond every stored id.
    pub closed spec fn wf(&self) -> bool {
        records_valid(counter_value(self.counter), stored_records(self.records))
    }

    /// A valid store has a valid view.
    pub proof fn lemma_view_wf(&self)
        requires
            self.wf(),
        ensures
            self@.wf(),
    {
        let stored = stored_records(self.records);
        assert forall|id: u64| #[trigger] self@.items.dom().contains(id) implies {
            &&& self@.items[id].id == id
            &&& id < self@.next_id
            &&& self@.items[id].owner.len() <= MAX_IDENTITY_BYTES
        } by {
            assert(stored.dom().contains(id));
            lemma_encode_decode(stored[id]);
        }
    }

    /// Opens the store that `backing` holds, or a new and empty one where it
    /// holds none, whose first id is 0. Every record is checked, so that a
    /// store that was opened is valid. What the memory holds decides whether
    /// the store opens; one that opens lives in `backing`.
    pub fn open(backing: Backing) -> (r: Result<Store, OpenError>)
        ensures
            r matches Ok(store) ==> store.wf() && store.memory() == backing,
    {
        Store::open_at(backing, 0)
    }

    /// As [`Store::open`], but a new store gives out `first_id` first.
    pub fn open_at(backing: Backing, first_id: u64) -> (r: Result<Store, OpenError>)
        ensures
            r matches Ok(store) ==> store.wf() && store.memory() == backing,
    {
        let counter = match counter_init(&backing, COUNTER_MEMORY, first_id) {
            Ok(counter) => counter,
            Err(_) => {
                return Err(OpenError::CounterUnavailable);
            },
        };
        let records = records_init(&backing, RECORDS_MEMORY);
        Store::assemble(backing, counter, records)
    }

    /// Makes a store of a counter and a map of records that live in
    /// `backing`: the store that holds what they hold, if every record is
    /// valid, and `InvalidRecords` if one is not.
    pub fn assemble(backing: Backing, counter: Counter, records: Records) -> (r: Result<
        Store,
        OpenError,
    >)
        ensures
            r is Ok <==> records_valid(counter_value(counter), stored_records(records)),
            r matches Ok(store) ==> store.wf() && store.memory() == backing && store@ == held(
                counter,
                records,
            ),
            r matches Err(e) ==> e == OpenError::InvalidRecords,
    {
        let entries = records_entries(&records);
        let next_id = counter_get(&counter);
        proof {
            let stored = stored_records(records);
            if entries_valid(next_id, entries@) {
                assert forall|key: u64| #[trigger] stored.dom().contains(key) implies record_valid(
                    next_id,
                    key,
                    stored[key],
                ) by {
                    let i = choose|i: int| 0 <= i < entries@.len() && entries@[i].0 == key;
                    assert(record_valid(next_id, entries@[i].0, entries@[i].1@));
                }
            }
            if records_valid(next_id, stored) {
                assert forall|i: int| 0 <= i < entries@.len() implies record_valid(
                    next_id,
                    (#[trigger] entries@[i]).0,
                    entries@[i].1@,
                ) by {
                    assert(stored.dom().contains(entries@[i].0));
                }
            }
        }
        if check_entries(next_id, &entries) {
            Ok(Store { backing, counter, records })
        } else {
            Err(OpenError::InvalidRecords)
        }
    }

    /// The memory that the store lives in.
    pub closed spec fn memory(&self) -> Backing {
        self.backing
    }

    /// Gives back the memory that the store lives in, to be opened again.
    pub fn close(self) -> (backing: Backing)
        ensures
            backing == self.memory(),
    {
        self.backing
    }

    /// The id that the next created item gets: as many ids have been given
    /// out, where the first was 0.
    pub fn peek_next_id(&self) -> (id: u64)
        ensures
            id == self@.next_id,
    {
        counter_get(&self.counter)
    }

    /// The item stored under `id`, if there is one.
    pub fn get(&self, id: u64) -> (r: Option<Item>)
        requires
            self.wf(),
        ensures
            r is Some <==> self@.items.dom().contains(id),
            r matches Some(item) ==> item@ == self@.items[id],
    {
        match records_get(&self.records, id) {
            Some(bytes) => Item::from_bytes(bytes.as_slice()),
            None => None,
        }
    }

    /// Stores `item` under its id, in place of what was stored there. The id
    /// must be one that the counter has given out.
    pub fn put(&mut self, item: &Item)
        requires
            old(self).wf(),
            item.id < old(self)@.next_id,
            texts_fit(item.name@, item.description@),
        ensures
            final(self).wf(),
            final(self).memory() == old(self).memory(),
            final(self)@ == old(self)@.put(item@),
    {
        let bytes = item.to_bytes();
        proof {
            lemma_record_len(item@);
        }
        records_insert(&mut self.records, item.id, bytes);
        assert(self@.items =~= old(self)@.items.insert(item.id, item@));
    }

    /// Removes the item stored under `id` and returns it, if there is one.
    pub fn remove(&mut self, id: u64) -> (r: Option<Item>)
        requires
            old(self).wf(),
        ensures
            final(self).wf(),
            final(self).memory() == old(self).memory(),
            final(self)@ == old(self)@.remove(id),
            r is Some <==> old(self)@.items.dom().contains(id),
            r matches Some(item) ==> item@ == old(self)@.items[id],
    {
        let removed = records_remove(&mut self.records, id);
        assert(self@.items =~= old(self)@.items.remove(id));
        match removed {
            Some(bytes) => Item::from_bytes(bytes.as_slice()),
            None => None,
        }
    }

    /// Every stored item, in ascending order of id.
    pub fn iterate(&self) -> (items: Vec<Item>)
        requires
            self.wf(),
        ensures
            views(items@) == self@.list_all(),
    {
        let entries = records_entries(&self.records);
        let ghost stored = stored_records(self.records);
        let mut items: Vec<Item> = Vec::new();
        let mut i: usize = 0;
        while i < entries.len()
            invariant
                i <= entries@.len(),
                items@.len() == i,
                lists_records(entries@, stored),
                records_valid(counter_value(self.counter), stored),
                forall|j: int|
                    0 <= j < i ==> (#[trigger] items@[j])@ == decode_record(entries@[j].1@)->0,
            decreases entries@.len() - i,
        {
            assert(stored.dom().contains(entries@[i as int].0));
            match Item::from_bytes(entries[i].1.as_slice()) {
                Some(item) => {
                    items.push(item);
                },
                None => {},
            }
            i += 1;
        }
        proof {
            let ids = entries@.map_values(|entry: (u64, Vec<u8>)| entry.0);
            let by_id = self@.items;
            assert(ascending(ids));
            assert forall|id: u64| id < id_limit() implies (by_id.dom().contains(id)
                <==> ids.contains(id)) by {
                if by_id.dom().contains(id) {
                    assert(stored.dom().contains(id));
                    let j = choose|j: int| 0 <= j < entries@.len() && entries@[j].0 == id;
                    assert(ids[j] == id);
                }
                if ids.contains(id) {
                    let j = choose|j: int| 0 <= j < ids.len() && ids[j] == id;
                    assert(stored.dom().contains(entries@[j].0));
                }
            }
            lemma_items_below_by_ids(by_id, ids, id_limit());
            assert forall|j: int| 0 <= j < items@.len() implies views(items@)[j] == by_id[ids[j]] by {
                assert(stored.dom().contains(entries@[j].0));
                assert(items@[j]@ == decode_record(entries@[j].1@)->0);
            }
            assert(views(items@) =~= ids.map_values(|id: u64| by_id[id]));
        }
        items
    }
}

/// What is given out once the cell has answered the new value: `id` where
/// it took the value, and no id where it refused.
pub fn given_out(id: u64, answer: Result<u64, ValueError>) -> (r: Option<u64>)
    ensures
        r == (if answer is Ok {
            Some(id)
        } else {
            None
        }),
{
    match answer {
        Ok(_) => Some(id),
        Err(_) => None,
    }
}

/// Gives out the next id and advances the counter by one. Where the counter
/// has reached the greatest id, no id is left: none is given out and the
/// store stays as it is.
pub fn next_id(store: &mut Store) -> (r: Option<u64>)
    requires
        old(store).wf(),
    ensures
        final(store).wf(),
        final(store).memory() == old(store).memory(),
        old(store)@.can_allocate() ==> r == Some(old(store)@.next_id) && final(store)@ == old(
            store,
        )@.allocate(),
        !old(store)@.can_allocate() ==> r is None && final(store)@ == old(store)@,
{
    let id = counter_get(&store.counter);
    if id == u64::MAX {
        return None;
    }
    given_out(id, counter_set(&mut store.counter, id + 1))
}

} // verus!
