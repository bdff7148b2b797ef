use ic_stable_structures::cell::ValueError;
use item_store::store::{check_entries, given_out};
use item_store::{
    create_item, get_all_items, get_item, next_id, Backing, CreateItemRequest, Identity, Item,
    ItemError, OpenError, Store,
};

fn item(id: u64, owner: u8, name: &str) -> Item {
    Item {
        id,
        owner: Identity::new(vec![owner]).unwrap(),
        name: name.to_string(),
        description: format!("about {name}"),
        created_at: 10 + id,
        updated_at: 20 + id,
    }
}

#[test]
fn new_store_is_empty_and_starts_at_zero() {
    let store = Store::open(Backing::new()).unwrap();
    assert_eq!(store.peek_next_id(), 0);
    assert!(store.iterate().is_empty());
    assert_eq!(store.get(0), None);
}

#[test]
fn next_id_counts_from_zero() {
    let mut store = Store::open(Backing::new()).unwrap();
    assert_eq!(next_id(&mut store), Some(0));
    assert_eq!(next_id(&mut store), Some(1));
    assert_eq!(next_id(&mut store), Some(2));
    assert_eq!(store.peek_next_id(), 3);
    assert!(store.iterate().is_empty());
}

#[test]
fn given_out_follows_the_answer_of_the_cell() {
    assert_eq!(given_out(7, Ok(6)), Some(7));
    assert_eq!(given_out(0, Ok(u64::MAX)), Some(0));
    assert_eq!(given_out(7, Err(ValueError::ValueTooLarge { value_size: 8 })), None);
}

#[test]
fn next_id_stops_at_the_greatest_id() {
    let mut store = Store::open_at(Backing::new(), u64::MAX - 1).unwrap();
    assert_eq!(next_id(&mut store), Some(u64::MAX - 1));
    assert_eq!(store.peek_next_id(), u64::MAX);
    assert_eq!(next_id(&mut store), None);
    assert_eq!(next_id(&mut store), None);
    assert_eq!(store.peek_next_id(), u64::MAX);
}

#[test]
fn put_then_get_returns_the_item() {
    let mut store = Store::open_at(Backing::new(), 10).unwrap();
    store.put(&item(4, 1, "four"));
    assert_eq!(store.get(4), Some(item(4, 1, "four")));
    assert_eq!(store.get(5), None);
    assert_eq!(store.peek_next_id(), 10);
}

#[test]
fn put_overwrites_the_item_of_the_same_id() {
    let mut store = Store::open_at(Backing::new(), 10).unwrap();
    store.put(&item(4, 1, "four"));
    store.put(&item(4, 2, "vier"));
    assert_eq!(store.get(4), Some(item(4, 2, "vier")));
    assert_eq!(store.iterate(), vec![item(4, 2, "vier")]);
}

#[test]
fn remove_returns_what_was_stored() {
    let mut store = Store::open_at(Backing::new(), 10).unwrap();
    store.put(&item(4, 1, "four"));
    store.put(&item(6, 1, "six"));
    assert_eq!(store.remove(4), Some(item(4, 1, "four")));
    assert_eq!(store.remove(4), None);
    assert_eq!(store.remove(5), None);
    assert_eq!(store.get(4), None);
    assert_eq!(store.iterate(), vec![item(6, 1, "six")]);
}

#[test]
fn iterate_is_in_ascending_order_of_id() {
    let mut store = Store::open_at(Backing::new(), 1000).unwrap();
    for id in [7u64, 300, 2, 999, 0, 256, 255] {
        store.put(&item(id, 1, "n"));
    }
    let ids: Vec<u64> = store.iterate().iter().map(|item| item.id).collect();
    assert_eq!(ids, vec![0, 2, 7, 255, 256, 300, 999]);
}

#[test]
fn iterate_can_be_repeated() {
    let mut store = Store::open_at(Backing::new(), 3).unwrap();
    store.put(&item(1, 1, "one"));
    store.put(&item(2, 1, "two"));
    assert_eq!(store.iterate(), store.iterate());
    assert_eq!(store.iterate().len(), 2);
}

#[test]
fn store_holds_many_items() {
    let mut store = Store::open(Backing::new()).unwrap();
    let owner = Identity::new(vec![1]).unwrap();
    for n in 0..500u64 {
        let created = create_item(
            &mut store,
            &owner,
            n,
            CreateItemRequest { name: format!("item {n}"), description: "d".repeat(n as usize) },
        )
        .unwrap();
        assert_eq!(created.id, n);
    }
    let all = get_all_items(&store);
    assert_eq!(all.len(), 500);
    for (n, found) in all.iter().enumerate() {
        assert_eq!(found.id, n as u64);
        assert_eq!(found.description.len(), n);
    }
    assert_eq!(get_item(&store, 499).unwrap().name, "item 499");
}

#[test]
fn reopened_store_keeps_items_and_counter() {
    let owner = Identity::new(vec![5, 6]).unwrap();
    let mut store = Store::open(Backing::new()).unwrap();
    next_id(&mut store).unwrap();
    let created = create_item(
        &mut store,
        &owner,
        77,
        CreateItemRequest { name: "kept".to_string(), description: "über".to_string() },
    )
    .unwrap();
    assert_eq!(created.id, 1);
    let mut store = Store::open(store.close()).unwrap();
    assert_eq!(store.peek_next_id(), 2);
    assert_eq!(store.iterate(), vec![created.clone()]);
    assert_eq!(get_item(&store, 1), Ok(created));
    assert_eq!(next_id(&mut store), Some(2));
}

#[test]
fn reopening_does_not_reset_the_first_id() {
    let mut store = Store::open_at(Backing::new(), 40).unwrap();
    assert_eq!(next_id(&mut store), Some(40));
    let store = Store::open_at(store.close(), 0).unwrap();
    assert_eq!(store.peek_next_id(), 41);
}

#[test]
fn deletions_survive_reopening() {
    let owner = Identity::new(vec![1]).unwrap();
    let mut store = Store::open(Backing::new()).unwrap();
    for n in 0..3u64 {
        create_item(
            &mut store,
            &owner,
            n,
            CreateItemRequest { name: format!("{n}"), description: String::new() },
        )
        .unwrap();
    }
    assert_eq!(store.remove(1).map(|item| item.name), Some("1".to_string()));
    let store = Store::open(store.close()).unwrap();
    let ids: Vec<u64> = store.iterate().iter().map(|item| item.id).collect();
    assert_eq!(ids, vec![0, 2]);
    assert_eq!(store.peek_next_id(), 3);
}

#[test]
fn two_backings_are_two_stores() {
    let mut first = Store::open(Backing::new()).unwrap();
    let second = Store::open(Backing::new()).unwrap();
    let owner = Identity::new(vec![1]).unwrap();
    create_item(
        &mut first,
        &owner,
        1,
        CreateItemRequest { name: "n".to_string(), description: "d".to_string() },
    )
    .unwrap();
    assert_eq!(first.iterate().len(), 1);
    assert!(second.iterate().is_empty());
}

#[test]
fn open_rejects_a_record_beyond_the_counter() {
    let mut store = Store::open_at(Backing::new(), 3).unwrap();
    store.put(&item(2, 1, "last"));
    let mut store = Store::open(store.close()).expect("every id was given out");
    // What another writer might leave behind: an id that was never given out.
    store.put(&item(3, 1, "stray"));
    assert_eq!(Store::open(store.close()).err(), Some(OpenError::InvalidRecords));
}

#[test]
fn check_entries_accepts_valid_records() {
    let entries = vec![
        (0u64, item(0, 1, "a").to_bytes()),
        (3u64, item(3, 2, "b").to_bytes()),
    ];
    assert!(check_entries(4, &entries));
    assert!(check_entries(u64::MAX, &entries));
    assert!(check_entries(0, &Vec::new()));
}

#[test]
fn check_entries_rejects_an_id_not_yet_given_out() {
    let entries = vec![
        (0u64, item(0, 1, "a").to_bytes()),
        (3u64, item(3, 2, "b").to_bytes()),
    ];
    assert!(!check_entries(3, &entries));
    assert!(!check_entries(0, &entries));
}

#[test]
fn check_entries_rejects_a_record_under_another_id() {
    let entries = vec![(1u64, item(0, 1, "a").to_bytes())];
    assert!(!check_entries(10, &entries));
}

#[test]
fn check_entries_rejects_bytes_that_are_no_record() {
    assert!(!check_entries(10, &vec![(0u64, Vec::new())]));
    assert!(!check_entries(10, &vec![(0u64, b"{\"id\":0}".to_vec())]));
    let mut cut = item(0, 1, "a").to_bytes();
    cut.truncate(30);
    assert!(!check_entries(10, &vec![(1u64, item(1, 1, "ok").to_bytes()), (0u64, cut)]));
}

#[test]
fn creation_fails_when_no_id_is_left() {
    let mut store = Store::open_at(Backing::new(), u64::MAX).unwrap();
    let owner = Identity::new(vec![1]).unwrap();
    let r = create_item(
        &mut store,
        &owner,
        5,
        CreateItemRequest { name: "n".to_string(), description: "d".to_string() },
    );
    assert_eq!(r, Err(ItemError::StorageFailure));
    assert!(store.iterate().is_empty());
    assert_eq!(store.peek_next_id(), u64::MAX);
}

#[test]
fn the_last_id_can_still_be_given_out() {
    let mut store = Store::open_at(Backing::new(), u64::MAX - 1).unwrap();
    let owner = Identity::new(vec![1]).unwrap();
    let request = || CreateItemRequest { name: "n".to_string(), description: "d".to_string() };
    let last = create_item(&mut store, &owner, 5, request()).unwrap();
    assert_eq!(last.id, u64::MAX - 1);
    assert_eq!(create_item(&mut store, &owner, 6, request()), Err(ItemError::StorageFailure));
    assert_eq!(get_all_items(&store), vec![last]);
}
