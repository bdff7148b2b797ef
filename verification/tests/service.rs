use item_store::{
    create_item, create_with, delete_item, get_all_items, get_item, get_my_items, next_id,
    owned_item, update_item, Action, Backing, CreateItemRequest, Identity, Item, ItemError, Store,
    UpdateItemRequest,
};

fn store() -> Store {
    Store::open(Backing::new()).unwrap()
}

fn who(n: u8) -> Identity {
    Identity::new(vec![n, n, n]).unwrap()
}

fn create(store: &mut Store, caller: &Identity, now: u64, name: &str) -> Item {
    create_item(
        store,
        caller,
        now,
        CreateItemRequest { name: name.to_string(), description: format!("{name}!") },
    )
    .unwrap()
}

fn change(id: u64, name: &str, description: &str) -> UpdateItemRequest {
    UpdateItemRequest { id, name: name.to_string(), description: description.to_string() }
}

#[test]
fn created_ids_increase_across_deletions() {
    let mut s = store();
    let a = who(1);
    let mut ids = Vec::new();
    ids.push(create(&mut s, &a, 1, "a").id);
    ids.push(create(&mut s, &a, 2, "b").id);
    delete_item(&mut s, &a, 1).unwrap();
    ids.push(create(&mut s, &a, 3, "c").id);
    delete_item(&mut s, &a, 0).unwrap();
    delete_item(&mut s, &a, 2).unwrap();
    assert!(get_all_items(&s).is_empty());
    ids.push(create(&mut s, &who(2), 4, "d").id);
    ids.push(create(&mut s, &a, 5, "e").id);
    assert_eq!(ids, vec![0, 1, 2, 3, 4]);
}

#[test]
fn failed_changes_give_out_no_id() {
    let mut s = store();
    let a = who(1);
    assert_eq!(create(&mut s, &a, 1, "a").id, 0);
    assert!(update_item(&mut s, &who(2), 2, change(0, "x", "y")).is_err());
    assert!(delete_item(&mut s, &who(2), 0).is_err());
    assert!(delete_item(&mut s, &a, 9).is_err());
    assert!(get_item(&s, 9).is_err());
    assert_eq!(create(&mut s, &a, 3, "b").id, 1);
}

#[test]
fn created_item_is_what_get_returns() {
    let mut s = store();
    let a = who(1);
    let created = create(&mut s, &a, 1234, "first");
    assert_eq!(
        created,
        Item {
            id: 0,
            owner: a.clone(),
            name: "first".to_string(),
            description: "first!".to_string(),
            created_at: 1234,
            updated_at: 1234,
        }
    );
    let found = get_item(&s, created.id).unwrap();
    assert_eq!(found, created);
    assert_eq!(found.created_at, found.updated_at);
    assert_eq!(found.owner, a);
    assert_eq!(get_item(&s, created.id).unwrap(), created);
}

#[test]
fn anyone_reads_any_item() {
    let mut s = store();
    let created = create(&mut s, &who(1), 5, "mine");
    assert_eq!(get_item(&s, 0), Ok(created.clone()));
    assert_eq!(get_my_items(&s, &who(2)), Vec::<Item>::new());
    assert_eq!(get_all_items(&s), vec![created]);
}

#[test]
fn get_of_a_missing_id_is_not_found() {
    let mut s = store();
    assert_eq!(get_item(&s, 0), Err(ItemError::NotFound { id: 0 }));
    create(&mut s, &who(1), 5, "a");
    assert_eq!(get_item(&s, 1), Err(ItemError::NotFound { id: 1 }));
    assert_eq!(get_item(&s, u64::MAX), Err(ItemError::NotFound { id: u64::MAX }));
}

#[test]
fn update_by_another_caller_is_forbidden() {
    let mut s = store();
    let created = create(&mut s, &who(1), 5, "a");
    assert_eq!(
        update_item(&mut s, &who(2), 6, change(0, "x", "y")),
        Err(ItemError::Forbidden { id: 0, action: Action::Update })
    );
    assert_eq!(get_item(&s, 0), Ok(created));
}

#[test]
fn update_of_a_missing_id_is_not_found_for_everyone() {
    let mut s = store();
    create(&mut s, &who(1), 5, "a");
    assert_eq!(
        update_item(&mut s, &who(2), 6, change(7, "x", "y")),
        Err(ItemError::NotFound { id: 7 })
    );
    assert_eq!(
        update_item(&mut s, &who(1), 6, change(7, "x", "y")),
        Err(ItemError::NotFound { id: 7 })
    );
    assert_eq!(get_all_items(&s).len(), 1);
}

#[test]
fn update_by_the_owner_replaces_both_texts() {
    let mut s = store();
    let a = who(1);
    let created = create(&mut s, &a, 50, "a");
    let updated = update_item(&mut s, &a, 60, change(0, "new name", "")).unwrap();
    assert_eq!(
        updated,
        Item {
            id: created.id,
            owner: created.owner.clone(),
            name: "new name".to_string(),
            description: String::new(),
            created_at: 50,
            updated_at: 60,
        }
    );
    assert!(updated.updated_at >= created.updated_at);
    assert_eq!(get_item(&s, 0), Ok(updated.clone()));
    let again = update_item(&mut s, &a, 60, change(0, "new name", "")).unwrap();
    assert_eq!(again, updated);
}

#[test]
fn update_leaves_other_items_alone() {
    let mut s = store();
    let a = who(1);
    let first = create(&mut s, &a, 1, "a");
    let second = create(&mut s, &a, 2, "b");
    let third = create(&mut s, &who(2), 3, "c");
    let updated = update_item(&mut s, &a, 9, change(1, "B", "bb")).unwrap();
    assert_eq!(get_all_items(&s), vec![first, updated.clone(), third]);
    assert_ne!(updated, second);
    assert_eq!(updated.id, 1);
}

#[test]
fn failed_update_does_not_touch_the_update_time() {
    let mut s = store();
    let created = create(&mut s, &who(1), 50, "a");
    assert!(update_item(&mut s, &who(2), 99, change(0, "x", "y")).is_err());
    assert_eq!(get_item(&s, 0).unwrap().updated_at, 50);
    get_all_items(&s);
    get_my_items(&s, &who(1));
    assert_eq!(get_item(&s, 0), Ok(created));
}

#[test]
fn delete_by_the_owner_removes_the_item() {
    let mut s = store();
    let a = who(1);
    create(&mut s, &a, 1, "a");
    let kept = create(&mut s, &a, 2, "b");
    assert_eq!(delete_item(&mut s, &a, 0), Ok("Item 0 deleted successfully".to_string()));
    assert_eq!(get_item(&s, 0), Err(ItemError::NotFound { id: 0 }));
    assert_eq!(get_all_items(&s), vec![kept.clone()]);
    assert_eq!(get_my_items(&s, &a), vec![kept]);
    assert_eq!(delete_item(&mut s, &a, 0), Err(ItemError::NotFound { id: 0 }));
}

#[test]
fn delete_by_another_caller_is_forbidden() {
    let mut s = store();
    let created = create(&mut s, &who(1), 1, "a");
    assert_eq!(
        delete_item(&mut s, &who(2), 0),
        Err(ItemError::Forbidden { id: 0, action: Action::Delete })
    );
    assert_eq!(get_all_items(&s), vec![created]);
}

#[test]
fn delete_of_a_missing_id_is_not_found_for_everyone() {
    let mut s = store();
    create(&mut s, &who(1), 1, "a");
    assert_eq!(delete_item(&mut s, &who(2), 12), Err(ItemError::NotFound { id: 12 }));
    assert_eq!(delete_item(&mut s, &who(1), 12), Err(ItemError::NotFound { id: 12 }));
}

#[test]
fn deleted_id_is_not_given_out_again() {
    let mut s = store();
    let a = who(1);
    create(&mut s, &a, 1, "a");
    delete_item(&mut s, &a, 0).unwrap();
    let next = create(&mut s, &a, 2, "b");
    assert_eq!(next.id, 1);
    assert_eq!(get_item(&s, 0), Err(ItemError::NotFound { id: 0 }));
}

#[test]
fn my_items_are_those_of_all_that_i_own() {
    let mut s = store();
    let a = who(1);
    let b = who(2);
    let c = who(3);
    for (n, caller) in [&a, &b, &a, &c, &b, &a, &a].into_iter().enumerate() {
        create(&mut s, caller, n as u64, &format!("item {n}"));
    }
    delete_item(&mut s, &a, 2).unwrap();
    let all = get_all_items(&s);
    assert_eq!(all.len(), 6);
    for caller in [&a, &b, &c, &who(4)] {
        let expected: Vec<Item> =
            all.iter().filter(|item| item.owner == *caller).cloned().collect();
        assert_eq!(get_my_items(&s, caller), expected);
    }
    let ids = |items: Vec<Item>| items.iter().map(|item| item.id).collect::<Vec<u64>>();
    assert_eq!(ids(get_my_items(&s, &a)), vec![0, 5, 6]);
    assert_eq!(ids(get_my_items(&s, &b)), vec![1, 4]);
    assert_eq!(ids(get_my_items(&s, &c)), vec![3]);
    assert_eq!(ids(get_my_items(&s, &who(4))), Vec::<u64>::new());
}

#[test]
fn identities_that_share_a_prefix_are_different_owners() {
    let mut s = store();
    let short = Identity::new(vec![1, 2]).unwrap();
    let long = Identity::new(vec![1, 2, 0]).unwrap();
    create(&mut s, &short, 1, "a");
    assert_eq!(
        update_item(&mut s, &long, 2, change(0, "x", "y")),
        Err(ItemError::Forbidden { id: 0, action: Action::Update })
    );
    assert!(get_my_items(&s, &long).is_empty());
    assert_eq!(get_my_items(&s, &short).len(), 1);
}

#[test]
fn all_items_come_in_order_of_id() {
    let mut s = store();
    for n in 0..20u64 {
        create(&mut s, &who((n % 3) as u8), n, "n");
    }
    for id in [3u64, 11, 0, 19] {
        delete_item(&mut s, &who((id % 3) as u8), id).unwrap();
    }
    let ids: Vec<u64> = get_all_items(&s).iter().map(|item| item.id).collect();
    let expected: Vec<u64> = (0..20).filter(|id| ![3, 11, 0, 19].contains(id)).collect();
    assert_eq!(ids, expected);
}

#[test]
fn texts_with_any_characters_are_kept() {
    let mut s = store();
    let a = who(1);
    let name = "tab\there \"quoted\" \\ \u{0} \u{1F980}";
    let description = "line one\nline two\r\n— ß 漢字";
    let created = create_item(
        &mut s,
        &a,
        1,
        CreateItemRequest { name: name.to_string(), description: description.to_string() },
    )
    .unwrap();
    let found = get_item(&s, created.id).unwrap();
    assert_eq!(found.name, name);
    assert_eq!(found.description, description);
}

#[test]
fn owned_item_settles_existence_before_ownership() {
    let mut s = store();
    let created = create(&mut s, &who(1), 5, "a");
    for action in [Action::Update, Action::Delete] {
        assert_eq!(owned_item(&s, &who(1), 0, action), Ok(created.clone()));
        assert_eq!(
            owned_item(&s, &who(2), 0, action),
            Err(ItemError::Forbidden { id: 0, action })
        );
        assert_eq!(owned_item(&s, &who(1), 1, action), Err(ItemError::NotFound { id: 1 }));
        assert_eq!(owned_item(&s, &who(2), 1, action), Err(ItemError::NotFound { id: 1 }));
    }
    assert_eq!(get_all_items(&s), vec![created]);
}

#[test]
fn create_with_stores_the_item_under_the_given_id() {
    let mut s = store();
    let a = who(1);
    let given = next_id(&mut s);
    assert_eq!(given, Some(0));
    let request = CreateItemRequest { name: "n".to_string(), description: "d".to_string() };
    let created = create_with(&mut s, given, &a, 9, request).unwrap();
    assert_eq!(
        created,
        Item {
            id: 0,
            owner: a.clone(),
            name: "n".to_string(),
            description: "d".to_string(),
            created_at: 9,
            updated_at: 9,
        }
    );
    assert_eq!(get_all_items(&s), vec![created]);
    assert_eq!(s.peek_next_id(), 1);
}

#[test]
fn create_with_no_id_stores_nothing() {
    let mut s = store();
    let request = CreateItemRequest { name: "n".to_string(), description: "d".to_string() };
    assert_eq!(create_with(&mut s, None, &who(1), 9, request), Err(ItemError::StorageFailure));
    assert!(get_all_items(&s).is_empty());
    assert_eq!(s.peek_next_id(), 0);
}

#[test]
fn creation_succeeds_while_an_id_is_left() {
    let mut s = Store::open_at(Backing::new(), u64::MAX - 3).unwrap();
    let a = who(1);
    for expected in [u64::MAX - 3, u64::MAX - 2, u64::MAX - 1] {
        assert_eq!(create(&mut s, &a, 1, "n").id, expected);
    }
    let request = CreateItemRequest { name: "n".to_string(), description: "d".to_string() };
    assert_eq!(create_item(&mut s, &a, 1, request), Err(ItemError::StorageFailure));
    assert_eq!(get_all_items(&s).len(), 3);
}
