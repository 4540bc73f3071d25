use todolist_api::todolist::{CreateEntryData, TodoStore, TodolistEntry, UpdateEntryData};

fn ids(v: &[TodolistEntry]) -> Vec<u32> {
    v.iter().map(|e| e.id).collect()
}

#[test]
fn first_insert_into_empty_store_gets_id_one() {
    let mut store = TodoStore::new();
    let r = store.insert("Buy milk".to_string(), 1000).unwrap();
    assert_eq!(r.len(), 1);
    assert_eq!(r[0].id, 1);
    assert_eq!(r[0].date, 1000);
    assert_eq!(r[0].title, "Buy milk");
}

#[test]
fn ids_follow_the_largest_after_delete() {
    let mut store = TodoStore::new();
    store.insert("Buy milk".to_string(), 1000).unwrap();
    let r = store.insert("Buy bread".to_string(), 2000).unwrap();
    assert_eq!(ids(&r), vec![1, 2]);
    let r = store.delete(1);
    assert_eq!(ids(&r), vec![2]);
    let r = store.insert("Buy eggs".to_string(), 3000).unwrap();
    assert_eq!(ids(&r), vec![2, 3]);
    assert_eq!(r[1].title, "Buy eggs");
}

#[test]
fn update_of_missing_id_changes_nothing() {
    let mut store = TodoStore::new();
    store.insert("a".to_string(), 1).unwrap();
    store.insert("b".to_string(), 2).unwrap();
    let before = store.list();
    let after = store.update(7, "c".to_string());
    assert_eq!(ids(&before), ids(&after));
    assert_eq!(after[0].title, "a");
    assert_eq!(after[1].title, "b");
    assert_eq!(store.list()[1].title, "b");
}

#[test]
fn update_renames_matching_entry_only() {
    let mut store = TodoStore::new();
    store.insert("a".to_string(), 1).unwrap();
    store.insert("b".to_string(), 2).unwrap();
    let data = UpdateEntryData { title: "renamed".to_string() };
    let r = store.update(2, data.title.clone());
    assert_eq!(r[0].title, "a");
    assert_eq!(r[1].title, "renamed");
    assert_eq!(r[1].date, 2);
    assert_eq!(r[1].id, 2);
}

#[test]
fn delete_every_entry_leaves_empty_list() {
    let mut store = TodoStore::new();
    for k in 0..5u64 {
        let data = CreateEntryData { title: format!("t{}", k), date: k };
        store.insert(data.title.clone(), data.date).unwrap();
    }
    for e in store.list() {
        store.delete(e.id);
    }
    assert!(store.list().is_empty());
}

#[test]
fn delete_of_missing_id_keeps_entries() {
    let mut store = TodoStore::new();
    store.insert("a".to_string(), 1).unwrap();
    let r = store.delete(9);
    assert_eq!(ids(&r), vec![1]);
}

#[test]
fn largest_id_of_empty_store_is_zero() {
    let store = TodoStore::new();
    assert_eq!(store.max_entry_id(), 0);
    assert!(store.list().is_empty());
}

#[test]
fn serialized_inserts_get_distinct_ids() {
    let store = std::sync::Mutex::new(TodoStore::new());
    for k in 0..8u64 {
        store.lock().unwrap().insert(format!("job {}", k), k).unwrap();
    }
    let list = store.lock().unwrap().list();
    assert_eq!(ids(&list), (1..=8).collect::<Vec<u32>>());
    for (k, e) in list.iter().enumerate() {
        assert_eq!(e.title, format!("job {}", k));
        assert_eq!(e.date, k as u64);
    }
}

#[test]
fn duplicate_copies_all_fields() {
    let e = TodolistEntry { id: 4, date: 99, title: "x".to_string() };
    let d = e.duplicate();
    assert_eq!((d.id, d.date, d.title), (4, 99, "x".to_string()));
}
