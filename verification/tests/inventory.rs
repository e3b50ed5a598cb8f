use inventory_backend::error::StoreError;
use inventory_backend::inventory::{InventoryItem, ResourceStore};
use inventory_backend::payload::{Payload, Value};

fn bolt() -> Payload {
    Payload::new().with("name", Value::Text("bolt".to_string())).with("qty", Value::Number(10))
}

fn failure<T>(outcome: Result<T, StoreError>) -> Option<StoreError> {
    outcome.err()
}

#[test]
fn create_assigns_id_owner_and_version_one() {
    let mut store = ResourceStore::new();
    let item = store.create(7, bolt(), 1_000).unwrap();
    assert_eq!(item.id, 1);
    assert_eq!(item.owner_id, 7);
    assert_eq!(item.version, 1);
    assert_eq!(item.updated_at, 1_000);
    assert_eq!(item.payload.get("name"), Some(&Value::Text("bolt".to_string())));
    assert_eq!(item.payload.get("qty"), Some(&Value::Number(10)));
    let stored = store.read(7, 1).unwrap();
    assert_eq!(stored.id, 1);
    assert_eq!(stored.version, 1);
    assert_eq!(stored.payload.get("qty"), Some(&Value::Number(10)));
}

#[test]
fn create_twice_gives_two_items() {
    let mut store = ResourceStore::new();
    let a = store.create(7, bolt(), 5).unwrap();
    let b = store.create(7, bolt(), 5).unwrap();
    assert_ne!(a.id, b.id);
    assert_eq!((a.id, b.id), (1, 2));
    assert_eq!(a.version, 1);
    assert_eq!(b.version, 1);
    assert_eq!(store.read(7, a.id).unwrap().id, a.id);
    assert_eq!(store.read(7, b.id).unwrap().id, b.id);
}

#[test]
fn read_of_a_missing_item_is_not_found() {
    let store = ResourceStore::new();
    assert_eq!(failure(store.read(7, 1)), Some(StoreError::NotFound));
    assert_eq!(failure(store.read(7, 0)), Some(StoreError::NotFound));
}

#[test]
fn another_owner_sees_not_found() {
    let mut store = ResourceStore::new();
    let item = store.create(7, bolt(), 5).unwrap();
    let patch = Payload::new().with("qty", Value::Number(0));
    assert_eq!(failure(store.read(8, item.id)), Some(StoreError::NotFound));
    assert_eq!(failure(store.update(8, item.id, &patch, None, 6)), Some(StoreError::NotFound));
    assert_eq!(failure(store.update(8, item.id, &patch, Some(1), 6)), Some(StoreError::NotFound));
    assert_eq!(failure(store.update(8, item.id, &patch, Some(9), 6)), Some(StoreError::NotFound));
    assert_eq!(failure(store.delete(8, item.id)), Some(StoreError::NotFound));
    assert_eq!(failure(store.read(8, 99)), Some(StoreError::NotFound));
    let kept = store.read(7, item.id).unwrap();
    assert_eq!(kept.version, 1);
    assert_eq!(kept.updated_at, 5);
    assert_eq!(kept.payload.get("qty"), Some(&Value::Number(10)));
}

#[test]
fn update_lays_the_patch_over_and_advances_the_version() {
    let mut store = ResourceStore::new();
    let item = store.create(7, bolt(), 5).unwrap();
    let patch = Payload::new().with("qty", Value::Number(12));
    let updated = store.update(7, item.id, &patch, Some(1), 9).unwrap();
    assert_eq!(updated.id, item.id);
    assert_eq!(updated.owner_id, 7);
    assert_eq!(updated.version, 2);
    assert_eq!(updated.updated_at, 9);
    assert_eq!(updated.payload.get("qty"), Some(&Value::Number(12)));
    assert_eq!(updated.payload.get("name"), Some(&Value::Text("bolt".to_string())));
    let stored = store.read(7, item.id).unwrap();
    assert_eq!(stored.version, 2);
    assert_eq!(stored.payload.get("qty"), Some(&Value::Number(12)));
}

#[test]
fn update_without_expected_version_always_applies() {
    let mut store = ResourceStore::new();
    let item = store.create(7, bolt(), 5).unwrap();
    let patch = Payload::new().with("qty", Value::Number(1));
    assert_eq!(store.update(7, item.id, &patch, None, 6).unwrap().version, 2);
    assert_eq!(store.update(7, item.id, &patch, None, 7).unwrap().version, 3);
    assert_eq!(store.update(7, item.id, &Payload::new(), None, 8).unwrap().version, 4);
    assert_eq!(store.read(7, item.id).unwrap().updated_at, 8);
}

#[test]
fn stale_expected_version_is_a_conflict_and_changes_nothing() {
    let mut store = ResourceStore::new();
    let item = store.create(7, bolt(), 5).unwrap();
    let patch = Payload::new().with("qty", Value::Number(12));
    assert_eq!(failure(store.update(7, item.id, &patch, Some(2), 6)), Some(StoreError::VersionConflict));
    assert_eq!(failure(store.update(7, item.id, &patch, Some(0), 6)), Some(StoreError::VersionConflict));
    let stored = store.read(7, item.id).unwrap();
    assert_eq!(stored.version, 1);
    assert_eq!(stored.updated_at, 5);
    assert_eq!(stored.payload.get("qty"), Some(&Value::Number(10)));
}

#[test]
fn of_two_updates_on_one_version_one_wins() {
    let mut store = ResourceStore::new();
    let item = store.create(7, bolt(), 5).unwrap();
    let first = Payload::new().with("qty", Value::Number(11));
    let second = Payload::new().with("qty", Value::Number(12));
    let a = store.update(7, item.id, &first, Some(1), 6);
    let b = store.update(7, item.id, &second, Some(1), 6);
    assert_eq!(a.unwrap().version, 2);
    assert_eq!(failure(b), Some(StoreError::VersionConflict));
    let stored = store.read(7, item.id).unwrap();
    assert_eq!(stored.version, 2);
    assert_eq!(stored.payload.get("qty"), Some(&Value::Number(11)));
}

#[test]
fn update_of_a_missing_item_is_not_found() {
    let mut store = ResourceStore::new();
    let patch = Payload::new().with("qty", Value::Number(12));
    assert_eq!(failure(store.update(7, 1, &patch, None, 6)), Some(StoreError::NotFound));
    assert_eq!(failure(store.update(7, 1, &patch, Some(1), 6)), Some(StoreError::NotFound));
}

#[test]
fn delete_removes_and_a_second_delete_is_not_found() {
    let mut store = ResourceStore::new();
    let item = store.create(7, bolt(), 5).unwrap();
    assert_eq!(store.delete(7, item.id), Ok(()));
    assert_eq!(failure(store.read(7, item.id)), Some(StoreError::NotFound));
    assert_eq!(store.delete(7, item.id), Err(StoreError::NotFound));
    let patch = Payload::new();
    assert_eq!(failure(store.update(7, item.id, &patch, None, 6)), Some(StoreError::NotFound));
}

#[test]
fn ids_are_not_reused_after_a_delete() {
    let mut store = ResourceStore::new();
    let a = store.create(7, bolt(), 5).unwrap();
    store.delete(7, a.id).unwrap();
    let b = store.create(7, bolt(), 5).unwrap();
    assert_eq!(b.id, 2);
    assert_eq!(failure(store.read(7, a.id)), Some(StoreError::NotFound));
}

#[test]
fn owners_do_not_touch_each_other() {
    let mut store = ResourceStore::new();
    let a = store.create(7, bolt(), 5).unwrap();
    let b = store.create(8, Payload::new().with("name", Value::Text("nut".to_string())), 5).unwrap();
    store.update(8, b.id, &Payload::new().with("qty", Value::Number(3)), None, 6).unwrap();
    store.delete(8, b.id).unwrap();
    let kept = store.read(7, a.id).unwrap();
    assert_eq!(kept.version, 1);
    assert_eq!(kept.payload.get("name"), Some(&Value::Text("bolt".to_string())));
    assert_eq!(kept.payload.get("qty"), Some(&Value::Number(10)));
}

#[test]
fn revise_at_the_largest_version_is_unavailable() {
    let item = InventoryItem {
        id: 1,
        owner_id: 7,
        payload: bolt(),
        version: u64::MAX,
        updated_at: 0,
    };
    let patch = Payload::new();
    assert_eq!(failure(item.revise(&patch, None, 1)), Some(StoreError::StorageUnavailable));
    assert_eq!(failure(item.revise(&patch, Some(u64::MAX), 1)), Some(StoreError::StorageUnavailable));
    assert_eq!(failure(item.revise(&patch, Some(1), 1)), Some(StoreError::VersionConflict));
}

#[test]
fn revise_leaves_the_item_alone() {
    let item = InventoryItem { id: 3, owner_id: 7, payload: bolt(), version: 4, updated_at: 0 };
    let next = item.revise(&Payload::new().with("qty", Value::Number(1)), Some(4), 50).unwrap();
    assert_eq!((next.id, next.owner_id, next.version, next.updated_at), (3, 7, 5, 50));
    assert_eq!(next.payload.get("qty"), Some(&Value::Number(1)));
    assert_eq!(item.version, 4);
    assert_eq!(item.payload.get("qty"), Some(&Value::Number(10)));
}
