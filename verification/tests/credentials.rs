use inventory_backend::credentials::CredentialStore;
use inventory_backend::error::CredentialError;

#[test]
fn store_files_users_under_their_names() {
    let mut store = CredentialStore::new();
    assert!(store.lookup_by_username("alice").is_none());
    assert_eq!(store.store("alice".to_string(), vec![1, 2], 3, vec![4, 5, 6]), Ok(1));
    assert_eq!(store.store("bob".to_string(), vec![7], 8, vec![9]), Ok(2));
    let alice = store.lookup_by_username("alice").unwrap();
    assert_eq!(alice.id, 1);
    assert_eq!(alice.username, "alice");
    assert_eq!(alice.salt, vec![1, 2]);
    assert_eq!(alice.rounds, 3);
    assert_eq!(alice.password_hash, vec![4, 5, 6]);
    assert_eq!(store.lookup_by_username("bob").unwrap().id, 2);
    assert!(store.lookup_by_username("carol").is_none());
}

#[test]
fn store_refuses_a_stored_name_and_keeps_the_record() {
    let mut store = CredentialStore::new();
    assert_eq!(store.store("alice".to_string(), vec![1], 1, vec![1]), Ok(1));
    assert_eq!(
        store.store("alice".to_string(), vec![2], 2, vec![2]),
        Err(CredentialError::Conflict)
    );
    let alice = store.lookup_by_username("alice").unwrap();
    assert_eq!((alice.id, alice.rounds), (1, 1));
    assert_eq!(alice.salt, vec![1]);
    assert_eq!(store.store("bob".to_string(), vec![], 0, vec![]), Ok(2));
}

#[test]
fn store_does_not_fold_case_itself() {
    let mut store = CredentialStore::new();
    assert_eq!(store.store("alice".to_string(), vec![], 1, vec![]), Ok(1));
    assert_eq!(store.store("Alice".to_string(), vec![], 1, vec![]), Ok(2));
    assert_eq!(store.lookup_by_username("Alice").unwrap().id, 2);
}

#[test]
fn contains_id_knows_the_assigned_ids() {
    let mut store = CredentialStore::new();
    assert!(!store.contains_id(1));
    store.store("alice".to_string(), vec![], 1, vec![]).unwrap();
    store.store("bob".to_string(), vec![], 1, vec![]).unwrap();
    assert!(store.contains_id(1));
    assert!(store.contains_id(2));
    assert!(!store.contains_id(0));
    assert!(!store.contains_id(3));
    assert!(!store.contains_id(u64::MAX));
}
