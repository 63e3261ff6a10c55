use twoblade_client::errors::VaultError;
use twoblade_client::errors::VaultField;
use twoblade_client::store::StoreModel;
use twoblade_client::vault::delete_from_store;
use twoblade_client::vault::load_from_store;
use twoblade_client::vault::save_to_store;

#[test]
fn save_then_load_returns_the_same_credentials() {
    let mut store = StoreModel::new();
    save_to_store(&mut store, "alice", "hunter2", &Some("clear-tok".to_string()));
    let set = load_from_store(&store).unwrap();
    assert_eq!(set.username.as_str(), "alice");
    assert_eq!(set.password.as_str(), "hunter2");
    assert_eq!(set.auxiliary_token.as_deref(), Some("clear-tok"));
}

#[test]
fn lost_token_entry_is_tolerated_on_load() {
    let mut store = StoreModel::new();
    save_to_store(&mut store, "alice", "hunter2", &Some("clear-tok".to_string()));
    store.remove("cf_clearance_alice");
    let set = load_from_store(&store).unwrap();
    assert_eq!(set.username.as_str(), "alice");
    assert_eq!(set.password.as_str(), "hunter2");
    assert!(set.auxiliary_token.is_none());
}

#[test]
fn save_without_token_loads_without_token() {
    let mut store = StoreModel::new();
    save_to_store(&mut store, "alice", "hunter2", &None);
    let set = load_from_store(&store).unwrap();
    assert_eq!(set.username.as_str(), "alice");
    assert_eq!(set.password.as_str(), "hunter2");
    assert!(set.auxiliary_token.is_none());
}

#[test]
fn orphan_entries_without_username_are_no_credentials() {
    let mut store = StoreModel::new();
    store.set("password_alice".to_string(), "orphan".to_string());
    store.set("cf_clearance_alice".to_string(), "orphan-tok".to_string());
    match load_from_store(&store) {
        Err(VaultError::NoCredentials(_)) => {},
        other => panic!("expected NoCredentials, got {:?}", other),
    }
}

#[test]
fn username_without_password_is_corrupted_state() {
    let mut store = StoreModel::new();
    store.set("username".to_string(), "alice".to_string());
    match load_from_store(&store) {
        Err(VaultError::ReadFailed(VaultField::Password, _)) => {},
        other => panic!("expected ReadFailed on the password, got {:?}", other),
    }
}

#[test]
fn delete_from_empty_store_is_no_error() {
    let mut store = StoreModel::new();
    delete_from_store(&mut store, "nobody");
    assert!(store.get("username").is_none());
}

#[test]
fn delete_removes_all_three_entries() {
    let mut store = StoreModel::new();
    save_to_store(&mut store, "alice", "hunter2", &Some("clear-tok".to_string()));
    delete_from_store(&mut store, "alice");
    assert!(store.get("username").is_none());
    assert!(store.get("password_alice").is_none());
    assert!(store.get("cf_clearance_alice").is_none());
    match load_from_store(&store) {
        Err(VaultError::NoCredentials(_)) => {},
        other => panic!("expected NoCredentials, got {:?}", other),
    }
}

#[test]
fn accounts_are_keyed_apart_and_the_remembered_one_wins() {
    let mut store = StoreModel::new();
    save_to_store(&mut store, "alice", "hunter2", &None);
    save_to_store(&mut store, "bob", "swordfish", &None);
    let set = load_from_store(&store).unwrap();
    assert_eq!(set.username.as_str(), "bob");
    assert_eq!(set.password.as_str(), "swordfish");
    assert_eq!(store.get("password_alice").unwrap().as_str(), "hunter2");
}
