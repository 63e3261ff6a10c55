use twoblade_client::errors::VaultError;
use twoblade_client::errors::VaultField;
use twoblade_client::vault::delete_credentials;
use twoblade_client::vault::load_outcome;
use twoblade_client::vault::password_key;
use twoblade_client::vault::token_key;

#[test]
fn password_key_is_namespaced_by_username() {
    assert_eq!(password_key("alice").as_str(), "password_alice");
    assert_eq!(password_key("").as_str(), "password_");
}

#[test]
fn token_key_is_namespaced_by_username() {
    assert_eq!(token_key("alice").as_str(), "cf_clearance_alice");
}

#[test]
fn round_trip_reads_return_what_was_written() {
    let r = load_outcome(
        Ok("alice".to_string()),
        Ok("hunter2".to_string()),
        Some("clear-tok".to_string()),
    );
    let set = r.unwrap();
    assert_eq!(set.username.as_str(), "alice");
    assert_eq!(set.password.as_str(), "hunter2");
    assert_eq!(set.auxiliary_token.as_deref(), Some("clear-tok"));
}

#[test]
fn failed_token_read_is_tolerated_not_fatal() {
    let r = load_outcome(Ok("alice".to_string()), Ok("hunter2".to_string()), None);
    let set = r.unwrap();
    assert_eq!(set.username.as_str(), "alice");
    assert_eq!(set.password.as_str(), "hunter2");
    assert!(set.auxiliary_token.is_none());
}

#[test]
fn missing_username_is_no_credentials_regardless_of_other_entries() {
    let r = load_outcome(
        Err("No saved credentials found: no entry".to_string()),
        Ok("orphan-password".to_string()),
        Some("orphan-token".to_string()),
    );
    match r {
        Err(VaultError::NoCredentials(m)) => {
            assert_eq!(m.as_str(), "No saved credentials found: no entry")
        },
        other => panic!("expected NoCredentials, got {:?}", other),
    }
}

#[test]
fn missing_password_with_username_is_a_read_error_on_password() {
    let r = load_outcome(
        Ok("alice".to_string()),
        Err("Failed to load password: gone".to_string()),
        Some("token".to_string()),
    );
    match r {
        Err(VaultError::ReadFailed(VaultField::Password, m)) => {
            assert_eq!(m.as_str(), "Failed to load password: gone")
        },
        other => panic!("expected ReadFailed on the password, got {:?}", other),
    }
}

#[test]
fn delete_never_fails_even_with_no_entries() {
    assert!(delete_credentials("nobody_ever_saved_this_account").is_ok());
    assert!(delete_credentials("").is_ok());
}
