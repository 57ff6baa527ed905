use kintai::store::Store;
use kintai::{
    add_user, create_user, delete_user, get_user, get_users, login, update_password,
    validate_user, CreateUserError, ServiceError, TokenConfig, UpdatePasswordError, UserName,
};

const NOW: i64 = 1_700_000_000;

/// The stored record carries a hash, never the plaintext, and exactly
/// the right password validates.
#[test]
fn test_create_and_validate() {
    let mut store = Store::new();
    let u = create_user(&mut store, "alice", "open sesame", &false, Some("Alice"), None).unwrap();
    assert_eq!(u.id, "alice");
    assert_ne!(u.pass, "open sesame");
    assert_eq!(u.first_name.as_deref(), Some("Alice"));
    assert!(validate_user(&store, "alice", "open sesame").is_some());
    assert!(validate_user(&store, "alice", "open Sesame").is_none());
    assert!(validate_user(&store, "bob", "open sesame").is_none());
    assert!(get_user(&store, "alice").is_some());
    assert!(get_user(&store, "bob").is_none());
}

/// A taken identity is refused and the store stays as it was.
#[test]
fn test_duplicate_user() {
    let mut store = Store::new();
    create_user(&mut store, "alice", "first", &false, None, None).unwrap();
    let r = create_user(&mut store, "alice", "second", &true, None, None);
    assert_eq!(r.unwrap_err(), CreateUserError::DuplicateId);
    assert!(validate_user(&store, "alice", "first").is_some());
    assert!(validate_user(&store, "alice", "second").is_none());
}

/// A wrong old password leaves the stored hash untouched and reports an
/// authentication failure.
#[test]
fn test_update_password_wrong_old() {
    let mut store = Store::new();
    create_user(&mut store, "alice", "correct", &false, None, None).unwrap();
    let before = get_user(&store, "alice").unwrap().pass;
    let r = update_password(&mut store, "alice", "wrong", "newpass");
    assert_eq!(r.unwrap_err(), UpdatePasswordError::AuthenticationFailed);
    assert_eq!(get_user(&store, "alice").unwrap().pass, before);
    assert!(validate_user(&store, "alice", "correct").is_some());
    assert!(validate_user(&store, "alice", "newpass").is_none());
    // an unknown identity reports the same failure
    assert_eq!(
        update_password(&mut store, "ghost", "x", "y").unwrap_err(),
        UpdatePasswordError::AuthenticationFailed
    );
}

/// With the right old password the hash is replaced: the old password
/// stops validating and the new one starts.
#[test]
fn test_update_password_ok() {
    let mut store = Store::new();
    create_user(&mut store, "alice", "correct", &false, None, None).unwrap();
    assert_eq!(update_password(&mut store, "alice", "correct", "newpass").unwrap(), 1);
    assert!(validate_user(&store, "alice", "correct").is_none());
    assert!(validate_user(&store, "alice", "newpass").is_some());
}

/// Listing accounts is administrative and shows identity and role only.
#[test]
fn test_get_users() {
    let mut store = Store::new();
    create_user(&mut store, "root", "pass", &true, None, None).unwrap();
    create_user(&mut store, "alice", "pw", &false, None, None).unwrap();
    assert_eq!(get_users(&store, false).unwrap_err(), ServiceError::Authorization);
    let v = get_users(&store, true).unwrap();
    assert_eq!(v.len(), 2);
    assert_eq!(v[0].id, "root");
    assert!(v[0].isadmin);
    assert_eq!(v[1].id, "alice");
    assert!(!v[1].isadmin);
}

/// An admin creates an account with a generated password that works for
/// a real login.
#[test]
fn test_add_user() {
    let mut store = Store::new();
    let cfg = TokenConfig::new(b"test-signing-key".to_vec(), 60);
    let nu = UserName { id: "alice".to_string(), isadmin: false };
    assert_eq!(add_user(&mut store, false, &nu).unwrap_err(), ServiceError::Authorization);
    let (u, pass) = add_user(&mut store, true, &nu).unwrap();
    assert_eq!(u.id, "alice");
    assert!(!pass.is_empty());
    assert_ne!(u.pass, pass);
    assert!(login(&store, &cfg, "alice", &pass, NOW).is_some());
    assert!(login(&store, &cfg, "alice", "guess", NOW).is_none());
    // the identity is now taken
    assert_eq!(add_user(&mut store, true, &nu).unwrap_err(), ServiceError::Store);
}

/// An admin removes a non-admin account or their own, never another
/// admin's; a non-admin removes nothing.
#[test]
fn test_delete_user_rules() {
    let mut store = Store::new();
    create_user(&mut store, "root", "pass", &true, None, None).unwrap();
    create_user(&mut store, "admin2", "pass", &true, None, None).unwrap();
    create_user(&mut store, "alice", "pw", &false, None, None).unwrap();

    assert_eq!(
        delete_user(&mut store, "alice", false, "root").unwrap_err(),
        ServiceError::Authorization
    );
    assert_eq!(
        delete_user(&mut store, "root", true, "admin2").unwrap_err(),
        ServiceError::Authorization
    );
    assert_eq!(delete_user(&mut store, "root", true, "missing").unwrap_err(), ServiceError::Store);
    assert_eq!(delete_user(&mut store, "root", true, "alice").unwrap(), 1);
    assert!(get_user(&store, "alice").is_none());
    // an admin may remove their own account
    assert_eq!(delete_user(&mut store, "admin2", true, "admin2").unwrap(), 1);
    assert!(get_user(&store, "admin2").is_none());
    assert!(get_user(&store, "root").is_some());
}
