use auction_house::errors::LedgerError;
use auction_house::user_credentials::memory_storage::MemoryStorage;
use auction_house::user_credentials::UserCredentials;
use auction_house::users_storage::UsersStorage;

#[test]
fn users_storage_add_user_and_verify_its_password() {
    let mut users = UsersStorage::new();
    let user = "user";
    let password = "password";
    users.add_user(user, password).unwrap();
    assert!(users.verify_user(user, password).is_ok());
}

#[test]
fn users_storage_update_user_and_verify_its_password() {
    let mut users = UsersStorage::new();
    let user = "user";
    let password = "password";
    users.add_user(user, password).unwrap();
    assert!(users.verify_user(user, password).is_ok());
    let new_password = "new password";
    users.update_user(user, new_password).unwrap();
    assert!(users.verify_user(user, new_password).is_ok());
}

#[test]
fn users_storage_add_user_remove_it_and_expect_verification_to_fail() {
    let mut users = UsersStorage::new();
    let user = "user";
    let password = "password";
    users.add_user(user, password).unwrap();
    users.remove_user(user);
    assert!(users.verify_user(user, password).is_err());
}

#[test]
fn users_storage_add_user_and_verify_wrong_password() {
    let mut users = UsersStorage::new();
    let user = "user";
    let password = "password";
    users.add_user(user, password).unwrap();
    assert!(users.verify_user(user, "wrong password").is_err());
}

#[test]
fn memory_storage_add_user_and_verify_its_password() {
    let mut users = MemoryStorage::default();
    let user = "user";
    let password = "password";
    users.add_user(user, password).unwrap();
    assert!(users.verify_user(user, password).is_ok());
}

#[test]
fn memory_storage_update_user_and_verify_its_password() {
    let mut users = MemoryStorage::default();
    let user = "user";
    let password = "password";
    users.add_user(user, password).unwrap();
    assert!(users.verify_user(user, password).is_ok());
    let new_password = "new password";
    users.update_user(user, new_password).unwrap();
    assert!(users.verify_user(user, new_password).is_ok());
}

#[test]
fn memory_storage_add_user_remove_it_and_expect_verification_to_fail() {
    let mut users = MemoryStorage::default();
    let user = "user";
    let password = "password";
    users.add_user(user, password).unwrap();
    users.remove_user(user);
    assert!(users.verify_user(user, password).is_err());
}

#[test]
fn memory_storage_add_user_and_verify_wrong_password() {
    let mut users = MemoryStorage::default();
    let user = "user";
    let password = "password";
    users.add_user(user, password).unwrap();
    assert!(users.verify_user(user, "wrong password").is_err());
}

#[test]
fn old_password_stops_working_after_update() {
    let mut users = UsersStorage::new();
    users.add_user("user", "password").unwrap();
    users.update_user("user", "new password").unwrap();
    assert!(users.verify_user("user", "password").is_err());
}

#[test]
fn wrong_credentials_are_reported_as_unauthorized() {
    let mut users = UsersStorage::new();
    users.add_user("user", "password").unwrap();
    assert_eq!(users.verify_user("user", "wrong password"), Err(LedgerError::Unauthorized));
    assert_eq!(users.verify_user("nobody", "password"), Err(LedgerError::Unauthorized));
}
