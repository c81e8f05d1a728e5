use auction_house::backend::users_memory_storage::UsersMemoryStorage;
use auction_house::backend::{Funds, UsersBackend};
use auction_house::errors::LedgerError;

#[test]
fn test_add_user() {
    let mut storage = UsersMemoryStorage::default();
    storage.add_user("user1").unwrap();
    assert!(storage.show_funds("user1").is_ok());
}

#[test]
fn test_add_user_twice() {
    let mut storage = UsersMemoryStorage::default();
    storage.add_user("user1").unwrap();
    assert!(storage.add_user("user1").is_err());
}

#[test]
fn test_deposit_funds() {
    let mut storage = UsersMemoryStorage::default();
    storage.add_user("user1").unwrap();
    storage.deposit_funds("user1", 100).unwrap();
    assert_eq!(storage.show_funds("user1").unwrap(), 100);
}

#[test]
fn test_deposit_funds_twice() {
    let mut storage = UsersMemoryStorage::default();
    storage.add_user("user1").unwrap();
    storage.deposit_funds("user1", 100).unwrap();
    storage.deposit_funds("user1", 100).unwrap();
    assert_eq!(storage.show_funds("user1").unwrap(), 200);
}

#[test]
fn test_deposit_funds_to_non_existing_user() {
    let mut storage = UsersMemoryStorage::default();
    assert!(storage.deposit_funds("user1", 100).is_err());
}

#[test]
fn test_deposit_funds_exceeding_max() {
    let mut storage = UsersMemoryStorage::default();
    storage.add_user("user1").unwrap();
    storage.deposit_funds("user1", 100).unwrap();
    assert!(storage.deposit_funds("user1", Funds::MAX).is_err());
}

#[test]
fn test_withdraw_funds() {
    let mut storage = UsersMemoryStorage::default();
    storage.add_user("user1").unwrap();
    storage.deposit_funds("user1", 100).unwrap();
    storage.withdraw_funds("user1", 50).unwrap();
    assert_eq!(storage.show_funds("user1").unwrap(), 50);
}

#[test]
fn test_withdraw_funds_twice() {
    let mut storage = UsersMemoryStorage::default();
    storage.add_user("user1").unwrap();
    storage.deposit_funds("user1", 100).unwrap();
    storage.withdraw_funds("user1", 50).unwrap();
    storage.withdraw_funds("user1", 50).unwrap();
    assert_eq!(storage.show_funds("user1").unwrap(), 0);
}

#[test]
fn test_withdraw_funds_from_non_existing_user() {
    let mut storage = UsersMemoryStorage::default();
    assert!(storage.withdraw_funds("user1", 100).is_err());
}

#[test]
fn test_withdraw_funds_exceeding_max() {
    let mut storage = UsersMemoryStorage::default();
    storage.add_user("user1").unwrap();
    assert!(storage.withdraw_funds("user1", Funds::MAX).is_err());
}

#[test]
fn test_withdraw_funds_exceeding_balance() {
    let mut storage = UsersMemoryStorage::default();
    storage.add_user("user1").unwrap();
    assert!(storage.withdraw_funds("user1", 100).is_err());
}

#[test]
fn test_deposit_item() {
    let mut storage = UsersMemoryStorage::default();
    storage.add_user("user1").unwrap();
    storage.deposit_item("user1", "item1").unwrap();
    assert!(storage.list_items("user1").unwrap().contains(&"item1".to_owned()));
}

#[test]
fn test_deposit_item_twice() {
    let mut storage = UsersMemoryStorage::default();
    storage.add_user("user1").unwrap();
    storage.deposit_item("user1", "item1").unwrap();
    assert!(storage.deposit_item("user1", "item1").is_err());
}

#[test]
fn test_deposit_item_to_non_existing_user() {
    let mut storage = UsersMemoryStorage::default();
    assert!(storage.deposit_item("user1", "item1").is_err());
}

#[test]
fn test_withdraw_item() {
    let mut storage = UsersMemoryStorage::default();
    storage.add_user("user1").unwrap();
    storage.deposit_item("user1", "item1").unwrap();
    storage.withdraw_item("user1", "item1").unwrap();
    assert!(!storage.list_items("user1").unwrap().contains(&"item1".to_owned()));
}

#[test]
fn test_withdraw_item_twice() {
    let mut storage = UsersMemoryStorage::default();
    storage.add_user("user1").unwrap();
    storage.deposit_item("user1", "item1").unwrap();
    storage.withdraw_item("user1", "item1").unwrap();
    assert!(storage.withdraw_item("user1", "item1").is_err());
}

#[test]
fn test_withdraw_item_from_non_existing_user() {
    let mut storage = UsersMemoryStorage::default();
    assert!(storage.withdraw_item("user1", "item1").is_err());
}

#[test]
fn test_list_items() {
    let mut storage = UsersMemoryStorage::default();
    storage.add_user("user1").unwrap();
    storage.deposit_item("user1", "item1").unwrap();
    storage.deposit_item("user1", "item2").unwrap();
    let items = storage.list_items("user1").unwrap();
    assert!(items.contains(&"item1".to_owned()));
    assert!(items.contains(&"item2".to_owned()));
}

#[test]
fn test_show_funds() {
    let mut storage = UsersMemoryStorage::default();
    storage.add_user("user1").unwrap();
    storage.deposit_funds("user1", 100).unwrap();
    assert_eq!(storage.show_funds("user1").unwrap(), 100);
}

#[test]
fn test_show_funds_of_non_existing_user() {
    let mut storage = UsersMemoryStorage::default();
    assert!(storage.show_funds("user1").is_err());
}

#[test]
fn rejected_deposit_leaves_funds_unchanged() {
    let mut storage = UsersMemoryStorage::default();
    storage.add_user("user1").unwrap();
    storage.deposit_funds("user1", 100).unwrap();
    assert_eq!(storage.deposit_funds("user1", Funds::MAX), Err(LedgerError::Overflow));
    assert_eq!(storage.show_funds("user1").unwrap(), 100);
}

#[test]
fn rejected_withdrawal_leaves_funds_unchanged() {
    let mut storage = UsersMemoryStorage::default();
    storage.add_user("user1").unwrap();
    storage.deposit_funds("user1", 100).unwrap();
    assert_eq!(storage.withdraw_funds("user1", 101), Err(LedgerError::InsufficientFunds));
    assert_eq!(storage.show_funds("user1").unwrap(), 100);
}

#[test]
fn account_errors_name_their_cause() {
    let mut storage = UsersMemoryStorage::default();
    assert_eq!(storage.deposit_funds("user1", 1), Err(LedgerError::NotFound));
    storage.add_user("user1").unwrap();
    assert_eq!(storage.add_user("user1"), Err(LedgerError::AlreadyExists));
    storage.deposit_item("user1", "item1").unwrap();
    assert_eq!(storage.deposit_item("user1", "item1"), Err(LedgerError::DuplicateItem));
    assert_eq!(storage.withdraw_item("user1", "item2"), Err(LedgerError::ItemNotFound));
}
