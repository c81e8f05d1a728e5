use vstd::prelude::*;

use crate::errors::LedgerError;
use crate::user_credentials::UserCredentials;
use crate::users_storage::UsersStorage;

verus! {

/// An in-memory credential store for the session layer; it keeps the
/// same name-to-hash map as `UsersStorage` and offers it behind the
/// `UserCredentials` interface.
pub struct MemoryStorage {
    store: UsersStorage,
}

impl View for MemoryStorage {
    type V = Map<Seq<char>, Seq<char>>;

    closed spec fn view(&self) -> Map<Seq<char>, Seq<char>> {
        self.store@
    }
}

impl Default for MemoryStorage {
    /// An empty store.
    fn default() -> (r: Self)
        ensures
            r@ == Map::<Seq<char>, Seq<char>>::empty(),
    {
        MemoryStorage { store: UsersStorage::new() }
    }
}

impl UserCredentials for MemoryStorage {
    fn add_user(&mut self, user: &str, password: &str) -> (r: Result<(), LedgerError>) {
        self.store.add_user(user, password)
    }

    fn update_user(&mut self, user: &str, password: &str) -> (r: Result<(), LedgerError>) {
        self.store.update_user(user, password)
    }

    fn verify_user(&self, user: &str, password: &str) -> (r: Result<(), LedgerError>) {
        self.store.verify_user(user, password)
    }

    fn remove_user(&mut self, user: &str) {
        self.store.remove_user(user)
    }
}

} // verus!
