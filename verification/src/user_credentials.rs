use vstd::prelude::*;

pub mod memory_storage;

use crate::errors::LedgerError;
use crate::users_storage::password_matches;

verus! {

/// Operations every credential store offers to the session layer. A
/// store is a finite map from user name to stored password hash; each
/// operation pins the new map, up to the hash an outside hashing
/// primitive produced.
pub trait UserCredentials: View<V = Map<Seq<char>, Seq<char>>> + Sized {
    /// Registers a user under a free name; the stored hash verifies
    /// against the given password.
    fn add_user(&mut self, user: &str, password: &str) -> (r: Result<(), LedgerError>)
        ensures
            old(self)@.contains_key(user@) ==> r == Err::<(), LedgerError>(
                LedgerError::AlreadyExists,
            ),
            !old(self)@.contains_key(user@) ==> r == Ok::<(), LedgerError>(()) || r == Err::<
                (),
                LedgerError,
            >(LedgerError::Internal),
            r is Err ==> final(self)@ == old(self)@,
            r is Ok ==> final(self)@.contains_key(user@) && password_matches(
                password@,
                final(self)@[user@],
            ) && final(self)@ == old(self)@.insert(user@, final(self)@[user@]),
    ;

    /// Replaces a known user's stored hash with one derived from the new
    /// password.
    fn update_user(&mut self, user: &str, password: &str) -> (r: Result<(), LedgerError>)
        ensures
            !old(self)@.contains_key(user@) ==> r == Err::<(), LedgerError>(LedgerError::NotFound),
            old(self)@.contains_key(user@) ==> r == Ok::<(), LedgerError>(()) || r == Err::<
                (),
                LedgerError,
            >(LedgerError::Internal),
            r is Err ==> final(self)@ == old(self)@,
            r is Ok ==> final(self)@.contains_key(user@) && password_matches(
                password@,
                final(self)@[user@],
            ) && final(self)@ == old(self)@.insert(user@, final(self)@[user@]),
    ;

    /// Accepts exactly a known name with its stored password.
    fn verify_user(&self, user: &str, password: &str) -> (r: Result<(), LedgerError>)
        ensures
            r is Ok <==> self@.contains_key(user@) && password_matches(password@, self@[user@]),
            r is Err ==> r == Err::<(), LedgerError>(LedgerError::Unauthorized),
    ;

    /// Forgets the user's credential.
    fn remove_user(&mut self, user: &str)
        ensures
            final(self)@ == old(self)@.remove(user@),
    ;
}

} // verus!
