use vstd::prelude::*;

use argon2::{PasswordHasher, PasswordVerifier};

use crate::errors::LedgerError;
use crate::table::{
    keys_distinct, lemma_pairs_map_absent, lemma_pairs_map_index, lemma_pairs_map_remove,
    lemma_pairs_map_update, pairs_map,
};

verus! {

/// Whether this password is the one a stored password hash was derived
/// from. Checking is a function of the two strings alone: the salt and
/// the parameters travel inside the hash string.
pub uninterp spec fn password_matches(password: Seq<char>, hash: Seq<char>) -> bool;

/// Relies on argon2's `Argon2::hash_password` (default parameters, fresh
/// random salt): the PHC hash string it returns verifies against the same
/// password, whatever salt was drawn.
#[verifier::external_body]
fn hash_password(password: &str) -> (r: Result<String, ()>)
    ensures
        r matches Ok(h) ==> password_matches(password@, h@),
{
    match argon2::Argon2::default().hash_password(password.as_bytes()) {
        Ok(h) => Ok(h.to_string()),
        Err(_) => Err(()),
    }
}

/// Relies on argon2's `PasswordVerifier::verify_password`, with the PHC
/// hash string parsed by `PasswordHash::new`: whether a password matches
/// a hash depends on the two strings alone, and a string that does not
/// parse matches nothing.
#[verifier::external_body]
fn verify_password(password: &str, hash: &str) -> (r: bool)
    ensures
        r == password_matches(password@, hash@),
{
    match argon2::PasswordHash::new(hash) {
        Ok(parsed) => argon2::Argon2::default().verify_password(password.as_bytes(), &parsed)
            .is_ok(),
        Err(_) => false,
    }
}

/// One stored credential: the user's name and the PHC hash of the password.
struct CredentialEntry {
    name: String,
    hash: String,
}

/// The credential store of the session layer: user names to salted
/// password hashes; no plain password is ever kept.
///
/// Viewed as the finite map from each user name to its stored hash.
pub struct UsersStorage {
    users: Vec<CredentialEntry>,
}

impl UsersStorage {
    /// The store as a sequence of name/hash pairs.
    closed spec fn entries(self) -> Seq<(Seq<char>, Seq<char>)> {
        self.users@.map_values(|e: CredentialEntry| (e.name@, e.hash@))
    }

    #[verifier::type_invariant]
    closed spec fn inv(self) -> bool {
        keys_distinct(self.entries())
    }

    /// The index of the user with this name, if it is present.
    fn find(&self, user: &str) -> (r: Option<usize>)
        ensures
            match r {
                Some(i) => i < self.entries().len() && self.entries()[i as int].0 == user@,
                None => forall|j: int|
                    0 <= j < self.entries().len() ==> self.entries()[j].0 != user@,
            },
    {
        let key = user.to_owned();
        let mut i: usize = 0;
        while i < self.users.len()
            invariant
                i <= self.users.len(),
                key@ == user@,
                forall|j: int| 0 <= j < i ==> self.entries()[j].0 != user@,
            decreases self.users.len() - i,
        {
            if self.users[i].name == key {
                return Some(i);
            }
            i += 1;
        }
        None
    }

    /// An empty store.
    pub fn new() -> (r: Self)
        ensures
            r@ == Map::<Seq<char>, Seq<char>>::empty(),
    {
        let r = UsersStorage { users: Vec::new() };
        proof {
            assert(r@ =~= Map::<Seq<char>, Seq<char>>::empty());
        }
        r
    }

    /// Registers a user: hashes the password and stores the hash under
    /// the name. A taken name is rejected; a hashing fault is reported
    /// as internal; either way the store is unchanged.
    pub fn add_user(&mut self, user: &str, password: &str) -> (r: Result<(), LedgerError>)
        ensures
            old(self)@.contains_key(user@) ==> r == Err::<(), LedgerError>(
                LedgerError::AlreadyExists,
            ),
            !old(self)@.contains_key(user@) ==> r == Ok::<(), LedgerError>(()) || r == Err::<
                (),
                LedgerError,
            >(LedgerError::Internal),
            r is Err ==> final(self)@ == old(self)@,
            r is Ok ==> final(self)@.contains_key(user@) && password_matches(
                password@,
                final(self)@[user@],
            ) && final(self)@ == old(self)@.insert(user@, final(self)@[user@]),
    {
        proof {
            use_type_invariant(&*self);
        }
        match self.find(user) {
            Some(i) => {
                proof {
                    lemma_pairs_map_index(self.entries(), i as int);
                }
                Err(LedgerError::AlreadyExists)
            },
            None => {
                proof {
                    lemma_pairs_map_absent(self.entries(), user@);
                }
                match hash_password(password) {
                    Err(_) => Err(LedgerError::Internal),
                    Ok(hash) => {
                        let ghost pre = self.entries();
                        let ghost h = hash@;
                        let mut users: Vec<CredentialEntry> = Vec::new();
                        std::mem::swap(&mut users, &mut self.users);
                        users.push(CredentialEntry { name: user.to_owned(), hash });
                        proof {
                            assert(users@.map_values(|e: CredentialEntry| (e.name@, e.hash@))
                                =~= pre.push((user@, h)));
                        }
                        self.users = users;
                        proof {
                            assert(self.entries().drop_last() =~= pre);
                        }
                        Ok(())
                    },
                }
            },
        }
    }

    /// Replaces a known user's password hash with the hash of the new
    /// password. An unknown name is rejected; a hashing fault is
    /// reported as internal; either way the store is unchanged.
    pub fn update_user(&mut self, user: &str, password: &str) -> (r: Result<(), LedgerError>)
        ensures
            !old(self)@.contains_key(user@) ==> r == Err::<(), LedgerError>(LedgerError::NotFound),
            old(self)@.contains_key(user@) ==> r == Ok::<(), LedgerError>(()) || r == Err::<
                (),
                LedgerError,
            >(LedgerError::Internal),
            r is Err ==> final(self)@ == old(self)@,
            r is Ok ==> final(self)@.contains_key(user@) && password_matches(
                password@,
                final(self)@[user@],
            ) && final(self)@ == old(self)@.insert(user@, final(self)@[user@]),
    {
        proof {
            use_type_invariant(&*self);
        }
        match self.find(user) {
            None => {
                proof {
                    lemma_pairs_map_absent(self.entries(), user@);
                }
                Err(LedgerError::NotFound)
            },
            Some(i) => {
                proof {
                    lemma_pairs_map_index(self.entries(), i as int);
                }
                match hash_password(password) {
                    Err(_) => Err(LedgerError::Internal),
                    Ok(hash) => {
                        let ghost pre = self.entries();
                        let ghost h = hash@;
                        let mut users: Vec<CredentialEntry> = Vec::new();
                        std::mem::swap(&mut users, &mut self.users);
                        let entry = &mut users[i];
                        entry.hash = hash;
                        proof {
                            assert(users@.map_values(|e: CredentialEntry| (e.name@, e.hash@))
                                =~= pre.update(i as int, (user@, h)));
                            lemma_pairs_map_update(pre, i as int, h);
                        }
                        self.users = users;
                        Ok(())
                    },
                }
            },
        }
    }

    /// Accepts exactly a known user name together with the password its
    /// stored hash was derived from; everything else is unauthorized.
    pub fn verify_user(&self, user: &str, password: &str) -> (r: Result<(), LedgerError>)
        ensures
            r is Ok <==> self@.contains_key(user@) && password_matches(
                password@,
                self@[user@],
            ),
            r is Err ==> r == Err::<(), LedgerError>(LedgerError::Unauthorized),
    {
        proof {
            use_type_invariant(&*self);
        }
        match self.find(user) {
            None => {
                proof {
                    lemma_pairs_map_absent(self.entries(), user@);
                }
                Err(LedgerError::Unauthorized)
            },
            Some(i) => {
                proof {
                    lemma_pairs_map_index(self.entries(), i as int);
                }
                if verify_password(password, self.users[i].hash.as_str()) {
                    Ok(())
                } else {
                    Err(LedgerError::Unauthorized)
                }
            },
        }
    }

    /// Forgets the user's credential; a name that is not stored is left
    /// as it is.
    pub fn remove_user(&mut self, user: &str)
        ensures
            final(self)@ == old(self)@.remove(user@),
    {
        proof {
            use_type_invariant(&*self);
        }
        match self.find(user) {
            None => {
                proof {
                    lemma_pairs_map_absent(self.entries(), user@);
                    assert(self@.remove(user@) =~= self@);
                }
            },
            Some(i) => {
                proof {
                    lemma_pairs_map_index(self.entries(), i as int);
                }
                let ghost pre = self.entries();
                let mut users: Vec<CredentialEntry> = Vec::new();
                std::mem::swap(&mut users, &mut self.users);
                users.remove(i);
                proof {
                    assert(users@.map_values(|e: CredentialEntry| (e.name@, e.hash@)) =~= pre
                        .remove(i as int));
                    lemma_pairs_map_remove(pre, i as int);
                    assert(keys_distinct(pre.remove(i as int)));
                }
                self.users = users;
            },
        }
    }
}

impl View for UsersStorage {
    type V = Map<Seq<char>, Seq<char>>;

    closed spec fn view(&self) -> Map<Seq<char>, Seq<char>> {
        pairs_map(self.entries())
    }
}

} // verus!
