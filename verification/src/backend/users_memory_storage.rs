use vstd::prelude::*;

use crate::backend::{AccountView, Funds, UsersBackend};
use crate::errors::LedgerError;
use crate::table::{
    keys_distinct, lemma_pairs_map_absent, lemma_pairs_map_index, lemma_to_set_remove, pairs_map,
};

verus! {

/// One account record: the name, the balance, and the item inventory.
struct AccountEntry {
    name: String,
    funds: Funds,
    items: Vec<String>,
}

impl AccountEntry {
    /// The names of the items this record holds, in storage order.
    spec fn item_names(self) -> Seq<Seq<char>> {
        self.items@.map_values(|s: String| s@)
    }

    /// The mathematical snapshot of this record.
    spec fn snapshot(self) -> AccountView {
        AccountView { funds: self.funds, items: self.item_names().to_set() }
    }
}

/// The in-memory account ledger: a table of accounts keyed by name.
///
/// Viewed as the finite map from each account name to its snapshot.
pub struct UsersMemoryStorage {
    accounts: Vec<AccountEntry>,
}

impl UsersMemoryStorage {
    /// The table as a sequence of name/snapshot pairs.
    closed spec fn entries(self) -> Seq<(Seq<char>, AccountView)> {
        self.accounts@.map_values(|e: AccountEntry| (e.name@, e.snapshot()))
    }

    #[verifier::type_invariant]
    closed spec fn inv(self) -> bool {
        &&& keys_distinct(self.entries())
        &&& forall|i: int|
            0 <= i < self.accounts@.len() ==> (#[trigger] self.accounts@[i]).item_names(
            ).no_duplicates()
    }

    /// The index of the account with this name, if it is present.
    fn find(&self, user: &str) -> (r: Option<usize>)
        ensures
            match r {
                Some(i) => i < self.entries().len() && self.entries()[i as int].0 == user@,
                None => forall|j: int|
                    0 <= j < self.entries().len() ==> self.entries()[j].0 != user@,
            },
    {
        let key = user.to_owned();
        let mut i: usize = 0;
        while i < self.accounts.len()
            invariant
                i <= self.accounts.len(),
                key@ == user@,
                forall|j: int| 0 <= j < i ==> self.entries()[j].0 != user@,
            decreases self.accounts.len() - i,
        {
            if self.accounts[i].name == key {
                return Some(i);
            }
            i += 1;
        }
        None
    }
}

/// The index of this item name in the inventory, if it is present.
fn item_index(items: &Vec<String>, item: &str) -> (r: Option<usize>)
    ensures
        match r {
            Some(j) => j < items@.len() && items@[j as int]@ == item@,
            None => forall|k: int| 0 <= k < items@.len() ==> items@[k]@ != item@,
        },
{
    let key = item.to_owned();
    let mut k: usize = 0;
    while k < items.len()
        invariant
            k <= items.len(),
            key@ == item@,
            forall|j: int| 0 <= j < k ==> items@[j]@ != item@,
        decreases items.len() - k,
    {
        if items[k] == key {
            return Some(k);
        }
        k += 1;
    }
    None
}

/// A fresh copy of the inventory, name for name.
fn clone_items(items: &Vec<String>) -> (v: Vec<String>)
    ensures
        v@.map_values(|s: String| s@) == items@.map_values(|s: String| s@),
{
    let ghost names = items@.map_values(|s: String| s@);
    let mut v: Vec<String> = Vec::new();
    let mut k: usize = 0;
    while k < items.len()
        invariant
            k <= items.len(),
            names == items@.map_values(|s: String| s@),
            v@.map_values(|s: String| s@) == names.take(k as int),
        decreases items.len() - k,
    {
        let s = String::from_str(items[k].as_str());
        v.push(s);
        proof {
            assert(v@.map_values(|s: String| s@) =~= names.take(k as int).push(names[k as int]));
            assert(names.take(k as int).push(names[k as int]) =~= names.take(k as int + 1));
        }
        k += 1;
    }
    proof {
        assert(names.take(items@.len() as int) =~= names);
    }
    v
}

impl View for UsersMemoryStorage {
    type V = Map<Seq<char>, AccountView>;

    closed spec fn view(&self) -> Map<Seq<char>, AccountView> {
        pairs_map(self.entries())
    }
}

impl Default for UsersMemoryStorage {
    /// An empty ledger.
    fn default() -> (r: Self)
        ensures
            r@ == Map::<Seq<char>, AccountView>::empty(),
    {
        let r = UsersMemoryStorage { accounts: Vec::new() };
        proof {
            assert(r@ =~= Map::<Seq<char>, AccountView>::empty());
        }
        r
    }
}

impl UsersBackend for UsersMemoryStorage {
    fn add_user(&mut self, user: &str) -> (r: Result<(), LedgerError>) {
        proof {
            use_type_invariant(&*self);
        }
        match self.find(user) {
            Some(i) => {
                proof {
                    lemma_pairs_map_index(self.entries(), i as int);
                }
                Err(LedgerError::AlreadyExists)
            },
            None => {
                proof {
                    lemma_pairs_map_absent(self.entries(), user@);
                }
                let ghost pre = self.entries();
                let mut accounts: Vec<AccountEntry> = Vec::new();
                std::mem::swap(&mut accounts, &mut self.accounts);
                let entry = AccountEntry { name: user.to_owned(), funds: 0, items: Vec::new() };
                let ghost snap = entry.snapshot();
                accounts.push(entry);
                proof {
                    assert(accounts@.map_values(|e: AccountEntry| (e.name@, e.snapshot()))
                        =~= pre.push((user@, snap)));
                }
                self.accounts = accounts;
                proof {
                    assert(self.entries().drop_last() =~= pre);
                    assert(snap.items =~= Set::<Seq<char>>::empty());
                }
                Ok(())
            },
        }
    }

    fn deposit_funds(&mut self, user: &str, amount: Funds) -> (r: Result<(), LedgerError>) {
        proof {
            use_type_invariant(&*self);
        }
        match self.find(user) {
            None => {
                proof {
                    lemma_pairs_map_absent(self.entries(), user@);
                }
                Err(LedgerError::NotFound)
            },
            Some(i) => {
                proof {
                    lemma_pairs_map_index(self.entries(), i as int);
                }
                let funds = self.accounts[i].funds;
                if amount > u32::MAX - funds {
                    proof {
                        assert(self@.insert(user@, self@[user@]) =~= self@);
                    }
                    Err(LedgerError::Overflow)
                } else {
                    let ghost pre = self.entries();
                    let mut accounts: Vec<AccountEntry> = Vec::new();
                    std::mem::swap(&mut accounts, &mut self.accounts);
                    let entry = &mut accounts[i];
                    entry.funds = funds + amount;
                    proof {
                        let v = AccountView {
                            funds: (funds + amount) as Funds,
                            items: pre[i as int].1.items,
                        };
                        assert(accounts@[i as int].snapshot() == v);
                        assert(accounts@.map_values(|e: AccountEntry| (e.name@, e.snapshot()))
                            =~= pre.update(i as int, (user@, v)));
                        crate::table::lemma_pairs_map_update(pre, i as int, v);
                    }
                    self.accounts = accounts;
                    Ok(())
                }
            },
        }
    }

    fn withdraw_funds(&mut self, user: &str, amount: Funds) -> (r: Result<(), LedgerError>) {
        proof {
            use_type_invariant(&*self);
        }
        match self.find(user) {
            None => {
                proof {
                    lemma_pairs_map_absent(self.entries(), user@);
                }
                Err(LedgerError::NotFound)
            },
            Some(i) => {
                proof {
                    lemma_pairs_map_index(self.entries(), i as int);
                }
                let funds = self.accounts[i].funds;
                if amount > funds {
                    proof {
                        assert(self@.insert(user@, self@[user@]) =~= self@);
                    }
                    Err(LedgerError::InsufficientFunds)
                } else {
                    let ghost pre = self.entries();
                    let mut accounts: Vec<AccountEntry> = Vec::new();
                    std::mem::swap(&mut accounts, &mut self.accounts);
                    let entry = &mut accounts[i];
                    entry.funds = funds - amount;
                    proof {
                        let v = AccountView {
                            funds: (funds - amount) as Funds,
                            items: pre[i as int].1.items,
                        };
                        assert(accounts@[i as int].snapshot() == v);
                        assert(accounts@.map_values(|e: AccountEntry| (e.name@, e.snapshot()))
                            =~= pre.update(i as int, (user@, v)));
                        crate::table::lemma_pairs_map_update(pre, i as int, v);
                    }
                    self.accounts = accounts;
                    Ok(())
                }
            },
        }
    }

    fn deposit_item(&mut self, user: &str, item: &str) -> (r: Result<(), LedgerError>) {
        proof {
            use_type_invariant(&*self);
        }
        match self.find(user) {
            None => {
                proof {
                    lemma_pairs_map_absent(self.entries(), user@);
                }
                Err(LedgerError::NotFound)
            },
            Some(i) => {
                proof {
                    lemma_pairs_map_index(self.entries(), i as int);
                }
                match item_index(&self.accounts[i].items, item) {
                    Some(j) => {
                        proof {
                            assert(self.accounts@[i as int].item_names()[j as int] == item@);
                            assert(self@.insert(user@, self@[user@]) =~= self@);
                        }
                        Err(LedgerError::DuplicateItem)
                    },
                    None => {
                        proof {
                            assert(!self.accounts@[i as int].item_names().contains(item@)) by {
                                assert(forall|k: int|
                                    0 <= k < self.accounts@[i as int].items@.len() ==> (
                                    #[trigger] self.accounts@[i as int].item_names()[k])
                                        != item@);
                            }
                        }
                        let ghost pre = self.entries();
                        let ghost old_names = self.accounts@[i as int].item_names();
                        let mut accounts: Vec<AccountEntry> = Vec::new();
                        std::mem::swap(&mut accounts, &mut self.accounts);
                        let entry = &mut accounts[i];
                        entry.items.push(item.to_owned());
                        proof {
                            assert(accounts@[i as int].item_names() =~= old_names.push(item@));
                            old_names.lemma_push_to_set_commute(item@);
                            let v = AccountView {
                                funds: pre[i as int].1.funds,
                                items: pre[i as int].1.items.insert(item@),
                            };
                            assert(accounts@[i as int].snapshot() == v);
                            assert(accounts@.map_values(|e: AccountEntry| (e.name@, e.snapshot()))
                                =~= pre.update(i as int, (user@, v)));
                            crate::table::lemma_pairs_map_update(pre, i as int, v);
                        }
                        self.accounts = accounts;
                        Ok(())
                    },
                }
            },
        }
    }

    fn withdraw_item(&mut self, user: &str, item: &str) -> (r: Result<(), LedgerError>) {
        proof {
            use_type_invariant(&*self);
        }
        match self.find(user) {
            None => {
                proof {
                    lemma_pairs_map_absent(self.entries(), user@);
                }
                Err(LedgerError::NotFound)
            },
            Some(i) => {
                proof {
                    lemma_pairs_map_index(self.entries(), i as int);
                }
                match item_index(&self.accounts[i].items, item) {
                    None => {
                        proof {
                            assert(!self.accounts@[i as int].item_names().contains(item@)) by {
                                assert(forall|k: int|
                                    0 <= k < self.accounts@[i as int].items@.len() ==> (
                                    #[trigger] self.accounts@[i as int].item_names()[k])
                                        != item@);
                            }
                            assert(self@.insert(user@, self@[user@]) =~= self@);
                        }
                        Err(LedgerError::ItemNotFound)
                    },
                    Some(j) => {
                        proof {
                            assert(self.accounts@[i as int].item_names()[j as int] == item@);
                        }
                        let ghost pre = self.entries();
                        let ghost old_names = self.accounts@[i as int].item_names();
                        let mut accounts: Vec<AccountEntry> = Vec::new();
                        std::mem::swap(&mut accounts, &mut self.accounts);
                        let entry = &mut accounts[i];
                        entry.items.remove(j);
                        proof {
                            assert(accounts@[i as int].item_names() =~= old_names.remove(
                                j as int,
                            ));
                            lemma_to_set_remove(old_names, j as int);
                            let v = AccountView {
                                funds: pre[i as int].1.funds,
                                items: pre[i as int].1.items.remove(item@),
                            };
                            assert(accounts@[i as int].snapshot() == v);
                            assert(accounts@.map_values(|e: AccountEntry| (e.name@, e.snapshot()))
                                =~= pre.update(i as int, (user@, v)));
                            crate::table::lemma_pairs_map_update(pre, i as int, v);
                        }
                        self.accounts = accounts;
                        Ok(())
                    },
                }
            },
        }
    }

    #[verifier::rlimit(50)]
    #[verifier::spinoff_prover]
    fn list_items(&self, user: &str) -> (r: Result<Vec<String>, LedgerError>) {
        proof {
            use_type_invariant(&*self);
        }
        match self.find(user) {
            None => {
                proof {
                    lemma_pairs_map_absent(self.entries(), user@);
                }
                Err(LedgerError::NotFound)
            },
            Some(i) => {
                proof {
                    lemma_pairs_map_index(self.entries(), i as int);
                }
                let ghost names = self.accounts@[i as int].item_names();
                let v = clone_items(&self.accounts[i].items);
                proof {
                    assert(v@.map_values(|s: String| s@) == names);
                    assert(self@[user@].items == names.to_set());
                }
                Ok(v)
            },
        }
    }

    fn show_funds(&self, user: &str) -> (r: Result<Funds, LedgerError>) {
        proof {
            use_type_invariant(&*self);
        }
        match self.find(user) {
            None => {
                proof {
                    lemma_pairs_map_absent(self.entries(), user@);
                }
                Err(LedgerError::NotFound)
            },
            Some(i) => {
                proof {
                    lemma_pairs_map_index(self.entries(), i as int);
                }
                Ok(self.accounts[i].funds)
            },
        }
    }
}

} // verus!
