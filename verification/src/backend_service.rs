use vstd::prelude::*;

use crate::backend::{
    apply_funds_op, concluded_auctions, end_time_of, ongoing_auctions, AccountView, Auction,
    AuctionView, Funds, FundsOp, UsersBackend,
};
use crate::backend::auctions_memory_storage::{
    listing_distinct, listing_map, AuctionsMemoryStorage,
};
use crate::backend::users_memory_storage::UsersMemoryStorage;
use crate::errors::LedgerError;

verus! {

/// Whether this account snapshot map lets the auction settle: buyer and
/// seller both exist and differ, the buyer can pay the final price, the
/// seller can receive it without overflow, the seller still holds the
/// item, and the buyer does not.
pub open spec fn settle_ready(m: Map<Seq<char>, AccountView>, a: AuctionView) -> bool {
    match a.buyer {
        None => false,
        Some(b) => {
            &&& m.contains_key(b)
            &&& m.contains_key(a.seller)
            &&& b != a.seller
            &&& m[b].funds >= a.current_price
            &&& m[a.seller].funds + a.current_price <= u32::MAX
            &&& m[a.seller].items.contains(a.item)
            &&& !m[b].items.contains(a.item)
        },
    }
}

/// The accounts after one settlement: the final price moves from buyer
/// to seller and the item moves from seller to buyer; nobody else changes.
pub open spec fn settle_effect(m: Map<Seq<char>, AccountView>, a: AuctionView) -> Map<
    Seq<char>,
    AccountView,
> {
    match a.buyer {
        None => m,
        Some(b) => m.insert(
            b,
            AccountView {
                funds: (m[b].funds - a.current_price) as Funds,
                items: m[b].items.insert(a.item),
            },
        ).insert(
            a.seller,
            AccountView {
                funds: (m[a.seller].funds + a.current_price) as Funds,
                items: m[a.seller].items.remove(a.item),
            },
        ),
    }
}

/// One reaped auction's settlement: applied in full when the accounts
/// allow it, and otherwise not at all.
pub open spec fn settle_step(m: Map<Seq<char>, AccountView>, a: AuctionView) -> Map<
    Seq<char>,
    AccountView,
> {
    if settle_ready(m, a) {
        settle_effect(m, a)
    } else {
        m
    }
}

/// The accounts after a run of settlements, first to last; each one sees
/// the effects of those before it.
pub open spec fn settle_all(m: Map<Seq<char>, AccountView>, l: Seq<AuctionView>) -> Map<
    Seq<char>,
    AccountView,
>
    decreases l.len(),
{
    if l.len() == 0 {
        m
    } else {
        settle_all(settle_step(m, l[0]), l.skip(1))
    }
}

/// How one reaped auction fared in a settlement sweep.
#[derive(Clone, Copy, Debug, PartialEq, Eq, Structural)]
pub enum SettleStatus {
    /// Funds and item were transferred.
    Settled,
    /// Nobody bid; nothing to transfer.
    NoBuyer,
    /// The accounts did not allow the transfer; the auction is kept and
    /// retried on the next sweep.
    Pending,
}

/// What a settlement sweep reports of one reaped auction.
pub struct SettlementOutcome {
    pub auction_id: u64,
    pub auction: Auction,
    pub status: SettleStatus,
}

/// Whether the user is a party to the auction: its seller or its
/// standing highest bidder.
pub open spec fn involves(a: AuctionView, user: Seq<char>) -> bool {
    a.seller == user || a.buyer == Some(user)
}

/// A settlement moves value between the auction's two parties alone:
/// any other account is left exactly as it was.
pub proof fn lemma_settlement_touches_only_the_parties(
    m: Map<Seq<char>, AccountView>,
    a: AuctionView,
    user: Seq<char>,
)
    requires
        user != a.seller,
        a.buyer != Some(user),
    ensures
        settle_step(m, a).contains_key(user) == m.contains_key(user),
        m.contains_key(user) ==> settle_step(m, a)[user] == m[user],
{
}

/// The status a sweep gives an auction against this account map.
pub open spec fn status_of(m: Map<Seq<char>, AccountView>, a: AuctionView) -> SettleStatus {
    if a.buyer is None {
        SettleStatus::NoBuyer
    } else if settle_ready(m, a) {
        SettleStatus::Settled
    } else {
        SettleStatus::Pending
    }
}

/// Whether the inventory listing carries this item name.
fn holds_item(v: &Vec<String>, item: &str) -> (r: bool)
    ensures
        r == v@.map_values(|s: String| s@).to_set().contains(item@),
{
    let ghost names = v@.map_values(|s: String| s@);
    let key = item.to_owned();
    let mut k: usize = 0;
    while k < v.len()
        invariant
            k <= v.len(),
            key@ == item@,
            names == v@.map_values(|s: String| s@),
            forall|j: int| 0 <= j < k ==> names[j] != item@,
        decreases v.len() - k,
    {
        if v[k] == key {
            proof {
                assert(names[k as int] == item@);
                assert(names.contains(item@));
            }
            return true;
        }
        k += 1;
    }
    proof {
        assert(!names.contains(item@));
    }
    false
}

/// Settles one reaped auction against the account ledger if the accounts
/// allow it: all four transfers or none.
fn settle_auction(users: &mut UsersMemoryStorage, auction: &Auction) -> (r: bool)
    ensures
        r == settle_ready(old(users)@, auction@),
        r ==> final(users)@ == settle_effect(old(users)@, auction@),
        !r ==> final(users)@ == old(users)@,
{
    let buyer = match &auction.buyer {
        None => {
            return false;
        },
        Some(b) => b.clone(),
    };
    if buyer == auction.seller {
        return false;
    }
    let buyer_funds = match users.show_funds(buyer.as_str()) {
        Err(_) => {
            return false;
        },
        Ok(f) => f,
    };
    if buyer_funds < auction.current_price {
        return false;
    }
    let seller_funds = match users.show_funds(auction.seller.as_str()) {
        Err(_) => {
            return false;
        },
        Ok(f) => f,
    };
    if auction.current_price > u32::MAX - seller_funds {
        return false;
    }
    let seller_items = match users.list_items(auction.seller.as_str()) {
        Err(_) => {
            return false;
        },
        Ok(v) => v,
    };
    if !holds_item(&seller_items, auction.item.as_str()) {
        return false;
    }
    let buyer_items = match users.list_items(buyer.as_str()) {
        Err(_) => {
            return false;
        },
        Ok(v) => v,
    };
    if holds_item(&buyer_items, auction.item.as_str()) {
        return false;
    }
    let ghost m = users@;
    let r1 = users.withdraw_funds(buyer.as_str(), auction.current_price);
    proof {
        assert(r1 is Ok);
    }
    let r2 = users.deposit_funds(auction.seller.as_str(), auction.current_price);
    proof {
        assert(r2 is Ok);
    }
    let r3 = users.withdraw_item(auction.seller.as_str(), auction.item.as_str());
    proof {
        assert(r3 is Ok);
    }
    let r4 = users.deposit_item(buyer.as_str(), auction.item.as_str());
    proof {
        assert(r4 is Ok);
        assert(users@ =~= settle_effect(m, auction@));
    }
    true
}

/// The request-handling core of the marketplace: the two ledgers and the
/// reaped-but-unsettled auctions awaiting retry. Callers are expected to
/// have been authenticated by the session layer; every operation takes
/// the resolved user name. Locking and transport stay outside.
pub struct BackendService {
    users: UsersMemoryStorage,
    auctions: AuctionsMemoryStorage,
    pending: Vec<(u64, Auction)>,
}

impl BackendService {
    /// The account map the service currently holds.
    pub closed spec fn users_view(self) -> Map<Seq<char>, AccountView> {
        self.users@
    }

    /// The live auction map the service currently holds.
    pub closed spec fn auctions_view(self) -> Map<u64, AuctionView> {
        self.auctions@
    }

    /// The reaped auctions whose settlement is still owed, oldest first.
    pub closed spec fn pending_view(self) -> Seq<(u64, AuctionView)> {
        self.pending@.map_values(|p: (u64, Auction)| (p.0, p.1@))
    }

    /// The next id the auction ledger will allocate.
    pub closed spec fn next_auction_id(self) -> u64 {
        self.auctions.spec_next_id()
    }

    /// Registers an account.
    pub fn add_account(&mut self, user: &str) -> (r: Result<(), LedgerError>)
        ensures
            final(self).auctions_view() == old(self).auctions_view(),
            final(self).pending_view() == old(self).pending_view(),
            ({
                let m = old(self).users_view();
                if m.contains_key(user@) {
                    r == Err::<(), LedgerError>(LedgerError::AlreadyExists) && final(self).users_view() == m
                } else {
                    r == Ok::<(), LedgerError>(()) && final(self).users_view() == m.insert(
                        user@,
                        AccountView { funds: 0, items: Set::empty() },
                    )
                }
            }),
    {
        self.users.add_user(user)
    }

    /// Deposits funds into the caller's account.
    pub fn deposit_funds(&mut self, user: &str, amount: Funds) -> (r: Result<(), LedgerError>)
        ensures
            final(self).auctions_view() == old(self).auctions_view(),
            final(self).pending_view() == old(self).pending_view(),
            ({
                let m = old(self).users_view();
                &&& !m.contains_key(user@) ==> r == Err::<(), LedgerError>(LedgerError::NotFound)
                    && final(self).users_view() == m
                &&& m.contains_key(user@) ==> final(self).users_view() == m.insert(
                    user@,
                    AccountView {
                        funds: apply_funds_op(m[user@].funds, FundsOp::Deposit(amount)),
                        items: m[user@].items,
                    },
                ) && (r is Ok <==> m[user@].funds + amount <= u32::MAX)
            }),
    {
        self.users.deposit_funds(user, amount)
    }

    /// Withdraws funds from the caller's account.
    pub fn withdraw_funds(&mut self, user: &str, amount: Funds) -> (r: Result<(), LedgerError>)
        ensures
            final(self).auctions_view() == old(self).auctions_view(),
            final(self).pending_view() == old(self).pending_view(),
            ({
                let m = old(self).users_view();
                &&& !m.contains_key(user@) ==> r == Err::<(), LedgerError>(LedgerError::NotFound)
                    && final(self).users_view() == m
                &&& m.contains_key(user@) ==> final(self).users_view() == m.insert(
                    user@,
                    AccountView {
                        funds: apply_funds_op(m[user@].funds, FundsOp::Withdraw(amount)),
                        items: m[user@].items,
                    },
                ) && (r is Ok <==> amount <= m[user@].funds)
            }),
    {
        self.users.withdraw_funds(user, amount)
    }

    /// Reports the caller's funds.
    pub fn show_funds(&self, user: &str) -> (r: Result<Funds, LedgerError>)
        ensures
            if self.users_view().contains_key(user@) {
                r == Ok::<Funds, LedgerError>(self.users_view()[user@].funds)
            } else {
                r == Err::<Funds, LedgerError>(LedgerError::NotFound)
            },
    {
        self.users.show_funds(user)
    }

    /// Adds an item to the caller's inventory.
    pub fn deposit_item(&mut self, user: &str, item: &str) -> (r: Result<(), LedgerError>)
        ensures
            final(self).auctions_view() == old(self).auctions_view(),
            final(self).pending_view() == old(self).pending_view(),
            ({
                let m = old(self).users_view();
                &&& !m.contains_key(user@) ==> r == Err::<(), LedgerError>(LedgerError::NotFound)
                    && final(self).users_view() == m
                &&& m.contains_key(user@) && m[user@].items.contains(item@) ==> r == Err::<
                    (),
                    LedgerError,
                >(LedgerError::DuplicateItem) && final(self).users_view() == m
                &&& m.contains_key(user@) && !m[user@].items.contains(item@) ==> r == Ok::<
                    (),
                    LedgerError,
                >(()) && final(self).users_view() == m.insert(
                    user@,
                    AccountView { funds: m[user@].funds, items: m[user@].items.insert(item@) },
                )
            }),
    {
        self.users.deposit_item(user, item)
    }

    /// Removes an item from the caller's inventory.
    pub fn withdraw_item(&mut self, user: &str, item: &str) -> (r: Result<(), LedgerError>)
        ensures
            final(self).auctions_view() == old(self).auctions_view(),
            final(self).pending_view() == old(self).pending_view(),
            ({
                let m = old(self).users_view();
                &&& !m.contains_key(user@) ==> r == Err::<(), LedgerError>(LedgerError::NotFound)
                    && final(self).users_view() == m
                &&& m.contains_key(user@) && !m[user@].items.contains(item@) ==> r == Err::<
                    (),
                    LedgerError,
                >(LedgerError::ItemNotFound) && final(self).users_view() == m
                &&& m.contains_key(user@) && m[user@].items.contains(item@) ==> r == Ok::<
                    (),
                    LedgerError,
                >(()) && final(self).users_view() == m.insert(
                    user@,
                    AccountView { funds: m[user@].funds, items: m[user@].items.remove(item@) },
                )
            }),
    {
        self.users.withdraw_item(user, item)
    }

    /// Lists the caller's items.
    pub fn show_items(&self, user: &str) -> (r: Result<Vec<String>, LedgerError>)
        ensures
            !self.users_view().contains_key(user@) ==> r == Err::<Vec<String>, LedgerError>(
                LedgerError::NotFound,
            ),
            self.users_view().contains_key(user@) ==> r is Ok,
            r matches Ok(v) ==> v@.map_values(|s: String| s@).to_set() == self.users_view()[
                user@
            ].items && v@.map_values(|s: String| s@).no_duplicates(),
    {
        self.users.list_items(user)
    }

    /// Opens an auction for the caller at time `now`. The seller must
    /// have an account; the ledger itself does not check ownership of
    /// the item -- settlement does, when the auction concludes.
    pub fn sell_item(
        &mut self,
        user: &str,
        item: &str,
        starting_price: Funds,
        duration: u64,
        now: u64,
    ) -> (r: Result<u64, LedgerError>)
        ensures
            final(self).users_view() == old(self).users_view(),
            final(self).pending_view() == old(self).pending_view(),
            !old(self).users_view().contains_key(user@) ==> r == Err::<u64, LedgerError>(
                LedgerError::NotFound,
            ) && final(self).auctions_view() == old(self).auctions_view(),
            old(self).users_view().contains_key(user@) && old(self).next_auction_id()
                < u64::MAX ==> (r matches Ok(id) && !old(self).auctions_view().contains_key(id)
                && final(self).auctions_view() == old(self).auctions_view().insert(
                id,
                AuctionView {
                    item: item@,
                    starting_price,
                    current_price: 0,
                    start_time: now,
                    end_time: end_time_of(now, duration),
                    seller: user@,
                    buyer: None,
                },
            )),
            old(self).users_view().contains_key(user@) && old(self).next_auction_id()
                == u64::MAX ==> r == Err::<u64, LedgerError>(LedgerError::Internal) && final(self).auctions_view() == old(self).auctions_view(),
    {
        if self.users.show_funds(user).is_err() {
            return Err(LedgerError::NotFound);
        }
        self.auctions.add_auction(Auction::new(item, starting_price, duration, user, now))
    }

    /// Places the caller's bid at time `now`. The bidder must have an
    /// account; the ledger does not reserve the bidder's funds --
    /// sufficiency is checked at settlement.
    pub fn bid_item(&mut self, user: &str, auction_id: u64, amount: Funds, now: u64) -> (r:
        Result<(), LedgerError>)
        ensures
            final(self).users_view() == old(self).users_view(),
            final(self).pending_view() == old(self).pending_view(),
            !old(self).users_view().contains_key(user@) ==> r == Err::<(), LedgerError>(
                LedgerError::NotFound,
            ) && final(self).auctions_view() == old(self).auctions_view(),
            old(self).users_view().contains_key(user@)
                && !old(self).auctions_view().contains_key(auction_id) ==> r == Err::<
                (),
                LedgerError,
            >(LedgerError::NotFound) && final(self).auctions_view() == old(self).auctions_view(),
            old(self).users_view().contains_key(user@) && old(self).auctions_view().contains_key(
                auction_id,
            ) ==> match crate::backend::bid_outcome(
                old(self).auctions_view()[auction_id],
                user@,
                amount,
                now,
            ) {
                Ok(b) => r == Ok::<(), LedgerError>(()) && final(self).auctions_view() == old(self).auctions_view().insert(auction_id, b),
                Err(e) => r == Err::<(), LedgerError>(e) && final(self).auctions_view() == old(self).auctions_view(),
            },
    {
        if self.users.show_funds(user).is_err() {
            return Err(LedgerError::NotFound);
        }
        self.auctions.bid_auction(auction_id, user, amount, now)
    }

    /// Removes a still-running auction at time `now` and returns it.
    pub fn close_auction(&mut self, auction_id: u64, now: u64) -> (r: Result<Auction, LedgerError>)
        ensures
            final(self).users_view() == old(self).users_view(),
            final(self).pending_view() == old(self).pending_view(),
            !old(self).auctions_view().contains_key(auction_id) ==> r == Err::<
                Auction,
                LedgerError,
            >(LedgerError::NotFound) && final(self).auctions_view() == old(self).auctions_view(),
            old(self).auctions_view().contains_key(auction_id) && now > old(self).auctions_view()[
                auction_id
            ].end_time ==> r == Err::<Auction, LedgerError>(LedgerError::Concluded) && final(self).auctions_view() == old(self).auctions_view(),
            old(self).auctions_view().contains_key(auction_id) && now <= old(self).auctions_view()[auction_id].end_time ==> (r matches Ok(a) && a@ == old(self).auctions_view()[auction_id] && final(self).auctions_view() == old(self).auctions_view().remove(auction_id)),
    {
        self.auctions.close_auction(auction_id, now)
    }

    /// Snapshots every auction still running at time `now`.
    pub fn list_auctions(&self, now: u64) -> (r: Result<Vec<(u64, Auction)>, LedgerError>)
        ensures
            r is Ok,
            r matches Ok(v) ==> listing_map(v@) == ongoing_auctions(self.auctions_view(), now)
                && listing_distinct(v@),
    {
        self.auctions.list_ongoing_auctions(now)
    }

    /// Sweeps the auction table at time `now`: every concluded auction
    /// leaves the table, the sweep before this one's unsettled leftovers
    /// are retried first, and each reaped auction is settled in full or
    /// reported. The report lists every auction the sweep handled, in
    /// the order their settlements were applied; the ones still owed
    /// stay queued for the next sweep.
    pub fn reap_and_settle(&mut self, now: u64) -> (r: Vec<SettlementOutcome>)
        ensures
            final(self).auctions_view() == ongoing_auctions(old(self).auctions_view(), now),
            r@.len() >= old(self).pending_view().len(),
            forall|j: int|
                0 <= j < old(self).pending_view().len() ==> ((#[trigger] r@[j]).auction_id,
                r@[j].auction@) == old(self).pending_view()[j],
            listing_map(
                r@.skip(old(self).pending_view().len() as int).map_values(
                    |o: SettlementOutcome| (o.auction_id, o.auction),
                ),
            ) == concluded_auctions(old(self).auctions_view(), now),
            final(self).users_view() == settle_all(
                old(self).users_view(),
                r@.map_values(|o: SettlementOutcome| o.auction@),
            ),
            forall|j: int|
                0 <= j < r@.len() ==> (#[trigger] r@[j]).status == status_of(
                    settle_all(
                        old(self).users_view(),
                        r@.map_values(|o: SettlementOutcome| o.auction@).take(j),
                    ),
                    r@[j].auction@,
                ),
            final(self).pending_view() == r@.filter(
                |o: SettlementOutcome| o.status == SettleStatus::Pending,
            ).map_values(|o: SettlementOutcome| (o.auction_id, o.auction@)),
    {
        let ghost musers = self.users@;
        let mut work: Vec<(u64, Auction)> = Vec::new();
        std::mem::swap(&mut work, &mut self.pending);
        let mut popped = self.auctions.pop_concluded_auctions(now).unwrap();
        let ghost gpend = old(self).pending_view();
        let ghost gpopped = popped@;
        work.append(&mut popped);
        let ghost gauctions = self.auctions@;
        let mut outcomes: Vec<SettlementOutcome> = Vec::new();
        let mut still_pending: Vec<(u64, Auction)> = Vec::new();
        let mut i: usize = 0;
        proof {
            assert(outcomes@.map_values(|o: SettlementOutcome| o.auction@) =~= Seq::<
                AuctionView,
            >::empty());
            assert(outcomes@.filter(|o: SettlementOutcome| o.status == SettleStatus::Pending)
                =~= Seq::<SettlementOutcome>::empty());
            assert(still_pending@.map_values(|p: (u64, Auction)| (p.0, p.1@)) =~= Seq::<
                (u64, AuctionView),
            >::empty());
        }
        while i < work.len()
            invariant
                i <= work.len(),
                self.auctions@ == gauctions,
                outcomes@.len() == i,
                forall|j: int|
                    0 <= j < i ==> ((#[trigger] outcomes@[j]).auction_id, outcomes@[j].auction@)
                        == (work@[j].0, work@[j].1@),
                self.users@ == settle_all(
                    musers,
                    outcomes@.map_values(|o: SettlementOutcome| o.auction@),
                ),
                forall|j: int|
                    0 <= j < i ==> (#[trigger] outcomes@[j]).status == status_of(
                        settle_all(
                            musers,
                            outcomes@.map_values(|o: SettlementOutcome| o.auction@).take(j),
                        ),
                        outcomes@[j].auction@,
                    ),
                still_pending@.map_values(|p: (u64, Auction)| (p.0, p.1@)) == outcomes@.filter(
                    |o: SettlementOutcome| o.status == SettleStatus::Pending,
                ).map_values(|o: SettlementOutcome| (o.auction_id, o.auction@)),
            decreases work.len() - i,
        {
            let ghost out0 = outcomes@;
            let ghost sp0 = still_pending@;
            let ghost mcur = self.users@;
            let entry_id = work[i].0;
            let auction = work[i].1.snapshot();
            let has_buyer = match &auction.buyer {
                Some(_) => true,
                None => false,
            };
            let status;
            if !has_buyer {
                status = SettleStatus::NoBuyer;
            } else {
                let done = settle_auction(&mut self.users, &auction);
                status = if done {
                    SettleStatus::Settled
                } else {
                    SettleStatus::Pending
                };
            }
            let keep = match status {
                SettleStatus::Pending => true,
                _ => false,
            };
            if keep {
                still_pending.push((entry_id, auction.snapshot()));
            }
            outcomes.push(SettlementOutcome { auction_id: entry_id, auction, status });
            proof {
                assert(outcomes@.drop_last() =~= out0);
                assert(outcomes@.map_values(|o: SettlementOutcome| o.auction@) =~= out0
                    .map_values(|o: SettlementOutcome| o.auction@).push(work@[i as int].1@));
                assert(outcomes@.map_values(|o: SettlementOutcome| o.auction@).take(i as int)
                    =~= out0.map_values(|o: SettlementOutcome| o.auction@));
                lemma_settle_all_push(
                    musers,
                    out0.map_values(|o: SettlementOutcome| o.auction@),
                    work@[i as int].1@,
                );
                assert(outcomes@ =~= out0.push(outcomes@.last()));
                out0.lemma_filter_push(
                    outcomes@.last(),
                    |o: SettlementOutcome| o.status == SettleStatus::Pending,
                );
                if keep {
                    assert(outcomes@.filter(
                        |o: SettlementOutcome| o.status == SettleStatus::Pending,
                    ).map_values(|o: SettlementOutcome| (o.auction_id, o.auction@)) =~= out0
                        .filter(|o: SettlementOutcome| o.status == SettleStatus::Pending)
                        .map_values(|o: SettlementOutcome| (o.auction_id, o.auction@)).push(
                        (outcomes@.last().auction_id, outcomes@.last().auction@),
                    ));
                    assert(still_pending@ =~= sp0.push(still_pending@.last()));
                    assert(still_pending@.map_values(|p: (u64, Auction)| (p.0, p.1@)) =~= sp0
                        .map_values(|p: (u64, Auction)| (p.0, p.1@)).push(
                        (still_pending@.last().0, still_pending@.last().1@),
                    ));
                    assert(still_pending@.last().1@ == outcomes@.last().auction@);
                } else {
                    assert(outcomes@.filter(
                        |o: SettlementOutcome| o.status == SettleStatus::Pending,
                    ) == out0.filter(|o: SettlementOutcome| o.status == SettleStatus::Pending));
                }
                assert(still_pending@.map_values(|p: (u64, Auction)| (p.0, p.1@)) =~= outcomes@
                    .filter(|o: SettlementOutcome| o.status == SettleStatus::Pending).map_values(
                    |o: SettlementOutcome| (o.auction_id, o.auction@),
                ));
                assert forall|j: int| 0 <= j < i implies outcomes@.map_values(
                    |o: SettlementOutcome| o.auction@,
                ).take(#[trigger] (j + 0)) =~= out0.map_values(
                    |o: SettlementOutcome| o.auction@,
                ).take(j) by {
                }
            }
            i += 1;
        }
        self.pending = still_pending;
        proof {
            assert(forall|j: int|
                0 <= j < gpend.len() ==> gpend[j] == ((#[trigger] work@[j]).0, work@[j].1@));
            assert(work@.skip(gpend.len() as int) =~= gpopped);
            assert(outcomes@.skip(gpend.len() as int).map_values(
                |o: SettlementOutcome| (o.auction_id, o.auction),
            ).map_values(|p: (u64, Auction)| (p.0, p.1@)) =~= gpopped.map_values(
                |p: (u64, Auction)| (p.0, p.1@),
            ));
        }
        outcomes
    }

    /// The caller's view of the marketplace at `now`: every ongoing
    /// auction and every reaped-but-unsettled auction where the caller
    /// is the seller or the standing highest bidder. Ongoing auctions
    /// come first, in some listing order; the unsettled ones follow in
    /// their queue order.
    pub fn watch_user_auctions(&self, user: &str, now: u64) -> (r: Vec<(u64, Auction)>)
        ensures
            exists|og: Seq<(u64, AuctionView)>|
                #[trigger] crate::table::pairs_map(og) == ongoing_auctions(
                    self.auctions_view(),
                    now,
                ) && crate::table::keys_distinct(og) && r@.map_values(
                    |p: (u64, Auction)| (p.0, p.1@),
                ) == og.filter(|p: (u64, AuctionView)| involves(p.1, user@))
                    + self.pending_view().filter(|p: (u64, AuctionView)| involves(p.1, user@)),
    {
        let listing = self.auctions.list_ongoing_auctions(now).unwrap();
        let ghost og = listing@.map_values(|p: (u64, Auction)| (p.0, p.1@));
        let mut r: Vec<(u64, Auction)> = Vec::new();
        proof {
            assert(r@.map_values(|p: (u64, Auction)| (p.0, p.1@)) =~= og.take(0).filter(
                |p: (u64, AuctionView)| involves(p.1, user@),
            ));
        }
        let mut i: usize = 0;
        while i < listing.len()
            invariant
                i <= listing.len(),
                og == listing@.map_values(|p: (u64, Auction)| (p.0, p.1@)),
                r@.map_values(|p: (u64, Auction)| (p.0, p.1@)) == og.take(i as int).filter(
                    |p: (u64, AuctionView)| involves(p.1, user@),
                ),
            decreases listing.len() - i,
        {
            let ghost r0 = r@;
            if is_party(&listing[i].1, user) {
                r.push((listing[i].0, listing[i].1.snapshot()));
                proof {
                    assert(r@.map_values(|p: (u64, Auction)| (p.0, p.1@)) =~= r0.map_values(
                        |p: (u64, Auction)| (p.0, p.1@),
                    ).push(og[i as int]));
                }
            }
            proof {
                assert(og.take(i as int + 1) =~= og.take(i as int).push(og[i as int]));
                og.take(i as int).lemma_filter_push(
                    og[i as int],
                    |p: (u64, AuctionView)| involves(p.1, user@),
                );
            }
            i += 1;
        }
        proof {
            assert(og.take(listing@.len() as int) =~= og);
        }
        let ghost pv = self.pending_view();
        let ghost mid = r@.map_values(|p: (u64, Auction)| (p.0, p.1@));
        let mut j: usize = 0;
        proof {
            assert(mid + pv.take(0).filter(|p: (u64, AuctionView)| involves(p.1, user@)) =~= mid);
        }
        while j < self.pending.len()
            invariant
                j <= self.pending.len(),
                pv == self.pending_view(),
                mid == og.filter(|p: (u64, AuctionView)| involves(p.1, user@)),
                r@.map_values(|p: (u64, Auction)| (p.0, p.1@)) == mid + pv.take(j as int).filter(
                    |p: (u64, AuctionView)| involves(p.1, user@),
                ),
            decreases self.pending.len() - j,
        {
            let ghost r0 = r@;
            if is_party(&self.pending[j].1, user) {
                r.push((self.pending[j].0, self.pending[j].1.snapshot()));
                proof {
                    assert(r@.map_values(|p: (u64, Auction)| (p.0, p.1@)) =~= r0.map_values(
                        |p: (u64, Auction)| (p.0, p.1@),
                    ).push(pv[j as int]));
                }
            }
            proof {
                assert(pv.take(j as int + 1) =~= pv.take(j as int).push(pv[j as int]));
                pv.take(j as int).lemma_filter_push(
                    pv[j as int],
                    |p: (u64, AuctionView)| involves(p.1, user@),
                );
                assert(mid + pv.take(j as int).filter(
                    |p: (u64, AuctionView)| involves(p.1, user@),
                ).push(pv[j as int]) =~= (mid + pv.take(j as int).filter(
                    |p: (u64, AuctionView)| involves(p.1, user@),
                )).push(pv[j as int]));
            }
            j += 1;
        }
        proof {
            assert(pv.take(self.pending@.len() as int) =~= pv);
            assert(crate::table::pairs_map(og) == ongoing_auctions(self.auctions_view(), now));
        }
        r
    }

    /// The reaped auctions whose settlement is still owed, for the watch
    /// streams' "settlement pending" indicator.
    pub fn pending_settlements(&self) -> (r: Vec<(u64, Auction)>)
        ensures
            r@.map_values(|p: (u64, Auction)| (p.0, p.1@)) == self.pending_view(),
    {
        let mut r: Vec<(u64, Auction)> = Vec::new();
        let mut i: usize = 0;
        proof {
            assert(r@.map_values(|p: (u64, Auction)| (p.0, p.1@)) =~= self.pending_view().take(
                0,
            ));
        }
        while i < self.pending.len()
            invariant
                i <= self.pending.len(),
                r@.len() == i,
                r@.map_values(|p: (u64, Auction)| (p.0, p.1@)) == self.pending_view().take(
                    i as int,
                ),
            decreases self.pending.len() - i,
        {
            let ghost r0 = r@;
            r.push((self.pending[i].0, self.pending[i].1.snapshot()));
            proof {
                assert(r@.map_values(|p: (u64, Auction)| (p.0, p.1@)) =~= r0.map_values(
                    |p: (u64, Auction)| (p.0, p.1@),
                ).push(self.pending_view()[i as int]));
                assert(self.pending_view().take(i as int).push(self.pending_view()[i as int])
                    =~= self.pending_view().take(i as int + 1));
            }
            i += 1;
        }
        proof {
            assert(self.pending_view().take(self.pending@.len() as int) =~= self.pending_view());
        }
        r
    }
}

/// Whether the user is a party to the auction, checked on the stored value.
fn is_party(a: &Auction, user: &str) -> (r: bool)
    ensures
        r == involves(a@, user@),
{
    let key = user.to_owned();
    if a.seller == key {
        return true;
    }
    match &a.buyer {
        Some(b) => *b == key,
        None => false,
    }
}

/// Appending one auction to a settlement run settles it last, against
/// the accounts the run has produced.
proof fn lemma_settle_all_push(m: Map<Seq<char>, AccountView>, l: Seq<AuctionView>, a: AuctionView)
    ensures
        settle_all(m, l.push(a)) == settle_step(settle_all(m, l), a),
    decreases l.len(),
{
    if l.len() == 0 {
        assert(l.push(a)[0] == a);
        assert(l.push(a).skip(1) =~= Seq::<AuctionView>::empty());
        assert(settle_all(settle_step(m, a), Seq::<AuctionView>::empty()) == settle_step(m, a));
    } else {
        assert(l.push(a)[0] == l[0]);
        assert(l.push(a).skip(1) =~= l.skip(1).push(a));
        lemma_settle_all_push(settle_step(m, l[0]), l.skip(1), a);
    }
}

impl Default for BackendService {
    /// A service over empty ledgers.
    fn default() -> (r: BackendService)
        ensures
            r.users_view() == Map::<Seq<char>, AccountView>::empty(),
            r.auctions_view() == Map::<u64, AuctionView>::empty(),
            r.pending_view() == Seq::<(u64, AuctionView)>::empty(),
    {
        let r = BackendService {
            users: UsersMemoryStorage::default(),
            auctions: AuctionsMemoryStorage::default(),
            pending: Vec::new(),
        };
        proof {
            assert(r.pending_view() =~= Seq::<(u64, AuctionView)>::empty());
        }
        r
    }
}

} // verus!
