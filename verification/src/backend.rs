use vstd::prelude::*;

pub mod auctions_memory_storage;
pub mod users_memory_storage;

use crate::errors::LedgerError;

verus! {

/// The single unsigned-integer fund unit used throughout the marketplace.
pub type Funds = u32;

/// Mathematical snapshot of one account: its funds and the set of item
/// names it holds.
pub ghost struct AccountView {
    pub funds: Funds,
    pub items: Set<Seq<char>>,
}

/// One funds mutation, as the account ledger applies it.
pub enum FundsOp {
    Deposit(Funds),
    Withdraw(Funds),
}

/// The balance after one funds operation; a rejected operation (overflow,
/// insufficient funds) leaves the balance unchanged.
pub open spec fn apply_funds_op(funds: Funds, op: FundsOp) -> Funds {
    match op {
        FundsOp::Deposit(amount) => if funds + amount > u32::MAX {
            funds
        } else {
            (funds + amount) as Funds
        },
        FundsOp::Withdraw(amount) => if amount > funds {
            funds
        } else {
            (funds - amount) as Funds
        },
    }
}

/// Operations every account-ledger backend offers. A backend is a finite
/// map from account name to account snapshot, and each operation pins the
/// new map and the exact error it reports.
pub trait UsersBackend: View<V = Map<Seq<char>, AccountView>> + Sized {
    /// Adds a new account with zero funds and no items; rejects a name that
    /// is already taken.
    fn add_user(&mut self, user: &str) -> (r: Result<(), LedgerError>)
        ensures
            ({
                let m = old(self)@;
                if m.contains_key(user@) {
                    r == Err::<(), LedgerError>(LedgerError::AlreadyExists) && final(self)@ == m
                } else {
                    r == Ok::<(), LedgerError>(()) && final(self)@ == m.insert(
                        user@,
                        AccountView { funds: 0, items: Set::empty() },
                    )
                }
            }),
    ;

    /// Adds `amount` to the account's funds; rejects an unknown account and
    /// a deposit that would push the balance past the representable maximum,
    /// leaving the ledger unchanged in both cases.
    fn deposit_funds(&mut self, user: &str, amount: Funds) -> (r: Result<(), LedgerError>)
        ensures
            ({
                let m = old(self)@;
                &&& !m.contains_key(user@) ==> r == Err::<(), LedgerError>(LedgerError::NotFound)
                    && final(self)@ == m
                &&& m.contains_key(user@) ==> {
                    &&& final(self)@ == m.insert(
                        user@,
                        AccountView {
                            funds: apply_funds_op(m[user@].funds, FundsOp::Deposit(amount)),
                            items: m[user@].items,
                        },
                    )
                    &&& m[user@].funds + amount > u32::MAX ==> r == Err::<(), LedgerError>(
                        LedgerError::Overflow,
                    )
                    &&& m[user@].funds + amount <= u32::MAX ==> r == Ok::<(), LedgerError>(())
                }
            }),
    ;

    /// Subtracts `amount` from the account's funds; rejects an unknown
    /// account and a withdrawal beyond the balance, leaving the ledger
    /// unchanged in both cases.
    fn withdraw_funds(&mut self, user: &str, amount: Funds) -> (r: Result<(), LedgerError>)
        ensures
            ({
                let m = old(self)@;
                &&& !m.contains_key(user@) ==> r == Err::<(), LedgerError>(LedgerError::NotFound)
                    && final(self)@ == m
                &&& m.contains_key(user@) ==> {
                    &&& final(self)@ == m.insert(
                        user@,
                        AccountView {
                            funds: apply_funds_op(m[user@].funds, FundsOp::Withdraw(amount)),
                            items: m[user@].items,
                        },
                    )
                    &&& amount > m[user@].funds ==> r == Err::<(), LedgerError>(
                        LedgerError::InsufficientFunds,
                    )
                    &&& amount <= m[user@].funds ==> r == Ok::<(), LedgerError>(())
                }
            }),
    ;

    /// Adds an item name to the account's inventory; rejects an unknown
    /// account and an item the account already holds.
    fn deposit_item(&mut self, user: &str, item: &str) -> (r: Result<(), LedgerError>)
        ensures
            ({
                let m = old(self)@;
                &&& !m.contains_key(user@) ==> r == Err::<(), LedgerError>(LedgerError::NotFound)
                    && final(self)@ == m
                &&& m.contains_key(user@) && m[user@].items.contains(item@) ==> r == Err::<
                    (),
                    LedgerError,
                >(LedgerError::DuplicateItem) && final(self)@ == m
                &&& m.contains_key(user@) && !m[user@].items.contains(item@) ==> r == Ok::<
                    (),
                    LedgerError,
                >(()) && final(self)@ == m.insert(
                    user@,
                    AccountView { funds: m[user@].funds, items: m[user@].items.insert(item@) },
                )
            }),
    ;

    /// Removes an item name from the account's inventory; rejects an unknown
    /// account and an item the account does not hold.
    fn withdraw_item(&mut self, user: &str, item: &str) -> (r: Result<(), LedgerError>)
        ensures
            ({
                let m = old(self)@;
                &&& !m.contains_key(user@) ==> r == Err::<(), LedgerError>(LedgerError::NotFound)
                    && final(self)@ == m
                &&& m.contains_key(user@) && !m[user@].items.contains(item@) ==> r == Err::<
                    (),
                    LedgerError,
                >(LedgerError::ItemNotFound) && final(self)@ == m
                &&& m.contains_key(user@) && m[user@].items.contains(item@) ==> r == Ok::<
                    (),
                    LedgerError,
                >(()) && final(self)@ == m.insert(
                    user@,
                    AccountView { funds: m[user@].funds, items: m[user@].items.remove(item@) },
                )
            }),
    ;

    /// Lists the account's items: each item name exactly once, in some
    /// order; rejects an unknown account.
    fn list_items(&self, user: &str) -> (r: Result<Vec<String>, LedgerError>)
        ensures
            !self@.contains_key(user@) ==> r == Err::<Vec<String>, LedgerError>(
                LedgerError::NotFound,
            ),
            self@.contains_key(user@) ==> r is Ok,
            r matches Ok(v) ==> v@.map_values(|s: String| s@).to_set() == self@[user@].items
                && v@.map_values(|s: String| s@).no_duplicates(),
    ;

    /// Reports the account's funds; rejects an unknown account.
    fn show_funds(&self, user: &str) -> (r: Result<Funds, LedgerError>)
        ensures
            if self@.contains_key(user@) {
                r == Ok::<Funds, LedgerError>(self@[user@].funds)
            } else {
                r == Err::<Funds, LedgerError>(LedgerError::NotFound)
            },
    ;
}

/// Mathematical snapshot of one auction.
pub ghost struct AuctionView {
    pub item: Seq<char>,
    pub starting_price: Funds,
    pub current_price: Funds,
    pub start_time: u64,
    pub end_time: u64,
    pub seller: Seq<char>,
    pub buyer: Option<Seq<char>>,
}

/// When an auction opened at `now` with this duration closes; a duration
/// that would pass the largest representable time saturates there.
pub open spec fn end_time_of(now: u64, duration: u64) -> u64 {
    if duration > u64::MAX - now {
        u64::MAX
    } else {
        (now + duration) as u64
    }
}

/// What one bid does to one auction at time `now`: the checks in order,
/// then the new snapshot with the raised price and the new highest bidder.
pub open spec fn bid_outcome(
    a: AuctionView,
    bidder: Seq<char>,
    amount: Funds,
    now: u64,
) -> Result<AuctionView, LedgerError> {
    if now > a.end_time {
        Err(LedgerError::Concluded)
    } else if bidder == a.seller {
        Err(LedgerError::SellerCannotBid)
    } else if a.buyer == Some(bidder) {
        Err(LedgerError::AlreadyHighestBidder)
    } else if amount <= a.current_price {
        Err(LedgerError::BidTooLow)
    } else {
        Ok(AuctionView { current_price: amount, buyer: Some(bidder), ..a })
    }
}

/// The auctions still running at `now`: end time strictly in the future.
pub open spec fn ongoing_auctions(m: Map<u64, AuctionView>, now: u64) -> Map<u64, AuctionView> {
    Map::new(|id: u64| m.contains_key(id) && m[id].end_time > now, |id: u64| m[id])
}

/// The auctions whose end time has been reached at `now`.
pub open spec fn concluded_auctions(m: Map<u64, AuctionView>, now: u64) -> Map<u64, AuctionView> {
    Map::new(|id: u64| m.contains_key(id) && m[id].end_time <= now, |id: u64| m[id])
}

/// Adding a fresh auction extends exactly one side of the
/// ongoing/concluded partition, depending on its end time.
pub proof fn lemma_partition_insert(m: Map<u64, AuctionView>, k: u64, a: AuctionView, now: u64)
    requires
        !m.contains_key(k),
    ensures
        a.end_time > now ==> ongoing_auctions(m.insert(k, a), now) == ongoing_auctions(m, now).insert(k, a),
        a.end_time > now ==> concluded_auctions(m.insert(k, a), now) == concluded_auctions(m, now),
        a.end_time <= now ==> concluded_auctions(m.insert(k, a), now) == concluded_auctions(m, now).insert(k, a),
        a.end_time <= now ==> ongoing_auctions(m.insert(k, a), now) == ongoing_auctions(m, now),
{
    if a.end_time > now {
        assert(ongoing_auctions(m.insert(k, a), now) =~= ongoing_auctions(m, now).insert(k, a));
        assert(concluded_auctions(m.insert(k, a), now) =~= concluded_auctions(m, now));
    } else {
        assert(concluded_auctions(m.insert(k, a), now) =~= concluded_auctions(m, now).insert(k, a));
        assert(ongoing_auctions(m.insert(k, a), now) =~= ongoing_auctions(m, now));
    }
}

/// An accepted bid strictly raises the price, so the price never
/// decreases, and a bid at (or below) the standing price is never
/// accepted -- ties lose.
pub proof fn lemma_bid_raises_price(a: AuctionView, bidder: Seq<char>, amount: Funds, now: u64)
    ensures
        bid_outcome(a, bidder, amount, now) matches Ok(b) ==> b.current_price == amount
            && b.current_price > a.current_price,
        amount <= a.current_price ==> !(bid_outcome(a, bidder, amount, now) is Ok),
{
}

/// The auction after a run of bid attempts, first to last; a rejected
/// bid leaves it as it was.
pub open spec fn auction_after(a: AuctionView, bids: Seq<(Seq<char>, Funds, u64)>) -> AuctionView
    decreases bids.len(),
{
    if bids.len() == 0 {
        a
    } else {
        let next = match bid_outcome(a, bids[0].0, bids[0].1, bids[0].2) {
            Ok(b) => b,
            Err(_) => a,
        };
        auction_after(next, bids.skip(1))
    }
}

/// Across any run of bid attempts the price never goes down, the item,
/// seller and times never change, and an auction whose buyer is not its
/// seller never gains the seller as buyer.
pub proof fn lemma_bids_monotonic(a: AuctionView, bids: Seq<(Seq<char>, Funds, u64)>)
    ensures
        auction_after(a, bids).current_price >= a.current_price,
        auction_after(a, bids).item == a.item,
        auction_after(a, bids).seller == a.seller,
        auction_after(a, bids).starting_price == a.starting_price,
        auction_after(a, bids).start_time == a.start_time,
        auction_after(a, bids).end_time == a.end_time,
        a.buyer != Some(a.seller) ==> auction_after(a, bids).buyer != Some(a.seller),
    decreases bids.len(),
{
    if bids.len() > 0 {
        let next = match bid_outcome(a, bids[0].0, bids[0].1, bids[0].2) {
            Ok(b) => b,
            Err(_) => a,
        };
        lemma_bids_monotonic(next, bids.skip(1));
    }
}

/// The seller can never become the buyer: a bid by the seller fails
/// whatever the amount, and an accepted bid never installs the seller.
pub proof fn lemma_seller_never_buyer(a: AuctionView, bidder: Seq<char>, amount: Funds, now: u64)
    ensures
        !(bid_outcome(a, a.seller, amount, now) is Ok),
        bid_outcome(a, a.seller, amount, now) matches Err(e) ==> e == LedgerError::Concluded
            || e == LedgerError::SellerCannotBid,
        bid_outcome(a, bidder, amount, now) matches Ok(b) ==> b.seller == a.seller
            && b.buyer != Some(b.seller),
{
}

/// The standing highest bidder cannot raise their own bid: it fails
/// whatever the amount.
pub proof fn lemma_highest_bidder_cannot_rebid(a: AuctionView, amount: Funds, now: u64)
    ensures
        a.buyer matches Some(b) ==> !(bid_outcome(a, b, amount, now) is Ok),
        a.buyer matches Some(b) ==> b != a.seller ==> now <= a.end_time ==> bid_outcome(
            a,
            b,
            amount,
            now,
        ) == Err::<AuctionView, LedgerError>(LedgerError::AlreadyHighestBidder),
{
}

/// Once its end time has passed, an auction takes no bid, drops out of
/// the ongoing view, and waits in the concluded part until reaped.
pub proof fn lemma_expired_auction_only_reapable(
    m: Map<u64, AuctionView>,
    id: u64,
    bidder: Seq<char>,
    amount: Funds,
    now: u64,
)
    requires
        m.contains_key(id),
        now > m[id].end_time,
    ensures
        bid_outcome(m[id], bidder, amount, now) == Err::<AuctionView, LedgerError>(
            LedgerError::Concluded,
        ),
        !ongoing_auctions(m, now).contains_key(id),
        concluded_auctions(m, now).contains_key(id) && concluded_auctions(m, now)[id] == m[id],
{
}

/// Reaping is idempotent: one sweep hands every concluded auction out
/// exactly once, and a second sweep at the same time finds nothing and
/// changes nothing.
pub proof fn lemma_reap_idempotent(m: Map<u64, AuctionView>, now: u64)
    ensures
        concluded_auctions(ongoing_auctions(m, now), now) == Map::<u64, AuctionView>::empty(),
        ongoing_auctions(ongoing_auctions(m, now), now) == ongoing_auctions(m, now),
{
    assert(concluded_auctions(ongoing_auctions(m, now), now) =~= Map::<u64, AuctionView>::empty());
    assert(ongoing_auctions(ongoing_auctions(m, now), now) =~= ongoing_auctions(m, now));
}

/// An auction listing: funds, items, times and parties of one sale.
#[derive(Clone, PartialEq, Debug)]
pub struct Auction {
    pub item: String,
    pub starting_price: Funds,
    pub current_price: Funds,
    pub start_time: u64,
    pub end_time: u64,
    pub seller: String,
    pub buyer: Option<String>,
}

impl View for Auction {
    type V = AuctionView;

    open spec fn view(&self) -> AuctionView {
        AuctionView {
            item: self.item@,
            starting_price: self.starting_price,
            current_price: self.current_price,
            start_time: self.start_time,
            end_time: self.end_time,
            seller: self.seller@,
            buyer: match self.buyer {
                Some(b) => Some(b@),
                None => None,
            },
        }
    }
}

impl Auction {
    /// A fresh, unbid auction opened at `now` for `duration` seconds.
    pub fn new(item: &str, starting_price: Funds, duration: u64, seller: &str, now: u64) -> (a:
        Auction)
        ensures
            a@ == (AuctionView {
                item: item@,
                starting_price,
                current_price: 0,
                start_time: now,
                end_time: end_time_of(now, duration),
                seller: seller@,
                buyer: None,
            }),
    {
        let end_time = if duration > u64::MAX - now {
            u64::MAX
        } else {
            now + duration
        };
        Auction {
            item: item.to_owned(),
            starting_price,
            current_price: 0,
            start_time: now,
            end_time,
            seller: seller.to_owned(),
            buyer: None,
        }
    }

    /// A copy of this auction, field for field.
    pub fn snapshot(&self) -> (a: Auction)
        ensures
            a@ == self@,
    {
        Auction {
            item: String::from_str(self.item.as_str()),
            starting_price: self.starting_price,
            current_price: self.current_price,
            start_time: self.start_time,
            end_time: self.end_time,
            seller: String::from_str(self.seller.as_str()),
            buyer: match &self.buyer {
                Some(b) => Some(String::from_str(b.as_str())),
                None => None,
            },
        }
    }
}

/// Operations every auction-ledger backend offers. The concrete
/// in-memory backend states the exact contract of each operation over
/// its map view; see `AuctionsMemoryStorage`.
pub trait AuctionsBackend: Sized {
    type AuctionId;

    /// Stores a new auction and hands back its freshly allocated id.
    fn add_auction(&mut self, auction: Auction) -> Result<Self::AuctionId, LedgerError>;

    /// Places a bid at time `now`.
    fn bid_auction(
        &mut self,
        auction_id: Self::AuctionId,
        bidder: &str,
        amount: Funds,
        now: u64,
    ) -> Result<(), LedgerError>;

    /// Removes a still-running auction at time `now` and returns it.
    fn close_auction(&mut self, auction_id: Self::AuctionId, now: u64) -> Result<
        Auction,
        LedgerError,
    >;

    /// Snapshots every auction still running at time `now`.
    fn list_ongoing_auctions(&self, now: u64) -> Result<Vec<(Self::AuctionId, Auction)>, LedgerError>;

    /// Removes and returns every auction concluded by time `now`.
    fn pop_concluded_auctions(&mut self, now: u64) -> Result<
        Vec<(Self::AuctionId, Auction)>,
        LedgerError,
    >;
}

/// The running balance after a sequence of funds operations, first to last.
pub open spec fn funds_after(funds: Funds, ops: Seq<FundsOp>) -> Funds
    decreases ops.len(),
{
    if ops.len() == 0 {
        funds
    } else {
        funds_after(apply_funds_op(funds, ops[0]), ops.skip(1))
    }
}

/// The total of the deposits accepted when the operations run from this
/// starting balance; a rejected deposit counts for nothing.
pub open spec fn accepted_deposits(funds: Funds, ops: Seq<FundsOp>) -> int
    decreases ops.len(),
{
    if ops.len() == 0 {
        0
    } else {
        (match ops[0] {
            FundsOp::Deposit(amount) => if funds + amount > u32::MAX {
                0
            } else {
                amount as int
            },
            FundsOp::Withdraw(_) => 0,
        }) + accepted_deposits(apply_funds_op(funds, ops[0]), ops.skip(1))
    }
}

/// The total of the withdrawals accepted when the operations run from
/// this starting balance; a rejected withdrawal counts for nothing.
pub open spec fn accepted_withdrawals(funds: Funds, ops: Seq<FundsOp>) -> int
    decreases ops.len(),
{
    if ops.len() == 0 {
        0
    } else {
        (match ops[0] {
            FundsOp::Deposit(_) => 0,
            FundsOp::Withdraw(amount) => if amount > funds {
                0
            } else {
                amount as int
            },
        }) + accepted_withdrawals(apply_funds_op(funds, ops[0]), ops.skip(1))
    }
}

/// Bookkeeping law: after any sequence of deposits and withdrawals the
/// balance equals the starting balance plus the accepted deposits minus
/// the accepted withdrawals; every rejected operation leaves it as it was.
pub proof fn lemma_funds_conservation(funds: Funds, ops: Seq<FundsOp>)
    ensures
        funds_after(funds, ops) == funds + accepted_deposits(funds, ops) - accepted_withdrawals(
            funds,
            ops,
        ),
    decreases ops.len(),
{
    if ops.len() > 0 {
        lemma_funds_conservation(apply_funds_op(funds, ops[0]), ops.skip(1));
    }
}

} // verus!
