use vstd::prelude::*;

use crate::backend::{
    bid_outcome, concluded_auctions, lemma_partition_insert, ongoing_auctions, Auction,
    AuctionView, AuctionsBackend, Funds,
};
use crate::errors::LedgerError;
use crate::table::{
    keys_distinct, lemma_pairs_map_absent, lemma_pairs_map_index, lemma_pairs_map_len,
    lemma_pairs_map_remove, lemma_pairs_map_update, pairs_map,
};

verus! {

/// One stored auction with its id.
struct AuctionEntry {
    id: u64,
    auction: Auction,
}

/// The map described by a listing, as `list_ongoing_auctions` and
/// `pop_concluded_auctions` hand it out.
pub open spec fn listing_map(v: Seq<(u64, Auction)>) -> Map<u64, AuctionView> {
    pairs_map(v.map_values(|p: (u64, Auction)| (p.0, p.1@)))
}

/// No auction id occurs twice in the listing.
pub open spec fn listing_distinct(v: Seq<(u64, Auction)>) -> bool {
    forall|a: int, b: int| 0 <= a < b < v.len() ==> v[a].0 != v[b].0
}

/// The in-memory auction ledger: a table of auctions keyed by id, with a
/// monotonic id allocator. Ids are never reused within the ledger's life.
///
/// Viewed as the finite map from each live auction id to its snapshot.
pub struct AuctionsMemoryStorage {
    auctions: Vec<AuctionEntry>,
    next_id: u64,
}

impl AuctionsMemoryStorage {
    /// The table as a sequence of id/snapshot pairs.
    closed spec fn entries(self) -> Seq<(u64, AuctionView)> {
        self.auctions@.map_values(|e: AuctionEntry| (e.id, e.auction@))
    }

    /// The next id the allocator will hand out; every stored id is below it.
    pub closed spec fn spec_next_id(self) -> u64 {
        self.next_id
    }

    #[verifier::type_invariant]
    closed spec fn inv(self) -> bool {
        &&& keys_distinct(self.entries())
        &&& forall|i: int|
            0 <= i < self.auctions@.len() ==> (#[trigger] self.auctions@[i]).id < self.next_id
    }

    /// The index of the auction with this id, if it is present.
    fn find(&self, auction_id: u64) -> (r: Option<usize>)
        ensures
            match r {
                Some(i) => i < self.entries().len() && self.entries()[i as int].0 == auction_id,
                None => forall|j: int|
                    0 <= j < self.entries().len() ==> self.entries()[j].0 != auction_id,
            },
    {
        let mut i: usize = 0;
        while i < self.auctions.len()
            invariant
                i <= self.auctions.len(),
                forall|j: int| 0 <= j < i ==> self.entries()[j].0 != auction_id,
            decreases self.auctions.len() - i,
        {
            if self.auctions[i].id == auction_id {
                return Some(i);
            }
            i += 1;
        }
        None
    }

    /// Stores a new auction under a freshly allocated id and returns the
    /// id. Only when the allocator has run through every id -- which a
    /// 64-bit counter never does in practice -- the ledger reports an
    /// internal fault and stays unchanged.
    pub fn add_auction(&mut self, auction: Auction) -> (r: Result<u64, LedgerError>)
        ensures
            old(self).spec_next_id() == u64::MAX ==> r == Err::<u64, LedgerError>(
                LedgerError::Internal,
            ) && final(self)@ == old(self)@ && final(self).spec_next_id() == old(
                self,
            ).spec_next_id(),
            old(self).spec_next_id() < u64::MAX ==> r == Ok::<u64, LedgerError>(
                old(self).spec_next_id(),
            ) && !old(self)@.contains_key(old(self).spec_next_id()) && final(self)@ == old(
                self,
            )@.insert(old(self).spec_next_id(), auction@) && final(self).spec_next_id() == old(
                self,
            ).spec_next_id() + 1,
    {
        proof {
            use_type_invariant(&*self);
        }
        if self.next_id == u64::MAX {
            return Err(LedgerError::Internal);
        }
        let id = self.next_id;
        proof {
            assert(forall|j: int| 0 <= j < self.entries().len() ==> self.entries()[j].0 != id);
            lemma_pairs_map_absent(self.entries(), id);
        }
        let ghost pre = self.entries();
        let ghost av = auction@;
        let mut auctions: Vec<AuctionEntry> = Vec::new();
        std::mem::swap(&mut auctions, &mut self.auctions);
        auctions.push(AuctionEntry { id, auction });
        self.next_id = id + 1;
        proof {
            assert(auctions@.map_values(|e: AuctionEntry| (e.id, e.auction@)) =~= pre.push(
                (id, av),
            ));
        }
        self.auctions = auctions;
        proof {
            assert(self.entries().drop_last() =~= pre);
        }
        Ok(id)
    }

    /// Places a bid at time `now`: the auction must exist and still run,
    /// the bidder must be neither the seller nor the standing highest
    /// bidder, and the amount must strictly exceed the current price.
    /// Exactly `bid_outcome` happens; a rejected bid changes nothing.
    pub fn bid_auction(&mut self, auction_id: u64, bidder: &str, amount: Funds, now: u64) -> (r:
        Result<(), LedgerError>)
        ensures
            final(self).spec_next_id() == old(self).spec_next_id(),
            !old(self)@.contains_key(auction_id) ==> r == Err::<(), LedgerError>(
                LedgerError::NotFound,
            ) && final(self)@ == old(self)@,
            old(self)@.contains_key(auction_id) ==> match bid_outcome(
                old(self)@[auction_id],
                bidder@,
                amount,
                now,
            ) {
                Ok(b) => r == Ok::<(), LedgerError>(()) && final(self)@ == old(self)@.insert(
                    auction_id,
                    b,
                ),
                Err(e) => r == Err::<(), LedgerError>(e) && final(self)@ == old(self)@,
            },
    {
        proof {
            use_type_invariant(&*self);
        }
        match self.find(auction_id) {
            None => {
                proof {
                    lemma_pairs_map_absent(self.entries(), auction_id);
                }
                Err(LedgerError::NotFound)
            },
            Some(i) => {
                proof {
                    lemma_pairs_map_index(self.entries(), i as int);
                }
                if now > self.auctions[i].auction.end_time {
                    return Err(LedgerError::Concluded);
                }
                let key = bidder.to_owned();
                if self.auctions[i].auction.seller == key {
                    return Err(LedgerError::SellerCannotBid);
                }
                let already = match &self.auctions[i].auction.buyer {
                    Some(b) => *b == key,
                    None => false,
                };
                if already {
                    return Err(LedgerError::AlreadyHighestBidder);
                }
                if amount <= self.auctions[i].auction.current_price {
                    return Err(LedgerError::BidTooLow);
                }
                let ghost pre = self.entries();
                let mut auctions: Vec<AuctionEntry> = Vec::new();
                std::mem::swap(&mut auctions, &mut self.auctions);
                let entry = &mut auctions[i];
                entry.auction.buyer = Some(key);
                entry.auction.current_price = amount;
                proof {
                    let b = AuctionView {
                        current_price: amount,
                        buyer: Some(bidder@),
                        ..pre[i as int].1
                    };
                    assert(auctions@[i as int].auction@ == b);
                    assert(auctions@.map_values(|e: AuctionEntry| (e.id, e.auction@)) =~= pre
                        .update(i as int, (auction_id, b)));
                    lemma_pairs_map_update(pre, i as int, b);
                    assert(bid_outcome(pre[i as int].1, bidder@, amount, now) == Ok::<
                        AuctionView,
                        LedgerError,
                    >(b));
                }
                self.auctions = auctions;
                Ok(())
            },
        }
    }

    /// Removes a still-running auction at time `now` and returns its
    /// snapshot; an unknown id or an already concluded auction is
    /// rejected and nothing changes. A concluded auction leaves the
    /// ledger only through `pop_concluded_auctions`.
    pub fn close_auction(&mut self, auction_id: u64, now: u64) -> (r: Result<Auction, LedgerError>)
        ensures
            final(self).spec_next_id() == old(self).spec_next_id(),
            !old(self)@.contains_key(auction_id) ==> r == Err::<Auction, LedgerError>(
                LedgerError::NotFound,
            ) && final(self)@ == old(self)@,
            old(self)@.contains_key(auction_id) && now > old(self)@[auction_id].end_time ==> r
                == Err::<Auction, LedgerError>(LedgerError::Concluded) && final(self)@ == old(
                self,
            )@,
            old(self)@.contains_key(auction_id) && now <= old(self)@[auction_id].end_time ==> (r
                matches Ok(a) && a@ == old(self)@[auction_id] && final(self)@ == old(
                self,
            )@.remove(auction_id)),
    {
        proof {
            use_type_invariant(&*self);
        }
        match self.find(auction_id) {
            None => {
                proof {
                    lemma_pairs_map_absent(self.entries(), auction_id);
                }
                Err(LedgerError::NotFound)
            },
            Some(i) => {
                proof {
                    lemma_pairs_map_index(self.entries(), i as int);
                }
                if now > self.auctions[i].auction.end_time {
                    return Err(LedgerError::Concluded);
                }
                let ghost pre = self.entries();
                let mut auctions: Vec<AuctionEntry> = Vec::new();
                std::mem::swap(&mut auctions, &mut self.auctions);
                let e = auctions.remove(i);
                proof {
                    assert(auctions@.map_values(|e: AuctionEntry| (e.id, e.auction@)) =~= pre
                        .remove(i as int));
                    lemma_pairs_map_remove(pre, i as int);
                    assert(keys_distinct(pre.remove(i as int)));
                }
                self.auctions = auctions;
                Ok(e.auction)
            },
        }
    }

    /// Snapshots every auction whose end time lies strictly after `now`:
    /// exactly the ongoing part of the table, each id once, values copied.
    pub fn list_ongoing_auctions(&self, now: u64) -> (r: Result<
        Vec<(u64, Auction)>,
        LedgerError,
    >)
        ensures
            r is Ok,
            r matches Ok(v) ==> listing_map(v@) == ongoing_auctions(self@, now)
                && listing_distinct(v@),
    {
        proof {
            use_type_invariant(&*self);
        }
        let ghost ents = self.entries();
        let mut out: Vec<(u64, Auction)> = Vec::new();
        proof {
            assert(ents.take(0) =~= Seq::<(u64, AuctionView)>::empty());
            assert(out@.map_values(|p: (u64, Auction)| (p.0, p.1@)) =~= Seq::<
                (u64, AuctionView),
            >::empty());
            assert(listing_map(out@) =~= ongoing_auctions(pairs_map(ents.take(0)), now));
        }
        let mut i: usize = 0;
        while i < self.auctions.len()
            invariant
                i <= self.auctions.len(),
                ents == self.entries(),
                keys_distinct(ents),
                listing_map(out@) == ongoing_auctions(pairs_map(ents.take(i as int)), now),
                listing_distinct(out@),
                forall|a: int|
                    0 <= a < out@.len() ==> exists|l: int|
                        0 <= l < i && ents[l].0 == #[trigger] out@[a].0,
            decreases self.auctions.len() - i,
        {
            let ghost m0 = pairs_map(ents.take(i as int));
            proof {
                assert(ents.take(i as int + 1).drop_last() =~= ents.take(i as int));
                assert(ents.take(i as int + 1).last() == ents[i as int]);
                assert(pairs_map(ents.take(i as int + 1)) == m0.insert(
                    ents[i as int].0,
                    ents[i as int].1,
                ));
                assert(forall|l: int| 0 <= l < ents.take(i as int).len() ==> ents.take(
                    i as int,
                )[l].0 != ents[i as int].0);
                lemma_pairs_map_absent(ents.take(i as int), ents[i as int].0);
                lemma_partition_insert(m0, ents[i as int].0, ents[i as int].1, now);
            }
            let e = &self.auctions[i];
            if e.auction.end_time > now {
                let ghost out0 = out@;
                out.push((e.id, e.auction.snapshot()));
                proof {
                    assert(out@.map_values(|p: (u64, Auction)| (p.0, p.1@)) =~= out0.map_values(
                        |p: (u64, Auction)| (p.0, p.1@),
                    ).push((ents[i as int].0, ents[i as int].1)));
                    assert(out@.map_values(|p: (u64, Auction)| (p.0, p.1@)).drop_last()
                        =~= out0.map_values(|p: (u64, Auction)| (p.0, p.1@)));
                    assert forall|a: int| 0 <= a < out0.len() implies out0[a].0 != ents[i as int].0 by {
                        let l = choose|l: int| 0 <= l < i && ents[l].0 == out0[a].0;
                        assert(ents[l].0 != ents[i as int].0);
                    }
                }
            }
            i += 1;
        }
        proof {
            assert(ents.take(self.auctions@.len() as int) =~= ents);
        }
        Ok(out)
    }

    /// Removes every auction concluded by `now` from the table and hands
    /// the removed part out, each id once; the ongoing part stays. Run
    /// twice with no time passed, the second sweep returns nothing.
    pub fn pop_concluded_auctions(&mut self, now: u64) -> (r: Result<
        Vec<(u64, Auction)>,
        LedgerError,
    >)
        ensures
            final(self).spec_next_id() == old(self).spec_next_id(),
            final(self)@ == ongoing_auctions(old(self)@, now),
            r is Ok,
            r matches Ok(v) ==> listing_map(v@) == concluded_auctions(old(self)@, now)
                && listing_distinct(v@),
    {
        proof {
            use_type_invariant(&*self);
        }
        let ghost ents = self.entries();
        let ghost nid = self.next_id;
        let mut auctions: Vec<AuctionEntry> = Vec::new();
        std::mem::swap(&mut auctions, &mut self.auctions);
        let mut kept: Vec<AuctionEntry> = Vec::new();
        let mut out: Vec<(u64, Auction)> = Vec::new();
        proof {
            assert(ents.take(0) =~= Seq::<(u64, AuctionView)>::empty());
            assert(out@.map_values(|p: (u64, Auction)| (p.0, p.1@)) =~= Seq::<
                (u64, AuctionView),
            >::empty());
            assert(kept@.map_values(|e: AuctionEntry| (e.id, e.auction@)) =~= Seq::<
                (u64, AuctionView),
            >::empty());
            assert(listing_map(out@) =~= concluded_auctions(pairs_map(ents.take(0)), now));
            assert(pairs_map(kept@.map_values(|e: AuctionEntry| (e.id, e.auction@)))
                =~= ongoing_auctions(pairs_map(ents.take(0)), now));
        }
        let mut i: usize = 0;
        while i < auctions.len()
            invariant
                i <= auctions.len(),
                auctions@.map_values(|e: AuctionEntry| (e.id, e.auction@)) == ents,
                keys_distinct(ents),
                forall|j: int| 0 <= j < auctions@.len() ==> (#[trigger] auctions@[j]).id < nid,
                listing_map(out@) == concluded_auctions(pairs_map(ents.take(i as int)), now),
                listing_distinct(out@),
                forall|a: int|
                    0 <= a < out@.len() ==> exists|l: int|
                        0 <= l < i && ents[l].0 == #[trigger] out@[a].0,
                pairs_map(kept@.map_values(|e: AuctionEntry| (e.id, e.auction@)))
                    == ongoing_auctions(pairs_map(ents.take(i as int)), now),
                forall|a: int, b: int|
                    0 <= a < b < kept@.len() ==> kept@[a].id != kept@[b].id,
                forall|a: int| 0 <= a < kept@.len() ==> (#[trigger] kept@[a]).id < nid,
                forall|a: int|
                    0 <= a < kept@.len() ==> exists|l: int|
                        0 <= l < i && ents[l].0 == (#[trigger] kept@[a]).id,
            decreases auctions.len() - i,
        {
            let ghost m0 = pairs_map(ents.take(i as int));
            proof {
                assert(ents.take(i as int + 1).drop_last() =~= ents.take(i as int));
                assert(ents.take(i as int + 1).last() == ents[i as int]);
                assert(pairs_map(ents.take(i as int + 1)) == m0.insert(
                    ents[i as int].0,
                    ents[i as int].1,
                ));
                assert(forall|l: int| 0 <= l < ents.take(i as int).len() ==> ents.take(
                    i as int,
                )[l].0 != ents[i as int].0);
                lemma_pairs_map_absent(ents.take(i as int), ents[i as int].0);
                lemma_partition_insert(m0, ents[i as int].0, ents[i as int].1, now);
            }
            let e = &auctions[i];
            if e.auction.end_time <= now {
                let ghost out0 = out@;
                out.push((e.id, e.auction.snapshot()));
                proof {
                    assert(out@.map_values(|p: (u64, Auction)| (p.0, p.1@)) =~= out0.map_values(
                        |p: (u64, Auction)| (p.0, p.1@),
                    ).push((ents[i as int].0, ents[i as int].1)));
                    assert(out@.map_values(|p: (u64, Auction)| (p.0, p.1@)).drop_last()
                        =~= out0.map_values(|p: (u64, Auction)| (p.0, p.1@)));
                    assert forall|a: int| 0 <= a < out0.len() implies out0[a].0 != ents[i as int].0 by {
                        let l = choose|l: int| 0 <= l < i && ents[l].0 == out0[a].0;
                        assert(ents[l].0 != ents[i as int].0);
                    }
                }
            } else {
                let ghost kept0 = kept@;
                kept.push(AuctionEntry { id: e.id, auction: e.auction.snapshot() });
                proof {
                    assert(kept@.map_values(|e: AuctionEntry| (e.id, e.auction@))
                        =~= kept0.map_values(|e: AuctionEntry| (e.id, e.auction@)).push(
                        (ents[i as int].0, ents[i as int].1),
                    ));
                    assert(kept@.map_values(|e: AuctionEntry| (e.id, e.auction@)).drop_last()
                        =~= kept0.map_values(|e: AuctionEntry| (e.id, e.auction@)));
                    assert forall|a: int| 0 <= a < kept0.len() implies kept0[a].id != ents[i as int].0 by {
                        let l = choose|l: int| 0 <= l < i && ents[l].0 == kept0[a].id;
                        assert(ents[l].0 != ents[i as int].0);
                    }
                }
            }
            i += 1;
        }
        proof {
            assert(ents.take(auctions@.len() as int) =~= ents);
            assert(keys_distinct(kept@.map_values(|e: AuctionEntry| (e.id, e.auction@))));
        }
        self.auctions = kept;
        Ok(out)
    }

    /// The stored auction with this id, as a snapshot.
    pub fn get_auction(&self, auction_id: u64) -> (r: Option<Auction>)
        ensures
            match r {
                Some(a) => self@.contains_key(auction_id) && a@ == self@[auction_id],
                None => !self@.contains_key(auction_id),
            },
    {
        proof {
            use_type_invariant(&*self);
        }
        match self.find(auction_id) {
            Some(i) => {
                proof {
                    lemma_pairs_map_index(self.entries(), i as int);
                }
                Some(self.auctions[i].auction.snapshot())
            },
            None => {
                proof {
                    lemma_pairs_map_absent(self.entries(), auction_id);
                }
                None
            },
        }
    }

    /// How many auctions the table holds.
    pub fn auction_count(&self) -> (n: usize)
        ensures
            n == self@.dom().len(),
    {
        proof {
            use_type_invariant(&*self);
            lemma_pairs_map_len(self.entries());
        }
        self.auctions.len()
    }
}

impl View for AuctionsMemoryStorage {
    type V = Map<u64, AuctionView>;

    closed spec fn view(&self) -> Map<u64, AuctionView> {
        pairs_map(self.entries())
    }
}

impl Default for AuctionsMemoryStorage {
    /// An empty ledger whose allocator starts at id zero.
    fn default() -> (r: Self)
        ensures
            r@ == Map::<u64, AuctionView>::empty(),
            r.spec_next_id() == 0,
    {
        let r = AuctionsMemoryStorage { auctions: Vec::new(), next_id: 0 };
        proof {
            assert(r@ =~= Map::<u64, AuctionView>::empty());
        }
        r
    }
}

impl AuctionsBackend for AuctionsMemoryStorage {
    type AuctionId = u64;

    fn add_auction(&mut self, auction: Auction) -> Result<u64, LedgerError> {
        AuctionsMemoryStorage::add_auction(self, auction)
    }

    fn bid_auction(&mut self, auction_id: u64, bidder: &str, amount: Funds, now: u64) -> Result<
        (),
        LedgerError,
    > {
        AuctionsMemoryStorage::bid_auction(self, auction_id, bidder, amount, now)
    }

    fn close_auction(&mut self, auction_id: u64, now: u64) -> Result<Auction, LedgerError> {
        AuctionsMemoryStorage::close_auction(self, auction_id, now)
    }

    fn list_ongoing_auctions(&self, now: u64) -> Result<Vec<(u64, Auction)>, LedgerError> {
        AuctionsMemoryStorage::list_ongoing_auctions(self, now)
    }

    fn pop_concluded_auctions(&mut self, now: u64) -> Result<Vec<(u64, Auction)>, LedgerError> {
        AuctionsMemoryStorage::pop_concluded_auctions(self, now)
    }
}

} // verus!
