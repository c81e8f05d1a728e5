use auction_house::backend::auctions_memory_storage::AuctionsMemoryStorage;
use auction_house::backend::{Auction, AuctionsBackend};
use auction_house::errors::LedgerError;

fn find_auction(listing: &[(u64, Auction)], auction_id: u64) -> Option<&Auction> {
    listing.iter().find(|(id, _)| *id == auction_id).map(|(_, a)| a)
}

#[test]
fn test_add_auction() {
    let mut storage = AuctionsMemoryStorage::default();
    let auction = Auction::new("item", 0, 100, "seller", 0);
    let auction_id = storage.add_auction(auction.clone()).unwrap();
    assert_eq!(storage.get_auction(auction_id), Some(auction));
}

#[test]
fn test_bid_auction() {
    let mut storage = AuctionsMemoryStorage::default();
    let auction = Auction::new("item", 0, 100, "seller", 0);
    let auction_id = storage.add_auction(auction.clone()).unwrap();
    assert!(storage.bid_auction(auction_id, "bidder", 1, 0).is_ok());
    let stored_auction = storage.get_auction(auction_id).unwrap();
    assert_eq!(stored_auction.buyer, Some("bidder".to_string()));
    assert_eq!(stored_auction.current_price, 1);
}

#[test]
fn test_bid_auction_with_lower_price() {
    let mut storage = AuctionsMemoryStorage::default();
    let auction = Auction::new("item", 1, 100, "seller", 0);
    let auction_id = storage.add_auction(auction.clone()).unwrap();
    assert!(storage.bid_auction(auction_id, "bidder", 0, 0).is_err());
    let stored_auction = storage.get_auction(auction_id).unwrap();
    assert_eq!(stored_auction.buyer, None);
    assert_eq!(stored_auction.current_price, 0);
}

#[test]
fn test_bid_auction_by_two_bidders() {
    let mut storage = AuctionsMemoryStorage::default();
    let auction = Auction::new("item", 0, 100, "seller", 0);
    let auction_id = storage.add_auction(auction.clone()).unwrap();
    assert!(storage.bid_auction(auction_id, "bidder1", 1, 0).is_ok());
    assert!(storage.bid_auction(auction_id, "bidder2", 2, 0).is_ok());
    let stored_auction = storage.get_auction(auction_id).unwrap();
    assert_eq!(stored_auction.buyer, Some("bidder2".to_string()));
    assert_eq!(stored_auction.current_price, 2);
}

#[test]
fn test_bid_auction_by_seller() {
    let mut storage = AuctionsMemoryStorage::default();
    let auction = Auction::new("item", 0, 100, "seller", 0);
    let auction_id = storage.add_auction(auction.clone()).unwrap();
    assert!(storage.bid_auction(auction_id, "seller", 1, 0).is_err());
    let stored_auction = storage.get_auction(auction_id).unwrap();
    assert_eq!(stored_auction.buyer, None);
    assert_eq!(stored_auction.current_price, 0);
}

#[test]
fn test_bid_auction_that_does_not_exist() {
    let mut storage = AuctionsMemoryStorage::default();
    assert!(storage.bid_auction(0, "bidder", 1, 0).is_err());
}

#[test]
fn test_bid_auction_that_is_concluded() {
    let mut storage = AuctionsMemoryStorage::default();
    let auction = Auction::new("item", 0, 0, "seller", 0);
    let auction_id = storage.add_auction(auction.clone()).unwrap();
    assert!(storage.bid_auction(auction_id, "bidder", 1, 1).is_err());
}

#[test]
fn test_bid_auction_by_the_same_bidder() {
    let mut storage = AuctionsMemoryStorage::default();
    let auction = Auction::new("item", 0, 100, "seller", 0);
    let auction_id = storage.add_auction(auction.clone()).unwrap();
    assert!(storage.bid_auction(auction_id, "bidder", 1, 0).is_ok());
    assert!(storage.bid_auction(auction_id, "bidder", 2, 0).is_err());
    let stored_auction = storage.get_auction(auction_id).unwrap();
    assert_eq!(stored_auction.buyer, Some("bidder".to_string()));
    assert_eq!(stored_auction.current_price, 1);
}

#[test]
fn test_bid_auction_by_two_bidders_with_the_same_price() {
    let mut storage = AuctionsMemoryStorage::default();
    let auction = Auction::new("item", 0, 100, "seller", 0);
    let auction_id = storage.add_auction(auction.clone()).unwrap();
    assert!(storage.bid_auction(auction_id, "bidder1", 1, 0).is_ok());
    assert!(storage.bid_auction(auction_id, "bidder2", 1, 0).is_err());
    let stored_auction = storage.get_auction(auction_id).unwrap();
    assert_eq!(stored_auction.buyer, Some("bidder1".to_string()));
    assert_eq!(stored_auction.current_price, 1);
}

#[test]
fn test_close_auction() {
    let mut storage = AuctionsMemoryStorage::default();
    let auction = Auction::new("item", 0, 100, "seller", 0);
    let auction_id = storage.add_auction(auction.clone()).unwrap();
    let closed_auction = storage.close_auction(auction_id, 0).unwrap();
    assert_eq!(closed_auction.seller, "seller");
    assert_eq!(closed_auction.buyer, None);
    assert_eq!(closed_auction.current_price, 0);
    assert_eq!(closed_auction.item, "item");
    assert!(storage.get_auction(auction_id).is_none());
}

#[test]
fn test_close_auction_that_does_not_exist() {
    let mut storage = AuctionsMemoryStorage::default();
    assert!(storage.close_auction(0, 0).is_err());
}

#[test]
fn test_close_auction_that_is_already_concluded() {
    let mut storage = AuctionsMemoryStorage::default();
    let auction = Auction::new("item", 0, 0, "seller", 0);
    let auction_id = storage.add_auction(auction.clone()).unwrap();
    assert!(storage.close_auction(auction_id, 1).is_err());
}

#[test]
fn test_list_ongoing_auctions() {
    let mut storage = AuctionsMemoryStorage::default();
    let auction1 = Auction::new("item1", 0, 100, "seller1", 0);
    let auction2 = Auction::new("item2", 0, 0, "seller2", 0);
    let auction3 = Auction::new("item3", 0, 100, "seller3", 0);
    let auction_id1 = storage.add_auction(auction1.clone()).unwrap();
    let _auction_id2 = storage.add_auction(auction2.clone()).unwrap();
    let auction_id3 = storage.add_auction(auction3.clone()).unwrap();
    let ongoing_auctions = storage.list_ongoing_auctions(0).unwrap();
    assert_eq!(ongoing_auctions.len(), 2);
    assert_eq!(find_auction(&ongoing_auctions, auction_id1), Some(&auction1));
    assert_eq!(find_auction(&ongoing_auctions, auction_id3), Some(&auction3));
}

#[test]
fn test_pop_concluded_auctions() {
    let mut storage = AuctionsMemoryStorage::default();
    let auction1 = Auction::new("item1", 0, 100, "seller1", 0);
    let auction2 = Auction::new("item2", 0, 0, "seller2", 0);
    let auction3 = Auction::new("item3", 0, 100, "seller3", 0);
    let auction_id1 = storage.add_auction(auction1.clone()).unwrap();
    let auction_id2 = storage.add_auction(auction2.clone()).unwrap();
    let auction_id3 = storage.add_auction(auction3.clone()).unwrap();
    let concluded_auctions = storage.pop_concluded_auctions(0).unwrap();
    assert_eq!(concluded_auctions.len(), 1);
    assert_eq!(find_auction(&concluded_auctions, auction_id2), Some(&auction2));
    assert!(storage.get_auction(auction_id1).is_some());
    assert!(storage.get_auction(auction_id3).is_some());
    assert_eq!(storage.auction_count(), 2);
}

#[test]
fn expired_auction_rejects_bid_and_close_with_concluded() {
    let mut storage = AuctionsMemoryStorage::default();
    let auction = Auction::new("item", 0, 10, "seller", 0);
    let auction_id = storage.add_auction(auction).unwrap();
    assert_eq!(storage.bid_auction(auction_id, "bidder", 5, 11), Err(LedgerError::Concluded));
    assert_eq!(
        storage.close_auction(auction_id, 11).map(|a| a.item),
        Err(LedgerError::Concluded)
    );
    assert!(storage.list_ongoing_auctions(11).unwrap().is_empty());
    let popped = storage.pop_concluded_auctions(11).unwrap();
    assert_eq!(popped.len(), 1);
    assert_eq!(popped[0].0, auction_id);
}

#[test]
fn popping_twice_with_no_time_elapsed_returns_nothing() {
    let mut storage = AuctionsMemoryStorage::default();
    storage.add_auction(Auction::new("item1", 0, 100, "seller1", 0)).unwrap();
    storage.add_auction(Auction::new("item2", 0, 0, "seller2", 0)).unwrap();
    let first = storage.pop_concluded_auctions(0).unwrap();
    assert_eq!(first.len(), 1);
    let second = storage.pop_concluded_auctions(0).unwrap();
    assert!(second.is_empty());
    assert_eq!(storage.auction_count(), 1);
}

#[test]
fn bid_errors_name_their_cause() {
    let mut storage = AuctionsMemoryStorage::default();
    let auction_id = storage.add_auction(Auction::new("item", 0, 100, "seller", 0)).unwrap();
    assert_eq!(storage.bid_auction(7, "bidder", 1, 0), Err(LedgerError::NotFound));
    assert_eq!(storage.bid_auction(auction_id, "seller", 1, 0), Err(LedgerError::SellerCannotBid));
    storage.bid_auction(auction_id, "bidder", 3, 0).unwrap();
    assert_eq!(
        storage.bid_auction(auction_id, "bidder", 9, 0),
        Err(LedgerError::AlreadyHighestBidder)
    );
    assert_eq!(storage.bid_auction(auction_id, "other", 3, 0), Err(LedgerError::BidTooLow));
}

#[test]
fn auction_end_time_saturates() {
    let auction = Auction::new("item", 0, u64::MAX, "seller", 5);
    assert_eq!(auction.end_time, u64::MAX);
    assert_eq!(auction.start_time, 5);
}
