use auction_house::backend_service::{BackendService, SettleStatus};
use auction_house::errors::LedgerError;

#[test]
fn sold_auction_settles_funds_and_item() {
    let mut svc = BackendService::default();
    svc.add_account("seller").unwrap();
    svc.add_account("buyer").unwrap();
    svc.deposit_funds("buyer", 100).unwrap();
    svc.deposit_item("seller", "lamp").unwrap();
    let id = svc.sell_item("seller", "lamp", 1, 10, 0).unwrap();
    svc.bid_item("buyer", id, 40, 5).unwrap();
    let outcomes = svc.reap_and_settle(11);
    assert_eq!(outcomes.len(), 1);
    assert_eq!(outcomes[0].auction_id, id);
    assert_eq!(outcomes[0].status, SettleStatus::Settled);
    assert_eq!(svc.show_funds("buyer").unwrap(), 60);
    assert_eq!(svc.show_funds("seller").unwrap(), 40);
    assert!(svc.show_items("buyer").unwrap().contains(&"lamp".to_owned()));
    assert!(!svc.show_items("seller").unwrap().contains(&"lamp".to_owned()));
    assert!(svc.pending_settlements().is_empty());
}

#[test]
fn unbid_auction_is_reaped_without_transfer() {
    let mut svc = BackendService::default();
    svc.add_account("seller").unwrap();
    svc.deposit_item("seller", "lamp").unwrap();
    let id = svc.sell_item("seller", "lamp", 1, 10, 0).unwrap();
    let outcomes = svc.reap_and_settle(11);
    assert_eq!(outcomes.len(), 1);
    assert_eq!(outcomes[0].auction_id, id);
    assert_eq!(outcomes[0].status, SettleStatus::NoBuyer);
    assert!(svc.show_items("seller").unwrap().contains(&"lamp".to_owned()));
}

#[test]
fn failed_settlement_is_retried_on_the_next_sweep() {
    let mut svc = BackendService::default();
    svc.add_account("seller").unwrap();
    svc.add_account("buyer").unwrap();
    svc.deposit_item("seller", "lamp").unwrap();
    let id = svc.sell_item("seller", "lamp", 1, 10, 0).unwrap();
    svc.bid_item("buyer", id, 40, 5).unwrap();
    // The buyer cannot pay yet: the auction stays queued, not dropped.
    let outcomes = svc.reap_and_settle(11);
    assert_eq!(outcomes.len(), 1);
    assert_eq!(outcomes[0].status, SettleStatus::Pending);
    assert_eq!(svc.pending_settlements().len(), 1);
    assert!(svc.show_items("seller").unwrap().contains(&"lamp".to_owned()));
    // Once the buyer has funds, the next sweep settles it.
    svc.deposit_funds("buyer", 100).unwrap();
    let outcomes = svc.reap_and_settle(11);
    assert_eq!(outcomes.len(), 1);
    assert_eq!(outcomes[0].status, SettleStatus::Settled);
    assert!(svc.pending_settlements().is_empty());
    assert_eq!(svc.show_funds("buyer").unwrap(), 60);
    assert_eq!(svc.show_funds("seller").unwrap(), 40);
    assert!(svc.show_items("buyer").unwrap().contains(&"lamp".to_owned()));
}

#[test]
fn settlement_sweep_is_idempotent() {
    let mut svc = BackendService::default();
    svc.add_account("seller").unwrap();
    svc.deposit_item("seller", "lamp").unwrap();
    svc.sell_item("seller", "lamp", 1, 0, 0).unwrap();
    let first = svc.reap_and_settle(0);
    assert_eq!(first.len(), 1);
    let second = svc.reap_and_settle(0);
    assert!(second.is_empty());
}

#[test]
fn selling_requires_an_account() {
    let mut svc = BackendService::default();
    assert_eq!(svc.sell_item("ghost", "lamp", 1, 10, 0), Err(LedgerError::NotFound));
}

#[test]
fn bidding_requires_an_account() {
    let mut svc = BackendService::default();
    svc.add_account("seller").unwrap();
    let id = svc.sell_item("seller", "lamp", 1, 10, 0).unwrap();
    assert_eq!(svc.bid_item("ghost", id, 5, 0), Err(LedgerError::NotFound));
}

#[test]
fn list_auctions_shows_only_ongoing_ones() {
    let mut svc = BackendService::default();
    svc.add_account("seller").unwrap();
    let short = svc.sell_item("seller", "a", 1, 0, 0).unwrap();
    let long = svc.sell_item("seller", "b", 1, 100, 0).unwrap();
    let listing = svc.list_auctions(0).unwrap();
    assert_eq!(listing.len(), 1);
    assert_eq!(listing[0].0, long);
    assert_ne!(listing[0].0, short);
}

#[test]
fn watch_user_auctions_is_scoped_to_the_caller() {
    let mut svc = BackendService::default();
    svc.add_account("alice").unwrap();
    svc.add_account("bob").unwrap();
    svc.add_account("carol").unwrap();
    let a = svc.sell_item("alice", "vase", 1, 100, 0).unwrap();
    let b = svc.sell_item("bob", "book", 1, 100, 0).unwrap();
    svc.bid_item("carol", b, 7, 0).unwrap();
    let alice_view = svc.watch_user_auctions("alice", 0);
    assert_eq!(alice_view.len(), 1);
    assert_eq!(alice_view[0].0, a);
    let carol_view = svc.watch_user_auctions("carol", 0);
    assert_eq!(carol_view.len(), 1);
    assert_eq!(carol_view[0].0, b);
    let bob_view = svc.watch_user_auctions("bob", 0);
    assert_eq!(bob_view.len(), 1);
    assert_eq!(bob_view[0].0, b);
}

#[test]
fn pending_settlement_appears_in_the_parties_watch_view() {
    let mut svc = BackendService::default();
    svc.add_account("seller").unwrap();
    svc.add_account("buyer").unwrap();
    svc.deposit_item("seller", "lamp").unwrap();
    let id = svc.sell_item("seller", "lamp", 1, 10, 0).unwrap();
    svc.bid_item("buyer", id, 40, 5).unwrap();
    let outcomes = svc.reap_and_settle(11);
    assert_eq!(outcomes[0].status, SettleStatus::Pending);
    let seller_view = svc.watch_user_auctions("seller", 11);
    assert_eq!(seller_view.len(), 1);
    assert_eq!(seller_view[0].0, id);
    let buyer_view = svc.watch_user_auctions("buyer", 11);
    assert_eq!(buyer_view.len(), 1);
}

#[test]
fn close_auction_returns_the_snapshot_and_removes_it() {
    let mut svc = BackendService::default();
    svc.add_account("seller").unwrap();
    let id = svc.sell_item("seller", "lamp", 3, 100, 0).unwrap();
    let closed = svc.close_auction(id, 50).unwrap();
    assert_eq!(closed.item, "lamp");
    assert_eq!(closed.seller, "seller");
    assert_eq!(closed.starting_price, 3);
    assert!(svc.list_auctions(50).unwrap().is_empty());
}
