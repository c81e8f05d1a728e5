use vstd::prelude::*;

verus! {

/// Every failure a marketplace operation can report.
///
/// Ledger operations return the precise variant for the condition they
/// detected; the service layer maps each variant to a wire-level status
/// without leaking anything beyond the kind.
#[derive(Clone, Copy, Debug, PartialEq, Eq, Structural)]
pub enum LedgerError {
    /// The named account or auction is not in the table.
    NotFound,
    /// An account with this name already exists.
    AlreadyExists,
    /// A withdrawal asked for more funds than the account holds.
    InsufficientFunds,
    /// A deposit would push the account's funds past the representable maximum.
    Overflow,
    /// The item is already present in the account's inventory.
    DuplicateItem,
    /// The item is not present in the account's inventory.
    ItemNotFound,
    /// The auction's end time has passed; it can only be reaped.
    Concluded,
    /// The seller tried to bid on their own auction.
    SellerCannotBid,
    /// The current highest bidder tried to raise their own standing.
    AlreadyHighestBidder,
    /// The bid did not strictly exceed the current price.
    BidTooLow,
    /// The caller's credential is missing, wrong, or not verifiable.
    Unauthorized,
    /// An internal fault: id exhaustion or a failed primitive.
    Internal,
}

} // verus!
