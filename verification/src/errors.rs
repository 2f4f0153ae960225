//! Error taxonomy shared by the token ledger and the market.
//!
//! Every validation failure is detected before any state is mutated, so a
//! returned error always leaves the contract untouched.

use vstd::prelude::*;

verus! {

#[derive(Clone, Copy, Debug, PartialEq, Eq, Structural)]
pub enum Error {
    /// No active sale stands under the given key.
    SaleNotFound,
    /// No token stands under the given id.
    TokenNotFound,
    /// The acting account neither owns the token nor holds an approval.
    NotOwner,
    /// An approval exists, but its sequence number differs from the one presented.
    StaleApproval,
    /// The receiver already owns the token.
    SelfTransfer,
    /// A buyer tried to purchase their own sale.
    SelfPurchase,
    /// The payment's currency differs from the one the sale names.
    CurrencyMismatch,
    /// The payment is below the sale price.
    InsufficientPayment,
    /// The royalty table has more entries than the payout cap allows.
    TooManyPayees,
    /// The seller's storage reservation cannot cover one more listing.
    InsufficientStorageDeposit,
    /// A token with the given id already exists.
    TokenAlreadyExists,
    /// A mint names more royalty accounts than the ledger accepts.
    TooManyRoyalties,
    /// The attached deposit cannot cover the storage that the call consumed.
    InsufficientDeposit,
}

} // verus!
