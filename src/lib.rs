//! The transactional core of a listing marketplace: listing storage with
//! owner and registry indices, prepaid storage accounting, time-boxed auction
//! bidding, and the two-step purchase settlement.
//!
//! The host environment (caller identity, attached funds, block time) is
//! handed to each operation as plain values, and every outgoing transfer or
//! cross-contract request is returned to the caller as a value to perform.
pub mod index;
pub mod listing;
pub mod market;
pub mod payout;

pub use listing::{is_on_auction, Listing, DELIMITER};
pub use market::{MarketError, Marketplace, StorageBalance, STORAGE_PER_SALE};
pub use payout::{owner_cut_of, Payout, TransferPayoutRequest, BPS_DENOMINATOR, MAX_PAYOUT_ACCOUNTS};
