use vstd::prelude::*;

verus! {

/// Separator between a registry id and an asset id in a composite listing key.
pub const DELIMITER: char = '.';

/// A published offer to sell one asset, fixed-price or auction-mode.
#[derive(Clone, Debug)]
pub struct Listing {
    /// Owner of the asset and of the listing.
    pub seller: String,
    /// Approval token that the registry issued to the marketplace.
    pub approval_id: u64,
    /// Registry (asset contract) where the asset was minted.
    pub nft_contract_id: String,
    /// Asset id within the registry.
    pub token_id: String,
    /// Price of a fixed listing, in minor units.
    pub starting_price: u128,
    /// Auction window start (inclusive).
    pub started_at: u64,
    /// Auction window end (exclusive).
    pub end_at: u64,
    /// Best bidder so far; meaningful for auctions only.
    pub highest_bidder: Option<String>,
    /// Best bid so far; meaningful for auctions only.
    pub highest_price: u128,
    /// Auction-mode flag.
    pub is_auction: bool,
}

/// The composite key of a listing, as a pair: it cannot collide whatever
/// characters the two identifiers hold.
pub open spec fn key_of(l: Listing) -> (Seq<char>, Seq<char>) {
    (l.nft_contract_id@, l.token_id@)
}

/// The auction window `[started_at, end_at)` holds `now`.
pub open spec fn window_open(l: Listing, now: u64) -> bool {
    l.started_at <= now && now < l.end_at
}

/// The auction window has closed at `now`.
pub open spec fn window_closed(l: Listing, now: u64) -> bool {
    now >= l.end_at
}

/// Whether bidding is open on `listing` at time `now`.
pub fn is_on_auction(listing: &Listing, now: u64) -> (r: bool)
    ensures
        r == window_open(*listing, now),
{
    listing.started_at <= now && now < listing.end_at
}

impl Listing {
    /// The composite key `registry ‖ '.' ‖ asset` as a string, for display.
    pub fn contract_and_token_id(&self) -> (r: String)
        ensures
            r@ == self.nft_contract_id@ + seq![DELIMITER] + self.token_id@,
    {
        proof {
            reveal_strlit(".");
        }
        let mut r = self.nft_contract_id.clone();
        r.append(".");
        r.append(self.token_id.as_str());
        r
    }
}

} // verus!
