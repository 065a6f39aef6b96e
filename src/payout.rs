use vstd::prelude::*;

verus! {

/// Most payees that one registry transfer may pay out.
pub const MAX_PAYOUT_ACCOUNTS: u32 = 10;


/// Basis points in a whole.
pub const BPS_DENOMINATOR: u128 = 10000;

/// The platform's cut: `floor(price * cut / 10000)`.
pub open spec fn owner_cut_spec(price: u128, cut_bps: u16) -> int {
    (price as int * cut_bps as int) / 10000
}

/// What the seller receives: the price less the platform's cut.
pub open spec fn seller_amount_spec(price: u128, cut_bps: u16) -> int {
    price as int - owner_cut_spec(price, cut_bps)
}

/// The platform's share of `price` at `cut_bps` basis points (at most
/// 10000). The product is split as
/// `(price / 10000) * cut + (price % 10000) * cut / 10000`, so no step
/// overflows.
pub fn owner_cut_of(price: u128, cut_bps: u16) -> (r: u128)
    requires
        cut_bps <= 10000,
    ensures
        r as int == owner_cut_spec(price, cut_bps),
        r <= price,
{
    let q = price / BPS_DENOMINATOR;
    let rem = price % BPS_DENOMINATOR;
    let cut = cut_bps as u128;
    proof {
        let (pi, qi, ri, ci) = (price as int, q as int, rem as int, cut as int);
        assert(pi == qi * 10000 + ri);
        assert(0 <= ri < 10000);
        assert(0 <= ri * ci <= 9999 * 10000) by (nonlinear_arith)
            requires 0 <= ri < 10000, 0 <= ci <= 10000;
        assert(0 <= qi * ci <= qi * 10000) by (nonlinear_arith)
            requires qi >= 0, 0 <= ci <= 10000;
        assert(pi * ci == (qi * ci) * 10000 + ri * ci) by (nonlinear_arith)
            requires pi == qi * 10000 + ri;
        assert((pi * ci) / 10000 == qi * ci + (ri * ci) / 10000) by (nonlinear_arith)
            requires pi * ci == (qi * ci) * 10000 + ri * ci, ri * ci >= 0;
        lemma_payout_split(price, cut_bps);
    }
    (q * cut) + (rem * cut) / BPS_DENOMINATOR
}

/// Where the funds of one settled purchase go.
#[derive(Clone, Debug)]
pub struct Payout {
    /// The seller, who receives `seller_amount`.
    pub seller: String,
    pub seller_amount: u128,
    /// The platform owner, who receives `owner_amount`.
    pub owner: String,
    pub owner_amount: u128,
    /// The settlement price that was distributed.
    pub price: u128,
}

/// The cross-contract request that the first settlement step issues to the
/// asset registry, with the continuation it binds: once the registry
/// answers, `resolve_purchase(seller, price)` runs exactly once.
#[derive(Clone, Debug)]
pub struct TransferPayoutRequest {
    /// The registry to call.
    pub nft_contract_id: String,
    /// The buyer, who receives the asset.
    pub receiver_id: String,
    pub token_id: String,
    /// The seller's approval token for the marketplace.
    pub approval_id: u64,
    pub memo: String,
    /// The settlement price.
    pub price: u128,
    /// Fan-out cap on the registry's payout.
    pub max_len_payout: u32,
    /// The seller to whom the continuation pays out.
    pub seller: String,
}

/// For every price below 2^128 and every cut of at most 10000 basis points,
/// the platform's cut is exactly `floor(price * cut / 10000)`, the seller's
/// share is `price - cut`, and the two add up to the price.
pub proof fn lemma_payout_split(price: u128, cut_bps: u16)
    requires
        cut_bps <= 10000,
    ensures
        owner_cut_spec(price, cut_bps) == (price as int * cut_bps as int) / 10000,
        0 <= owner_cut_spec(price, cut_bps) <= price as int,
        seller_amount_spec(price, cut_bps) == price as int - owner_cut_spec(price, cut_bps),
        seller_amount_spec(price, cut_bps) + owner_cut_spec(price, cut_bps) == price as int,
{
    let p = price as int * cut_bps as int;
    assert(0 <= p <= price as int * 10000) by (nonlinear_arith)
        requires cut_bps <= 10000, p == price as int * cut_bps as int, price >= 0;
    assert(p / 10000 <= price as int) by (nonlinear_arith)
        requires p <= price as int * 10000, p >= 0;
}

} // verus!
