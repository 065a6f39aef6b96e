use nft_marketplace::{
    is_on_auction, owner_cut_of, Listing, MarketError, Marketplace, MAX_PAYOUT_ACCOUNTS,
    STORAGE_PER_SALE,
};

const MIN_REQUIRED_APPROVAL_YOCTO: u128 = 170000000000000000000;
const MIN_REQUIRED_STORAGE_YOCTO: u128 = 10000000000000000000000;
const TOKEN: &str = "0n3C0ntr4ctT0Rul3Th3m4ll";

fn alice() -> String {
    "alice".to_string()
}

fn bob() -> String {
    "bob".to_string()
}

fn carol() -> String {
    "charlie".to_string()
}

fn listing(seller: &str, nft: &str, token: &str, price: u128) -> Listing {
    Listing {
        seller: seller.to_string(),
        approval_id: 1,
        nft_contract_id: nft.to_string(),
        token_id: token.to_string(),
        starting_price: price,
        end_at: 0,
        started_at: 0,
        highest_bidder: None,
        highest_price: 0,
        is_auction: false,
    }
}

fn auction(seller: &str, nft: &str, token: &str, started_at: u64, end_at: u64) -> Listing {
    let mut l = listing(seller, nft, token, 0);
    l.is_auction = true;
    l.started_at = started_at;
    l.end_at = end_at;
    l
}

#[test]
fn test_storage_deposit_insufficient_deposit() {
    let mut contract = Marketplace::new(alice(), 10);
    let r = contract.storage_deposit(Some(alice()), alice(), MIN_REQUIRED_APPROVAL_YOCTO);
    assert_eq!(r, Err(MarketError::InsufficientDeposit));
    assert_eq!(contract.storage_balance_of(alice()), 0);
}

#[test]
fn test_storage_deposit() {
    let mut contract = Marketplace::new(alice(), 10);
    contract.storage_deposit(Some(alice()), alice(), MIN_REQUIRED_STORAGE_YOCTO).unwrap();
    let outcome = contract.storage_balance_of(alice());
    let expected = MIN_REQUIRED_STORAGE_YOCTO;
    assert_eq!(outcome, expected);
}

#[test]
fn test_storage_balance_of() {
    let mut contract = Marketplace::new(alice(), 10);
    contract.storage_deposit(Some(alice()), alice(), MIN_REQUIRED_STORAGE_YOCTO).unwrap();
    let balance = contract.storage_balance_of(alice());
    assert_eq!(balance, MIN_REQUIRED_STORAGE_YOCTO);
}

#[test]
fn test_storage_withdraw() {
    let mut contract = Marketplace::new(alice(), 10);
    contract.storage_deposit(Some(alice()), alice(), MIN_REQUIRED_STORAGE_YOCTO).unwrap();
    let withdrawn = contract.storage_withdraw(alice(), 1).unwrap();
    assert_eq!(withdrawn, MIN_REQUIRED_STORAGE_YOCTO);
    let remaining_amount = contract.storage_balance_of(alice());
    assert_eq!(remaining_amount, 0)
}

#[test]
fn test_remove_sale() {
    let mut contract = Marketplace::new(alice(), 10);
    contract.storage_deposit(Some(alice()), alice(), MIN_REQUIRED_STORAGE_YOCTO).unwrap();
    contract.upsert_listing(listing("alice", "alice", TOKEN, 0));
    assert_eq!(contract.listings_len(), 1, "Failed to insert sale to contract");
    contract.cancel_listing(alice(), alice(), TOKEN.to_string()).unwrap();
    assert_eq!(contract.listings_len(), 0, "Failed to remove sale from contract");
}

#[test]
fn test_update_price() {
    let mut contract = Marketplace::new(alice(), 10);
    contract.storage_deposit(Some(alice()), alice(), MIN_REQUIRED_STORAGE_YOCTO).unwrap();
    contract.upsert_listing(listing("alice", "alice", TOKEN, 0));
    assert_eq!(contract.listings_len(), 1, "Failed to insert sale to contract");
    let new_price: u128 = 150;
    contract.set_price(alice(), alice(), TOKEN.to_string(), new_price).unwrap();
    let sale = contract.get_listing(&alice(), &TOKEN.to_string()).expect("No sale");
    assert_eq!(sale.starting_price, new_price);
    let req = contract.purchase_nft(alice(), new_price, 0, alice(), TOKEN.to_string());
    assert!(req.is_ok());
}

#[test]
fn deposit_of_exactly_the_quota_succeeds() {
    let mut m = Marketplace::new(alice(), 10);
    assert_eq!(m.storage_deposit(None, bob(), STORAGE_PER_SALE), Ok(()));
    assert_eq!(m.storage_balance_of(bob()), STORAGE_PER_SALE);
    assert_eq!(m.storage_deposit(None, bob(), STORAGE_PER_SALE - 1), Err(MarketError::InsufficientDeposit));
    assert_eq!(m.storage_balance_of(bob()), STORAGE_PER_SALE);
}

#[test]
fn deposits_accumulate_per_account() {
    let mut m = Marketplace::new(alice(), 10);
    m.storage_deposit(Some(carol()), bob(), STORAGE_PER_SALE).unwrap();
    m.storage_deposit(Some(carol()), alice(), 2 * STORAGE_PER_SALE).unwrap();
    assert_eq!(m.storage_balance_of(carol()), 3 * STORAGE_PER_SALE);
    assert_eq!(m.storage_balance_of(bob()), 0);
    assert_eq!(m.storage_minimum_balance(), 10000000000000000000000);
}

#[test]
fn deposit_that_would_overflow_is_refused() {
    let mut m = Marketplace::new(alice(), 10);
    m.storage_deposit(None, bob(), u128::MAX - 5).unwrap();
    assert_eq!(m.storage_deposit(None, bob(), STORAGE_PER_SALE), Err(MarketError::BalanceOverflow));
    assert_eq!(m.storage_balance_of(bob()), u128::MAX - 5);
}

#[test]
fn withdraw_keeps_the_reserve_of_open_listings() {
    let mut m = Marketplace::new(alice(), 10);
    m.storage_deposit(None, alice(), 3 * STORAGE_PER_SALE + 7).unwrap();
    m.upsert_listing(listing("alice", "nft.near", "1", 5));
    m.upsert_listing(listing("alice", "nft.near", "2", 5));
    m.upsert_listing(listing("bob", "nft.near", "3", 5));
    assert_eq!(m.owned_listing_count(&alice()), 2);
    assert_eq!(m.storage_withdraw(alice(), 1), Ok(STORAGE_PER_SALE + 7));
    assert_eq!(m.storage_balance_of(alice()), 2 * STORAGE_PER_SALE);
    assert_eq!(m.storage_withdraw(alice(), 1), Ok(0));
    assert_eq!(m.storage_balance_of(alice()), 2 * STORAGE_PER_SALE);
}

#[test]
fn withdraw_needs_one_yocto_and_a_funded_reserve() {
    let mut m = Marketplace::new(alice(), 10);
    m.storage_deposit(None, alice(), STORAGE_PER_SALE).unwrap();
    assert_eq!(m.storage_withdraw(alice(), 0), Err(MarketError::RequiresOneYocto));
    assert_eq!(m.storage_withdraw(alice(), 2), Err(MarketError::RequiresOneYocto));
    m.upsert_listing(listing("alice", "nft.near", "1", 5));
    m.upsert_listing(listing("alice", "nft.near", "2", 5));
    assert_eq!(m.storage_withdraw(alice(), 1), Err(MarketError::StorageUnderfunded));
    assert_eq!(m.storage_balance_of(alice()), STORAGE_PER_SALE);
    assert_eq!(m.storage_withdraw(bob(), 1), Ok(0));
}

#[test]
fn upsert_overwrites_by_composite_key() {
    let mut m = Marketplace::new(alice(), 10);
    m.upsert_listing(listing("alice", "nft.near", "1", 5));
    m.upsert_listing(listing("bob", "nft.near", "1", 9));
    m.upsert_listing(listing("bob", "nft", "near.1", 9));
    assert_eq!(m.listings_len(), 2);
    let l = m.get_listing(&"nft.near".to_string(), &"1".to_string()).unwrap();
    assert_eq!(l.seller, "bob");
    assert_eq!(l.starting_price, 9);
    assert_eq!(l.contract_and_token_id(), "nft.near.1");
}

#[test]
fn create_listing_needs_an_approved_placeholder() {
    let mut m = Marketplace::new(alice(), 10);
    let r = m.create_listing(bob(), "nft.near".to_string(), "1".to_string(), 10, 20, 5, 0, true);
    assert_eq!(r, Err(MarketError::ListingNotApproved));
    assert_eq!(m.listings_len(), 0);
    m.upsert_listing(listing("alice", "nft.near", "1", 0));
    m.storage_deposit(None, bob(), STORAGE_PER_SALE).unwrap();
    let r = m.create_listing(bob(), "nft.near".to_string(), "1".to_string(), 10, 20, 5, 99, true);
    assert_eq!(r, Ok(()));
    let l = m.get_listing(&"nft.near".to_string(), &"1".to_string()).unwrap();
    assert_eq!(l.seller, "bob");
    assert_eq!(l.starting_price, 10);
    assert_eq!(l.end_at, 20);
    assert_eq!(l.started_at, 5);
    assert!(l.is_auction);
    assert_eq!(l.highest_price, 0);
    assert_eq!(l.approval_id, 1);
}

#[test]
fn bids_must_strictly_increase() {
    let mut m = Marketplace::new(alice(), 10);
    m.upsert_listing(auction("alice", "nft.near", "1", 100, 200));
    let nft = || "nft.near".to_string();
    let tok = || "1".to_string();
    assert_eq!(m.bid(bob(), 1, 150, nft(), tok(), 0), Err(MarketError::BidTooLow));
    assert_eq!(m.bid(bob(), 1, 150, nft(), tok(), 10), Ok(()));
    assert_eq!(m.bid(carol(), 1, 151, nft(), tok(), 10), Err(MarketError::BidTooLow));
    assert_eq!(m.bid(carol(), 1, 151, nft(), tok(), 11), Ok(()));
    let l = m.get_listing(&nft(), &tok()).unwrap();
    assert_eq!(l.highest_price, 11);
    assert_eq!(l.highest_bidder, Some(carol()));
}

#[test]
fn bids_are_checked_for_window_seller_and_mode() {
    let mut m = Marketplace::new(alice(), 10);
    m.upsert_listing(auction("alice", "nft.near", "1", 100, 200));
    m.upsert_listing(listing("alice", "nft.near", "2", 5));
    let nft = || "nft.near".to_string();
    let one = || "1".to_string();
    assert_eq!(m.bid(bob(), 0, 150, nft(), one(), 10), Err(MarketError::RequiresOneYocto));
    assert_eq!(m.bid(bob(), 1, 150, nft(), "9".to_string(), 10), Err(MarketError::ListingNotFound));
    assert_eq!(m.bid(bob(), 1, 150, nft(), "2".to_string(), 10), Err(MarketError::NotAuction));
    assert_eq!(m.bid(bob(), 1, 99, nft(), one(), 10), Err(MarketError::AuctionNotOpen));
    assert_eq!(m.bid(bob(), 1, 200, nft(), one(), 10), Err(MarketError::AuctionNotOpen));
    assert_eq!(m.bid(alice(), 1, 150, nft(), one(), 10), Err(MarketError::SellerCannotBid));
    assert_eq!(m.bid(bob(), 1, 100, nft(), one(), 10), Ok(()));
    assert_eq!(m.bid(carol(), 1, 199, nft(), one(), 11), Ok(()));
}

#[test]
fn auction_window_is_half_open() {
    let l = auction("alice", "nft.near", "1", 100, 200);
    assert!(!is_on_auction(&l, 99));
    assert!(is_on_auction(&l, 100));
    assert!(is_on_auction(&l, 199));
    assert!(!is_on_auction(&l, 200));
}

#[test]
fn auction_purchase_only_by_the_winner_after_close() {
    let mut m = Marketplace::new(alice(), 10);
    m.upsert_listing(auction("alice", "nft.near", "1", 100, 200));
    m.upsert_listing(auction("alice", "nft.near", "2", 100, 200));
    let nft = || "nft.near".to_string();
    let one = || "1".to_string();
    assert_eq!(m.purchase_nft(bob(), 50, 250, nft(), "2".to_string()).err(), Some(MarketError::AuctionNotClosed));
    m.bid(bob(), 1, 150, nft(), one(), 50).unwrap();
    assert_eq!(m.purchase_nft(bob(), 50, 199, nft(), one()).err(), Some(MarketError::AuctionNotClosed));
    assert_eq!(m.purchase_nft(carol(), 50, 200, nft(), one()).err(), Some(MarketError::NotWinner));
    assert_eq!(m.purchase_nft(bob(), 49, 200, nft(), one()).err(), Some(MarketError::InsufficientFunds));
    assert_eq!(m.listings_len(), 2);
    let req = m.purchase_nft(bob(), 60, 200, nft(), one()).unwrap();
    assert_eq!(req.nft_contract_id, "nft.near");
    assert_eq!(req.token_id, "1");
    assert_eq!(req.receiver_id, "bob");
    assert_eq!(req.seller, "alice");
    assert_eq!(req.price, 60);
    assert_eq!(req.approval_id, 1);
    assert_eq!(req.memo, "payout from market");
    assert_eq!(req.max_len_payout, MAX_PAYOUT_ACCOUNTS);
    assert_eq!(m.listings_len(), 1);
    assert!(m.get_listing(&nft(), &one()).is_none());
    assert_eq!(m.purchase_nft(bob(), 60, 200, nft(), one()).err(), Some(MarketError::ListingNotFound));
}

#[test]
fn fixed_purchase_by_anyone_with_enough_funds() {
    let mut m = Marketplace::new(alice(), 10);
    m.upsert_listing(listing("alice", "nft.near", "1", 100));
    let nft = || "nft.near".to_string();
    let one = || "1".to_string();
    assert_eq!(m.purchase_nft(carol(), 99, 0, nft(), one()).err(), Some(MarketError::InsufficientFunds));
    let req = m.purchase_nft(carol(), 120, 7, nft(), one()).unwrap();
    assert_eq!(req.price, 120);
    assert_eq!(req.receiver_id, "charlie");
    assert_eq!(m.listings_len(), 0);
}

#[test]
fn set_price_checks_mode_and_seller() {
    let mut m = Marketplace::new(alice(), 10);
    m.upsert_listing(listing("alice", "nft.near", "1", 100));
    m.upsert_listing(auction("alice", "nft.near", "2", 1, 2));
    let nft = || "nft.near".to_string();
    assert_eq!(m.set_price(bob(), nft(), "1".to_string(), 5), Err(MarketError::NotAuthorized));
    assert_eq!(m.set_price(alice(), nft(), "2".to_string(), 5), Err(MarketError::IsAuction));
    assert_eq!(m.set_price(alice(), nft(), "3".to_string(), 5), Err(MarketError::ListingNotFound));
    assert_eq!(m.get_listing(&nft(), &"1".to_string()).unwrap().starting_price, 100);
}

#[test]
fn cancel_checks_seller_and_frees_the_reserve() {
    let mut m = Marketplace::new(alice(), 10);
    m.storage_deposit(None, alice(), STORAGE_PER_SALE).unwrap();
    m.upsert_listing(auction("alice", "nft.near", "1", 1, 1000));
    let nft = || "nft.near".to_string();
    assert_eq!(m.cancel_listing(bob(), nft(), "1".to_string()), Err(MarketError::NotAuthorized));
    assert_eq!(m.cancel_listing(alice(), nft(), "2".to_string()), Err(MarketError::ListingNotFound));
    assert_eq!(m.storage_withdraw(alice(), 1), Ok(0));
    assert_eq!(m.cancel_listing(alice(), nft(), "1".to_string()), Ok(()));
    assert_eq!(m.owned_listing_count(&alice()), 0);
    assert_eq!(m.storage_withdraw(alice(), 1), Ok(STORAGE_PER_SALE));
}

#[test]
fn removal_takes_out_exactly_one_listing() {
    let mut m = Marketplace::new(alice(), 10);
    m.upsert_listing(listing("alice", "nft.near", "1", 1));
    m.upsert_listing(listing("alice", "nft.near", "2", 2));
    m.upsert_listing(listing("bob", "art.near", "1", 3));
    let l = m.internal_remove_listing("nft.near".to_string(), "1".to_string()).unwrap();
    assert_eq!(l.starting_price, 1);
    assert_eq!(m.listings_len(), 2);
    assert_eq!(m.owned_listing_count(&alice()), 1);
    assert_eq!(m.owned_listing_count(&bob()), 1);
    assert!(m.get_listing(&"art.near".to_string(), &"1".to_string()).is_some());
    assert_eq!(
        m.internal_remove_listing("nft.near".to_string(), "1".to_string()).err(),
        Some(MarketError::ListingNotFound)
    );
}

#[test]
fn process_purchase_of_a_missing_listing_fails() {
    let mut m = Marketplace::new(alice(), 10);
    let r = m.process_purchase("nft.near".to_string(), "1".to_string(), 5, alice(), bob());
    assert_eq!(r.err(), Some(MarketError::ListingNotFound));
}

#[test]
fn owner_cut_is_floor_of_basis_points() {
    assert_eq!(owner_cut_of(150, 1000), 15);
    assert_eq!(owner_cut_of(9999, 1), 0);
    assert_eq!(owner_cut_of(10000, 1), 1);
    assert_eq!(owner_cut_of(0, 10000), 0);
    assert_eq!(owner_cut_of(777, 10000), 777);
    assert_eq!(owner_cut_of(u128::MAX, 10000), u128::MAX);
    assert_eq!(owner_cut_of(u128::MAX, 1000), u128::MAX / 10);
    assert_eq!(owner_cut_of(u128::MAX, 0), 0);
    assert_eq!(owner_cut_of(u128::MAX - 1, 9999), (u128::MAX - 1) / 10000 * 9999 + 1453);
}

#[test]
fn resolve_purchase_splits_the_price() {
    let m = Marketplace::new(alice(), 1000);
    let p = m.resolve_purchase(bob(), 150);
    assert_eq!(p.owner_amount, 15);
    assert_eq!(p.seller_amount, 135);
    assert_eq!(p.owner, "alice");
    assert_eq!(p.seller, "bob");
    assert_eq!(p.price, 150);
}

#[test]
fn resolve_purchase_at_the_largest_price() {
    let all = Marketplace::new(alice(), 10000);
    let p = all.resolve_purchase(bob(), u128::MAX);
    assert_eq!(p.owner_amount, u128::MAX);
    assert_eq!(p.seller_amount, 0);
    let none = Marketplace::new(alice(), 0);
    let p = none.resolve_purchase(bob(), u128::MAX);
    assert_eq!(p.owner_amount, 0);
    assert_eq!(p.seller_amount, u128::MAX);
    let tenth = Marketplace::new(alice(), 1000);
    let p = tenth.resolve_purchase(bob(), u128::MAX);
    assert_eq!(p.owner_amount, u128::MAX / 10);
    assert_eq!(p.seller_amount, u128::MAX - u128::MAX / 10);
}

#[test]
fn full_cut_pays_the_owner_the_whole_price() {
    let m = Marketplace::new(alice(), 10000);
    let p = m.resolve_purchase(bob(), 100);
    assert_eq!(p.owner_amount, 100);
    assert_eq!(p.seller_amount, 0);
}

#[test]
fn end_to_end_fixed_sale_leaves_no_index_entries() {
    let mut m = Marketplace::new(alice(), 1000);
    m.storage_deposit(None, bob(), STORAGE_PER_SALE).unwrap();
    m.upsert_listing(listing("alice", "nft.near", "1", 0));
    m.create_listing(bob(), "nft.near".to_string(), "1".to_string(), 0, 0, 0, 0, false).unwrap();
    m.set_price(bob(), "nft.near".to_string(), "1".to_string(), 150).unwrap();
    assert_eq!(m.get_listing(&"nft.near".to_string(), &"1".to_string()).unwrap().starting_price, 150);
    let req = m.purchase_nft(carol(), 150, 42, "nft.near".to_string(), "1".to_string()).unwrap();
    assert_eq!(m.listings_len(), 0);
    assert_eq!(m.owned_listing_count(&bob()), 0);
    assert!(m.get_listing(&"nft.near".to_string(), &"1".to_string()).is_none());
    let p = m.resolve_purchase(req.seller, req.price);
    assert_eq!(p.owner_amount, 15);
    assert_eq!(p.seller_amount, 135);
    assert_eq!(p.seller, "bob");
}

#[test]
fn create_listing_needs_the_quota_prepaid() {
    let mut m = Marketplace::new(alice(), 10);
    m.upsert_listing(listing("alice", "nft.near", "1", 0));
    m.upsert_listing(listing("alice", "nft.near", "2", 0));
    let nft = || "nft.near".to_string();
    assert_eq!(
        m.create_listing(bob(), nft(), "1".to_string(), 10, 0, 0, 0, false),
        Err(MarketError::StorageUnderfunded)
    );
    assert_eq!(m.get_listing(&nft(), &"1".to_string()).unwrap().seller, "alice");
    assert_eq!(m.get_listing(&nft(), &"1".to_string()).unwrap().starting_price, 0);
    m.storage_deposit(None, bob(), STORAGE_PER_SALE).unwrap();
    assert_eq!(m.create_listing(bob(), nft(), "1".to_string(), 10, 0, 0, 0, false), Ok(()));
    assert_eq!(
        m.create_listing(bob(), nft(), "2".to_string(), 10, 0, 0, 0, false),
        Err(MarketError::StorageUnderfunded)
    );
    assert_eq!(m.create_listing(bob(), nft(), "1".to_string(), 12, 0, 0, 0, false), Ok(()));
    m.storage_deposit(None, bob(), STORAGE_PER_SALE).unwrap();
    assert_eq!(m.create_listing(bob(), nft(), "2".to_string(), 10, 0, 0, 0, false), Ok(()));
    assert_eq!(m.owned_listing_count(&bob()), 2);
    assert_eq!(
        m.create_listing(alice(), nft(), "2".to_string(), 10, 0, 0, 0, false),
        Err(MarketError::StorageUnderfunded)
    );
}
