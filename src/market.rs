use vstd::prelude::*;

use crate::index::{
    has_key, lemma_owned_count_step, index_of, keys_unique, lemma_index_of,
    lemma_remove_updates_indices, lemma_update_same_key, listing_removed, owned_count, owner_keys, lemma_owned_count_is_index_size, lemma_owned_count_update,
    lemma_push_updates_indices, owner_index, registry_index, registry_tokens,
    ListingKey,
};
use crate::listing::{is_on_auction, key_of, window_closed, window_open, Listing};
use crate::payout::{
    owner_cut_of, owner_cut_spec, seller_amount_spec, Payout, TransferPayoutRequest,
    MAX_PAYOUT_ACCOUNTS,
};

verus! {

/// Prepaid balance that each open listing reserves: 1000 bytes of storage at
/// 10^19 minor units per byte.
pub const STORAGE_PER_SALE: u128 = 10000000000000000000000;

/// Why a marketplace operation was refused. A refused operation changes
/// nothing.
#[derive(Clone, Copy, Debug, PartialEq, Eq, Structural)]
pub enum MarketError {
    /// No listing stands at the composite key.
    ListingNotFound,
    /// No pre-approved placeholder stands at the composite key.
    ListingNotApproved,
    /// The operation needs an auction listing.
    NotAuction,
    /// The operation needs a fixed-price listing.
    IsAuction,
    /// Bidding needs the auction window to be open.
    AuctionNotOpen,
    /// An auction purchase needs a closed window and a positive highest bid.
    AuctionNotClosed,
    /// The seller may not bid on the own listing.
    SellerCannotBid,
    /// A bid must exceed the current highest bid.
    BidTooLow,
    /// Only the seller may change or cancel a listing.
    NotAuthorized,
    /// Only the highest bidder may buy a closed auction.
    NotWinner,
    /// The attached funds are below the price.
    InsufficientFunds,
    /// A storage deposit must cover at least one listing.
    InsufficientDeposit,
    /// The storage balance would exceed the largest amount.
    BalanceOverflow,
    /// The call needs exactly one minor unit attached.
    RequiresOneYocto,
    /// The stored balance is below what the open listings reserve.
    StorageUnderfunded,
}

/// One account's prepaid storage balance.
#[derive(Clone, Debug)]
pub struct StorageBalance {
    pub account_id: String,
    pub balance: u128,
}

/// The whole contract state: the listings, which also make up the owner and
/// registry indices, and the storage balances.
pub struct Marketplace {
    /// The platform owner, who receives the platform's cut.
    pub owner: String,
    /// The platform's cut, in basis points.
    pub owner_cut: u16,
    /// Active listings, at most one per composite key.
    pub listings: Vec<Listing>,
    /// Storage balances, at most one per account.
    pub storage_deposits: Vec<StorageBalance>,
}

/// The balances that a list of storage entries records.
pub open spec fn balance_map(s: Seq<StorageBalance>) -> Map<Seq<char>, u128>
    decreases s.len(),
{
    if s.len() == 0 {
        Map::empty()
    } else {
        balance_map(s.drop_last()).insert(s.last().account_id@, s.last().balance)
    }
}

/// No account appears twice.
pub open spec fn accounts_unique(s: Seq<StorageBalance>) -> bool {
    forall|i: int, j: int|
        0 <= i < j < s.len() ==> s[i].account_id@ != s[j].account_id@
}

proof fn lemma_balance_lookup(s: Seq<StorageBalance>, i: int)
    requires
        accounts_unique(s),
        0 <= i < s.len(),
    ensures
        balance_map(s).dom().contains(s[i].account_id@),
        balance_map(s)[s[i].account_id@] == s[i].balance,
    decreases s.len(),
{
    if i < s.len() - 1 {
        lemma_balance_lookup(s.drop_last(), i);
    }
}

proof fn lemma_balance_absent(s: Seq<StorageBalance>, a: Seq<char>)
    requires
        forall|i: int| 0 <= i < s.len() ==> s[i].account_id@ != a,
    ensures
        !balance_map(s).dom().contains(a),
    decreases s.len(),
{
    if s.len() > 0 {
        lemma_balance_absent(s.drop_last(), a);
    }
}

proof fn lemma_balance_update(s: Seq<StorageBalance>, i: int, e: StorageBalance)
    requires
        accounts_unique(s),
        0 <= i < s.len(),
        s[i].account_id@ == e.account_id@,
    ensures
        balance_map(s.update(i, e)) == balance_map(s).insert(e.account_id@, e.balance),
        accounts_unique(s.update(i, e)),
    decreases s.len(),
{
    let t = s.update(i, e);
    if i == s.len() - 1 {
        assert(t.drop_last() =~= s.drop_last());
        assert(balance_map(t) =~= balance_map(s).insert(e.account_id@, e.balance));
    } else {
        assert(t.drop_last() =~= s.drop_last().update(i, e));
        lemma_balance_update(s.drop_last(), i, e);
        assert(balance_map(t) =~= balance_map(s).insert(e.account_id@, e.balance));
    }
}

proof fn lemma_balance_push(s: Seq<StorageBalance>, e: StorageBalance)
    requires
        accounts_unique(s),
        forall|i: int| 0 <= i < s.len() ==> s[i].account_id@ != e.account_id@,
    ensures
        balance_map(s.push(e)) == balance_map(s).insert(e.account_id@, e.balance),
        accounts_unique(s.push(e)),
{
    assert(s.push(e).drop_last() =~= s);
}

impl Marketplace {
    /// The state's invariant: listing keys and storage accounts are unique,
    /// and the platform's cut is at most a whole (10000 basis points).
    pub open spec fn wf(&self) -> bool {
        &&& keys_unique(self.listings@)
        &&& accounts_unique(self.storage_deposits@)
        &&& self.owner_cut <= 10000
    }

    /// The stored balance of account `a`; 0 for an account never seen.
    pub open spec fn balance_spec(&self, a: Seq<char>) -> u128 {
        let m = balance_map(self.storage_deposits@);
        if m.dom().contains(a) { m[a] } else { 0 }
    }

    /// What `n` open listings reserve.
    pub open spec fn reserved_for(n: nat) -> int {
        n * STORAGE_PER_SALE as int
    }

    /// A marketplace with no listings and no balances, owned by `owner`, that
    /// keeps `owner_cut` basis points (at most 10000) of each sale.
    pub fn new(owner: String, owner_cut: u16) -> (r: Marketplace)
        requires
            owner_cut <= 10000,
        ensures
            r.wf(),
            r.owner == owner,
            r.owner_cut == owner_cut,
            r.listings@.len() == 0,
            r.storage_deposits@.len() == 0,
    {
        Marketplace { owner, owner_cut, listings: Vec::new(), storage_deposits: Vec::new() }
    }

    fn find_account(&self, a: &String) -> (r: Option<usize>)
        ensures
            match r {
                Some(i) => i < self.storage_deposits@.len()
                    && self.storage_deposits@[i as int].account_id@ == a@,
                None => forall|i: int|
                    0 <= i < self.storage_deposits@.len()
                        ==> self.storage_deposits@[i].account_id@ != a@,
            },
    {
        let mut i: usize = 0;
        while i < self.storage_deposits.len()
            invariant
                i <= self.storage_deposits@.len(),
                forall|j: int| 0 <= j < i ==> self.storage_deposits@[j].account_id@ != a@,
            decreases self.storage_deposits@.len() - i,
        {
            if self.storage_deposits[i].account_id == *a {
                return Some(i);
            }
            i = i + 1;
        }
        None
    }

    /// The prepaid storage balance of `account_id`; 0 for an unknown account.
    pub fn storage_balance_of(&self, account_id: String) -> (r: u128)
        requires
            self.wf(),
        ensures
            r == self.balance_spec(account_id@),
    {
        match self.find_account(&account_id) {
            Some(i) => {
                proof {
                    lemma_balance_lookup(self.storage_deposits@, i as int);
                }
                self.storage_deposits[i].balance
            },
            None => {
                proof {
                    lemma_balance_absent(self.storage_deposits@, account_id@);
                }
                0
            },
        }
    }

    /// The balance that one listing reserves.
    pub fn storage_minimum_balance(&self) -> (r: u128)
        ensures
            r == STORAGE_PER_SALE,
    {
        STORAGE_PER_SALE
    }

    /// Sets the stored balance of `a` to `amount`, adding the account if new.
    fn set_balance(&mut self, a: String, amount: u128)
        requires
            old(self).wf(),
        ensures
            final(self).wf(),
            balance_map(final(self).storage_deposits@)
                == balance_map(old(self).storage_deposits@).insert(a@, amount),
            final(self).listings == old(self).listings,
            final(self).owner == old(self).owner,
            final(self).owner_cut == old(self).owner_cut,
    {
        let e = StorageBalance { account_id: a, balance: amount };
        match self.find_account(&e.account_id) {
            Some(i) => {
                proof {
                    lemma_balance_update(self.storage_deposits@, i as int, e);
                }
                self.storage_deposits.set(i, e);
            },
            None => {
                proof {
                    lemma_balance_push(self.storage_deposits@, e);
                }
                self.storage_deposits.push(e);
            },
        }
    }

    /// Adds `deposit` to the storage balance of `account_id`, or of the
    /// caller `predecessor` when no account is given. A deposit below one
    /// listing's quota is refused.
    pub fn storage_deposit(
        &mut self,
        account_id: Option<String>,
        predecessor: String,
        deposit: u128,
    ) -> (r: Result<(), MarketError>)
        requires
            old(self).wf(),
        ensures
            final(self).wf(),
            ({
                let target = match account_id {
                    Some(a) => a@,
                    None => predecessor@,
                };
                let before = old(self).balance_spec(target);
                if deposit < STORAGE_PER_SALE {
                    r == Err::<(), MarketError>(MarketError::InsufficientDeposit)
                        && *final(self) == *old(self)
                } else if before as int + deposit as int > u128::MAX as int {
                    r == Err::<(), MarketError>(MarketError::BalanceOverflow)
                        && *final(self) == *old(self)
                } else {
                    &&& r == Ok::<(), MarketError>(())
                    &&& balance_map(final(self).storage_deposits@)
                        == balance_map(old(self).storage_deposits@).insert(
                        target,
                        (before + deposit) as u128,
                    )
                    &&& final(self).balance_spec(target) == before + deposit
                    &&& final(self).listings == old(self).listings
                    &&& final(self).owner == old(self).owner
                    &&& final(self).owner_cut == old(self).owner_cut
                }
            }),
    {
        let target = match account_id {
            Some(a) => a,
            None => predecessor,
        };
        if deposit < STORAGE_PER_SALE {
            return Err(MarketError::InsufficientDeposit);
        }
        let before = self.storage_balance_of(target.clone());
        match before.checked_add(deposit) {
            Some(total) => {
                self.set_balance(target, total);
                Ok(())
            },
            None => Err(MarketError::BalanceOverflow),
        }
    }

    /// The number of open listings whose seller is `seller`.
    pub fn owned_listing_count(&self, seller: &String) -> (r: usize)
        requires
            self.wf(),
        ensures
            r == owned_count(self.listings@, seller@),
            r == owner_keys(self.listings@, seller@).len(),
    {
        proof {
            lemma_owned_count_is_index_size(self.listings@, seller@);
        }
        let mut i: usize = 0;
        let mut c: usize = 0;
        while i < self.listings.len()
            invariant
                i <= self.listings@.len(),
                c == owned_count(self.listings@.take(i as int), seller@),
                c <= i,
            decreases self.listings@.len() - i,
        {
            proof {
                lemma_owned_count_step(self.listings@, i as int, seller@);
            }
            if self.listings[i].seller == *seller {
                c = c + 1;
            }
            i = i + 1;
        }
        assert(self.listings@.take(i as int) =~= self.listings@);
        c
    }

    /// Pays the caller back what its balance holds beyond what its open
    /// listings reserve, and keeps the reserve stored. Needs exactly one
    /// minor unit attached. Returns the amount to transfer to the caller.
    pub fn storage_withdraw(&mut self, caller: String, attached: u128) -> (r: Result<
        u128,
        MarketError,
    >)
        requires
            old(self).wf(),
        ensures
            final(self).wf(),
            ({
                let balance = old(self).balance_spec(caller@);
                let reserved = Self::reserved_for(owned_count(old(self).listings@, caller@));
                if attached != 1 {
                    r == Err::<u128, MarketError>(MarketError::RequiresOneYocto)
                        && *final(self) == *old(self)
                } else if (balance as int) < reserved {
                    r == Err::<u128, MarketError>(MarketError::StorageUnderfunded)
                        && *final(self) == *old(self)
                } else {
                    &&& r == Ok::<u128, MarketError>((balance - reserved) as u128)
                    &&& final(self).balance_spec(caller@) == reserved
                    &&& forall|a: Seq<char>|
                        a != caller@ ==> final(self).balance_spec(a) == old(self).balance_spec(a)
                    &&& final(self).listings == old(self).listings
                    &&& final(self).owner == old(self).owner
                    &&& final(self).owner_cut == old(self).owner_cut
                }
            }),
    {
        if attached != 1 {
            return Err(MarketError::RequiresOneYocto);
        }
        let balance = self.storage_balance_of(caller.clone());
        let n = self.owned_listing_count(&caller);
        let reserved: u128 = match (n as u128).checked_mul(STORAGE_PER_SALE) {
            Some(v) => v,
            None => {
                return Err(MarketError::StorageUnderfunded);
            },
        };
        if balance < reserved {
            return Err(MarketError::StorageUnderfunded);
        }
        let amount = balance - reserved;
        if amount > 0 {
            self.set_balance(caller, reserved);
        }
        Ok(amount)
    }

    /// The position of the listing at `(nft_contract_id, token_id)`, if any.
    fn find_listing(&self, nft_contract_id: &String, token_id: &String) -> (r: Option<usize>)
        requires
            self.wf(),
        ensures
            match r {
                Some(i) => i < self.listings@.len() && key_of(self.listings@[i as int]) == (
                nft_contract_id@,
                token_id@,
                ) && index_of(self.listings@, (nft_contract_id@, token_id@)) == i,
                None => !has_key(self.listings@, (nft_contract_id@, token_id@)),
            },
    {
        let mut i: usize = 0;
        while i < self.listings.len()
            invariant
                i <= self.listings@.len(),
                keys_unique(self.listings@),
                forall|j: int|
                    0 <= j < i ==> key_of(self.listings@[j]) != (nft_contract_id@, token_id@),
            decreases self.listings@.len() - i,
        {
            if self.listings[i].nft_contract_id == *nft_contract_id
                && self.listings[i].token_id == *token_id {
                proof {
                    lemma_index_of(self.listings@, i as int);
                }
                return Some(i);
            }
            i = i + 1;
        }
        None
    }

    /// The listing at `(nft_contract_id, token_id)`, if any.
    pub fn get_listing(&self, nft_contract_id: &String, token_id: &String) -> (r: Option<&Listing>)
        requires
            self.wf(),
        ensures
            match r {
                Some(l) => has_key(self.listings@, (nft_contract_id@, token_id@)) && *l
                    == self.listings@[index_of(self.listings@, (nft_contract_id@, token_id@))],
                None => !has_key(self.listings@, (nft_contract_id@, token_id@)),
            },
    {
        match self.find_listing(nft_contract_id, token_id) {
            Some(i) => Some(&self.listings[i]),
            None => None,
        }
    }

    /// The number of open listings.
    pub fn listings_len(&self) -> (r: usize)
        ensures
            r == self.listings@.len(),
    {
        self.listings.len()
    }

    /// Puts `listing` in the store under its composite key, overwriting the
    /// listing that stands there. The indices follow, since they are read
    /// off the store.
    pub fn upsert_listing(&mut self, listing: Listing)
        requires
            old(self).wf(),
        ensures
            final(self).wf(),
            ({
                let k = key_of(listing);
                if has_key(old(self).listings@, k) {
                    final(self).listings@ == old(self).listings@.update(
                        index_of(old(self).listings@, k),
                        listing,
                    )
                } else {
                    &&& final(self).listings@ == old(self).listings@.push(listing)
                    &&& owner_index(final(self).listings@) == owner_index(
                        old(self).listings@,
                    ).insert(listing.seller@, owner_keys(old(self).listings@, listing.seller@).insert(k))
                    &&& registry_index(final(self).listings@) == registry_index(
                        old(self).listings@,
                    ).insert(
                        listing.nft_contract_id@,
                        registry_tokens(old(self).listings@, listing.nft_contract_id@).insert(
                            listing.token_id@,
                        ),
                    )
                }
            }),
            final(self).storage_deposits == old(self).storage_deposits,
            final(self).owner == old(self).owner,
            final(self).owner_cut == old(self).owner_cut,
    {
        match self.find_listing(&listing.nft_contract_id, &listing.token_id) {
            Some(i) => {
                proof {
                    lemma_update_same_key(self.listings@, i as int, listing);
                }
                self.listings.set(i, listing);
            },
            None => {
                proof {
                    lemma_push_updates_indices(self.listings@, listing);
                }
                self.listings.push(listing);
            },
        }
    }

    /// Removes the listing at `(nft_contract_id, token_id)` and returns it.
    /// This is the one path by which a listing leaves the store: the owner
    /// and registry indices lose exactly its key, and an entry left empty
    /// goes away.
    pub fn internal_remove_listing(&mut self, nft_contract_id: String, token_id: String) -> (r:
        Result<Listing, MarketError>)
        requires
            old(self).wf(),
        ensures
            final(self).wf(),
            !has_key(old(self).listings@, (nft_contract_id@, token_id@)) ==> r == Err::<
                Listing,
                MarketError,
            >(MarketError::ListingNotFound) && *final(self) == *old(self),
            has_key(old(self).listings@, (nft_contract_id@, token_id@)) ==> match r {
                Ok(l) => {
                    &&& key_of(l) == (nft_contract_id@, token_id@)
                    &&& l == old(self).listings@[index_of(
                        old(self).listings@,
                        (nft_contract_id@, token_id@),
                    )]
                    &&& final(self).listings@ == old(self).listings@.remove(
                        index_of(old(self).listings@, (nft_contract_id@, token_id@)),
                    )
                    &&& listing_removed(old(self).listings@, final(self).listings@, l)
                    &&& !has_key(final(self).listings@, (nft_contract_id@, token_id@))
                    &&& owner_index(final(self).listings@) == ({
                        let rest = owner_index(old(self).listings@)[l.seller@].remove(key_of(l));
                        if rest.is_empty() {
                            owner_index(old(self).listings@).remove(l.seller@)
                        } else {
                            owner_index(old(self).listings@).insert(l.seller@, rest)
                        }
                    })
                    &&& registry_index(final(self).listings@) == ({
                        let rest = registry_index(old(self).listings@)[nft_contract_id@].remove(
                            token_id@,
                        );
                        if rest.is_empty() {
                            registry_index(old(self).listings@).remove(nft_contract_id@)
                        } else {
                            registry_index(old(self).listings@).insert(nft_contract_id@, rest)
                        }
                    })
                    &&& final(self).storage_deposits == old(self).storage_deposits
                    &&& final(self).owner == old(self).owner
                    &&& final(self).owner_cut == old(self).owner_cut
                },
                Err(_) => false,
            },
    {
        match self.find_listing(&nft_contract_id, &token_id) {
            Some(i) => {
                let ghost before = self.listings@;
                let l = self.listings.remove(i);
                proof {
                    assert(before[i as int] == l);
                    lemma_remove_updates_indices(before, self.listings@, l);
                }
                Ok(l)
            },
            None => Err(MarketError::ListingNotFound),
        }
    }

    /// The listing at key `k` (meaningful where `has_key` holds).
    pub open spec fn listing_at(&self, k: ListingKey) -> Listing {
        self.listings@[index_of(self.listings@, k)]
    }

    /// How many listings `signer` owns once it has become the seller of the
    /// listing at `k`.
    pub open spec fn owned_after_create(&self, signer: Seq<char>, k: ListingKey) -> nat {
        owned_count(self.listings@, signer) + if self.listing_at(k).seller@ == signer {
            0nat
        } else {
            1nat
        }
    }

    /// Why `create_listing` is refused, if it is: there is no pre-approved
    /// placeholder, or the signer's balance does not cover the quota of every
    /// listing it would own afterwards.
    pub open spec fn create_error(&self, signer: Seq<char>, k: ListingKey) -> Option<MarketError> {
        if !has_key(self.listings@, k) {
            Some(MarketError::ListingNotApproved)
        } else if (self.balance_spec(signer) as int) < Self::reserved_for(
            self.owned_after_create(signer, k),
        ) {
            Some(MarketError::StorageUnderfunded)
        } else {
            None
        }
    }

    /// Why `bid` is refused, if it is; the checks run in this order.
    pub open spec fn bid_error(
        &self,
        signer: Seq<char>,
        attached: u128,
        now: u64,
        k: ListingKey,
        price: u128,
    ) -> Option<MarketError> {
        let l = self.listing_at(k);
        if attached != 1 {
            Some(MarketError::RequiresOneYocto)
        } else if !has_key(self.listings@, k) {
            Some(MarketError::ListingNotFound)
        } else if !l.is_auction {
            Some(MarketError::NotAuction)
        } else if !window_open(l, now) {
            Some(MarketError::AuctionNotOpen)
        } else if l.seller@ == signer {
            Some(MarketError::SellerCannotBid)
        } else if price <= l.highest_price {
            Some(MarketError::BidTooLow)
        } else {
            None
        }
    }

    /// Why `cancel_listing` is refused, if it is.
    pub open spec fn cancel_error(&self, signer: Seq<char>, k: ListingKey) -> Option<MarketError> {
        if !has_key(self.listings@, k) {
            Some(MarketError::ListingNotFound)
        } else if self.listing_at(k).seller@ != signer {
            Some(MarketError::NotAuthorized)
        } else {
            None
        }
    }

    /// Why `set_price` is refused, if it is.
    pub open spec fn set_price_error(&self, signer: Seq<char>, k: ListingKey) -> Option<
        MarketError,
    > {
        if !has_key(self.listings@, k) {
            Some(MarketError::ListingNotFound)
        } else if self.listing_at(k).is_auction {
            Some(MarketError::IsAuction)
        } else if self.listing_at(k).seller@ != signer {
            Some(MarketError::NotAuthorized)
        } else {
            None
        }
    }

    /// Why `purchase_nft` is refused, if it is. An auction sells only after
    /// its window has closed with a positive bid, only to the highest bidder,
    /// and only for at least the highest bid; a fixed listing sells to anyone
    /// who attaches at least its price.
    pub open spec fn purchase_error(
        &self,
        signer: Seq<char>,
        deposit: u128,
        now: u64,
        k: ListingKey,
    ) -> Option<MarketError> {
        let l = self.listing_at(k);
        if !has_key(self.listings@, k) {
            Some(MarketError::ListingNotFound)
        } else if l.is_auction {
            if !(window_closed(l, now) && l.highest_price > 0) {
                Some(MarketError::AuctionNotClosed)
            } else if !(l.highest_bidder matches Some(b) && b@ == signer) {
                Some(MarketError::NotWinner)
            } else if deposit < l.highest_price {
                Some(MarketError::InsufficientFunds)
            } else {
                None
            }
        } else if deposit < l.starting_price {
            Some(MarketError::InsufficientFunds)
        } else {
            None
        }
    }

    /// The request to the registry that settles a purchase of `l` by
    /// `buyer` at `price`, with its continuation bound to `seller`.
    pub open spec fn request_matches(
        req: TransferPayoutRequest,
        l: Listing,
        buyer: Seq<char>,
        price: u128,
        seller: Seq<char>,
    ) -> bool {
        &&& req.nft_contract_id@ == l.nft_contract_id@
        &&& req.token_id@ == l.token_id@
        &&& req.receiver_id@ == buyer
        &&& req.approval_id == l.approval_id
        &&& req.memo@ == "payout from market"@
        &&& req.price == price
        &&& req.max_len_payout == MAX_PAYOUT_ACCOUNTS
        &&& req.seller@ == seller
    }

    /// Fills in the terms of the pre-approved placeholder listing at
    /// `(nft_address, token_id)`: seller, price, window and auction flag.
    /// The highest bid stays as it stands.
    pub fn create_listing(
        &mut self,
        signer: String,
        nft_address: String,
        token_id: String,
        starting_price: u128,
        end_at: u64,
        started_at: u64,
        _highest_price: u128,
        is_auction: bool,
    ) -> (r: Result<(), MarketError>)
        requires
            old(self).wf(),
        ensures
            final(self).wf(),
            ({
                let k = (nft_address@, token_id@);
                match old(self).create_error(signer@, k) {
                    Some(e) => r == Err::<(), MarketError>(e) && *final(self) == *old(self),
                    None => {
                        let l = old(self).listing_at(k);
                        &&& r == Ok::<(), MarketError>(())
                        &&& final(self).listings@ == old(self).listings@.update(
                            index_of(old(self).listings@, k),
                            (Listing {
                                seller: signer,
                                starting_price,
                                end_at,
                                started_at,
                                is_auction,
                                ..l
                            }),
                        )
                        &&& owned_count(final(self).listings@, signer@) == old(
                            self,
                        ).owned_after_create(signer@, k)
                        &&& final(self).balance_spec(signer@) as int >= Self::reserved_for(
                            owned_count(final(self).listings@, signer@),
                        )
                        &&& final(self).storage_deposits == old(self).storage_deposits
                        &&& final(self).owner == old(self).owner
                        &&& final(self).owner_cut == old(self).owner_cut
                    },
                }
            }),
    {
        match self.find_listing(&nft_address, &token_id) {
            None => Err(MarketError::ListingNotApproved),
            Some(i) => {
                let owned = self.owned_listing_count(&signer);
                let added: usize = if self.listings[i].seller == signer {
                    0
                } else {
                    1
                };
                let balance = self.storage_balance_of(signer.clone());
                let needed: u128 = match ((owned as u128) + (added as u128)).checked_mul(
                    STORAGE_PER_SALE,
                ) {
                    Some(v) => v,
                    None => {
                        return Err(MarketError::StorageUnderfunded);
                    },
                };
                if balance < needed {
                    return Err(MarketError::StorageUnderfunded);
                }
                let ghost before = self.listings@;
                let mut l = self.listings.remove(i);
                l.seller = signer;
                l.starting_price = starting_price;
                l.end_at = end_at;
                l.started_at = started_at;
                l.is_auction = is_auction;
                proof {
                    lemma_owned_count_update(before, i as int, l, signer@);
                }
                self.listings.insert(i, l);
                assert(self.listings@ =~= before.update(i as int, l));
                Ok(())
            },
        }
    }

    /// Places a bid of `price` by `signer` at time `now` on the auction at
    /// `(nft_address, token_id)`; exactly one minor unit must be attached.
    /// The bid becomes the highest one. Bids hold no funds.
    pub fn bid(
        &mut self,
        signer: String,
        attached: u128,
        now: u64,
        nft_address: String,
        token_id: String,
        price: u128,
    ) -> (r: Result<(), MarketError>)
        requires
            old(self).wf(),
        ensures
            final(self).wf(),
            ({
                let k = (nft_address@, token_id@);
                match old(self).bid_error(signer@, attached, now, k, price) {
                    Some(e) => r == Err::<(), MarketError>(e) && *final(self) == *old(self),
                    None => {
                        let l = old(self).listing_at(k);
                        &&& r == Ok::<(), MarketError>(())
                        &&& price > l.highest_price
                        &&& final(self).listings@ == old(self).listings@.update(
                            index_of(old(self).listings@, k),
                            (Listing { highest_price: price, highest_bidder: Some(signer), ..l }),
                        )
                        &&& final(self).storage_deposits == old(self).storage_deposits
                        &&& final(self).owner == old(self).owner
                        &&& final(self).owner_cut == old(self).owner_cut
                    },
                }
            }),
    {
        if attached != 1 {
            return Err(MarketError::RequiresOneYocto);
        }
        let i = match self.find_listing(&nft_address, &token_id) {
            None => {
                return Err(MarketError::ListingNotFound);
            },
            Some(i) => i,
        };
        if !self.listings[i].is_auction {
            return Err(MarketError::NotAuction);
        }
        if !is_on_auction(&self.listings[i], now) {
            return Err(MarketError::AuctionNotOpen);
        }
        if self.listings[i].seller == signer {
            return Err(MarketError::SellerCannotBid);
        }
        if price <= self.listings[i].highest_price {
            return Err(MarketError::BidTooLow);
        }
        let mut l = self.listings.remove(i);
        l.highest_price = price;
        l.highest_bidder = Some(signer);
        self.listings.insert(i, l);
        Ok(())
    }

    /// Sets the price of the fixed listing at `(nft_address, token_id)`;
    /// only its seller may.
    pub fn set_price(&mut self, signer: String, nft_address: String, token_id: String, price: u128)
        -> (r: Result<(), MarketError>)
        requires
            old(self).wf(),
        ensures
            final(self).wf(),
            ({
                let k = (nft_address@, token_id@);
                match old(self).set_price_error(signer@, k) {
                    Some(e) => r == Err::<(), MarketError>(e) && *final(self) == *old(self),
                    None => {
                        let l = old(self).listing_at(k);
                        &&& r == Ok::<(), MarketError>(())
                        &&& final(self).listings@ == old(self).listings@.update(
                            index_of(old(self).listings@, k),
                            (Listing { starting_price: price, ..l }),
                        )
                        &&& final(self).storage_deposits == old(self).storage_deposits
                        &&& final(self).owner == old(self).owner
                        &&& final(self).owner_cut == old(self).owner_cut
                    },
                }
            }),
    {
        let i = match self.find_listing(&nft_address, &token_id) {
            None => {
                return Err(MarketError::ListingNotFound);
            },
            Some(i) => i,
        };
        if self.listings[i].is_auction {
            return Err(MarketError::IsAuction);
        }
        if self.listings[i].seller != signer {
            return Err(MarketError::NotAuthorized);
        }
        let mut l = self.listings.remove(i);
        l.starting_price = price;
        self.listings.insert(i, l);
        Ok(())
    }

    /// Withdraws the listing at `(nft_address, token_id)`, whatever its
    /// auction state; only its seller may. The storage it reserved is freed.
    pub fn cancel_listing(&mut self, signer: String, nft_address: String, token_id: String) -> (r:
        Result<(), MarketError>)
        requires
            old(self).wf(),
        ensures
            final(self).wf(),
            ({
                let k = (nft_address@, token_id@);
                match old(self).cancel_error(signer@, k) {
                    Some(e) => r == Err::<(), MarketError>(e) && *final(self) == *old(self),
                    None => {
                        &&& r == Ok::<(), MarketError>(())
                        &&& listing_removed(
                            old(self).listings@,
                            final(self).listings@,
                            old(self).listing_at(k),
                        )
                        &&& final(self).listings@ == old(self).listings@.remove(
                            index_of(old(self).listings@, k),
                        )
                        &&& final(self).storage_deposits == old(self).storage_deposits
                        &&& final(self).owner == old(self).owner
                        &&& final(self).owner_cut == old(self).owner_cut
                    },
                }
            }),
    {
        let i = match self.find_listing(&nft_address, &token_id) {
            None => {
                return Err(MarketError::ListingNotFound);
            },
            Some(i) => i,
        };
        if self.listings[i].seller != signer {
            return Err(MarketError::NotAuthorized);
        }
        match self.internal_remove_listing(nft_address, token_id) {
            Ok(_) => Ok(()),
            Err(e) => Err(e),
        }
    }

    /// The first settlement step: removes the listing at
    /// `(nft_contract_id, token_id)` for good, then returns the transfer
    /// request for the registry, whose continuation later pays `price` out
    /// to `seller` and the platform. Removal comes first, so a listing is
    /// never sold twice, and it is not undone if the transfer fails.
    pub fn process_purchase(
        &mut self,
        nft_contract_id: String,
        token_id: String,
        price: u128,
        seller: String,
        buyer: String,
    ) -> (r: Result<TransferPayoutRequest, MarketError>)
        requires
            old(self).wf(),
        ensures
            final(self).wf(),
            ({
                let k = (nft_contract_id@, token_id@);
                if !has_key(old(self).listings@, k) {
                    r == Err::<TransferPayoutRequest, MarketError>(MarketError::ListingNotFound)
                        && *final(self) == *old(self)
                } else {
                    let l = old(self).listing_at(k);
                    &&& r is Ok
                    &&& Self::request_matches(r->Ok_0, l, buyer@, price, seller@)
                    &&& listing_removed(old(self).listings@, final(self).listings@, l)
                    &&& final(self).listings@ == old(self).listings@.remove(
                        index_of(old(self).listings@, k),
                    )
                    &&& final(self).storage_deposits == old(self).storage_deposits
                    &&& final(self).owner == old(self).owner
                    &&& final(self).owner_cut == old(self).owner_cut
                }
            }),
    {
        let l = match self.internal_remove_listing(nft_contract_id, token_id) {
            Ok(l) => l,
            Err(e) => {
                return Err(e);
            },
        };
        proof {
            reveal_strlit("payout from market");
        }
        Ok(
            TransferPayoutRequest {
                nft_contract_id: l.nft_contract_id,
                receiver_id: buyer,
                token_id: l.token_id,
                approval_id: l.approval_id,
                memo: "payout from market".to_owned(),
                price,
                max_len_payout: MAX_PAYOUT_ACCOUNTS,
                seller,
            },
        )
    }

    /// Buys the listing at `(nft_address, token_id)` for `signer`, who
    /// attached `deposit`, at time `now`. The whole deposit is the settlement
    /// price; any excess over the price is not refunded.
    pub fn purchase_nft(
        &mut self,
        signer: String,
        deposit: u128,
        now: u64,
        nft_address: String,
        token_id: String,
    ) -> (r: Result<TransferPayoutRequest, MarketError>)
        requires
            old(self).wf(),
        ensures
            final(self).wf(),
            ({
                let k = (nft_address@, token_id@);
                match old(self).purchase_error(signer@, deposit, now, k) {
                    Some(e) => r == Err::<TransferPayoutRequest, MarketError>(e) && *final(self)
                        == *old(self),
                    None => {
                        let l = old(self).listing_at(k);
                        &&& r is Ok
                        &&& Self::request_matches(r->Ok_0, l, signer@, deposit, l.seller@)
                        &&& listing_removed(old(self).listings@, final(self).listings@, l)
                        &&& final(self).listings@ == old(self).listings@.remove(
                            index_of(old(self).listings@, k),
                        )
                        &&& final(self).storage_deposits == old(self).storage_deposits
                        &&& final(self).owner == old(self).owner
                        &&& final(self).owner_cut == old(self).owner_cut
                    },
                }
            }),
    {
        let i = match self.find_listing(&nft_address, &token_id) {
            None => {
                return Err(MarketError::ListingNotFound);
            },
            Some(i) => i,
        };
        let l = &self.listings[i];
        if l.is_auction {
            if !(now >= l.end_at && l.highest_price > 0) {
                return Err(MarketError::AuctionNotClosed);
            }
            let winner = match &l.highest_bidder {
                Some(b) => *b == signer,
                None => false,
            };
            if !winner {
                return Err(MarketError::NotWinner);
            }
            if deposit < l.highest_price {
                return Err(MarketError::InsufficientFunds);
            }
        } else if deposit < l.starting_price {
            return Err(MarketError::InsufficientFunds);
        }
        let seller = l.seller.clone();
        self.process_purchase(nft_address, token_id, deposit, seller, signer)
    }

    /// The settlement continuation: splits `price` between `seller` and the
    /// platform owner. It runs whatever the registry's transfer reported.
    pub fn resolve_purchase(&self, seller: String, price: u128) -> (r: Payout)
        requires
            self.wf(),
        ensures
            r.seller == seller,
            r.owner == self.owner,
            r.price == price,
            r.owner_amount == owner_cut_spec(price, self.owner_cut),
            r.seller_amount == seller_amount_spec(price, self.owner_cut),
            r.owner_amount + r.seller_amount == price,
    {
        let cut = owner_cut_of(price, self.owner_cut);
        let seller_amount = price - cut;
        Payout { seller, seller_amount, owner: self.owner.clone(), owner_amount: cut, price }
    }
}

} // verus!
