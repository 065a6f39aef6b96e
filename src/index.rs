use vstd::prelude::*;

use crate::listing::{key_of, Listing};

verus! {

/// A composite listing key: registry id and asset id.
pub type ListingKey = (Seq<char>, Seq<char>);

/// No composite key appears twice.
pub open spec fn keys_unique(s: Seq<Listing>) -> bool {
    forall|i: int, j: int| 0 <= i < j < s.len() ==> key_of(s[i]) != key_of(s[j])
}

/// Some listing stands at key `k`.
pub open spec fn has_key(s: Seq<Listing>, k: ListingKey) -> bool {
    exists|i: int| 0 <= i < s.len() && key_of(s[i]) == k
}

/// The position of the listing at key `k`, where there is one.
pub open spec fn index_of(s: Seq<Listing>, k: ListingKey) -> int {
    choose|i: int| 0 <= i < s.len() && key_of(s[i]) == k
}

/// The keys of the listings whose seller is `seller`.
pub open spec fn owner_keys(s: Seq<Listing>, seller: Seq<char>) -> Set<ListingKey> {
    Set::new(
        |k: ListingKey|
            exists|i: int| 0 <= i < s.len() && s[i].seller@ == seller && key_of(s[i]) == k,
    )
}

/// The asset ids of the listings of registry `registry`.
pub open spec fn registry_tokens(s: Seq<Listing>, registry: Seq<char>) -> Set<Seq<char>> {
    Set::new(
        |t: Seq<char>|
            exists|i: int|
                0 <= i < s.len() && s[i].nft_contract_id@ == registry && s[i].token_id@ == t,
    )
}

/// The owner index: each seller with at least one listing, to the keys of
/// its listings. A seller without listings has no entry.
pub open spec fn owner_index(s: Seq<Listing>) -> Map<Seq<char>, Set<ListingKey>> {
    Map::new(|a: Seq<char>| owner_keys(s, a) != Set::<ListingKey>::empty(), |a: Seq<char>| owner_keys(s, a))
}

/// The registry index: each registry with at least one listing, to the
/// asset ids of its listings. A registry without listings has no entry.
pub open spec fn registry_index(s: Seq<Listing>) -> Map<Seq<char>, Set<Seq<char>>> {
    Map::new(
        |r: Seq<char>| registry_tokens(s, r) != Set::<Seq<char>>::empty(),
        |r: Seq<char>| registry_tokens(s, r),
    )
}

/// `after` is `before` with the listing `l` taken out of its place.
pub open spec fn listing_removed(before: Seq<Listing>, after: Seq<Listing>, l: Listing) -> bool {
    exists|i: int| 0 <= i < before.len() && before[i] == l && after == before.remove(i)
}

/// With unique keys, the listing at position `i` is the one `index_of` finds.
pub proof fn lemma_index_of(s: Seq<Listing>, i: int)
    requires
        keys_unique(s),
        0 <= i < s.len(),
    ensures
        index_of(s, key_of(s[i])) == i,
{
    let j = index_of(s, key_of(s[i]));
    assert(0 <= j < s.len() && key_of(s[j]) == key_of(s[i]));
}

/// Overwriting a listing with one of the same key keeps keys unique.
pub proof fn lemma_update_same_key(s: Seq<Listing>, i: int, l: Listing)
    requires
        keys_unique(s),
        0 <= i < s.len(),
        key_of(l) == key_of(s[i]),
    ensures
        keys_unique(s.update(i, l)),
{
}

/// Appending a listing under a new key keeps keys unique.
pub proof fn lemma_push_new_key(s: Seq<Listing>, l: Listing)
    requires
        keys_unique(s),
        !has_key(s, key_of(l)),
    ensures
        keys_unique(s.push(l)),
{
    assert forall|i: int, j: int| 0 <= i < j < s.push(l).len() implies key_of(s.push(l)[i])
        != key_of(s.push(l)[j]) by {
        if j == s.len() {
            assert(key_of(s[i]) != key_of(l));
        }
    }
}

proof fn lemma_remove_owner_keys(s: Seq<Listing>, i: int, a: Seq<char>)
    requires
        keys_unique(s),
        0 <= i < s.len(),
    ensures
        owner_keys(s.remove(i), a) == if a == s[i].seller@ {
            owner_keys(s, a).remove(key_of(s[i]))
        } else {
            owner_keys(s, a)
        },
{
    let t = s.remove(i);
    let l = s[i];
    let lhs = owner_keys(t, a);
    let rhs = if a == l.seller@ {
        owner_keys(s, a).remove(key_of(l))
    } else {
        owner_keys(s, a)
    };
    assert forall|k: ListingKey| lhs.contains(k) implies rhs.contains(k) by {
        let j = choose|j: int| 0 <= j < t.len() && t[j].seller@ == a && key_of(t[j]) == k;
        let js = if j < i { j } else { j + 1 };
        assert(s[js] == t[j]);
        assert(js != i);
    }
    assert forall|k: ListingKey| rhs.contains(k) implies lhs.contains(k) by {
        let j = choose|j: int| 0 <= j < s.len() && s[j].seller@ == a && key_of(s[j]) == k;
        assert(j != i);
        let jt = if j < i { j } else { j - 1 };
        assert(t[jt] == s[j]);
    }
    assert(lhs =~= rhs);
}

proof fn lemma_remove_registry_tokens(s: Seq<Listing>, i: int, r: Seq<char>)
    requires
        keys_unique(s),
        0 <= i < s.len(),
    ensures
        registry_tokens(s.remove(i), r) == if r == s[i].nft_contract_id@ {
            registry_tokens(s, r).remove(s[i].token_id@)
        } else {
            registry_tokens(s, r)
        },
{
    let t = s.remove(i);
    let l = s[i];
    let lhs = registry_tokens(t, r);
    let rhs = if r == l.nft_contract_id@ {
        registry_tokens(s, r).remove(l.token_id@)
    } else {
        registry_tokens(s, r)
    };
    assert forall|k: Seq<char>| lhs.contains(k) implies rhs.contains(k) by {
        let j = choose|j: int|
            0 <= j < t.len() && t[j].nft_contract_id@ == r && t[j].token_id@ == k;
        let js = if j < i { j } else { j + 1 };
        assert(s[js] == t[j]);
        assert(js != i);
        assert(key_of(s[js]) != key_of(s[i]));
    }
    assert forall|k: Seq<char>| rhs.contains(k) implies lhs.contains(k) by {
        let j = choose|j: int|
            0 <= j < s.len() && s[j].nft_contract_id@ == r && s[j].token_id@ == k;
        assert(j != i);
        let jt = if j < i { j } else { j - 1 };
        assert(t[jt] == s[j]);
    }
    assert(lhs =~= rhs);
}

/// Removing one listing keeps keys unique, takes exactly its key out of its
/// seller's entry and exactly its asset id out of its registry's entry, and
/// drops an entry whose set becomes empty instead of keeping it empty. No
/// other entry changes.
pub proof fn lemma_remove_updates_indices(before: Seq<Listing>, after: Seq<Listing>, l: Listing)
    requires
        keys_unique(before),
        listing_removed(before, after, l),
    ensures
        keys_unique(after),
        !has_key(after, key_of(l)),
        owner_index(before).dom().contains(l.seller@),
        owner_index(before)[l.seller@].contains(key_of(l)),
        registry_index(before).dom().contains(l.nft_contract_id@),
        registry_index(before)[l.nft_contract_id@].contains(l.token_id@),
        owner_index(after) == ({
            let rest = owner_index(before)[l.seller@].remove(key_of(l));
            if rest.is_empty() {
                owner_index(before).remove(l.seller@)
            } else {
                owner_index(before).insert(l.seller@, rest)
            }
        }),
        registry_index(after) == ({
            let rest = registry_index(before)[l.nft_contract_id@].remove(l.token_id@);
            if rest.is_empty() {
                registry_index(before).remove(l.nft_contract_id@)
            } else {
                registry_index(before).insert(l.nft_contract_id@, rest)
            }
        }),
{
    let i = choose|i: int| 0 <= i < before.len() && before[i] == l && after == before.remove(i);
    assert(owner_keys(before, l.seller@).contains(key_of(l)));
    assert(registry_tokens(before, l.nft_contract_id@).contains(l.token_id@));
    assert forall|x: int, y: int| 0 <= x < y < after.len() implies key_of(after[x]) != key_of(
        after[y],
    ) by {
        let xs = if x < i { x } else { x + 1 };
        let ys = if y < i { y } else { y + 1 };
        assert(after[x] == before[xs] && after[y] == before[ys]);
    }
    if has_key(after, key_of(l)) {
        let j = choose|j: int| 0 <= j < after.len() && key_of(after[j]) == key_of(l);
        let js = if j < i { j } else { j + 1 };
        assert(after[j] == before[js]);
    }
    assert forall|a: Seq<char>| #[trigger] owner_keys(after, a) == if a == l.seller@ {
        owner_keys(before, a).remove(key_of(l))
    } else {
        owner_keys(before, a)
    } by {
        lemma_remove_owner_keys(before, i, a);
    }
    assert forall|r: Seq<char>| #[trigger] registry_tokens(after, r) == if r
        == l.nft_contract_id@ {
        registry_tokens(before, r).remove(l.token_id@)
    } else {
        registry_tokens(before, r)
    } by {
        lemma_remove_registry_tokens(before, i, r);
    }
    let rest_o = owner_index(before)[l.seller@].remove(key_of(l));
    let want_o = if rest_o.is_empty() {
        owner_index(before).remove(l.seller@)
    } else {
        owner_index(before).insert(l.seller@, rest_o)
    };
    assert forall|a: Seq<char>| owner_index(after).dom().contains(a) == want_o.dom().contains(a)
        by {
        if a == l.seller@ {
            if rest_o.is_empty() {
                assert(owner_keys(after, a) =~= Set::<ListingKey>::empty());
            } else {
                assert(owner_keys(after, a) != Set::<ListingKey>::empty());
            }
        }
    }
    assert(owner_index(after) =~= want_o);
    let rest_r = registry_index(before)[l.nft_contract_id@].remove(l.token_id@);
    let want_r = if rest_r.is_empty() {
        registry_index(before).remove(l.nft_contract_id@)
    } else {
        registry_index(before).insert(l.nft_contract_id@, rest_r)
    };
    assert forall|r: Seq<char>|
        registry_index(after).dom().contains(r) == want_r.dom().contains(r) by {
        if r == l.nft_contract_id@ {
            if rest_r.is_empty() {
                assert(registry_tokens(after, r) =~= Set::<Seq<char>>::empty());
            } else {
                assert(registry_tokens(after, r) != Set::<Seq<char>>::empty());
            }
        }
    }
    assert(registry_index(after) =~= want_r);
}

/// A seller's owner-index entry holds a key exactly when a listing with
/// that key and that seller exists, and a registry's entry holds an asset
/// id exactly when a listing of that registry and asset exists.
pub proof fn lemma_indices_match_listings(s: Seq<Listing>, seller: Seq<char>, k: ListingKey)
    ensures
        (owner_index(s).dom().contains(seller) && owner_index(s)[seller].contains(k)) <==> (
        exists|i: int| 0 <= i < s.len() && s[i].seller@ == seller && key_of(s[i]) == k),
        (registry_index(s).dom().contains(k.0) && registry_index(s)[k.0].contains(k.1)) <==> (
        exists|i: int| 0 <= i < s.len() && key_of(s[i]) == k),
{
    if exists|i: int| 0 <= i < s.len() && s[i].seller@ == seller && key_of(s[i]) == k {
        assert(owner_keys(s, seller).contains(k));
    }
    if exists|i: int| 0 <= i < s.len() && key_of(s[i]) == k {
        let i = choose|i: int| 0 <= i < s.len() && key_of(s[i]) == k;
        assert(registry_tokens(s, k.0).contains(k.1));
    }
    if registry_index(s).dom().contains(k.0) && registry_index(s)[k.0].contains(k.1) {
        let i = choose|i: int|
            0 <= i < s.len() && s[i].nft_contract_id@ == k.0 && s[i].token_id@ == k.1;
        assert(key_of(s[i]) == k);
    }
}

/// The number of listings in `s` whose seller is `seller`.
pub open spec fn owned_count(s: Seq<Listing>, seller: Seq<char>) -> nat
    decreases s.len(),
{
    if s.len() == 0 {
        0
    } else {
        owned_count(s.drop_last(), seller) + if s.last().seller@ == seller { 1nat } else { 0nat }
    }
}

/// Counting one more listing adds one exactly when its seller matches.
pub proof fn lemma_owned_count_step(s: Seq<Listing>, i: int, seller: Seq<char>)
    requires
        0 <= i < s.len(),
    ensures
        owned_count(s.take(i + 1), seller) == owned_count(s.take(i), seller)
            + if s[i].seller@ == seller { 1nat } else { 0nat },
{
    assert(s.take(i + 1).drop_last() =~= s.take(i));
}

/// The number of listings that a seller owns is the size of its owner-index
/// entry, which is finite.
pub proof fn lemma_owned_count_is_index_size(s: Seq<Listing>, seller: Seq<char>)
    requires
        keys_unique(s),
    ensures
        owner_keys(s, seller).finite(),
        owner_keys(s, seller).len() == owned_count(s, seller),
    decreases s.len(),
{
    if s.len() == 0 {
        assert(owner_keys(s, seller) =~= Set::<ListingKey>::empty());
    } else {
        let t = s.drop_last();
        let n = s.len() - 1;
        let last = s[n];
        assert(keys_unique(t));
        lemma_owned_count_is_index_size(t, seller);
        if last.seller@ == seller {
            assert forall|k: ListingKey| #[trigger]
                owner_keys(s, seller).contains(k) == owner_keys(t, seller).insert(
                    key_of(last),
                ).contains(k) by {
                if owner_keys(s, seller).contains(k) {
                    let i = choose|i: int|
                        0 <= i < s.len() && s[i].seller@ == seller && key_of(s[i]) == k;
                    if i < n {
                        assert(t[i] == s[i]);
                    }
                }
                if owner_keys(t, seller).contains(k) {
                    let i = choose|i: int|
                        0 <= i < t.len() && t[i].seller@ == seller && key_of(t[i]) == k;
                    assert(s[i] == t[i]);
                }
            }
            assert(owner_keys(s, seller) =~= owner_keys(t, seller).insert(key_of(last)));
            if owner_keys(t, seller).contains(key_of(last)) {
                let i = choose|i: int|
                    0 <= i < t.len() && t[i].seller@ == seller && key_of(t[i]) == key_of(last);
                assert(s[i] == t[i]);
            }
        } else {
            assert forall|k: ListingKey| #[trigger]
                owner_keys(s, seller).contains(k) == owner_keys(t, seller).contains(k) by {
                if owner_keys(s, seller).contains(k) {
                    let i = choose|i: int|
                        0 <= i < s.len() && s[i].seller@ == seller && key_of(s[i]) == k;
                    assert(i < n);
                    assert(t[i] == s[i]);
                }
                if owner_keys(t, seller).contains(k) {
                    let i = choose|i: int|
                        0 <= i < t.len() && t[i].seller@ == seller && key_of(t[i]) == k;
                    assert(s[i] == t[i]);
                }
            }
            assert(owner_keys(s, seller) =~= owner_keys(t, seller));
        }
    }
}

/// Adding a listing under a new key puts exactly its key into its seller's
/// entry and exactly its asset id into its registry's entry, creating an
/// entry that did not exist. No other entry changes.
pub proof fn lemma_push_updates_indices(before: Seq<Listing>, l: Listing)
    requires
        keys_unique(before),
        !has_key(before, key_of(l)),
    ensures
        keys_unique(before.push(l)),
        owner_index(before.push(l)) == owner_index(before).insert(
            l.seller@,
            owner_keys(before, l.seller@).insert(key_of(l)),
        ),
        registry_index(before.push(l)) == registry_index(before).insert(
            l.nft_contract_id@,
            registry_tokens(before, l.nft_contract_id@).insert(l.token_id@),
        ),
{
    let after = before.push(l);
    let n = before.len() as int;
    lemma_push_new_key(before, l);
    assert forall|a: Seq<char>| #[trigger] owner_keys(after, a) == if a == l.seller@ {
        owner_keys(before, a).insert(key_of(l))
    } else {
        owner_keys(before, a)
    } by {
        let want = if a == l.seller@ {
            owner_keys(before, a).insert(key_of(l))
        } else {
            owner_keys(before, a)
        };
        assert forall|k: ListingKey| owner_keys(after, a).contains(k) == want.contains(k) by {
            if owner_keys(after, a).contains(k) {
                let i = choose|i: int|
                    0 <= i < after.len() && after[i].seller@ == a && key_of(after[i]) == k;
                if i < n {
                    assert(before[i] == after[i]);
                }
            }
            if owner_keys(before, a).contains(k) {
                let i = choose|i: int|
                    0 <= i < before.len() && before[i].seller@ == a && key_of(before[i]) == k;
                assert(after[i] == before[i]);
            }
            if a == l.seller@ && k == key_of(l) {
                assert(after[n] == l);
            }
        }
        assert(owner_keys(after, a) =~= want);
    }
    assert(owner_keys(after, l.seller@).contains(key_of(l)));
    assert(owner_index(after) =~= owner_index(before).insert(
        l.seller@,
        owner_keys(before, l.seller@).insert(key_of(l)),
    ));
    assert forall|r: Seq<char>| #[trigger] registry_tokens(after, r) == if r
        == l.nft_contract_id@ {
        registry_tokens(before, r).insert(l.token_id@)
    } else {
        registry_tokens(before, r)
    } by {
        let want = if r == l.nft_contract_id@ {
            registry_tokens(before, r).insert(l.token_id@)
        } else {
            registry_tokens(before, r)
        };
        assert forall|k: Seq<char>| registry_tokens(after, r).contains(k) == want.contains(k) by {
            if registry_tokens(after, r).contains(k) {
                let i = choose|i: int|
                    0 <= i < after.len() && after[i].nft_contract_id@ == r && after[i].token_id@
                        == k;
                if i < n {
                    assert(before[i] == after[i]);
                }
            }
            if registry_tokens(before, r).contains(k) {
                let i = choose|i: int|
                    0 <= i < before.len() && before[i].nft_contract_id@ == r
                        && before[i].token_id@ == k;
                assert(after[i] == before[i]);
            }
            if r == l.nft_contract_id@ && k == l.token_id@ {
                assert(after[n] == l);
            }
        }
        assert(registry_tokens(after, r) =~= want);
    }
    assert(registry_tokens(after, l.nft_contract_id@).contains(l.token_id@));
    assert(registry_index(after) =~= registry_index(before).insert(
        l.nft_contract_id@,
        registry_tokens(before, l.nft_contract_id@).insert(l.token_id@),
    ));
}

/// Overwriting one listing changes a seller's count only through the old
/// and the new seller of that listing.
pub proof fn lemma_owned_count_update(s: Seq<Listing>, i: int, l: Listing, seller: Seq<char>)
    requires
        0 <= i < s.len(),
    ensures
        owned_count(s.update(i, l), seller) as int == owned_count(s, seller) as int - (if s[i].seller@
            == seller { 1int } else { 0int }) + (if l.seller@ == seller { 1int } else { 0int }),
    decreases s.len(),
{
    let t = s.update(i, l);
    if i == s.len() - 1 {
        assert(t.drop_last() =~= s.drop_last());
    } else {
        assert(t.drop_last() =~= s.drop_last().update(i, l));
        lemma_owned_count_update(s.drop_last(), i, l, seller);
    }
}

} // verus!
