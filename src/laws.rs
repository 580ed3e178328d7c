use vstd::prelude::*;
use crate::state::{
    attr_selected, balance_fits, deposit_of, follows, free_of, item_key, lemma_balances_ok, reserve_spec, reserved_of,
    same_key, transfer_spec, unreserve_spec, Attribute, PalletView,
};
use crate::types::{
    Namespace, AccountId, Balance, CollectionConfig, CollectionId, DestroyWitness, Error, Event, ItemId,
    MintWitness, Origin,
};
use crate::collections::{create_step, destroy_step, lock_collection_step, new_collection};
use crate::items::{burn_step, lemma_purge_none, lock_item_properties_step, mint_price, mint_step};
use crate::market::buy_item_step;
use crate::attributes::{clear_attribute_step, find_attr, first_match, lemma_find_after_write, set_attribute_step};

verus! {

/// Locking never clears a bit: the settings after a lock hold every bit they
/// held before; locking with bits that are all already set changes nothing;
/// and locking twice with the same bits is the same as locking once.
pub proof fn lemma_lock_collection_monotonic(s: PalletView, origin: Origin, c: CollectionId, bits: u8)
    ensures
        match lock_collection_step(s, origin, c, bits) {
            Ok((t, _)) => {
                let before = s.collections[c].settings;
                let after = t.collections[c].settings;
                &&& after & before == before
                &&& after & bits == bits
                &&& (bits & before == bits ==> after == before)
                &&& lock_collection_step(t, origin, c, bits) is Ok
                &&& lock_collection_step(t, origin, c, bits)->Ok_0.0.collections[c].settings == after
            },
            Err(_) => true,
        },
{
    if let Ok((t, _)) = lock_collection_step(s, origin, c, bits) {
        let x = s.collections[c].settings;
        assert((x | bits) & x == x) by (bit_vector);
        assert((x | bits) & bits == bits) by (bit_vector);
        assert(bits & x == bits ==> (x | bits) == x) by (bit_vector);
        assert(((x | bits) | bits) == (x | bits)) by (bit_vector);
    }
}

/// Item locks are one-way: a lock request keeps every lock already set and
/// sets the ones asked for, whatever flags it passes.
pub proof fn lemma_item_locks_one_way(
    s: PalletView,
    origin: Origin,
    c: CollectionId,
    i: ItemId,
    lock_metadata: bool,
    lock_attributes: bool,
)
    ensures
        match lock_item_properties_step(s, origin, c, i, lock_metadata, lock_attributes) {
            Ok((t, _)) => {
                let before = s.items[item_key(c, i)];
                let after = t.items[item_key(c, i)];
                &&& after.metadata_locked == (before.metadata_locked || lock_metadata)
                &&& after.attributes_locked == (before.attributes_locked || lock_attributes)
                &&& after.owner == before.owner
            },
            Err(_) => true,
        },
{
}

/// A purchase is all or nothing. When it succeeds the buyer owns the item,
/// the listing is gone and exactly the listed price has moved from the buyer's
/// free balance to the seller's; when it fails nothing changes. A bid below
/// the listed price fails with `BidTooLow`.
pub proof fn lemma_buy_item_atomic(
    pre: PalletView,
    post: PalletView,
    r: Result<Event, Error>,
    buyer: AccountId,
    c: CollectionId,
    i: ItemId,
    bid_price: Balance,
)
    requires
        follows(pre, post, r, buy_item_step(pre, Origin::Signed(buyer), c, i, bid_price)),
    ensures
        r is Err ==> post == pre,
        r is Ok ==> {
            let k = item_key(c, i);
            let seller = pre.items[k].owner;
            let price = pre.prices[k].price;
            &&& pre.items.contains_key(k) && pre.prices.contains_key(k)
            &&& post.items.contains_key(k) && post.items[k].owner == buyer
            &&& !post.prices.contains_key(k)
            &&& seller != buyer
            &&& price <= bid_price
            &&& free_of(post, buyer) == free_of(pre, buyer) - price
            &&& free_of(post, seller) == free_of(pre, seller) + price
        },
        pre.prices.contains_key(item_key(c, i)) && bid_price < pre.prices[item_key(c, i)].price
            ==> r == Err::<Event, Error>(Error::BidTooLow) && post == pre,
{
}

/// Creating a collection and destroying it again with an all-zero witness
/// succeeds, removes the collection and gives the whole collection deposit
/// back to the creator's free balance.
pub proof fn lemma_create_destroy(s: PalletView, who: AccountId, admin: AccountId, config: CollectionConfig)
    requires
        s.wf(),
        create_step(s, Origin::Signed(who), admin, config) is Ok,
    ensures
        ({
            let t = create_step(s, Origin::Signed(who), admin, config)->Ok_0.0;
            let id = s.next_collection_id;
            let w = DestroyWitness { item_metadatas: 0, item_configs: 0, attributes: 0 };
            &&& t.collections.contains_key(id)
            &&& destroy_step(t, Origin::Signed(who), id, w) is Ok
            &&& !destroy_step(t, Origin::Signed(who), id, w)->Ok_0.0.collections.contains_key(id)
            &&& free_of(destroy_step(t, Origin::Signed(who), id, w)->Ok_0.0, who)
                == free_of(t, who) + s.config.collection_deposit
            &&& free_of(destroy_step(t, Origin::Signed(who), id, w)->Ok_0.0, who) == free_of(s, who)
            &&& reserved_of(destroy_step(t, Origin::Signed(who), id, w)->Ok_0.0, who) == reserved_of(s, who)
        }),
{
    let id = s.next_collection_id;
    let dep = s.config.collection_deposit;
    let w = DestroyWitness { item_metadatas: 0, item_configs: 0, attributes: 0 };
    assert(!s.collections.contains_key(id));
    assert(!s.collection_metadata.contains_key(id));
    lemma_balances_ok(s, who);
    let t = create_step(s, Origin::Signed(who), admin, config)->Ok_0.0;
    assert(t.collections[id] == new_collection(who, admin, dep, config));
    assert(!t.collection_metadata.contains_key(id));
    assert(reserved_of(t, who) == reserved_of(s, who) + dep);
    assert(free_of(t, who) == free_of(s, who) - dep);
    let u = unreserve_spec(t, who, dep as int);
    assert(free_of(u, who) == free_of(t, who) + dep);
    assert(reserved_of(u, who) == reserved_of(s, who));
    assert forall|x: int| 0 <= x < u.attributes.len() implies !attr_selected(#[trigger] u.attributes[x], id, None) by {
        assert(u.attributes[x] == s.attributes[x]);
        assert(s.collections.contains_key(s.attributes[x].collection));
    }
    lemma_purge_none(u, u.attributes, id, None);
    let v = destroy_step(t, Origin::Signed(who), id, w)->Ok_0.0;
    assert(v == PalletView { collections: u.collections.remove(id), ..u });
}

/// Minting an item and having its owner burn it again leaves every account's
/// reserved balance as it was before the mint.
pub proof fn lemma_mint_burn(
    s: PalletView,
    who: AccountId,
    c: CollectionId,
    i: ItemId,
    mint_to: AccountId,
    witness: Option<MintWitness>,
)
    requires
        s.wf(),
        mint_step(s, Origin::Signed(who), c, i, mint_to, witness) is Ok,
    ensures
        ({
            let t = mint_step(s, Origin::Signed(who), c, i, mint_to, witness)->Ok_0.0;
            &&& burn_step(t, Origin::Signed(mint_to), c, i) is Ok
            &&& forall|a: AccountId| #[trigger] reserved_of(burn_step(t, Origin::Signed(mint_to), c, i)->Ok_0.0, a)
                == reserved_of(s, a)
        }),
{
    let k = item_key(c, i);
    let d = s.collections[c];
    let dep = s.config.item_deposit;
    let t = mint_step(s, Origin::Signed(who), c, i, mint_to, witness)->Ok_0.0;
    let s1 = transfer_spec(s, who, d.owner, mint_price(d));
    let s2 = reserve_spec(s1, who, dep as int);
    lemma_balances_ok(s, who);
    assert(!s.items.contains_key(k));
    assert(!s.item_metadata.contains_key(k));
    assert(forall|a: AccountId| #[trigger] reserved_of(s1, a) == reserved_of(s, a));
    assert(free_of(s1, who) <= free_of(s, who));
    assert(reserved_of(t, who) == reserved_of(s, who) + dep);
    assert(t.items[k].deposit == dep && t.items[k].deposit_account == who && t.items[k].owner == mint_to);
    assert(t.items[k].owner_deposit == 0);
    assert forall|x: int| 0 <= x < t.attributes.len() implies !attr_selected(#[trigger] t.attributes[x], c, Some(i)) by {
        assert(t.attributes[x] == s.attributes[x]);
    }
    let u1 = unreserve_spec(t, who, dep as int);
    let u2 = unreserve_spec(u1, mint_to, 0);
    assert(!u2.item_metadata.contains_key(k));
    lemma_purge_none(u2, u2.attributes, c, Some(i));
    let v = burn_step(t, Origin::Signed(mint_to), c, i)->Ok_0.0;
    assert(v.reserved == u2.reserved);
    assert forall|a: AccountId| #[trigger] reserved_of(v, a) == reserved_of(s, a) by {
        assert(reserved_of(u1, a) == reserved_of(s, a));
        assert(reserved_of(u2, a) == reserved_of(u1, a));
    }
}

/// Writing the same attribute key twice, with values of different lengths,
/// changes the writer's reserved balance on the second write by exactly the
/// per-byte deposit of the length difference: the base deposit is not
/// charged again. The second write succeeds whenever its value fits and the
/// writer can pay the new deposit out of its free balance plus the old one.
pub proof fn lemma_set_attribute_twice(
    s: PalletView,
    who: AccountId,
    c: CollectionId,
    mi: Option<ItemId>,
    ns: Namespace,
    key: Vec<u8>,
    v1: Vec<u8>,
    key2: Vec<u8>,
    v2: Vec<u8>,
)
    requires
        s.wf(),
        key2@ == key@,
        set_attribute_step(s, Origin::Signed(who), c, mi, ns, key, v1) is Ok,
        v2@.len() <= s.config.value_limit,
        deposit_of(s.config.attribute_deposit_base, s.config.deposit_per_byte, (key@.len() + v2@.len()) as int)
            <= free_of(set_attribute_step(s, Origin::Signed(who), c, mi, ns, key, v1)->Ok_0.0, who)
            + deposit_of(s.config.attribute_deposit_base, s.config.deposit_per_byte, (key@.len() + v1@.len()) as int),
    ensures
        ({
            let t = set_attribute_step(s, Origin::Signed(who), c, mi, ns, key, v1)->Ok_0.0;
            &&& set_attribute_step(t, Origin::Signed(who), c, mi, ns, key2, v2) is Ok
            &&& reserved_of(set_attribute_step(t, Origin::Signed(who), c, mi, ns, key2, v2)->Ok_0.0, who)
                == reserved_of(t, who) + s.config.deposit_per_byte * (v2@.len() - v1@.len())
        }),
{
    let cfg = s.config;
    let d1 = deposit_of(cfg.attribute_deposit_base, cfg.deposit_per_byte, (key@.len() + v1@.len()) as int);
    let d2 = deposit_of(cfg.attribute_deposit_base, cfg.deposit_per_byte, (key@.len() + v2@.len()) as int);
    let found = find_attr(s.attributes, c, mi, ns, key@);
    let (oh, od) = match found {
        Some(j) => (
            match s.attributes[j].payer {
                Some(p) => p,
                None => if mi is Some { s.items[item_key(c, mi->Some_0)].owner } else { who },
            },
            s.attributes[j].deposit as int,
        ),
        None => (who, 0int),
    };
    let s0 = unreserve_spec(s, oh, od);
    lemma_balances_ok(s, who);
    lemma_balances_ok(s, oh);
    assert(balance_fits(s0, who));
    let t = set_attribute_step(s, Origin::Signed(who), c, mi, ns, key, v1)->Ok_0.0;
    assert(reserved_of(t, who) == reserved_of(s0, who) + d1);
    let a1 = Attribute {
        collection: c,
        maybe_item: mi,
        namespace: ns,
        key,
        value: v1,
        deposit: d1 as u64,
        payer: if ns is ItemOwner { None } else { Some(who) },
    };
    lemma_find_after_write(s.attributes, a1, c, mi, ns, key@);
    let j1 = find_attr(t.attributes, c, mi, ns, key@)->Some_0;
    assert(t.attributes[j1] == a1);
    let t0 = unreserve_spec(t, who, d1);
    assert(reserved_of(t0, who) == reserved_of(t, who) - d1);
    assert(free_of(t0, who) == free_of(t, who) + d1);
    let kk = item_key(c, mi->Some_0);
    assert(t.collections.contains_key(c));
    assert(mi is Some ==> t.items.contains_key(kk) && t.items[kk].owner == s.items[kk].owner
        && t.items[kk].attributes_locked == s.items[kk].attributes_locked);
    assert(t.collections[c].admin == s.collections[c].admin && t.collections[c].settings == s.collections[c].settings);
    assert(d2 - d1 == cfg.deposit_per_byte * (v2@.len() - v1@.len())) by (nonlinear_arith)
        requires
            d1 == cfg.attribute_deposit_base + cfg.deposit_per_byte * (key@.len() + v1@.len()),
            d2 == cfg.attribute_deposit_base + cfg.deposit_per_byte * (key@.len() + v2@.len());
}

/// Clearing an attribute removes its key: afterwards no attribute is stored
/// under it.
pub proof fn lemma_clear_removes_key(s: PalletView, origin: Origin, c: CollectionId, mi: Option<ItemId>, ns: Namespace, key: Seq<u8>)
    requires
        s.wf(),
        clear_attribute_step(s, origin, c, mi, ns, key) is Ok,
    ensures
        find_attr(clear_attribute_step(s, origin, c, mi, ns, key)->Ok_0.0.attributes, c, mi, ns, key) is None,
{
    let a = s.attributes;
    let j = find_attr(a, c, mi, ns, key)->Some_0;
    assert(first_match(a, j, c, mi, ns, key));
    let r = clear_attribute_step(s, origin, c, mi, ns, key)->Ok_0.0.attributes;
    assert(r == a.remove(j));
    assert forall|f: int| !first_match(r, f, c, mi, ns, key) by {
        if 0 <= f < r.len() {
            let g = if f < j { f } else { f + 1 };
            assert(r[f] == a[g]);
            assert(!same_key(a[g], a[j]));
        }
    }
}

} // verus!
