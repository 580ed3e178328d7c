use vstd::prelude::*;
use crate::state::{
    lemma_attr_links_kept,
    check_permits, compute_deposit, deposit_of, follows, free_of, headroom, item_key, key_of,
    permits, repatriate_spec, replace_deposit_spec, attr_selected, Attribute, reserve_spec, transfer_check, transfer_spec,
    unreservable, unreserve_spec, CollectionDetails, ItemDetails, Metadata, Pallet, PalletView,
};
use crate::types::{
    AccountId, CollectionId, Error, Event, ItemId, MintType, MintWitness, Origin, LOCK_METADATA,
    LOCK_TRANSFER,
};

verus! {

broadcast use vstd::std_specs::hash::group_hash_axioms;

/// Whether `who` may mint into a collection with record `d` for `mint_to`,
/// at the ledger's current block.
pub open spec fn mint_allowed(s: PalletView, d: CollectionDetails, who: AccountId, mint_to: AccountId, w: Option<MintWitness>) -> Result<(), Error> {
    let ms = d.mint_settings;
    match ms.mint_type {
        MintType::Issuer if d.issuer != Some(who) => Err(Error::NoPermission),
        MintType::HolderOf(o) if w is None || w->Some_0.owned_item is None => Err(Error::BadWitness),
        MintType::HolderOf(o) if !s.items.contains_key(item_key(o, w->Some_0.owned_item->Some_0))
            || s.items[item_key(o, w->Some_0.owned_item->Some_0)].owner != mint_to => Err(Error::BadWitness),
        _ => if ms.start_block is Some && s.block < ms.start_block->Some_0 {
            Err(Error::MintNotStarted)
        } else if ms.end_block is Some && s.block > ms.end_block->Some_0 {
            Err(Error::MintEnded)
        } else if ms.price is Some && (w is None || w->Some_0.mint_price is None
            || w->Some_0.mint_price->Some_0 < ms.price->Some_0) {
            Err(Error::BadWitness)
        } else {
            Ok(())
        },
    }
}

/// The price `who` pays the collection owner for a mint.
pub open spec fn mint_price(d: CollectionDetails) -> int {
    match d.mint_settings.price {
        Some(p) => p as int,
        None => 0,
    }
}

/// `mint`: the signer creates item `i` owned by `mint_to`, pays the mint
/// price to the collection owner and reserves the item deposit.
pub open spec fn mint_step(s: PalletView, origin: Origin, c: CollectionId, i: ItemId, mint_to: AccountId, w: Option<MintWitness>) -> Result<(PalletView, Event), Error> {
    match origin {
        Origin::Force => Err(Error::BadOrigin),
        Origin::Signed(who) => if !s.collections.contains_key(c) {
            Err(Error::UnknownCollection)
        } else {
            let d = s.collections[c];
            let k = item_key(c, i);
            let dep = s.config.item_deposit;
            if s.items.contains_key(k) {
                Err(Error::AlreadyExists)
            } else if d.items == u32::MAX || (d.max_supply is Some && d.items >= d.max_supply->Some_0) {
                Err(Error::MaxSupplyReached)
            } else if mint_allowed(s, d, who, mint_to, w) is Err {
                Err(mint_allowed(s, d, who, mint_to, w)->Err_0)
            } else if transfer_check(s, who, d.owner, mint_price(d)) is Err {
                Err(transfer_check(s, who, d.owner, mint_price(d))->Err_0)
            } else {
                let s1 = transfer_spec(s, who, d.owner, mint_price(d));
                if dep > free_of(s1, who) {
                    Err(Error::InsufficientBalance)
                } else {
                    let s2 = reserve_spec(s1, who, dep as int);
                    let it = ItemDetails {
                        owner: mint_to,
                        deposit_account: who,
                        deposit: dep,
                        owner_deposit: 0,
                        approved: None,
                        transfer_locked: false,
                        metadata_locked: false,
                        attributes_locked: false,
                    };
                    Ok((
                        PalletView {
                            items: s2.items.insert(k, it),
                            collections: s2.collections.insert(c, CollectionDetails { items: (d.items + 1) as u32, ..d }),
                            ..s2
                        },
                        Event::Issued { collection: c, item: i, owner: mint_to },
                    ))
                }
            }
        },
    }
}

/// `transfer`: the owner, or the account it approved, hands the item to
/// `dest`; the deposit of its owner-namespace attributes moves from the old
/// owner to `dest`, and any approval and listing are withdrawn.
pub open spec fn transfer_step(s: PalletView, origin: Origin, c: CollectionId, i: ItemId, dest: AccountId) -> Result<(PalletView, Event), Error> {
    match origin {
        Origin::Force => Err(Error::BadOrigin),
        Origin::Signed(who) => if !s.collections.contains_key(c) {
            Err(Error::UnknownCollection)
        } else if !s.items.contains_key(item_key(c, i)) {
            Err(Error::UnknownItem)
        } else {
            let d = s.collections[c];
            let k = item_key(c, i);
            let it = s.items[k];
            let from = it.owner;
            if it.owner != who && it.approved != Some(who) {
                Err(Error::NoPermission)
            } else if d.settings & LOCK_TRANSFER != 0 {
                Err(Error::ItemsNonTransferable)
            } else if it.transfer_locked {
                Err(Error::ItemLocked)
            } else if from != dest && unreservable(s, from, it.owner_deposit as int) > headroom(s, dest) {
                Err(Error::Overflow)
            } else {
                let s1 = repatriate_spec(s, from, dest, it.owner_deposit as int);
                Ok((
                    PalletView {
                        items: s1.items.insert(k, ItemDetails { owner: dest, approved: None, ..it }),
                        prices: s1.prices.remove(k),
                        ..s1
                    },
                    Event::Transferred { collection: c, item: i, from, to: dest },
                ))
            }
        },
    }
}

/// Steps that rewrite the record of an existing item on behalf of the
/// collection role `holder`; `signed_only` refuses the force authority.
pub open spec fn item_update_step(
    s: PalletView,
    origin: Origin,
    c: CollectionId,
    i: ItemId,
    signed_only: bool,
    holder: Option<AccountId>,
    it2: ItemDetails,
    e: Event,
) -> Result<(PalletView, Event), Error> {
    if signed_only && origin is Force {
        Err(Error::BadOrigin)
    } else if !permits(origin, holder) {
        Err(Error::NoPermission)
    } else {
        Ok((PalletView { items: s.items.insert(item_key(c, i), it2), ..s }, e))
    }
}

/// `approve_transfer` / `cancel_approval`: the item's owner (or the force
/// authority) allows `delegate` to transfer the item, or withdraws that.
pub open spec fn set_approval_step(s: PalletView, origin: Origin, c: CollectionId, i: ItemId, delegate: Option<AccountId>) -> Result<(PalletView, Event), Error> {
    if !s.collections.contains_key(c) {
        Err(Error::UnknownCollection)
    } else if !s.items.contains_key(item_key(c, i)) {
        Err(Error::UnknownItem)
    } else {
        let it = s.items[item_key(c, i)];
        item_update_step(
            s,
            origin,
            c,
            i,
            false,
            Some(it.owner),
            ItemDetails { approved: delegate, ..it },
            match delegate {
                Some(x) => Event::TransferApproved { collection: c, item: i, owner: it.owner, delegate: x },
                None => Event::ApprovalCancelled { collection: c, item: i, owner: it.owner },
            },
        )
    }
}

/// `lock_item_transfer` / `unlock_item_transfer`: the freezer sets the
/// item's transfer lock to `locked`.
pub open spec fn set_item_transfer_lock_step(s: PalletView, origin: Origin, c: CollectionId, i: ItemId, locked: bool) -> Result<(PalletView, Event), Error> {
    if !s.collections.contains_key(c) {
        Err(Error::UnknownCollection)
    } else if !s.items.contains_key(item_key(c, i)) {
        Err(Error::UnknownItem)
    } else {
        let it = s.items[item_key(c, i)];
        item_update_step(
            s,
            origin,
            c,
            i,
            true,
            s.collections[c].freezer,
            ItemDetails { transfer_locked: locked, ..it },
            if locked {
                Event::ItemTransferLocked { collection: c, item: i }
            } else {
                Event::ItemTransferUnlocked { collection: c, item: i }
            },
        )
    }
}

/// `lock_item_properties`: the admin adds the metadata and attribute locks
/// of an item; a lock already set stays set.
pub open spec fn lock_item_properties_step(s: PalletView, origin: Origin, c: CollectionId, i: ItemId, lock_metadata: bool, lock_attributes: bool) -> Result<(PalletView, Event), Error> {
    if !s.collections.contains_key(c) {
        Err(Error::UnknownCollection)
    } else if !s.items.contains_key(item_key(c, i)) {
        Err(Error::UnknownItem)
    } else {
        let it = s.items[item_key(c, i)];
        item_update_step(
            s,
            origin,
            c,
            i,
            false,
            s.collections[c].admin,
            ItemDetails {
                metadata_locked: it.metadata_locked || lock_metadata,
                attributes_locked: it.attributes_locked || lock_attributes,
                ..it
            },
            Event::ItemPropertiesLocked { collection: c, item: i, lock_metadata, lock_attributes },
        )
    }
}

/// `set_metadata`: the admin replaces an item's metadata; the old deposit is
/// released and the new one reserved from the signer.
pub open spec fn set_metadata_step(s: PalletView, origin: Origin, c: CollectionId, i: ItemId, data: Vec<u8>) -> Result<(PalletView, Event), Error> {
    if !s.collections.contains_key(c) {
        Err(Error::UnknownCollection)
    } else if !s.items.contains_key(item_key(c, i)) {
        Err(Error::UnknownItem)
    } else {
        let d = s.collections[c];
        let k = item_key(c, i);
        let it = s.items[k];
        let payer = match origin {
            Origin::Signed(w) => w,
            Origin::Force => d.owner,
        };
        let dep = if origin is Force { 0 } else { deposit_of(s.config.metadata_deposit_base, s.config.deposit_per_byte, data@.len() as int) };
        let exists = s.item_metadata.contains_key(k);
        let (old_payer, old_dep) = if exists { (s.item_metadata[k].payer, s.item_metadata[k].deposit as int) } else { (payer, 0) };
        if !permits(origin, d.admin) {
            Err(Error::NoPermission)
        } else if it.metadata_locked || d.settings & LOCK_METADATA != 0 {
            Err(Error::MetadataLocked)
        } else if data@.len() > s.config.string_limit {
            Err(Error::IncorrectData)
        } else if !exists && d.item_metadatas == u32::MAX {
            Err(Error::Overflow)
        } else if dep > u64::MAX {
            Err(Error::InsufficientBalance)
        } else {
            match replace_deposit_spec(s, old_payer, old_dep, payer, dep) {
                Err(e) => Err(e),
                Ok(s1) => Ok((
                    PalletView {
                        item_metadata: s1.item_metadata.insert(k, Metadata { deposit: dep as u64, payer, data }),
                        collections: s1.collections.insert(
                            c,
                            CollectionDetails { item_metadatas: if exists { d.item_metadatas } else { (d.item_metadatas + 1) as u32 }, ..d },
                        ),
                        ..s1
                    },
                    Event::ItemMetadataSet { collection: c, item: i },
                )),
            }
        }
    }
}

/// `clear_metadata`: the admin removes an item's metadata and its deposit is
/// released.
pub open spec fn clear_metadata_step(s: PalletView, origin: Origin, c: CollectionId, i: ItemId) -> Result<(PalletView, Event), Error> {
    if !s.collections.contains_key(c) {
        Err(Error::UnknownCollection)
    } else {
        let d = s.collections[c];
        let k = item_key(c, i);
        if !permits(origin, d.admin) {
            Err(Error::NoPermission)
        } else if !s.item_metadata.contains_key(k) {
            Err(Error::MetadataNotFound)
        } else if d.settings & LOCK_METADATA != 0 || (s.items.contains_key(k) && s.items[k].metadata_locked) {
            Err(Error::MetadataLocked)
        } else {
            let m = s.item_metadata[k];
            let s1 = unreserve_spec(s, m.payer, m.deposit as int);
            Ok((
                PalletView {
                    item_metadata: s1.item_metadata.remove(k),
                    collections: s1.collections.insert(
                        c,
                        CollectionDetails { item_metadatas: if d.item_metadatas > 0 { (d.item_metadatas - 1) as u32 } else { 0 }, ..d },
                    ),
                    ..s1
                },
                Event::ItemMetadataCleared { collection: c, item: i },
            ))
        }
    }
}

/// State after the deposits of the attributes of collection `c` (of its item
/// `only`, when that names one) among `rest` are released, one after the other. The deposit of the
/// owner-namespace attributes is not among them: the item record holds it.
pub open spec fn purge_balances(s: PalletView, rest: Seq<Attribute>, c: CollectionId, only: Option<ItemId>) -> PalletView
    decreases rest.len(),
{
    if rest.len() == 0 {
        s
    } else {
        let a = rest[0];
        let s1 = if attr_selected(a, c, only) && a.payer is Some {
            unreserve_spec(s, a.payer->Some_0, a.deposit as int)
        } else {
            s
        };
        purge_balances(s1, rest.subrange(1, rest.len() as int), c, only)
    }
}

/// Purging changes balances only.
pub proof fn lemma_purge_frame(s: PalletView, rest: Seq<Attribute>, c: CollectionId, only: Option<ItemId>)
    ensures
        ({
            let t = purge_balances(s, rest, c, only);
            t == PalletView { free: t.free, reserved: t.reserved, ..s }
        }),
    decreases rest.len(),
{
    if rest.len() > 0 {
        let a = rest[0];
        let s1 = if attr_selected(a, c, only) && a.payer is Some {
            unreserve_spec(s, a.payer->Some_0, a.deposit as int)
        } else {
            s
        };
        lemma_purge_frame(s1, rest.subrange(1, rest.len() as int), c, only);
    }
}

/// Where no attribute of `rest` is selected, purging changes nothing.
pub proof fn lemma_purge_none(s: PalletView, rest: Seq<Attribute>, c: CollectionId, only: Option<ItemId>)
    requires
        forall|t: int| 0 <= t < rest.len() ==> !attr_selected(#[trigger] rest[t], c, only),
    ensures
        purge_balances(s, rest, c, only) == s,
        kept_attrs(rest, c, only) == rest,
        removed_attrs(rest, c, only) == 0,
    decreases rest.len(),
{
    if rest.len() > 0 {
        let tail = rest.subrange(1, rest.len() as int);
        assert(!attr_selected(rest[0], c, only));
        assert forall|t: int| 0 <= t < tail.len() implies !attr_selected(#[trigger] tail[t], c, only) by {
            assert(tail[t] == rest[t + 1]);
        }
        lemma_purge_none(s, tail, c, only);
        assert(seq![rest[0]] + tail =~= rest);
    }
}

/// The attributes of `rest` that are not selected by `c` and `only`,
/// in their order.
pub open spec fn kept_attrs(rest: Seq<Attribute>, c: CollectionId, only: Option<ItemId>) -> Seq<Attribute>
    decreases rest.len(),
{
    if rest.len() == 0 {
        Seq::empty()
    } else if attr_selected(rest[0], c, only) {
        kept_attrs(rest.subrange(1, rest.len() as int), c, only)
    } else {
        seq![rest[0]] + kept_attrs(rest.subrange(1, rest.len() as int), c, only)
    }
}

/// How many attributes of `rest` are selected by `c` and `only`.
pub open spec fn removed_attrs(rest: Seq<Attribute>, c: CollectionId, only: Option<ItemId>) -> nat
    decreases rest.len(),
{
    if rest.len() == 0 {
        0
    } else if attr_selected(rest[0], c, only) {
        1 + removed_attrs(rest.subrange(1, rest.len() as int), c, only)
    } else {
        removed_attrs(rest.subrange(1, rest.len() as int), c, only)
    }
}

/// No more attributes are removed than there are.
pub proof fn lemma_removed_bound(rest: Seq<Attribute>, c: CollectionId, only: Option<ItemId>)
    ensures
        removed_attrs(rest, c, only) <= rest.len(),
    decreases rest.len(),
{
    if rest.len() > 0 {
        lemma_removed_bound(rest.subrange(1, rest.len() as int), c, only);
    }
}

/// Every kept attribute comes from `rest` and is not selected.
pub proof fn lemma_kept(rest: Seq<Attribute>, c: CollectionId, only: Option<ItemId>)
    ensures
        forall|x: Attribute| #[trigger] kept_attrs(rest, c, only).contains(x) ==> rest.contains(x) && !attr_selected(x, c, only),
    decreases rest.len(),
{
    if rest.len() > 0 {
        let tail = rest.subrange(1, rest.len() as int);
        lemma_kept(tail, c, only);
        assert forall|x: Attribute| #[trigger] kept_attrs(rest, c, only).contains(x) implies rest.contains(x) && !attr_selected(x, c, only) by {
            if !attr_selected(rest[0], c, only) && x == rest[0] {
                assert(rest[0] == x);
            } else {
                if !attr_selected(rest[0], c, only) {
                    let k = choose|k: int| 0 <= k < kept_attrs(rest, c, only).len() && kept_attrs(rest, c, only)[k] == x;
                    assert(k > 0);
                    assert(kept_attrs(tail, c, only)[k - 1] == x);
                }
                assert(kept_attrs(tail, c, only).contains(x));
                let t = choose|t: int| 0 <= t < tail.len() && tail[t] == x;
                assert(rest[t + 1] == x);
            }
        }
    }
}

/// Distinct items have distinct keys.
pub proof fn lemma_item_key_injective(c1: CollectionId, i1: ItemId, c2: CollectionId, i2: ItemId)
    ensures
        item_key(c1, i1) == item_key(c2, i2) ==> c1 == c2 && i1 == i2,
{
    assert(c1 as int * 0x1_0000_0000 + i1 as int <= u64::MAX) by (nonlinear_arith)
        requires c1 <= u32::MAX, i1 <= u32::MAX;
    assert(c2 as int * 0x1_0000_0000 + i2 as int <= u64::MAX) by (nonlinear_arith)
        requires c2 <= u32::MAX, i2 <= u32::MAX;
    if item_key(c1, i1) == item_key(c2, i2) {
        assert(c1 == c2 && i1 == i2) by (nonlinear_arith)
            requires
                c1 as int * 0x1_0000_0000 + i1 as int == c2 as int * 0x1_0000_0000 + i2 as int,
                0 <= i1 < 0x1_0000_0000,
                0 <= i2 < 0x1_0000_0000,
                c1 >= 0, c2 >= 0;
    }
}

/// `burn`: the owner (or the force authority) destroys an item; its deposit,
/// the deposit of its owner-namespace attributes, its metadata and every
/// attribute of it are released, and its listing is withdrawn.
pub open spec fn burn_step(s: PalletView, origin: Origin, c: CollectionId, i: ItemId) -> Result<(PalletView, Event), Error> {
    if !s.collections.contains_key(c) {
        Err(Error::UnknownCollection)
    } else if !s.items.contains_key(item_key(c, i)) {
        Err(Error::UnknownItem)
    } else {
        let k = item_key(c, i);
        let it = s.items[k];
        let d = s.collections[c];
        if !permits(origin, Some(it.owner)) {
            Err(Error::NoPermission)
        } else {
            let s1 = unreserve_spec(s, it.deposit_account, it.deposit as int);
            let s2 = unreserve_spec(s1, it.owner, it.owner_deposit as int);
            let has_meta = s2.item_metadata.contains_key(k);
            let s3 = if has_meta {
                let m = s2.item_metadata[k];
                let t = unreserve_spec(s2, m.payer, m.deposit as int);
                PalletView { item_metadata: t.item_metadata.remove(k), ..t }
            } else {
                s2
            };
            let s4 = purge_balances(s3, s3.attributes, c, Some(i));
            let n = removed_attrs(s.attributes, c, Some(i));
            let d2 = CollectionDetails {
                items: if d.items > 0 { (d.items - 1) as u32 } else { 0 },
                item_metadatas: if has_meta && d.item_metadatas > 0 { (d.item_metadatas - 1) as u32 } else { d.item_metadatas },
                attributes: if d.attributes >= n { (d.attributes - n) as u32 } else { 0 },
                ..d
            };
            Ok((
                PalletView {
                    attributes: kept_attrs(s.attributes, c, Some(i)),
                    items: s4.items.remove(k),
                    prices: s4.prices.remove(k),
                    collections: s4.collections.insert(c, d2),
                    ..s4
                },
                Event::Burned { collection: c, item: i, owner: it.owner },
            ))
        }
    }
}

/// Re-evaluation of one item's deposit against the current item deposit,
/// borne by the collection owner `owner`. Where the owner paid the deposit,
/// the difference is reserved from or released to it; where another account
/// paid it, that account gets its deposit back and the owner reserves the
/// whole new deposit. Unknown items, and increases the owner cannot afford,
/// leave the state as it is.
pub open spec fn redeposit_one(s: PalletView, c: CollectionId, owner: AccountId, i: ItemId) -> PalletView {
    let k = item_key(c, i);
    let new = s.config.item_deposit;
    if !s.items.contains_key(k) {
        s
    } else {
        let it = s.items[k];
        if it.deposit_account == owner {
            if new > it.deposit && new - it.deposit > free_of(s, owner) {
                s
            } else {
                let s1 = if it.deposit > new {
                    unreserve_spec(s, owner, it.deposit - new)
                } else {
                    reserve_spec(s, owner, new - it.deposit)
                };
                PalletView { items: s1.items.insert(k, ItemDetails { deposit: new, ..it }), ..s1 }
            }
        } else if new > free_of(s, owner) {
            s
        } else {
            let s1 = reserve_spec(unreserve_spec(s, it.deposit_account, it.deposit as int), owner, new as int);
            PalletView { items: s1.items.insert(k, ItemDetails { deposit: new, deposit_account: owner, ..it }), ..s1 }
        }
    }
}

/// `redeposit_one` applied to each of `list` in turn.
pub open spec fn redeposit_all(s: PalletView, c: CollectionId, owner: AccountId, list: Seq<ItemId>) -> PalletView
    decreases list.len(),
{
    if list.len() == 0 {
        s
    } else {
        redeposit_all(redeposit_one(s, c, owner, list[0]), c, owner, list.subrange(1, list.len() as int))
    }
}

/// `redeposit`: the collection owner has the deposits of the listed items
/// re-evaluated, item by item and on a best-effort basis.
pub open spec fn redeposit_step(s: PalletView, origin: Origin, c: CollectionId, list: Seq<ItemId>) -> Result<(PalletView, Event), Error> {
    match origin {
        Origin::Force => Err(Error::BadOrigin),
        Origin::Signed(who) => if !s.collections.contains_key(c) {
            Err(Error::UnknownCollection)
        } else if s.collections[c].owner != who {
            Err(Error::NoPermission)
        } else {
            Ok((redeposit_all(s, c, who, list), Event::Redeposited { collection: c }))
        },
    }
}

impl Pallet {
    /// The record of item `item` of `collection`, if it exists.
    pub fn item(&self, collection: CollectionId, item: ItemId) -> (r: Option<ItemDetails>)
        ensures
            r == (if self@.items.contains_key(item_key(collection, item)) {
                Some(self@.items[item_key(collection, item)])
            } else {
                None::<ItemDetails>
            }),
    {
        let k = key_of(collection, item);
        match self.items.get(&k) {
            Some(d) => Some(*d),
            None => None,
        }
    }

    /// Sets the current block number, against which mint windows are judged.
    pub fn set_block_number(&mut self, block: u64)
        ensures
            final(self)@ == (PalletView { block, ..old(self)@ }),
    {
        self.block = block;
    }

    /// Applies the collection's minting rules.
    fn check_mint(&self, d: CollectionDetails, who: AccountId, mint_to: AccountId, w: Option<MintWitness>) -> (r: Result<(), Error>)
        ensures
            r == mint_allowed(self@, d, who, mint_to, w),
    {
        let ms = d.mint_settings;
        match ms.mint_type {
            MintType::Issuer => {
                if d.issuer != Some(who) {
                    return Err(Error::NoPermission);
                }
            },
            MintType::HolderOf(o) => {
                let j = match w {
                    Some(wit) => match wit.owned_item {
                        Some(j) => j,
                        None => return Err(Error::BadWitness),
                    },
                    None => return Err(Error::BadWitness),
                };
                match self.item(o, j) {
                    Some(held) => {
                        if held.owner != mint_to {
                            return Err(Error::BadWitness);
                        }
                    },
                    None => return Err(Error::BadWitness),
                }
            },
            MintType::Public => {},
        }
        match ms.start_block {
            Some(b) => if self.block < b {
                return Err(Error::MintNotStarted);
            },
            None => {},
        }
        match ms.end_block {
            Some(b) => if self.block > b {
                return Err(Error::MintEnded);
            },
            None => {},
        }
        match ms.price {
            Some(p) => match w {
                Some(wit) => match wit.mint_price {
                    Some(mp) => if mp < p {
                        return Err(Error::BadWitness);
                    },
                    None => return Err(Error::BadWitness),
                },
                None => return Err(Error::BadWitness),
            },
            None => {},
        }
        Ok(())
    }

    /// Mints item `item` of `collection` to `mint_to`; the signer pays the
    /// mint price to the collection owner and the item deposit.
    pub fn mint(
        &mut self,
        origin: Origin,
        collection: CollectionId,
        item: ItemId,
        mint_to: AccountId,
        witness_data: Option<MintWitness>,
    ) -> (r: Result<Event, Error>)
        requires
            old(self).wf(),
        ensures
            final(self).wf(),
            follows(old(self)@, final(self)@, r, mint_step(old(self)@, origin, collection, item, mint_to, witness_data)),
    {
        let who = match origin {
            Origin::Force => return Err(Error::BadOrigin),
            Origin::Signed(w) => w,
        };
        let c = collection;
        let d = match self.collection(c) {
            Some(d) => d,
            None => return Err(Error::UnknownCollection),
        };
        let k = key_of(c, item);
        let dep = self.config.item_deposit;
        if self.items.contains_key(&k) {
            return Err(Error::AlreadyExists);
        }
        let full = match d.max_supply {
            Some(m) => d.items >= m,
            None => false,
        };
        if d.items == u32::MAX || full {
            return Err(Error::MaxSupplyReached);
        }
        match self.check_mint(d, who, mint_to, witness_data) {
            Err(e) => return Err(e),
            Ok(()) => {},
        }
        let price = match d.mint_settings.price {
            Some(p) => p,
            None => 0,
        };
        let f = self.free_balance(who);
        if price > f {
            return Err(Error::InsufficientBalance);
        }
        if who != d.owner && price > self.room(d.owner) {
            return Err(Error::Overflow);
        }
        let left = if who != d.owner { f - price } else { f };
        if dep > left {
            return Err(Error::InsufficientBalance);
        }
        self.do_transfer(who, d.owner, price);
        self.do_reserve(who, dep);
        let it = ItemDetails {
            owner: mint_to,
            deposit_account: who,
            deposit: dep,
            owner_deposit: 0,
            approved: None,
            transfer_locked: false,
            metadata_locked: false,
            attributes_locked: false,
        };
        self.items.insert(k, it);
        self.collections.insert(c, CollectionDetails { items: d.items + 1, ..d });
        proof {
            lemma_attr_links_kept(old(self)@, self@);
        }
        Ok(Event::Issued { collection: c, item, owner: mint_to })
    }
    /// Moves an item from its owner to `dest`; the owner or the approved
    /// delegate may do so.
    pub fn transfer(&mut self, origin: Origin, collection: CollectionId, item: ItemId, dest: AccountId) -> (r: Result<Event, Error>)
        requires
            old(self).wf(),
        ensures
            final(self).wf(),
            follows(old(self)@, final(self)@, r, transfer_step(old(self)@, origin, collection, item, dest)),
    {
        let who = match origin {
            Origin::Force => return Err(Error::BadOrigin),
            Origin::Signed(w) => w,
        };
        let d = match self.collection(collection) {
            Some(d) => d,
            None => return Err(Error::UnknownCollection),
        };
        let it = match self.item(collection, item) {
            Some(it) => it,
            None => return Err(Error::UnknownItem),
        };
        let k = key_of(collection, item);
        let from = it.owner;
        if it.owner != who && it.approved != Some(who) {
            return Err(Error::NoPermission);
        }
        if d.settings & LOCK_TRANSFER != 0 {
            return Err(Error::ItemsNonTransferable);
        }
        if it.transfer_locked {
            return Err(Error::ItemLocked);
        }
        if from != dest {
            let res = self.reserved_balance(from);
            let moved = if it.owner_deposit <= res { it.owner_deposit } else { res };
            if moved > self.room(dest) {
                return Err(Error::Overflow);
            }
        }
        self.do_repatriate(from, dest, it.owner_deposit);
        self.items.insert(k, ItemDetails { owner: dest, approved: None, ..it });
        self.prices.remove(&k);
        proof {
            lemma_attr_links_kept(old(self)@, self@);
        }
        Ok(Event::Transferred { collection, item, from, to: dest })
    }

    /// Sets the transfer lock of an item.
    fn set_item_transfer_lock(&mut self, origin: Origin, collection: CollectionId, item: ItemId, locked: bool) -> (r: Result<Event, Error>)
        requires
            old(self).wf(),
        ensures
            final(self).wf(),
            follows(old(self)@, final(self)@, r, set_item_transfer_lock_step(old(self)@, origin, collection, item, locked)),
    {
        let d = match self.collection(collection) {
            Some(d) => d,
            None => return Err(Error::UnknownCollection),
        };
        let it = match self.item(collection, item) {
            Some(it) => it,
            None => return Err(Error::UnknownItem),
        };
        if origin == Origin::Force {
            return Err(Error::BadOrigin);
        }
        if !check_permits(origin, d.freezer) {
            return Err(Error::NoPermission);
        }
        let k = key_of(collection, item);
        self.items.insert(k, ItemDetails { transfer_locked: locked, ..it });
        proof {
            lemma_attr_links_kept(old(self)@, self@);
        }
        if locked {
            Ok(Event::ItemTransferLocked { collection, item })
        } else {
            Ok(Event::ItemTransferUnlocked { collection, item })
        }
    }

    /// Forbids transfers of an item; the collection's freezer only.
    pub fn lock_item_transfer(&mut self, origin: Origin, collection: CollectionId, item: ItemId) -> (r: Result<Event, Error>)
        requires
            old(self).wf(),
        ensures
            final(self).wf(),
            follows(old(self)@, final(self)@, r, set_item_transfer_lock_step(old(self)@, origin, collection, item, true)),
    {
        self.set_item_transfer_lock(origin, collection, item, true)
    }

    /// Allows transfers of an item again; the collection's freezer only.
    pub fn unlock_item_transfer(&mut self, origin: Origin, collection: CollectionId, item: ItemId) -> (r: Result<Event, Error>)
        requires
            old(self).wf(),
        ensures
            final(self).wf(),
            follows(old(self)@, final(self)@, r, set_item_transfer_lock_step(old(self)@, origin, collection, item, false)),
    {
        self.set_item_transfer_lock(origin, collection, item, false)
    }

    /// Adds the metadata and attribute locks of an item.
    pub fn lock_item_properties(
        &mut self,
        origin: Origin,
        collection: CollectionId,
        item: ItemId,
        lock_metadata: bool,
        lock_attributes: bool,
    ) -> (r: Result<Event, Error>)
        requires
            old(self).wf(),
        ensures
            final(self).wf(),
            follows(old(self)@, final(self)@, r, lock_item_properties_step(old(self)@, origin, collection, item, lock_metadata, lock_attributes)),
    {
        let d = match self.collection(collection) {
            Some(d) => d,
            None => return Err(Error::UnknownCollection),
        };
        let it = match self.item(collection, item) {
            Some(it) => it,
            None => return Err(Error::UnknownItem),
        };
        if !check_permits(origin, d.admin) {
            return Err(Error::NoPermission);
        }
        let k = key_of(collection, item);
        self.items.insert(k, ItemDetails {
            metadata_locked: it.metadata_locked || lock_metadata,
            attributes_locked: it.attributes_locked || lock_attributes,
            ..it
        });
        proof {
            lemma_attr_links_kept(old(self)@, self@);
        }
        Ok(Event::ItemPropertiesLocked { collection, item, lock_metadata, lock_attributes })
    }

    /// Sets the metadata of an item, reserving its deposit from the signer.
    pub fn set_metadata(&mut self, origin: Origin, collection: CollectionId, item: ItemId, data: Vec<u8>) -> (r: Result<Event, Error>)
        requires
            old(self).wf(),
        ensures
            final(self).wf(),
            follows(old(self)@, final(self)@, r, set_metadata_step(old(self)@, origin, collection, item, data)),
    {
        let c = collection;
        let d = match self.collection(c) {
            Some(d) => d,
            None => return Err(Error::UnknownCollection),
        };
        let it = match self.item(c, item) {
            Some(it) => it,
            None => return Err(Error::UnknownItem),
        };
        let k = key_of(c, item);
        let payer = match origin {
            Origin::Signed(w) => w,
            Origin::Force => d.owner,
        };
        let (exists, old_payer, old_dep) = match self.item_metadata.get(&k) {
            Some(m) => (true, m.payer, m.deposit),
            None => (false, payer, 0),
        };
        if !check_permits(origin, d.admin) {
            return Err(Error::NoPermission);
        }
        if it.metadata_locked || d.settings & LOCK_METADATA != 0 {
            return Err(Error::MetadataLocked);
        }
        if data.len() > self.config.string_limit as usize {
            return Err(Error::IncorrectData);
        }
        if !exists && d.item_metadatas == u32::MAX {
            return Err(Error::Overflow);
        }
        let dep = if origin == Origin::Force {
            0
        } else {
            match compute_deposit(self.config.metadata_deposit_base, self.config.deposit_per_byte, data.len() as u64) {
                Some(x) => x,
                None => return Err(Error::InsufficientBalance),
            }
        };
        match self.replace_deposit(old_payer, old_dep, payer, dep) {
            Err(e) => return Err(e),
            Ok(()) => {},
        }
        self.item_metadata.insert(k, Metadata { deposit: dep, payer, data });
        let count = if exists { d.item_metadatas } else { d.item_metadatas + 1 };
        self.collections.insert(c, CollectionDetails { item_metadatas: count, ..d });
        Ok(Event::ItemMetadataSet { collection: c, item })
    }

    /// Removes the metadata of an item, releasing its deposit.
    pub fn clear_metadata(&mut self, origin: Origin, collection: CollectionId, item: ItemId) -> (r: Result<Event, Error>)
        requires
            old(self).wf(),
        ensures
            final(self).wf(),
            follows(old(self)@, final(self)@, r, clear_metadata_step(old(self)@, origin, collection, item)),
    {
        let c = collection;
        let d = match self.collection(c) {
            Some(d) => d,
            None => return Err(Error::UnknownCollection),
        };
        let k = key_of(c, item);
        if !check_permits(origin, d.admin) {
            return Err(Error::NoPermission);
        }
        let (payer, dep) = match self.item_metadata.get(&k) {
            Some(m) => (m.payer, m.deposit),
            None => return Err(Error::MetadataNotFound),
        };
        let item_locked = match self.item(c, item) {
            Some(it) => it.metadata_locked,
            None => false,
        };
        if d.settings & LOCK_METADATA != 0 || item_locked {
            return Err(Error::MetadataLocked);
        }
        self.do_unreserve(payer, dep);
        self.item_metadata.remove(&k);
        let count = if d.item_metadatas > 0 { d.item_metadatas - 1 } else { 0 };
        self.collections.insert(c, CollectionDetails { item_metadatas: count, ..d });
        Ok(Event::ItemMetadataCleared { collection: c, item })
    }
    /// Removes every attribute of collection `c` (of its item `only`, when
    /// that names one), releasing the deposits their payers hold; returns how
    /// many were removed.
    pub(crate) fn purge_attributes(&mut self, c: CollectionId, only: Option<ItemId>) -> (n: usize)
        requires
            old(self).wf(),
        ensures
            final(self).wf(),
            final(self)@ == (PalletView {
                attributes: kept_attrs(old(self)@.attributes, c, only),
                ..purge_balances(old(self)@, old(self)@.attributes, c, only)
            }),
            n == removed_attrs(old(self)@.attributes, c, only),
    {
        let ghost s0 = self@;
        let ghost mut g = self@;
        let mut j: usize = 0;
        let mut n: usize = 0;
        let count = self.attributes.len();
        proof {
            assert(s0.attributes.len() == count);
            assert(self.attributes@.subrange(0, 0) + kept_attrs(s0.attributes, c, only) =~= kept_attrs(s0.attributes, c, only));
            assert(self.attributes@.subrange(0, self.attributes@.len() as int) =~= s0.attributes);
            lemma_removed_bound(s0.attributes, c, only);
        }
        while j < self.attributes.len()
            invariant
                self.wf(),
                g == (PalletView { attributes: s0.attributes, ..self@ }),
                j <= self.attributes@.len(),
                removed_attrs(s0.attributes, c, only) <= s0.attributes.len() <= usize::MAX,
                self.attributes@.subrange(0, j as int) + kept_attrs(self.attributes@.subrange(j as int, self.attributes@.len() as int), c, only)
                    == kept_attrs(s0.attributes, c, only),
                purge_balances(g, self.attributes@.subrange(j as int, self.attributes@.len() as int), c, only)
                    == purge_balances(s0, s0.attributes, c, only),
                n + removed_attrs(self.attributes@.subrange(j as int, self.attributes@.len() as int), c, only)
                    == removed_attrs(s0.attributes, c, only),
            decreases self.attributes.len() - j,
        {
            let ghost v = self.attributes@;
            let ghost rest = v.subrange(j as int, v.len() as int);
            let ghost tail = rest.subrange(1, rest.len() as int);
            let ghost pre = self@;
            let a_c = self.attributes[j].collection;
            let a_i = self.attributes[j].maybe_item;
            let payer = self.attributes[j].payer;
            let dep = self.attributes[j].deposit;
            proof {
                assert(rest[0] == v[j as int]);
            }
            if a_c == c && (only.is_none() || a_i == only) {
                match payer {
                    Some(p) => self.do_unreserve(p, dep),
                    None => {},
                }
                proof {
                    g = PalletView { attributes: s0.attributes, ..self@ };
                }
                self.attributes.remove(j);
                n = n + 1;
                proof {
                    assert(self.attributes@.subrange(j as int, self.attributes@.len() as int) =~= tail);
                    assert(self.attributes@.subrange(0, j as int) =~= v.subrange(0, j as int));
                    assert forall|t: int|
                        0 <= t < self@.attributes.len() && (#[trigger] self@.attributes[t]).maybe_item is Some
                        implies self@.items.contains_key(item_key(self@.attributes[t].collection, self@.attributes[t].maybe_item->Some_0)) by {
                        if t < j {
                            assert(self@.attributes[t] == pre.attributes[t]);
                        } else {
                            assert(self@.attributes[t] == pre.attributes[t + 1]);
                        }
                    }
                }
            } else {
                j = j + 1;
                proof {
                    assert(self.attributes@.subrange(j as int, v.len() as int) =~= tail);
                    assert(v.subrange(0, j as int) =~= v.subrange(0, j - 1).push(rest[0]));
                    assert(v.subrange(0, j - 1) + kept_attrs(rest, c, only) =~= v.subrange(0, j as int) + kept_attrs(tail, c, only));
                }
            }
        }
        proof {
            let e = self.attributes@.subrange(j as int, self.attributes@.len() as int);
            assert(e.len() == 0);
            assert(self.attributes@.subrange(0, j as int) =~= self.attributes@);
            assert(self.attributes@ + kept_attrs(e, c, only) =~= self.attributes@);
        }
        n
    }

    /// Destroys an item, releasing every deposit held for it and its attributes.
    pub fn burn(&mut self, origin: Origin, collection: CollectionId, item: ItemId) -> (r: Result<Event, Error>)
        requires
            old(self).wf(),
        ensures
            final(self).wf(),
            follows(old(self)@, final(self)@, r, burn_step(old(self)@, origin, collection, item)),
    {
        let c = collection;
        let d = match self.collection(c) {
            Some(d) => d,
            None => return Err(Error::UnknownCollection),
        };
        let it = match self.item(c, item) {
            Some(it) => it,
            None => return Err(Error::UnknownItem),
        };
        let k = key_of(c, item);
        if !check_permits(origin, Some(it.owner)) {
            return Err(Error::NoPermission);
        }
        let ghost s0 = self@;
        self.do_unreserve(it.deposit_account, it.deposit);
        self.do_unreserve(it.owner, it.owner_deposit);
        let meta = match self.item_metadata.get(&k) {
            Some(m) => Some((m.payer, m.deposit)),
            None => None,
        };
        let has_meta = meta.is_some();
        match meta {
            Some((payer, dep)) => {
                self.do_unreserve(payer, dep);
                self.item_metadata.remove(&k);
            },
            None => {},
        }
        let ghost s3 = self@;
        let n = self.purge_attributes(c, Some(item));
        let ghost s4 = self@;
        proof {
            lemma_purge_frame(s3, s3.attributes, c, Some(item));
            lemma_kept(s0.attributes, c, Some(item));
            assert forall|t: int|
                0 <= t < s4.attributes.len() && (#[trigger] s4.attributes[t]).maybe_item is Some
                implies s4.items.remove(k).contains_key(item_key(s4.attributes[t].collection, s4.attributes[t].maybe_item->Some_0)) by {
                let x = s4.attributes[t];
                assert(kept_attrs(s0.attributes, c, Some(item)).contains(x));
                lemma_item_key_injective(x.collection, x.maybe_item->Some_0, c, item);
            }
        }
        self.items.remove(&k);
        self.prices.remove(&k);
        let items = if d.items > 0 { d.items - 1 } else { 0 };
        let item_metadatas = if has_meta && d.item_metadatas > 0 { d.item_metadatas - 1 } else { d.item_metadatas };
        let attributes = if (d.attributes as usize) >= n { d.attributes - (n as u32) } else { 0 };
        self.collections.insert(c, CollectionDetails { items, item_metadatas, attributes, ..d });
        proof {
            assert(!s3.item_metadata.contains_key(k));
        }
        Ok(Event::Burned { collection: c, item, owner: it.owner })
    }
    /// Re-evaluates the deposit of one item.
    fn redeposit_item(&mut self, c: CollectionId, owner: AccountId, i: ItemId)
        requires
            old(self).wf(),
        ensures
            final(self).wf(),
            final(self)@ == redeposit_one(old(self)@, c, owner, i),
    {
        let new = self.config.item_deposit;
        let it = match self.item(c, i) {
            Some(it) => it,
            None => return,
        };
        if it.deposit_account != owner {
            if new > self.free_balance(owner) {
                return;
            }
            self.do_unreserve(it.deposit_account, it.deposit);
            self.do_reserve(owner, new);
            let k = key_of(c, i);
            self.items.insert(k, ItemDetails { deposit: new, deposit_account: owner, ..it });
            proof {
                lemma_attr_links_kept(old(self)@, self@);
            }
            return;
        }
        if new > it.deposit && new - it.deposit > self.free_balance(owner) {
            return;
        }
        if it.deposit > new {
            self.do_unreserve(owner, it.deposit - new);
        } else {
            self.do_reserve(owner, new - it.deposit);
        }
        let k = key_of(c, i);
        self.items.insert(k, ItemDetails { deposit: new, ..it });
        proof {
            lemma_attr_links_kept(old(self)@, self@);
        }
    }

    /// Re-evaluates the deposits of `items` against the current item deposit,
    /// the collection owner bearing them; items that are unknown or cannot be
    /// paid for are skipped.
    pub fn redeposit(&mut self, origin: Origin, collection: CollectionId, items: Vec<ItemId>) -> (r: Result<Event, Error>)
        requires
            old(self).wf(),
        ensures
            final(self).wf(),
            follows(old(self)@, final(self)@, r, redeposit_step(old(self)@, origin, collection, items@)),
    {
        let who = match origin {
            Origin::Force => return Err(Error::BadOrigin),
            Origin::Signed(w) => w,
        };
        let d = match self.collection(collection) {
            Some(d) => d,
            None => return Err(Error::UnknownCollection),
        };
        if d.owner != who {
            return Err(Error::NoPermission);
        }
        let ghost s0 = self@;
        let mut j: usize = 0;
        proof {
            assert(items@.subrange(0, items@.len() as int) =~= items@);
        }
        while j < items.len()
            invariant
                self.wf(),
                j <= items@.len(),
                redeposit_all(self@, collection, who, items@.subrange(j as int, items@.len() as int))
                    == redeposit_all(s0, collection, who, items@),
            decreases items.len() - j,
        {
            let ghost rest = items@.subrange(j as int, items@.len() as int);
            self.redeposit_item(collection, who, items[j]);
            j = j + 1;
            proof {
                assert(rest.subrange(1, rest.len() as int) =~= items@.subrange(j as int, items@.len() as int));
            }
        }
        Ok(Event::Redeposited { collection })
    }
    /// Sets or clears the transfer approval of an item.
    fn set_approval(&mut self, origin: Origin, collection: CollectionId, item: ItemId, delegate: Option<AccountId>) -> (r: Result<Event, Error>)
        requires
            old(self).wf(),
        ensures
            final(self).wf(),
            follows(old(self)@, final(self)@, r, set_approval_step(old(self)@, origin, collection, item, delegate)),
    {
        if self.collection(collection).is_none() {
            return Err(Error::UnknownCollection);
        }
        let it = match self.item(collection, item) {
            Some(it) => it,
            None => return Err(Error::UnknownItem),
        };
        if !check_permits(origin, Some(it.owner)) {
            return Err(Error::NoPermission);
        }
        let k = key_of(collection, item);
        self.items.insert(k, ItemDetails { approved: delegate, ..it });
        proof {
            lemma_attr_links_kept(old(self)@, self@);
        }
        match delegate {
            Some(x) => Ok(Event::TransferApproved { collection, item, owner: it.owner, delegate: x }),
            None => Ok(Event::ApprovalCancelled { collection, item, owner: it.owner }),
        }
    }

    /// Allows `delegate` to transfer the item; the owner only.
    pub fn approve_transfer(&mut self, origin: Origin, collection: CollectionId, item: ItemId, delegate: AccountId) -> (r: Result<Event, Error>)
        requires
            old(self).wf(),
        ensures
            final(self).wf(),
            follows(old(self)@, final(self)@, r, set_approval_step(old(self)@, origin, collection, item, Some(delegate))),
    {
        self.set_approval(origin, collection, item, Some(delegate))
    }

    /// Withdraws the transfer approval of an item; the owner only.
    pub fn cancel_approval(&mut self, origin: Origin, collection: CollectionId, item: ItemId) -> (r: Result<Event, Error>)
        requires
            old(self).wf(),
        ensures
            final(self).wf(),
            follows(old(self)@, final(self)@, r, set_approval_step(old(self)@, origin, collection, item, None)),
    {
        self.set_approval(origin, collection, item, None)
    }
}

} // verus!
