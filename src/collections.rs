use vstd::prelude::*;
use crate::state::{
    check_permits, compute_deposit, deposit_of, follows, free_of, headroom, permits,
    repatriate_spec, replace_deposit_spec, reserve_spec, unreservable, unreserve_spec,
    CollectionDetails, Metadata, Pallet, PalletView,
};
use crate::items::{kept_attrs, lemma_kept, lemma_purge_frame, purge_balances};
use crate::types::{
    AccountId, CollectionConfig, CollectionId, DestroyWitness, Error, Event, MintSettings, Origin,
    LOCK_MAX_SUPPLY, LOCK_METADATA,
};

verus! {

broadcast use vstd::std_specs::hash::group_hash_axioms;

/// The record of a freshly created collection.
pub open spec fn new_collection(owner: AccountId, admin: AccountId, deposit: u64, config: CollectionConfig) -> CollectionDetails {
    CollectionDetails {
        owner,
        issuer: Some(admin),
        admin: Some(admin),
        freezer: Some(admin),
        total_deposit: deposit,
        items: 0,
        item_metadatas: 0,
        attributes: 0,
        max_supply: config.max_supply,
        settings: config.settings,
        mint_settings: config.mint_settings,
        pending_owner: None,
    }
}

/// `create`: the caller founds the next collection and pays its deposit.
pub open spec fn create_step(s: PalletView, origin: Origin, admin: AccountId, config: CollectionConfig) -> Result<(PalletView, Event), Error> {
    match origin {
        Origin::Force => Err(Error::BadOrigin),
        Origin::Signed(who) => {
            let id = s.next_collection_id;
            let d = s.config.collection_deposit;
            if id == u32::MAX {
                Err(Error::NoFreeCollectionId)
            } else if d > free_of(s, who) {
                Err(Error::InsufficientBalance)
            } else {
                let s1 = reserve_spec(s, who, d as int);
                Ok((
                    PalletView {
                        collections: s1.collections.insert(id, new_collection(who, admin, d, config)),
                        next_collection_id: (id + 1) as u32,
                        ..s1
                    },
                    Event::Created { collection: id, owner: who },
                ))
            }
        },
    }
}

/// `destroy`: a collection without items whose counters the witness states
/// exactly is removed; its deposit, its metadata deposit and the deposits of
/// its remaining attributes are released and those records removed.
pub open spec fn destroy_step(s: PalletView, origin: Origin, c: CollectionId, w: DestroyWitness) -> Result<(PalletView, Event), Error> {
    if !s.collections.contains_key(c) {
        Err(Error::UnknownCollection)
    } else {
        let d = s.collections[c];
        if !permits(origin, Some(d.owner)) {
            Err(Error::NoPermission)
        } else if d.items != 0 {
            Err(Error::CollectionNotEmpty)
        } else if w.item_metadatas != d.item_metadatas || w.item_configs != d.items || w.attributes != d.attributes {
            Err(Error::BadWitness)
        } else {
            let s1 = unreserve_spec(s, d.owner, d.total_deposit as int);
            let s2 = if s1.collection_metadata.contains_key(c) {
                let m = s1.collection_metadata[c];
                let t = unreserve_spec(s1, m.payer, m.deposit as int);
                PalletView { collection_metadata: t.collection_metadata.remove(c), ..t }
            } else {
                s1
            };
            let s3 = purge_balances(s2, s2.attributes, c, None);
            Ok((
                PalletView { collections: s3.collections.remove(c), attributes: kept_attrs(s.attributes, c, None), ..s3 },
                Event::Destroyed { collection: c },
            ))
        }
    }
}

/// Steps that only rewrite the record of an existing collection whose role
/// `holder` the origin must act for.
pub open spec fn update_step(
    s: PalletView,
    origin: Origin,
    c: CollectionId,
    holder: Option<AccountId>,
    d2: CollectionDetails,
    e: Event,
) -> Result<(PalletView, Event), Error> {
    if !permits(origin, holder) {
        Err(Error::NoPermission)
    } else {
        Ok((PalletView { collections: s.collections.insert(c, d2), ..s }, e))
    }
}

/// `set_team`: the owner (or the force authority) replaces the three roles.
pub open spec fn set_team_step(
    s: PalletView,
    origin: Origin,
    c: CollectionId,
    issuer: Option<AccountId>,
    admin: Option<AccountId>,
    freezer: Option<AccountId>,
) -> Result<(PalletView, Event), Error> {
    if !s.collections.contains_key(c) {
        Err(Error::UnknownCollection)
    } else {
        let d = s.collections[c];
        update_step(
            s,
            origin,
            c,
            Some(d.owner),
            CollectionDetails { issuer, admin, freezer, ..d },
            Event::TeamChanged { collection: c, issuer, admin, freezer },
        )
    }
}

/// `set_accept_ownership`: the caller agrees to become the owner of `c`.
pub open spec fn set_accept_ownership_step(s: PalletView, origin: Origin, c: CollectionId) -> Result<(PalletView, Event), Error> {
    match origin {
        Origin::Force => Err(Error::BadOrigin),
        Origin::Signed(who) => if !s.collections.contains_key(c) {
            Err(Error::UnknownCollection)
        } else {
            let d = s.collections[c];
            Ok((
                PalletView { collections: s.collections.insert(c, CollectionDetails { pending_owner: Some(who), ..d }), ..s },
                Event::OwnershipAcceptanceChanged { who, collection: c },
            ))
        },
    }
}

/// `transfer_ownership`: the owner (or the force authority) hands the
/// collection, and its deposit, to an account that agreed to take it.
pub open spec fn transfer_ownership_step(s: PalletView, origin: Origin, c: CollectionId, new_owner: AccountId) -> Result<(PalletView, Event), Error> {
    if !s.collections.contains_key(c) {
        Err(Error::UnknownCollection)
    } else {
        let d = s.collections[c];
        let from = d.owner;
        if !permits(origin, Some(from)) {
            Err(Error::NoPermission)
        } else if d.pending_owner != Some(new_owner) {
            Err(Error::Unaccepted)
        } else if from != new_owner && unreservable(s, from, d.total_deposit as int) > headroom(s, new_owner) {
            Err(Error::Overflow)
        } else {
            let s1 = repatriate_spec(s, from, new_owner, d.total_deposit as int);
            Ok((
                PalletView {
                    collections: s1.collections.insert(c, CollectionDetails { owner: new_owner, pending_owner: None, ..d }),
                    ..s1
                },
                Event::OwnerChanged { collection: c, new_owner },
            ))
        }
    }
}

/// `lock_collection`: the owner adds lock bits; none is ever removed.
pub open spec fn lock_collection_step(s: PalletView, origin: Origin, c: CollectionId, bits: u8) -> Result<(PalletView, Event), Error> {
    match origin {
        Origin::Force => Err(Error::BadOrigin),
        Origin::Signed(_) => if !s.collections.contains_key(c) {
            Err(Error::UnknownCollection)
        } else {
            let d = s.collections[c];
            update_step(
                s,
                origin,
                c,
                Some(d.owner),
                CollectionDetails { settings: d.settings | bits, ..d },
                Event::CollectionLocked { collection: c },
            )
        },
    }
}

/// `set_collection_max_supply`: the owner caps the number of items, unless
/// the cap is locked or lies below the items already minted.
pub open spec fn set_collection_max_supply_step(s: PalletView, origin: Origin, c: CollectionId, max: u32) -> Result<(PalletView, Event), Error> {
    if !s.collections.contains_key(c) {
        Err(Error::UnknownCollection)
    } else {
        let d = s.collections[c];
        if !permits(origin, Some(d.owner)) {
            Err(Error::NoPermission)
        } else if d.settings & LOCK_MAX_SUPPLY != 0 {
            Err(Error::MaxSupplyLocked)
        } else if max < d.items {
            Err(Error::MaxSupplyAlreadySet)
        } else {
            Ok((
                PalletView { collections: s.collections.insert(c, CollectionDetails { max_supply: Some(max), ..d }), ..s },
                Event::CollectionMaxSupplySet { collection: c, max_supply: max },
            ))
        }
    }
}

/// `update_mint_settings`: the owner replaces the minting rules.
pub open spec fn update_mint_settings_step(s: PalletView, origin: Origin, c: CollectionId, ms: MintSettings) -> Result<(PalletView, Event), Error> {
    if !s.collections.contains_key(c) {
        Err(Error::UnknownCollection)
    } else {
        let d = s.collections[c];
        update_step(
            s,
            origin,
            c,
            Some(d.owner),
            CollectionDetails { mint_settings: ms, ..d },
            Event::CollectionMintSettingsUpdated { collection: c },
        )
    }
}

/// Who holds a metadata deposit that `origin` pays: the signer, or for the
/// force authority (which pays nothing) the collection owner.
pub open spec fn metadata_payer(origin: Origin, owner: AccountId) -> AccountId {
    match origin {
        Origin::Signed(w) => w,
        Origin::Force => owner,
    }
}

/// `set_collection_metadata`: the admin replaces the collection's metadata,
/// the old deposit is released and the new one reserved from the signer.
pub open spec fn set_collection_metadata_step(s: PalletView, origin: Origin, c: CollectionId, data: Vec<u8>) -> Result<(PalletView, Event), Error> {
    if !s.collections.contains_key(c) {
        Err(Error::UnknownCollection)
    } else {
        let d = s.collections[c];
        let payer = metadata_payer(origin, d.owner);
        let dep = if origin is Force { 0 } else { deposit_of(s.config.metadata_deposit_base, s.config.deposit_per_byte, data@.len() as int) };
        let (old_payer, old_dep) = if s.collection_metadata.contains_key(c) {
            (s.collection_metadata[c].payer, s.collection_metadata[c].deposit as int)
        } else {
            (payer, 0)
        };
        if !permits(origin, d.admin) {
            Err(Error::NoPermission)
        } else if d.settings & LOCK_METADATA != 0 {
            Err(Error::MetadataLocked)
        } else if data@.len() > s.config.string_limit {
            Err(Error::IncorrectData)
        } else if dep > u64::MAX {
            Err(Error::InsufficientBalance)
        } else {
            match replace_deposit_spec(s, old_payer, old_dep, payer, dep) {
                Err(e) => Err(e),
                Ok(s1) => Ok((
                    PalletView {
                        collection_metadata: s1.collection_metadata.insert(c, Metadata { deposit: dep as u64, payer, data }),
                        ..s1
                    },
                    Event::CollectionMetadataSet { collection: c },
                )),
            }
        }
    }
}

/// `clear_collection_metadata`: the admin removes the collection's metadata
/// and its deposit is released.
pub open spec fn clear_collection_metadata_step(s: PalletView, origin: Origin, c: CollectionId) -> Result<(PalletView, Event), Error> {
    if !s.collections.contains_key(c) {
        Err(Error::UnknownCollection)
    } else {
        let d = s.collections[c];
        if !permits(origin, d.admin) {
            Err(Error::NoPermission)
        } else if d.settings & LOCK_METADATA != 0 {
            Err(Error::MetadataLocked)
        } else if !s.collection_metadata.contains_key(c) {
            Err(Error::MetadataNotFound)
        } else {
            let m = s.collection_metadata[c];
            let s1 = unreserve_spec(s, m.payer, m.deposit as int);
            Ok((
                PalletView { collection_metadata: s1.collection_metadata.remove(c), ..s1 },
                Event::CollectionMetadataCleared { collection: c },
            ))
        }
    }
}

impl Pallet {
    /// The record of collection `c`, if it exists.
    pub fn collection(&self, c: CollectionId) -> (r: Option<CollectionDetails>)
        ensures
            r == (if self@.collections.contains_key(c) { Some(self@.collections[c]) } else { None::<CollectionDetails> }),
    {
        match self.collections.get(&c) {
            Some(d) => Some(*d),
            None => None,
        }
    }

    /// Creates a collection owned by the signer, with `admin` as its issuer,
    /// admin and freezer, reserving the collection deposit.
    pub fn create(&mut self, origin: Origin, admin: AccountId, config: CollectionConfig) -> (r: Result<Event, Error>)
        requires
            old(self).wf(),
        ensures
            final(self).wf(),
            follows(old(self)@, final(self)@, r, create_step(old(self)@, origin, admin, config)),
    {
        let who = match origin {
            Origin::Force => return Err(Error::BadOrigin),
            Origin::Signed(w) => w,
        };
        let id = self.next_collection_id;
        let d = self.config.collection_deposit;
        if id == u32::MAX {
            return Err(Error::NoFreeCollectionId);
        }
        if d > self.free_balance(who) {
            return Err(Error::InsufficientBalance);
        }
        self.do_reserve(who, d);
        let details = CollectionDetails {
            owner: who,
            issuer: Some(admin),
            admin: Some(admin),
            freezer: Some(admin),
            total_deposit: d,
            items: 0,
            item_metadatas: 0,
            attributes: 0,
            max_supply: config.max_supply,
            settings: config.settings,
            mint_settings: config.mint_settings,
            pending_owner: None,
        };
        self.collections.insert(id, details);
        self.next_collection_id = id + 1;
        Ok(Event::Created { collection: id, owner: who })
    }

    /// Destroys an empty collection; `witness` must state its counters exactly.
    pub fn destroy(&mut self, origin: Origin, collection: CollectionId, witness: DestroyWitness) -> (r: Result<Event, Error>)
        requires
            old(self).wf(),
        ensures
            final(self).wf(),
            follows(old(self)@, final(self)@, r, destroy_step(old(self)@, origin, collection, witness)),
    {
        let c = collection;
        let d = match self.collection(c) {
            Some(d) => d,
            None => return Err(Error::UnknownCollection),
        };
        if !check_permits(origin, Some(d.owner)) {
            return Err(Error::NoPermission);
        }
        if d.items != 0 {
            return Err(Error::CollectionNotEmpty);
        }
        if witness.item_metadatas != d.item_metadatas || witness.item_configs != d.items
            || witness.attributes != d.attributes {
            return Err(Error::BadWitness);
        }
        self.do_unreserve(d.owner, d.total_deposit);
        let meta = match self.collection_metadata.get(&c) {
            Some(m) => Some((m.payer, m.deposit)),
            None => None,
        };
        match meta {
            Some((payer, dep)) => {
                self.do_unreserve(payer, dep);
                self.collection_metadata.remove(&c);
            },
            None => {},
        }
        let ghost s2 = self@;
        self.purge_attributes(c, None);
        proof {
            lemma_purge_frame(s2, s2.attributes, c, None);
            lemma_kept(s2.attributes, c, None);
        }
        self.collections.remove(&c);
        proof {
            assert forall|j: int| 0 <= j < self@.attributes.len()
                implies self@.collections.contains_key(#[trigger] self@.attributes[j].collection) by {
                let x = self@.attributes[j];
                assert(kept_attrs(s2.attributes, c, None).contains(x));
                let k = choose|k: int| 0 <= k < s2.attributes.len() && s2.attributes[k] == x;
                assert(s2.collections.contains_key(s2.attributes[k].collection));
            }
        }
        Ok(Event::Destroyed { collection: c })
    }

    /// Replaces the issuer, admin and freezer of a collection.
    pub fn set_team(
        &mut self,
        origin: Origin,
        collection: CollectionId,
        issuer: Option<AccountId>,
        admin: Option<AccountId>,
        freezer: Option<AccountId>,
    ) -> (r: Result<Event, Error>)
        requires
            old(self).wf(),
        ensures
            final(self).wf(),
            follows(old(self)@, final(self)@, r, set_team_step(old(self)@, origin, collection, issuer, admin, freezer)),
    {
        let d = match self.collection(collection) {
            Some(d) => d,
            None => return Err(Error::UnknownCollection),
        };
        if !check_permits(origin, Some(d.owner)) {
            return Err(Error::NoPermission);
        }
        self.collections.insert(collection, CollectionDetails { issuer, admin, freezer, ..d });
        Ok(Event::TeamChanged { collection, issuer, admin, freezer })
    }

    /// Records that the signer agrees to become the owner of `collection`.
    pub fn set_accept_ownership(&mut self, origin: Origin, collection: CollectionId) -> (r: Result<Event, Error>)
        requires
            old(self).wf(),
        ensures
            final(self).wf(),
            follows(old(self)@, final(self)@, r, set_accept_ownership_step(old(self)@, origin, collection)),
    {
        let who = match origin {
            Origin::Force => return Err(Error::BadOrigin),
            Origin::Signed(w) => w,
        };
        let d = match self.collection(collection) {
            Some(d) => d,
            None => return Err(Error::UnknownCollection),
        };
        self.collections.insert(collection, CollectionDetails { pending_owner: Some(who), ..d });
        Ok(Event::OwnershipAcceptanceChanged { who, collection })
    }

    /// Hands the collection, and its deposit, to `new_owner`, who must have
    /// agreed to take it; the owner or the force authority only.
    pub fn transfer_ownership(&mut self, origin: Origin, collection: CollectionId, new_owner: AccountId) -> (r: Result<Event, Error>)
        requires
            old(self).wf(),
        ensures
            final(self).wf(),
            follows(old(self)@, final(self)@, r, transfer_ownership_step(old(self)@, origin, collection, new_owner)),
    {
        let d = match self.collection(collection) {
            Some(d) => d,
            None => return Err(Error::UnknownCollection),
        };
        let who = d.owner;
        if !check_permits(origin, Some(who)) {
            return Err(Error::NoPermission);
        }
        if d.pending_owner != Some(new_owner) {
            return Err(Error::Unaccepted);
        }
        if who != new_owner {
            let res = self.reserved_balance(who);
            let moved = if d.total_deposit <= res { d.total_deposit } else { res };
            if moved > self.room(new_owner) {
                return Err(Error::Overflow);
            }
        }
        self.do_repatriate(who, new_owner, d.total_deposit);
        self.collections.insert(collection, CollectionDetails { owner: new_owner, pending_owner: None, ..d });
        Ok(Event::OwnerChanged { collection, new_owner })
    }

    /// Adds the lock bits `lock_settings` to the collection's settings.
    pub fn lock_collection(&mut self, origin: Origin, collection: CollectionId, lock_settings: u8) -> (r: Result<Event, Error>)
        requires
            old(self).wf(),
        ensures
            final(self).wf(),
            follows(old(self)@, final(self)@, r, lock_collection_step(old(self)@, origin, collection, lock_settings)),
    {
        if origin == Origin::Force {
            return Err(Error::BadOrigin);
        }
        let d = match self.collection(collection) {
            Some(d) => d,
            None => return Err(Error::UnknownCollection),
        };
        if !check_permits(origin, Some(d.owner)) {
            return Err(Error::NoPermission);
        }
        self.collections.insert(collection, CollectionDetails { settings: d.settings | lock_settings, ..d });
        Ok(Event::CollectionLocked { collection })
    }

    /// Caps the number of items of a collection.
    pub fn set_collection_max_supply(&mut self, origin: Origin, collection: CollectionId, max_supply: u32) -> (r: Result<Event, Error>)
        requires
            old(self).wf(),
        ensures
            final(self).wf(),
            follows(old(self)@, final(self)@, r, set_collection_max_supply_step(old(self)@, origin, collection, max_supply)),
    {
        let d = match self.collection(collection) {
            Some(d) => d,
            None => return Err(Error::UnknownCollection),
        };
        if !check_permits(origin, Some(d.owner)) {
            return Err(Error::NoPermission);
        }
        if d.settings & LOCK_MAX_SUPPLY != 0 {
            return Err(Error::MaxSupplyLocked);
        }
        if max_supply < d.items {
            return Err(Error::MaxSupplyAlreadySet);
        }
        self.collections.insert(collection, CollectionDetails { max_supply: Some(max_supply), ..d });
        Ok(Event::CollectionMaxSupplySet { collection, max_supply })
    }

    /// Replaces the minting rules of a collection.
    pub fn update_mint_settings(&mut self, origin: Origin, collection: CollectionId, mint_settings: MintSettings) -> (r: Result<Event, Error>)
        requires
            old(self).wf(),
        ensures
            final(self).wf(),
            follows(old(self)@, final(self)@, r, update_mint_settings_step(old(self)@, origin, collection, mint_settings)),
    {
        let d = match self.collection(collection) {
            Some(d) => d,
            None => return Err(Error::UnknownCollection),
        };
        if !check_permits(origin, Some(d.owner)) {
            return Err(Error::NoPermission);
        }
        self.collections.insert(collection, CollectionDetails { mint_settings, ..d });
        Ok(Event::CollectionMintSettingsUpdated { collection })
    }

    /// Sets the metadata of a collection, reserving its deposit from the signer.
    pub fn set_collection_metadata(&mut self, origin: Origin, collection: CollectionId, data: Vec<u8>) -> (r: Result<Event, Error>)
        requires
            old(self).wf(),
        ensures
            final(self).wf(),
            follows(old(self)@, final(self)@, r, set_collection_metadata_step(old(self)@, origin, collection, data)),
    {
        let c = collection;
        let d = match self.collection(c) {
            Some(d) => d,
            None => return Err(Error::UnknownCollection),
        };
        let payer = match origin {
            Origin::Signed(w) => w,
            Origin::Force => d.owner,
        };
        if !check_permits(origin, d.admin) {
            return Err(Error::NoPermission);
        }
        if d.settings & LOCK_METADATA != 0 {
            return Err(Error::MetadataLocked);
        }
        if data.len() > self.config.string_limit as usize {
            return Err(Error::IncorrectData);
        }
        let dep = if origin == Origin::Force {
            0
        } else {
            match compute_deposit(self.config.metadata_deposit_base, self.config.deposit_per_byte, data.len() as u64) {
                Some(x) => x,
                None => return Err(Error::InsufficientBalance),
            }
        };
        let (old_payer, old_dep) = match self.collection_metadata.get(&c) {
            Some(m) => (m.payer, m.deposit),
            None => (payer, 0),
        };
        match self.replace_deposit(old_payer, old_dep, payer, dep) {
            Err(e) => return Err(e),
            Ok(()) => {},
        }
        self.collection_metadata.insert(c, Metadata { deposit: dep, payer, data });
        Ok(Event::CollectionMetadataSet { collection: c })
    }

    /// Removes the metadata of a collection, releasing its deposit.
    pub fn clear_collection_metadata(&mut self, origin: Origin, collection: CollectionId) -> (r: Result<Event, Error>)
        requires
            old(self).wf(),
        ensures
            final(self).wf(),
            follows(old(self)@, final(self)@, r, clear_collection_metadata_step(old(self)@, origin, collection)),
    {
        let c = collection;
        let d = match self.collection(c) {
            Some(d) => d,
            None => return Err(Error::UnknownCollection),
        };
        if !check_permits(origin, d.admin) {
            return Err(Error::NoPermission);
        }
        if d.settings & LOCK_METADATA != 0 {
            return Err(Error::MetadataLocked);
        }
        let (payer, dep) = match self.collection_metadata.get(&c) {
            Some(m) => (m.payer, m.deposit),
            None => return Err(Error::MetadataNotFound),
        };
        self.do_unreserve(payer, dep);
        self.collection_metadata.remove(&c);
        Ok(Event::CollectionMetadataCleared { collection: c })
    }
}

} // verus!
