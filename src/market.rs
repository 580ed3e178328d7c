use vstd::prelude::*;
use crate::state::{
    lemma_attr_links_kept,
    follows, headroom, item_key, key_of, repatriate_spec, transfer_check, transfer_spec,
    unreservable, ItemDetails, ItemPrice, Pallet, PalletView,
};
use crate::types::{AccountId, Balance, CollectionId, Error, Event, ItemId, Origin, LOCK_TRANSFER};

verus! {

broadcast use vstd::std_specs::hash::group_hash_axioms;

/// Why an existing item of `c` cannot change hands, if it cannot.
pub open spec fn transfer_blocked(s: PalletView, c: CollectionId, i: ItemId) -> Option<Error> {
    if s.collections[c].settings & LOCK_TRANSFER != 0 {
        Some(Error::ItemsNonTransferable)
    } else if s.items[item_key(c, i)].transfer_locked {
        Some(Error::ItemLocked)
    } else {
        None
    }
}

/// `set_price`: the owner lists the item for `price`, optionally for one
/// buyer only, or withdraws the listing when `price` is `None`.
pub open spec fn set_price_step(
    s: PalletView,
    origin: Origin,
    c: CollectionId,
    i: ItemId,
    price: Option<Balance>,
    whitelisted_buyer: Option<AccountId>,
) -> Result<(PalletView, Event), Error> {
    let k = item_key(c, i);
    match origin {
        Origin::Force => Err(Error::BadOrigin),
        Origin::Signed(who) => if !s.collections.contains_key(c) {
            Err(Error::UnknownCollection)
        } else if !s.items.contains_key(k) {
            Err(Error::UnknownItem)
        } else if s.items[k].owner != who {
            Err(Error::NoPermission)
        } else if transfer_blocked(s, c, i) is Some {
            Err(transfer_blocked(s, c, i)->Some_0)
        } else {
            match price {
                Some(p) => Ok((
                    PalletView { prices: s.prices.insert(k, ItemPrice { price: p, whitelisted_buyer }), ..s },
                    Event::ItemPriceSet { collection: c, item: i, price: p, whitelisted_buyer },
                )),
                None => Ok((PalletView { prices: s.prices.remove(k), ..s }, Event::ItemPriceRemoved { collection: c, item: i })),
            }
        },
    }
}

/// `buy_item`: a buyer who bids at least the listed price pays that price
/// (not the bid) to the owner and takes the item; the listing is withdrawn
/// along with any transfer approval, and the deposit of the item's
/// owner-namespace attributes moves along.
pub open spec fn buy_item_step(s: PalletView, origin: Origin, c: CollectionId, i: ItemId, bid_price: Balance) -> Result<(PalletView, Event), Error> {
    let k = item_key(c, i);
    match origin {
        Origin::Force => Err(Error::BadOrigin),
        Origin::Signed(who) => if !s.prices.contains_key(k) {
            Err(Error::NotForSale)
        } else if bid_price < s.prices[k].price {
            Err(Error::BidTooLow)
        } else if !s.collections.contains_key(c) {
            Err(Error::UnknownCollection)
        } else if !s.items.contains_key(k) {
            Err(Error::UnknownItem)
        } else {
            let it = s.items[k];
            let listing = s.prices[k];
            let seller = it.owner;
            if listing.whitelisted_buyer is Some && listing.whitelisted_buyer != Some(who) {
                Err(Error::NoPermission)
            } else if seller == who {
                Err(Error::NoPermission)
            } else if transfer_blocked(s, c, i) is Some {
                Err(transfer_blocked(s, c, i)->Some_0)
            } else if transfer_check(s, who, seller, listing.price as int) is Err {
                Err(transfer_check(s, who, seller, listing.price as int)->Err_0)
            } else {
                let s1 = transfer_spec(s, who, seller, listing.price as int);
                if unreservable(s1, seller, it.owner_deposit as int) > headroom(s1, who) {
                    Err(Error::Overflow)
                } else {
                    let s2 = repatriate_spec(s1, seller, who, it.owner_deposit as int);
                    Ok((
                        PalletView {
                            items: s2.items.insert(k, ItemDetails { owner: who, approved: None, ..it }),
                            prices: s2.prices.remove(k),
                            ..s2
                        },
                        Event::ItemBought { collection: c, item: i, price: listing.price, seller, buyer: who },
                    ))
                }
            }
        },
    }
}

impl Pallet {
    /// The listing of an item, if it is for sale.
    pub fn item_price(&self, collection: CollectionId, item: ItemId) -> (r: Option<ItemPrice>)
        ensures
            r == (if self@.prices.contains_key(item_key(collection, item)) {
                Some(self@.prices[item_key(collection, item)])
            } else {
                None::<ItemPrice>
            }),
    {
        let k = key_of(collection, item);
        match self.prices.get(&k) {
            Some(p) => Some(*p),
            None => None,
        }
    }

    /// Why the item cannot change hands, if it cannot.
    fn check_transferable(&self, c: CollectionId, i: ItemId) -> (r: Option<Error>)
        requires
            self@.collections.contains_key(c),
            self@.items.contains_key(item_key(c, i)),
        ensures
            r == transfer_blocked(self@, c, i),
    {
        let d = self.collection(c).unwrap();
        let it = self.item(c, i).unwrap();
        if d.settings & LOCK_TRANSFER != 0 {
            Some(Error::ItemsNonTransferable)
        } else if it.transfer_locked {
            Some(Error::ItemLocked)
        } else {
            None
        }
    }

    /// Lists an item for sale, or withdraws the listing.
    pub fn set_price(
        &mut self,
        origin: Origin,
        collection: CollectionId,
        item: ItemId,
        price: Option<Balance>,
        whitelisted_buyer: Option<AccountId>,
    ) -> (r: Result<Event, Error>)
        requires
            old(self).wf(),
        ensures
            final(self).wf(),
            follows(old(self)@, final(self)@, r, set_price_step(old(self)@, origin, collection, item, price, whitelisted_buyer)),
    {
        let who = match origin {
            Origin::Force => return Err(Error::BadOrigin),
            Origin::Signed(w) => w,
        };
        if self.collection(collection).is_none() {
            return Err(Error::UnknownCollection);
        }
        let it = match self.item(collection, item) {
            Some(it) => it,
            None => return Err(Error::UnknownItem),
        };
        if it.owner != who {
            return Err(Error::NoPermission);
        }
        match self.check_transferable(collection, item) {
            Some(e) => return Err(e),
            None => {},
        }
        let k = key_of(collection, item);
        match price {
            Some(p) => {
                self.prices.insert(k, ItemPrice { price: p, whitelisted_buyer });
                Ok(Event::ItemPriceSet { collection, item, price: p, whitelisted_buyer })
            },
            None => {
                self.prices.remove(&k);
                Ok(Event::ItemPriceRemoved { collection, item })
            },
        }
    }

    /// Buys a listed item at its listed price.
    pub fn buy_item(&mut self, origin: Origin, collection: CollectionId, item: ItemId, bid_price: Balance) -> (r: Result<Event, Error>)
        requires
            old(self).wf(),
        ensures
            final(self).wf(),
            follows(old(self)@, final(self)@, r, buy_item_step(old(self)@, origin, collection, item, bid_price)),
    {
        let who = match origin {
            Origin::Force => return Err(Error::BadOrigin),
            Origin::Signed(w) => w,
        };
        let listing = match self.item_price(collection, item) {
            Some(p) => p,
            None => return Err(Error::NotForSale),
        };
        if bid_price < listing.price {
            return Err(Error::BidTooLow);
        }
        if self.collection(collection).is_none() {
            return Err(Error::UnknownCollection);
        }
        let it = match self.item(collection, item) {
            Some(it) => it,
            None => return Err(Error::UnknownItem),
        };
        let seller = it.owner;
        match listing.whitelisted_buyer {
            Some(b) => if b != who {
                return Err(Error::NoPermission);
            },
            None => {},
        }
        if seller == who {
            return Err(Error::NoPermission);
        }
        match self.check_transferable(collection, item) {
            Some(e) => return Err(e),
            None => {},
        }
        let price = listing.price;
        if price > self.free_balance(who) {
            return Err(Error::InsufficientBalance);
        }
        if price > self.room(seller) {
            return Err(Error::Overflow);
        }
        let res = self.reserved_balance(seller);
        let moved = if it.owner_deposit <= res { it.owner_deposit } else { res };
        if moved > self.room(who) + price {
            return Err(Error::Overflow);
        }
        self.do_transfer(who, seller, price);
        self.do_repatriate(seller, who, it.owner_deposit);
        let k = key_of(collection, item);
        self.items.insert(k, ItemDetails { owner: who, approved: None, ..it });
        self.prices.remove(&k);
        proof {
            lemma_attr_links_kept(old(self)@, self@);
        }
        Ok(Event::ItemBought { collection, item, price, seller, buyer: who })
    }
}

} // verus!
