use vstd::prelude::*;
use crate::state::{
    compute_deposit, deposit_of, follows, item_key, key_of, replace_deposit_spec, unreserve_spec,
    same_key, Attribute, CollectionDetails, ItemDetails, Pallet, PalletView,
};
use crate::types::{AccountId, CollectionId, Error, Event, ItemId, Namespace, Origin, LOCK_ATTRIBUTES};

verus! {

broadcast use vstd::std_specs::hash::group_hash_axioms;

/// Whether `a` is the attribute stored under the given key.
pub open spec fn attr_matches(a: Attribute, c: CollectionId, mi: Option<ItemId>, ns: Namespace, key: Seq<u8>) -> bool {
    a.collection == c && a.maybe_item == mi && a.namespace == ns && a.key@ == key
}

/// `j` is the first position of `attrs` holding the given key.
pub open spec fn first_match(attrs: Seq<Attribute>, j: int, c: CollectionId, mi: Option<ItemId>, ns: Namespace, key: Seq<u8>) -> bool {
    0 <= j < attrs.len() && attr_matches(attrs[j], c, mi, ns, key) && forall|t: int|
        0 <= t < j ==> !attr_matches(#[trigger] attrs[t], c, mi, ns, key)
}

/// Position of the attribute stored under the given key, if any.
pub open spec fn find_attr(attrs: Seq<Attribute>, c: CollectionId, mi: Option<ItemId>, ns: Namespace, key: Seq<u8>) -> Option<int> {
    if exists|j: int| first_match(attrs, j, c, mi, ns, key) {
        Some(choose|j: int| first_match(attrs, j, c, mi, ns, key))
    } else {
        None
    }
}

/// Where some position holds the key, a first one does.
pub proof fn lemma_first_exists(attrs: Seq<Attribute>, j: int, c: CollectionId, mi: Option<ItemId>, ns: Namespace, key: Seq<u8>)
    requires
        0 <= j < attrs.len(),
        attr_matches(attrs[j], c, mi, ns, key),
    ensures
        exists|f: int| first_match(attrs, f, c, mi, ns, key),
    decreases j,
{
    if exists|t: int| 0 <= t < j && attr_matches(attrs[t], c, mi, ns, key) {
        let t = choose|t: int| 0 <= t < j && attr_matches(attrs[t], c, mi, ns, key);
        lemma_first_exists(attrs, t, c, mi, ns, key);
    } else {
        assert(first_match(attrs, j, c, mi, ns, key));
    }
}

/// The first position holding the key is unique.
pub proof fn lemma_first_unique(attrs: Seq<Attribute>, j: int, c: CollectionId, mi: Option<ItemId>, ns: Namespace, key: Seq<u8>)
    requires
        first_match(attrs, j, c, mi, ns, key),
    ensures
        find_attr(attrs, c, mi, ns, key) == Some(j),
{
    let f = choose|f: int| first_match(attrs, f, c, mi, ns, key);
    if f < j {
        assert(!attr_matches(attrs[f], c, mi, ns, key));
    }
    if f > j {
        assert(!attr_matches(attrs[j], c, mi, ns, key));
    }
}

/// After an attribute is written under a key, looking the key up finds it.
pub proof fn lemma_find_after_write(attrs: Seq<Attribute>, a: Attribute, c: CollectionId, mi: Option<ItemId>, ns: Namespace, key: Seq<u8>)
    requires
        attr_matches(a, c, mi, ns, key),
    ensures
        match find_attr(attrs, c, mi, ns, key) {
            Some(j) => find_attr(attrs.update(j, a), c, mi, ns, key) == Some(j),
            None => find_attr(attrs.push(a), c, mi, ns, key) == Some(attrs.len() as int),
        },
{
    match find_attr(attrs, c, mi, ns, key) {
        Some(j) => {
            let f = choose|f: int| first_match(attrs, f, c, mi, ns, key);
            assert(f == j);
            let n = attrs.update(j, a);
            assert forall|t: int| 0 <= t < j implies !attr_matches(#[trigger] n[t], c, mi, ns, key) by {
                assert(n[t] == attrs[t]);
            }
            assert(first_match(n, j, c, mi, ns, key));
            lemma_first_unique(n, j, c, mi, ns, key);
        },
        None => {
            let n = attrs.push(a);
            assert forall|t: int| 0 <= t < attrs.len() implies !attr_matches(#[trigger] n[t], c, mi, ns, key) by {
                assert(n[t] == attrs[t]);
                if attr_matches(attrs[t], c, mi, ns, key) {
                    lemma_first_exists(attrs, t, c, mi, ns, key);
                }
            }
            assert(first_match(n, attrs.len() as int, c, mi, ns, key));
            lemma_first_unique(n, attrs.len() as int, c, mi, ns, key);
        },
    }
}

/// Whether the signed account `who` may write attributes of namespace `ns`
/// on collection `c` (with record `d`), or on its item `mi`: the admin for
/// the collection owner's namespace, the item's owner for the item owner's,
/// the named account for an account's.
pub open spec fn may_write(s: PalletView, d: CollectionDetails, who: AccountId, c: CollectionId, mi: Option<ItemId>, ns: Namespace) -> bool {
    match ns {
        Namespace::CollectionOwner => d.admin == Some(who),
        Namespace::ItemOwner => mi is Some && s.items.contains_key(item_key(c, mi->Some_0))
            && s.items[item_key(c, mi->Some_0)].owner == who,
        Namespace::Account(x) => x == who,
    }
}

/// Whether the collection owner's namespace is frozen at `mi`.
pub open spec fn attrs_locked(s: PalletView, d: CollectionDetails, c: CollectionId, mi: Option<ItemId>, ns: Namespace) -> bool {
    ns is CollectionOwner && match mi {
        None => d.settings & LOCK_ATTRIBUTES != 0,
        Some(i) => s.items.contains_key(item_key(c, i)) && s.items[item_key(c, i)].attributes_locked,
    }
}

/// `a - b`, or zero.
pub open spec fn sat_sub(a: u64, b: u64) -> u64 {
    if a >= b { (a - b) as u64 } else { 0 }
}

/// `a + b`, or the largest balance.
pub open spec fn sat_add(a: u64, b: u64) -> u64 {
    if a as int + b as int <= u64::MAX { (a + b) as u64 } else { u64::MAX }
}

/// `set_attribute`: the account entitled to the namespace stores `value`
/// under `key`; the deposit `base + per_byte * (key + value bytes)` is
/// reserved from it in place of any deposit held for an earlier value.
pub open spec fn set_attribute_step(
    s: PalletView,
    origin: Origin,
    c: CollectionId,
    mi: Option<ItemId>,
    ns: Namespace,
    key: Vec<u8>,
    value: Vec<u8>,
) -> Result<(PalletView, Event), Error> {
    {
        {
            let d = s.collections[c];
            let signed = origin is Signed;
            let who = match origin {
                Origin::Signed(w) => w,
                Origin::Force => d.owner,
            };
            let dep = if signed {
                deposit_of(s.config.attribute_deposit_base, s.config.deposit_per_byte, (key@.len() + value@.len()) as int)
            } else {
                0
            };
            let found = find_attr(s.attributes, c, mi, ns, key@);
            let (old_holder, old_dep, old_owned) = match found {
                Some(j) => (
                    match s.attributes[j].payer {
                        Some(p) => p,
                        None => if mi is Some { s.items[item_key(c, mi->Some_0)].owner } else { who },
                    },
                    s.attributes[j].deposit,
                    s.attributes[j].payer is None,
                ),
                None => (who, 0u64, false),
            };
            if !s.collections.contains_key(c) {
                Err(Error::UnknownCollection)
            } else if ns is ItemOwner && mi is None {
                Err(Error::WrongNamespace)
            } else if mi is Some && !s.items.contains_key(item_key(c, mi->Some_0)) {
                Err(Error::UnknownItem)
            } else if signed && !may_write(s, d, who, c, mi, ns) {
                Err(Error::NoPermission)
            } else if signed && attrs_locked(s, d, c, mi, ns) {
                Err(Error::AttributesLocked)
            } else if key@.len() > s.config.key_limit || value@.len() > s.config.value_limit {
                Err(Error::IncorrectData)
            } else if dep > u64::MAX {
                Err(Error::InsufficientBalance)
            } else if found is None && d.attributes == u32::MAX {
                Err(Error::Overflow)
            } else {
                match replace_deposit_spec(s, old_holder, old_dep as int, who, dep) {
                    Err(e) => Err(e),
                    Ok(s1) => {
                        let a = Attribute {
                            collection: c,
                            maybe_item: mi,
                            namespace: ns,
                            key,
                            value,
                            deposit: dep as u64,
                            payer: if ns is ItemOwner && signed { None } else { Some(who) },
                        };
                        let attrs = match found {
                            Some(j) => s1.attributes.update(j, a),
                            None => s1.attributes.push(a),
                        };
                        let items = if ns is ItemOwner {
                            let k = item_key(c, mi->Some_0);
                            let it = s1.items[k];
                            let kept = if old_owned { sat_sub(it.owner_deposit, old_dep) } else { it.owner_deposit };
                            s1.items.insert(k, ItemDetails { owner_deposit: sat_add(kept, dep as u64), ..it })
                        } else {
                            s1.items
                        };
                        let cols = if found is None {
                            s1.collections.insert(c, CollectionDetails { attributes: (d.attributes + 1) as u32, ..d })
                        } else {
                            s1.collections
                        };
                        Ok((
                            PalletView { attributes: attrs, items, collections: cols, ..s1 },
                            Event::AttributeSet { collection: c, maybe_item: mi, namespace: ns },
                        ))
                    },
                }
            }
        }
    }
}

/// `clear_attribute`: the account entitled to the namespace (or the force
/// authority) removes an attribute; its deposit goes back to whoever holds
/// it, for the item owner's namespace the item's current owner.
pub open spec fn clear_attribute_step(
    s: PalletView,
    origin: Origin,
    c: CollectionId,
    mi: Option<ItemId>,
    ns: Namespace,
    key: Seq<u8>,
) -> Result<(PalletView, Event), Error> {
    let d = s.collections[c];
    let found = find_attr(s.attributes, c, mi, ns, key);
    if !s.collections.contains_key(c) {
        Err(Error::UnknownCollection)
    } else if found is None {
        Err(Error::AttributeNotFound)
    } else if origin is Signed && !may_write(s, d, origin->Signed_0, c, mi, ns) {
        Err(Error::NoPermission)
    } else if origin is Signed && attrs_locked(s, d, c, mi, ns) {
        Err(Error::AttributesLocked)
    } else {
        let j = found->Some_0;
        let a = s.attributes[j];
        let k = item_key(c, mi->Some_0);
        let owned = a.payer is None && mi is Some && s.items.contains_key(k);
        let holder = match a.payer {
            Some(p) => p,
            None => if owned { s.items[k].owner } else { d.owner },
        };
        let released = if a.payer is None && !owned { 0 } else { a.deposit as int };
        let s1 = unreserve_spec(s, holder, released);
        let items = if owned {
            s1.items.insert(k, ItemDetails { owner_deposit: sat_sub(s1.items[k].owner_deposit, a.deposit), ..s1.items[k] })
        } else {
            s1.items
        };
        Ok((
            PalletView {
                attributes: s1.attributes.remove(j),
                items,
                collections: s1.collections.insert(c, CollectionDetails { attributes: if d.attributes > 0 { (d.attributes - 1) as u32 } else { 0 }, ..d }),
                ..s1
            },
            Event::AttributeCleared { collection: c, maybe_item: mi, namespace: ns },
        ))
    }
}

/// Whether two byte strings are equal.
pub fn bytes_eq(a: &Vec<u8>, b: &Vec<u8>) -> (r: bool)
    ensures
        r == (a@ == b@),
{
    if a.len() != b.len() {
        return false;
    }
    let mut j: usize = 0;
    while j < a.len()
        invariant
            a@.len() == b@.len(),
            j <= a@.len(),
            forall|t: int| 0 <= t < j ==> a@[t] == b@[t],
        decreases a.len() - j,
    {
        if a[j] != b[j] {
            return false;
        }
        j = j + 1;
    }
    proof {
        assert(a@ =~= b@);
    }
    true
}

impl Pallet {
    /// Position of the attribute stored under the given key, if any.
    pub fn find_attribute(&self, collection: CollectionId, maybe_item: Option<ItemId>, namespace: Namespace, key: &Vec<u8>) -> (r: Option<usize>)
        ensures
            match r {
                Some(j) => find_attr(self@.attributes, collection, maybe_item, namespace, key@) == Some(j as int),
                None => find_attr(self@.attributes, collection, maybe_item, namespace, key@) is None,
            },
    {
        let mut j: usize = 0;
        while j < self.attributes.len()
            invariant
                j <= self.attributes@.len(),
                forall|t: int| 0 <= t < j ==> !attr_matches(#[trigger] self@.attributes[t], collection, maybe_item, namespace, key@),
            decreases self.attributes.len() - j,
        {
            let a = &self.attributes[j];
            if a.collection == collection && a.maybe_item == maybe_item && a.namespace == namespace && bytes_eq(&a.key, key) {
                proof {
                    let ka = key@;
                    assert(first_match(self@.attributes, j as int, collection, maybe_item, namespace, ka));
                    let j2 = choose|j2: int| first_match(self@.attributes, j2, collection, maybe_item, namespace, ka);
                    if j2 < j {
                        assert(!attr_matches(self@.attributes[j2], collection, maybe_item, namespace, ka));
                    }
                    if j2 > j {
                        assert(!attr_matches(self@.attributes[j as int], collection, maybe_item, namespace, ka));
                    }
                }
                return Some(j);
            }
            j = j + 1;
        }
        None
    }

    /// The value stored under the given attribute key, if any.
    pub fn attribute_value(&self, collection: CollectionId, maybe_item: Option<ItemId>, namespace: Namespace, key: &Vec<u8>) -> (r: Option<&Vec<u8>>)
        ensures
            match find_attr(self@.attributes, collection, maybe_item, namespace, key@) {
                Some(j) => r == Some(&self@.attributes[j].value),
                None => r is None,
            },
    {
        match self.find_attribute(collection, maybe_item, namespace, key) {
            Some(j) => Some(&self.attributes[j].value),
            None => None,
        }
    }
    /// Stores `value` under `key` in namespace `namespace` of a collection or
    /// one of its items, reserving the deposit from the signer; the force
    /// authority writes without deposit.
    #[verifier::rlimit(60)]
    pub fn set_attribute(
        &mut self,
        origin: Origin,
        collection: CollectionId,
        maybe_item: Option<ItemId>,
        namespace: Namespace,
        key: Vec<u8>,
        value: Vec<u8>,
    ) -> (r: Result<Event, Error>)
        requires
            old(self).wf(),
        ensures
            final(self).wf(),
            follows(old(self)@, final(self)@, r, set_attribute_step(old(self)@, origin, collection, maybe_item, namespace, key, value)),
    {
        let c = collection;
        let mi = maybe_item;
        let ns = namespace;
        let d = match self.collection(c) {
            Some(d) => d,
            None => return Err(Error::UnknownCollection),
        };
        let signed = origin != Origin::Force;
        let who = match origin {
            Origin::Force => d.owner,
            Origin::Signed(w) => w,
        };
        if ns == Namespace::ItemOwner && mi.is_none() {
            return Err(Error::WrongNamespace);
        }
        let it_opt = match mi {
            Some(i) => match self.item(c, i) {
                Some(it) => Some(it),
                None => return Err(Error::UnknownItem),
            },
            None => None,
        };
        let allowed = match ns {
            Namespace::CollectionOwner => d.admin == Some(who),
            Namespace::ItemOwner => match it_opt {
                Some(it) => it.owner == who,
                None => false,
            },
            Namespace::Account(x) => x == who,
        };
        if signed && !allowed {
            return Err(Error::NoPermission);
        }
        let locked = match ns {
            Namespace::CollectionOwner => match it_opt {
                None => d.settings & LOCK_ATTRIBUTES != 0,
                Some(it) => it.attributes_locked,
            },
            _ => false,
        };
        if signed && locked {
            return Err(Error::AttributesLocked);
        }
        if key.len() > self.config.key_limit as usize || value.len() > self.config.value_limit as usize {
            return Err(Error::IncorrectData);
        }
        let dep = if signed {
            match compute_deposit(self.config.attribute_deposit_base, self.config.deposit_per_byte, key.len() as u64 + value.len() as u64) {
                Some(x) => x,
                None => return Err(Error::InsufficientBalance),
            }
        } else {
            0
        };
        let found = self.find_attribute(c, mi, ns, &key);
        let (old_holder, old_dep, old_owned) = match found {
            Some(j) => (
                match self.attributes[j].payer {
                    Some(p) => p,
                    None => match it_opt {
                        Some(it) => it.owner,
                        None => who,
                    },
                },
                self.attributes[j].deposit,
                self.attributes[j].payer.is_none(),
            ),
            None => (who, 0u64, false),
        };
        if found.is_none() && d.attributes == u32::MAX {
            return Err(Error::Overflow);
        }
        match self.replace_deposit(old_holder, old_dep, who, dep) {
            Err(e) => return Err(e),
            Ok(()) => {},
        }
        let ghost s1 = self@;
        let payer = if ns == Namespace::ItemOwner && signed { None } else { Some(who) };
        let a = Attribute { collection: c, maybe_item: mi, namespace: ns, key, value, deposit: dep, payer };
        match found {
            Some(j) => {
                self.attributes.set(j, a);
            },
            None => {
                self.attributes.push(a);
            },
        }
        proof {
            assert forall|t: int|
                0 <= t < self@.attributes.len() && (#[trigger] self@.attributes[t]).maybe_item is Some
                implies self@.items.contains_key(item_key(self@.attributes[t].collection, self@.attributes[t].maybe_item->Some_0)) by {
                if t < s1.attributes.len() && (found is None || t != found->Some_0) {
                    assert(self@.attributes[t] == s1.attributes[t]);
                }
            }
            let n = self@.attributes;
            let o = s1.attributes;
            assert forall|t: int| 0 <= t < o.len() && (found is None || t != found->Some_0)
                implies !same_key(#[trigger] n[t], n[if found is None { o.len() as int } else { found->Some_0 as int }]) by {
                assert(n[t] == o[t]);
                match found {
                    Some(j) => {
                        assert(first_match(o, j as int, c, mi, ns, key@));
                    },
                    None => {
                        if attr_matches(o[t], c, mi, ns, key@) {
                            lemma_first_exists(o, t, c, mi, ns, key@);
                        }
                    },
                }
            }
            assert forall|x: int, y: int| 0 <= x < n.len() && 0 <= y < n.len() && x != y
                implies !same_key(#[trigger] n[x], #[trigger] n[y]) by {
                let w = if found is None { o.len() as int } else { found->Some_0 as int };
                if x != w && y != w {
                    assert(n[x] == o[x] && n[y] == o[y]);
                } else if x == w {
                    assert(!same_key(n[y], n[w]));
                } else {
                    assert(!same_key(n[x], n[w]));
                }
            }
        }
        if ns == Namespace::ItemOwner {
            match (mi, it_opt) {
                (Some(i), Some(it)) => {
                    let k = key_of(c, i);
                    let kept = if old_owned {
                        if it.owner_deposit >= old_dep { it.owner_deposit - old_dep } else { 0 }
                    } else {
                        it.owner_deposit
                    };
                    let od = if kept <= u64::MAX - dep { kept + dep } else { u64::MAX };
                    self.items.insert(k, ItemDetails { owner_deposit: od, ..it });
                },
                _ => {},
            }
        }
        if found.is_none() {
            self.collections.insert(c, CollectionDetails { attributes: d.attributes + 1, ..d });
        }
        Ok(Event::AttributeSet { collection: c, maybe_item: mi, namespace: ns })
    }

    /// Removes an attribute, releasing its deposit to whoever holds it.
    pub fn clear_attribute(
        &mut self,
        origin: Origin,
        collection: CollectionId,
        maybe_item: Option<ItemId>,
        namespace: Namespace,
        key: Vec<u8>,
    ) -> (r: Result<Event, Error>)
        requires
            old(self).wf(),
        ensures
            final(self).wf(),
            follows(old(self)@, final(self)@, r, clear_attribute_step(old(self)@, origin, collection, maybe_item, namespace, key@)),
    {
        let c = collection;
        let mi = maybe_item;
        let ns = namespace;
        let d = match self.collection(c) {
            Some(d) => d,
            None => return Err(Error::UnknownCollection),
        };
        let j = match self.find_attribute(c, mi, ns, &key) {
            Some(j) => j,
            None => return Err(Error::AttributeNotFound),
        };
        let it_opt = match mi {
            Some(i) => self.item(c, i),
            None => None,
        };
        match origin {
            Origin::Signed(who) => {
                let allowed = match ns {
                    Namespace::CollectionOwner => d.admin == Some(who),
                    Namespace::ItemOwner => match it_opt {
                        Some(it) => it.owner == who,
                        None => false,
                    },
                    Namespace::Account(x) => x == who,
                };
                if !allowed {
                    return Err(Error::NoPermission);
                }
                let locked = match ns {
                    Namespace::CollectionOwner => match (mi, it_opt) {
                        (None, _) => d.settings & LOCK_ATTRIBUTES != 0,
                        (Some(_), Some(it)) => it.attributes_locked,
                        (Some(_), None) => false,
                    },
                    _ => false,
                };
                if locked {
                    return Err(Error::AttributesLocked);
                }
            },
            Origin::Force => {},
        }
        let payer = self.attributes[j].payer;
        let dep = self.attributes[j].deposit;
        let owned = payer.is_none() && it_opt.is_some();
        let holder = match payer {
            Some(p) => p,
            None => match it_opt {
                Some(it) => it.owner,
                None => d.owner,
            },
        };
        let released = if payer.is_none() && !owned { 0 } else { dep };
        self.do_unreserve(holder, released);
        let ghost s1 = self@;
        self.attributes.remove(j);
        proof {
            assert forall|t: int|
                0 <= t < self@.attributes.len() && (#[trigger] self@.attributes[t]).maybe_item is Some
                implies self@.items.contains_key(item_key(self@.attributes[t].collection, self@.attributes[t].maybe_item->Some_0)) by {
                if t < j {
                    assert(self@.attributes[t] == s1.attributes[t]);
                } else {
                    assert(self@.attributes[t] == s1.attributes[t + 1]);
                }
            }
        }
        if owned {
            match (mi, it_opt) {
                (Some(i), Some(it)) => {
                    let k = key_of(c, i);
                    let od = if it.owner_deposit >= dep { it.owner_deposit - dep } else { 0 };
                    self.items.insert(k, ItemDetails { owner_deposit: od, ..it });
                },
                _ => {},
            }
        }
        let count = if d.attributes > 0 { d.attributes - 1 } else { 0 };
        self.collections.insert(c, CollectionDetails { attributes: count, ..d });
        Ok(Event::AttributeCleared { collection: c, maybe_item: mi, namespace: ns })
    }
}

} // verus!
