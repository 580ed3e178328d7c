use vstd::prelude::*;
use std::collections::HashMap;
use crate::types::{
    AccountId, Balance, CollectionId, Config, Error, Event, ItemId, MintSettings, Namespace, Origin,
};

verus! {

broadcast use vstd::std_specs::hash::group_hash_axioms;

/// Registry record of a collection.
#[derive(Clone, Copy, Debug, PartialEq, Eq, Structural)]
pub struct CollectionDetails {
    pub owner: AccountId,
    pub issuer: Option<AccountId>,
    pub admin: Option<AccountId>,
    pub freezer: Option<AccountId>,
    /// Reserved from `owner` for the collection's existence.
    pub total_deposit: Balance,
    /// Number of live items.
    pub items: u32,
    /// Number of items that carry metadata.
    pub item_metadatas: u32,
    /// Number of attributes of the collection and of its items.
    pub attributes: u32,
    pub max_supply: Option<u32>,
    /// Lock bits; they are only ever added.
    pub settings: u8,
    pub mint_settings: MintSettings,
    /// The account that agreed to take over the collection, if any.
    pub pending_owner: Option<AccountId>,
}

/// Record of an item.
#[derive(Clone, Copy, Debug, PartialEq, Eq, Structural)]
pub struct ItemDetails {
    pub owner: AccountId,
    /// Account that paid the item deposit.
    pub deposit_account: AccountId,
    pub deposit: Balance,
    /// Deposit of the item's `ItemOwner` attributes, held by the current owner.
    pub owner_deposit: Balance,
    /// An account the owner allowed to transfer the item once.
    pub approved: Option<AccountId>,
    pub transfer_locked: bool,
    pub metadata_locked: bool,
    pub attributes_locked: bool,
}

/// A sale listing.
#[derive(Clone, Copy, Debug, PartialEq, Eq, Structural)]
pub struct ItemPrice {
    pub price: Balance,
    pub whitelisted_buyer: Option<AccountId>,
}

/// Metadata of a collection or an item, with the deposit held for it.
#[derive(Debug)]
pub struct Metadata {
    pub deposit: Balance,
    pub payer: AccountId,
    pub data: Vec<u8>,
}

/// One attribute entry.
#[derive(Debug)]
pub struct Attribute {
    pub collection: CollectionId,
    pub maybe_item: Option<ItemId>,
    pub namespace: Namespace,
    pub key: Vec<u8>,
    pub value: Vec<u8>,
    pub deposit: Balance,
    /// Account holding the deposit; `None` means the current owner of the item,
    /// in whose `owner_deposit` the amount is counted.
    pub payer: Option<AccountId>,
}

/// The whole ledger: registry, items, attributes, listings and balances.
pub struct Pallet {
    pub config: Config,
    pub block: u64,
    pub next_collection_id: CollectionId,
    pub collections: HashMap<CollectionId, CollectionDetails>,
    pub items: HashMap<u64, ItemDetails>,
    pub prices: HashMap<u64, ItemPrice>,
    pub item_metadata: HashMap<u64, Metadata>,
    pub collection_metadata: HashMap<CollectionId, Metadata>,
    pub attributes: Vec<Attribute>,
    pub free: HashMap<AccountId, Balance>,
    pub reserved: HashMap<AccountId, Balance>,
}

/// Mathematical model of a `Pallet`.
pub struct PalletView {
    pub config: Config,
    pub block: u64,
    pub next_collection_id: CollectionId,
    pub collections: Map<CollectionId, CollectionDetails>,
    /// Keyed by `item_key(collection, item)`.
    pub items: Map<u64, ItemDetails>,
    pub prices: Map<u64, ItemPrice>,
    pub item_metadata: Map<u64, Metadata>,
    pub collection_metadata: Map<CollectionId, Metadata>,
    pub attributes: Seq<Attribute>,
    pub free: Map<AccountId, Balance>,
    pub reserved: Map<AccountId, Balance>,
}

impl View for Pallet {
    type V = PalletView;

    open spec fn view(&self) -> PalletView {
        PalletView {
            config: self.config,
            block: self.block,
            next_collection_id: self.next_collection_id,
            collections: self.collections@,
            items: self.items@,
            prices: self.prices@,
            item_metadata: self.item_metadata@,
            collection_metadata: self.collection_metadata@,
            attributes: self.attributes@,
            free: self.free@,
            reserved: self.reserved@,
        }
    }
}

/// The single key under which item `i` of collection `c` is stored.
pub open spec fn item_key(c: CollectionId, i: ItemId) -> u64 {
    (c as int * 0x1_0000_0000 + i as int) as u64
}

/// The storage key of item `i` of collection `c`.
pub fn key_of(c: CollectionId, i: ItemId) -> (r: u64)
    ensures
        r == item_key(c, i),
{
    (c as u64) * 0x1_0000_0000u64 + (i as u64)
}

/// Free balance of `a`; an unknown account has none.
pub open spec fn free_of(s: PalletView, a: AccountId) -> int {
    bal(s.free, a)
}

/// The amount `m` records for `a`, zero when absent.
pub open spec fn bal(m: Map<AccountId, Balance>, a: AccountId) -> int {
    if m.contains_key(a) { m[a] as int } else { 0 }
}

/// Reserved balance of `a`.
pub open spec fn reserved_of(s: PalletView, a: AccountId) -> int {
    bal(s.reserved, a)
}

/// The free and reserved balance of `a` together fit in a `Balance`.
pub open spec fn balance_fits(s: PalletView, a: AccountId) -> bool {
    acct_fits(s.free, s.reserved, a)
}

/// The two balances of `a` together fit in a `Balance`.
pub open spec fn acct_fits(free: Map<AccountId, Balance>, reserved: Map<AccountId, Balance>, a: AccountId) -> bool {
    bal(free, a) + bal(reserved, a) <= u64::MAX
}

/// Every account's free and reserved balance together fit in a `Balance`.
pub closed spec fn balances_ok(free: Map<AccountId, Balance>, reserved: Map<AccountId, Balance>) -> bool {
    forall|a: AccountId| #[trigger] acct_fits(free, reserved, a)
}

/// What `balances_ok` states, account by account.
pub proof fn lemma_balances_ok(s: PalletView, a: AccountId)
    requires
        balances_ok(s.free, s.reserved),
    ensures
        balance_fits(s, a),
{
    assert(acct_fits(s.free, s.reserved, a));
}

/// Room left in the account of `a` for incoming funds.
pub open spec fn headroom(s: PalletView, a: AccountId) -> int {
    u64::MAX - free_of(s, a) - reserved_of(s, a)
}

/// State with `x` moved from free to reserved for `a` (`x` must not exceed
/// the free balance).
pub open spec fn reserve_spec(s: PalletView, a: AccountId, x: int) -> PalletView {
    PalletView {
        free: s.free.insert(a, (free_of(s, a) - x) as u64),
        reserved: s.reserved.insert(a, (reserved_of(s, a) + x) as u64),
        ..s
    }
}

/// Amount that an unreserve of `x` from `a` actually releases.
pub open spec fn unreservable(s: PalletView, a: AccountId, x: int) -> int {
    if x <= reserved_of(s, a) { x } else { reserved_of(s, a) }
}

/// State with up to `x` moved from reserved back to free for `a`.
pub open spec fn unreserve_spec(s: PalletView, a: AccountId, x: int) -> PalletView {
    let y = unreservable(s, a, x);
    PalletView {
        free: s.free.insert(a, (free_of(s, a) + y) as u64),
        reserved: s.reserved.insert(a, (reserved_of(s, a) - y) as u64),
        ..s
    }
}

/// State with `x` of free balance paid from `from` to `to`.
pub open spec fn transfer_spec(s: PalletView, from: AccountId, to: AccountId, x: int) -> PalletView {
    if from == to {
        s
    } else {
        let s1 = PalletView { free: s.free.insert(from, (free_of(s, from) - x) as u64), ..s };
        PalletView { free: s1.free.insert(to, (free_of(s1, to) + x) as u64), ..s1 }
    }
}

/// Whether `x` can be paid from `from` to `to`: `Ok` or the error.
pub open spec fn transfer_check(s: PalletView, from: AccountId, to: AccountId, x: int) -> Result<(), Error> {
    if x > free_of(s, from) {
        Err(Error::InsufficientBalance)
    } else if from != to && x > headroom(s, to) {
        Err(Error::Overflow)
    } else {
        Ok(())
    }
}

/// State with up to `x` of `from`'s reserved balance moved into `to`'s
/// reserved balance.
pub open spec fn repatriate_spec(s: PalletView, from: AccountId, to: AccountId, x: int) -> PalletView {
    if from == to {
        s
    } else {
        let y = unreservable(s, from, x);
        let s1 = PalletView { reserved: s.reserved.insert(from, (reserved_of(s, from) - y) as u64), ..s };
        PalletView { reserved: s1.reserved.insert(to, (reserved_of(s1, to) + y) as u64), ..s1 }
    }
}

/// A change of balances that keeps each account's total, or keeps it within
/// bounds, keeps the ledger well formed.
pub proof fn lemma_balances_wf(s: PalletView, t: PalletView)
    requires
        s.wf(),
        forall|a: AccountId| #[trigger] balance_fits(t, a),
        t.items == s.items,
        t.item_metadata == s.item_metadata,
        t.collections == s.collections,
        t.next_collection_id == s.next_collection_id,
        t.attributes == s.attributes,
        t.collection_metadata == s.collection_metadata,
    ensures
        t.wf(),
{
    assert forall|a: AccountId| #[trigger] acct_fits(t.free, t.reserved, a) by {
        assert(balance_fits(t, a));
    }
    assert(balances_ok(t.free, t.reserved));
}

/// Whether attribute `a` belongs to collection `c` and, when `only` names an
/// item, to that item.
pub open spec fn attr_selected(a: Attribute, c: CollectionId, only: Option<ItemId>) -> bool {
    a.collection == c && (only is None || a.maybe_item == only)
}

/// Every item-level attribute belongs to an existing item.
pub open spec fn attrs_on_items(attrs: Seq<Attribute>, items: Map<u64, ItemDetails>) -> bool {
    forall|j: int|
        0 <= j < attrs.len() && (#[trigger] attrs[j]).maybe_item is Some ==> items.contains_key(
            item_key(attrs[j].collection, attrs[j].maybe_item->Some_0),
        )
}

/// Whether two attributes are stored under the same key.
pub open spec fn same_key(a: Attribute, b: Attribute) -> bool {
    a.collection == b.collection && a.maybe_item == b.maybe_item && a.namespace == b.namespace && a.key@ == b.key@
}

/// No two attributes are stored under the same key.
pub open spec fn keys_unique(attrs: Seq<Attribute>) -> bool {
    forall|x: int, y: int|
        0 <= x < attrs.len() && 0 <= y < attrs.len() && x != y ==> !same_key(#[trigger] attrs[x], #[trigger] attrs[y])
}

/// Every attribute belongs to an existing collection.
pub open spec fn attrs_in_collections(attrs: Seq<Attribute>, collections: Map<CollectionId, CollectionDetails>) -> bool {
    forall|j: int| 0 <= j < attrs.len() ==> collections.contains_key(#[trigger] attrs[j].collection)
}

/// The attributes' links to items and collections survive any change that
/// keeps the attributes and removes no item and no collection.
pub proof fn lemma_attr_links_kept(s: PalletView, t: PalletView)
    requires
        attrs_on_items(s.attributes, s.items),
        attrs_in_collections(s.attributes, s.collections),
        t.attributes == s.attributes,
        forall|k: u64| s.items.contains_key(k) ==> #[trigger] t.items.contains_key(k),
        forall|c: CollectionId| s.collections.contains_key(c) ==> #[trigger] t.collections.contains_key(c),
    ensures
        attrs_on_items(t.attributes, t.items),
        attrs_in_collections(t.attributes, t.collections),
{
    assert forall|j: int| 0 <= j < t.attributes.len() && (#[trigger] t.attributes[j]).maybe_item is Some
        implies t.items.contains_key(item_key(t.attributes[j].collection, t.attributes[j].maybe_item->Some_0)) by {
        assert(s.attributes[j] == t.attributes[j]);
    }
    assert forall|j: int| 0 <= j < t.attributes.len() implies t.collections.contains_key(#[trigger] t.attributes[j].collection) by {
        assert(s.attributes[j] == t.attributes[j]);
    }
}

/// Whether `origin` may act for the role held by `holder`: the force authority
/// always may, a signed account only when it holds the role.
pub open spec fn permits(origin: Origin, holder: Option<AccountId>) -> bool {
    match origin {
        Origin::Force => true,
        Origin::Signed(w) => holder == Some(w),
    }
}

/// Whether `origin` may act for the role held by `holder`.
pub fn check_permits(origin: Origin, holder: Option<AccountId>) -> (r: bool)
    ensures
        r == permits(origin, holder),
{
    match origin {
        Origin::Force => true,
        Origin::Signed(w) => match holder {
            Some(h) => h == w,
            None => false,
        },
    }
}

/// How a command's result and the state after it follow from its step: on
/// success the new state and the event, on failure the error and no change.
pub open spec fn follows(
    pre: PalletView,
    post: PalletView,
    r: Result<Event, Error>,
    step: Result<(PalletView, Event), Error>,
) -> bool {
    match step {
        Ok((s, e)) => r == Ok::<Event, Error>(e) && post == s,
        Err(e) => r == Err::<Event, Error>(e) && post == pre,
    }
}

/// `base + per_byte * len`, the deposit for `len` bytes.
pub open spec fn deposit_of(base: Balance, per_byte: Balance, len: int) -> int {
    base as int + per_byte as int * len
}

/// The deposit for `len` bytes, or `None` when it exceeds any balance.
pub fn compute_deposit(base: Balance, per_byte: Balance, len: u64) -> (r: Option<Balance>)
    ensures
        match r {
            Some(x) => x as int == deposit_of(base, per_byte, len as int),
            None => deposit_of(base, per_byte, len as int) > u64::MAX,
        },
{
    match per_byte.checked_mul(len) {
        Some(m) => base.checked_add(m),
        None => {
            proof {
                assert(per_byte as int * len as int >= 0) by (nonlinear_arith);
            }
            None
        },
    }
}

/// State after the deposit `old_amount` held by `old_holder` is released and
/// `new_amount` is reserved from `new_holder` in its place.
pub open spec fn replace_deposit_spec(
    s: PalletView,
    old_holder: AccountId,
    old_amount: int,
    new_holder: AccountId,
    new_amount: int,
) -> Result<PalletView, Error> {
    let s1 = unreserve_spec(s, old_holder, old_amount);
    if new_amount > free_of(s1, new_holder) {
        Err(Error::InsufficientBalance)
    } else {
        Ok(reserve_spec(s1, new_holder, new_amount))
    }
}

impl PalletView {
    /// Invariant of the ledger.
    pub open spec fn wf(self) -> bool {
        &&& balances_ok(self.free, self.reserved)
        &&& forall|k: u64| #[trigger] self.item_metadata.contains_key(k) ==> self.items.contains_key(k)
        &&& forall|c: CollectionId| #[trigger] self.collections.contains_key(c) ==> c < self.next_collection_id
        &&& attrs_on_items(self.attributes, self.items)
        &&& attrs_in_collections(self.attributes, self.collections)
        &&& keys_unique(self.attributes)
        &&& forall|c: CollectionId| #[trigger] self.collection_metadata.contains_key(c) ==> self.collections.contains_key(c)
    }
}

impl Pallet {
    /// Well-formedness of the ledger.
    pub open spec fn wf(&self) -> bool {
        self@.wf()
    }

    /// An empty ledger with the given deposits and limits.
    pub fn new(config: Config) -> (r: Pallet)
        ensures
            r.wf(),
            r@.config == config,
            r@.block == 0,
            r@.next_collection_id == 0,
            r@.collections.is_empty(),
            r@.items.is_empty(),
            r@.prices.is_empty(),
            r@.item_metadata.is_empty(),
            r@.collection_metadata.is_empty(),
            r@.attributes.len() == 0,
            r@.free.is_empty(),
            r@.reserved.is_empty(),
    {
        Pallet {
            config,
            block: 0,
            next_collection_id: 0,
            collections: HashMap::new(),
            items: HashMap::new(),
            prices: HashMap::new(),
            item_metadata: HashMap::new(),
            collection_metadata: HashMap::new(),
            attributes: Vec::new(),
            free: HashMap::new(),
            reserved: HashMap::new(),
        }
    }

    /// Free balance of `who`.
    pub fn free_balance(&self, who: AccountId) -> (r: Balance)
        ensures
            r == free_of(self@, who),
    {
        match self.free.get(&who) {
            Some(v) => *v,
            None => 0,
        }
    }

    /// Reserved balance of `who`.
    pub fn reserved_balance(&self, who: AccountId) -> (r: Balance)
        ensures
            r == reserved_of(self@, who),
    {
        match self.reserved.get(&who) {
            Some(v) => *v,
            None => 0,
        }
    }

    /// Room left in `who`'s account for incoming funds.
    pub(crate) fn room(&self, who: AccountId) -> (r: Balance)
        requires
            self.wf(),
        ensures
            r == headroom(self@, who),
    {
        proof {
            assert(balance_fits(self@, who));
        }
        u64::MAX - self.free_balance(who) - self.reserved_balance(who)
    }

    /// Sets the free balance of `who`, as a genesis endowment.
    pub fn set_free_balance(&mut self, who: AccountId, amount: Balance) -> (r: Result<(), Error>)
        requires
            old(self).wf(),
        ensures
            final(self).wf(),
            amount as int + reserved_of(old(self)@, who) <= u64::MAX ==> r is Ok && final(self)@ == (
            PalletView { free: old(self)@.free.insert(who, amount), ..old(self)@ }),
            amount as int + reserved_of(old(self)@, who) > u64::MAX ==> r == Err::<(), Error>(
                Error::Overflow,
            ) && final(self)@ == old(self)@,
    {
        let res = self.reserved_balance(who);
        if amount > u64::MAX - res {
            return Err(Error::Overflow);
        }
        self.free.insert(who, amount);
        proof {
            assert forall|a: AccountId| #[trigger] balance_fits(self@, a) by {
                lemma_balances_ok(old(self)@, a);
            }
            lemma_balances_wf(old(self)@, self@);
        }
        Ok(())
    }

    /// Moves `x` from free to reserved for `a`.
    pub(crate) fn do_reserve(&mut self, a: AccountId, x: Balance)
        requires
            old(self).wf(),
            x <= free_of(old(self)@, a),
        ensures
            final(self).wf(),
            final(self)@ == reserve_spec(old(self)@, a, x as int),
    {
        let f = self.free_balance(a);
        let r = self.reserved_balance(a);
        proof {
            lemma_balances_ok(old(self)@, a);
        }
        self.free.insert(a, f - x);
        self.reserved.insert(a, r + x);
        proof {
            assert forall|b: AccountId| #[trigger] balance_fits(self@, b) by {
                lemma_balances_ok(old(self)@, b);
                if b != a {
                    assert(free_of(self@, b) == free_of(old(self)@, b));
                    assert(reserved_of(self@, b) == reserved_of(old(self)@, b));
                }
            }
            lemma_balances_wf(old(self)@, self@);
        }
    }

    /// Moves up to `x` from reserved back to free for `a`.
    pub(crate) fn do_unreserve(&mut self, a: AccountId, x: Balance)
        requires
            old(self).wf(),
        ensures
            final(self).wf(),
            final(self)@ == unreserve_spec(old(self)@, a, x as int),
    {
        let f = self.free_balance(a);
        let r = self.reserved_balance(a);
        let y = if x <= r { x } else { r };
        proof {
            lemma_balances_ok(old(self)@, a);
        }
        self.free.insert(a, f + y);
        self.reserved.insert(a, r - y);
        proof {
            assert forall|b: AccountId| #[trigger] balance_fits(self@, b) by {
                lemma_balances_ok(old(self)@, b);
                if b != a {
                    assert(free_of(self@, b) == free_of(old(self)@, b));
                    assert(reserved_of(self@, b) == reserved_of(old(self)@, b));
                }
            }
            lemma_balances_wf(old(self)@, self@);
        }
    }

    /// Pays `x` of free balance from `from` to `to`.
    pub(crate) fn do_transfer(&mut self, from: AccountId, to: AccountId, x: Balance)
        requires
            old(self).wf(),
            transfer_check(old(self)@, from, to, x as int) is Ok,
        ensures
            final(self).wf(),
            final(self)@ == transfer_spec(old(self)@, from, to, x as int),
    {
        if from != to {
            let f = self.free_balance(from);
            self.free.insert(from, f - x);
            proof {
                lemma_balances_ok(old(self)@, to);
            }
            let t = self.free_balance(to);
            self.free.insert(to, t + x);
            proof {
                assert forall|b: AccountId| #[trigger] balance_fits(self@, b) by {
                lemma_balances_ok(old(self)@, b);
                if b != from && b != to {
                    assert(free_of(self@, b) == free_of(old(self)@, b));
                    assert(reserved_of(self@, b) == reserved_of(old(self)@, b));
                }
            }
            lemma_balances_wf(old(self)@, self@);
            }
        }
    }

    /// Moves up to `x` of `from`'s reserved balance into `to`'s reserved balance.
    pub(crate) fn do_repatriate(&mut self, from: AccountId, to: AccountId, x: Balance)
        requires
            old(self).wf(),
            from != to ==> unreservable(old(self)@, from, x as int) <= headroom(old(self)@, to),
        ensures
            final(self).wf(),
            final(self)@ == repatriate_spec(old(self)@, from, to, x as int),
    {
        if from != to {
            let r = self.reserved_balance(from);
            let y = if x <= r { x } else { r };
            self.reserved.insert(from, r - y);
            proof {
                lemma_balances_ok(old(self)@, to);
            }
            let t = self.reserved_balance(to);
            self.reserved.insert(to, t + y);
            proof {
                assert forall|b: AccountId| #[trigger] balance_fits(self@, b) by {
                lemma_balances_ok(old(self)@, b);
                if b != from && b != to {
                    assert(free_of(self@, b) == free_of(old(self)@, b));
                    assert(reserved_of(self@, b) == reserved_of(old(self)@, b));
                }
            }
            lemma_balances_wf(old(self)@, self@);
            }
        }
    }
    /// Releases `old_amount` from `old_holder` and reserves `new_amount` from
    /// `new_holder`, or changes nothing and fails.
    pub(crate) fn replace_deposit(
        &mut self,
        old_holder: AccountId,
        old_amount: Balance,
        new_holder: AccountId,
        new_amount: Balance,
    ) -> (r: Result<(), Error>)
        requires
            old(self).wf(),
        ensures
            final(self).wf(),
            match replace_deposit_spec(old(self)@, old_holder, old_amount as int, new_holder, new_amount as int) {
                Ok(t) => r is Ok && final(self)@ == t,
                Err(e) => r == Err::<(), Error>(e) && final(self)@ == old(self)@,
            },
    {
        let f = self.free_balance(new_holder);
        let res = self.reserved_balance(old_holder);
        let released = if old_amount <= res { old_amount } else { res };
        proof {
            lemma_balances_ok(old(self)@, new_holder);
            lemma_balances_ok(old(self)@, old_holder);
        }
        let avail = if old_holder == new_holder { f + released } else { f };
        if new_amount > avail {
            return Err(Error::InsufficientBalance);
        }
        self.do_unreserve(old_holder, old_amount);
        self.do_reserve(new_holder, new_amount);
        Ok(())
    }
}

} // verus!
