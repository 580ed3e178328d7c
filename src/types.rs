use vstd::prelude::*;

verus! {

/// Account identity.
pub type AccountId = u64;

/// Collection identifier.
pub type CollectionId = u32;

/// Item identifier, unique within its collection.
pub type ItemId = u32;

/// Currency amount.
pub type Balance = u64;

/// Who issued a command: an ordinary signed account, or the privileged
/// governance authority that bypasses role checks.
#[derive(Clone, Copy, Debug, PartialEq, Eq, Structural)]
pub enum Origin {
    Signed(AccountId),
    Force,
}

/// Lock bit: items of the collection cannot be transferred.
pub const LOCK_TRANSFER: u8 = 1;

/// Lock bit: metadata of the collection and its items is frozen.
pub const LOCK_METADATA: u8 = 2;

/// Lock bit: collection-level attributes are frozen.
pub const LOCK_ATTRIBUTES: u8 = 4;

/// Lock bit: the maximum supply can no longer change.
pub const LOCK_MAX_SUPPLY: u8 = 8;

/// Who may mint into a collection.
#[derive(Clone, Copy, Debug, PartialEq, Eq, Structural)]
pub enum MintType {
    /// Only the collection's issuer.
    Issuer,
    /// Anyone.
    Public,
    /// Holders of an item of the given collection.
    HolderOf(CollectionId),
}

/// Minting rules of a collection.
#[derive(Clone, Copy, Debug, PartialEq, Eq, Structural)]
pub struct MintSettings {
    pub mint_type: MintType,
    /// Price paid to the collection owner for each mint.
    pub price: Option<Balance>,
    /// First block at which minting is open.
    pub start_block: Option<u64>,
    /// Last block at which minting is open.
    pub end_block: Option<u64>,
}

/// Settings a collection is created with.
#[derive(Clone, Copy, Debug, PartialEq, Eq, Structural)]
pub struct CollectionConfig {
    /// Initial lock bits.
    pub settings: u8,
    pub max_supply: Option<u32>,
    pub mint_settings: MintSettings,
}

/// Counters a caller must state exactly to destroy a collection.
#[derive(Clone, Copy, Debug, PartialEq, Eq, Structural)]
pub struct DestroyWitness {
    pub item_metadatas: u32,
    pub item_configs: u32,
    pub attributes: u32,
}

/// Evidence supplied with a mint.
#[derive(Clone, Copy, Debug, PartialEq, Eq, Structural)]
pub struct MintWitness {
    /// For `HolderOf` collections: an item of the other collection that the
    /// recipient owns.
    pub owned_item: Option<ItemId>,
    /// The price the minter agrees to pay.
    pub mint_price: Option<Balance>,
}

/// Scope that decides who may write an attribute.
#[derive(Clone, Copy, Debug, PartialEq, Eq, Structural)]
pub enum Namespace {
    /// Written by the collection admin.
    CollectionOwner,
    /// Written by the owner of the item.
    ItemOwner,
    /// Written by the named account.
    Account(AccountId),
}

/// Deposit amounts and size limits of a ledger.
#[derive(Clone, Copy, Debug, PartialEq, Eq, Structural)]
pub struct Config {
    pub collection_deposit: Balance,
    pub item_deposit: Balance,
    pub metadata_deposit_base: Balance,
    pub attribute_deposit_base: Balance,
    pub deposit_per_byte: Balance,
    pub key_limit: u32,
    pub value_limit: u32,
    pub string_limit: u32,
}

/// Why a command was refused.
#[derive(Clone, Copy, Debug, PartialEq, Eq, Structural)]
pub enum Error {
    BadOrigin,
    NoPermission,
    UnknownCollection,
    UnknownItem,
    AttributeNotFound,
    NotForSale,
    AlreadyExists,
    NoFreeCollectionId,
    CollectionNotEmpty,
    BadWitness,
    MaxSupplyReached,
    MaxSupplyAlreadySet,
    MaxSupplyLocked,
    AttributesLocked,
    MetadataLocked,
    ItemLocked,
    ItemsNonTransferable,
    BidTooLow,
    WrongNamespace,
    Unaccepted,
    MintNotStarted,
    MintEnded,
    IncorrectData,
    MetadataNotFound,
    InsufficientBalance,
    Overflow,
}

/// What a successful command did.
#[derive(Clone, Copy, Debug, PartialEq, Eq, Structural)]
pub enum Event {
    Created { collection: CollectionId, owner: AccountId },
    Destroyed { collection: CollectionId },
    Issued { collection: CollectionId, item: ItemId, owner: AccountId },
    Burned { collection: CollectionId, item: ItemId, owner: AccountId },
    Transferred { collection: CollectionId, item: ItemId, from: AccountId, to: AccountId },
    AttributeSet { collection: CollectionId, maybe_item: Option<ItemId>, namespace: Namespace },
    AttributeCleared { collection: CollectionId, maybe_item: Option<ItemId>, namespace: Namespace },
    ItemPriceSet { collection: CollectionId, item: ItemId, price: Balance, whitelisted_buyer: Option<AccountId> },
    ItemPriceRemoved { collection: CollectionId, item: ItemId },
    ItemBought { collection: CollectionId, item: ItemId, price: Balance, seller: AccountId, buyer: AccountId },
    TeamChanged { collection: CollectionId, issuer: Option<AccountId>, admin: Option<AccountId>, freezer: Option<AccountId> },
    OwnershipAcceptanceChanged { who: AccountId, collection: CollectionId },
    TransferApproved { collection: CollectionId, item: ItemId, owner: AccountId, delegate: AccountId },
    ApprovalCancelled { collection: CollectionId, item: ItemId, owner: AccountId },
    OwnerChanged { collection: CollectionId, new_owner: AccountId },
    CollectionLocked { collection: CollectionId },
    ItemPropertiesLocked { collection: CollectionId, item: ItemId, lock_metadata: bool, lock_attributes: bool },
    ItemTransferLocked { collection: CollectionId, item: ItemId },
    ItemTransferUnlocked { collection: CollectionId, item: ItemId },
    CollectionMaxSupplySet { collection: CollectionId, max_supply: u32 },
    CollectionMintSettingsUpdated { collection: CollectionId },
    CollectionMetadataSet { collection: CollectionId },
    CollectionMetadataCleared { collection: CollectionId },
    ItemMetadataSet { collection: CollectionId, item: ItemId },
    ItemMetadataCleared { collection: CollectionId, item: ItemId },
    Redeposited { collection: CollectionId },
}

} // verus!
