//! A deposit-accounted ledger of non-fungible item collections: collections,
//! items, namespaced attributes, metadata, role checks, one-way locks and
//! peer-to-peer sales, each command an atomic transition of `Pallet`.

pub mod types;
pub mod state;
pub mod collections;
pub mod items;
pub mod attributes;
pub mod market;
pub mod laws;

pub use state::{Attribute, CollectionDetails, ItemDetails, ItemPrice, Metadata, Pallet};
pub use types::{
    AccountId, Balance, CollectionConfig, CollectionId, Config, DestroyWitness, Error, Event,
    ItemId, MintSettings, MintType, MintWitness, Namespace, Origin, LOCK_ATTRIBUTES,
    LOCK_MAX_SUPPLY, LOCK_METADATA, LOCK_TRANSFER,
};
