use pallet_nftaa::{
    CollectionConfig, Config, DestroyWitness, Error, Event, MintSettings, MintType, MintWitness,
    Namespace, Origin, Pallet, LOCK_ATTRIBUTES, LOCK_MAX_SUPPLY, LOCK_METADATA, LOCK_TRANSFER,
};

const ALICE: u64 = 1;
const BOB: u64 = 2;
const CHARLIE: u64 = 3;

fn config() -> Config {
    Config {
        collection_deposit: 2,
        item_deposit: 1,
        metadata_deposit_base: 1,
        attribute_deposit_base: 1,
        deposit_per_byte: 1,
        key_limit: 32,
        value_limit: 64,
        string_limit: 128,
    }
}

fn collection_config_with_all_settings_enabled() -> CollectionConfig {
    CollectionConfig {
        settings: 0,
        max_supply: None,
        mint_settings: MintSettings {
            mint_type: MintType::Issuer,
            price: None,
            start_block: None,
            end_block: None,
        },
    }
}

fn ledger() -> Pallet {
    let mut p = Pallet::new(config());
    p.set_free_balance(ALICE, 100).unwrap();
    p.set_free_balance(BOB, 100).unwrap();
    p.set_free_balance(CHARLIE, 100).unwrap();
    p
}

fn created(p: &mut Pallet, owner: u64, cfg: CollectionConfig) -> u32 {
    match p.create(Origin::Signed(owner), owner, cfg) {
        Ok(Event::Created { collection, owner: o }) => {
            assert_eq!(o, owner);
            collection
        }
        other => panic!("create failed: {:?}", other),
    }
}

fn zero_witness() -> DestroyWitness {
    DestroyWitness { item_metadatas: 0, item_configs: 0, attributes: 0 }
}

#[test]
fn it_creates_collection() {
    let mut p = ledger();
    assert!(p
        .create(Origin::Signed(ALICE), ALICE, collection_config_with_all_settings_enabled())
        .is_ok());
}

#[test]
fn create_reserves_deposit_and_assigns_roles() {
    let mut p = ledger();
    let c = created(&mut p, ALICE, collection_config_with_all_settings_enabled());
    assert_eq!(c, 0);
    assert_eq!(p.free_balance(ALICE), 98);
    assert_eq!(p.reserved_balance(ALICE), 2);
    let d = p.collection(c).unwrap();
    assert_eq!(d.owner, ALICE);
    assert_eq!(d.admin, Some(ALICE));
    assert_eq!(d.issuer, Some(ALICE));
    assert_eq!(d.freezer, Some(ALICE));
    assert_eq!(d.total_deposit, 2);
    assert_eq!(created(&mut p, BOB, collection_config_with_all_settings_enabled()), 1);
}

#[test]
fn create_by_force_or_poor_caller_fails() {
    let mut p = ledger();
    let cfg = collection_config_with_all_settings_enabled();
    assert_eq!(p.create(Origin::Force, ALICE, cfg), Err(Error::BadOrigin));
    assert_eq!(p.create(Origin::Signed(9), 9, cfg), Err(Error::InsufficientBalance));
    assert!(p.collection(0).is_none());
}

#[test]
fn create_then_destroy_returns_deposit() {
    let mut p = ledger();
    let c = created(&mut p, ALICE, collection_config_with_all_settings_enabled());
    assert_eq!(p.destroy(Origin::Signed(ALICE), c, zero_witness()), Ok(Event::Destroyed { collection: c }));
    assert!(p.collection(c).is_none());
    assert_eq!(p.free_balance(ALICE), 100);
    assert_eq!(p.reserved_balance(ALICE), 0);
}

#[test]
fn destroy_checks_owner_items_and_witness() {
    let mut p = ledger();
    let c = created(&mut p, ALICE, collection_config_with_all_settings_enabled());
    assert_eq!(p.destroy(Origin::Signed(BOB), c, zero_witness()), Err(Error::NoPermission));
    assert_eq!(p.destroy(Origin::Signed(ALICE), 7, zero_witness()), Err(Error::UnknownCollection));
    let bad = DestroyWitness { item_metadatas: 1, item_configs: 0, attributes: 0 };
    assert_eq!(p.destroy(Origin::Signed(ALICE), c, bad), Err(Error::BadWitness));
    p.mint(Origin::Signed(ALICE), c, 1, ALICE, None).unwrap();
    assert_eq!(p.destroy(Origin::Signed(ALICE), c, zero_witness()), Err(Error::CollectionNotEmpty));
    p.set_attribute(Origin::Signed(ALICE), c, None, Namespace::CollectionOwner, vec![1], vec![2]).unwrap();
    p.burn(Origin::Signed(ALICE), c, 1).unwrap();
    assert_eq!(p.destroy(Origin::Force, c, zero_witness()), Err(Error::BadWitness));
    p.set_collection_metadata(Origin::Signed(ALICE), c, vec![1, 2]).unwrap();
    // collection deposit 2, attribute deposit 1 + 2, metadata deposit 1 + 2
    assert_eq!(p.reserved_balance(ALICE), 8);
    let w = DestroyWitness { item_metadatas: 0, item_configs: 0, attributes: 1 };
    assert_eq!(p.destroy(Origin::Signed(ALICE), c, w), Ok(Event::Destroyed { collection: c }));
    assert!(p.collection(c).is_none());
    assert!(p.attribute_value(c, None, Namespace::CollectionOwner, &vec![1]).is_none());
    assert_eq!(p.reserved_balance(ALICE), 0);
    assert_eq!(p.free_balance(ALICE), 100);
}

#[test]
fn mint_then_burn_restores_reserved_balance() {
    let mut p = ledger();
    let c = created(&mut p, ALICE, collection_config_with_all_settings_enabled());
    let before = p.reserved_balance(ALICE);
    assert_eq!(p.mint(Origin::Signed(ALICE), c, 5, BOB, None), Ok(Event::Issued { collection: c, item: 5, owner: BOB }));
    assert_eq!(p.reserved_balance(ALICE), before + 1);
    assert_eq!(p.item(c, 5).unwrap().owner, BOB);
    assert_eq!(p.burn(Origin::Signed(BOB), c, 5), Ok(Event::Burned { collection: c, item: 5, owner: BOB }));
    assert_eq!(p.reserved_balance(ALICE), before);
    assert_eq!(p.reserved_balance(BOB), 0);
    assert!(p.item(c, 5).is_none());
    assert_eq!(p.collection(c).unwrap().items, 0);
}

#[test]
fn max_supply_transfer_burn_scenario() {
    let mut p = ledger();
    let mut cfg = collection_config_with_all_settings_enabled();
    cfg.max_supply = Some(1);
    let c = created(&mut p, ALICE, cfg);
    assert!(p.mint(Origin::Signed(ALICE), c, 1, ALICE, None).is_ok());
    assert_eq!(p.mint(Origin::Signed(ALICE), c, 2, ALICE, None), Err(Error::MaxSupplyReached));
    assert!(p.transfer(Origin::Signed(ALICE), c, 1, BOB).is_ok());
    assert_eq!(p.burn(Origin::Signed(ALICE), c, 1), Err(Error::NoPermission));
    assert!(p.burn(Origin::Signed(BOB), c, 1).is_ok());
    assert_eq!(p.collection(c).unwrap().items, 0);
    assert!(p.destroy(Origin::Signed(ALICE), c, zero_witness()).is_ok());
}

#[test]
fn item_owner_attribute_deposit_follows_the_item() {
    let mut p = ledger();
    let c = created(&mut p, ALICE, collection_config_with_all_settings_enabled());
    p.mint(Origin::Signed(ALICE), c, 1, ALICE, None).unwrap();
    let reserved_after_mint = p.reserved_balance(ALICE);
    assert!(p.set_attribute(Origin::Signed(ALICE), c, Some(1), Namespace::ItemOwner, vec![7, 7], vec![1, 2, 3]).is_ok());
    // deposit: base 1 + 1 per byte * 5 bytes
    assert_eq!(p.reserved_balance(ALICE), reserved_after_mint + 6);
    p.transfer(Origin::Signed(ALICE), c, 1, BOB).unwrap();
    assert_eq!(p.reserved_balance(ALICE), reserved_after_mint);
    assert_eq!(p.reserved_balance(BOB), 6);
    let alice_free = p.free_balance(ALICE);
    let bob_free = p.free_balance(BOB);
    assert_eq!(p.clear_attribute(Origin::Signed(ALICE), c, Some(1), Namespace::ItemOwner, vec![7, 7]), Err(Error::NoPermission));
    assert!(p.clear_attribute(Origin::Signed(BOB), c, Some(1), Namespace::ItemOwner, vec![7, 7]).is_ok());
    assert_eq!(p.free_balance(BOB), bob_free + 6);
    assert_eq!(p.reserved_balance(BOB), 0);
    assert_eq!(p.free_balance(ALICE), alice_free);
    assert!(p.attribute_value(c, Some(1), Namespace::ItemOwner, &vec![7, 7]).is_none());
}

#[test]
fn lock_collection_only_adds_bits() {
    let mut p = ledger();
    let c = created(&mut p, ALICE, collection_config_with_all_settings_enabled());
    p.lock_collection(Origin::Signed(ALICE), c, LOCK_METADATA | LOCK_ATTRIBUTES).unwrap();
    assert_eq!(p.collection(c).unwrap().settings, 6);
    p.lock_collection(Origin::Signed(ALICE), c, LOCK_METADATA | LOCK_ATTRIBUTES).unwrap();
    assert_eq!(p.collection(c).unwrap().settings, 6);
    p.lock_collection(Origin::Signed(ALICE), c, LOCK_METADATA).unwrap();
    assert_eq!(p.collection(c).unwrap().settings, 6);
    p.lock_collection(Origin::Signed(ALICE), c, 0).unwrap();
    assert_eq!(p.collection(c).unwrap().settings, 6);
    p.lock_collection(Origin::Signed(ALICE), c, LOCK_TRANSFER).unwrap();
    assert_eq!(p.collection(c).unwrap().settings, 7);
    assert_eq!(p.lock_collection(Origin::Signed(BOB), c, LOCK_MAX_SUPPLY), Err(Error::NoPermission));
    assert_eq!(p.lock_collection(Origin::Force, c, LOCK_MAX_SUPPLY), Err(Error::BadOrigin));
}

#[test]
fn set_attribute_twice_charges_only_the_length_difference() {
    let mut p = ledger();
    let c = created(&mut p, ALICE, collection_config_with_all_settings_enabled());
    let r0 = p.reserved_balance(BOB);
    let ns = Namespace::Account(BOB);
    assert!(p.set_attribute(Origin::Signed(BOB), c, None, ns, vec![1, 2], vec![0; 10]).is_ok());
    assert_eq!(p.reserved_balance(BOB), r0 + 13);
    assert!(p.set_attribute(Origin::Signed(BOB), c, None, ns, vec![1, 2], vec![0; 4]).is_ok());
    assert_eq!(p.reserved_balance(BOB), r0 + 7);
    assert!(p.set_attribute(Origin::Signed(BOB), c, None, ns, vec![1, 2], vec![5; 20]).is_ok());
    assert_eq!(p.reserved_balance(BOB), r0 + 23);
    assert_eq!(p.collection(c).unwrap().attributes, 1);
    assert_eq!(p.attribute_value(c, None, ns, &vec![1, 2]), Some(&vec![5; 20]));
    assert!(p.clear_attribute(Origin::Signed(BOB), c, None, ns, vec![1, 2]).is_ok());
    assert_eq!(p.reserved_balance(BOB), r0);
    assert_eq!(p.collection(c).unwrap().attributes, 0);
}

#[test]
fn attribute_errors() {
    let mut p = ledger();
    let c = created(&mut p, ALICE, collection_config_with_all_settings_enabled());
    p.mint(Origin::Signed(ALICE), c, 1, BOB, None).unwrap();
    assert_eq!(p.set_attribute(Origin::Signed(ALICE), c, None, Namespace::ItemOwner, vec![1], vec![1]), Err(Error::WrongNamespace));
    assert_eq!(p.set_attribute(Origin::Signed(ALICE), c, Some(1), Namespace::ItemOwner, vec![1], vec![1]), Err(Error::NoPermission));
    assert_eq!(p.set_attribute(Origin::Signed(BOB), c, None, Namespace::CollectionOwner, vec![1], vec![1]), Err(Error::NoPermission));
    assert_eq!(p.set_attribute(Origin::Signed(BOB), c, None, Namespace::Account(ALICE), vec![1], vec![1]), Err(Error::NoPermission));
    assert_eq!(p.set_attribute(Origin::Signed(BOB), c, Some(9), Namespace::ItemOwner, vec![1], vec![1]), Err(Error::UnknownItem));
    assert_eq!(p.set_attribute(Origin::Signed(BOB), 4, None, Namespace::Account(BOB), vec![1], vec![1]), Err(Error::UnknownCollection));
    assert_eq!(p.set_attribute(Origin::Signed(BOB), c, None, Namespace::Account(BOB), vec![1; 33], vec![1]), Err(Error::IncorrectData));
    assert!(p.set_attribute(Origin::Force, c, None, Namespace::Account(BOB), vec![9], vec![1]).is_ok());
    assert_eq!(p.set_attribute(Origin::Signed(9), c, None, Namespace::Account(9), vec![1], vec![1]), Err(Error::InsufficientBalance));
    assert_eq!(p.clear_attribute(Origin::Signed(BOB), c, None, Namespace::Account(BOB), vec![1]), Err(Error::AttributeNotFound));
    p.lock_collection(Origin::Signed(ALICE), c, LOCK_ATTRIBUTES).unwrap();
    assert_eq!(p.set_attribute(Origin::Signed(ALICE), c, None, Namespace::CollectionOwner, vec![1], vec![1]), Err(Error::AttributesLocked));
    p.set_attribute(Origin::Signed(ALICE), c, Some(1), Namespace::CollectionOwner, vec![1], vec![1]).unwrap();
    p.lock_item_properties(Origin::Signed(ALICE), c, 1, false, true).unwrap();
    assert_eq!(p.set_attribute(Origin::Signed(ALICE), c, Some(1), Namespace::CollectionOwner, vec![1], vec![2]), Err(Error::AttributesLocked));
    assert_eq!(p.clear_attribute(Origin::Signed(ALICE), c, Some(1), Namespace::CollectionOwner, vec![1]), Err(Error::AttributesLocked));
    assert!(p.clear_attribute(Origin::Force, c, Some(1), Namespace::CollectionOwner, vec![1]).is_ok());
    assert_eq!(p.reserved_balance(ALICE), 3);
}

#[test]
fn burn_releases_item_attributes() {
    let mut p = ledger();
    let c = created(&mut p, ALICE, collection_config_with_all_settings_enabled());
    p.mint(Origin::Signed(ALICE), c, 1, BOB, None).unwrap();
    p.mint(Origin::Signed(ALICE), c, 2, BOB, None).unwrap();
    p.set_attribute(Origin::Signed(CHARLIE), c, Some(1), Namespace::Account(CHARLIE), vec![1], vec![1]).unwrap();
    p.set_attribute(Origin::Signed(CHARLIE), c, Some(2), Namespace::Account(CHARLIE), vec![1], vec![1]).unwrap();
    p.set_attribute(Origin::Signed(BOB), c, Some(1), Namespace::ItemOwner, vec![2], vec![2, 2]).unwrap();
    p.set_metadata(Origin::Signed(ALICE), c, 1, vec![1, 2, 3]).unwrap();
    assert_eq!(p.reserved_balance(CHARLIE), 6);
    assert_eq!(p.reserved_balance(BOB), 4);
    assert_eq!(p.reserved_balance(ALICE), 2 + 2 + 4);
    assert_eq!(p.collection(c).unwrap().attributes, 3);
    p.burn(Origin::Signed(BOB), c, 1).unwrap();
    assert_eq!(p.reserved_balance(CHARLIE), 3);
    assert_eq!(p.reserved_balance(BOB), 0);
    assert_eq!(p.reserved_balance(ALICE), 3);
    assert_eq!(p.collection(c).unwrap().attributes, 1);
    assert_eq!(p.collection(c).unwrap().item_metadatas, 0);
    assert!(p.attribute_value(c, Some(2), Namespace::Account(CHARLIE), &vec![1]).is_some());
    assert!(p.attribute_value(c, Some(1), Namespace::Account(CHARLIE), &vec![1]).is_none());
}

#[test]
fn buy_item_low_bid_changes_nothing() {
    let mut p = ledger();
    let c = created(&mut p, ALICE, collection_config_with_all_settings_enabled());
    p.mint(Origin::Signed(ALICE), c, 1, ALICE, None).unwrap();
    assert_eq!(p.buy_item(Origin::Signed(BOB), c, 1, 50), Err(Error::NotForSale));
    p.set_price(Origin::Signed(ALICE), c, 1, Some(10), None).unwrap();
    let (fa, fb) = (p.free_balance(ALICE), p.free_balance(BOB));
    assert_eq!(p.buy_item(Origin::Signed(BOB), c, 1, 9), Err(Error::BidTooLow));
    assert_eq!(p.item(c, 1).unwrap().owner, ALICE);
    assert_eq!(p.item_price(c, 1).unwrap().price, 10);
    assert_eq!((p.free_balance(ALICE), p.free_balance(BOB)), (fa, fb));
}

#[test]
fn buy_item_pays_listed_price() {
    let mut p = ledger();
    let c = created(&mut p, ALICE, collection_config_with_all_settings_enabled());
    p.mint(Origin::Signed(ALICE), c, 1, ALICE, None).unwrap();
    p.set_price(Origin::Signed(ALICE), c, 1, Some(10), Some(CHARLIE)).unwrap();
    assert_eq!(p.buy_item(Origin::Signed(BOB), c, 1, 20), Err(Error::NoPermission));
    assert_eq!(p.buy_item(Origin::Signed(ALICE), c, 1, 20), Err(Error::NoPermission));
    let fa = p.free_balance(ALICE);
    assert_eq!(
        p.buy_item(Origin::Signed(CHARLIE), c, 1, 20),
        Ok(Event::ItemBought { collection: c, item: 1, price: 10, seller: ALICE, buyer: CHARLIE })
    );
    assert_eq!(p.free_balance(ALICE), fa + 10);
    assert_eq!(p.free_balance(CHARLIE), 90);
    assert_eq!(p.item(c, 1).unwrap().owner, CHARLIE);
    assert!(p.item_price(c, 1).is_none());
}

#[test]
fn set_price_and_transfer_locks() {
    let mut p = ledger();
    let c = created(&mut p, ALICE, collection_config_with_all_settings_enabled());
    p.mint(Origin::Signed(ALICE), c, 1, ALICE, None).unwrap();
    assert_eq!(p.set_price(Origin::Signed(BOB), c, 1, Some(5), None), Err(Error::NoPermission));
    p.set_price(Origin::Signed(ALICE), c, 1, Some(5), None).unwrap();
    assert_eq!(p.set_price(Origin::Signed(ALICE), c, 1, None, None), Ok(Event::ItemPriceRemoved { collection: c, item: 1 }));
    assert!(p.item_price(c, 1).is_none());
    assert_eq!(p.lock_item_transfer(Origin::Signed(BOB), c, 1), Err(Error::NoPermission));
    p.lock_item_transfer(Origin::Signed(ALICE), c, 1).unwrap();
    assert_eq!(p.transfer(Origin::Signed(ALICE), c, 1, BOB), Err(Error::ItemLocked));
    assert_eq!(p.set_price(Origin::Signed(ALICE), c, 1, Some(5), None), Err(Error::ItemLocked));
    p.unlock_item_transfer(Origin::Signed(ALICE), c, 1).unwrap();
    p.set_price(Origin::Signed(ALICE), c, 1, Some(5), None).unwrap();
    p.transfer(Origin::Signed(ALICE), c, 1, BOB).unwrap();
    assert!(p.item_price(c, 1).is_none());
    p.lock_collection(Origin::Signed(ALICE), c, LOCK_TRANSFER).unwrap();
    assert_eq!(p.transfer(Origin::Signed(BOB), c, 1, ALICE), Err(Error::ItemsNonTransferable));
    assert_eq!(p.transfer(Origin::Signed(BOB), c, 9, ALICE), Err(Error::UnknownItem));
}

#[test]
fn team_and_ownership() {
    let mut p = ledger();
    let c = created(&mut p, ALICE, collection_config_with_all_settings_enabled());
    assert_eq!(p.set_team(Origin::Signed(BOB), c, None, None, None), Err(Error::NoPermission));
    p.set_team(Origin::Signed(ALICE), c, Some(BOB), Some(BOB), None).unwrap();
    let d = p.collection(c).unwrap();
    assert_eq!((d.issuer, d.admin, d.freezer), (Some(BOB), Some(BOB), None));
    assert_eq!(p.transfer_ownership(Origin::Signed(ALICE), c, CHARLIE), Err(Error::Unaccepted));
    p.set_accept_ownership(Origin::Signed(CHARLIE), c).unwrap();
    assert_eq!(p.transfer_ownership(Origin::Signed(BOB), c, CHARLIE), Err(Error::NoPermission));
    p.transfer_ownership(Origin::Signed(ALICE), c, CHARLIE).unwrap();
    assert_eq!(p.collection(c).unwrap().owner, CHARLIE);
    assert_eq!(p.reserved_balance(ALICE), 0);
    assert_eq!(p.reserved_balance(CHARLIE), 2);
    p.set_team(Origin::Force, c, Some(ALICE), None, None).unwrap();
    assert_eq!(p.collection(c).unwrap().issuer, Some(ALICE));
}

#[test]
fn max_supply_and_mint_settings() {
    let mut p = ledger();
    let c = created(&mut p, ALICE, collection_config_with_all_settings_enabled());
    p.mint(Origin::Signed(ALICE), c, 1, ALICE, None).unwrap();
    p.mint(Origin::Signed(ALICE), c, 2, ALICE, None).unwrap();
    assert_eq!(p.set_collection_max_supply(Origin::Signed(ALICE), c, 1), Err(Error::MaxSupplyAlreadySet));
    p.set_collection_max_supply(Origin::Signed(ALICE), c, 2).unwrap();
    assert_eq!(p.mint(Origin::Signed(ALICE), c, 3, ALICE, None), Err(Error::MaxSupplyReached));
    p.lock_collection(Origin::Signed(ALICE), c, LOCK_MAX_SUPPLY).unwrap();
    assert_eq!(p.set_collection_max_supply(Origin::Signed(ALICE), c, 5), Err(Error::MaxSupplyLocked));
    assert_eq!(p.mint(Origin::Signed(BOB), c, 1, BOB, None), Err(Error::AlreadyExists));
    let public = MintSettings { mint_type: MintType::Public, price: Some(3), start_block: Some(10), end_block: Some(20) };
    assert_eq!(p.update_mint_settings(Origin::Signed(BOB), c, public), Err(Error::NoPermission));
    p.update_mint_settings(Origin::Signed(ALICE), c, public).unwrap();
    p.set_collection_max_supply(Origin::Force, c, 5).unwrap_err();
}

#[test]
fn mint_rules() {
    let mut p = ledger();
    let c = created(&mut p, ALICE, collection_config_with_all_settings_enabled());
    assert_eq!(p.mint(Origin::Signed(BOB), c, 1, BOB, None), Err(Error::NoPermission));
    assert_eq!(p.mint(Origin::Force, c, 1, BOB, None), Err(Error::BadOrigin));
    assert_eq!(p.mint(Origin::Signed(BOB), 8, 1, BOB, None), Err(Error::UnknownCollection));
    let public = MintSettings { mint_type: MintType::Public, price: Some(3), start_block: Some(10), end_block: Some(20) };
    p.update_mint_settings(Origin::Signed(ALICE), c, public).unwrap();
    let paid = Some(MintWitness { owned_item: None, mint_price: Some(3) });
    assert_eq!(p.mint(Origin::Signed(BOB), c, 1, BOB, paid), Err(Error::MintNotStarted));
    p.set_block_number(21);
    assert_eq!(p.mint(Origin::Signed(BOB), c, 1, BOB, paid), Err(Error::MintEnded));
    p.set_block_number(15);
    let cheap = Some(MintWitness { owned_item: None, mint_price: Some(2) });
    assert_eq!(p.mint(Origin::Signed(BOB), c, 1, BOB, cheap), Err(Error::BadWitness));
    assert_eq!(p.mint(Origin::Signed(BOB), c, 1, BOB, None), Err(Error::BadWitness));
    let fa = p.free_balance(ALICE);
    p.mint(Origin::Signed(BOB), c, 1, BOB, paid).unwrap();
    assert_eq!(p.free_balance(ALICE), fa + 3);
    assert_eq!(p.free_balance(BOB), 100 - 3 - 1);
    let holders = MintSettings { mint_type: MintType::HolderOf(c), price: None, start_block: None, end_block: None };
    let c2 = created(&mut p, ALICE, collection_config_with_all_settings_enabled());
    p.update_mint_settings(Origin::Signed(ALICE), c2, holders).unwrap();
    let holds = Some(MintWitness { owned_item: Some(1), mint_price: None });
    assert_eq!(p.mint(Origin::Signed(CHARLIE), c2, 1, CHARLIE, holds), Err(Error::BadWitness));
    assert_eq!(p.mint(Origin::Signed(CHARLIE), c2, 1, BOB, None), Err(Error::BadWitness));
    assert!(p.mint(Origin::Signed(CHARLIE), c2, 1, BOB, holds).is_ok());
    assert_eq!(p.reserved_balance(CHARLIE), 1);
}

#[test]
fn metadata_deposits() {
    let mut p = ledger();
    let c = created(&mut p, ALICE, collection_config_with_all_settings_enabled());
    assert_eq!(p.set_metadata(Origin::Signed(ALICE), c, 1, vec![1]), Err(Error::UnknownItem));
    p.mint(Origin::Signed(ALICE), c, 1, BOB, None).unwrap();
    assert_eq!(p.set_metadata(Origin::Signed(BOB), c, 1, vec![1]), Err(Error::NoPermission));
    assert_eq!(p.set_metadata(Origin::Signed(ALICE), c, 1, vec![0; 129]), Err(Error::IncorrectData));
    p.set_metadata(Origin::Signed(ALICE), c, 1, vec![1, 2, 3, 4]).unwrap();
    assert_eq!(p.reserved_balance(ALICE), 2 + 1 + 5);
    p.set_metadata(Origin::Signed(ALICE), c, 1, vec![1]).unwrap();
    assert_eq!(p.reserved_balance(ALICE), 2 + 1 + 2);
    assert_eq!(p.collection(c).unwrap().item_metadatas, 1);
    p.clear_metadata(Origin::Signed(ALICE), c, 1).unwrap();
    assert_eq!(p.reserved_balance(ALICE), 3);
    assert_eq!(p.clear_metadata(Origin::Signed(ALICE), c, 1), Err(Error::MetadataNotFound));
    p.set_collection_metadata(Origin::Signed(ALICE), c, vec![9; 10]).unwrap();
    assert_eq!(p.reserved_balance(ALICE), 3 + 11);
    assert_eq!(p.clear_collection_metadata(Origin::Signed(BOB), c), Err(Error::NoPermission));
    p.clear_collection_metadata(Origin::Signed(ALICE), c).unwrap();
    assert_eq!(p.reserved_balance(ALICE), 3);
    assert_eq!(p.clear_collection_metadata(Origin::Signed(ALICE), c), Err(Error::MetadataNotFound));
    p.lock_item_properties(Origin::Signed(ALICE), c, 1, true, false).unwrap();
    assert_eq!(p.set_metadata(Origin::Signed(ALICE), c, 1, vec![1]), Err(Error::MetadataLocked));
    p.lock_collection(Origin::Signed(ALICE), c, LOCK_METADATA).unwrap();
    assert_eq!(p.set_collection_metadata(Origin::Signed(ALICE), c, vec![1]), Err(Error::MetadataLocked));
}

#[test]
fn redeposit_adjusts_owner_paid_deposits() {
    let mut p = Pallet::new(Config { item_deposit: 4, ..config() });
    p.set_free_balance(ALICE, 100).unwrap();
    p.set_free_balance(BOB, 100).unwrap();
    let c = created(&mut p, ALICE, collection_config_with_all_settings_enabled());
    p.set_team(Origin::Signed(ALICE), c, None, Some(ALICE), Some(ALICE)).unwrap();
    p.update_mint_settings(Origin::Force, c, MintSettings { mint_type: MintType::Public, price: None, start_block: None, end_block: None }).unwrap();
    p.mint(Origin::Signed(ALICE), c, 1, BOB, None).unwrap();
    p.mint(Origin::Signed(BOB), c, 2, BOB, None).unwrap();
    assert_eq!(p.reserved_balance(ALICE), 6);
    assert_eq!(p.redeposit(Origin::Signed(BOB), c, vec![1, 2]), Err(Error::NoPermission));
    assert_eq!(p.redeposit(Origin::Signed(ALICE), 5, vec![1]), Err(Error::UnknownCollection));
    p.set_free_balance(ALICE, 3).unwrap();
    assert!(p.redeposit(Origin::Signed(ALICE), c, vec![1, 2, 9]).is_ok());
    assert_eq!(p.reserved_balance(ALICE), 6);
    assert_eq!(p.reserved_balance(BOB), 4);
    p.set_free_balance(ALICE, 100).unwrap();
    assert!(p.redeposit(Origin::Signed(ALICE), c, vec![1, 2, 9]).is_ok());
    assert_eq!(p.reserved_balance(ALICE), 10);
    assert_eq!(p.reserved_balance(BOB), 0);
    assert_eq!(p.free_balance(BOB), 100);
    assert_eq!(p.item(c, 2).unwrap().deposit_account, ALICE);
}

#[test]
fn redeposit_charges_the_difference_to_the_owner() {
    let mut p = Pallet::new(config());
    p.set_free_balance(ALICE, 100).unwrap();
    let c = created(&mut p, ALICE, collection_config_with_all_settings_enabled());
    p.mint(Origin::Signed(ALICE), c, 1, BOB, None).unwrap();
    assert_eq!(p.reserved_balance(ALICE), 3);
    let mut q = Pallet::new(Config { item_deposit: 5, ..config() });
    q.set_free_balance(ALICE, 100).unwrap();
    let c2 = created(&mut q, ALICE, collection_config_with_all_settings_enabled());
    q.mint(Origin::Signed(ALICE), c2, 1, BOB, None).unwrap();
    assert_eq!(q.redeposit(Origin::Force, c2, vec![1]), Err(Error::BadOrigin));
    assert_eq!(q.reserved_balance(ALICE), 7);
}

#[test]
fn balances_cannot_overflow() {
    let mut p = Pallet::new(config());
    assert!(p.set_free_balance(ALICE, u64::MAX).is_ok());
    p.create(Origin::Signed(ALICE), ALICE, collection_config_with_all_settings_enabled()).unwrap();
    assert_eq!(p.set_free_balance(ALICE, u64::MAX), Err(Error::Overflow));
    assert_eq!(p.free_balance(ALICE), u64::MAX - 2);
}

#[test]
fn approved_delegate_transfers_once() {
    let mut p = ledger();
    let c = created(&mut p, ALICE, collection_config_with_all_settings_enabled());
    p.mint(Origin::Signed(ALICE), c, 1, ALICE, None).unwrap();
    assert_eq!(p.transfer(Origin::Signed(BOB), c, 1, BOB), Err(Error::NoPermission));
    assert_eq!(p.approve_transfer(Origin::Signed(BOB), c, 1, BOB), Err(Error::NoPermission));
    p.approve_transfer(Origin::Signed(ALICE), c, 1, BOB).unwrap();
    assert_eq!(p.item(c, 1).unwrap().approved, Some(BOB));
    assert_eq!(
        p.transfer(Origin::Signed(BOB), c, 1, CHARLIE),
        Ok(Event::Transferred { collection: c, item: 1, from: ALICE, to: CHARLIE })
    );
    assert_eq!(p.item(c, 1).unwrap().owner, CHARLIE);
    assert_eq!(p.item(c, 1).unwrap().approved, None);
    assert_eq!(p.transfer(Origin::Signed(BOB), c, 1, BOB), Err(Error::NoPermission));
    p.approve_transfer(Origin::Signed(CHARLIE), c, 1, BOB).unwrap();
    p.cancel_approval(Origin::Signed(CHARLIE), c, 1).unwrap();
    assert_eq!(p.transfer(Origin::Signed(BOB), c, 1, BOB), Err(Error::NoPermission));
}

#[test]
fn force_writes_attributes_and_moves_ownership() {
    let mut p = ledger();
    let c = created(&mut p, ALICE, collection_config_with_all_settings_enabled());
    p.mint(Origin::Signed(ALICE), c, 1, BOB, None).unwrap();
    p.lock_collection(Origin::Signed(ALICE), c, LOCK_ATTRIBUTES).unwrap();
    let before = (p.reserved_balance(ALICE), p.reserved_balance(BOB));
    assert!(p.set_attribute(Origin::Force, c, None, Namespace::CollectionOwner, vec![1], vec![2]).is_ok());
    assert!(p.set_attribute(Origin::Force, c, Some(1), Namespace::ItemOwner, vec![1], vec![2]).is_ok());
    assert_eq!((p.reserved_balance(ALICE), p.reserved_balance(BOB)), before);
    assert_eq!(p.attribute_value(c, None, Namespace::CollectionOwner, &vec![1]), Some(&vec![2]));
    assert_eq!(p.collection(c).unwrap().attributes, 2);
    assert_eq!(p.transfer_ownership(Origin::Force, c, CHARLIE), Err(Error::Unaccepted));
    p.set_accept_ownership(Origin::Signed(CHARLIE), c).unwrap();
    assert_eq!(p.transfer_ownership(Origin::Force, c, CHARLIE), Ok(Event::OwnerChanged { collection: c, new_owner: CHARLIE }));
    assert_eq!(p.collection(c).unwrap().owner, CHARLIE);
    assert_eq!(p.reserved_balance(CHARLIE), 2);
}

#[test]
fn clearing_removes_the_key() {
    let mut p = ledger();
    let c = created(&mut p, ALICE, collection_config_with_all_settings_enabled());
    p.set_attribute(Origin::Signed(BOB), c, None, Namespace::Account(BOB), vec![4], vec![1]).unwrap();
    p.set_attribute(Origin::Signed(BOB), c, None, Namespace::Account(BOB), vec![4], vec![2]).unwrap();
    assert!(p.clear_attribute(Origin::Signed(BOB), c, None, Namespace::Account(BOB), vec![4]).is_ok());
    assert!(p.attribute_value(c, None, Namespace::Account(BOB), &vec![4]).is_none());
    assert_eq!(p.clear_attribute(Origin::Signed(BOB), c, None, Namespace::Account(BOB), vec![4]), Err(Error::AttributeNotFound));
}
