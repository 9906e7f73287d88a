use property_store::{Error, MemorySpace, PropertyPayload, Store};

fn payload(address: &str, price: f64, description: &str, owner: Vec<u8>) -> PropertyPayload {
    PropertyPayload {
        address: address.to_string(),
        price_bits: price.to_bits(),
        description: description.to_string(),
        owner_public_key: owner,
    }
}

fn fresh_store() -> Store {
    Store::init(MemorySpace::new()).expect("a fresh space holds no corrupt data")
}

#[test]
fn fresh_store_scenario() {
    let mut store = fresh_store();
    let p = payload("1 Main St", 100000.0, "house", vec![1, 2, 3]);
    let first = store.add_property(p).expect("a valid payload is added");
    assert_eq!(first.id, 0);
    assert_eq!(first.address, "1 Main St");
    assert_eq!(first.price_bits, 100000.0f64.to_bits());
    assert_eq!(first.description, "house");
    assert_eq!(first.owner_public_key, vec![1, 2, 3]);

    let p2 = payload("1 Main St", 100000.0, "house", vec![1, 2, 3]);
    let second = store.add_property(p2).expect("a valid payload is added");
    assert_eq!(second.id, 1);

    let all = store.get_properties().expect("two records are stored");
    assert_eq!(all.len(), 2);
    assert_eq!(all[0].id, 0);
    assert_eq!(all[1].id, 1);

    let removed = store.delete_property(0).expect("id 0 is stored");
    assert_eq!(removed, first);

    let missing = store.get_property_by_id(0);
    match missing {
        Err(Error::NotFound { msg }) => assert_eq!(msg, "Property with ID = 0 not found"),
        other => panic!("expected NotFound, got {:?}", other),
    }
}

#[test]
fn empty_store_listing_is_not_found() {
    let store = fresh_store();
    assert!(matches!(store.get_properties(), Err(Error::NotFound { .. })));
}

#[test]
fn lookup_after_insert_returns_identical_record() {
    let mut store = fresh_store();
    let added = store
        .add_property(payload("5 Oak Ave", 250000.5, "cottage", vec![9, 9]))
        .expect("a valid payload is added");
    let found = store.get_property_by_id(added.id).expect("the id was just assigned");
    assert_eq!(found, added);
}

#[test]
fn delete_returns_pre_delete_record_and_removes_it() {
    let mut store = fresh_store();
    store.add_property(payload("a", 1.0, "b", vec![1])).unwrap();
    let target = store.add_property(payload("c", 2.0, "d", vec![2])).unwrap();
    let before = store.get_property_by_id(target.id).unwrap();
    let removed = store.delete_property(target.id).expect("the record exists");
    assert_eq!(removed, before);
    assert!(matches!(store.get_property_by_id(target.id), Err(Error::NotFound { .. })));
    assert!(matches!(store.delete_property(target.id), Err(Error::NotFound { .. })));
}

#[test]
fn transfer_changes_only_the_owner() {
    let mut store = fresh_store();
    let added = store
        .add_property(payload("12 Elm St", 99999.25, "bungalow", vec![4, 5, 6]))
        .expect("a valid payload is added");
    let transferred = store
        .transfer_property_ownership(added.id, vec![7, 7, 7])
        .expect("the record exists");
    assert_eq!(transferred.id, added.id);
    assert_eq!(transferred.address, added.address);
    assert_eq!(transferred.price_bits, added.price_bits);
    assert_eq!(transferred.description, added.description);
    assert_eq!(transferred.owner_public_key, vec![7, 7, 7]);
    let found = store.get_property_by_id(added.id).unwrap();
    assert_eq!(found, transferred);
    assert!(matches!(
        store.transfer_property_ownership(999, vec![1]),
        Err(Error::NotFound { .. })
    ));
}

#[test]
fn ids_strictly_increase_even_across_deletes() {
    let mut store = fresh_store();
    let a = store.add_property(payload("a", 1.0, "a", vec![1])).unwrap();
    let b = store.add_property(payload("b", 2.0, "b", vec![2])).unwrap();
    assert!(b.id > a.id);
    store.delete_property(a.id).unwrap();
    store.delete_property(b.id).unwrap();
    let c = store.add_property(payload("c", 3.0, "c", vec![3])).unwrap();
    assert!(c.id > b.id);
    assert_eq!(c.id, 2);
}

#[test]
fn add_rejects_missing_fields_and_nan_price() {
    let mut store = fresh_store();
    assert!(matches!(
        store.add_property(payload("", 1.0, "d", vec![1])),
        Err(Error::Validate { .. })
    ));
    assert!(matches!(
        store.add_property(payload("a", 1.0, "", vec![1])),
        Err(Error::Validate { .. })
    ));
    assert!(matches!(
        store.add_property(payload("a", 1.0, "d", vec![])),
        Err(Error::Validate { .. })
    ));
    assert!(matches!(
        store.add_property(payload("a", f64::NAN, "d", vec![1])),
        Err(Error::Validate { .. })
    ));
    assert!(matches!(store.get_properties(), Err(Error::NotFound { .. })));
}

#[test]
fn update_rejects_only_when_all_fields_are_blank() {
    let mut store = fresh_store();
    let added = store.add_property(payload("a", 1.0, "d", vec![1])).unwrap();
    assert!(matches!(
        store.update_property(added.id, payload("", f64::NAN, "", vec![])),
        Err(Error::Validate { .. })
    ));
    // Weak validation: a payload with only a valid price still passes.
    let updated = store
        .update_property(added.id, payload("", 2.5, "", vec![]))
        .expect("one filled field is enough");
    assert_eq!(updated.id, added.id);
    assert_eq!(updated.address, "");
    assert_eq!(updated.price_bits, 2.5f64.to_bits());
    assert_eq!(updated.description, "");
    // The owner is preserved by an update.
    assert_eq!(updated.owner_public_key, vec![1]);
    assert!(matches!(
        store.update_property(999, payload("x", 1.0, "y", vec![2])),
        Err(Error::NotFound { .. })
    ));
}

#[test]
fn update_overwrites_descriptive_fields_and_keeps_owner() {
    let mut store = fresh_store();
    let added = store.add_property(payload("old addr", 1.0, "old desc", vec![8, 8])).unwrap();
    let updated = store
        .update_property(added.id, payload("new addr", 3.5, "new desc", vec![]))
        .expect("the record exists and the payload is not all blank");
    assert_eq!(updated.id, added.id);
    assert_eq!(updated.address, "new addr");
    assert_eq!(updated.price_bits, 3.5f64.to_bits());
    assert_eq!(updated.description, "new desc");
    assert_eq!(updated.owner_public_key, vec![8, 8]);
    assert_eq!(store.get_property_by_id(added.id).unwrap(), updated);
}

#[test]
fn oversized_records_are_rejected_not_truncated() {
    let mut store = fresh_store();
    let big = "x".repeat(2000);
    assert!(matches!(
        store.add_property(payload("a", 1.0, &big, vec![1])),
        Err(Error::Allocation { .. })
    ));
    assert!(matches!(store.get_properties(), Err(Error::NotFound { .. })));
    // An update or a transfer that would grow a record past the bound fails
    // and leaves the stored record as it was.
    let added = store.add_property(payload("a", 1.0, "d", vec![1])).unwrap();
    assert!(matches!(
        store.update_property(added.id, payload("a", 1.0, &big, vec![])),
        Err(Error::Allocation { .. })
    ));
    assert!(matches!(
        store.transfer_property_ownership(added.id, vec![0; 2000]),
        Err(Error::Allocation { .. })
    ));
    assert_eq!(store.get_property_by_id(added.id).unwrap(), added);
}

#[test]
fn records_survive_a_restart() {
    let mut store = Store::init(MemorySpace::new()).unwrap();
    store.add_property(payload("persist 1", 10.0, "first", vec![1])).unwrap();
    store.add_property(payload("persist 2", 20.0, "second", vec![2])).unwrap();
    store.delete_property(0).unwrap();
    let space = store.into_space();
    let mut reopened = Store::init(space).expect("the stored layout is intact");
    let all = reopened.get_properties().expect("one record survived");
    assert_eq!(all.len(), 1);
    assert_eq!(all[0].id, 1);
    assert_eq!(all[0].address, "persist 2");
    // The counter survives too: ids are never reused after a restart.
    let next = reopened.add_property(payload("persist 3", 30.0, "third", vec![3])).unwrap();
    assert_eq!(next.id, 2);
}

#[test]
fn verify_owner_identity_accepts_every_payload() {
    let p = payload("a", 1.0, "d", vec![]);
    assert!(property_store::verify_owner_identity(&p));
}

#[test]
fn listing_stays_ascending_across_interleaved_operations() {
    let mut store = fresh_store();
    for i in 0..5u64 {
        let text = format!("house {}", i);
        store.add_property(payload(&text, i as f64 + 0.5, &text, vec![i as u8 + 1])).unwrap();
    }
    store.delete_property(2).unwrap();
    store.transfer_property_ownership(4, vec![42]).unwrap();
    store.update_property(0, payload("updated", 9.0, "updated", vec![])).unwrap();
    let all = store.get_properties().unwrap();
    let ids: Vec<u64> = all.iter().map(|p| p.id).collect();
    assert_eq!(ids, vec![0, 1, 3, 4]);
    assert_eq!(all[3].owner_public_key, vec![42]);
    assert_eq!(all[0].address, "updated");
}
