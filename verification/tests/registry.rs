use equipment_registry::codec::encode;
use equipment_registry::record::{Equipment, EquipmentPayload, Error};
use equipment_registry::service::EquipmentService;

fn payload(name: &str, description: &str, rental_price: u64) -> EquipmentPayload {
    EquipmentPayload {
        name: String::from(name),
        description: String::from(description),
        rental_price,
    }
}

fn fresh() -> EquipmentService {
    EquipmentService::new().unwrap()
}

fn message(result: Result<Equipment, Error>) -> String {
    match result {
        Err(Error::NotFound { msg }) => msg,
        Ok(record) => panic!("found {:?}", record),
    }
}

#[test]
fn drill_is_added_updated_deleted_and_gone() {
    let mut registry = fresh();
    let added = registry.add_equipment(payload("Drill", "Cordless", 10), 1_000).unwrap();
    assert_eq!(
        added,
        Equipment {
            id: 1,
            name: String::from("Drill"),
            description: String::from("Cordless"),
            rental_price: 10,
            created_at: 1_000,
            updated_at: None,
        }
    );
    let updated = registry
        .update_equipment(1, payload("Drill Pro", "Cordless v2", 15), 2_000)
        .unwrap();
    assert_eq!(
        updated,
        Equipment {
            id: 1,
            name: String::from("Drill Pro"),
            description: String::from("Cordless v2"),
            rental_price: 15,
            created_at: 1_000,
            updated_at: Some(2_000),
        }
    );
    assert_eq!(registry.delete_equipment(1), Ok(updated));
    let msg = message(registry.get_equipment(1));
    assert!(msg.contains("id=1"));
    assert_eq!(msg, "an equipment with id=1 not found");
}

#[test]
fn ids_count_up_from_one() {
    let mut registry = fresh();
    for expected in 1..=20u64 {
        let added = registry.add_equipment(payload("Saw", "", expected), 5).unwrap();
        assert_eq!(added.id, expected);
    }
}

#[test]
fn get_finds_what_add_returned() {
    let mut registry = fresh();
    let first = registry.add_equipment(payload("Ladder", "3 m", 4), 10).unwrap();
    let second = registry.add_equipment(payload("Mixer", "Concrete", 25), 11).unwrap();
    assert_eq!(registry.get_equipment(first.id), Ok(first));
    assert_eq!(registry.get_equipment(second.id), Ok(second));
}

#[test]
fn add_accepts_empty_texts_and_zero_price() {
    let mut registry = fresh();
    let added = registry.add_equipment(payload("", "", 0), 0).unwrap();
    assert_eq!(added.id, 1);
    assert_eq!(added.name, "");
    assert_eq!(added.description, "");
    assert_eq!(added.rental_price, 0);
    assert_eq!(added.created_at, 0);
    assert_eq!(added.updated_at, None);
    assert_eq!(registry.get_equipment(1), Ok(added));
}

#[test]
fn add_stores_record_of_largest_size() {
    let mut registry = fresh();
    let name = "n".repeat(400);
    let description = "d".repeat(589);
    let added = registry.add_equipment(payload(&name, &description, 1), 3).unwrap();
    assert_eq!(registry.get_equipment(1), Ok(added));
}

#[test]
fn update_keeps_id_and_creation_time() {
    let mut registry = fresh();
    registry.add_equipment(payload("Jack", "2 t", 8), 100).unwrap();
    let updated = registry.update_equipment(1, payload("Jack", "3 t", 9), 100).unwrap();
    assert_eq!(updated.id, 1);
    assert_eq!(updated.created_at, 100);
    assert_eq!(updated.updated_at, Some(100));
    assert_eq!(updated.description, "3 t");
    assert_eq!(updated.rental_price, 9);
    let again = registry.update_equipment(1, payload("Jack XL", "5 t", 12), 250).unwrap();
    assert_eq!(again.id, 1);
    assert_eq!(again.created_at, 100);
    assert_eq!(again.updated_at, Some(250));
    assert_eq!(again.name, "Jack XL");
    assert_eq!(registry.get_equipment(1), Ok(again));
}

#[test]
fn update_leaves_other_records_alone() {
    let mut registry = fresh();
    let first = registry.add_equipment(payload("A", "a", 1), 1).unwrap();
    registry.add_equipment(payload("B", "b", 2), 2).unwrap();
    registry.update_equipment(2, payload("B2", "b2", 3), 3).unwrap();
    assert_eq!(registry.get_equipment(1), Ok(first));
}

#[test]
fn delete_returns_the_record_and_removes_it() {
    let mut registry = fresh();
    let first = registry.add_equipment(payload("A", "a", 1), 1).unwrap();
    let second = registry.add_equipment(payload("B", "b", 2), 2).unwrap();
    assert_eq!(registry.delete_equipment(1), Ok(first));
    assert_eq!(
        message(registry.get_equipment(1)),
        "an equipment with id=1 not found"
    );
    assert_eq!(
        message(registry.delete_equipment(1)),
        "couldn't delete an equipment with id=1. equipment not found."
    );
    assert_eq!(registry.get_equipment(2), Ok(second));
}

#[test]
fn deleted_id_is_not_issued_again() {
    let mut registry = fresh();
    registry.add_equipment(payload("A", "a", 1), 1).unwrap();
    registry.add_equipment(payload("B", "b", 2), 2).unwrap();
    registry.delete_equipment(2).unwrap();
    registry.delete_equipment(1).unwrap();
    let third = registry.add_equipment(payload("C", "c", 3), 3).unwrap();
    assert_eq!(third.id, 3);
    assert!(registry.get_equipment(1).is_err());
    assert!(registry.get_equipment(2).is_err());
}

#[test]
fn empty_registry_finds_nothing_under_999() {
    let mut registry = fresh();
    assert_eq!(
        message(registry.get_equipment(999)),
        "an equipment with id=999 not found"
    );
    assert_eq!(
        message(registry.update_equipment(999, payload("X", "y", 1), 7)),
        "couldn't update an equipment with id=999. equipment not found"
    );
    assert_eq!(
        message(registry.delete_equipment(999)),
        "couldn't delete an equipment with id=999. equipment not found."
    );
}

#[test]
fn failed_update_and_delete_change_nothing() {
    let mut registry = fresh();
    let first = registry.add_equipment(payload("A", "a", 1), 1).unwrap();
    assert!(registry.update_equipment(2, payload("X", "y", 1), 7).is_err());
    assert!(registry.delete_equipment(0).is_err());
    assert_eq!(registry.get_equipment(1), Ok(first));
    assert_eq!(registry.add_equipment(payload("B", "b", 2), 8).unwrap().id, 2);
}

#[test]
fn id_zero_is_never_found() {
    let mut registry = fresh();
    registry.add_equipment(payload("A", "a", 1), 1).unwrap();
    assert_eq!(
        message(registry.get_equipment(0)),
        "an equipment with id=0 not found"
    );
}

#[test]
fn two_registries_do_not_share_records() {
    let mut first = fresh();
    let mut second = fresh();
    let added = first.add_equipment(payload("A", "a", 1), 1).unwrap();
    assert!(second.get_equipment(1).is_err());
    assert_eq!(second.add_equipment(payload("B", "b", 2), 2).unwrap().id, 1);
    assert_eq!(first.get_equipment(1), Ok(added));
}

fn stored(id: u64, name: &str, created_at: u64, updated_at: Option<u64>) -> Equipment {
    Equipment {
        id,
        name: String::from(name),
        description: String::from("for hire"),
        rental_price: 3,
        created_at,
        updated_at,
    }
}

fn entry(record: &Equipment) -> (u64, Vec<u8>) {
    (record.id, encode(record).unwrap())
}

#[test]
fn opened_registry_holds_the_entries_and_goes_on_counting() {
    let first = stored(1, "A", 10, None);
    let third = stored(3, "C", 12, Some(20));
    let mut registry = EquipmentService::open(3, vec![entry(&first), entry(&third)]).unwrap();
    assert_eq!(registry.get_equipment(1), Ok(first));
    assert_eq!(
        message(registry.get_equipment(2)),
        "an equipment with id=2 not found"
    );
    assert_eq!(registry.get_equipment(3), Ok(third));
    assert_eq!(registry.add_equipment(payload("D", "d", 5), 30).unwrap().id, 4);
}

#[test]
fn opened_registry_does_not_reissue_deleted_ids() {
    let mut registry = EquipmentService::open(9, Vec::new()).unwrap();
    assert!(registry.get_equipment(9).is_err());
    assert_eq!(registry.add_equipment(payload("A", "a", 1), 1).unwrap().id, 10);
}

#[test]
fn opened_without_entries_is_an_empty_registry() {
    let mut registry = EquipmentService::open(0, Vec::new()).unwrap();
    assert!(registry.get_equipment(1).is_err());
    assert_eq!(registry.add_equipment(payload("A", "a", 1), 1).unwrap().id, 1);
}

#[test]
fn open_takes_entries_in_any_order() {
    let first = stored(1, "A", 10, None);
    let second = stored(2, "B", 11, None);
    let mut registry = EquipmentService::open(2, vec![entry(&second), entry(&first)]).unwrap();
    assert_eq!(registry.get_equipment(1), Ok(first));
    assert_eq!(registry.get_equipment(2), Ok(second));
    assert_eq!(registry.add_equipment(payload("C", "c", 1), 12).unwrap().id, 3);
}

#[test]
fn open_takes_the_later_of_two_entries_under_one_id() {
    let earlier = stored(1, "A", 10, None);
    let later = stored(1, "A2", 10, Some(15));
    let registry = EquipmentService::open(1, vec![entry(&earlier), entry(&later)]).unwrap();
    assert_eq!(registry.get_equipment(1), Ok(later));
}

#[test]
fn open_refuses_bytes_that_are_no_record() {
    let first = stored(1, "A", 10, None);
    assert!(EquipmentService::open(2, vec![entry(&first), (2, vec![1, 2, 3])]).is_none());
}

#[test]
fn open_refuses_record_under_another_id() {
    let first = stored(1, "A", 10, None);
    let bytes = encode(&first).unwrap();
    assert!(EquipmentService::open(2, vec![(2, bytes)]).is_none());
}

#[test]
fn open_refuses_id_that_was_not_issued() {
    let third = stored(3, "C", 10, None);
    assert!(EquipmentService::open(2, vec![entry(&third)]).is_none());
    assert!(EquipmentService::open(3, vec![entry(&third)]).is_some());
}

#[test]
fn open_refuses_id_zero() {
    let zero = stored(0, "Z", 10, None);
    assert!(EquipmentService::open(5, vec![entry(&zero)]).is_none());
}

#[test]
fn open_refuses_update_before_creation() {
    let early = stored(1, "A", 10, Some(9));
    assert!(EquipmentService::open(1, vec![entry(&early)]).is_none());
    let on_time = stored(1, "A", 10, Some(10));
    assert!(EquipmentService::open(1, vec![entry(&on_time)]).is_some());
}

#[test]
fn registry_is_full_after_the_largest_id() {
    let mut registry = EquipmentService::open(u64::MAX - 1, Vec::new()).unwrap();
    let last = registry.add_equipment(payload("A", "a", 1), 1).unwrap();
    assert_eq!(last.id, u64::MAX);
    assert_eq!(registry.add_equipment(payload("B", "b", 2), 2), None);
    assert_eq!(registry.get_equipment(u64::MAX), Ok(last));
    assert_eq!(registry.add_equipment(payload("C", "c", 3), 3), None);
}
