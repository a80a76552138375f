use plant_tracker::error::{AppError, ErrorKind};
use plant_tracker::models::{AddPlantPayload, Plant, UpdatePlantPayload};
use plant_tracker::ops::{
    add_plant, delete_plant, get_plant_by_id, get_plants, insert_plant, mark_fertilized,
    mark_watered, update_plant,
};
use plant_tracker::registry::Registry;

fn payload(name: &str, watering: u32, fertilizing: u32) -> AddPlantPayload {
    AddPlantPayload {
        name: name.to_string(),
        watering_frequency_days: watering,
        fertilizing_frequency_days: fertilizing,
    }
}

fn ids(reg: &Registry) -> Vec<u128> {
    get_plants(reg).iter().map(|p| p.id).collect()
}

#[test]
fn added_plant_starts_fresh() {
    let mut reg = Registry::new();
    let p = insert_plant(&mut reg, 42, payload("Basil", 2, 30), 700).unwrap();
    assert_eq!(p.id, 42);
    assert_eq!(p.name, "Basil");
    assert_eq!(p.watering_frequency_days, 2);
    assert_eq!(p.fertilizing_frequency_days, 30);
    assert_eq!(p.created_at, 700);
    assert_eq!(p.last_watered, None);
    assert_eq!(p.last_fertilized, None);
    assert!(p.image_filenames.is_empty());
    assert_eq!(ids(&reg), vec![42]);
}

#[test]
fn taken_identifier_is_refused() {
    let mut reg = Registry::new();
    insert_plant(&mut reg, 1, payload("A", 1, 1), 0).unwrap();
    let e = insert_plant(&mut reg, 1, payload("B", 1, 1), 0).unwrap_err();
    assert_eq!(e.kind, ErrorKind::Internal);
    assert_eq!(reg.len(), 1);
    assert_eq!(get_plants(&reg)[0].name, "A");
}

#[test]
fn two_adds_get_distinct_ids_and_both_are_kept() {
    let mut reg = Registry::new();
    let a = add_plant(&mut reg, payload("A", 3, 10), 5).unwrap();
    let b = add_plant(&mut reg, payload("B", 4, 20), 5).unwrap();
    assert_ne!(a.id, b.id);
    assert_eq!(ids(&reg), vec![a.id, b.id]);
    let listed = get_plants(&reg);
    assert_eq!(listed[0].name, "A");
    assert_eq!(listed[1].name, "B");
}

#[test]
fn random_ids_are_version_four() {
    let mut reg = Registry::new();
    let a = add_plant(&mut reg, payload("A", 3, 10), 5).unwrap();
    assert_eq!((a.id >> 76) & 0xF, 4);
    assert_eq!((a.id >> 62) & 0x3, 2);
}

#[test]
fn add_to_empty_registry_succeeds() {
    let mut reg = Registry::new();
    let a = add_plant(&mut reg, payload("Solo", 1, 2), 9).unwrap();
    assert_eq!(a.created_at, 9);
    assert_eq!(ids(&reg), vec![a.id]);
}

#[test]
fn marking_fertilized_twice_on_one_day_is_idempotent() {
    let mut reg = Registry::new();
    insert_plant(&mut reg, 1, payload("A", 7, 30), 0).unwrap();
    mark_fertilized(&mut reg, 1, 20).unwrap();
    let again = mark_fertilized(&mut reg, 1, 20).unwrap();
    assert_eq!(again.last_fertilized, Some(20));
    assert_eq!(get_plant_by_id(&reg, 1).unwrap().last_fertilized, Some(20));
}

#[test]
fn get_by_id_finds_or_reports_not_found() {
    let mut reg = Registry::new();
    insert_plant(&mut reg, 7, payload("Mint", 2, 14), 3).unwrap();
    assert_eq!(get_plant_by_id(&reg, 7).unwrap().name, "Mint");
    assert_eq!(get_plant_by_id(&reg, 8).unwrap_err().kind, ErrorKind::NotFound);
}

#[test]
fn update_replaces_settings_only() {
    let mut reg = Registry::new();
    insert_plant(&mut reg, 7, payload("Mint", 2, 14), 3).unwrap();
    mark_watered(&mut reg, 7, 9).unwrap();
    let upd = UpdatePlantPayload {
        name: "Peppermint".to_string(),
        watering_frequency_days: 5,
        fertilizing_frequency_days: 21,
    };
    let p = update_plant(&mut reg, 7, upd).unwrap();
    assert_eq!(p.name, "Peppermint");
    assert_eq!(p.watering_frequency_days, 5);
    assert_eq!(p.fertilizing_frequency_days, 21);
    assert_eq!(p.last_watered, Some(9));
    assert_eq!(p.created_at, 3);
    assert_eq!(get_plant_by_id(&reg, 7).unwrap().name, "Peppermint");
    let missing = UpdatePlantPayload {
        name: "X".to_string(),
        watering_frequency_days: 1,
        fertilizing_frequency_days: 1,
    };
    assert_eq!(update_plant(&mut reg, 8, missing).unwrap_err().kind, ErrorKind::NotFound);
}

#[test]
fn delete_removes_and_second_delete_is_not_found() {
    let mut reg = Registry::new();
    insert_plant(&mut reg, 1, payload("A", 1, 1), 0).unwrap();
    insert_plant(&mut reg, 2, payload("B", 1, 1), 0).unwrap();
    insert_plant(&mut reg, 3, payload("C", 1, 1), 0).unwrap();
    assert!(delete_plant(&mut reg, 2).is_ok());
    assert_eq!(ids(&reg), vec![1, 3]);
    let e = delete_plant(&mut reg, 2).unwrap_err();
    assert_eq!(e.kind, ErrorKind::NotFound);
    assert_eq!(ids(&reg), vec![1, 3]);
}

#[test]
fn marking_watered_twice_on_one_day_is_idempotent() {
    let mut reg = Registry::new();
    insert_plant(&mut reg, 1, payload("A", 7, 30), 0).unwrap();
    let first = mark_watered(&mut reg, 1, 12).unwrap();
    let second = mark_watered(&mut reg, 1, 12).unwrap();
    assert_eq!(first.last_watered, Some(12));
    assert_eq!(second.last_watered, Some(12));
    assert_eq!(get_plant_by_id(&reg, 1).unwrap().last_watered, Some(12));
    assert_eq!(get_plant_by_id(&reg, 1).unwrap().last_fertilized, None);
    assert_eq!(mark_watered(&mut reg, 2, 12).unwrap_err().kind, ErrorKind::NotFound);
}

#[test]
fn marking_fertilized_sets_the_day() {
    let mut reg = Registry::new();
    insert_plant(&mut reg, 1, payload("A", 7, 30), 0).unwrap();
    let p = mark_fertilized(&mut reg, 1, 40).unwrap();
    assert_eq!(p.last_fertilized, Some(40));
    assert_eq!(p.last_watered, None);
    assert_eq!(p.next_fertilizing_due(), 70);
    assert_eq!(mark_fertilized(&mut reg, 9, 40).unwrap_err().kind, ErrorKind::NotFound);
}

#[test]
fn duplicate_identifiers_are_refused_on_load() {
    let mk = |id: u128| Plant {
        id,
        name: "P".to_string(),
        watering_frequency_days: 1,
        fertilizing_frequency_days: 1,
        last_watered: None,
        last_fertilized: None,
        image_filenames: vec!["a.png".to_string()],
        created_at: 0,
    };
    assert!(Registry::from_plants(vec![mk(1), mk(2), mk(1)]).is_none());
    let reg = Registry::from_plants(vec![mk(1), mk(2)]).unwrap();
    assert_eq!(ids(&reg), vec![1, 2]);
    assert_eq!(get_plants(&reg)[1].image_filenames, vec!["a.png".to_string()]);
}

#[test]
fn error_status_codes() {
    assert_eq!(AppError::not_found().status_code(), 404);
    assert_eq!(AppError::bad_request().status_code(), 400);
    assert_eq!(AppError::internal().status_code(), 500);
}
