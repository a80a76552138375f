use plant_tracker::error::ErrorKind;
use plant_tracker::models::AddPlantPayload;
use plant_tracker::ops::{get_plants, insert_plant};
use plant_tracker::registry::Registry;
use plant_tracker::upload::{
    accepts_image_field, attach_image, check_upload_target, image_filename, new_image_filename,
};

fn one_plant() -> Registry {
    let mut reg = Registry::new();
    let payload = AddPlantPayload {
        name: "Aloe".to_string(),
        watering_frequency_days: 10,
        fertilizing_frequency_days: 60,
    };
    insert_plant(&mut reg, 5, payload, 0).unwrap();
    reg
}

#[test]
fn field_without_filename_is_not_an_image() {
    assert!(!accepts_image_field("plantImage", ""));
    assert!(!accepts_image_field("other", "a.png"));
    assert!(accepts_image_field("plantImage", "a.png"));
}

#[test]
fn no_image_field_is_a_bad_request_without_changes() {
    let mut reg = one_plant();
    let e = attach_image(&mut reg, 5, None).unwrap_err();
    assert_eq!(e.kind, ErrorKind::BadRequest);
    assert!(get_plants(&reg)[0].image_filenames.is_empty());
}

#[test]
fn stored_image_is_appended_in_order() {
    let mut reg = one_plant();
    attach_image(&mut reg, 5, Some("x.png".to_string())).unwrap();
    let p = attach_image(&mut reg, 5, Some("y.jpg".to_string())).unwrap();
    assert_eq!(p.image_filenames, vec!["x.png".to_string(), "y.jpg".to_string()]);
    assert_eq!(get_plants(&reg)[0].image_filenames, p.image_filenames);
}

#[test]
fn vanished_plant_is_an_internal_error() {
    let mut reg = one_plant();
    let e = attach_image(&mut reg, 6, Some("x.png".to_string())).unwrap_err();
    assert_eq!(e.kind, ErrorKind::Internal);
    assert!(get_plants(&reg)[0].image_filenames.is_empty());
}

#[test]
fn stored_name_keeps_only_the_extension() {
    assert_eq!(image_filename("abc", "holiday.photo.JPG"), "abc.JPG");
    assert_eq!(image_filename("abc", "../../etc/passwd"), "abc.bin");
    assert_eq!(image_filename("abc", "noext"), "abc.bin");
    assert_eq!(image_filename("abc", ".hidden"), "abc.bin");
    assert_eq!(image_filename("abc", "dir.d/file"), "abc.bin");
}

#[test]
fn new_stored_name_is_a_uuid_and_extension() {
    let a = new_image_filename("cat.png");
    let b = new_image_filename("cat.png");
    assert_ne!(a, b);
    assert_eq!(a.len(), 40);
    assert!(a.ends_with(".png"));
    assert!(!a.contains("cat"));
    assert_eq!(a.matches('-').count(), 4);
    assert!(new_image_filename("raw").ends_with(".bin"));
}

#[test]
fn upload_to_missing_plant_is_not_found() {
    let reg = one_plant();
    assert_eq!(check_upload_target(&reg, 6).unwrap_err().kind, ErrorKind::NotFound);
    assert!(check_upload_target(&reg, 5).is_ok());
}

#[test]
fn new_stored_name_has_hyphens_and_version_digit() {
    let a = new_image_filename("leaf.gif");
    let chars: Vec<char> = a.chars().collect();
    for j in [8usize, 13, 18, 23] {
        assert_eq!(chars[j], '-');
    }
    assert_eq!(chars[14], '4');
    assert!(matches!(chars[19], '8' | '9' | 'a' | 'b'));
    assert!(chars[..36].iter().all(|c| c.is_ascii_digit() || ('a'..='f').contains(c) || *c == '-'));
    assert_eq!(&a[36..], ".gif");
}
