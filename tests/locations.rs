use safety_records::locations::{
    create_establishment, create_location, update_establishment, update_location,
    CreateEstablishment, CreateLocation, Establishment, UpdateEstablishment, UpdateLocation,
};

fn create_test_establishment() -> Establishment {
    create_establishment(
        1,
        CreateEstablishment {
            name: "Test Construction Co".into(),
            street_address: Some("123 Main St".into()),
            city: Some("Springfield".into()),
            state: Some("IL".into()),
            zip_code: Some("62701".into()),
            industry_description: Some("Construction".into()),
            naics_code: Some("236220".into()),
        },
        "t0".into(),
    )
}

#[test]
fn test_establishment_crud() {
    let est = create_test_establishment();
    assert_eq!(est.name, "Test Construction Co");
    assert_eq!(est.city.as_deref(), Some("Springfield"));

    let updated = update_establishment(
        est,
        UpdateEstablishment {
            name: Some("Updated Co".into()),
            street_address: None,
            city: None,
            state: None,
            zip_code: None,
            industry_description: None,
            naics_code: None,
        },
        "t1".into(),
    );
    assert_eq!(updated.name, "Updated Co");
    assert_eq!(updated.city.as_deref(), Some("Springfield"));
    assert_eq!(updated.updated_at, "t1");
}

#[test]
fn test_location_crud() {
    let est = create_test_establishment();
    let loc = create_location(
        7,
        CreateLocation {
            establishment_id: est.id,
            name: "Main Office".into(),
            address: Some("456 Oak Ave".into()),
            city: Some("Springfield".into()),
            state: Some("IL".into()),
        },
        "t0".into(),
    );
    assert_eq!(loc.name, "Main Office");
    assert!(loc.is_active);

    let updated = update_location(
        loc,
        UpdateLocation { name: None, address: None, city: None, state: None, is_active: Some(false) },
        "t1".into(),
    );
    assert!(!updated.is_active);
    assert_eq!(updated.address.as_deref(), Some("456 Oak Ave"));
}

#[test]
fn empty_location_patch_keeps_timestamp() {
    let est = create_test_establishment();
    let loc = create_location(
        2,
        CreateLocation { establishment_id: est.id, name: "Yard".into(), address: None, city: None, state: None },
        "t0".into(),
    );
    let same = update_location(
        loc,
        UpdateLocation { name: None, address: None, city: None, state: None, is_active: None },
        "t9".into(),
    );
    assert_eq!(same.updated_at, "t0");
    assert_eq!(same.name, "Yard");
}
