use safety_records::error::AppError;
use safety_records::incidents::{
    create_incident, list_incidents, next_case_number, update_incident, validate_new_incident,
    CaseEntry, CreateIncident, Incident, IncidentFilter, InjuryIllnessType, OutcomeSeverity,
    UpdateIncident,
};

fn make_incident(est_id: i64, loc_id: i64) -> CreateIncident {
    CreateIncident {
        establishment_id: est_id,
        location_id: Some(loc_id),
        employee_name: "John Doe".into(),
        employee_job_title: Some("Carpenter".into()),
        employee_address: None,
        employee_city: None,
        employee_state: None,
        employee_zip: None,
        employee_dob: None,
        employee_hire_date: None,
        employee_gender: Some("male".into()),
        is_privacy_case: None,
        incident_date: "2026-01-15".into(),
        incident_time: Some("09:30".into()),
        work_start_time: Some("07:00".into()),
        where_occurred: Some("Building B, 2nd floor".into()),
        description: "Worker fell from scaffolding".into(),
        activity_before_incident: Some("Installing drywall".into()),
        how_injury_occurred: Some("Lost balance on scaffold".into()),
        injury_description: Some("Fractured left wrist".into()),
        object_substance: Some("Scaffold platform".into()),
        physician_name: None,
        treatment_facility: None,
        facility_address: None,
        facility_city_state_zip: None,
        treated_in_er: Some(true),
        hospitalized_overnight: Some(false),
        outcome_severity: Some("days_away".into()),
        days_away_count: Some(14),
        days_restricted_count: Some(0),
        date_of_death: None,
        injury_illness_type: Some("injury".into()),
        is_recordable: Some(true),
    }
}

fn empty_patch() -> UpdateIncident {
    UpdateIncident {
        location_id: None,
        employee_name: None,
        employee_job_title: None,
        employee_address: None,
        employee_city: None,
        employee_state: None,
        employee_zip: None,
        employee_dob: None,
        employee_hire_date: None,
        employee_gender: None,
        is_privacy_case: None,
        incident_date: None,
        incident_time: None,
        work_start_time: None,
        where_occurred: None,
        description: None,
        activity_before_incident: None,
        how_injury_occurred: None,
        injury_description: None,
        object_substance: None,
        physician_name: None,
        treatment_facility: None,
        facility_address: None,
        facility_city_state_zip: None,
        treated_in_er: None,
        hospitalized_overnight: None,
        outcome_severity: None,
        days_away_count: None,
        days_restricted_count: None,
        date_of_death: None,
        injury_illness_type: None,
        is_recordable: None,
        status: None,
        completed_by: None,
        completed_by_title: None,
        completed_by_phone: None,
        completed_date: None,
    }
}

fn entry(inc: &Incident) -> CaseEntry {
    CaseEntry {
        establishment_id: inc.establishment_id,
        incident_date: inc.incident_date.clone(),
        case_number: inc.case_number,
    }
}

/// Creates an incident the way the store does: numbered against what is
/// already stored, then added to it.
fn store_create(store: &mut Vec<Incident>, data: CreateIncident) -> Incident {
    let entries: Vec<CaseEntry> = store.iter().map(entry).collect();
    let id = store.len() as i64 + 1;
    let inc = create_incident(&entries, id, data, "2026-02-01 10:00:00".into()).unwrap();
    store.push(inc.clone());
    inc
}

fn filter_for(est_id: i64) -> IncidentFilter {
    IncidentFilter {
        establishment_id: est_id,
        location_id: None,
        status: None,
        outcome_severity: None,
        date_from: None,
        date_to: None,
        search: None,
    }
}

#[test]
fn test_incident_crud() {
    let (est_id, loc_id) = (1, 1);
    let mut store: Vec<Incident> = Vec::new();

    let inc = store_create(&mut store, make_incident(est_id, loc_id));
    assert_eq!(inc.case_number, Some(1));
    assert_eq!(inc.employee_name, "John Doe");
    assert_eq!(inc.outcome_severity.as_text(), "days_away");

    let inc2 = store_create(&mut store, make_incident(est_id, loc_id));
    assert_eq!(inc2.case_number, Some(2));

    let fetched = store.iter().find(|i| i.id == inc.id).unwrap().clone();
    assert_eq!(fetched.description, "Worker fell from scaffolding");

    let mut patch = empty_patch();
    patch.status = Some("closed".into());
    patch.description = Some("Updated description".into());
    let updated = update_incident(fetched, patch, "2026-02-02 08:00:00".into()).unwrap();
    assert_eq!(updated.status, "closed");
    assert_eq!(updated.description, "Updated description");
}

#[test]
fn test_incident_filtering() {
    let mut store: Vec<Incident> = Vec::new();
    store_create(&mut store, make_incident(1, 1));

    let all = list_incidents(store.clone(), &filter_for(1));
    assert_eq!(all.len(), 1);

    let mut f = filter_for(1);
    f.status = Some("closed".into());
    let filtered = list_incidents(store, &f);
    assert_eq!(filtered.len(), 0);
}

#[test]
fn creation_applies_defaults() {
    let mut data = make_incident(3, 1);
    data.outcome_severity = None;
    data.injury_illness_type = None;
    data.is_recordable = None;
    data.days_away_count = None;
    data.days_restricted_count = None;
    data.is_privacy_case = None;
    let inc = create_incident(&Vec::new(), 9, data, "now".into()).unwrap();
    assert_eq!(inc.outcome_severity, OutcomeSeverity::OtherRecordable);
    assert_eq!(inc.injury_illness_type, InjuryIllnessType::Injury);
    assert!(inc.is_recordable);
    assert!(!inc.is_privacy_case);
    assert_eq!(inc.days_away_count, 0);
    assert_eq!(inc.days_restricted_count, 0);
    assert_eq!(inc.status, "open");
    assert_eq!(inc.created_at, "now");
    assert_eq!(inc.updated_at, "now");
    assert_eq!(inc.id, 9);
}

#[test]
fn creation_rejects_invalid_fields() {
    let mut data = make_incident(1, 1);
    data.employee_name = "   ".into();
    assert!(matches!(validate_new_incident(&data), Err(AppError::Validation(_))));

    let mut data = make_incident(1, 1);
    data.incident_date = "2023-02-29".into();
    assert!(matches!(create_incident(&Vec::new(), 1, data, "now".into()), Err(AppError::Validation(_))));

    let mut data = make_incident(1, 1);
    data.days_away_count = Some(181);
    assert!(matches!(create_incident(&Vec::new(), 1, data, "now".into()), Err(AppError::Validation(_))));

    let mut data = make_incident(1, 1);
    data.outcome_severity = Some("fatal".into());
    assert!(matches!(create_incident(&Vec::new(), 1, data, "now".into()), Err(AppError::Validation(_))));
}

#[test]
fn case_numbers_are_sequential_per_establishment_and_year() {
    let mut store: Vec<Incident> = Vec::new();
    let mut seen = Vec::new();
    for k in 0..5 {
        let inc = store_create(&mut store, make_incident(1, 1));
        seen.push(inc.case_number.unwrap());
        // interleaved creations elsewhere do not disturb the sequence
        let mut other_year = make_incident(1, 1);
        other_year.incident_date = "2025-06-01".into();
        let o = store_create(&mut store, other_year);
        assert_eq!(o.case_number, Some(k + 1));
        let other_est = store_create(&mut store, make_incident(2, 1));
        assert_eq!(other_est.case_number, Some(k + 1));
    }
    assert_eq!(seen, vec![1, 2, 3, 4, 5]);
}

#[test]
fn next_case_number_uses_the_largest_existing() {
    let entries = vec![
        CaseEntry { establishment_id: 1, incident_date: "2024-01-01".into(), case_number: Some(7) },
        CaseEntry { establishment_id: 1, incident_date: "2024-05-01".into(), case_number: Some(3) },
        CaseEntry { establishment_id: 1, incident_date: "2023-05-01".into(), case_number: Some(40) },
        CaseEntry { establishment_id: 2, incident_date: "2024-05-01".into(), case_number: Some(90) },
    ];
    assert_eq!(next_case_number(&entries, 1, "2024").unwrap(), 8);
    assert_eq!(next_case_number(&entries, 1, "2022").unwrap(), 1);
    let full = vec![CaseEntry { establishment_id: 1, incident_date: "2024-01-01".into(), case_number: Some(i64::MAX) }];
    assert!(next_case_number(&full, 1, "2024").is_err());
}

#[test]
fn empty_patch_changes_nothing() {
    let inc = create_incident(&Vec::new(), 1, make_incident(1, 1), "t0".into()).unwrap();
    let same = update_incident(inc.clone(), empty_patch(), "t1".into()).unwrap();
    assert_eq!(same.updated_at, "t0");
    assert_eq!(same.description, inc.description);
    assert_eq!(same.status, inc.status);
    assert_eq!(same.case_number, inc.case_number);
}

#[test]
fn single_field_patch_changes_that_field_and_refreshes() {
    let inc = create_incident(&Vec::new(), 1, make_incident(1, 1), "t0".into()).unwrap();
    let mut patch = empty_patch();
    patch.days_away_count = Some(20);
    let changed = update_incident(inc.clone(), patch, "t1".into()).unwrap();
    assert_eq!(changed.days_away_count, 20);
    assert_eq!(changed.updated_at, "t1");
    assert_eq!(changed.created_at, "t0");
    assert_eq!(changed.days_restricted_count, inc.days_restricted_count);
    assert_eq!(changed.employee_name, inc.employee_name);

    let mut bad = empty_patch();
    bad.incident_date = Some("2024/01/15".into());
    assert!(matches!(update_incident(inc, bad, "t2".into()), Err(AppError::Validation(_))));
}

#[test]
fn listing_orders_by_date_then_id_descending() {
    let mut store: Vec<Incident> = Vec::new();
    for date in ["2026-01-15", "2026-03-01", "2026-01-15", "2025-12-31"] {
        let mut d = make_incident(1, 1);
        d.incident_date = date.into();
        store_create(&mut store, d);
    }
    let listed = list_incidents(store.clone(), &filter_for(1));
    let order: Vec<i64> = listed.iter().map(|i| i.id).collect();
    assert_eq!(order, vec![2, 3, 1, 4]);

    let mut f = filter_for(1);
    f.date_from = Some("2026-01-01".into());
    f.date_to = Some("2026-01-31".into());
    assert_eq!(list_incidents(store.clone(), &f).len(), 2);

    let mut f = filter_for(1);
    f.search = Some("SCAFFOLD".into());
    assert_eq!(list_incidents(store.clone(), &f).len(), 4);
    f.search = Some("ladder".into());
    assert_eq!(list_incidents(store.clone(), &f).len(), 0);

    let mut f = filter_for(1);
    f.outcome_severity = Some("days_away".into());
    assert_eq!(list_incidents(store.clone(), &f).len(), 4);
    f.location_id = Some(2);
    assert_eq!(list_incidents(store, &f).len(), 0);
}
