use safety_records::actions::{get_corrective_action_summary, CorrectiveAction};
use safety_records::dashboard::{
    get_dashboard_summary, get_incidents_by_location, get_incidents_by_month,
    get_incidents_by_severity, get_incidents_by_type,
};
use safety_records::incidents::{create_incident, CreateIncident, Incident};
use safety_records::locations::{create_location, CreateLocation, Location};

fn incident(id: i64, date: &str, loc: Option<i64>, severity: &str, kind: &str, recordable: bool) -> Incident {
    let data = CreateIncident {
        establishment_id: 1, location_id: loc,
        employee_name: "Ann Lee".into(), incident_date: date.into(),
        description: "Cut hand".into(),
        employee_job_title: None,
        outcome_severity: Some(severity.into()),
        days_away_count: None, days_restricted_count: None,
        injury_illness_type: Some(kind.into()), is_recordable: Some(recordable),
        employee_address: None, employee_city: None, employee_state: None,
        employee_zip: None, employee_dob: None, employee_hire_date: None,
        employee_gender: None, is_privacy_case: None, incident_time: None,
        work_start_time: None, where_occurred: None,
        activity_before_incident: None, how_injury_occurred: None,
        injury_description: None, object_substance: None, physician_name: None,
        treatment_facility: None, facility_address: None, facility_city_state_zip: None,
        treated_in_er: None, hospitalized_overnight: None, date_of_death: None,
    };
    create_incident(&Vec::new(), id, data, "now".into()).unwrap()
}

fn sample() -> Vec<Incident> {
    let mut v = vec![
        incident(1, "2026-01-05", Some(10), "days_away", "injury", true),
        incident(2, "2026-01-20", None, "death", "respiratory", true),
        incident(3, "2026-03-02", Some(11), "days_away", "injury", false),
        incident(4, "2026-03-09", Some(10), "other_recordable", "injury", true),
        incident(5, "2025-12-30", Some(10), "days_away", "injury", true),
    ];
    v[3].status = "closed".into();
    v
}

fn locations() -> Vec<Location> {
    let mk = |id: i64, name: &str| {
        create_location(id, CreateLocation { establishment_id: 1, name: name.into(), address: None, city: None, state: None }, "now".into())
    };
    vec![mk(10, "Warehouse"), mk(11, "Dock")]
}

#[test]
fn dashboard_counts_and_days_since() {
    let s = get_dashboard_summary(&sample(), 1, 2026, None, "2026-03-19");
    assert_eq!(s.total_incidents, 4);
    assert_eq!(s.open_incidents, 3);
    assert_eq!(s.total_recordable, 3);
    assert_eq!(s.days_since_last_incident, Some(10));
    assert!(s.trir.is_none());

    let empty = get_dashboard_summary(&Vec::new(), 1, 2026, Some(1000), "2026-03-19");
    assert_eq!(empty.total_incidents, 0);
    assert_eq!(empty.days_since_last_incident, None);
    assert_eq!(empty.trir.unwrap().scaled_recordable, 0);

    let across_years = get_dashboard_summary(&sample(), 1, 2026, None, "2027-03-09");
    assert_eq!(across_years.days_since_last_incident, Some(365));
}

#[test]
fn breakdowns_by_month_severity_location_type() {
    let incidents = sample();
    let months: Vec<(String, i64)> = get_incidents_by_month(&incidents, 1, 2026).into_iter().map(|m| (m.month, m.count)).collect();
    assert_eq!(months, vec![("2026-01".to_string(), 2), ("2026-03".to_string(), 2)]);

    let sev: Vec<(String, i64)> = get_incidents_by_severity(&incidents, 1, 2026).into_iter().map(|m| (m.severity, m.count)).collect();
    assert_eq!(sev, vec![("days_away".to_string(), 1), ("death".to_string(), 1), ("other_recordable".to_string(), 1)]);

    let locs: Vec<(String, i64)> = get_incidents_by_location(&incidents, 1, 2026, &locations()).into_iter().map(|m| (m.location_name, m.count)).collect();
    assert_eq!(locs, vec![("Dock".to_string(), 1), ("Unassigned".to_string(), 1), ("Warehouse".to_string(), 2)]);

    let kinds: Vec<(String, i64)> = get_incidents_by_type(&incidents, 1, 2026).into_iter().map(|m| (m.injury_type, m.count)).collect();
    assert_eq!(kinds, vec![("injury".to_string(), 2), ("respiratory".to_string(), 1)]);
}

fn action(status: &str, due: Option<&str>) -> CorrectiveAction {
    CorrectiveAction {
        id: 1,
        incident_id: 1,
        rca_session_id: None,
        description: "Implement scaffold checklist".into(),
        assigned_to: Some("Safety Manager".into()),
        due_date: due.map(|d| d.to_string()),
        status: status.into(),
        completed_date: None,
        notes: None,
        created_at: "now".into(),
        updated_at: "now".into(),
    }
}

#[test]
fn corrective_action_tallies() {
    let actions = vec![
        action("open", Some("2026-02-01")),
        action("open", Some("2026-12-01")),
        action("in_progress", Some("2026-01-01")),
        action("completed", Some("2026-01-25")),
        action("open", None),
    ];
    let s = get_corrective_action_summary(&actions, "2026-03-01");
    assert_eq!(s.open, 3);
    assert_eq!(s.in_progress, 1);
    assert_eq!(s.completed, 1);
    assert_eq!(s.overdue, 2);
}
