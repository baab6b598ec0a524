use safety_records::incidents::{create_incident, CreateIncident, Incident};
use safety_records::locations::{create_establishment, CreateEstablishment, Establishment};
use safety_records::osha::{
    bool_to_x, export_osha_300_records, get_osha_300_log, get_osha_300a_summary,
    get_osha_301_report, validate_annual_stats, AnnualStats, UpsertAnnualStats,
};
use safety_records::dashboard::get_dashboard_summary;

fn establishment() -> Establishment {
    create_establishment(
        1,
        CreateEstablishment {
            name: "ABC Construction".into(),
            street_address: Some("100 Main St".into()),
            city: Some("Chicago".into()),
            state: Some("IL".into()),
            zip_code: Some("60601".into()),
            industry_description: Some("General Construction".into()),
            naics_code: Some("236220".into()),
        },
        "now".into(),
    )
}

fn ladder_fall(est_id: i64, loc_id: i64) -> CreateIncident {
    CreateIncident {
        establishment_id: est_id, location_id: Some(loc_id),
        employee_name: "John Doe".into(), incident_date: "2026-03-15".into(),
        description: "Fell from ladder".into(),
        employee_job_title: Some("Laborer".into()),
        outcome_severity: Some("days_away".into()),
        days_away_count: Some(10), days_restricted_count: Some(5),
        injury_illness_type: Some("injury".into()), is_recordable: Some(true),
        employee_address: None, employee_city: None, employee_state: None,
        employee_zip: None, employee_dob: None, employee_hire_date: None,
        employee_gender: None, is_privacy_case: None, incident_time: None,
        work_start_time: None, where_occurred: Some("Building A".into()),
        activity_before_incident: None, how_injury_occurred: None,
        injury_description: None, object_substance: None, physician_name: None,
        treatment_facility: None, facility_address: None, facility_city_state_zip: None,
        treated_in_er: None, hospitalized_overnight: None, date_of_death: None,
    }
}

fn setup() -> (Establishment, Vec<Incident>) {
    let est = establishment();
    let inc = create_incident(&Vec::new(), 1, ladder_fall(est.id, 1), "now".into()).unwrap();
    (est, vec![inc])
}

fn stats(est_id: i64, year: i64, hours: i64) -> AnnualStats {
    AnnualStats {
        id: 1,
        establishment_id: est_id,
        year,
        avg_employees: 50,
        total_hours_worked: hours,
        certifier_name: Some("Jane Smith".into()),
        certifier_title: Some("Safety Director".into()),
        certifier_phone: None,
        certification_date: None,
    }
}

#[test]
fn test_osha_300_log() {
    let (est, incidents) = setup();
    let log = get_osha_300_log(&incidents, est.id, 2026);
    assert_eq!(log.len(), 1);
    assert!(log[0].outcome_days_away);
    assert!(log[0].type_injury);
    assert_eq!(log[0].days_away_count, 10);
}

#[test]
fn test_osha_300a_summary() {
    let (est, incidents) = setup();
    let upsert = UpsertAnnualStats {
        establishment_id: est.id, year: 2026,
        avg_employees: 50, total_hours_worked: 100000,
        certifier_name: Some("Jane Smith".into()),
        certifier_title: Some("Safety Director".into()),
        certifier_phone: None, certification_date: None,
    };
    assert!(validate_annual_stats(&upsert).is_ok());
    let summary = get_osha_300a_summary(&est, &incidents, 2026, Some(stats(est.id, 2026, 100000)));
    assert_eq!(summary.total_days_away_cases, 1);
    assert_eq!(summary.total_days_away, 10);
    assert_eq!(summary.total_injuries, 1);
    assert_eq!(summary.avg_employees, Some(50));
    assert_eq!(summary.certifier_name.as_deref(), Some("Jane Smith"));
    assert_eq!(summary.street_address, "100 Main St");
}

#[test]
fn test_osha_301_report() {
    let (_est, incidents) = setup();
    let report = get_osha_301_report(&incidents[0]);
    assert_eq!(report.employee_name, "John Doe");
    assert_eq!(report.incident_date, "2026-03-15");
}

fn mixed_year() -> (Establishment, Vec<Incident>) {
    let est = establishment();
    let mut incidents: Vec<Incident> = Vec::new();
    let specs: [(&str, &str, bool, i64); 6] = [
        ("death", "injury", true, 0),
        ("days_away", "respiratory", true, 12),
        ("job_transfer_restriction", "hearing_loss", true, 0),
        ("other_recordable", "skin_disorder", true, 0),
        ("days_away", "poisoning", false, 30),
        ("other_recordable", "other_illness", true, 0),
    ];
    for (k, (sev, kind, rec, days)) in specs.iter().enumerate() {
        let mut d = ladder_fall(est.id, 1);
        d.outcome_severity = Some(sev.to_string());
        d.injury_illness_type = Some(kind.to_string());
        d.is_recordable = Some(*rec);
        d.days_away_count = Some(*days);
        d.incident_date = format!("2026-0{}-10", k + 1);
        let entries: Vec<_> = incidents
            .iter()
            .map(|i: &Incident| safety_records::incidents::CaseEntry {
                establishment_id: i.establishment_id,
                incident_date: i.incident_date.clone(),
                case_number: i.case_number,
            })
            .collect();
        incidents.push(create_incident(&entries, k as i64 + 1, d, "now".into()).unwrap());
    }
    let mut old = ladder_fall(est.id, 1);
    old.incident_date = "2025-11-02".into();
    incidents.push(create_incident(&Vec::new(), 50, old, "now".into()).unwrap());
    (est, incidents)
}

#[test]
fn summary_totals_add_up_to_log_rows() {
    let (est, incidents) = mixed_year();
    let log = get_osha_300_log(&incidents, est.id, 2026);
    let s = get_osha_300a_summary(&est, &incidents, 2026, None);
    assert_eq!(log.len(), 5);
    assert_eq!(
        (s.total_deaths + s.total_days_away_cases + s.total_transfer_restriction_cases
            + s.total_other_recordable_cases) as usize,
        log.len()
    );
    assert_eq!(
        (s.total_injuries + s.total_skin_disorders + s.total_respiratory + s.total_poisonings
            + s.total_hearing_loss + s.total_other_illnesses) as usize,
        log.len()
    );
    assert_eq!(s.total_days_away, 12);
    assert_eq!(s.total_poisonings, 0);
    assert_eq!(s.avg_employees, None);
    assert_eq!(s.certifier_name, None);
    let numbers: Vec<i64> = log.iter().map(|r| r.case_number).collect();
    let mut sorted = numbers.clone();
    sorted.sort();
    assert_eq!(numbers, sorted);
    for row in &log {
        let outcome_flags = [row.outcome_death, row.outcome_days_away, row.outcome_job_transfer, row.outcome_other_recordable];
        assert_eq!(outcome_flags.iter().filter(|b| **b).count(), 1);
        let type_flags = [row.type_injury, row.type_skin_disorder, row.type_respiratory, row.type_poisoning, row.type_hearing_loss, row.type_other_illness];
        assert_eq!(type_flags.iter().filter(|b| **b).count(), 1);
    }
}

#[test]
fn privacy_cases_are_masked_in_reports_only() {
    let est = establishment();
    let mut d = ladder_fall(est.id, 1);
    d.is_privacy_case = Some(true);
    let inc = create_incident(&Vec::new(), 1, d, "now".into()).unwrap();
    let incidents = vec![inc];
    let log = get_osha_300_log(&incidents, est.id, 2026);
    assert_eq!(log[0].employee_name, "Privacy Case");
    assert_eq!(get_osha_301_report(&incidents[0]).employee_name, "Privacy Case");
    assert_eq!(incidents[0].employee_name, "John Doe");
}

#[test]
fn rate_metric_scenario() {
    let mut incidents = Vec::new();
    for k in 0..3 {
        let mut d = ladder_fall(1, 1);
        d.incident_date = format!("2026-0{}-01", k + 1);
        incidents.push(create_incident(&Vec::new(), k + 1, d, "now".into()).unwrap());
    }
    let s = get_dashboard_summary(&incidents, 1, 2026, Some(300_000), "2026-06-01");
    assert_eq!(s.total_recordable, 3);
    let rate = s.trir.unwrap();
    assert_eq!(rate.scaled_recordable, 600_000);
    assert_eq!(rate.hours_worked, 300_000);
    assert_eq!(rate.scaled_recordable as f64 / rate.hours_worked as f64, 2.0);

    let none = get_dashboard_summary(&incidents, 1, 2026, None, "2026-06-01");
    assert!(none.trir.is_none());
    let zero = get_dashboard_summary(&incidents, 1, 2026, Some(0), "2026-06-01");
    assert!(zero.trir.is_none());
}

#[test]
fn export_records_render_flags_and_numbers() {
    let (est, incidents) = setup();
    let log = get_osha_300_log(&incidents, est.id, 2026);
    let records = export_osha_300_records(&log);
    assert_eq!(records.len(), 2);
    assert_eq!(records[0].len(), 18);
    assert_eq!(records[0][0], "Case No.");
    assert_eq!(records[0][17], "All Other Illnesses");
    assert_eq!(
        records[1],
        vec!["1", "John Doe", "Laborer", "2026-03-15", "Building A", "Fell from ladder", "", "X", "", "", "10", "5", "X", "", "", "", "", ""]
    );
    assert_eq!(bool_to_x(true), "X");
    assert_eq!(bool_to_x(false), "");
}

#[test]
fn annual_stats_validation() {
    let mut u = UpsertAnnualStats {
        establishment_id: 1, year: 2026, avg_employees: 1_000_000, total_hours_worked: 2_100_000_000,
        certifier_name: None, certifier_title: None, certifier_phone: None, certification_date: None,
    };
    assert!(validate_annual_stats(&u).is_ok());
    u.avg_employees = 1_000_001;
    assert!(validate_annual_stats(&u).is_err());
    u.avg_employees = 5;
    u.total_hours_worked = -1;
    assert!(validate_annual_stats(&u).is_err());
    u.total_hours_worked = 5;
    u.year = 2101;
    assert!(validate_annual_stats(&u).is_err());
}
