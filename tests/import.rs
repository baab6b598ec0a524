use safety_records::error::AppError;
use safety_records::import::{plan_csv_import, preview_csv, ColumnMapping, ImportResult, ImportStep};

fn mapping() -> ColumnMapping {
    ColumnMapping {
        employee_name: Some("Name".into()),
        employee_job_title: Some("Job".into()),
        incident_date: Some("Date".into()),
        description: Some("What happened".into()),
        where_occurred: None,
        outcome_severity: None,
        days_away_count: Some("Days Away".into()),
        days_restricted_count: None,
        injury_illness_type: None,
        employee_gender: None,
    }
}

const DOC: &str = "Name,Job,Date,What happened,Days Away\n\
,Welder,2026-01-02,Burn,3\n\
Bo Diaz,Driver,2026-01-03,,4\n\
Cy Park,Painter,2026-01-04,Slipped,abc\n";

#[test]
fn import_scenario_skips_bad_rows_and_continues() {
    let steps = plan_csv_import(DOC.as_bytes(), 1, Some(2), &mapping()).unwrap();
    assert_eq!(steps.len(), 3);
    let mut result = ImportResult::new();
    let mut created = Vec::new();
    for step in steps {
        match step {
            ImportStep::Rejected(m) => result.record_rejection(m),
            ImportStep::Create { row, data } => {
                created.push(data);
                result.record_creation(row, Ok(()));
            }
        }
    }
    assert_eq!(result.imported, 2);
    assert_eq!(result.errors, vec!["Row 2: Missing employee name".to_string()]);
    assert_eq!(created[0].employee_name, "Bo Diaz");
    assert_eq!(created[0].description, "Imported incident");
    assert_eq!(created[0].days_away_count, Some(4));
    assert_eq!(created[0].location_id, Some(2));
    assert_eq!(created[1].employee_name, "Cy Park");
    assert_eq!(created[1].days_away_count, None);
    assert_eq!(created[1].employee_job_title.as_deref(), Some("Painter"));
}

#[test]
fn import_reports_missing_dates_and_store_errors() {
    let doc = "Name,Date\nAl,\nBea,2026-02-02\n";
    let steps = plan_csv_import(doc.as_bytes(), 1, None, &mapping()).unwrap();
    match &steps[0] {
        ImportStep::Rejected(m) => assert_eq!(m, "Row 2: Missing incident date"),
        other => panic!("unexpected {:?}", other),
    }
    let mut result = ImportResult::new();
    match &steps[1] {
        ImportStep::Create { row, .. } => {
            assert_eq!(*row, 3);
            result.record_creation(*row, Err(AppError::Validation("Incident date must be in YYYY-MM-DD format".into())));
        }
        other => panic!("unexpected {:?}", other),
    }
    assert_eq!(result.imported, 0);
    assert_eq!(result.errors, vec!["Row 3: Validation error: Incident date must be in YYYY-MM-DD format".to_string()]);
}

#[test]
fn import_rejects_ragged_rows_per_row() {
    let doc = "Name,Date\nAl,2026-01-01,extra\nBea,2026-02-02\n";
    let steps = plan_csv_import(doc.as_bytes(), 1, None, &mapping()).unwrap();
    assert_eq!(steps.len(), 2);
    assert!(matches!(&steps[0], ImportStep::Rejected(m) if m.starts_with("Row 2: ")));
    assert!(matches!(&steps[1], ImportStep::Create { row: 3, .. }));
}

#[test]
fn preview_reports_shape() {
    let mut doc = String::from("a,b\n");
    for k in 0..7 {
        doc.push_str(&format!("{},{}\n", k, k * 2));
    }
    let p = preview_csv(doc.as_bytes()).unwrap();
    assert_eq!(p.headers, vec!["a".to_string(), "b".to_string()]);
    assert_eq!(p.total_rows, 7);
    assert_eq!(p.sample_rows.len(), 5);
    assert_eq!(p.sample_rows[4], vec!["4".to_string(), "8".to_string()]);

    let bad = preview_csv("a,b\n1,2\n3\n".as_bytes());
    assert!(matches!(bad, Err(AppError::Internal(_))));
}
