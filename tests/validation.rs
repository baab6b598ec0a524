use safety_records::validation::{
    export_file_name, sanitize_filename, validate_date_format, validate_days_count,
    validate_employee_count, validate_hours_worked, validate_not_empty, validate_string_length,
    validate_year,
};
use safety_records::error::AppError;

#[test]
fn test_validate_days_count() {
    assert!(validate_days_count(0, "days").is_ok());
    assert!(validate_days_count(180, "days").is_ok());
    assert!(validate_days_count(-1, "days").is_err());
    assert!(validate_days_count(181, "days").is_err());
}

#[test]
fn test_validate_year() {
    assert!(validate_year(2024).is_ok());
    assert!(validate_year(1970).is_ok());
    assert!(validate_year(2100).is_ok());
    assert!(validate_year(1969).is_err());
    assert!(validate_year(2101).is_err());
}

#[test]
fn test_validate_date_format() {
    assert!(validate_date_format("2024-01-15", "date").is_ok());
    assert!(validate_date_format("2024-02-29", "date").is_ok());
    assert!(validate_date_format("2023-02-29", "date").is_err());
    assert!(validate_date_format("2024-13-01", "date").is_err());
    assert!(validate_date_format("2024-01-32", "date").is_err());
    assert!(validate_date_format("not-a-date", "date").is_err());
    assert!(validate_date_format("2024/01/15", "date").is_err());
}

#[test]
fn test_sanitize_filename() {
    assert_eq!(sanitize_filename("valid-name"), "valid-name");
    assert_eq!(sanitize_filename("../../etc/passwd"), "etcpasswd");
    assert_eq!(sanitize_filename("file/with\\slashes"), "filewithslashes");
    assert_eq!(sanitize_filename("test<>:|?*.txt"), "test.txt");
    assert_eq!(sanitize_filename("  spaces  "), "spaces");
}

#[test]
fn test_validate_employee_count() {
    assert!(validate_employee_count(0).is_ok());
    assert!(validate_employee_count(100).is_ok());
    assert!(validate_employee_count(-1).is_err());
    assert!(validate_employee_count(2_000_000).is_err());
}

#[test]
fn test_validate_hours_worked() {
    assert!(validate_hours_worked(0).is_ok());
    assert!(validate_hours_worked(100_000).is_ok());
    assert!(validate_hours_worked(-1).is_err());
    assert!(validate_hours_worked(3_000_000_000).is_err());
}

#[test]
fn date_validation_edge_cases() {
    assert!(validate_date_format("2000-02-29", "date").is_ok());
    assert!(validate_date_format("1900-02-28", "date").is_err());
    assert!(validate_date_format("2100-02-29", "date").is_err());
    assert!(validate_date_format("2024-04-31", "date").is_err());
    assert!(validate_date_format("2024-04-30", "date").is_ok());
    assert!(validate_date_format("1969-12-31", "date").is_err());
    assert!(validate_date_format("2024-00-10", "date").is_err());
    assert!(validate_date_format("2024-1-015", "date").is_err());
    assert!(validate_date_format("2024-+1-15", "date").is_err());
    assert!(validate_date_format("02024-1-15", "date").is_err());
    assert!(validate_date_format("2024-01-1a", "date").is_err());
    assert!(validate_date_format("2024-01-15 ", "date").is_err());
    assert!(validate_date_format("", "date").is_err());
    match validate_date_format("2023-02-29", "Incident date") {
        Err(AppError::Validation(_)) => {}
        other => panic!("unexpected {:?}", other),
    }
}

#[test]
fn required_text_and_length_rules() {
    assert!(validate_not_empty("  x ", "name").is_err() == false);
    assert!(validate_not_empty(" \t\n", "name").is_err());
    assert!(validate_not_empty("", "name").is_err());
    assert!(validate_string_length("abc", 3, "name").is_ok());
    assert!(validate_string_length("abcd", 3, "name").is_err());
    // two bytes per character: the limit counts bytes
    assert!(validate_string_length("éé", 3, "name").is_err());
}

#[test]
fn validation_messages_name_the_field_and_value() {
    let e = validate_days_count(-5, "Days away").unwrap_err();
    assert_eq!(e.message(), "Validation error: Days away cannot be negative (got: -5)");
    let e = validate_days_count(181, "Days away").unwrap_err();
    assert_eq!(e.message(), "Validation error: Days away exceeds OSHA maximum of 180 days (got: 181)");
    let e = validate_string_length("abcdef", 5, "Employee name").unwrap_err();
    assert_eq!(e.message(), "Validation error: Employee name exceeds maximum length of 5 characters");
    let e = validate_year(1969).unwrap_err();
    assert_eq!(e.message(), "Validation error: Year must be between 1970 and 2100 (got: 1969)");
}

#[test]
fn sanitize_caps_length_and_export_name() {
    let long: String = std::iter::repeat('a').take(300).collect();
    assert_eq!(sanitize_filename(&long).len(), 255);
    assert_eq!(sanitize_filename("a....b"), "ab");
    assert_eq!(export_file_name("OSHA_300_Acme/Co_2026", "..csv").unwrap(), "OSHA_300_AcmeCo_2026.csv");
    assert!(matches!(export_file_name("../..", "csv"), Err(AppError::Validation(_))));
}
