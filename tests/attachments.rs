use safety_records::attachments::plan_attachment;
use safety_records::error::AppError;

#[test]
fn attachment_names_are_sanitised_and_prefixed() {
    let plan = plan_attachment(42, "site photo?.jpg", "photo", 1024).unwrap();
    assert_eq!(plan.stored_name, "42_site photo.jpg");
    assert_eq!(plan.relative_path, "attachments/42_site photo.jpg");
}

#[test]
fn attachments_are_checked_before_storing() {
    assert!(matches!(plan_attachment(1, "a.txt", "video", 10), Err(AppError::Validation(_))));
    assert!(matches!(plan_attachment(1, "..", "document", 10), Err(AppError::Validation(_))));
    assert!(plan_attachment(1, "a.txt", "document", 52_428_800).is_ok());
    assert!(matches!(plan_attachment(1, "a.txt", "audio", 52_428_801), Err(AppError::Validation(_))));
}
