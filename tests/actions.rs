use safety_records::actions::{
    create_corrective_action, get_corrective_action_summary, update_corrective_action,
    CreateCorrectiveAction, UpdateCorrectiveAction,
};

#[test]
fn test_corrective_actions() {
    let inc_id = 1;
    let action = create_corrective_action(
        1,
        CreateCorrectiveAction {
            incident_id: inc_id,
            rca_session_id: None,
            description: "Implement scaffold checklist".into(),
            assigned_to: Some("Safety Manager".into()),
            due_date: Some("2026-02-01".into()),
        },
        "2026-01-10 09:00:00".into(),
    );
    assert_eq!(action.status, "open");

    let updated = update_corrective_action(
        action,
        UpdateCorrectiveAction {
            status: Some("completed".into()),
            completed_date: Some("2026-01-25".into()),
            description: None,
            assigned_to: None,
            due_date: None,
            notes: None,
        },
        "2026-01-25 17:00:00".into(),
    );
    assert_eq!(updated.status, "completed");
    assert_eq!(updated.completed_date.as_deref(), Some("2026-01-25"));
    assert_eq!(updated.updated_at, "2026-01-25 17:00:00");

    let actions = vec![updated];
    assert_eq!(actions.len(), 1);
    let s = get_corrective_action_summary(&actions, "2026-03-01");
    assert_eq!((s.open, s.in_progress, s.completed, s.overdue), (0, 0, 1, 0));
}
