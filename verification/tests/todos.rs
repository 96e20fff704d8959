use caseboard::db::todos::{
    check_list_state, compatible_due_at, copy_target, normalize_date, normalize_tags, normalize_timestamp,
    projected_due_date, restored_status, trimmed_optional, validate_choice,
};

#[test]
fn compatibility_date_uses_shanghai_calendar_day() {
    assert_eq!(
        projected_due_date(Some("2026-08-17T16:00:00Z"), None).as_deref(),
        Some("2026-08-18")
    );
}

#[test]
fn the_legacy_date_is_kept_without_a_due_time() {
    assert_eq!(projected_due_date(None, Some("2026-01-02".into())).as_deref(), Some("2026-01-02"));
    assert_eq!(projected_due_date(Some("2026-08-17T15:59:59Z"), None).as_deref(), Some("2026-08-17"));
}

#[test]
fn blank_text_is_absent() {
    assert_eq!(trimmed_optional(Some("  x  ".into())), Some("x".to_string()));
    assert_eq!(trimmed_optional(Some("   ".into())), None);
    assert_eq!(trimmed_optional(None), None);
}

#[test]
fn choices_come_from_the_allowed_set() {
    assert!(validate_choice("todo", &["todo", "note"], "TODO_INVALID_KIND").is_ok());
    let e = validate_choice("task", &["todo", "note"], "TODO_INVALID_KIND").unwrap_err();
    assert_eq!(e.code, "TODO_INVALID_KIND");
}

#[test]
fn tags_are_trimmed_deduplicated_and_sorted() {
    assert_eq!(
        normalize_tags(Some(vec![" 紧急 ".into(), "文书".into(), "".into(), "紧急".into()])).unwrap(),
        "[\"文书\",\"紧急\"]"
    );
    assert_eq!(normalize_tags(None).unwrap(), "[]");
}

#[test]
fn dates_and_times_are_checked() {
    assert_eq!(normalize_date(Some("2026-02-28".into())).unwrap(), Some("2026-02-28".to_string()));
    assert_eq!(normalize_date(Some("2026-02-30".into())).unwrap_err().code, "TODO_INVALID_DATE");
    assert_eq!(normalize_date(Some("  ".into())).unwrap(), None);
    assert_eq!(
        normalize_timestamp(Some("2026-08-17T16:00:00Z".into()), "TODO_INVALID_DUE_AT").unwrap(),
        Some("2026-08-17T16:00:00+00:00".to_string())
    );
    assert_eq!(
        normalize_timestamp(Some("2026-08-17 16:00".into()), "TODO_INVALID_DUE_AT").unwrap_err().message,
        "时间必须包含明确时区"
    );
    assert!(compatible_due_at(None, Some("2026-08-18".into())).unwrap().is_some());
}

#[test]
fn list_states_and_restores() {
    assert!(check_list_state(Some("deleted")).is_ok());
    assert!(check_list_state(Some("archived-ish")).is_err());
    assert_eq!(restored_status(0), "inbox");
    assert_eq!(restored_status(1), "completed");
}

#[test]
fn a_copy_needs_a_case() {
    assert_eq!(copy_target(Some("case-a"), None).unwrap(), "case-a");
    assert!(copy_target(None, None).is_err());
}
