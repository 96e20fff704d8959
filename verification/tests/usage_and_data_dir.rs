use caseboard::db::{check_data_dir_override, needs_legacy_copy};
use caseboard::db::usage_dashboard::{
    aggregate_recognition_usage, ExtractionMetric,
    recognition_capabilities, validate_recognition_query, RecognitionUsageQuery, UsageDashboardError,
};
use caseboard::db::DbError;

fn query(granularity: &str, from: Option<&str>, to: Option<&str>) -> RecognitionUsageQuery {
    RecognitionUsageQuery {
        granularity: granularity.into(),
        from: from.map(str::to_string),
        to: to.map(str::to_string),
    }
}

#[test]
fn recognition_queries_are_checked() {
    assert_eq!(validate_recognition_query(&query("day", Some("2026-07-01"), Some("2026-07-28"))).unwrap(), 10);
    assert_eq!(validate_recognition_query(&query("month", Some("2026-01"), None)).unwrap(), 7);
    let e = validate_recognition_query(&query("week", None, None)).unwrap_err();
    assert_eq!(e.code, "LOCAL_USAGE_INVALID_RANGE");
    assert_eq!(e.message, "granularity 只能是 day 或 month");
    assert!(!e.retryable);
    assert_eq!(
        validate_recognition_query(&query("day", Some("2026-07"), None)).unwrap_err().message,
        "日期范围格式与 granularity 不匹配"
    );
    assert_eq!(
        validate_recognition_query(&query("month", Some("2026-13"), None)).unwrap_err().message,
        "日期范围格式与 granularity 不匹配"
    );
    assert_eq!(
        validate_recognition_query(&query("day", Some("2026-07-28"), Some("2026-07-01"))).unwrap_err().message,
        "from 不能晚于 to"
    );
}

#[test]
fn usage_errors_say_whether_to_retry() {
    assert!(UsageDashboardError::recognition_query().retryable);
    assert_eq!(UsageDashboardError::yuandian_query().code, "YUANDIAN_LOCAL_USAGE_QUERY_FAILED");
    let caps = recognition_capabilities();
    assert!(!caps.fallback_count_available && !caps.page_count_available);
    assert_eq!(caps.rate_limit_source, "redacted_error_short_pattern");
}

#[test]
fn empty_relative_or_file_override_is_rejected() {
    assert!(matches!(check_data_dir_override(Some(""), false, false, false), Err(DbError::DataDirOverrideInvalid(_))));
    match check_data_dir_override(Some("isolated"), false, false, false) {
        Err(DbError::DataDirOverrideInvalid(m)) => assert_eq!(m, "必须是绝对路径: isolated"),
        other => panic!("unexpected {other:?}"),
    }
    match check_data_dir_override(Some("/tmp/file"), true, true, false) {
        Err(DbError::DataDirOverrideInvalid(m)) => assert_eq!(m, "必须指向目录: /tmp/file"),
        other => panic!("unexpected {other:?}"),
    }
}

#[test]
fn an_absolute_directory_override_is_used() {
    assert_eq!(check_data_dir_override(Some("/data/isolated"), true, true, true).unwrap(), Some("/data/isolated".to_string()));
    assert_eq!(check_data_dir_override(Some("/data/new"), true, false, false).unwrap(), Some("/data/new".to_string()));
    assert_eq!(check_data_dir_override(None, false, false, false).unwrap(), None);
}

#[test]
fn legacy_data_is_copied_only_into_an_empty_new_directory() {

    assert!(needs_legacy_copy(false, true, false));
    assert!(!needs_legacy_copy(true, true, false));
    assert!(!needs_legacy_copy(false, false, false));
    assert!(!needs_legacy_copy(false, true, true));
}

#[test]
fn absolute_override_is_used_without_mutating_process_environment() {
    let override_dir = "/tmp/caseboard-db-test-override/isolated";
    let actual = check_data_dir_override(Some(override_dir), true, false, false).unwrap();
    assert_eq!(actual.as_deref(), Some(override_dir));
    assert_eq!(check_data_dir_override(None, false, false, false).unwrap(), None);
}

fn metric(created_at: &str, stage: &str, backend: &str, outcome: &str, elapsed: Option<i64>, error: Option<&str>) -> ExtractionMetric {
    ExtractionMetric {
        created_at: created_at.to_string(),
        stage: stage.to_string(),
        backend: backend.to_string(),
        outcome: outcome.to_string(),
        elapsed_ms: elapsed,
        error_short: error.map(|e| e.to_string()),
    }
}

#[test]
fn recognition_runs_are_grouped_latest_bucket_first() {
    let rows = vec![
        metric("2026-01-02T10:00:00", "ocr", "m1", "ok", Some(100), None),
        metric("2026-01-02T11:00:00", "ocr", "m1", "failed", Some(-1), Some("HTTP 429 Too Many")),
        metric("2026-01-03T09:00:00", "ocr", "m1", "skipped", None, Some("Rate Limit hit")),
        metric("2026-01-02T12:00:00", "asr", "m2", "partial", Some(50), Some("配额不足")),
        metric("2025-12-31T23:00:00", "ocr", "m1", "ok", Some(10), None),
    ];
    let groups = aggregate_recognition_usage(&rows, 10, Some("2026-01-01"), None);
    let keys: Vec<(&str, &str, &str)> =
        groups.iter().map(|g| (g.bucket.as_str(), g.stage.as_str(), g.provider_model.as_str())).collect();
    assert_eq!(keys, vec![("2026-01-03", "ocr", "m1"), ("2026-01-02", "asr", "m2"), ("2026-01-02", "ocr", "m1")]);
    let counts: Vec<(i64, i64, i64, i64, i64, i128, i64)> = groups
        .iter()
        .map(|g| {
            (
                g.task_count,
                g.success_count,
                g.failure_count,
                g.skipped_count,
                g.rate_limit_429_count,
                g.elapsed_total_ms,
                g.elapsed_samples,
            )
        })
        .collect();
    assert_eq!(counts, vec![(1, 0, 0, 1, 1, 0, 0), (1, 0, 1, 0, 1, 50, 1), (2, 1, 1, 0, 1, 100, 1)]);

    let months = aggregate_recognition_usage(&rows, 7, None, Some("2025-12"));
    assert_eq!(months.len(), 1);
    assert_eq!(months[0].bucket, "2025-12");
    assert_eq!(months[0].task_count, 1);
    assert!(aggregate_recognition_usage(&rows, 10, Some("2026-02-01"), None).is_empty());
}
