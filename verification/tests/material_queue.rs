use caseboard::db::material_queue::{
    cancel_batch, check_batch_items, check_decisions, claim_next, execution_allowed,
    ignore_failed_items, pause_batch, recover_interrupted, resume_batch, sanitize_error_summary,
    settle_item, start_batch, validate_disposition, validate_error_category, MaterialDecisionInput,
    MaterialQueueItemInput, QueueBatch, QueueItem, QueueStatus,
};

fn item(id: &str, path: &str) -> QueueItem {
    QueueItem {
        id: id.into(),
        source_path: path.into(),
        document_id: None,
        status: QueueStatus::Queued,
        claim_token: None,
        error_category: None,
        error_summary: None,
    }
}

fn batch(id: &str, paths: &[&str]) -> QueueBatch {
    QueueBatch {
        id: id.into(),
        case_id: "case-1".into(),
        status: QueueStatus::Queued,
        items: paths
            .iter()
            .enumerate()
            .map(|(i, p)| item(&format!("{id}-item-{i}"), p))
            .collect(),
    }
}

#[test]
fn error_summary_is_redacted_and_bounded() {
    let input = format!(
        "HTTP 429 https://vendor.test/run?api_key=plain \
         Authorization: abc Bearer very.secret.token password=hunter2 {}",
        "x".repeat(600)
    );
    let safe = sanitize_error_summary(Some(&input)).unwrap();
    assert!(!safe.contains("plain"));
    assert!(!safe.contains("abc"));
    assert!(!safe.contains("very.secret.token"));
    assert!(!safe.contains("hunter2"));
    assert!(safe.chars().count() <= 501);
}

#[test]
fn blank_summaries_are_dropped_and_whitespace_flattened() {
    assert_eq!(sanitize_error_summary(Some("   ")), None);
    assert_eq!(sanitize_error_summary(None), None);
    assert_eq!(
        sanitize_error_summary(Some("  a \n\t b  ")).as_deref(),
        Some("a b")
    );
}

#[test]
fn pause_and_cancel_are_claim_boundaries() {
    let mut b = batch("b1", &["a.pdf", "b.pdf"]);
    start_batch(&mut b).unwrap();
    let (active, _) = claim_next(&mut b, "token-1".into()).unwrap();
    pause_batch(&mut b).unwrap();
    assert!(b.items.iter().all(|i| i.status == QueueStatus::Paused));
    assert!(!execution_allowed(&b, active, "token-1"));
    assert!(claim_next(&mut b, "token-2".into()).is_none());
    resume_batch(&mut b).unwrap();
    assert!(b.items.iter().all(|i| i.status == QueueStatus::Queued));
    assert!(claim_next(&mut b, "token-3".into()).is_none());
    start_batch(&mut b).unwrap();
    let (first, _) = claim_next(&mut b, "token-4".into()).unwrap();
    cancel_batch(&mut b).unwrap();
    assert!(b.items.iter().all(|i| i.status == QueueStatus::Cancelled));
    assert!(!execution_allowed(&b, first, "token-4"));
    assert!(claim_next(&mut b, "token-5".into()).is_none());
}

#[test]
fn claim_is_idempotent_across_workers() {
    let mut b = batch("b1", &["one.pdf"]);
    start_batch(&mut b).unwrap();
    assert!(claim_next(&mut b, "w1".into()).is_some());
    assert!(claim_next(&mut b, "w2".into()).is_none());
}

#[test]
fn stale_claim_token_cannot_finish_item() {
    let mut b = batch("b1", &["one.pdf"]);
    start_batch(&mut b).unwrap();
    let (k, _) = claim_next(&mut b, "right".into()).unwrap();
    let err = settle_item(&mut b, k, "wrong-token", QueueStatus::Completed, None, None).unwrap_err();
    assert!(err.contains("失去领取权"));
    assert_eq!(b.items[k].status, QueueStatus::Running);
}

#[test]
fn startup_recovery_never_requeues_or_claims() {
    let mut batches = vec![batch("b1", &["one.pdf"])];
    start_batch(&mut batches[0]).unwrap();
    claim_next(&mut batches[0], "t".into()).unwrap();
    let (result, events) = recover_interrupted(&mut batches);
    assert_eq!((result.batches, result.items), (1, 1));
    assert_eq!(events.len(), 2);
    assert_eq!(batches[0].status, QueueStatus::RecoveryRequired);
    assert_eq!(batches[0].items[0].status, QueueStatus::RecoveryRequired);
    assert!(batches[0].items[0].claim_token.is_none());
    assert!(claim_next(&mut batches[0], "t2".into()).is_none());
    resume_batch(&mut batches[0]).unwrap();
    assert_eq!(batches[0].status, QueueStatus::Queued);
    assert_eq!(batches[0].items[0].status, QueueStatus::Queued);
    assert!(claim_next(&mut batches[0], "t3".into()).is_none());
    start_batch(&mut batches[0]).unwrap();
    assert!(claim_next(&mut batches[0], "t4".into()).is_some());
}

#[test]
fn completed_results_survive_cancel() {
    let mut b = batch("b1", &["done.pdf", "waiting.pdf"]);
    start_batch(&mut b).unwrap();
    let (k, _) = claim_next(&mut b, "t".into()).unwrap();
    settle_item(&mut b, k, "t", QueueStatus::Completed, None, None).unwrap();
    cancel_batch(&mut b).unwrap();
    assert_eq!(b.items[0].status, QueueStatus::Completed);
    assert_eq!(b.items[1].status, QueueStatus::Cancelled);
}

#[test]
fn last_settled_item_settles_the_batch() {
    let mut b = batch("b1", &["a.pdf", "b.pdf"]);
    start_batch(&mut b).unwrap();
    let (k0, _) = claim_next(&mut b, "t0".into()).unwrap();
    let (k1, _) = claim_next(&mut b, "t1".into()).unwrap();
    let ev = settle_item(&mut b, k0, "t0", QueueStatus::Completed, None, None).unwrap();
    assert_eq!(ev.len(), 1);
    assert_eq!(b.status, QueueStatus::Running);
    let ev = settle_item(
        &mut b,
        k1,
        "t1",
        QueueStatus::Failed,
        Some("ocr_timeout".into()),
        None,
    )
    .unwrap();
    assert_eq!(ev.len(), 2);
    assert_eq!(b.status, QueueStatus::Failed);
}

#[test]
fn ignore_failed_is_atomic_audited_and_recomputes_all_affected_batches() {
    let mut first = batch("b1", &["done.pdf", "bad.pdf"]);
    first.items[0].document_id = Some("doc-done".into());
    first.items[1].document_id = Some("doc-bad".into());
    start_batch(&mut first).unwrap();
    let (k0, _) = claim_next(&mut first, "a".into()).unwrap();
    let (k1, _) = claim_next(&mut first, "b".into()).unwrap();
    settle_item(&mut first, k0, "a", QueueStatus::Completed, None, None).unwrap();
    settle_item(&mut first, k1, "b", QueueStatus::Failed, Some("ocr".into()), None).unwrap();
    assert_eq!(first.status, QueueStatus::Failed);
    let second = batch("b2", &["bad.pdf"]);
    let mut batches = vec![first, second];
    let outcome = ignore_failed_items(&mut batches, 0, Some(" ocr ")).unwrap();
    assert_eq!(outcome.excluded.len(), 1);
    assert_eq!(outcome.excluded[0].0, "bad.pdf");
    assert_eq!(outcome.excluded[0].1.as_deref(), Some("doc-bad"));
    assert_eq!(batches[0].items[1].status, QueueStatus::Cancelled);
    assert_eq!(batches[0].items[0].status, QueueStatus::Completed);
    assert_eq!(batches[0].status, QueueStatus::Completed);
    assert_eq!(batches[1].items[0].status, QueueStatus::Cancelled);
    assert_eq!(batches[1].status, QueueStatus::Cancelled);
    assert!(outcome.events.len() >= 4);
    let kinds: Vec<(usize, &str)> = outcome.events.iter().map(|(b, e)| (*b, e.event_type)).collect();
    assert_eq!(
        kinds,
        vec![
            (0, "item_ignored"),
            (1, "item_ignored"),
            (0, "batch_recomputed_after_ignore"),
            (1, "batch_recomputed_after_ignore"),
        ]
    );
    assert_eq!(outcome.events[0].1.from_status, Some(QueueStatus::Failed));
    assert_eq!(outcome.events[2].1.to_status, QueueStatus::Completed);
}

#[test]
fn ignore_with_another_category_changes_nothing() {
    let mut b = batch("b1", &["bad.pdf"]);
    start_batch(&mut b).unwrap();
    let (k, _) = claim_next(&mut b, "a".into()).unwrap();
    settle_item(&mut b, k, "a", QueueStatus::Failed, Some("ocr".into()), None).unwrap();
    let mut batches = vec![b];
    let outcome = ignore_failed_items(&mut batches, 0, Some("network")).unwrap();
    assert!(outcome.excluded.is_empty());
    assert!(outcome.events.is_empty());
    assert_eq!(batches[0].items[0].status, QueueStatus::Failed);
    assert!(ignore_failed_items(&mut batches, 0, Some("bad category!")).is_err());
}

#[test]
fn inputs_are_validated() {
    assert!(validate_disposition("recognize").is_ok());
    assert_eq!(
        validate_disposition("other").unwrap_err(),
        "不支持的材料纳入状态: other"
    );
    assert_eq!(validate_error_category(Some("  ")).unwrap(), None);
    assert_eq!(
        validate_error_category(Some(" ocr.timeout-1 ")).unwrap().as_deref(),
        Some("ocr.timeout-1")
    );
    assert!(validate_error_category(Some("空格 不行")).is_err());
    assert!(validate_error_category(Some(&"a".repeat(65))).is_err());
    let decisions = vec![MaterialDecisionInput {
        source_path: " ".into(),
        disposition: "recognize".into(),
        document_id: None,
    }];
    assert_eq!(check_decisions(&decisions).unwrap_err(), "材料路径不能为空");
    let items = vec![MaterialQueueItemInput {
        source_path: "index.pdf".into(),
        document_id: None,
    }];
    assert!(check_batch_items(&items, &[Some("index_only".into())])
        .unwrap_err()
        .contains("只有 recognize"));
    assert!(check_batch_items(&items, &[Some("recognize".into())]).is_ok());
    assert_eq!(
        check_batch_items(&[], &[]).unwrap_err(),
        "识别批次至少需要一份材料"
    );
    assert_eq!(QueueStatus::parse("paused"), Some(QueueStatus::Paused));
    assert_eq!(QueueStatus::parse("bogus"), None);
}
