use codex_meter::db::source_jsonl::{
    batch_report, has_inverted_jsonl_quota_times, merge_record, normalize_records, upsert_record,
    SourceJsonlBatchReport,
};
use codex_meter::db::{
    seed_capacity, upsert_source_app_server, SeedCapacity, SourceAppServerRecord, SourceJsonlRecord,
};
use codex_meter::json::Float;

fn rank(value: f64) -> i64 {
    let bits = value.to_bits() as i64;
    if bits < 0 {
        -(bits & i64::MAX)
    } else {
        bits
    }
}

fn float(value: f64) -> Float {
    Float {
        rank: rank(value),
        raised: rank(value + 5.0),
    }
}


fn rich_record(key: &str, suffix: &str, observed_at_ms: i64, kind: &str) -> SourceJsonlRecord {
    SourceJsonlRecord {
        source_key: key.to_owned(),
        kind: kind.to_owned(),
        observed_at_ms,
        last_seen_at_ms: Some(observed_at_ms + 1),
        session_id: Some(format!("session-{suffix}")),
        parent_session_id: Some(format!("parent-{suffix}")),
        root_session_id: Some(format!("root-{suffix}")),
        turn_id: Some(format!("turn-{suffix}")),
        relation: Some("child".to_owned()),
        title: Some(format!("title-{suffix}")),
        started_at_ms: Some(observed_at_ms + 2),
        ended_at_ms: Some(observed_at_ms + 3),
        model: Some(format!("model-{suffix}")),
        service_tier: Some(format!("tier-{suffix}")),
        reasoning_effort: Some(format!("effort-{suffix}")),
        provider: Some(format!("provider-{suffix}")),
        plan_type: Some(format!("plan-{suffix}")),
        input_tokens: Some(observed_at_ms + 4),
        cache_read_tokens: Some(observed_at_ms + 5),
        cache_write_tokens: Some(observed_at_ms + 6),
        output_tokens: Some(observed_at_ms + 7),
        reasoning_tokens: Some(observed_at_ms + 8),
        total_tokens: Some(observed_at_ms + 9),
        limit_id: Some(format!("limit-{suffix}")),
        window_kind: Some(format!("window-{suffix}")),
        used_percent: Some(float(observed_at_ms as f64 + 10.0)),
        window_minutes: Some(observed_at_ms + 11),
        resets_at_ms: Some(observed_at_ms + 12),
        quality: Some(format!("quality-{suffix}")),
    }
}

fn partial_update(key: &str) -> SourceJsonlRecord {
    SourceJsonlRecord {
        source_key: key.to_owned(),
        kind: "turn".to_owned(),
        observed_at_ms: 999,
        session_id: Some("ignored-session".to_owned()),
        title: Some("title-third".to_owned()),
        total_tokens: Some(3_333),
        quality: Some("quality-third".to_owned()),
        ..Default::default()
    }
}

/// A table of records, each under its key.
fn store(table: &mut Vec<SourceJsonlRecord>, record: &SourceJsonlRecord) {
    match table
        .iter_mut()
        .find(|held| held.source_key == record.source_key)
    {
        Some(held) => *held = upsert_record(held, record),
        None => table.push(record.copy()),
    }
}

fn store_batch(
    table: &mut Vec<SourceJsonlRecord>,
    records: Vec<SourceJsonlRecord>,
) -> SourceJsonlBatchReport {
    let keys = table.iter().map(|held| held.source_key.clone()).collect();
    let batch = normalize_records(records);
    let report = batch_report(&batch, &keys);
    for record in &batch.records {
        store(table, record);
    }
    report
}

fn copies(records: &Vec<SourceJsonlRecord>) -> Vec<SourceJsonlRecord> {
    records.iter().map(|record| record.copy()).collect()
}

#[test]
fn normalization_preserves_first_stable_fields_and_last_non_null_updates() {
    let first = rich_record("usage:one", "first", 10, "usage");
    let second = rich_record("usage:one", "second", 20, "quota");
    let third = partial_update("usage:one");

    let normalized = normalize_records(vec![first.copy(), second.copy(), third]);

    assert_eq!(normalized.input_records, 3);
    assert_eq!(normalized.merged_duplicates, 2);
    assert_eq!(normalized.records.len(), 1);
    let record = &normalized.records[0];
    assert_eq!(record.kind, first.kind);
    assert_eq!(record.observed_at_ms, first.observed_at_ms);
    assert_eq!(record.session_id, first.session_id);
    assert_eq!(record.last_seen_at_ms, second.last_seen_at_ms);
    assert_eq!(record.parent_session_id, second.parent_session_id);
    assert_eq!(record.title.as_deref(), Some("title-third"));
    assert_eq!(record.total_tokens, Some(3_333));
    assert_eq!(record.quality.as_deref(), Some("quality-third"));
}

#[test]
fn quota_normalization_keeps_earliest_observation_and_latest_confirmation() {
    let late = rich_record("quota:stable", "late", 2_000, "quota");
    let early = rich_record("quota:stable", "early", 1_000, "quota");

    let normalized = normalize_records(vec![late, early]);
    let record = &normalized.records[0];

    assert_eq!(record.observed_at_ms, 1_000);
    assert_eq!(record.last_seen_at_ms, Some(2_001));
}

#[test]
fn batch_matches_sequential_upsert_for_every_source_column() {
    let (mut sequential, mut batch) = (Vec::new(), Vec::new());
    let records = vec![
        rich_record("usage:one", "first", 10, "usage"),
        rich_record("usage:one", "second", 20, "quota"),
        partial_update("usage:one"),
        rich_record("quota:two", "quota", 30, "quota"),
    ];
    for record in &records {
        store(&mut sequential, record);
    }
    let report = store_batch(&mut batch, records);
    assert_eq!(report.inserted_events, 2);
    assert_eq!(report.duplicate_events, 2);
    assert_eq!(report.inserted_quota_samples, 1);
    assert_eq!(format!("{sequential:?}"), format!("{batch:?}"));
}

#[test]
fn batch_matches_sequential_upsert_when_keys_already_exist() {
    let existing = rich_record("usage:existing", "existing", 1, "usage");
    let (mut sequential, mut batch) = (vec![existing.copy()], vec![existing]);
    let records = vec![
        rich_record("usage:existing", "second", 2, "quota"),
        partial_update("usage:existing"),
        rich_record("quota:new", "new", 3, "quota"),
    ];
    for record in &records {
        store(&mut sequential, record);
    }
    let report = store_batch(&mut batch, records);
    assert_eq!(report.inserted_events, 1);
    assert_eq!(report.duplicate_events, 2);
    assert_eq!(report.inserted_quota_samples, 1);
    assert_eq!(format!("{sequential:?}"), format!("{batch:?}"));
}

#[test]
fn batch_handles_empty_and_more_than_one_lookup_chunk() {
    let mut table = Vec::new();
    let nothing = store_batch(&mut table, Vec::new());
    assert_eq!((nothing.inserted_events, nothing.duplicate_events), (0, 0));
    let records = (0..801)
        .map(|index| {
            rich_record(
                &format!("usage:{index}"),
                &index.to_string(),
                index,
                "usage",
            )
        })
        .collect::<Vec<_>>();
    let first = store_batch(&mut table, copies(&records));
    let second = store_batch(&mut table, records);
    assert_eq!(first.inserted_events, 801);
    assert_eq!(first.duplicate_events, 0);
    assert_eq!(second.inserted_events, 0);
    assert_eq!(second.duplicate_events, 801);
}

#[test]
fn quota_upsert_repairs_a_late_replay_observation() {
    let mut table = Vec::new();
    let mut replay = rich_record("quota:stable", "replay", 2_000, "quota");
    replay.last_seen_at_ms = Some(900);
    store_batch(&mut table, vec![replay]);
    assert!(has_inverted_jsonl_quota_times(&table));

    let original = rich_record("quota:stable", "original", 1_000, "quota");
    store_batch(&mut table, vec![original]);
    assert!(!has_inverted_jsonl_quota_times(&table));
    assert_eq!(table[0].observed_at_ms, 1_000);
}

#[test]
fn jsonl_quota_upsert_preserves_first_seen_and_updates_last_seen() {
    let quota = SourceJsonlRecord {
        source_key: "quota:stable".to_owned(),
        kind: "quota".to_owned(),
        observed_at_ms: 1_000,
        last_seen_at_ms: Some(1_000),
        limit_id: Some("weekly".to_owned()),
        window_kind: Some("primary".to_owned()),
        used_percent: Some(float(12.0)),
        ..Default::default()
    };
    let mut second = quota.copy();
    second.observed_at_ms = 2_000;
    second.last_seen_at_ms = Some(2_000);
    let row = upsert_record(&quota, &second);
    assert_eq!(row.observed_at_ms, 1_000);
    assert_eq!(row.last_seen_at_ms, Some(2_000));
    let mut merged = quota.copy();
    merge_record(&mut merged, &second);
    assert_eq!(merged.observed_at_ms, 1_000);
    assert_eq!(merged.last_seen_at_ms, Some(2_000));
}

#[test]
fn seeds_default_capacities_idempotently() {
    let credit = rank(3_200.0);
    assert_eq!(
        seed_capacity(None, None, credit),
        SeedCapacity::Create {
            weekly_credit: credit,
            confirmed_at_ms: 0
        }
    );
    assert_eq!(
        seed_capacity(Some((credit, 0)), None, credit),
        SeedCapacity::Keep
    );
}

#[test]
fn legacy_manual_capacity_is_promoted_once() {
    let (default, legacy) = (rank(64_000.0), (rank(55_000.0), 99));
    let promoted = SeedCapacity::Create {
        weekly_credit: legacy.0,
        confirmed_at_ms: 99,
    };
    assert_eq!(seed_capacity(None, Some(legacy), default), promoted);
    assert_eq!(
        seed_capacity(Some((default, 0)), Some(legacy), default),
        SeedCapacity::Promote {
            weekly_credit: legacy.0,
            confirmed_at_ms: 99
        }
    );
    let current = (rank(60_000.0), 100);
    assert_eq!(
        seed_capacity(Some(current), Some(legacy), default),
        SeedCapacity::Keep
    );
}

#[test]
fn an_account_row_keeps_when_it_was_first_seen() {
    let stored = SourceAppServerRecord {
        source_key: "account".to_owned(),
        kind: "account".to_owned(),
        first_seen_at_ms: 10,
        last_seen_at_ms: 10,
        plan_type: Some("plus".to_owned()),
        ..Default::default()
    };
    let seen = SourceAppServerRecord {
        first_seen_at_ms: 50,
        last_seen_at_ms: 50,
        plan_type: None,
        account_label: Some("label".to_owned()),
        ..stored.copy()
    };
    let row = upsert_source_app_server(&stored, &seen);
    assert_eq!(row.first_seen_at_ms, 10);
    assert_eq!(row.last_seen_at_ms, 50);
    assert_eq!(row.plan_type.as_deref(), Some("plus"));
    assert_eq!(row.account_label.as_deref(), Some("label"));
}

#[test]
fn seeding_twice_changes_nothing() {
    let after = |current: Option<(i64, i64)>, outcome: SeedCapacity| match outcome {
        SeedCapacity::Keep => current,
        SeedCapacity::Promote {
            weekly_credit,
            confirmed_at_ms,
        }
        | SeedCapacity::Create {
            weekly_credit,
            confirmed_at_ms,
        } => Some((weekly_credit, confirmed_at_ms)),
    };
    for current in [None, Some((7, 0)), Some((7, 5))] {
        for legacy in [None, Some((9, 0)), Some((9, 3))] {
            let once = after(current, seed_capacity(current, legacy, 8));
            assert!(once.is_some());
            assert_eq!(after(once, seed_capacity(once, legacy, 8)), once);
            if current == Some((7, 5)) {
                assert_eq!(once, current);
            }
        }
    }
}

#[test]
fn a_report_counts_each_new_key_once() {
    let mut table = Vec::new();
    store(&mut table, &rich_record("old", "a", 1_000, "usage"));
    let report = store_batch(
        &mut table,
        vec![
            rich_record("old", "b", 2_000, "usage"),
            rich_record("new", "a", 2_000, "usage"),
            rich_record("new", "b", 3_000, "usage"),
            rich_record("other", "a", 2_000, "turn"),
        ],
    );
    assert_eq!(report.inserted_events, 2);
    assert_eq!(report.duplicate_events, 2);
    assert_eq!(table.len(), 3);
}
