use codex_meter::calendar::Date;
use codex_meter::db::source_jsonl::{batch_report, normalize_records, upsert_record};
use codex_meter::db::SourceJsonlRecord;
use codex_meter::json::{Float, Json, Number};
use codex_meter::ordered::OrderedMap;
use codex_meter::pipelines::source::jsonl::fast::{
    cursor_digest, gather_usage, is_unchanged, needs_replay, parent_graph, parents_to_read,
    parsed_file, path_date, read_headers, read_lines, resume, sample_ranges, scan_records,
    scan_report, select_candidates, unchanged_file, CursorState, LogFile, ParsedFile,
};
use codex_meter::pipelines::source::jsonl::lines::{has_json_type, likely_relevant, scan_lines};
use codex_meter::pipelines::source::jsonl::{
    default_from_date, nanos_to_millis, parse_date, parse_timestamp, read_index_entry,
    read_spawn_edge, read_thread, records_at, records_for_line, repaired_root,
    resolve_root_session_id, FileContext, JsonlCollector, JsonlError, LocalSessionMetadata,
};

fn rank(value: f64) -> i64 {
    let bits = value.to_bits() as i64;
    if bits < 0 {
        -(bits & i64::MAX)
    } else {
        bits
    }
}

fn float(value: f64) -> Float {
    Float {
        rank: rank(value),
        raised: rank(value + 5.0),
    }
}

fn number(value: &serde_json::Number) -> Json {
    let float_value = value.as_f64().unwrap();
    Json::Number(Number {
        integer: value.as_i64(),
        truncated: value.as_i64().unwrap_or(float_value as i64),
        float: float(float_value),
        float_text: format!("{float_value:?}"),
        text: value.to_string(),
    })
}

fn json(value: &serde_json::Value) -> Json {
    match value {
        serde_json::Value::Null => Json::Null,
        serde_json::Value::Bool(flag) => Json::Bool(*flag),
        serde_json::Value::Number(value) => number(value),
        serde_json::Value::String(text) => Json::Text(text.clone()),
        serde_json::Value::Array(items) => Json::Array(items.iter().map(json).collect()),
        serde_json::Value::Object(members) => Json::Object(
            members
                .iter()
                .map(|(key, member)| (key.clone(), json(member)))
                .collect(),
        ),
    }
}

fn parse(text: &str) -> Json {
    json(&serde_json::from_str(text).unwrap())
}


fn records(text: &str, context: &mut FileContext) -> Vec<SourceJsonlRecord> {
    records_for_line(&parse(text), context).unwrap()
}

fn usage_total(records: &Vec<SourceJsonlRecord>) -> Option<i64> {
    records
        .iter()
        .find(|record| record.kind == "usage")
        .and_then(|record| record.total_tokens)
}

fn cumulative(timestamp: &str, total: i64) -> String {
    format!(
        r#"{{"timestamp":"{timestamp}","type":"event_msg","payload":{{"type":"token_count","info":{{"total_token_usage":{{"input_tokens":{total},"output_tokens":0,"total_tokens":{total}}}}}}}}}"#
    )
}

fn both_counts(timestamp: &str, total: i64, last: i64) -> String {
    format!(
        r#"{{"timestamp":"{timestamp}","type":"event_msg","payload":{{"type":"token_count","info":{{"last_token_usage":{{"input_tokens":{last},"output_tokens":0,"total_tokens":{last}}},"total_token_usage":{{"input_tokens":{total},"output_tokens":0,"total_tokens":{total}}}}}}}}}"#
    )
}

#[test]
fn parses_turn_and_usage_without_payload_storage() {
    let mut context = FileContext::default();
    let session = records(
        r#"{"timestamp":"2026-08-04T06:41:51.881Z","type":"session_meta","payload":{"id":"s1","title":"hello"}}"#,
        &mut context,
    );
    assert_eq!(session[0].kind, "session");
    let usage = records(
        r#"{"timestamp":"2026-08-04T06:42:00Z","type":"event_msg","payload":{"type":"token_count","info":{"last_token_usage":{"input_tokens":10,"cached_input_tokens":2,"output_tokens":3,"total_tokens":13}}}}"#,
        &mut context,
    );
    assert_eq!(usage_total(&usage), Some(13));
}

#[test]
fn parses_codex_resets_at_seconds_into_milliseconds() {
    let mut context = FileContext::default();
    let made = records(
        r#"{"timestamp":"2026-08-04T06:42:00Z","type":"event_msg","payload":{"type":"token_count","info":{"last_token_usage":{"input_tokens":10,"output_tokens":2,"total_tokens":12}},"rate_limits":{"plan_type":"plus","limit_id":"codex","primary":{"used_percent":12,"window_minutes":10080,"resets_at":1786351410}}}}"#,
        &mut context,
    );
    let quota = made
        .into_iter()
        .find(|record| record.kind == "quota")
        .expect("quota record");
    assert_eq!(quota.resets_at_ms, Some(1_786_351_410_000));
    assert_eq!(quota.used_percent, Some(float(12.0)));
}

#[test]
fn cumulative_usage_is_diffed() {
    let mut context = FileContext::default();
    let a = records(&cumulative("2026-08-04T06:42:00Z", 10), &mut context);
    let b = records(&cumulative("2026-08-04T06:42:00Z", 15), &mut context);
    assert_eq!(usage_total(&a), Some(10));
    assert_eq!(usage_total(&b), Some(5));
}

#[test]
fn repeated_cumulative_snapshot_does_not_recount_last_usage() {
    let mut context = FileContext::default();
    let a = records(&both_counts("2026-08-04T06:42:00Z", 100, 100), &mut context);
    let b = records(&both_counts("2026-08-04T06:43:00Z", 140, 40), &mut context);
    let c = records(&both_counts("2026-08-04T06:44:00Z", 140, 40), &mut context);
    assert_eq!(usage_total(&a), Some(100));
    assert_eq!(usage_total(&b), Some(40));
    assert!(c.iter().all(|row| row.kind != "usage"));
}

#[test]
fn unknown_settings_tier_clears_inherited_state() {
    let mut context = FileContext::default();
    records(
        r#"{"timestamp":"2026-08-04T06:42:00Z","type":"event_msg","payload":{"type":"thread_settings_applied","thread_settings":{"service_tier":"fast"}}}"#,
        &mut context,
    );
    assert_eq!(context.tier.as_deref(), Some("fast"));
    records(
        r#"{"timestamp":"2026-08-04T06:43:00Z","type":"event_msg","payload":{"type":"thread_settings_applied","thread_settings":{"service_tier":"future-tier"}}}"#,
        &mut context,
    );
    assert_eq!(context.tier, None);
}

#[test]
fn ignores_total_only_usage_snapshot() {
    let mut context = FileContext::default();
    let made = records(
        r#"{"timestamp":"2026-08-04T06:42:00Z","type":"event_msg","payload":{"type":"token_count","info":{"last_token_usage":{"total_tokens":16096}}}}"#,
        &mut context,
    );
    assert!(made.iter().all(|record| record.kind != "usage"));
}

#[test]
fn session_meta_prefers_current_id_over_parent_thread_id() {
    let mut context = FileContext::default();
    let record = records(
        r#"{"timestamp":"2026-08-04T06:42:00Z","type":"session_meta","payload":{"id":"child","session_id":"parent","parent_thread_id":"parent"}}"#,
        &mut context,
    )
    .into_iter()
    .find(|record| record.kind == "session")
    .unwrap();
    assert_eq!(record.session_id.as_deref(), Some("child"));
    assert_eq!(record.parent_session_id.as_deref(), Some("parent"));
    assert_eq!(record.relation.as_deref(), Some("child"));
}

fn graph(edges: &[(&str, &str)]) -> OrderedMap<String, String> {
    let mut graph = OrderedMap::new();
    for (child, parent) in edges {
        graph.put(child.to_string(), parent.to_string());
    }
    graph
}

#[test]
fn resolves_root_session_through_the_complete_parent_chain() {
    let graph = graph(&[("child", "parent"), ("parent", "root")]);
    assert_eq!(
        resolve_root_session_id("child", None, &graph).as_deref(),
        Some("root")
    );
    assert_eq!(
        resolve_root_session_id("root", None, &graph).as_deref(),
        Some("root")
    );
}

#[test]
fn rejects_parent_cycles_instead_of_persisting_an_intermediate_root() {
    let graph = graph(&[("a", "b"), ("b", "a")]);
    assert!(resolve_root_session_id("a", None, &graph).is_none());
}

#[test]
fn stored_roots_are_repaired_along_the_graph() {
    let graph = graph(&[("child", "parent"), ("parent", "root")]);
    let stored = Some("parent".to_owned());
    let repaired = repaired_root("child", None, &stored, &graph).unwrap();
    assert_eq!(repaired.as_deref(), Some("root"));
    assert!(repaired_root("child", None, &repaired, &graph).is_none());
}

#[test]
fn cumulative_counter_reset_keeps_the_new_baseline() {
    let mut context = FileContext::default();
    let a = records(&cumulative("2026-08-04T06:42:00Z", 100), &mut context);
    let b = records(&cumulative("2026-08-04T06:43:00Z", 140), &mut context);
    let c = records(&cumulative("2026-08-04T06:44:00Z", 10), &mut context);
    assert_eq!(usage_total(&a), Some(100));
    assert_eq!(usage_total(&b), Some(40));
    let reset_row = c.iter().find(|row| row.kind == "usage").unwrap();
    assert_eq!(reset_row.total_tokens, Some(10));
    assert_eq!(
        reset_row.quality.as_deref(),
        Some("derived_from_cumulative,counter_reset")
    );
}

#[test]
fn turn_records_keep_parent_effort_and_abort_boundary() {
    let mut context = FileContext::default();
    records(
        r#"{"timestamp":"2026-08-04T06:41:51.881Z","type":"session_meta","payload":{"id":"child","parent_thread_id":"root"}}"#,
        &mut context,
    );
    records(
        r#"{"timestamp":"2026-08-04T06:42:00Z","type":"event_msg","payload":{"type":"thread_settings_applied","thread_settings":{"model":"gpt-5.6-sol","reasoning_effort":"high","service_tier":"fast"}}}"#,
        &mut context,
    );
    let row = records(
        r#"{"timestamp":"2026-08-04T06:42:01Z","type":"event_msg","payload":{"type":"task_started","turn_id":"turn-1"}}"#,
        &mut context,
    )
    .into_iter()
    .find(|row| row.kind == "turn")
    .unwrap();
    assert_eq!(row.parent_session_id.as_deref(), Some("root"));
    assert_eq!(row.relation.as_deref(), Some("child"));
    assert_eq!(row.reasoning_effort.as_deref(), Some("high"));
    assert_eq!(row.service_tier.as_deref(), Some("fast"));

    let row = records(
        r#"{"timestamp":"2026-08-04T06:42:02Z","type":"event_msg","payload":{"type":"task_aborted","turn_id":"turn-1"}}"#,
        &mut context,
    )
    .into_iter()
    .find(|row| row.kind == "turn")
    .unwrap();
    assert!(row.ended_at_ms.is_some());
    assert_eq!(row.quality.as_deref(), Some("aborted"));
}

#[test]
fn cumulative_replay_with_a_different_timestamp_has_one_key() {
    let key = |timestamp: &str| {
        let line = format!(
            r#"{{"timestamp":"{timestamp}","type":"event_msg","payload":{{"type":"token_count","info":{{"last_token_usage":{{"input_tokens":10,"output_tokens":2,"total_tokens":12}},"total_token_usage":{{"input_tokens":20,"output_tokens":4,"total_tokens":24}}}}}}}}"#
        );
        let mut context = FileContext::default();
        records(&line, &mut context)
            .into_iter()
            .find(|row| row.kind == "usage")
            .unwrap()
            .source_key
    };
    assert_eq!(key("2026-08-04T06:42:00Z"), key("2026-08-04T06:42:03Z"));
}

#[test]
fn lines_without_a_time_stamp_change_nothing() {
    let mut context = FileContext::default();
    let line = parse(r#"{"type":"session_meta","payload":{"id":"s1"}}"#);
    assert!(matches!(
        records_for_line(&line, &mut context),
        Err(JsonlError::Timestamp(_))
    ));
    assert_eq!(context.session_id, None);
    assert_eq!(
        parse_timestamp(Some(&parse("\"1970-01-01T00:00:01.5Z\""))).unwrap(),
        1_500
    );
}

#[test]
fn parses_jsonl_from_date_inclusive() {
    assert_eq!(parse_date("2026-08-01").unwrap().to_text(), "2026-08-01");
    assert!(parse_date("2026-13-01").is_err());
    assert!(parse_date("2026-08-01-extra").is_err());
}

/// A directory of logs that is scanned like one on disk.
struct Disk {
    logs: Vec<(String, String, Option<i64>)>,
    index: Vec<String>,
    cursors: OrderedMap<String, CursorState>,
    stored: Vec<SourceJsonlRecord>,
    scanned: bool,
    from: Option<Date>,
}

impl Disk {
    fn new(logs: Vec<(&str, String, Option<i64>)>) -> Disk {
        Disk {
            logs: logs
                .into_iter()
                .map(|(path, text, mtime)| (path.to_owned(), text, mtime))
                .collect(),
            index: Vec::new(),
            cursors: OrderedMap::new(),
            stored: Vec::new(),
            scanned: false,
            from: None,
        }
    }

    fn digest(bytes: &[u8], length: u64) -> String {
        let (first, tail) = sample_ranges(length);
        let tail = match tail {
            Some((start, len)) => bytes[start as usize..(start + len) as usize].to_vec(),
            None => Vec::new(),
        };
        cursor_digest(&bytes[..first as usize].to_vec(), &tail)
    }

    fn values(lines: &Vec<Vec<u8>>) -> Vec<Option<Json>> {
        lines
            .iter()
            .map(|line| {
                serde_json::from_slice::<serde_json::Value>(line)
                    .ok()
                    .map(|value| json(&value))
            })
            .collect()
    }

    fn parse(
        path: &str,
        text: &str,
        mtime: Option<i64>,
        existing: &Option<CursorState>,
    ) -> ParsedFile {
        let bytes = text.as_bytes();
        let length = bytes.len() as u64;
        if is_unchanged(existing, length, mtime) {
            return unchanged_file(path, existing.as_ref().unwrap());
        }
        let held = existing.as_ref().and_then(|cursor| {
            (cursor.offset_bytes <= length).then(|| Disk::digest(bytes, cursor.offset_bytes))
        });
        let (start, context) = resume(existing, length, &held);
        let scan = scan_lines(&bytes[start as usize..].to_vec(), false);
        let read = read_lines(&Disk::values(&scan.relevant), context);
        let next = start + scan.complete_bytes as u64;
        let digest = (next > 0).then(|| Disk::digest(bytes, next));
        parsed_file(
            path,
            read,
            start,
            scan.complete_bytes as u64,
            scan.complete_lines,
            mtime,
            digest,
            existing.is_none(),
        )
    }

    fn scan(&mut self) -> codex_meter::pipelines::source::jsonl::JsonlScanReport {
        let mut metadata: OrderedMap<String, LocalSessionMetadata> = OrderedMap::new();
        for line in &self.index {
            read_index_entry(&mut metadata, &parse(line));
        }
        let files: Vec<LogFile> = self
            .logs
            .iter()
            .map(|(path, text, mtime)| {
                let lines: Vec<Vec<u8>> = text
                    .lines()
                    .map(|line| line.as_bytes().to_vec())
                    .filter(|line| has_json_type(line, "session_meta"))
                    .collect();
                LogFile {
                    path: path.clone(),
                    header: read_headers(&Disk::values(&lines)),
                    mtime_ms: *mtime,
                }
            })
            .collect();
        let graph = parent_graph(&files, &metadata);
        let candidates = select_candidates(&files, &self.cursors, self.from);
        let replay = needs_replay(!self.scanned, &candidates);
        let parsed: Vec<ParsedFile> = candidates
            .iter()
            .map(|(path, existing)| {
                let (_, text, mtime) = self.logs.iter().find(|log| &log.0 == path).unwrap();
                Disk::parse(path, text, *mtime, existing)
            })
            .collect();
        let mut usage = gather_usage(&parsed, &files);
        for (path, id) in parents_to_read(&parsed, &files) {
            let (_, text, _) = self.logs.iter().find(|log| log.0 == path).unwrap();
            let scan = scan_lines(&text.as_bytes().to_vec(), true);
            let read = read_lines(&Disk::values(&scan.relevant), FileContext::default());
            usage.put(id, read.usage_events);
        }
        let records = scan_records(
            &parsed, &files, &usage, replay, &metadata, &graph, self.from,
        );
        let recognized = records.len();
        let batch = normalize_records(records);
        let keys = self
            .stored
            .iter()
            .map(|record| record.source_key.clone())
            .collect();
        let report = batch_report(&batch, &keys);
        for record in batch.records {
            match self
                .stored
                .iter_mut()
                .find(|held| held.source_key == record.source_key)
            {
                Some(held) => *held = upsert_record(held, &record),
                None => self.stored.push(record),
            }
        }
        let made = scan_report(&parsed, recognized, &report);
        for file in parsed {
            self.cursors.put(file.path.clone(), file.cursor);
        }
        self.scanned = true;
        made
    }
}

#[test]
fn scan_is_incremental_and_enriches_local_title() {
    let lines = [
        r#"{"timestamp":"2026-08-04T06:41:51Z","type":"session_meta","payload":{"id":"child","parent_thread_id":"root"}}"#,
        r#"{"timestamp":"2026-08-04T06:42:00Z","type":"event_msg","payload":{"type":"thread_settings_applied","thread_settings":{"model":"gpt-5.6-sol","reasoning_effort":"high","service_tier":"fast"}}}"#,
        r#"{"timestamp":"2026-08-04T06:42:01Z","type":"event_msg","payload":{"type":"task_started","turn_id":"turn-1"}}"#,
        r#"{"timestamp":"2026-08-04T06:42:02Z","type":"event_msg","payload":{"type":"token_count","info":{"last_token_usage":{"input_tokens":10,"output_tokens":2,"total_tokens":12}},"rate_limits":{"plan_type":"plus","limit_id":"weekly","primary":{"used_percent":12,"window_minutes":10080,"resets_at_ms":1786351410000}}}}"#,
        r#"{"timestamp":"2026-08-04T06:42:03Z","type":"event_msg","payload":{"type":"task_complete","turn_id":"turn-1"}}"#,
    ];
    let path = "/home/sessions/2026/08/rollout-child.jsonl";
    let mut disk = Disk::new(vec![(path, format!("{}\n", lines.join("\n")), Some(1))]);
    disk.index = vec![r#"{"id":"child","thread_name":"标题补充"}"#.to_owned()];
    let first = disk.scan();
    let second = disk.scan();
    assert!(first.inserted_events >= 4);
    assert_eq!(second.inserted_events, 0);
    assert_eq!(second.duplicate_events, 0);

    let session = disk.stored.iter().find(|row| row.kind == "session").unwrap();
    assert_eq!(session.title.as_deref(), Some("标题补充"));
    assert_eq!(session.parent_session_id.as_deref(), Some("root"));
    let usage = disk.stored.iter().find(|row| row.kind == "usage").unwrap();
    assert_eq!(usage.reasoning_effort.as_deref(), Some("high"));

    // what is appended is read with what was read before in mind
    disk.logs[0].1.push_str(&both_counts("2026-08-04T06:43:00Z", 42, 30));
    disk.logs[0].2 = Some(2);
    assert_eq!(disk.scan().inserted_events, 0);
    disk.logs[0].1.push('\n');
    disk.logs[0].2 = Some(3);
    let third = disk.scan();
    assert_eq!(third.complete_lines, 1);
    assert_eq!(third.inserted_events, 1);
    let last = disk.stored.last().unwrap();
    assert_eq!(last.session_id.as_deref(), Some("child"));
    assert_eq!(last.service_tier.as_deref(), Some("fast"));

    // a log that was cut is read anew, and nothing is counted twice
    disk.logs[0].1 = format!("{}\n", lines[..4].join("\n"));
    disk.logs[0].2 = Some(4);
    let rows = disk.stored.len();
    disk.scan();
    assert_eq!(disk.stored.len(), rows);
}

#[test]
fn scan_filters_a_child_replay_prefix_using_parent_usage() {
    let usage = |timestamp: &str, last: i64, total: i64, used_percent: f64| {
        let limits = format!(
            r#"{{"limit_id":"codex","primary":{{"used_percent":{used_percent:?},"window_minutes":10080,"resets_at":1786839350}},"plan_type":"pro"}}"#
        );
        format!(
            r#"{{"timestamp":"{timestamp}","type":"event_msg","payload":{{"type":"token_count","info":{{"last_token_usage":{{"input_tokens":{last},"output_tokens":0,"total_tokens":{last}}},"total_token_usage":{{"input_tokens":{total},"output_tokens":0,"total_tokens":{total}}},"rate_limits":{limits}}},"rate_limits":{limits}}}}}"#
        )
    };
    let parent = [
        r#"{"timestamp":"2026-08-04T06:41:00Z","type":"session_meta","payload":{"id":"root"}}"#
            .to_owned(),
        usage("2026-08-04T06:42:00Z", 100, 100, 10.0),
        usage("2026-08-04T06:44:00Z", 50, 150, 20.0),
    ];
    let child = [
        r#"{"timestamp":"2026-08-04T06:43:00Z","type":"session_meta","payload":{"id":"child","parent_thread_id":"root"}}"#.to_owned(),
        usage("2026-08-04T06:43:01Z", 100, 100, 10.0),
        usage("2026-08-04T06:45:00Z", 30, 130, 30.0),
    ];
    let mut disk = Disk::new(vec![
        (
            "/home/sessions/2026/08/rollout-child.jsonl",
            child.join("\n") + "\n",
            Some(1),
        ),
        (
            "/home/sessions/2026/08/rollout-root.jsonl",
            parent.join("\n") + "\n",
            Some(1),
        ),
    ]);
    disk.scan();
    let usage_rows: Vec<&SourceJsonlRecord> = disk
        .stored
        .iter()
        .filter(|row| row.kind == "usage")
        .collect();
    let total: i64 = usage_rows.iter().map(|row| row.total_tokens.unwrap()).sum();
    assert_eq!(usage_rows.len(), 3);
    assert_eq!(total, 180);
    assert!(usage_rows.iter().any(|row| {
        row.session_id.as_deref() == Some("child") && row.total_tokens == Some(30)
    }));
    let quota_rows: Vec<&SourceJsonlRecord> = disk
        .stored
        .iter()
        .filter(|row| row.kind == "quota")
        .collect();
    assert_eq!(quota_rows.len(), 3);
    let replayed = quota_rows
        .iter()
        .find(|row| row.used_percent == Some(float(10.0)))
        .unwrap();
    let expected = parse_timestamp(Some(&parse("\"2026-08-04T06:42:00Z\""))).unwrap();
    assert_eq!(replayed.observed_at_ms, expected);
    assert_eq!(replayed.last_seen_at_ms, Some(expected));
}

#[test]
fn from_date_skips_old_untracked_files() {
    let session = |id: &str, timestamp: &str| {
        format!(
            "{{\"timestamp\":\"{timestamp}\",\"type\":\"session_meta\",\"payload\":{{\"id\":\"{id}\"}}}}\n"
        )
    };
    let mut disk = Disk::new(vec![
        (
            "/home/sessions/2026/01/rollout-old.jsonl",
            session("old", "2026-01-02T00:00:00Z"),
            Some(1_704_153_600_000),
        ),
        (
            "/home/sessions/2026/08/rollout-recent.jsonl",
            session("recent", "2026-08-02T00:00:00Z"),
            Some(1_785_700_000_000),
        ),
    ]);
    disk.from = Some(parse_date("2026-08-01").unwrap());
    let report = disk.scan();
    assert_eq!(report.files_scanned, 1);
    assert!(disk
        .stored
        .iter()
        .all(|row| row.session_id.as_deref() == Some("recent")));
}

#[test]
fn from_date_drops_old_records_from_recently_modified_file() {
    let content = [
        r#"{"timestamp":"2026-01-02T00:00:00Z","type":"session_meta","payload":{"id":"old"}}"#,
        r#"{"timestamp":"2026-01-02T00:01:00Z","type":"event_msg","payload":{"type":"token_count","info":{"last_token_usage":{"input_tokens":10,"output_tokens":2,"total_tokens":12}}}}"#,
    ]
    .join("\n")
        + "\n";
    let mut disk = Disk::new(vec![(
        "/home/sessions/2026/01/rollout-old.jsonl",
        content,
        Some(1_785_600_000_000),
    )]);
    disk.from = Some(parse_date("2026-08-01").unwrap());
    let report = disk.scan();
    assert_eq!(report.files_scanned, 1);
    assert_eq!(report.recognized_events, 0);
    assert_eq!(report.inserted_events, 0);
    assert!(disk.stored.is_empty());
}

#[test]
fn logs_are_listed_once_and_told_by_their_paths() {
    let collector = JsonlCollector::new("/home");
    assert_eq!(collector.home_display(), "/home");
    let active = vec!["/home/sessions/b.jsonl".to_owned(), "/home/sessions/a.jsonl".to_owned()];
    let archived = vec!["/home/archived_sessions/c.jsonl".to_owned()];
    let found = collector.discover_paths(&active, &archived);
    assert_eq!(found.len(), 3);
    assert_eq!(
        path_date("/home/sessions/2026/08/rollout-2026-08-04T06-41-51.jsonl").map(|date| date.to_text()),
        Some("2026-08-04".to_owned())
    );
    assert_eq!(path_date("/home/other.jsonl"), None);
}

#[test]
fn lines_are_judged_by_their_bytes() {
    assert!(likely_relevant(br#"{"type":"session_meta"}"#));
    assert!(!likely_relevant(br#"{"type":"response_item"}"#));
    let scan = scan_lines(&b"one\ntwo\r\npart".to_vec(), false);
    assert_eq!(scan.complete_lines, 2);
    assert_eq!(scan.complete_bytes, 9);
}

#[test]
fn threads_add_what_the_index_does_not_tell() {
    let mut metadata: OrderedMap<String, LocalSessionMetadata> = OrderedMap::new();
    read_index_entry(&mut metadata, &parse(r#"{"id":"a","thread_name":" indexed "}"#));
    read_thread(
        &mut metadata,
        "a".to_owned(),
        &Some("stored".to_owned()),
        &Some(" high ".to_owned()),
    );
    read_thread(&mut metadata, "b".to_owned(), &Some("  ".to_owned()), &None);
    read_spawn_edge(&mut metadata, "a".to_owned(), "b".to_owned());
    let first = metadata.get(&"a".to_owned()).unwrap();
    assert_eq!(first.title.as_deref(), Some("indexed"));
    assert_eq!(first.reasoning_effort.as_deref(), Some("high"));
    assert_eq!(first.parent_session_id, None);
    let second = metadata.get(&"b".to_owned()).unwrap();
    assert_eq!(second.title, None);
    assert_eq!(second.reasoning_effort, None);
    assert_eq!(second.parent_session_id.as_deref(), Some("a"));
}

#[test]
fn the_last_thirty_days_are_read_by_default() {
    assert_eq!(default_from_date(0).to_text(), "1969-12-03");
    assert_eq!(default_from_date(57_600_000).to_text(), "1969-12-04");
    assert_eq!(default_from_date(1_786_000_000_000).to_text(), "2026-07-08");
}

#[test]
fn a_collector_keeps_what_it_is_made_of() {
    let collector = JsonlCollector::new("/home/one")
        .with_cursor_path(Some("/run/cursors".to_owned()))
        .with_from_date(Date::new(2026, 8, 1));
    assert_eq!(collector.home_display(), "/home/one");
    assert_eq!(collector.cursor_path.as_deref(), Some("/run/cursors"));
    assert_eq!(collector.from_date.unwrap().to_text(), "2026-08-01");
}

#[test]
fn a_line_is_read_at_the_time_of_its_stamp() {
    let line = r#"{"timestamp":"2026-08-04T06:41:51.881Z","type":"session_meta","payload":{"id":"s1","title":"hello"}}"#;
    let by_stamp = records(line, &mut FileContext::default());
    let at = nanos_to_millis(1_785_825_711_881_999_999);
    assert_eq!(at, 1_785_825_711_881);
    let by_instant = records_at(&parse(line), &mut FileContext::default(), at);
    assert_eq!(by_stamp.len(), 1);
    assert_eq!(by_instant.len(), 1);
    assert_eq!(by_stamp[0].observed_at_ms, at);
    assert_eq!(by_instant[0].observed_at_ms, at);
    assert_eq!(by_stamp[0].source_key, by_instant[0].source_key);
    assert_eq!(nanos_to_millis(-1_999_999), -1);
}

#[test]
fn a_root_is_that_of_the_parent() {
    let edges = graph(&[("a", "b"), ("b", "c"), ("x", "y"), ("y", "x"), ("e", "")]);
    let root = |session: &str, direct: Option<&str>| {
        resolve_root_session_id(session, direct, &edges)
    };
    assert_eq!(root("a", None), root("b", None));
    assert_eq!(root("a", None).as_deref(), Some("c"));
    assert_eq!(root("e", None).as_deref(), Some("e"));
    assert_eq!(root("a", Some("")).as_deref(), Some("a"));
    // the named parent counts for the first step
    assert_eq!(root("a", Some("d")), root("d", None));
    assert_eq!(root("c", Some("d")).as_deref(), Some("d"));
    // and a way that comes back to the session has no end
    assert_eq!(root("c", Some("a")), None);
    assert_eq!(root("x", None), None);
    assert_eq!(root("x", Some("z")).as_deref(), Some("z"));
}

#[test]
fn other_members_of_a_line_reach_no_fact() {
    let pairs = [
        (
            r#"{"timestamp":"2026-08-04T06:41:51Z","type":"session_meta","payload":{"id":"s","title":"t"}}"#,
            r#"{"timestamp":"2026-08-04T06:41:51Z","type":"session_meta","cwd":"/secret","payload":{"instructions":"secret","id":"s","git":{"branch":"secret"},"title":"t","source":{"subagent":{"thread_spawn":{"depth":"secret"}}}}}"#,
        ),
        (
            r#"{"timestamp":"2026-08-04T06:42:02Z","type":"event_msg","payload":{"type":"token_count","info":{"last_token_usage":{"input_tokens":10,"total_tokens":12}},"rate_limits":{"primary":{"used_percent":12}}}}"#,
            r#"{"timestamp":"2026-08-04T06:42:02Z","type":"event_msg","payload":{"type":"token_count","message":"secret","info":{"prompt":"secret","last_token_usage":{"input_tokens":10,"note":"secret","total_tokens":12}},"rate_limits":{"note":"secret","primary":{"note":"secret","used_percent":12}}}}"#,
        ),
        (
            r#"{"timestamp":"2026-08-04T06:42:02Z","type":"response_item","payload":{}}"#,
            r#"{"timestamp":"2026-08-04T06:42:02Z","type":"response_item","payload":{"content":"secret"}}"#,
        ),
    ];
    for (plain, full) in pairs {
        let (mut first, mut second) = (FileContext::default(), FileContext::default());
        let told = records(plain, &mut first);
        let same = records(full, &mut second);
        assert_eq!(format!("{told:?}"), format!("{same:?}"));
        assert_eq!(format!("{first:?}"), format!("{second:?}"));
        assert!(!format!("{same:?}{second:?}").contains("secret"));
        for record in told {
            assert!(["session", "turn", "usage", "quota"].contains(&record.kind.as_str()));
        }
    }
}

#[test]
fn a_second_scan_without_changes_reads_nothing() {
    let line = both_counts("2026-08-04T06:43:00Z", 42, 30);
    let path = "/home/sessions/2026/08/rollout-a.jsonl";
    let mut disk = Disk::new(vec![(path, format!("{line}\n{line}"), Some(1))]);
    let first = disk.scan();
    assert_eq!((first.complete_lines, first.files_changed), (1, 1));
    // the same, and again after it was touched, with a line that is not complete at its end
    for touched in [1, 2] {
        disk.logs[0].2 = Some(touched);
        let next = disk.scan();
        assert_eq!(next.files_scanned, 1);
        assert_eq!((next.files_changed, next.complete_lines), (0, 0));
        assert_eq!((next.recognized_events, next.inserted_events), (0, 0));
        assert_eq!((next.duplicate_events, next.inserted_quota_samples), (0, 0));
    }
}

#[test]
fn a_parent_out_of_range_is_read_for_its_child() {
    let parent = [
        r#"{"timestamp":"2026-01-02T00:00:00Z","type":"session_meta","payload":{"id":"root"}}"#
            .to_owned(),
        both_counts("2026-01-02T00:01:00Z", 100, 100),
        both_counts("2026-08-04T06:44:00Z", 150, 50),
    ];
    let child = [
        r#"{"timestamp":"2026-08-04T06:43:00Z","type":"session_meta","payload":{"id":"child","parent_thread_id":"root"}}"#.to_owned(),
        both_counts("2026-08-04T06:43:01Z", 100, 100),
        both_counts("2026-08-04T06:45:00Z", 130, 30),
    ];
    let mut disk = Disk::new(vec![
        (
            "/home/sessions/2026/01/rollout-root.jsonl",
            parent.join("\n") + "\n",
            Some(1_704_153_600_000),
        ),
        (
            "/home/sessions/2026/08/rollout-child.jsonl",
            child.join("\n") + "\n",
            Some(1_785_900_000_000),
        ),
    ]);
    disk.from = Some(parse_date("2026-08-01").unwrap());
    let report = disk.scan();
    assert_eq!(report.files_scanned, 1);
    // what the child copied from its parent is not counted for the child
    let totals: Vec<Option<i64>> = disk
        .stored
        .iter()
        .filter(|row| row.kind == "usage")
        .map(|row| row.total_tokens)
        .collect();
    assert_eq!(totals, [Some(30)]);
    assert!(disk
        .stored
        .iter()
        .all(|row| row.session_id.as_deref() == Some("child")));
}
