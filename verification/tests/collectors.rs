use codex_meter::collectors::jsonl::cursor::{
    complete_lines, line_digest_at_offset, scan_file, scan_start, span_before_cursor,
    JsonlCollectorError, JsonlFileState, Line, ParsedFile,
};
use codex_meter::collectors::jsonl::events::{
    normalize_epoch_seconds_or_millis, normalize_service_tier, parse_token_counts, JsonlEvent,
};
use codex_meter::collectors::jsonl::queue::{DebouncedPathQueue, WatchStep};
use codex_meter::ordered::Key;
use codex_meter::path::components;
use codex_meter::collectors::jsonl::rollups::{
    add_token_counts, local_date_for_timezone, JsonlDailyTokenRollup, TokenRow,
};
use codex_meter::collectors::jsonl::{
    is_changed, JsonlCollector, JsonlRow, JsonlScanReport, JSONL_DEBOUNCE,
    JSONL_FULL_SCAN_INTERVAL,
};
use codex_meter::domain::models::TokenCounts;
use codex_meter::json::{Float, Json, Number};

fn rank(value: f64) -> i64 {
    let bits = value.to_bits() as i64;
    if bits < 0 {
        -(bits & i64::MAX)
    } else {
        bits
    }
}

fn float(value: f64) -> Float {
    Float {
        rank: rank(value),
        raised: rank(value + 5.0),
    }
}

fn number(value: &serde_json::Number) -> Json {
    let float_value = value.as_f64().unwrap();
    Json::Number(Number {
        integer: value.as_i64(),
        truncated: value.as_i64().unwrap_or(float_value as i64),
        float: float(float_value),
        float_text: format!("{float_value:?}"),
        text: value.to_string(),
    })
}

fn json(value: &serde_json::Value) -> Json {
    match value {
        serde_json::Value::Null => Json::Null,
        serde_json::Value::Bool(flag) => Json::Bool(*flag),
        serde_json::Value::Number(value) => number(value),
        serde_json::Value::String(text) => Json::Text(text.clone()),
        serde_json::Value::Array(items) => Json::Array(items.iter().map(json).collect()),
        serde_json::Value::Object(members) => Json::Object(
            members
                .iter()
                .map(|(key, member)| (key.clone(), json(member)))
                .collect(),
        ),
    }
}

fn parse(text: &str) -> Json {
    json(&serde_json::from_str(text).unwrap())
}


fn meta_line(session_id: &str) -> String {
    format!(
        r#"{{"timestamp":"2026-08-04T06:00:00.000Z","type":"session_meta","payload":{{"cli_version":"0.146.0-alpha.3.1","session_id":"{session_id}","model_provider":"openai","thread_source":"cli","timestamp":"2026-08-04T06:00:00.000Z"}}}}"#
    )
}

fn settings_line(timestamp: &str, tier: &str) -> String {
    format!(
        r#"{{"timestamp":"{timestamp}","type":"event_msg","payload":{{"type":"thread_settings_applied","thread_settings":{{"model":"fixture-model","model_provider_id":"openai","service_tier":"{tier}"}}}}}}"#
    )
}

fn token_line(timestamp: &str, total: i64) -> String {
    format!(
        r#"{{"timestamp":"{timestamp}","type":"event_msg","payload":{{"type":"token_count","info":{{"last_token_usage":{{"input_tokens":{total},"total_tokens":{total}}},"total_token_usage":{{"input_tokens":{total},"total_tokens":{total}}},"model_context_window":100000}},"rate_limits":{{"limit_id":"weekly","limit_name":"fixture","plan_type":"plus","primary":{{"used_percent":12,"window_minutes":10080,"resets_at":1786351410}},"secondary":null,"credits":null}}}}}}"#
    )
}

fn read_file(
    text: &str,
    inode: Option<i64>,
    previous: Option<&JsonlFileState>,
) -> Result<ParsedFile, JsonlCollectorError> {
    let bytes = text.as_bytes();
    let length = bytes.len() as u64;
    let actual = span_before_cursor(previous, inode, length).and_then(|(from, to)| {
        line_digest_at_offset(&bytes[from as usize..to as usize].to_vec(), from)
    });
    let start = scan_start(previous, inode, length, &actual);
    let rest = bytes[start.offset as usize..].to_vec();
    let lines = complete_lines(&rest)
        .lines
        .iter()
        .map(
            |line| match serde_json::from_slice::<serde_json::Value>(line) {
                Ok(value) => Line::Value(json(&value)),
                Err(error) => Line::Broken(error.to_string()),
            },
        )
        .collect();
    let digest = previous.and_then(|state| state.digest.clone());
    scan_file(&rest, &lines, start, &digest)
}

#[test]
fn parser_inherits_standard_fast_standard_and_keeps_whitelist() {
    let content = [
        meta_line("session-tier"),
        settings_line("2026-08-04T06:00:01.000Z", "default"),
        token_line("2026-08-04T06:00:02.000Z", 10),
        settings_line("2026-08-04T06:00:03.000Z", "priority"),
        token_line("2026-08-04T06:00:04.000Z", 20),
        settings_line("2026-08-04T06:00:05.000Z", "standard"),
        token_line("2026-08-04T06:00:06.000Z", 30),
    ]
    .join("\n")
        + "\n";
    let state = JsonlFileState {
        machine_id: 1,
        path_key: "session.jsonl".to_owned(),
        session_id: None,
        inode: None,
        offset_bytes: 0,
        mtime_ms: None,
        digest: None,
        active_state: "active".to_owned(),
        cli_version: None,
        model_provider: None,
        thread_source: None,
        session_started_at_ms: None,
        last_model: None,
        last_model_provider_id: None,
        last_service_tier: None,
    };
    let parsed = read_file(&content, Some(7), Some(&state)).unwrap();
    let tiers = parsed
        .events
        .iter()
        .filter_map(|event| match event {
            JsonlEvent::TokenCount(event) => Some(event.service_tier.as_str()),
            _ => None,
        })
        .collect::<Vec<_>>();
    assert_eq!(tiers, ["standard", "fast", "standard"]);
    assert!(parsed.events.iter().all(|event| match event {
        JsonlEvent::SessionMeta(_) | JsonlEvent::ThreadSettings(_) | JsonlEvent::TokenCount(_) =>
            true,
    }));
}

/// Logs with their inodes, and the rows that were stored of them.
struct Disk {
    collector: JsonlCollector,
    active: Vec<(String, String, i64)>,
    archived: Vec<(String, String, i64)>,
    states: Vec<JsonlFileState>,
    rows: Vec<String>,
    tokens: Vec<TokenRow>,
}

impl Disk {
    fn new() -> Disk {
        Disk {
            collector: JsonlCollector::new("/home".to_owned(), 1, "phase2-test".to_owned()),
            active: Vec::new(),
            archived: Vec::new(),
            states: Vec::new(),
            rows: Vec::new(),
            tokens: Vec::new(),
        }
    }

    fn store(&mut self, row: JsonlRow, report: &mut JsonlScanReport) {
        let key = match &row {
            JsonlRow::Session(row) => format!("session {}", row.source_digest),
            JsonlRow::Setting(row) => format!("setting {}", row.source_digest),
            JsonlRow::Tokens(row) => format!("tokens {}", row.source_digest),
            JsonlRow::RateLimits(row) => format!("limits {}", row.source_digest),
        };
        if self.rows.contains(&key) {
            return;
        }
        report.add_inserted(&row);
        self.rows.push(key);
        if let JsonlRow::Tokens(row) = row {
            self.tokens.push(TokenRow {
                observed_at_ms: row.observed_at_ms,
                tokens: row.tokens,
                source_digest: row.source_digest,
            });
        }
    }

    fn scan(&mut self) -> (JsonlScanReport, Vec<JsonlDailyTokenRollup>) {
        let mut report = JsonlScanReport::default();
        let names = |logs: &Vec<(String, String, i64)>| -> Vec<String> {
            logs.iter().map(|log| log.0.clone()).collect()
        };
        let paths = self
            .collector
            .discover_jsonl_paths(&names(&self.active), &names(&self.archived));
        for (path, state) in paths {
            let (_, text, inode) = self
                .active
                .iter()
                .chain(self.archived.iter())
                .find(|log| log.0 == path)
                .cloned()
                .unwrap();
            let place = self
                .states
                .iter()
                .position(|held| held.path_key == path)
                .or_else(|| {
                    self.states
                        .iter()
                        .position(|held| held.inode == Some(inode))
                });
            let previous = place.map(|at| self.states.remove(at));
            let file = read_file(&text, Some(inode), previous.as_ref()).unwrap();
            let changed = is_changed(previous.as_ref(), &path, Some(inode), file.next_offset);
            report.add_file(&file, changed);
            let after = self
                .collector
                .file_state(&file, path, Some(inode), None, state);
            self.states.push(after);
            for event in file.events {
                for row in self.collector.rows(event) {
                    self.store(row, &mut report);
                }
            }
        }
        let days = self
            .collector
            .rebuild_daily_token_rollups(&self.tokens)
            .unwrap();
        (report, days)
    }
}

#[test]
fn fixture_replay_is_idempotent() {
    let mut disk = Disk::new();
    let text = [
        meta_line("session-replay"),
        token_line("2026-08-04T06:00:02.000Z", 10),
        token_line("2026-08-04T06:00:04.000Z", 20),
    ]
    .join("\n")
        + "\n";
    disk.active = vec![("/home/sessions/replay.jsonl".to_owned(), text, 1)];
    let (first, days) = disk.scan();
    let (second, again) = disk.scan();
    assert_eq!(first.inserted_token_observations, 2);
    assert_eq!(days.len(), 1);
    assert_eq!(days[0].local_date, "2026-08-04");
    assert_eq!(days[0].tokens.total_tokens, 30);
    assert_eq!(second.inserted_token_observations, 0);
    assert_eq!(again.len(), 1);
    assert_eq!(second.inserted_session_metadata, 0);
    assert_eq!(second.inserted_thread_settings, 0);
    assert_eq!(second.complete_lines, 0);
    assert_eq!(second.files_changed, 0);
}

#[test]
fn active_and_archived_copies_are_counted_once() {
    let mut disk = Disk::new();
    let text = format!(
        "{}\n{}\n",
        meta_line("session-archive"),
        token_line("2026-08-04T06:00:02.000Z", 10)
    );
    disk.active = vec![("/home/sessions/archive.jsonl".to_owned(), text.clone(), 1)];
    disk.archived = vec![("/home/archived_sessions/archive.jsonl".to_owned(), text, 2)];
    let (report, _) = disk.scan();
    assert_eq!(report.inserted_token_observations, 1);
    assert_eq!(report.inserted_session_metadata, 1);
    assert_eq!(disk.tokens.len(), 1);
}

#[test]
fn partial_tail_is_deferred_until_completed() {
    let mut disk = Disk::new();
    let meta = format!("{}\n", meta_line("session-partial"));
    let token = token_line("2026-08-04T06:00:02.000Z", 10);
    let half = token.len() / 2;
    disk.active = vec![(
        "/home/sessions/partial.jsonl".to_owned(),
        meta + &token[..half],
        1,
    )];
    let (first, _) = disk.scan();
    assert_eq!(first.inserted_token_observations, 0);
    assert!(first.pending_bytes > 0);
    disk.active[0].1.push_str(&format!("{}\n", &token[half..]));
    let (second, _) = disk.scan();
    let (third, _) = disk.scan();
    assert_eq!(second.inserted_token_observations, 1);
    assert_eq!(third.inserted_token_observations, 0);
    assert_eq!(disk.tokens.len(), 1);
}

#[test]
fn truncation_restarts_cursor_without_losing_deduplication() {
    let mut disk = Disk::new();
    let meta = format!("{}\n", meta_line("session-truncate"));
    let first_token = format!("{}\n", token_line("2026-08-04T06:00:02.000Z", 10));
    disk.active = vec![(
        "/home/sessions/truncate.jsonl".to_owned(),
        meta.clone() + &first_token,
        1,
    )];
    assert_eq!(disk.scan().0.inserted_token_observations, 1);

    disk.active[0].1 = meta;
    assert_eq!(disk.scan().0.inserted_token_observations, 0);

    let second_token = format!("{}\n", token_line("2026-08-04T06:00:03.000Z", 20));
    disk.active[0].1.push_str(&second_token);
    assert_eq!(disk.scan().0.inserted_token_observations, 1);
    assert_eq!(disk.tokens.len(), 2);
}

#[test]
fn archive_move_reuses_inode_cursor() {
    let mut disk = Disk::new();
    let text = format!(
        "{}\n{}\n",
        meta_line("session-move"),
        token_line("2026-08-04T06:00:02.000Z", 10)
    );
    disk.active = vec![("/home/sessions/move.jsonl".to_owned(), text.clone(), 9)];
    assert_eq!(disk.scan().0.inserted_token_observations, 1);
    disk.active.clear();
    disk.archived = vec![("/home/archived_sessions/move.jsonl".to_owned(), text, 9)];
    assert_eq!(disk.scan().0.inserted_token_observations, 0);
    assert_eq!(disk.states.len(), 1);
    assert_eq!(disk.states[0].active_state, "archived");
}

#[test]
fn debounce_coalesces_same_path() {
    let now = 1_000_000;
    let mut queue = DebouncedPathQueue::new(2_000);
    queue.push("session.jsonl".to_owned(), now);
    queue.push("session.jsonl".to_owned(), now + 1_000);
    assert!(queue.take_ready(now + 2_000).is_empty());
    assert_eq!(
        queue.take_ready(now + 3_000),
        vec!["session.jsonl".to_owned()]
    );
}

#[test]
fn spellings_of_one_path_wait_once() {
    let mut queue = DebouncedPathQueue::new(100);
    for (now, path) in [
        "/logs//a.jsonl",
        "/logs/./b/../a.jsonl",
        "/logs/a.jsonl/",
        "/logs/b.jsonl",
        "/logs/-b.jsonl",
        "./logs",
        "logs",
        "../logs",
        "/logs/b.jsonl/.",
    ]
    .iter()
    .enumerate()
    {
        queue.push((*path).to_owned(), now as u64);
    }
    assert_eq!(queue.next_deadline(), Some(101));
    assert_eq!(
        queue.take_ready(200),
        [
            "/logs/-b.jsonl",
            "/logs//a.jsonl",
            "/logs/./b/../a.jsonl",
            "/logs/b.jsonl",
            "./logs",
            "../logs",
            "logs",
        ]
    );
    assert!(queue.take_ready(200).is_empty());
}

#[test]
fn paths_are_ordered_as_the_standard_library_orders_them() {
    let paths = [
        "", "/", ".", "..", "a", "a/", "a//b", "a/b", "a/./b", "./a", "a/.", "a/..", "a-b", "a b",
        "/a", "//a", "/./a", "/../a", "b", "a/b/c", "a/-", "a.jsonl", "é", "z", "./", "./.",
    ];
    for first in paths {
        for second in paths {
            let (a, b) = (std::path::Path::new(first), std::path::Path::new(second));
            assert_eq!(
                components(first).is_before(&components(second)),
                a < b,
                "{first} {second}"
            );
        }
    }
}

#[test]
fn a_watcher_waits_for_the_earliest_path() {
    let mut queue = DebouncedPathQueue::new(JSONL_DEBOUNCE);
    assert_eq!(queue.next_step(0), WatchStep::Wait);
    queue.push("b/z.jsonl".to_owned(), 10);
    queue.push("a.jsonl".to_owned(), 20);
    assert_eq!(queue.next_deadline(), Some(10 + JSONL_DEBOUNCE));
    assert_eq!(queue.next_step(10), WatchStep::WaitFor(JSONL_DEBOUNCE));
    assert_eq!(queue.next_step(10 + JSONL_DEBOUNCE), WatchStep::Take);
    assert_eq!(
        queue.take_ready(20 + JSONL_DEBOUNCE),
        vec!["a.jsonl".to_owned(), "b/z.jsonl".to_owned()]
    );
    assert_eq!(JSONL_FULL_SCAN_INTERVAL, 6 * 60 * 60 * 1_000);
}

#[test]
fn broken_lines_and_bad_time_stamps_are_errors() {
    let broken = read_file("{\n", None, None);
    assert!(matches!(broken, Err(JsonlCollectorError::Json(_))));
    let bad = read_file(&(token_line("yesterday", 1) + "\n"), None, None);
    assert!(matches!(bad, Err(JsonlCollectorError::Timestamp(_))));
}

#[test]
fn days_follow_the_time_zone() {
    assert_eq!(
        local_date_for_timezone(57_600_000, "Asia/Shanghai").unwrap(),
        "1970-01-02"
    );
    assert_eq!(
        local_date_for_timezone(57_600_000, "UTC").unwrap(),
        "1970-01-01"
    );
    for zone in ["UTC", "Etc/UTC", "Asia/Shanghai", "PRC"] {
        assert!(matches!(
            local_date_for_timezone(i64::MAX, zone),
            Err(JsonlCollectorError::Timestamp(reason)) if reason == "timestamp was not in range"
        ));
    }
    assert_eq!(
        local_date_for_timezone(253_402_300_799_999, "UTC").unwrap(),
        "9999-12-31"
    );
    assert!(matches!(
        local_date_for_timezone(253_402_300_799_999, "PRC"),
        Err(JsonlCollectorError::Timestamp(_))
    ));
    assert!(matches!(
        local_date_for_timezone(0, "Europe/Paris"),
        Err(JsonlCollectorError::Timestamp(reason))
            if reason == "unsupported JSONL rollup timezone: Europe/Paris"
    ));
}

#[test]
fn sums_that_do_not_fit_are_errors() {
    let most = TokenCounts {
        input_tokens: i64::MAX,
        ..Default::default()
    };
    let one = TokenCounts {
        input_tokens: 1,
        ..Default::default()
    };
    assert!(add_token_counts(most, one).is_none());
    let row = |tokens: TokenCounts| TokenRow {
        observed_at_ms: 0,
        tokens,
        source_digest: "digest".to_owned(),
    };
    let collector = JsonlCollector::new("/home".to_owned(), 1, "v".to_owned())
        .with_timezone("UTC".to_owned());
    assert!(matches!(
        collector.rebuild_daily_token_rollups(&vec![row(most), row(one)]),
        Err(JsonlCollectorError::TokenOverflow)
    ));
    assert_eq!(collector.sessions_root(), "/home/sessions");
    assert_eq!(collector.archived_sessions_root(), "/home/archived_sessions");
}

#[test]
fn fields_are_normalized() {
    assert_eq!(
        normalize_epoch_seconds_or_millis(1_786_351_410),
        1_786_351_410_000
    );
    assert_eq!(
        normalize_epoch_seconds_or_millis(1_786_351_410_000),
        1_786_351_410_000
    );
    assert_eq!(normalize_service_tier(&Some("priority".to_owned())), "fast");
    assert_eq!(normalize_service_tier(&Some("default".to_owned())), "standard");
    let counts = parse_token_counts(&parse(r#"{"input_tokens":3,"total_tokens":3}"#)).unwrap();
    assert_eq!(counts.input_tokens, 3);
}
