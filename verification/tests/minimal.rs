use codex_meter::db::SourceJsonlRecord;
use codex_meter::json::{Float, Json, Number};
use codex_meter::minimal::app_server::ingest_line;
use codex_meter::minimal::configured_timezone;
use codex_meter::minimal::db::{event_row, minimal_tables, quota_row, upsert_source_jsonl};
use codex_meter::minimal::jsonl::scan::{
    next_cursor, read_log, split_lines, unread_from, LogFact, LogLine,
};
use codex_meter::minimal::jsonl::{
    parse_event, parse_event_at, parse_turn_at, parse_turn_record, CursorState, FileContext,
    JsonlCollector,
};
use codex_meter::minimal::report::rows::{
    quality_set, RollupAccount, RollupCapacity, RollupDayRow, RollupMinuteRow, RollupSessionRow,
    RowMetric,
};
use codex_meter::minimal::report::sums::RollupMetric;
use codex_meter::minimal::report::validation::{rollup_validation, Figures, RollupCcusageRow};
use codex_meter::minimal::report::windows::capacity_for;
use codex_meter::minimal::report::{
    account_daily_tokens, build_rollup_report, select_date, AccountUsage, AppQuota, ReportRows,
};
use codex_meter::minimal::rollup::load::{
    load_account_context, load_quotas, load_turns, load_usages, Facts,
};
use codex_meter::minimal::rollup::metric::MetricAggregate;
use codex_meter::minimal::rollup::roots::{load_sessions, resolve_root};
use codex_meter::minimal::rollup::windows::build_windows;
use codex_meter::minimal::rollup::{local_date, roll_up, Rollup, RollupError};
use codex_meter::minimal::server::{save_capacity, CapacityInput, ReportQuery, ServerError};
use codex_meter::ordered::TextSet;
use codex_meter::pipelines::result::materialize::records::QuotaObservation;
use codex_meter::pipelines::source::jsonl::JsonlError;
use codex_meter::pricing::{Price, TokenCounts};

fn rank(value: f64) -> i64 {
    let bits = value.to_bits() as i64;
    if bits < 0 {
        -(bits & i64::MAX)
    } else {
        bits
    }
}

fn float(value: f64) -> Float {
    Float {
        rank: rank(value),
        raised: rank(value + 5.0),
    }
}

fn number(value: &serde_json::Number) -> Json {
    let float_value = value.as_f64().unwrap();
    Json::Number(Number {
        integer: value.as_i64(),
        truncated: value.as_i64().unwrap_or(float_value as i64),
        float: float(float_value),
        float_text: format!("{float_value:?}"),
        text: value.to_string(),
    })
}

fn json(value: &serde_json::Value) -> Json {
    match value {
        serde_json::Value::Null => Json::Null,
        serde_json::Value::Bool(flag) => Json::Bool(*flag),
        serde_json::Value::Number(value) => number(value),
        serde_json::Value::String(text) => Json::Text(text.clone()),
        serde_json::Value::Array(items) => Json::Array(items.iter().map(json).collect()),
        serde_json::Value::Object(members) => Json::Object(
            members
                .iter()
                .map(|(key, member)| (key.clone(), json(member)))
                .collect(),
        ),
    }
}

fn parse(text: &str) -> Json {
    json(&serde_json::from_str(text).unwrap())
}


#[test]
fn turn_lifecycle_uses_one_stable_source_key() {
    let mut context = FileContext {
        session_id: Some("session-1".to_owned()),
        ..FileContext::default()
    };
    let started = parse(
        r#"{"timestamp": "2026-08-04T06:41:51.881Z","type": "event_msg","payload": {"type": "task_started","turn_id": "turn-1","started_at": 1785825711}}"#,
    );
    let first = parse_turn_record(&started, &mut context).unwrap().unwrap();
    assert_eq!(first.kind, "turn");
    assert_eq!(first.turn_id.as_deref(), Some("turn-1"));
    assert!(first.ended_at_ms.is_none());

    let completed = parse(
        r#"{"timestamp": "2026-08-04T06:42:01.881Z","type": "event_msg","payload": {"type": "task_complete","turn_id": "turn-1","completed_at": 1785825721}}"#,
    );
    let second = parse_turn_record(&completed, &mut context)
        .unwrap()
        .unwrap();
    assert_eq!(second.source_key, first.source_key);
    assert_eq!(second.started_at_ms, first.started_at_ms);
    assert!(second.ended_at_ms.is_some());
}

#[test]
fn reset_windows_use_reset_time_change_but_ignore_small_jitter() {
    let quota = |observed_at_ms: i64, used_percent: f64, resets_at_ms: i64| QuotaObservation {
        first_seen_at_ms: observed_at_ms,
        last_seen_at_ms: observed_at_ms,
        account_key: None,
        limit_id: Some("codex".to_owned()),
        window_kind: "primary".to_owned(),
        used_percent: Some(float(used_percent)),
        window_minutes: Some(10_080),
        resets_at_ms: Some(resets_at_ms),
        plan_type: Some("plus".to_owned()),
        source: "jsonl".to_owned(),
        priority: 1,
    };
    let windows = build_windows(&vec![
        quota(1_000_000, 10.0, 2_000_000),
        quota(1_060_000, 11.0, 2_001_000),
        quota(1_120_000, 12.0, 2_600_000),
    ]);
    assert_eq!(windows.len(), 2);
    assert_eq!(windows[0].ordinal, 0);
    assert_eq!(windows[1].ordinal, 1);
}

const SESSION: &str = r#"{"timestamp":"2026-08-04T06:41:51Z","type":"session_meta","payload":{"id":"s1","title":"first"}}"#;
const SETTINGS: &str = r#"{"timestamp":"2026-08-04T06:42:00Z","type":"event_msg","payload":{"type":"thread_settings_applied","thread_settings":{"model":"gpt-5.6-sol","service_tier":"fast"}}}"#;
const STARTED: &str = r#"{"timestamp":"2026-08-04T06:42:01Z","type":"event_msg","payload":{"type":"task_started","turn_id":"turn-1","started_at":1785825721}}"#;
const USAGE: &str = r#"{"timestamp":"2026-08-04T06:42:02Z","type":"event_msg","payload":{"type":"token_count","info":{"last_token_usage":{"input_tokens":10,"output_tokens":2,"total_tokens":12}},"rate_limits":{"plan_type":"plus","limit_id":"weekly","primary":{"used_percent":12,"window_minutes":10080,"resets_at":1786351410}}}}"#;

/// What a log tells, each row under its key.
fn stored_rows(text: &str, existing: Option<&CursorState>) -> (Vec<SourceJsonlRecord>, CursorState) {
    let bytes = text.as_bytes().to_vec();
    let start = unread_from(existing, bytes.len());
    let (lines, complete) = split_lines(&bytes[start..].to_vec());
    let values = lines
        .into_iter()
        .map(|line| LogLine {
            value: serde_json::from_slice::<serde_json::Value>(&line)
                .ok()
                .map(|value| json(&value)),
            bytes: line,
        })
        .collect();
    let read = read_log(&values);
    assert!(read.error.is_none());
    let mut rows: Vec<SourceJsonlRecord> = Vec::new();
    for fact in read.facts {
        let row = match fact {
            LogFact::Turn(row) => Some(row),
            LogFact::Event(event) => event_row(&event),
            LogFact::Quota(key, sample) => Some(quota_row(key, &sample)),
        };
        if let Some(row) = row {
            if rows.iter().all(|held| held.source_key != row.source_key) {
                rows.push(row);
            }
        }
    }
    (rows, next_cursor(&bytes, start, complete, Some(1)))
}

fn count(rows: &Vec<SourceJsonlRecord>, kind: &str) -> usize {
    rows.iter().filter(|row| row.kind == kind).count()
}

#[test]
fn scans_fixture_and_deduplicates_second_pass() {
    let text = [SESSION, SETTINGS, STARTED, USAGE].join("\n") + "\n";
    let (rows, cursor) = stored_rows(&text, None);
    assert!(count(&rows, "usage") > 0);
    assert!(count(&rows, "quota") > 0);
    assert_eq!(cursor.offset_bytes, text.len() as u64);
    let (again, _) = stored_rows(&text, Some(&cursor));
    assert!(again.is_empty());
    let (anew, _) = stored_rows(&text, None);
    let keys = |rows: &Vec<SourceJsonlRecord>| -> Vec<String> {
        rows.iter().map(|row| row.source_key.clone()).collect()
    };
    assert_eq!(keys(&anew), keys(&rows));
}

#[test]
fn a_log_with_a_bad_time_stamp_tells_an_error() {
    let value = parse(r#"{"timestamp":"never","type":"session_meta","payload":{"id":"s1"}}"#);
    let read = read_log(&vec![LogLine {
        bytes: b"{}".to_vec(),
        value: Some(value),
    }]);
    assert!(matches!(read.error, Some(JsonlError::Timestamp(_))));
}

fn facts_of(rows: &Vec<SourceJsonlRecord>) -> Facts {
    let of_kind = |kind: &str| -> Vec<SourceJsonlRecord> {
        rows.iter()
            .filter(|row| row.kind == kind)
            .map(|row| row.copy())
            .collect()
    };
    Facts {
        usages: load_usages(&of_kind("usage")),
        sessions: load_sessions(&of_kind("session")),
        turns: load_turns(&of_kind("turn")),
        quotas: load_quotas(&of_kind("quota"), &vec![]),
        account: load_account_context(None, &vec![]),
    }
}

fn rolled_up(text: &str) -> Rollup {
    let (rows, _) = stored_rows(text, None);
    roll_up(&facts_of(&rows), "Asia/Shanghai").unwrap()
}

#[test]
fn rebuilds_daily_minute_and_session_tables_from_fixture() {
    let text = [SESSION, SETTINGS, STARTED, USAGE].join("\n") + "\n";
    let rollup = rolled_up(&text);
    let summary = rollup.summary();
    assert!(summary.days > 0);
    assert!(summary.minutes > 0);
    assert!(summary.sessions > 0);
    let rows = rollup.rows(&load_account_context(None, &vec![]));
    assert_eq!(rows.days.len(), summary.days);
    assert_eq!(rows.minutes.len(), summary.minutes);
    assert_eq!(rows.sessions.len(), summary.sessions);
    let tokens: i64 = rows.minutes.iter().filter_map(|row| row.total_tokens).sum();
    assert_eq!(tokens, 12);
    assert_eq!(rows.days[0].total_tokens, Some(12));
    assert_eq!(rows.sessions[0].total_tokens, Some(12));
    let second = rolled_up(&text).summary();
    assert_eq!(second.days, summary.days);
    assert_eq!(second.windows, summary.windows);
}

#[test]
fn instants_without_a_date_are_refused() {
    let far = SourceJsonlRecord {
        source_key: "usage:far".to_owned(),
        kind: "usage".to_owned(),
        observed_at_ms: i64::MAX,
        total_tokens: Some(1),
        ..Default::default()
    };
    assert!(matches!(
        roll_up(&facts_of(&vec![far]), "UTC"),
        Err(RollupError::Timestamp(reason)) if reason == "timestamp was not in range"
    ));
    assert_eq!(local_date(57_600_000, "Asia/Shanghai").unwrap(), "1970-01-02");
    assert_eq!(local_date(57_600_000, "utc").unwrap(), "1970-01-01");
}

#[test]
fn sessions_go_back_to_one_root() {
    let session = |id: &str, root: &str| SourceJsonlRecord {
        source_key: id.to_owned(),
        kind: "session".to_owned(),
        session_id: Some(id.to_owned()),
        root_session_id: Some(root.to_owned()),
        ..Default::default()
    };
    let sessions = load_sessions(&vec![session("c", "b"), session("b", "a")]);
    assert_eq!(resolve_root("c", &sessions), "a");
    assert_eq!(resolve_root("z", &sessions), "z");
}

fn metric(total: Option<i64>, credit: Option<f64>) -> RowMetric {
    RowMetric {
        input: total,
        cached: None,
        cache_write: None,
        output: None,
        reasoning: None,
        total,
        credit: credit.map(float),
        api_usd: None,
    }
}

fn day(date: &str, total: Option<i64>, credit: Option<f64>) -> RollupDayRow {
    RollupDayRow {
        date: date.to_owned(),
        account_key: None,
        plan_type: Some("plus".to_owned()),
        metric: metric(total, credit),
        local_percent: None,
        account_tokens: None,
        unobserved_tokens: None,
        coverage_ratio: None,
        account_token_freshness: None,
        official_start: None,
        official_end: None,
        official_delta: None,
        reset_count: 0,
        quality: TextSet::new(),
    }
}

fn minute(at: i64, date: &str, window: Option<&str>, total: Option<i64>) -> RollupMinuteRow {
    RollupMinuteRow {
        minute_start_ms: at,
        local_date: date.to_owned(),
        account_key: None,
        plan_type: None,
        window_id: window.map(str::to_owned),
        window_start_ms: None,
        resets_at_ms: Some(at + 6_000_000),
        reset_marker: false,
        metric: metric(total, None),
        official_percent: Some(float(10.0)),
        official_source: Some("jsonl".to_owned()),
        quality: quality_set(Some("jsonl, partial")),
    }
}

fn turn(date: &str, session: &str, window: Option<&str>, total: i64) -> RollupSessionRow {
    RollupSessionRow {
        local_date: date.to_owned(),
        root_session_id: Some("root".to_owned()),
        session_id: Some(session.to_owned()),
        turn_id: None,
        title: Some("title".to_owned()),
        relation: Some("fork".to_owned()),
        started_at_ms: Some(total),
        ended_at_ms: None,
        window_id: window.map(str::to_owned),
        primary_model: Some("gpt-5".to_owned()),
        fast_state: Some("fast".to_owned()),
        model_breakdown: Some(parse(
            r#"[{"model":"gpt-5","tier":"fast","tokens":5,"credit":1.5},{"tier":"x"}]"#,
        )),
        metric: metric(Some(total), Some(1.0)),
        official_start: Some(float(1.0)),
        official_end: None,
        quality: TextSet::new(),
    }
}

fn capacity(plan: Option<&str>, from: i64, credit: f64) -> RollupCapacity {
    RollupCapacity {
        profile_code: "usd20".to_owned(),
        account_key: None,
        plan_type: plan.map(str::to_owned),
        weekly_credit: float(credit),
        effective_from_ms: from,
        effective_to_ms: None,
    }
}

fn ccusage(scope: &str, key: &str, run: i64, status: &str) -> RollupCcusageRow {
    RollupCcusageRow {
        run_at_ms: run,
        scope: scope.to_owned(),
        scope_key: key.to_owned(),
        pricing: "api".to_owned(),
        speed: "auto".to_owned(),
        total_tokens: Some(40),
        input_tokens: Some(7),
        cache_read_tokens: None,
        cache_write_tokens: None,
        output_tokens: None,
        reasoning_tokens: None,
        amount: Some(float(0.5)),
        version: Some("20.0".to_owned()),
        status: status.to_owned(),
    }
}

fn report_rows() -> ReportRows {
    ReportRows {
        days: vec![
            day("2026-08-03", Some(3), None),
            day("2026-08-04", Some(42), Some(2.0)),
        ],
        minutes: vec![
            minute(1_785_700_000_000, "2026-08-03", Some("w1"), Some(3)),
            minute(1_785_800_000_000, "2026-08-04", Some("w2"), Some(42)),
            minute(1_785_800_060_000, "2026-08-04", Some("w2"), None),
        ],
        sessions: vec![
            turn("2026-08-04", "a", Some("w2"), 40),
            turn("2026-08-04", "b", Some("w2"), 2),
        ],
        capacities: vec![capacity(None, 0, 3_200.0)],
        account: RollupAccount {
            plan_type: Some("plus".to_owned()),
            ..Default::default()
        },
        account_usage: vec![AccountUsage {
            observed_at_ms: 5,
            value: parse(r#"[{"startDate":"2026-08-04","tokens":42},{"tokens":1}]"#),
        }],
        app_quota: None,
        ccusage: vec![
            ccusage("daily", "2026-08-04", 1, "failed"),
            ccusage("daily", "2026-08-04", 2, "ok"),
        ],
    }
}

#[test]
fn report_has_day_minute_model_and_session_grains() {
    let report = build_rollup_report(&report_rows(), None);
    assert_eq!(report.days.len(), 2);
    let selected = report.selected.unwrap();
    assert_eq!(selected.day, 1);
    assert_eq!(selected.minutes, vec![1, 2]);
    assert_eq!(selected.sessions.entries.len(), 1);
    let session = &selected.sessions.entries[0].1;
    assert_eq!(session.session_id, "root");
    assert_eq!(session.metric.tokens.total, 42);
    assert_eq!(session.fast(), Some(true));
    assert_eq!(session.models.items, vec!["gpt-5".to_owned()]);
    let (key, model) = &selected.models.entries[0];
    assert_eq!(key, &("gpt-5".to_owned(), "fast".to_owned()));
    assert_eq!((model.requests, model.metric.tokens.total), (2, 10));
    assert_eq!(model.shown_tier().as_deref(), Some("fast"));
}

#[test]
fn report_reads_materialized_rollups_after_second_pipeline() {
    let report = build_rollup_report(&report_rows(), Some("2026-08-03"));
    assert_eq!(report.selected.unwrap().day, 0);
    assert_eq!(report.windows.len(), 2);
    let window = &report.windows[1].window;
    assert_eq!(window.window_id, "w2");
    assert_eq!(window.minutes, vec![1, 2]);
    assert_eq!(window.metric.tokens.total, 42);
    assert_eq!(window.window_minutes, Some(101));
    assert_eq!(report.windows[1].capacity, Some(0));
    assert_eq!(report.windows[1].sessions.entries.len(), 1);
    assert!(report.days[1].reset);
    assert!(!report.days[0].reset);
    assert_eq!(report.days[1].window_id.as_deref(), Some("w2"));
}

#[test]
fn stores_account_quota_and_usage_without_secrets() {
    let quota = r#"{"id":2,"result":{"rateLimits":{"weekly":{"limitId":"weekly","planType":"plus","primary":{"usedPercent":12,"windowMinutes":10080,"resetsAt":1786351410}}}}}"#;
    let (records, report) = ingest_line(&parse(quota), 1_700_000_000_000);
    assert_eq!(report.quota_rows, 1);
    let mut rows = report_rows();
    rows.app_quota = Some(AppQuota {
        used_percent: records[0].used_percent,
        window_minutes: records[0].window_minutes,
        resets_at_ms: records[0].resets_at_ms,
        last_seen_at_ms: Some(records[0].last_seen_at_ms),
    });
    let report = build_rollup_report(&rows, None);
    assert_eq!(report.current.source, "app_server");
    assert_eq!(report.current.used_percent, Some(float(12.0)));
    assert_eq!(report.current.display.as_deref(), Some("plus"));
    assert_eq!(report.account_daily_tokens.entries[0].1.tokens, Some(42));
    let before = build_rollup_report(&report_rows(), None);
    assert_eq!(before.current.source, "jsonl");
    assert_eq!(before.current.window, Some(1));
}

#[test]
fn a_report_of_nothing_shows_nothing() {
    let rows = ReportRows {
        days: vec![],
        minutes: vec![],
        sessions: vec![],
        capacities: vec![],
        account: RollupAccount::default(),
        account_usage: vec![],
        app_quota: None,
        ccusage: vec![],
    };
    let report = build_rollup_report(&rows, Some("2026-08-04"));
    assert!(report.selected.is_none());
    assert_eq!(report.current.source, "none");
    assert_eq!(
        report.current.quality.as_deref(),
        Some("official_unavailable")
    );
}

#[test]
fn later_words_on_a_day_replace_earlier_ones() {
    let usage = |at: i64, text: &str| AccountUsage {
        observed_at_ms: at,
        value: parse(text),
    };
    let days = account_daily_tokens(&vec![
        usage(9, r#"{"date":"2026-08-04","tokens":7}"#),
        usage(3, r#"[{"start_date":"2026-08-04","totalTokens":1}]"#),
        usage(9, r#"{"date":"2026-08-05"}"#),
    ]);
    assert_eq!(days.entries.len(), 2);
    assert_eq!(days.entries[0].1.tokens, Some(7));
    assert_eq!(days.entries[1].1.tokens, None);
    let known = vec![day("2026-08-04", None, None)];
    assert_eq!(select_date(&known, Some("2026-08-09")), Some(0));
    assert_eq!(select_date(&vec![], None), None);
}

#[test]
fn the_latest_capacity_that_fits_holds() {
    let capacities = vec![
        capacity(Some("PLUS"), 10, 1.0),
        capacity(None, 5, 2.0),
        capacity(Some("pro"), 20, 3.0),
    ];
    let plus = Some("plus".to_owned());
    assert_eq!(capacity_for(&capacities, &None, &plus, 30), Some(0));
    assert_eq!(capacity_for(&capacities, &None, &plus, 7), Some(1));
    assert_eq!(capacity_for(&capacities, &None, &None, 30), Some(1));
    assert_eq!(capacity_for(&capacities, &None, &plus, 1), None);
}

#[test]
fn rows_without_usage_add_nothing() {
    let mut sum = RollupMetric::default();
    sum.add(&metric(None, None));
    assert!(!sum.has_usage);
    sum.add(&metric(Some(3), Some(1.0)));
    assert_eq!(sum.credit().map(|amounts| amounts.len()), Some(1));
    sum.add(&metric(Some(4), None));
    assert_eq!(sum.tokens.total, 7);
    assert!(sum.credit().is_none());
}

#[test]
fn only_the_latest_good_runs_are_compared() {
    let rows = report_rows();
    let told = rollup_validation(&rows.ccusage, &rows.days, &rows.sessions);
    assert_eq!(told.latest.len(), 1);
    assert_eq!(told.latest[0].status, "ok");
    assert_eq!(told.latest[0].total_tokens, 40);
    assert_eq!(told.comparisons.len(), 3);
    assert_eq!(told.comparisons[0].metric, "total_tokens");
    assert_eq!(
        told.comparisons[0].figures,
        Figures::Tokens {
            local: 42,
            ccusage: Some(40)
        }
    );
    assert_eq!(told.comparisons[2].metric, "api_usd");
    let mixed = vec![
        ccusage("session", "a", 3, "ok"),
        ccusage("session", "b", 3, "failed"),
    ];
    let told = rollup_validation(&mixed, &rows.days, &rows.sessions);
    assert_eq!(told.latest[0].status, "partial");
    assert!(told.comparisons.is_empty());
    let alone = vec![ccusage("session", "b", 3, "ok")];
    let told = rollup_validation(&alone, &rows.days, &rows.sessions);
    assert_eq!(told.comparisons[0].session_id.as_deref(), Some("b"));
    assert_eq!(
        told.comparisons[0].figures,
        Figures::Tokens {
            local: 2,
            ccusage: Some(40)
        }
    );
}

fn input(plan: &str, credit: Option<f64>, status: Option<&str>) -> CapacityInput {
    CapacityInput {
        plan_code: plan.to_owned(),
        credit: credit.map(float),
        effective_from_ms: None,
        status: status.map(str::to_owned),
        note: None,
    }
}

#[test]
fn capacity_write_is_small_and_machine_local() {
    let row = save_capacity(input("usd100", Some(200.0), Some("confirmed")), None, None, 77).unwrap();
    assert_eq!(row.profile_code, "usd100");
    assert_eq!(row.weekly_credit, float(200.0));
    assert_eq!((row.effective_from_ms, row.confirmed_at_ms), (77, 77));
}

#[test]
fn capacities_are_refused_with_a_reason() {
    let reason = |input: CapacityInput| match save_capacity(input, None, None, 0) {
        Err(ServerError::InvalidRequest(text)) => text,
        Ok(_) => String::new(),
    };
    assert_eq!(
        reason(input("usd5", Some(1.0), None)),
        "plan_code must be usd20, usd100 or usd200"
    );
    for bad in [-1.0, f64::INFINITY, f64::NAN] {
        assert_eq!(
            reason(input("usd20", Some(bad), None)),
            "credit must be a finite non-negative number"
        );
    }
    assert_eq!(
        reason(input("usd20", None, None)),
        "confirmed capacity requires a Credit value"
    );
    assert_eq!(
        reason(input("usd20", Some(0.0), Some("draft"))),
        "the minimal capacity table only stores confirmed values"
    );
    assert_eq!(reason(input("usd20", Some(-0.0), None)), "");
    let query = ReportQuery { date: None };
    assert!(query.date.is_none());
}

#[test]
fn minimal_schema_has_seven_new_tables() {
    let tables = minimal_tables();
    assert_eq!(tables.len(), 7);
    for table in ["source_jsonl", "usage_daily", "capacities_v2"] {
        assert!(tables.contains(&table));
    }
    for table in ["files", "events", "quota_samples", "settings"] {
        assert!(!tables.contains(&table));
    }
}

#[test]
fn logs_of_the_small_report() {
    let collector = JsonlCollector::new("/h".to_owned()).with_timezone("UTC".to_owned());
    assert_eq!(collector.home_display(), "/h");
    let found = collector.discover_paths(
        &vec!["/h/sessions/b.jsonl".to_owned()],
        &vec!["/h/archived_sessions/a.jsonl".to_owned()],
    );
    assert_eq!(found.len(), 2);
    assert_eq!(configured_timezone(None), "Asia/Shanghai");
    assert_eq!(configured_timezone(Some("UTC".to_owned())), "UTC");
}

#[test]
fn a_fact_that_is_stored_again_keeps_its_time_and_counts() {
    let mut stored = SourceJsonlRecord::default();
    stored.source_key = "usage:1".to_owned();
    stored.observed_at_ms = 10;
    stored.total_tokens = Some(5);
    stored.model = Some("first".to_owned());
    let mut seen = stored.copy();
    seen.observed_at_ms = 20;
    seen.total_tokens = Some(7);
    seen.model = None;
    seen.title = Some("told later".to_owned());
    let kept = upsert_source_jsonl(&stored, &seen);
    assert_eq!(kept.observed_at_ms, 10);
    assert_eq!(kept.total_tokens, Some(5));
    assert_eq!(kept.model.as_deref(), Some("first"));
    assert_eq!(kept.title.as_deref(), Some("told later"));
    let again = upsert_source_jsonl(&kept, &seen);
    assert_eq!(again.observed_at_ms, kept.observed_at_ms);
    assert_eq!(again.total_tokens, kept.total_tokens);
    assert_eq!(again.title, kept.title);
}

#[test]
fn events_and_turns_are_read_at_the_time_of_their_stamp() {
    let event = r#"{"timestamp":"1970-01-01T00:00:01Z","type":"session_meta","payload":{"id":"s1"}}"#;
    let read = parse_event(event.as_bytes(), &parse(event), &mut FileContext::default())
        .unwrap()
        .unwrap();
    let at = parse_event_at(
        event.as_bytes(),
        &parse(event),
        &mut FileContext::default(),
        1_000,
    )
    .unwrap();
    assert_eq!(read.observed_at_ms, 1_000);
    assert_eq!(at.observed_at_ms, 1_000);
    assert_eq!(read.source_digest, at.source_digest);
    let turn = r#"{"timestamp":"1970-01-01T00:00:02Z","type":"event_msg","payload":{"type":"task_started","turn_id":"t1"}}"#;
    let mut context = FileContext::default();
    context.session_id = Some("s1".to_owned());
    let started = parse_turn_at(&parse(turn), &mut context, 2_000).unwrap();
    assert_eq!(started.started_at_ms, Some(2_000));
    assert_eq!(context.turn_id.as_deref(), Some("t1"));
}

#[test]
fn a_merge_of_two_sums_is_the_sum_over_both() {
    let request = |input: i64, credit: Option<i64>, flag: &str| {
        (
            TokenCounts {
                input,
                total: input,
                ..Default::default()
            },
            Price {
                credit_micros: credit,
                api_usd_micros: Some(input),
                quality: vec![flag.to_owned()],
            },
        )
    };
    let requests = [
        request(10, Some(3), "b"),
        request(20, Some(4), "a"),
        request(30, None, "b"),
    ];
    let sum = |part: &[(TokenCounts, Price)]| {
        let mut sum = MetricAggregate::default();
        for (tokens, price) in part {
            sum.add(tokens, price);
        }
        sum
    };
    for split in 0..=requests.len() {
        let mut merged = sum(&requests[..split]);
        merged.merge(&sum(&requests[split..]));
        assert_eq!(format!("{merged:?}"), format!("{:?}", sum(&requests)));
    }
    let all = sum(&requests);
    assert_eq!(all.tokens.input, 60);
    assert_eq!(all.credit(), None);
    assert_eq!(all.api_usd(), Some(60));
    assert_eq!(all.quality.items, ["a", "b"]);
}
