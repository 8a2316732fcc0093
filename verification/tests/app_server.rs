use codex_meter::db::{upsert_source_app_server, SourceAppServerRecord};
use codex_meter::json::{Float, Json, Number};
use codex_meter::minimal::app_server as small;
use codex_meter::minimal::ccusage as small_ccusage;
use codex_meter::pipelines::source::app_server::{
    ingest_line, record_unavailable, request_lines, sanitize, AppServerConfig, AppServerScanReport,
    Replies,
};
use codex_meter::pipelines::source::ccusage::{
    ccusage_version, env_flag, is_private_key, persist_source_rows, read_outcome, run_arguments,
    run_plan, sanitize_value, source_record, summarize, CcusageCollector, CcusageLauncher,
    CommandOutcome, CommandResult,
};

fn rank(value: f64) -> i64 {
    let bits = value.to_bits() as i64;
    if bits < 0 {
        -(bits & i64::MAX)
    } else {
        bits
    }
}

fn float(value: f64) -> Float {
    Float {
        rank: rank(value),
        raised: rank(value + 5.0),
    }
}

fn number(value: &serde_json::Number) -> Json {
    let float_value = value.as_f64().unwrap();
    Json::Number(Number {
        integer: value.as_i64(),
        truncated: value.as_i64().unwrap_or(float_value as i64),
        float: float(float_value),
        float_text: format!("{float_value:?}"),
        text: value.to_string(),
    })
}

fn json(value: &serde_json::Value) -> Json {
    match value {
        serde_json::Value::Null => Json::Null,
        serde_json::Value::Bool(flag) => Json::Bool(*flag),
        serde_json::Value::Number(value) => number(value),
        serde_json::Value::String(text) => Json::Text(text.clone()),
        serde_json::Value::Array(items) => Json::Array(items.iter().map(json).collect()),
        serde_json::Value::Object(members) => Json::Object(
            members
                .iter()
                .map(|(key, member)| (key.clone(), json(member)))
                .collect(),
        ),
    }
}

fn parse(text: &str) -> Json {
    json(&serde_json::from_str(text).unwrap())
}


fn store(
    table: &mut Vec<SourceAppServerRecord>,
    line: &str,
    observed_at_ms: i64,
) -> AppServerScanReport {
    let (records, report) = ingest_line(&parse(line), observed_at_ms);
    for record in records {
        match table
            .iter_mut()
            .find(|held| held.source_key == record.source_key)
        {
            Some(held) => *held = upsert_source_app_server(held, &record),
            None => table.push(record),
        }
    }
    report
}

#[test]
fn stores_sanitized_account_quota_and_usage() {
    let mut table = Vec::new();
    let account = r#"{"id":1,"result":{"account":{"type":"chatgpt","email":"Alice@example.com","planType":"plus","provider":"openai","access_token":"secret"}}}"#;
    let report = store(&mut table, account, 1_700_000_000_000);
    assert_eq!(report.account_rows, 1);
    let saved = table
        .iter()
        .find(|row| row.kind == "account")
        .map(|row| {
            format!(
                "{}{}",
                row.account_key.clone().unwrap_or_default(),
                row.account_label.clone().unwrap_or_default()
            )
        })
        .unwrap();
    assert!(!saved.contains("secret"));
    let quota = r#"{"id":2,"result":{"rateLimits":{"weekly":{"limitId":"weekly","planType":"plus","primary":{"usedPercent":12,"windowMinutes":10080,"resetsAt":1786351410}}}}}"#;
    assert_eq!(store(&mut table, quota, 1_700_000_000_000).quota_rows, 1);
    let usage = r#"{"id":3,"result":{"lifetimeTokens":42,"dailyUsageBuckets":[{"startDate":"2026-08-04","tokens":42}]}}"#;
    assert_eq!(store(&mut table, usage, 1_700_000_000_000).usage_rows, 1);
    assert_eq!(table.len(), 3);
}

#[test]
fn quota_state_keeps_first_and_last_seen_without_poll_growth() {
    let quota = |used: i64| {
        format!(
            r#"{{"id":2,"result":{{"rateLimits":{{"weekly":{{"limitId":"weekly","primary":{{"usedPercent":{used},"windowMinutes":10080,"resetsAt":1786351410}}}}}}}}}}"#
        )
    };
    let mut table = Vec::new();
    store(&mut table, &quota(12), 1_000);
    store(&mut table, &quota(12), 2_000);
    assert_eq!(table.len(), 1);
    assert_eq!(table[0].kind, "quota");
    assert_eq!(table[0].first_seen_at_ms, 1_000);
    assert_eq!(table[0].last_seen_at_ms, 2_000);
    store(&mut table, &quota(13), 3_000);
    assert_eq!(table.len(), 2);
}

#[test]
fn parses_current_rate_limits_and_rate_limits_by_id_shapes() {
    let mut table = Vec::new();
    let response = r#"{"id":3,"result":{"rateLimits":{"limitId":"codex","primary":{"usedPercent":97,"windowDurationMins":10080,"resetsAt":1786351410},"secondary":null,"planType":"plus"},"rateLimitsByLimitId":{"codex":{"limitId":"codex","primary":{"usedPercent":97,"windowDurationMins":10080,"resetsAt":1786351410},"secondary":null,"planType":"plus"}}}}"#;
    let report = store(&mut table, response, 1_700_000_000_000);
    assert_eq!(report.quota_rows, 1);
    let row = &table[0];
    assert_eq!(row.limit_id.as_deref(), Some("codex"));
    assert_eq!(row.window_minutes, Some(10080));
    assert_eq!(row.used_percent, Some(float(97.0)));
    assert_eq!(row.resets_at_ms, Some(1_786_351_410_000));
}

#[test]
fn protocol_error_is_saved_as_unavailable_without_zero_values() {
    let mut table = Vec::new();
    store(
        &mut table,
        r#"{"id":4,"error":{"code":"server_unavailable","message":"offline"}}"#,
        4_000,
    );
    let row = &table[0];
    assert_eq!(row.status, "unavailable");
    assert_eq!(row.freshness.as_deref(), Some("unavailable"));
    assert!(row.lifetime_tokens.is_none());
    assert_eq!(record_unavailable(4_000).status, "unavailable");
}

#[test]
fn a_poll_is_complete_once_every_reply_was_seen() {
    let mut replies = Replies::new();
    for line in [r#"{"id":1}"#, r#"{"id":2}"#, r#"{"id":2}"#, "{}"] {
        replies.note(&Some(parse(line)));
    }
    replies.note(&None);
    assert!(!replies.is_complete(false));
    replies.note(&Some(parse(r#"{"id":3}"#)));
    assert!(replies.is_complete(false));
    assert!(!replies.is_complete(true));
    assert_eq!(request_lines(true).len(), request_lines(false).len() + 1);
    assert!(AppServerConfig::default().poll_interval_ms > 0);
}

#[test]
fn nothing_private_is_left_of_a_message() {
    let clean = sanitize(&parse(
        r#"{"account":{"email":"a@b","plan":"plus"},"list":[{"access_token":"x","n":1}]}"#,
    ));
    let text = clean.to_text();
    assert!(!text.contains("access_token"));
    assert!(text.contains("plus"));
    let again = sanitize(&clean);
    assert_eq!(again.to_text(), text);
}

fn command_result(speed: &str, version: &str) -> CommandResult {
    CommandResult {
        scope: "daily".to_owned(),
        pricing: "api".to_owned(),
        speed: speed.to_owned(),
        started_at_ms: 10,
        finished_at_ms: 20,
        version: Some(version.to_owned()),
        status: "ok".to_owned(),
        data: Json::Null,
    }
}

fn first_total(value: &Json) -> Option<i64> {
    match value.get("models") {
        Some(Json::Array(models)) => models[0].get("totalTokens").and_then(|n| n.as_exact()),
        _ => None,
    }
}

#[test]
fn sanitization_drops_private_fields() {
    let value = parse(
        r#"{"sessionId":"safe","directory":"/private","prompt":"secret","models":[{"totalTokens":10}]}"#,
    );
    let sanitized = sanitize_value(&value, None);
    assert!(sanitized.get("directory").is_none());
    assert!(sanitized.get("prompt").is_none());
    assert_eq!(first_total(&sanitized), Some(10));
    assert!(is_private_key("prompt"));
    assert!(matches!(
        sanitize_value(&value, Some("prompt")),
        Json::Null
    ));
}

#[test]
fn source_record_normalizes_tokens() {
    let result = command_result("auto", "ccusage");
    let row = parse(
        r#"{"date":"2026-08-04","inputTokens":2,"cacheReadTokens":3,"cacheCreationTokens":4,"outputTokens":5,"totalTokens":10,"costUSD":1.25,"models":{"gpt-5": {"totalTokens":10}}}"#,
    );
    let record = source_record(&result, "2026-08-04", Some(&row));
    assert_eq!(record.total_tokens, Some(10));
    assert_eq!(record.cache_write_tokens, Some(4));
    assert_eq!(record.amount, Some(float(1.25)));
}

#[test]
fn rows_of_a_run_are_told_by_their_dates() {
    let data = parse(r#"{"daily": [{"date": "2026-08-04", "totalTokens": 10}]}"#);
    let rows = persist_source_rows(&command_result("standard", "v"), &data);
    assert_eq!(rows.len(), 1);
    assert_eq!(rows[0].scope_key, "2026-08-04");
    assert_eq!(rows[0].total_tokens, Some(10));
}

#[test]
fn eight_runs_are_planned_and_summed_up() {
    assert_eq!(run_plan().len(), 8);
    let arguments = run_arguments("daily", "auto", "Asia/Shanghai", Some("/tmp/c.json"));
    assert!(arguments.contains(&"daily".to_owned()));
    assert!(arguments.contains(&"Asia/Shanghai".to_owned()));
    let mut failed = command_result("auto", "v");
    failed.status = "failed".to_owned();
    let summary = summarize(&vec![command_result("auto", "v"), failed]);
    assert_eq!((summary.runs, summary.succeeded), (2, 1));
    assert_eq!(ccusage_version("ccusage 20.0.19\n").as_deref(), Some("ccusage 20.0.19"));
}

#[test]
fn outcomes_of_a_run() {
    let (status, _) = read_outcome(CommandOutcome::Value(parse(r#"{"daily":[]}"#)));
    assert_eq!(status, "ok");
    for outcome in [
        CommandOutcome::InvalidJson,
        CommandOutcome::Exit(None),
        CommandOutcome::Unavailable("no such file".to_owned()),
    ] {
        assert_ne!(read_outcome(outcome).0, "ok");
    }
}

#[test]
fn a_collector_runs_where_it_is_switched_on() {
    assert!(env_flag(Some("1")));
    assert!(!env_flag(None));
    let on = CcusageCollector::from_env("/h", "UTC", CcusageLauncher::Npx, Some("1"));
    assert!(on.enabled());
    let off = CcusageCollector::disabled("/h", "UTC", CcusageLauncher::Npx);
    assert!(!off.enabled());
    let launcher = CcusageLauncher::from_env(Some("/bin/ccusage".to_owned()), true);
    assert_eq!(launcher.command().0, "/bin/ccusage");
}

#[test]
fn sanitization_removes_paths_and_prompt_like_fields() {
    let value = parse(
        r#"{"sessionId": "safe","directory": "/private/path","sessionFile": "/private/file","prompt": "do not store","models": [{"model": "gpt-5", "totalTokens": 10}]}"#,
    );
    let sanitized = small_ccusage::sanitize_value(&value, None);
    assert_eq!(sanitized.text_member("sessionId").as_deref(), Some("safe"));
    assert!(sanitized.get("directory").is_none());
    assert!(sanitized.get("sessionFile").is_none());
    assert!(sanitized.get("prompt").is_none());
    assert_eq!(first_total(&sanitized), Some(10));
}

#[test]
fn source_record_keeps_only_normalized_ccusage_fields() {
    let result = command_result("auto", "ccusage 20.0.19");
    let row = parse(
        r#"{"date": "2026-08-04","inputTokens": 2,"cacheReadTokens": 3,"cacheCreationTokens": 4,"outputTokens": 5,"reasoningOutputTokens": 1,"totalTokens": 10,"costUSD": 1.25,"models": {"gpt-5": {"totalTokens": 10}}}"#,
    );
    let record = small_ccusage::source_record(&result, "2026-08-04", Some(&row));
    assert_eq!(record.total_tokens, Some(10));
    assert_eq!(record.cache_write_tokens, Some(4));
    assert_eq!(record.amount, Some(float(1.25)));
    assert!(record.model_breakdown_json.is_some());
    assert_eq!(record.status, "ok");
}

#[test]
fn persists_normalized_daily_source_rows() {
    let data = parse(r#"{"daily": [{"date": "2026-08-04", "totalTokens": 10}]}"#);
    let rows =
        small_ccusage::persist_source_rows(&command_result("standard", "ccusage 20.0.19"), &data);
    assert_eq!(rows[0].scope_key, "2026-08-04");
    assert_eq!(rows[0].total_tokens, Some(10));
}

#[test]
fn the_small_collector_runs_when_its_switches_say_so() {
    let from = |boot: Option<&str>, refresh: Option<&str>| {
        small_ccusage::CcusageCollector::from_env(
            "/h".to_owned(),
            "UTC".to_owned(),
            None,
            boot,
            refresh,
        )
    };
    assert!(from(Some("1"), None).run_on_boot());
    assert!(!from(Some("1"), None).run_on_refresh());
    let off = small_ccusage::CcusageCollector::disabled("/h".to_owned(), "UTC".to_owned(), None);
    assert!(!off.run_on_boot() && !off.run_on_refresh());
    assert_eq!(off.binary, "ccusage");
}

#[test]
fn the_small_report_stores_accounts_quotas_and_usage() {
    let account = r#"{"id":1,"result":{"account":{"type":"chatgpt","email":"Alice@example.com","planType":"plus","provider":"openai","access_token":"secret"}}}"#;
    let (records, report) = small::ingest_line(&parse(account), 1_700_000_000_000);
    assert_eq!(report.account_rows, 1);
    assert_eq!(records[0].plan_type.as_deref(), Some("plus"));
    let saved = format!("{:?}", records[0]);
    assert!(!saved.contains("secret"));
    assert_eq!(small::poll_interval(5), 60_000);
    assert_eq!(small::poll_interval(90), 90_000);
}
