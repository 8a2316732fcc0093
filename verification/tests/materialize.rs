use codex_meter::db::{CapacityRecord, SourceAppServerRecord, SourceJsonlRecord};
use codex_meter::json::{Float, Json, Number};
use codex_meter::pipelines::result::materialize::capacity::capacity_for;
use codex_meter::pipelines::result::materialize::clock::{
    day_end_ms, day_start_ms, local_date, minute_start, MaterializeError,
};
use codex_meter::pipelines::result::materialize::dedupe::dedupe_usages;
use codex_meter::pipelines::result::materialize::metric::{
    effective_plan_type, usage_context, UsageContext,
};
use codex_meter::pipelines::result::materialize::records::{
    Capacity, Metric, QuotaObservation, UsageRecord,
};
use codex_meter::pipelines::result::materialize::windows::{
    build_windows, find_usage_window, retain_canonical_primary_quotas,
};
use codex_meter::pipelines::result::materialize::{refresh_rollups, RollupRows};
use codex_meter::pricing::{Price, ServiceTier, TokenCounts};

fn rank(value: f64) -> i64 {
    let bits = value.to_bits() as i64;
    if bits < 0 {
        -(bits & i64::MAX)
    } else {
        bits
    }
}

fn float(value: f64) -> Float {
    Float {
        rank: rank(value),
        raised: rank(value + 5.0),
    }
}

fn number(value: &serde_json::Number) -> Json {
    let float_value = value.as_f64().unwrap();
    Json::Number(Number {
        integer: value.as_i64(),
        truncated: value.as_i64().unwrap_or(float_value as i64),
        float: float(float_value),
        float_text: format!("{float_value:?}"),
        text: value.to_string(),
    })
}

fn json(value: &serde_json::Value) -> Json {
    match value {
        serde_json::Value::Null => Json::Null,
        serde_json::Value::Bool(flag) => Json::Bool(*flag),
        serde_json::Value::Number(value) => number(value),
        serde_json::Value::String(text) => Json::Text(text.clone()),
        serde_json::Value::Array(items) => Json::Array(items.iter().map(json).collect()),
        serde_json::Value::Object(members) => Json::Object(
            members
                .iter()
                .map(|(key, member)| (key.clone(), json(member)))
                .collect(),
        ),
    }
}

fn parse(text: &str) -> Json {
    json(&serde_json::from_str(text).unwrap())
}

fn refresh(rows: Vec<SourceJsonlRecord>) -> RollupRows {
    refresh_rollups(&rows, &vec![], &vec![], &vec![], ServiceTier::Standard).unwrap()
}

fn has_flag(quality: &Option<String>, flag: &str) -> bool {
    quality.as_ref().is_some_and(|text| text.contains(flag))
}

fn tokens(input: i64) -> TokenCounts {
    TokenCounts {
        input,
        total: input,
        ..Default::default()
    }
}

fn usage_record(source_key: &str, observed_at_ms: i64, relation: Option<&str>) -> UsageRecord {
    UsageRecord {
        source_key: source_key.to_owned(),
        observed_at_ms,
        session_id: Some("session".to_owned()),
        root_session_id: Some("session".to_owned()),
        turn_id: Some("turn".to_owned()),
        model: Some("gpt-5.6-sol".to_owned()),
        tier: Some("standard".to_owned()),
        reasoning_effort: Some("high".to_owned()),
        relation: relation.map(str::to_owned),
        provider: None,
        plan_type: None,
        tokens: tokens(10),
    }
}

#[test]
fn dedupe_prefers_the_parent_owner_of_a_replayed_event() {
    let deduped = dedupe_usages(vec![
        usage_record("child:1", 100, Some("child")),
        usage_record("parent:1", 100, Some("main")),
    ]);
    assert_eq!(deduped.len(), 1);
    assert_eq!(deduped[0].source_key, "parent:1");
}

#[test]
fn dedupe_keeps_identical_events_from_independent_roots() {
    let mut first = usage_record("first", 100, Some("main"));
    let mut second = usage_record("second", 100, Some("main"));
    first.root_session_id = Some("root-a".to_owned());
    second.root_session_id = Some("root-b".to_owned());
    assert_eq!(dedupe_usages(vec![first, second]).len(), 2);
}

#[test]
fn deduping_twice_changes_nothing() {
    let once = dedupe_usages(vec![
        usage_record("child:1", 100, Some("child")),
        usage_record("parent:1", 100, Some("main")),
        usage_record("later", 90_000, Some("main")),
    ]);
    let keys: Vec<String> = once.iter().map(|usage| usage.source_key.clone()).collect();
    let twice = dedupe_usages(once);
    let again: Vec<String> = twice.iter().map(|usage| usage.source_key.clone()).collect();
    assert_eq!(keys, again);
}

#[test]
fn historical_api_usage_does_not_consume_subscription_credit() {
    let mut api = usage_record("api", 100, Some("main"));
    api.provider = Some("pro".to_owned());
    assert_eq!(effective_plan_type(&api).as_deref(), Some("api"));
    assert_eq!(usage_context(&api), UsageContext::Api);

    let price = Price {
        credit_micros: Some(1_000_000),
        api_usd_micros: Some(100_000),
        quality: Vec::new(),
    };
    let mut metric = Metric::default();
    metric.add_usage(&api, &price);
    assert_eq!(metric.credit(), None);
    assert_eq!(metric.api_usd(), Some(100_000));

    let mut plus = usage_record("plus", 200, Some("main"));
    plus.plan_type = Some("plus".to_owned());
    metric.add_usage(&plus, &price);
    assert_eq!(metric.credit(), Some(1_000_000));
}

#[test]
fn default_capacity_profile_follows_the_historical_plan() {
    let capacity = |profile: &str, credit: f64| Capacity {
        profile: profile.to_owned(),
        credit: rank(credit),
        account_key: None,
        plan_type: None,
        from: 0,
        to: None,
    };
    let capacities = vec![capacity("usd20", 3_200.0), capacity("usd200", 64_000.0)];
    assert_eq!(
        capacity_for(&capacities, None, Some("plus"), 1).map(|value| value.profile.as_str()),
        Some("usd20")
    );
    assert_eq!(
        capacity_for(&capacities, None, Some("pro"), 1).map(|value| value.profile.as_str()),
        Some("usd200")
    );
    assert!(capacity_for(&capacities, None, Some("api"), 1).is_none());
}

#[test]
fn rebuilds_four_result_tables_from_source_rows() {
    let rows = refresh(vec![SourceJsonlRecord {
        source_key: "usage:1".to_owned(),
        kind: "usage".to_owned(),
        observed_at_ms: 1785825720000,
        model: Some("gpt-5.6-sol".to_owned()),
        service_tier: Some("standard".to_owned()),
        input_tokens: Some(10),
        total_tokens: Some(10),
        ..Default::default()
    }]);
    assert_eq!(rows.summary().days, 1);
    assert_eq!(rows.daily.len(), 1);
    assert!(!rows.minutes.is_empty());
    assert!(!rows.sessions.is_empty());
    assert!(rows.windows.is_empty());
    assert_eq!(rows.daily[0].total_tokens, Some(10));
    assert_eq!(rows.daily[0].local_date, "2026-08-04");
}

#[test]
fn unclassified_service_tier_keeps_rollup_amounts_and_marks_quality() {
    let rows = refresh(vec![SourceJsonlRecord {
        source_key: "usage:unclassified".to_owned(),
        kind: "usage".to_owned(),
        observed_at_ms: 1785825720000,
        model: Some("gpt-5.6-sol".to_owned()),
        plan_type: Some("pro".to_owned()),
        service_tier: None,
        input_tokens: Some(10),
        total_tokens: Some(10),
        ..Default::default()
    }]);
    let row = &rows.daily[0];
    assert!(row.credit_micros.is_some());
    assert!(row.api_usd_micros.is_some());
    assert!(has_flag(&row.quality, "service_tier_unclassified"));
}

#[test]
fn partial_pricing_keeps_known_amounts_and_marks_the_rollup() {
    let mut metric = Metric::default();
    metric.add(
        &tokens(10),
        &Price {
            credit_micros: Some(1_000_000),
            api_usd_micros: Some(100_000),
            quality: Vec::new(),
        },
    );
    metric.add(
        &tokens(5),
        &Price {
            credit_micros: None,
            api_usd_micros: None,
            quality: vec!["missing_pricing".to_owned()],
        },
    );
    assert_eq!(metric.credit(), Some(1_000_000));
    assert_eq!(metric.api_usd(), Some(100_000));
    assert_eq!(metric.quality_flags(), Some("pricing_partial"));
}

#[test]
fn splits_turns_at_local_date_and_keeps_reasoning_effort() {
    let first = day_start_ms("2026-08-01") + 86_399_000;
    let second = day_start_ms("2026-08-02") + 1_000;
    let mut rows = vec![
        SourceJsonlRecord {
            source_key: "session:root".to_owned(),
            kind: "session".to_owned(),
            observed_at_ms: first,
            session_id: Some("session".to_owned()),
            root_session_id: Some("session".to_owned()),
            title: Some("跨日任务".to_owned()),
            relation: Some("main".to_owned()),
            ..Default::default()
        },
        SourceJsonlRecord {
            source_key: "turn:1".to_owned(),
            kind: "turn".to_owned(),
            observed_at_ms: first,
            session_id: Some("session".to_owned()),
            root_session_id: Some("session".to_owned()),
            turn_id: Some("turn".to_owned()),
            started_at_ms: Some(first - 30_000),
            ended_at_ms: Some(second + 30_000),
            ..Default::default()
        },
    ];
    for (key, observed_at_ms) in [("usage:1", first), ("usage:2", second)] {
        rows.push(SourceJsonlRecord {
            source_key: key.to_owned(),
            kind: "usage".to_owned(),
            observed_at_ms,
            session_id: Some("session".to_owned()),
            root_session_id: Some("session".to_owned()),
            turn_id: Some("turn".to_owned()),
            model: Some("gpt-5.6-sol".to_owned()),
            service_tier: Some("standard".to_owned()),
            reasoning_effort: Some("high".to_owned()),
            input_tokens: Some(10),
            total_tokens: Some(10),
            ..Default::default()
        });
    }
    let made = refresh(rows);
    assert_eq!(made.summary().sessions, 2);
    for row in &made.sessions {
        assert!(has_flag(&row.quality, "split_boundary"));
        assert_eq!(row.models[0].reasoning_effort, "high");
        assert_eq!(row.title.as_deref(), Some("跨日任务"));
    }
}

#[test]
fn materializes_primary_reset_windows_and_official_percentages() {
    let first = day_start_ms("2026-08-03") + 10 * 60_000;
    let second = first + 120 * 60_000;
    let week = 7 * 24 * 60 * 60_000;
    let mut rows = Vec::new();
    for (key, observed_at_ms, used_percent, resets_at_ms) in [
        ("quota:1", first, 80.0, first + week),
        ("quota:2", second, 1.0, second + week),
    ] {
        rows.push(SourceJsonlRecord {
            source_key: key.to_owned(),
            kind: "quota".to_owned(),
            observed_at_ms,
            limit_id: Some("weekly".to_owned()),
            window_kind: Some("primary".to_owned()),
            used_percent: Some(float(used_percent)),
            window_minutes: Some(10_080),
            resets_at_ms: Some(resets_at_ms),
            ..Default::default()
        });
    }
    for (key, observed_at_ms) in [
        ("usage:before", first + 60_000),
        ("usage:after", second + 60_000),
    ] {
        rows.push(SourceJsonlRecord {
            source_key: key.to_owned(),
            kind: "usage".to_owned(),
            observed_at_ms,
            session_id: Some("session".to_owned()),
            root_session_id: Some("session".to_owned()),
            turn_id: Some(key.to_owned()),
            model: Some("gpt-5.6-sol".to_owned()),
            service_tier: Some("standard".to_owned()),
            input_tokens: Some(10),
            total_tokens: Some(10),
            ..Default::default()
        });
    }
    let made = refresh(rows);
    assert_eq!(made.summary().windows, 2);
    assert!(made.windows.iter().all(|row| row.window_kind == "primary"));
    assert!(made.minutes.iter().any(|row| row.reset_marker));
    assert!(made
        .windows
        .iter()
        .any(|row| row.official_percent_start == Some(float(80.0))));
    let by_day: i64 = made.daily.iter().filter_map(|row| row.total_tokens).sum();
    let by_minute: i64 = made.minutes.iter().filter_map(|row| row.total_tokens).sum();
    let by_session: i64 = made.sessions.iter().filter_map(|row| row.total_tokens).sum();
    assert_eq!((by_day, by_minute, by_session), (20, 20, 20));
}

fn quota(first_seen_at_ms: i64, used_percent: f64, resets_at_ms: i64) -> QuotaObservation {
    QuotaObservation {
        first_seen_at_ms,
        last_seen_at_ms: first_seen_at_ms,
        account_key: None,
        limit_id: Some("weekly".to_owned()),
        window_kind: "primary".to_owned(),
        used_percent: Some(float(used_percent)),
        window_minutes: Some(10_080),
        resets_at_ms: Some(resets_at_ms),
        plan_type: None,
        source: "jsonl".to_owned(),
        priority: 1,
    }
}

#[test]
fn reset_windows_prefer_explicit_reset_change() {
    let windows = build_windows(&vec![
        quota(1_000_000, 10.0, 2_000_000),
        quota(1_060_000, 11.0, 2_001_000),
        quota(1_120_000, 2.0, 2_600_000),
    ]);
    assert_eq!(windows.len(), 2);
    assert_eq!(windows[0].reset_at_ms, Some(1_120_000));
}

#[test]
fn same_reset_percent_drop_is_stale_not_a_new_window() {
    let values = vec![(1_000_000, 80.0), (1_060_000, 20.0), (1_120_000, 30.0)]
        .into_iter()
        .map(|(at, percent)| QuotaObservation {
            account_key: Some("account".to_owned()),
            plan_type: Some("pro".to_owned()),
            ..quota(at, percent, 2_000_000)
        })
        .collect::<Vec<_>>();
    let windows = build_windows(&values);
    assert_eq!(windows.len(), 1);
    assert_eq!(windows[0].reset_at_ms, Some(2_000_000));
}

#[test]
fn moving_zero_usage_reset_does_not_create_windows() {
    let values = [
        (1_000_000, 2_000_000),
        (1_060_000, 2_600_000),
        (1_120_000, 3_200_000),
    ]
    .into_iter()
    .map(|(at, resets_at_ms)| QuotaObservation {
        account_key: Some("account".to_owned()),
        limit_id: Some("codex_bengalfox".to_owned()),
        plan_type: Some("pro".to_owned()),
        ..quota(at, 0.0, resets_at_ms)
    })
    .collect::<Vec<_>>();
    assert_eq!(build_windows(&values).len(), 1);
}

#[test]
fn canonical_codex_primary_limit_filters_dynamic_spark_limit() {
    let make = |limit_id: &str, window_kind: &str| QuotaObservation {
        account_key: Some("account".to_owned()),
        limit_id: Some(limit_id.to_owned()),
        window_kind: window_kind.to_owned(),
        plan_type: Some("pro".to_owned()),
        ..quota(1_000_000, 0.0, 2_000_000)
    };
    let filtered = retain_canonical_primary_quotas(&vec![
        make("codex", "primary"),
        make("codex_bengalfox", "primary"),
        make("codex_bengalfox", "secondary"),
    ]);
    assert_eq!(filtered.len(), 2);
    assert!(filtered.iter().all(|quota| {
        quota.window_kind == "secondary" || quota.limit_id.as_deref() == Some("codex")
    }));
}

#[test]
fn windows_of_a_limit_do_not_overlap() {
    let windows = build_windows(&vec![
        quota(1_000_000, 10.0, 2_000_000),
        quota(1_120_000, 2.0, 2_600_000),
    ]);
    assert!(windows[0].reset_at_ms.unwrap() <= windows[1].start_at_ms);
    assert_eq!(
        find_usage_window(&windows, 1_200_000).unwrap().id,
        windows[1].id
    );
    assert_eq!(find_usage_window(&windows, 1).unwrap().id, windows[0].id);
    assert!(find_usage_window(&vec![], 1).is_none());
}

#[test]
fn instants_whose_local_date_is_past_the_calendar_are_refused() {
    let rows = |observed_at_ms: i64| {
        vec![SourceJsonlRecord {
            source_key: "usage:far".to_owned(),
            kind: "usage".to_owned(),
            observed_at_ms,
            input_tokens: Some(1),
            total_tokens: Some(1),
            ..Default::default()
        }]
    };
    let refresh_at = |at: i64| {
        refresh_rollups(&rows(at), &vec![], &vec![], &vec![], ServiceTier::Standard)
    };
    assert!(matches!(
        refresh_at(253_402_300_799_999),
        Err(MaterializeError::Undatable)
    ));
    assert!(matches!(refresh_at(i64::MIN), Err(MaterializeError::Undatable)));
    assert!(matches!(
        refresh_at(i64::MIN + 55_807),
        Err(MaterializeError::Undatable)
    ));
    assert!(refresh_at(1785825720000).is_ok());
    // the first minute of all has a start, and no date
    let first = refresh_at(i64::MIN + 55_808).unwrap();
    assert_eq!(first.minutes.len(), 1);
    assert_eq!(first.minutes[0].minute_start_ms, i64::MIN + 55_808);
    assert_eq!(first.minutes[0].local_date, "unknown");
    assert!(matches!(
        local_date(i64::MAX),
        Err(MaterializeError::Timestamp(reason)) if reason == "timestamp was not in range"
    ));
}

#[test]
fn the_reset_of_a_window_is_dated_where_its_start_is() {
    let refresh_window = |observed_at_ms: i64, resets_at_ms: i64| {
        let quota = SourceJsonlRecord {
            source_key: "quota:far".to_owned(),
            kind: "quota".to_owned(),
            observed_at_ms,
            limit_id: Some("codex".to_owned()),
            window_kind: Some("primary".to_owned()),
            used_percent: Some(float(10.0)),
            resets_at_ms: Some(resets_at_ms),
            ..Default::default()
        };
        refresh_rollups(&vec![quota], &vec![], &vec![], &vec![], ServiceTier::Standard)
    };
    let last_hours = 253_402_300_799_999;
    let outside = refresh_window(i64::MIN + 1_000_000, last_hours).unwrap();
    assert_eq!(outside.windows.len(), 1);
    assert_eq!(outside.windows[0].resets_at_ms, Some(last_hours));
    assert!(matches!(
        refresh_window(1_785_825_720_000, last_hours),
        Err(MaterializeError::Undatable)
    ));
    assert!(refresh_window(1_785_825_720_000, last_hours + 1).is_ok());
}

#[test]
fn account_days_and_capacities_reach_the_daily_row() {
    let usage = SourceJsonlRecord {
        source_key: "usage:1".to_owned(),
        kind: "usage".to_owned(),
        observed_at_ms: 1785825720000,
        model: Some("gpt-5.6-sol".to_owned()),
        plan_type: Some("plus".to_owned()),
        service_tier: Some("standard".to_owned()),
        input_tokens: Some(10),
        total_tokens: Some(10),
        ..Default::default()
    };
    let account = SourceAppServerRecord {
        source_key: "usage".to_owned(),
        kind: "usage".to_owned(),
        first_seen_at_ms: 1785825720000,
        last_seen_at_ms: 1785825720000,
        ..Default::default()
    };
    let days = parse(r#"[{"startDate":"2026-08-04","tokens":40}]"#);
    let capacity = CapacityRecord {
        profile_code: "usd20".to_owned(),
        account_key: None,
        plan_type: None,
        weekly_credit: rank(3_200.0),
        effective_from_ms: 0,
        effective_to_ms: None,
        confirmed_at_ms: 0,
    };
    let rows = refresh_rollups(
        &vec![usage],
        &vec![account],
        &vec![Some(days)],
        &vec![capacity],
        ServiceTier::Standard,
    )
    .unwrap();
    assert_eq!(rows.daily[0].account_tokens, Some(40));
    assert_eq!(rows.daily[0].unobserved_tokens, Some(30));
    assert_eq!(rows.daily[0].capacity_profile.as_deref(), Some("usd20"));
}

#[test]
fn minutes_and_days_of_the_clock() {
    assert_eq!(minute_start(61_999), 60_000);
    assert_eq!(minute_start(-1), -60_000);
    assert_eq!(local_date(0).unwrap(), "1970-01-01");
    assert!(local_date(i64::MAX).is_err());
    assert_eq!(
        day_end_ms("2026-08-01"),
        day_start_ms("2026-08-01") + 86_400_000
    );
    assert_eq!(day_start_ms("nonsense"), 0);
    assert_eq!(day_end_ms("nonsense"), i64::MAX);
}

#[test]
fn the_order_of_records_does_not_matter() {
    let record = |place: usize| match place {
        0 => {
            let mut fork = usage_record("a", 100, Some("fork"));
            fork.plan_type = Some("plus".to_owned());
            fork
        }
        1 => {
            let mut main = usage_record("c", 100, Some("main"));
            main.turn_id = None;
            main
        }
        2 => usage_record("b", 100, Some("main")),
        _ => usage_record("d", 50, Some("main")),
    };
    let kept = |order: [usize; 4]| {
        let records = order.iter().map(|place| record(*place)).collect();
        format!("{:?}", dedupe_usages(records))
    };
    let expected = kept([0, 1, 2, 3]);
    for order in [[3, 2, 1, 0], [1, 0, 3, 2], [2, 3, 0, 1], [0, 3, 1, 2]] {
        assert_eq!(kept(order), expected);
    }
    let deduped = dedupe_usages(vec![record(0), record(1), record(2), record(3)]);
    let keys: Vec<&str> = deduped.iter().map(|usage| usage.source_key.as_str()).collect();
    assert_eq!(keys, ["d", "b"]);
    assert_eq!(deduped[1].plan_type.as_deref(), Some("plus"));
}
