//! What the account server tells.
use crate::db::{
    empty_source_app_server_record, SourceAppServerRecord, SourceAppServerRecordView,
};
use crate::json::{
    integer_of_first, json_text, text_member, text_of_first, views, Json, JsonView,
};
use crate::minimal::jsonl::text_value;
use crate::pipelines::source::app_server::{
    bucket_keys, buckets_of, count_of_kind, find_buckets, first_instant, instant_of_first,
    lifetime_keys, scan_report, stable_key, stable_key_of, state_digest, state_digest_of,
    AppServerScanReport,
};
use crate::privacy::{is_clean, lemma_nothing_private_is_left, sanitized, without_private};
use crate::text::{first_of, first_some, holds};
use vstd::prelude::*;
use vstd::string::*;

pub mod laws;

verus! {

/// How the account server is started and asked.
#[derive(Debug)]
pub struct AppServerConfig {
    pub program: String,
    pub args: Vec<String>,
    pub poll_interval_ms: u64,
    pub read_timeout_ms: u64,
}

impl Default for AppServerConfig {
    fn default() -> (r: Self)
        ensures
            r.program@ == "codex"@,
            r.args.deep_view() == seq!["app-server"@, "--stdio"@],
            r.poll_interval_ms == 60_000,
            r.read_timeout_ms == 10_000,
    {
        let mut args: Vec<String> = Vec::new();
        args.push("app-server".to_owned());
        args.push("--stdio".to_owned());
        assert(args.deep_view() =~= seq!["app-server"@, "--stdio"@]);
        AppServerConfig {
            program: "codex".to_owned(),
            args,
            poll_interval_ms: 60_000,
            read_timeout_ms: 10_000,
        }
    }
}

/// How often the account is asked, in milliseconds, where a number of seconds is configured: not
/// more than once a minute.
pub fn poll_interval(seconds: u64) -> (r: u64)
    requires
        seconds <= u64::MAX / 1_000,
    ensures
        r == 1_000 * (if seconds < 60 {
            60
        } else {
            seconds as int
        }),
{
    if seconds < 60 {
        60_000
    } else {
        seconds * 1_000
    }
}

/// The keys of members that are not kept.
pub open spec fn private_keys() -> Seq<Seq<char>> {
    seq![
        "access_token"@,
        "accesstoken"@,
        "refresh_token"@,
        "refreshtoken"@,
        "api_key"@,
        "apikey"@,
        "authorization"@,
        "prompt"@,
    ]
}

/// A value without the members that are not kept.
pub fn sanitize(value: &Json) -> (r: Json)
    ensures
        r@ == sanitized(value@, private_keys()),
        is_clean(r@, private_keys()),
{
    let keys: [&str; 8] = [
        "access_token",
        "accesstoken",
        "refresh_token",
        "refreshtoken",
        "api_key",
        "apikey",
        "authorization",
        "prompt",
    ];
    assert(views(keys@) =~= private_keys());
    proof {
        lemma_nothing_private_is_left(value@, private_keys());
    }
    without_private(value, keys.as_slice())
}

/// A record of a kind that was seen at an instant.
pub open spec fn record_at(kind: Seq<char>, at: i64) -> SourceAppServerRecordView {
    SourceAppServerRecordView {
        kind,
        first_seen_at_ms: at,
        last_seen_at_ms: at,
        freshness: Some("settled"@),
        status: "ok"@,
        ..empty_source_app_server_record()
    }
}

/// The key of an account: of its address, else of its plan.
pub open spec fn account_key_of(email: Option<Seq<char>>, plan: Option<Seq<char>>) -> Option<
    Seq<char>,
> {
    match first_some(email, plan) {
        Some(name) => Some(stable_key_of(name)),
        None => None,
    }
}

/// The record of an account.
pub open spec fn account_record(
    message: JsonView,
    account: JsonView,
    at: i64,
) -> SourceAppServerRecordView {
    let plan = text_of_first(account, seq!["planType"@, "plan_type"@]);
    SourceAppServerRecordView {
        source_key: state_digest_of("account"@, json_text(sanitized(message, private_keys()))),
        account_key: account_key_of(text_member(account, "email"@), plan),
        auth_kind: text_of_first(account, seq!["type"@, "authType"@, "auth_kind"@]),
        provider: text_of_first(account, seq!["provider"@, "providerName"@]),
        plan_type: plan,
        ..record_at("account"@, at)
    }
}

/// What the key of a quota is made of.
pub open spec fn raw_quota(
    limit_id: Seq<char>,
    plan: Option<Seq<char>>,
    kind: Seq<char>,
    window: JsonView,
) -> JsonView {
    JsonView::Object(
        seq![
            ("limit_id"@, JsonView::Text(limit_id)),
            ("plan"@, text_value(plan)),
            ("window"@, window),
            ("window_kind"@, JsonView::Text(kind)),
        ],
    )
}

/// The record of one of the windows of a limit, where it tells anything.
pub open spec fn window_records(
    limit: JsonView,
    limit_id: Seq<char>,
    kind: Seq<char>,
    at: i64,
) -> Seq<SourceAppServerRecordView> {
    let plan = text_of_first(limit, seq!["planType"@, "plan_type"@]);
    match limit.get(kind) {
        Some(window) => {
            let used = match window.find(seq!["usedPercent"@, "used_percent"@]) {
                Some(found) => found.as_float(),
                None => None,
            };
            let reset = instant_of_first(window, seq!["resetsAt"@, "resets_at"@]);
            if used is None && reset is None {
                Seq::empty()
            } else {
                seq![
                    SourceAppServerRecordView {
                        source_key: state_digest_of(
                            "quota:"@ + kind,
                            json_text(
                                sanitized(raw_quota(limit_id, plan, kind, window), private_keys()),
                            ),
                        ),
                        limit_id: Some(limit_id),
                        window_kind: Some(kind),
                        used_percent: used,
                        window_minutes: integer_of_first(
                            window,
                            seq!["windowMinutes"@, "window_minutes"@],
                        ),
                        resets_at_ms: reset,
                        plan_type: plan,
                        ..record_at("quota"@, at)
                    },
                ]
            }
        },
        None => Seq::empty(),
    }
}

/// The records of a limit, which has a name of its own or one under which it is told.
pub open spec fn limit_records(limit: JsonView, fallback_id: Option<Seq<char>>, at: i64) -> Seq<
    SourceAppServerRecordView,
> {
    match first_some(text_of_first(limit, seq!["limitId"@, "limit_id"@, "id"@]), fallback_id) {
        Some(limit_id) => window_records(limit, limit_id, "primary"@, at) + window_records(
            limit,
            limit_id,
            "secondary"@,
            at,
        ),
        None => Seq::empty(),
    }
}

/// The records of limits by their names.
pub open spec fn named_limits(members: Seq<(Seq<char>, JsonView)>, at: i64) -> Seq<
    SourceAppServerRecordView,
>
    decreases members.len(),
{
    if members.len() == 0 {
        Seq::empty()
    } else {
        named_limits(members.drop_last(), at) + limit_records(
            members.last().1,
            Some(members.last().0),
            at,
        )
    }
}

/// The records of limits in a list.
pub open spec fn listed_limits(items: Seq<JsonView>, at: i64) -> Seq<SourceAppServerRecordView>
    decreases items.len(),
{
    if items.len() == 0 {
        Seq::empty()
    } else {
        listed_limits(items.drop_last(), at) + limit_records(items.last(), None, at)
    }
}

/// The records of limits.
pub open spec fn quota_records(limits: JsonView, at: i64) -> Seq<SourceAppServerRecordView> {
    match limits {
        JsonView::Object(members) => named_limits(members, at),
        JsonView::Array(items) => listed_limits(items, at),
        _ => Seq::empty(),
    }
}

/// The record of the usage of an account.
pub open spec fn usage_record(
    message: JsonView,
    result: JsonView,
    at: i64,
) -> SourceAppServerRecordView {
    SourceAppServerRecordView {
        source_key: state_digest_of("usage"@, json_text(sanitized(message, private_keys()))),
        lifetime_tokens: integer_of_first(result, lifetime_keys()),
        daily_tokens_json: Some(json_text(buckets_of(result))),
        ..record_at("usage"@, at)
    }
}

/// The records of a message.
pub open spec fn ingested(message: JsonView, fallback_at: i64) -> Seq<SourceAppServerRecordView> {
    let method = text_member(message, "method"@);
    let payload = match message.find(seq!["params"@, "result"@]) {
        Some(payload) => payload,
        None => JsonView::Null,
    };
    let at = match instant_of_first(payload, seq!["observed_at"@, "observedAt"@, "timestamp"@]) {
        Some(at) => at,
        None => fallback_at,
    };
    let result = match message.get("result"@) {
        Some(result) => result,
        None => payload,
    };
    let account = match result.get("account"@) {
        Some(account) => account,
        None => result,
    };
    let told = result.find(seq!["rateLimits"@, "rate_limits"@]);
    let limits = match told {
        Some(limits) => limits,
        None => result,
    };
    let accounts = if method == Some("account/read"@) || result.get("account"@) is Some {
        seq![account_record(message, account, at)]
    } else {
        Seq::empty()
    };
    let quotas = if method == Some("account/rateLimits/read"@) || told is Some {
        quota_records(limits, at)
    } else {
        Seq::empty()
    };
    let usages = if method == Some("account/usage/read"@) || result.find(
        bucket_keys() + lifetime_keys(),
    ) is Some {
        seq![usage_record(message, result, at)]
    } else {
        Seq::empty()
    };
    accounts + quotas + usages
}

fn start_record(kind: &str, at: i64) -> (r: SourceAppServerRecord)
    ensures
        r.deep_view() == record_at(kind@, at),
{
    let mut record = SourceAppServerRecord::default();
    record.kind = kind.to_owned();
    record.first_seen_at_ms = at;
    record.last_seen_at_ms = at;
    record.freshness = Some("settled".to_owned());
    record.status = "ok".to_owned();
    record
}

fn make_account_record(message: &Json, account: &Json, at: i64) -> (r: SourceAppServerRecord)
    ensures
        r.deep_view() == account_record(message@, account@, at),
{
    let plan_keys: [&str; 2] = ["planType", "plan_type"];
    let kind_keys: [&str; 3] = ["type", "authType", "auth_kind"];
    let provider_keys: [&str; 2] = ["provider", "providerName"];
    assert(views(plan_keys@) =~= seq!["planType"@, "plan_type"@]);
    assert(views(kind_keys@) =~= seq!["type"@, "authType"@, "auth_kind"@]);
    assert(views(provider_keys@) =~= seq!["provider"@, "providerName"@]);
    let plan = account.text_of_first(plan_keys.as_slice());
    let email = account.text_member("email");
    let mut record = start_record("account", at);
    record.source_key = state_digest("account", sanitize(message).to_text().as_str());
    record.account_key = match first_of(&email, &plan) {
        Some(name) => Some(stable_key(name.as_str())),
        None => None,
    };
    record.auth_kind = account.text_of_first(kind_keys.as_slice());
    record.provider = account.text_of_first(provider_keys.as_slice());
    record.plan_type = plan;
    record
}

fn make_raw_quota(limit_id: &str, plan: &Option<String>, kind: &str, window: &Json) -> (r: Json)
    ensures
        r@ == raw_quota(limit_id@, plan.deep_view(), kind@, window@),
{
    let id = Json::Text(limit_id.to_owned());
    let told_plan = match plan {
        Some(plan) => Json::Text(plan.clone()),
        None => Json::Null,
    };
    let held = window.copy();
    let named = Json::Text(kind.to_owned());
    assert(id@ == JsonView::Text(limit_id@));
    assert(told_plan@ == text_value(plan.deep_view()));
    assert(named@ == JsonView::Text(kind@));
    let mut members: Vec<(String, Json)> = Vec::new();
    members.push(("limit_id".to_owned(), id));
    members.push(("plan".to_owned(), told_plan));
    members.push(("window".to_owned(), held));
    members.push(("window_kind".to_owned(), named));
    let r = Json::Object(members);
    let ghost told = r@->Object_0;
    assert(told.len() == 4);
    assert(told[0] == ("limit_id"@, JsonView::Text(limit_id@)));
    assert(told[1] == ("plan"@, text_value(plan.deep_view())));
    assert(told[2] == ("window"@, window@));
    assert(told[3] == ("window_kind"@, JsonView::Text(kind@)));
    assert(told =~= raw_quota(limit_id@, plan.deep_view(), kind@, window@)->Object_0);
    r
}

fn add_window(
    records: &mut Vec<SourceAppServerRecord>,
    limit: &Json,
    limit_id: &str,
    kind: &str,
    at: i64,
)
    ensures
        final(records).deep_view() == old(records).deep_view() + window_records(
            limit@,
            limit_id@,
            kind@,
            at,
        ),
{
    let ghost before = records.deep_view();
    assert(before + Seq::<SourceAppServerRecordView>::empty() =~= before);
    let window = match limit.get(kind) {
        Some(window) => window,
        None => return ,
    };
    let plan_keys: [&str; 2] = ["planType", "plan_type"];
    let used_keys: [&str; 2] = ["usedPercent", "used_percent"];
    let reset_keys: [&str; 2] = ["resetsAt", "resets_at"];
    let minute_keys: [&str; 2] = ["windowMinutes", "window_minutes"];
    assert(views(plan_keys@) =~= seq!["planType"@, "plan_type"@]);
    assert(views(used_keys@) =~= seq!["usedPercent"@, "used_percent"@]);
    assert(views(reset_keys@) =~= seq!["resetsAt"@, "resets_at"@]);
    assert(views(minute_keys@) =~= seq!["windowMinutes"@, "window_minutes"@]);
    let used = match window.find(used_keys.as_slice()) {
        Some(found) => found.as_float(),
        None => None,
    };
    let reset = first_instant(window, reset_keys.as_slice());
    if used.is_none() && reset.is_none() {
        return ;
    }
    let plan = limit.text_of_first(plan_keys.as_slice());
    let mut scope = "quota:".to_owned();
    scope.append(kind);
    let raw = make_raw_quota(limit_id, &plan, kind, window);
    let mut record = start_record("quota", at);
    record.source_key = state_digest(scope.as_str(), sanitize(&raw).to_text().as_str());
    record.limit_id = Some(limit_id.to_owned());
    record.window_kind = Some(kind.to_owned());
    record.used_percent = used;
    record.window_minutes = window.integer_of_first(minute_keys.as_slice());
    record.resets_at_ms = reset;
    record.plan_type = plan;
    let ghost told = record.deep_view();
    assert(told == window_records(limit@, limit_id@, kind@, at)[0]);
    records.push(record);
    assert(records.deep_view() =~= before + seq![told]);
    assert(window_records(limit@, limit_id@, kind@, at) =~= seq![told]);
}

/// Adds the records of a limit.
pub fn insert_limit(
    records: &mut Vec<SourceAppServerRecord>,
    limit: &Json,
    fallback_id: &Option<String>,
    at: i64,
)
    ensures
        final(records).deep_view() == old(records).deep_view() + limit_records(
            limit@,
            fallback_id.deep_view(),
            at,
        ),
{
    let ghost before = records.deep_view();
    let keys: [&str; 3] = ["limitId", "limit_id", "id"];
    assert(views(keys@) =~= seq!["limitId"@, "limit_id"@, "id"@]);
    match first_of(&limit.text_of_first(keys.as_slice()), fallback_id) {
        Some(limit_id) => {
            add_window(records, limit, limit_id.as_str(), "primary", at);
            add_window(records, limit, limit_id.as_str(), "secondary", at);
            assert(records.deep_view() =~= before + limit_records(
                limit@,
                fallback_id.deep_view(),
                at,
            ));
        },
        None => {
            assert(before + Seq::<SourceAppServerRecordView>::empty() =~= before);
        },
    }
}

fn insert_named(records: &mut Vec<SourceAppServerRecord>, limits: &Json, at: i64)
    requires
        limits@ is Object,
    ensures
        final(records).deep_view() == old(records).deep_view() + named_limits(
            limits@->Object_0,
            at,
        ),
{
    let ghost before = records.deep_view();
    if let Json::Object(members) = limits {
        let ghost all = limits@->Object_0;
        assert(before + named_limits(all.take(0), at) =~= before);
        let mut i: usize = 0;
        while i < members.len()
            invariant
                i <= members@.len(),
                *limits == Json::Object(*members),
                all == limits@->Object_0,
                all.len() == members@.len(),
                records.deep_view() == before + named_limits(all.take(i as int), at),
            decreases members@.len() - i,
        {
            assert(all.take(i + 1).drop_last() =~= all.take(i as int));
            assert(all.take(i + 1).last() == (members@[i as int].0@, members@[i as int].1@));
            let name = Some(members[i].0.clone());
            insert_limit(records, &members[i].1, &name, at);
            assert(records.deep_view() =~= before + named_limits(all.take(i + 1), at));
            i = i + 1;
        }
        assert(all.take(i as int) =~= all);
    }
}

fn insert_listed(records: &mut Vec<SourceAppServerRecord>, limits: &Json, at: i64)
    requires
        limits@ is Array,
    ensures
        final(records).deep_view() == old(records).deep_view() + listed_limits(
            limits@->Array_0,
            at,
        ),
{
    let ghost before = records.deep_view();
    if let Json::Array(items) = limits {
        let ghost all = limits@->Array_0;
        assert(before + listed_limits(all.take(0), at) =~= before);
        let mut i: usize = 0;
        while i < items.len()
            invariant
                i <= items@.len(),
                *limits == Json::Array(*items),
                all == limits@->Array_0,
                all.len() == items@.len(),
                records.deep_view() == before + listed_limits(all.take(i as int), at),
            decreases items@.len() - i,
        {
            assert(all.take(i + 1).drop_last() =~= all.take(i as int));
            assert(all.take(i + 1).last() == items@[i as int]@);
            insert_limit(records, &items[i], &None, at);
            assert(records.deep_view() =~= before + listed_limits(all.take(i + 1), at));
            i = i + 1;
        }
        assert(all.take(i as int) =~= all);
    }
}

fn make_usage_record(message: &Json, result: &Json, at: i64) -> (r: SourceAppServerRecord)
    ensures
        r.deep_view() == usage_record(message@, result@, at),
{
    let keys: [&str; 2] = ["lifetimeTokens", "lifetime_tokens"];
    assert(views(keys@) =~= lifetime_keys());
    let mut record = start_record("usage", at);
    record.source_key = state_digest("usage", sanitize(message).to_text().as_str());
    record.lifetime_tokens = result.integer_of_first(keys.as_slice());
    record.daily_tokens_json = Some(find_buckets(result).to_text());
    record
}

/// The records of a message.
pub fn ingest_value(message: &Json, fallback_observed_at_ms: i64) -> (r: Vec<SourceAppServerRecord>)
    ensures
        r.deep_view() == ingested(message@, fallback_observed_at_ms),
{
    let payload_keys: [&str; 2] = ["params", "result"];
    let time_keys: [&str; 3] = ["observed_at", "observedAt", "timestamp"];
    let limit_keys: [&str; 2] = ["rateLimits", "rate_limits"];
    let usage_keys: [&str; 4] = [
        "dailyUsageBuckets",
        "daily_usage_buckets",
        "lifetimeTokens",
        "lifetime_tokens",
    ];
    assert(views(payload_keys@) =~= seq!["params"@, "result"@]);
    assert(views(time_keys@) =~= seq!["observed_at"@, "observedAt"@, "timestamp"@]);
    assert(views(limit_keys@) =~= seq!["rateLimits"@, "rate_limits"@]);
    assert(views(usage_keys@) =~= bucket_keys() + lifetime_keys());
    let null = Json::Null;
    let method = message.text_member("method");
    let payload = match message.find(payload_keys.as_slice()) {
        Some(payload) => payload,
        None => &null,
    };
    let at = match first_instant(payload, time_keys.as_slice()) {
        Some(at) => at,
        None => fallback_observed_at_ms,
    };
    let result = match message.get("result") {
        Some(result) => result,
        None => payload,
    };
    let mut records: Vec<SourceAppServerRecord> = Vec::new();
    let ghost mut accounts: Seq<SourceAppServerRecordView> = Seq::empty();
    let ghost mut quotas: Seq<SourceAppServerRecordView> = Seq::empty();
    let ghost mut usages: Seq<SourceAppServerRecordView> = Seq::empty();
    assert(records.deep_view() =~= accounts);
    let told_account = result.get("account");
    if holds(&method, "account/read") || told_account.is_some() {
        let account = match told_account {
            Some(account) => account,
            None => result,
        };
        let record = make_account_record(message, account, at);
        proof {
            accounts = seq![record.deep_view()];
        }
        records.push(record);
        assert(records.deep_view() =~= accounts);
    }
    let told_limits = result.find(limit_keys.as_slice());
    if holds(&method, "account/rateLimits/read") || told_limits.is_some() {
        let limits = match told_limits {
            Some(limits) => limits,
            None => result,
        };
        proof {
            quotas = quota_records(limits@, at);
        }
        match limits {
            Json::Object(_) => insert_named(&mut records, limits, at),
            Json::Array(_) => insert_listed(&mut records, limits, at),
            _ => {},
        }
    }
    assert(records.deep_view() =~= accounts + quotas);
    if holds(&method, "account/usage/read") || result.find(usage_keys.as_slice()).is_some() {
        let record = make_usage_record(message, result, at);
        proof {
            usages = seq![record.deep_view()];
        }
        records.push(record);
    }
    assert(records.deep_view() =~= accounts + quotas + usages);
    records
}

/// The records of one message, and the report of it.
pub fn ingest_line(message: &Json, fallback_observed_at_ms: i64) -> (r: (
    Vec<SourceAppServerRecord>,
    AppServerScanReport,
))
    ensures
        r.0.deep_view() == ingested(message@, fallback_observed_at_ms),
        r.1.lines_seen == 1,
        r.1.account_rows == count_of_kind(r.0.deep_view(), "account"@),
        r.1.quota_rows == count_of_kind(r.0.deep_view(), "quota"@),
        r.1.usage_rows == count_of_kind(r.0.deep_view(), "usage"@),
{
    let records = ingest_value(message, fallback_observed_at_ms);
    let report = scan_report(1, &records);
    (records, report)
}

/// The lines that ask the server for the account and its quotas, and for its usage where
/// `include_usage`.
pub fn request_lines(include_usage: bool) -> (r: Vec<&'static str>)
    ensures
        views(r@) == (seq![
            "{\"id\":1,\"method\":\"initialize\",\"params\":{\"capabilities\":null,\"clientInfo\":{\"name\":\"codex-meter\",\"title\":\"Codex Meter\",\"version\":\"minimal-r1\"}}}"@,
            "{\"method\":\"initialized\"}"@,
            "{\"id\":2,\"method\":\"account/read\",\"params\":null}"@,
            "{\"id\":3,\"method\":\"account/rateLimits/read\",\"params\":null}"@,
        ] + if include_usage {
            seq!["{\"id\":4,\"method\":\"account/usage/read\",\"params\":null}"@]
        } else {
            Seq::empty()
        }),
{
    let mut lines: Vec<&'static str> = Vec::new();
    lines.push(
        "{\"id\":1,\"method\":\"initialize\",\"params\":{\"capabilities\":null,\"clientInfo\":{\"name\":\"codex-meter\",\"title\":\"Codex Meter\",\"version\":\"minimal-r1\"}}}",
    );
    lines.push("{\"method\":\"initialized\"}");
    lines.push("{\"id\":2,\"method\":\"account/read\",\"params\":null}");
    lines.push("{\"id\":3,\"method\":\"account/rateLimits/read\",\"params\":null}");
    if include_usage {
        lines.push("{\"id\":4,\"method\":\"account/usage/read\",\"params\":null}");
    }
    assert(views(lines@) =~= seq![
        "{\"id\":1,\"method\":\"initialize\",\"params\":{\"capabilities\":null,\"clientInfo\":{\"name\":\"codex-meter\",\"title\":\"Codex Meter\",\"version\":\"minimal-r1\"}}}"@,
        "{\"method\":\"initialized\"}"@,
        "{\"id\":2,\"method\":\"account/read\",\"params\":null}"@,
        "{\"id\":3,\"method\":\"account/rateLimits/read\",\"params\":null}"@,
    ] + if include_usage {
        seq!["{\"id\":4,\"method\":\"account/usage/read\",\"params\":null}"@]
    } else {
        Seq::empty()
    });
    lines
}

} // verus!
