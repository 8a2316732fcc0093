//! What the account server tells: the account, its quotas and its usage.
use crate::db::{
    empty_source_app_server_record, SourceAppServerRecord, SourceAppServerRecordView,
};
use crate::digest::{digest_text, hex_digest, hex_digest_of, text_digest};
use crate::json::{
    integer_of_first, integer_or_null, json_text, text_member, text_of_first, text_or_null, views,
    Json, JsonView,
};
use crate::pipelines::source::jsonl::{
    as_epoch_ms, epoch_of, nanos_to_millis, object_of, object_text, optional_integer, optional_text,
    parse_rfc3339, rfc3339,
};
use crate::num::truncating_div;
use crate::privacy::{sanitized, without_private};
use crate::text::{
    add_bytes, ascii_lower, characters, copy_option, first_of, first_some, from_characters, holds,
    same, to_ascii_lowercase, trim, trimmed,
};
use vstd::prelude::*;
use vstd::string::*;
use vstd::utf8::encode_utf8;

pub mod laws;

verus! {

/// How often the usage of the account is asked for, in milliseconds.
pub const USAGE_INTERVAL_MS: u64 = 21_600_000;

/// How the account server is started and asked.
#[derive(Debug)]
pub struct AppServerConfig {
    pub program: String,
    pub args: Vec<String>,
    pub poll_interval_ms: u64,
    pub read_timeout_ms: u64,
}

impl Default for AppServerConfig {
    fn default() -> (r: Self)
        ensures
            r.program@ == "codex"@,
            r.args.deep_view() == seq!["app-server"@, "--stdio"@],
            r.poll_interval_ms == 60_000,
            r.read_timeout_ms == 10_000,
    {
        let mut args: Vec<String> = Vec::new();
        args.push("app-server".to_owned());
        args.push("--stdio".to_owned());
        assert(args.deep_view() =~= seq!["app-server"@, "--stdio"@]);
        AppServerConfig {
            program: "codex".to_owned(),
            args,
            poll_interval_ms: 60_000,
            read_timeout_ms: 10_000,
        }
    }
}

/// What was read from the account server.
#[derive(Clone, Copy, Debug, PartialEq, Eq, Structural)]
pub struct AppServerScanReport {
    pub lines_seen: usize,
    pub account_rows: usize,
    pub quota_rows: usize,
    pub usage_rows: usize,
}

impl Default for AppServerScanReport {
    fn default() -> (r: Self)
        ensures
            r == (AppServerScanReport {
                lines_seen: 0,
                account_rows: 0,
                quota_rows: 0,
                usage_rows: 0,
            }),
    {
        AppServerScanReport { lines_seen: 0, account_rows: 0, quota_rows: 0, usage_rows: 0 }
    }
}

/// What is known of the account from messages before.
#[derive(Debug)]
pub struct IngestContext {
    pub account_key: Option<String>,
    pub account_label: Option<String>,
    pub auth_kind: Option<String>,
    pub provider: Option<String>,
    pub plan_type: Option<String>,
}

/// An `IngestContext` with its texts as sequences of characters.
#[verifier::ext_equal]
pub struct IngestContextView {
    pub account_key: Option<Seq<char>>,
    pub account_label: Option<Seq<char>>,
    pub auth_kind: Option<Seq<char>>,
    pub provider: Option<Seq<char>>,
    pub plan_type: Option<Seq<char>>,
}

impl DeepView for IngestContext {
    type V = IngestContextView;

    open spec fn deep_view(&self) -> IngestContextView {
        IngestContextView {
            account_key: self.account_key.deep_view(),
            account_label: self.account_label.deep_view(),
            auth_kind: self.auth_kind.deep_view(),
            provider: self.provider.deep_view(),
            plan_type: self.plan_type.deep_view(),
        }
    }
}

/// Of the account nothing is known.
pub open spec fn empty_ingest_context() -> IngestContextView {
    IngestContextView {
        account_key: None,
        account_label: None,
        auth_kind: None,
        provider: None,
        plan_type: None,
    }
}

impl Default for IngestContext {
    fn default() -> (r: Self)
        ensures
            r.deep_view() == empty_ingest_context(),
    {
        IngestContext {
            account_key: None,
            account_label: None,
            auth_kind: None,
            provider: None,
            plan_type: None,
        }
    }
}

/// The keys of members that are not kept.
pub open spec fn private_keys() -> Seq<Seq<char>> {
    seq![
        "directory"@,
        "sessionfile"@,
        "session_file"@,
        "access_token"@,
        "accesstoken"@,
        "refresh_token"@,
        "refreshtoken"@,
        "api_key"@,
        "apikey"@,
        "authorization"@,
        "prompt"@,
        "message"@,
        "content"@,
        "email"@,
    ]
}

/// A value without the members that are not kept.
pub fn sanitize(value: &Json) -> (r: Json)
    ensures
        r@ == sanitized(value@, private_keys()),
{
    let keys: [&str; 14] = [
        "directory",
        "sessionfile",
        "session_file",
        "access_token",
        "accesstoken",
        "refresh_token",
        "refreshtoken",
        "api_key",
        "apikey",
        "authorization",
        "prompt",
        "message",
        "content",
        "email",
    ];
    assert(views(keys@) =~= private_keys());
    without_private(value, keys.as_slice())
}

/// The instant that a text or a number gives: a text as a time stamp, a number in seconds or in
/// milliseconds.
pub open spec fn instant_of(value: JsonView) -> Option<i64> {
    match value {
        JsonView::Text(text) => match rfc3339(text) {
            Ok(nanos) => Some(truncating_div(nanos, 1_000_000) as i64),
            Err(_) => None,
        },
        _ => epoch_of(value),
    }
}

/// The instant that the first of the members `keys` gives.
pub open spec fn instant_of_first(value: JsonView, keys: Seq<Seq<char>>) -> Option<i64> {
    match value.find(keys) {
        Some(found) => instant_of(found),
        None => None,
    }
}

/// The key of an account: a digest of its name, without white space at its ends and in lower case.
pub open spec fn stable_key_of(value: Seq<char>) -> Seq<char> {
    "sha256:"@ + text_digest(ascii_lower(trimmed(value)))
}

/// What is shown of the key of an account: its last eight characters.
pub open spec fn label_of(key: Seq<char>) -> Seq<char> {
    "account-"@ + key.skip(key.len() - 8)
}

/// The digest of a state within a scope.
pub open spec fn state_digest_of(scope: Seq<char>, state: Seq<char>) -> Seq<char> {
    "sha256:"@ + hex_digest_of(encode_utf8(scope) + seq![0u8] + encode_utf8(state))
}

/// The record of a server that does not answer.
pub open spec fn unavailable_record(observed_at_ms: i64) -> SourceAppServerRecordView {
    SourceAppServerRecordView {
        source_key: "app_server:unavailable"@,
        kind: "account"@,
        first_seen_at_ms: observed_at_ms,
        last_seen_at_ms: observed_at_ms,
        freshness: Some("unavailable"@),
        status: "unavailable"@,
        ..empty_source_app_server_record()
    }
}

/// What is known of the account after its description was read.
pub open spec fn account_read(account: JsonView) -> IngestContextView {
    let name = first_some(
        text_of_first(account, seq!["email"@]),
        text_of_first(account, seq!["id"@, "accountId"@]),
    );
    let key = match name {
        Some(name) => Some(stable_key_of(name)),
        None => None,
    };
    IngestContextView {
        account_key: key,
        account_label: match key {
            Some(key) => Some(label_of(key)),
            None => None,
        },
        plan_type: text_of_first(account, seq!["planType"@, "plan_type"@]),
        provider: text_of_first(account, seq!["provider"@, "providerName"@]),
        auth_kind: text_of_first(account, seq!["type"@, "authType"@, "auth_kind"@]),
    }
}

/// A record with what is known of the account.
pub open spec fn account_fields(
    context: IngestContextView,
    kind: Seq<char>,
    observed_at_ms: i64,
) -> SourceAppServerRecordView {
    SourceAppServerRecordView {
        kind,
        first_seen_at_ms: observed_at_ms,
        last_seen_at_ms: observed_at_ms,
        account_key: context.account_key,
        account_label: context.account_label,
        auth_kind: context.auth_kind,
        provider: context.provider,
        plan_type: context.plan_type,
        freshness: Some("settled"@),
        status: "ok"@,
        ..empty_source_app_server_record()
    }
}

/// The state of an account in writing.
pub open spec fn account_state(context: IngestContextView) -> Seq<char> {
    object_of(
        seq!["account_key"@, "account_label"@, "auth_kind"@, "plan_type"@, "provider"@],
        seq![
            text_or_null(context.account_key),
            text_or_null(context.account_label),
            text_or_null(context.auth_kind),
            text_or_null(context.plan_type),
            text_or_null(context.provider),
        ],
    )
}

/// The record of an account.
pub open spec fn account_record(
    context: IngestContextView,
    observed_at_ms: i64,
) -> SourceAppServerRecordView {
    SourceAppServerRecordView {
        source_key: state_digest_of("account"@, account_state(context)),
        ..account_fields(context, "account"@, observed_at_ms)
    }
}

/// The keys of the length of a window.
pub open spec fn minute_keys() -> Seq<Seq<char>> {
    seq!["windowMinutes"@, "window_minutes"@, "windowDurationMins"@, "window_duration_mins"@]
}

/// An optional number in JSON, by its text.
pub open spec fn number_or_null(text: Option<Seq<char>>) -> Seq<char> {
    match text {
        Some(text) => text,
        None => "null"@,
    }
}

/// The record of one window of a limit; none where neither its usage nor its reset is told.
pub open spec fn window_record(
    window: JsonView,
    kind: Seq<char>,
    limit_id: Seq<char>,
    plan: Option<Seq<char>>,
    observed_at_ms: i64,
    context: IngestContextView,
) -> Option<SourceAppServerRecordView> {
    let percent = window.find(seq!["usedPercent"@, "used_percent"@]);
    let used = match percent {
        Some(value) => value.as_float(),
        None => None,
    };
    let used_text = match percent {
        Some(value) => value.as_float_text(),
        None => None,
    };
    let minutes = integer_of_first(window, minute_keys());
    let reset = instant_of_first(window, seq!["resetsAt"@, "resets_at"@, "resets_at_ms"@]);
    if used is None && reset is None {
        None
    } else {
        let state = object_of(
            seq![
                "account_key"@,
                "limit_id"@,
                "plan"@,
                "resets_at_ms"@,
                "used_percent"@,
                "window_kind"@,
                "window_minutes"@,
            ],
            seq![
                text_or_null(context.account_key),
                text_or_null(Some(limit_id)),
                text_or_null(plan),
                integer_or_null(reset),
                number_or_null(used_text),
                text_or_null(Some(kind)),
                integer_or_null(minutes),
            ],
        );
        Some(
            SourceAppServerRecordView {
                source_key: state_digest_of("quota"@, state),
                plan_type: plan,
                limit_id: Some(limit_id),
                window_kind: Some(kind),
                used_percent: used,
                window_minutes: minutes,
                resets_at_ms: reset,
                ..account_fields(context, "quota"@, observed_at_ms)
            },
        )
    }
}

/// A record, where there is one.
pub open spec fn as_records(record: Option<SourceAppServerRecordView>) -> Seq<
    SourceAppServerRecordView,
> {
    match record {
        Some(record) => seq![record],
        None => Seq::empty(),
    }
}

/// The record of the window of a kind, where the limit has one.
pub open spec fn window_of_limit(
    limit: JsonView,
    kind: Seq<char>,
    limit_id: Seq<char>,
    observed_at_ms: i64,
    context: IngestContextView,
) -> Seq<SourceAppServerRecordView> {
    let plan = first_some(
        text_of_first(limit, seq!["planType"@, "plan_type"@]),
        context.plan_type,
    );
    match limit.get(kind) {
        Some(window) => as_records(
            window_record(window, kind, limit_id, plan, observed_at_ms, context),
        ),
        None => Seq::empty(),
    }
}

/// The records of a limit: of its main and of its second window. A limit without a name, of its own
/// or by its place, has none.
pub open spec fn limit_records(
    limit: JsonView,
    fallback_id: Option<Seq<char>>,
    observed_at_ms: i64,
    context: IngestContextView,
) -> Seq<SourceAppServerRecordView> {
    match first_some(text_of_first(limit, seq!["limitId"@, "limit_id"@, "id"@]), fallback_id) {
        Some(id) => window_of_limit(limit, "primary"@, id, observed_at_ms, context)
            + window_of_limit(limit, "secondary"@, id, observed_at_ms, context),
        None => Seq::empty(),
    }
}

/// The records of limits that stand under their names.
pub open spec fn named_limits(
    members: Seq<(Seq<char>, JsonView)>,
    observed_at_ms: i64,
    context: IngestContextView,
) -> Seq<SourceAppServerRecordView>
    decreases members.len(),
{
    if members.len() == 0 {
        Seq::empty()
    } else {
        named_limits(members.drop_last(), observed_at_ms, context) + limit_records(
            members.last().1,
            Some(members.last().0),
            observed_at_ms,
            context,
        )
    }
}

/// The records of limits in a list.
pub open spec fn listed_limits(
    items: Seq<JsonView>,
    observed_at_ms: i64,
    context: IngestContextView,
) -> Seq<SourceAppServerRecordView>
    decreases items.len(),
{
    if items.len() == 0 {
        Seq::empty()
    } else {
        listed_limits(items.drop_last(), observed_at_ms, context) + limit_records(
            items.last(),
            None,
            observed_at_ms,
            context,
        )
    }
}

/// The records of quotas. Limits by name go before the single one that is told beside them; a list,
/// a single limit and limits under their names are read too.
pub open spec fn quota_records_of(
    result: JsonView,
    observed_at_ms: i64,
    context: IngestContextView,
) -> Seq<SourceAppServerRecordView> {
    let limits = match result.find(seq!["rateLimits"@, "rate_limits"@]) {
        Some(limits) => limits,
        None => result,
    };
    match result.find(seq!["rateLimitsByLimitId"@, "rate_limits_by_limit_id"@]) {
        Some(JsonView::Object(members)) => named_limits(members, observed_at_ms, context),
        _ => match limits {
            JsonView::Array(items) => listed_limits(items, observed_at_ms, context),
            JsonView::Object(members) => if limits.get("limitId"@) is Some || limits.get(
                "primary"@,
            ) is Some {
                limit_records(limits, None, observed_at_ms, context)
            } else {
                named_limits(members, observed_at_ms, context)
            },
            _ => Seq::empty(),
        },
    }
}

/// The keys of the tokens by day.
pub open spec fn bucket_keys() -> Seq<Seq<char>> {
    seq!["dailyUsageBuckets"@, "daily_usage_buckets"@]
}

/// The keys of all tokens.
pub open spec fn lifetime_keys() -> Seq<Seq<char>> {
    seq!["lifetimeTokens"@, "lifetime_tokens"@]
}

/// The tokens by day that are told, at the top or in the summary; an empty list where there are
/// none.
pub open spec fn buckets_of(result: JsonView) -> JsonView {
    let inner = match result.find(seq!["summary"@]) {
        Some(summary) => summary.find(bucket_keys()),
        None => None,
    };
    match first_some(result.find(bucket_keys()), inner) {
        Some(buckets) => buckets,
        None => JsonView::Array(Seq::empty()),
    }
}

/// The record of the usage of an account.
pub open spec fn usage_record_of(
    result: JsonView,
    observed_at_ms: i64,
    context: IngestContextView,
) -> SourceAppServerRecordView {
    let lifetime = integer_of_first(result, lifetime_keys());
    let daily = json_text(sanitized(buckets_of(result), private_keys()));
    let state = object_of(
        seq!["account_key"@, "daily_tokens"@, "lifetime_tokens"@],
        seq![text_or_null(context.account_key), daily, integer_or_null(lifetime)],
    );
    SourceAppServerRecordView {
        source_key: state_digest_of("usage"@, state),
        lifetime_tokens: lifetime,
        daily_tokens_json: Some(daily),
        ..account_fields(context, "usage"@, observed_at_ms)
    }
}

/// The records of a message, and what is known of the account after it.
pub open spec fn ingested(
    message: JsonView,
    fallback_observed_at_ms: i64,
    context: IngestContextView,
) -> (Seq<SourceAppServerRecordView>, IngestContextView) {
    if message.get("error"@) is Some {
        (seq![unavailable_record(fallback_observed_at_ms)], context)
    } else {
        let method = text_member(message, "method"@);
        let payload = match message.find(seq!["params"@, "result"@]) {
            Some(payload) => payload,
            None => JsonView::Null,
        };
        let observed_at_ms = match instant_of_first(
            payload,
            seq!["observed_at"@, "observedAt"@, "timestamp"@],
        ) {
            Some(at) => at,
            None => fallback_observed_at_ms,
        };
        let result = match message.get("result"@) {
            Some(result) => result,
            None => payload,
        };
        let tells_account = method == Some("account/read"@) || result.get("account"@) is Some;
        let account = match result.get("account"@) {
            Some(account) => account,
            None => result,
        };
        let known = if tells_account {
            account_read(account)
        } else {
            context
        };
        let accounts = if tells_account {
            seq![account_record(known, observed_at_ms)]
        } else {
            Seq::empty()
        };
        let quotas = if method == Some("account/rateLimits/read"@) || result.find(
            seq!["rateLimits"@, "rate_limits"@],
        ) is Some {
            quota_records_of(result, observed_at_ms, known)
        } else {
            Seq::empty()
        };
        let usages = if method == Some("account/usage/read"@) || result.find(
            bucket_keys() + lifetime_keys(),
        ) is Some {
            seq![usage_record_of(result, observed_at_ms, known)]
        } else {
            Seq::empty()
        };
        (accounts + quotas + usages, known)
    }
}

fn text_of(value: &Json, keys: &[&str]) -> (r: Option<String>)
    ensures
        r.deep_view() == text_of_first(value@, views(keys@)),
{
    value.text_of_first(keys)
}

/// The instant that a text or a number gives.
pub fn epoch_ms(value: &Json) -> (r: Option<i64>)
    ensures
        r == instant_of(value@),
{
    match value {
        Json::Text(text) => match parse_rfc3339(text.as_str()) {
            Ok(nanos) => Some(nanos_to_millis(nanos)),
            Err(_) => None,
        },
        _ => as_epoch_ms(value),
    }
}

pub(crate) fn first_instant(value: &Json, keys: &[&str]) -> (r: Option<i64>)
    ensures
        r == instant_of_first(value@, views(keys@)),
{
    match value.find(keys) {
        Some(found) => epoch_ms(found),
        None => None,
    }
}

/// The key of an account.
pub fn stable_key(value: &str) -> (r: String)
    ensures
        r@ == stable_key_of(value@),
        r@.len() == 71,
{
    let mut key = "sha256:".to_owned();
    key.append(digest_text(to_ascii_lowercase(trim(value).as_str()).as_str()).as_str());
    proof {
        reveal_strlit("sha256:");
    }
    key
}

fn account_label(key: &str) -> (r: String)
    requires
        key@.len() >= 8,
    ensures
        r@ == label_of(key@),
{
    let v = characters(key);
    let len: usize = v.len();
    let mut label = "account-".to_owned();
    label.append(from_characters(&v, len - 8, len).as_str());
    assert(v@.subrange(len - 8, len as int) =~= v@.skip(len - 8));
    label
}

/// The digest of a state within a scope.
pub fn state_digest(scope: &str, state: &str) -> (r: String)
    ensures
        r@ == state_digest_of(scope@, state@),
{
    let mut bytes: Vec<u8> = Vec::new();
    add_bytes(&mut bytes, scope.as_bytes());
    bytes.push(0);
    add_bytes(&mut bytes, state.as_bytes());
    assert(bytes@ =~= encode_utf8(scope@) + seq![0u8] + encode_utf8(state@));
    let mut r = "sha256:".to_owned();
    r.append(hex_digest(bytes.as_slice()).as_str());
    r
}

/// The record of a server that does not answer.
pub fn record_unavailable(observed_at_ms: i64) -> (r: SourceAppServerRecord)
    ensures
        r.deep_view() == unavailable_record(observed_at_ms),
{
    let mut record = SourceAppServerRecord::default();
    record.source_key = "app_server:unavailable".to_owned();
    record.kind = "account".to_owned();
    record.first_seen_at_ms = observed_at_ms;
    record.last_seen_at_ms = observed_at_ms;
    record.freshness = Some("unavailable".to_owned());
    record.status = "unavailable".to_owned();
    record
}

fn read_account(account: &Json) -> (r: IngestContext)
    ensures
        r.deep_view() == account_read(account@),
{
    let emails: [&str; 1] = ["email"];
    let ids: [&str; 2] = ["id", "accountId"];
    let plans: [&str; 2] = ["planType", "plan_type"];
    let providers: [&str; 2] = ["provider", "providerName"];
    let kinds: [&str; 3] = ["type", "authType", "auth_kind"];
    assert(views(emails@) =~= seq!["email"@]);
    assert(views(ids@) =~= seq!["id"@, "accountId"@]);
    assert(views(plans@) =~= seq!["planType"@, "plan_type"@]);
    assert(views(providers@) =~= seq!["provider"@, "providerName"@]);
    assert(views(kinds@) =~= seq!["type"@, "authType"@, "auth_kind"@]);
    let name = match text_of(account, emails.as_slice()) {
        Some(email) => Some(email),
        None => text_of(account, ids.as_slice()),
    };
    let account_key = match name {
        Some(name) => Some(stable_key(name.as_str())),
        None => None,
    };
    let label = match &account_key {
        Some(key) => Some(account_label(key.as_str())),
        None => None,
    };
    IngestContext {
        account_key,
        account_label: label,
        plan_type: text_of(account, plans.as_slice()),
        provider: text_of(account, providers.as_slice()),
        auth_kind: text_of(account, kinds.as_slice()),
    }
}

fn start_record(context: &IngestContext, kind: &str, observed_at_ms: i64) -> (r:
    SourceAppServerRecord)
    ensures
        r.deep_view() == account_fields(context.deep_view(), kind@, observed_at_ms),
{
    let mut record = SourceAppServerRecord::default();
    record.kind = kind.to_owned();
    record.first_seen_at_ms = observed_at_ms;
    record.last_seen_at_ms = observed_at_ms;
    record.account_key = copy_option(&context.account_key);
    record.account_label = copy_option(&context.account_label);
    record.auth_kind = copy_option(&context.auth_kind);
    record.provider = copy_option(&context.provider);
    record.plan_type = copy_option(&context.plan_type);
    record.freshness = Some("settled".to_owned());
    record.status = "ok".to_owned();
    record
}

fn make_account_record(context: &IngestContext, observed_at_ms: i64) -> (r: SourceAppServerRecord)
    ensures
        r.deep_view() == account_record(context.deep_view(), observed_at_ms),
{
    let keys: [&str; 5] = ["account_key", "account_label", "auth_kind", "plan_type", "provider"];
    let mut values: Vec<String> = Vec::new();
    values.push(optional_text(&context.account_key));
    values.push(optional_text(&context.account_label));
    values.push(optional_text(&context.auth_kind));
    values.push(optional_text(&context.plan_type));
    values.push(optional_text(&context.provider));
    assert(views(keys@) =~= seq![
        "account_key"@,
        "account_label"@,
        "auth_kind"@,
        "plan_type"@,
        "provider"@,
    ]);
    assert(values.deep_view() =~= seq![
        text_or_null(context.account_key.deep_view()),
        text_or_null(context.account_label.deep_view()),
        text_or_null(context.auth_kind.deep_view()),
        text_or_null(context.plan_type.deep_view()),
        text_or_null(context.provider.deep_view()),
    ]);
    let mut record = start_record(context, "account", observed_at_ms);
    record.source_key = state_digest("account", object_text(keys.as_slice(), &values).as_str());
    record
}

fn make_window_record(
    window: &Json,
    kind: &str,
    limit_id: &str,
    plan: &Option<String>,
    observed_at_ms: i64,
    context: &IngestContext,
) -> (r: Option<SourceAppServerRecord>)
    ensures
        r.deep_view() == window_record(
            window@,
            kind@,
            limit_id@,
            plan.deep_view(),
            observed_at_ms,
            context.deep_view(),
        ),
{
    let percents: [&str; 2] = ["usedPercent", "used_percent"];
    let lengths: [&str; 4] = [
        "windowMinutes",
        "window_minutes",
        "windowDurationMins",
        "window_duration_mins",
    ];
    let resets: [&str; 3] = ["resetsAt", "resets_at", "resets_at_ms"];
    assert(views(percents@) =~= seq!["usedPercent"@, "used_percent"@]);
    assert(views(lengths@) =~= minute_keys());
    assert(views(resets@) =~= seq!["resetsAt"@, "resets_at"@, "resets_at_ms"@]);
    let percent = window.find(percents.as_slice());
    let used = match percent {
        Some(value) => value.as_float(),
        None => None,
    };
    let used_text = match percent {
        Some(value) => value.as_float_text(),
        None => None,
    };
    let minutes = window.integer_of_first(lengths.as_slice());
    let reset = first_instant(window, resets.as_slice());
    if used.is_none() && reset.is_none() {
        return None;
    }
    let keys: [&str; 7] = [
        "account_key",
        "limit_id",
        "plan",
        "resets_at_ms",
        "used_percent",
        "window_kind",
        "window_minutes",
    ];
    let id = Some(limit_id.to_owned());
    let name = Some(kind.to_owned());
    let mut values: Vec<String> = Vec::new();
    values.push(optional_text(&context.account_key));
    values.push(optional_text(&id));
    values.push(optional_text(plan));
    values.push(optional_integer(reset));
    values.push(
        match &used_text {
            Some(text) => text.clone(),
            None => "null".to_owned(),
        },
    );
    values.push(optional_text(&name));
    values.push(optional_integer(minutes));
    assert(views(keys@) =~= seq![
        "account_key"@,
        "limit_id"@,
        "plan"@,
        "resets_at_ms"@,
        "used_percent"@,
        "window_kind"@,
        "window_minutes"@,
    ]);
    assert(values.deep_view() =~= seq![
        text_or_null(context.account_key.deep_view()),
        text_or_null(Some(limit_id@)),
        text_or_null(plan.deep_view()),
        integer_or_null(reset),
        number_or_null(used_text.deep_view()),
        text_or_null(Some(kind@)),
        integer_or_null(minutes),
    ]);
    let mut record = start_record(context, "quota", observed_at_ms);
    record.source_key = state_digest("quota", object_text(keys.as_slice(), &values).as_str());
    record.plan_type = copy_option(plan);
    record.limit_id = id;
    record.window_kind = name;
    record.used_percent = used;
    record.window_minutes = minutes;
    record.resets_at_ms = reset;
    Some(record)
}

fn add_window(
    records: &mut Vec<SourceAppServerRecord>,
    limit: &Json,
    kind: &str,
    limit_id: &str,
    observed_at_ms: i64,
    context: &IngestContext,
)
    ensures
        final(records).deep_view() == old(records).deep_view() + window_of_limit(
            limit@,
            kind@,
            limit_id@,
            observed_at_ms,
            context.deep_view(),
        ),
{
    let ghost before = records.deep_view();
    let plans: [&str; 2] = ["planType", "plan_type"];
    assert(views(plans@) =~= seq!["planType"@, "plan_type"@]);
    let plan = first_of(&text_of(limit, plans.as_slice()), &context.plan_type);
    assert(before + Seq::<SourceAppServerRecordView>::empty() =~= before);
    if let Some(window) = limit.get(kind) {
        if let Some(record) = make_window_record(
            window,
            kind,
            limit_id,
            &plan,
            observed_at_ms,
            context,
        ) {
            let ghost view = record.deep_view();
            records.push(record);
            assert(records.deep_view() =~= before + seq![view]);
        }
    }
}

/// Adds the records of a limit.
pub fn insert_limit(
    records: &mut Vec<SourceAppServerRecord>,
    limit: &Json,
    fallback_id: Option<&str>,
    observed_at_ms: i64,
    context: &IngestContext,
)
    ensures
        final(records).deep_view() == old(records).deep_view() + limit_records(
            limit@,
            fallback_id.deep_view(),
            observed_at_ms,
            context.deep_view(),
        ),
{
    let ghost before = records.deep_view();
    let ids: [&str; 3] = ["limitId", "limit_id", "id"];
    assert(views(ids@) =~= seq!["limitId"@, "limit_id"@, "id"@]);
    let id = match text_of(limit, ids.as_slice()) {
        Some(id) => Some(id),
        None => match fallback_id {
            Some(id) => Some(id.to_owned()),
            None => None,
        },
    };
    assert(before + Seq::<SourceAppServerRecordView>::empty() =~= before);
    if let Some(id) = id {
        add_window(records, limit, "primary", id.as_str(), observed_at_ms, context);
        add_window(records, limit, "secondary", id.as_str(), observed_at_ms, context);
        assert(records.deep_view() =~= before + limit_records(
            limit@,
            fallback_id.deep_view(),
            observed_at_ms,
            context.deep_view(),
        ));
    }
}

fn insert_named(
    records: &mut Vec<SourceAppServerRecord>,
    limits: &Json,
    observed_at_ms: i64,
    context: &IngestContext,
)
    requires
        limits@ is Object,
    ensures
        final(records).deep_view() == old(records).deep_view() + named_limits(
            limits@->Object_0,
            observed_at_ms,
            context.deep_view(),
        ),
{
    let ghost before = records.deep_view();
    let ghost known = context.deep_view();
    if let Json::Object(members) = limits {
        let ghost all = limits@->Object_0;
        assert(before + named_limits(all.take(0), observed_at_ms, known) =~= before);
        let mut i: usize = 0;
        while i < members.len()
            invariant
                i <= members@.len(),
                *limits == Json::Object(*members),
                all == limits@->Object_0,
                all.len() == members@.len(),
                known == context.deep_view(),
                records.deep_view() == before + named_limits(
                    all.take(i as int),
                    observed_at_ms,
                    known,
                ),
            decreases members@.len() - i,
        {
            assert(all.take(i + 1).drop_last() =~= all.take(i as int));
            assert(all.take(i + 1).last() == (members@[i as int].0@, members@[i as int].1@));
            insert_limit(
                records,
                &members[i].1,
                Some(members[i].0.as_str()),
                observed_at_ms,
                context,
            );
            i = i + 1;
            assert(records.deep_view() =~= before + named_limits(
                all.take(i as int),
                observed_at_ms,
                known,
            ));
        }
        assert(all.take(i as int) =~= all);
    }
}

fn insert_listed(
    records: &mut Vec<SourceAppServerRecord>,
    limits: &Json,
    observed_at_ms: i64,
    context: &IngestContext,
)
    requires
        limits@ is Array,
    ensures
        final(records).deep_view() == old(records).deep_view() + listed_limits(
            limits@->Array_0,
            observed_at_ms,
            context.deep_view(),
        ),
{
    let ghost before = records.deep_view();
    let ghost known = context.deep_view();
    if let Json::Array(items) = limits {
        let ghost all = limits@->Array_0;
        assert(before + listed_limits(all.take(0), observed_at_ms, known) =~= before);
        let mut i: usize = 0;
        while i < items.len()
            invariant
                i <= items@.len(),
                *limits == Json::Array(*items),
                all == limits@->Array_0,
                all.len() == items@.len(),
                known == context.deep_view(),
                records.deep_view() == before + listed_limits(
                    all.take(i as int),
                    observed_at_ms,
                    known,
                ),
            decreases items@.len() - i,
        {
            assert(all.take(i + 1).drop_last() =~= all.take(i as int));
            assert(all.take(i + 1).last() == items@[i as int]@);
            insert_limit(records, &items[i], None, observed_at_ms, context);
            i = i + 1;
            assert(records.deep_view() =~= before + listed_limits(
                all.take(i as int),
                observed_at_ms,
                known,
            ));
        }
        assert(all.take(i as int) =~= all);
    }
}

fn insert_quotas(
    records: &mut Vec<SourceAppServerRecord>,
    result: &Json,
    observed_at_ms: i64,
    context: &IngestContext,
)
    ensures
        final(records).deep_view() == old(records).deep_view() + quota_records_of(
            result@,
            observed_at_ms,
            context.deep_view(),
        ),
{
    let ghost before = records.deep_view();
    let single: [&str; 2] = ["rateLimits", "rate_limits"];
    let by_id: [&str; 2] = ["rateLimitsByLimitId", "rate_limits_by_limit_id"];
    assert(views(single@) =~= seq!["rateLimits"@, "rate_limits"@]);
    assert(views(by_id@) =~= seq!["rateLimitsByLimitId"@, "rate_limits_by_limit_id"@]);
    let limits = match result.find(single.as_slice()) {
        Some(limits) => limits,
        None => result,
    };
    assert(before + Seq::<SourceAppServerRecordView>::empty() =~= before);
    if let Some(named) = result.find(by_id.as_slice()) {
        if let Json::Object(_) = named {
            insert_named(records, named, observed_at_ms, context);
            return ;
        }
    }
    match limits {
        Json::Array(_) => insert_listed(records, limits, observed_at_ms, context),
        Json::Object(_) => if limits.get("limitId").is_some() || limits.get("primary").is_some() {
            insert_limit(records, limits, None, observed_at_ms, context);
        } else {
            insert_named(records, limits, observed_at_ms, context);
        },
        _ => {},
    }
}

pub(crate) fn find_buckets(result: &Json) -> (r: Json)
    ensures
        r@ == buckets_of(result@),
{
    let keys: [&str; 2] = ["dailyUsageBuckets", "daily_usage_buckets"];
    let summaries: [&str; 1] = ["summary"];
    assert(views(keys@) =~= bucket_keys());
    assert(views(summaries@) =~= seq!["summary"@]);
    if let Some(buckets) = result.find(keys.as_slice()) {
        return buckets.copy();
    }
    if let Some(summary) = result.find(summaries.as_slice()) {
        if let Some(buckets) = summary.find(keys.as_slice()) {
            return buckets.copy();
        }
    }
    let none: Vec<Json> = Vec::new();
    let r = Json::Array(none);
    assert(r@->Array_0 =~= Seq::empty());
    r
}

fn make_usage_record(result: &Json, observed_at_ms: i64, context: &IngestContext) -> (r:
    SourceAppServerRecord)
    ensures
        r.deep_view() == usage_record_of(result@, observed_at_ms, context.deep_view()),
{
    let lifetimes: [&str; 2] = ["lifetimeTokens", "lifetime_tokens"];
    assert(views(lifetimes@) =~= lifetime_keys());
    let lifetime = result.integer_of_first(lifetimes.as_slice());
    let daily = sanitize(&find_buckets(result)).to_text();
    let keys: [&str; 3] = ["account_key", "daily_tokens", "lifetime_tokens"];
    let mut values: Vec<String> = Vec::new();
    values.push(optional_text(&context.account_key));
    values.push(daily.clone());
    values.push(optional_integer(lifetime));
    assert(views(keys@) =~= seq!["account_key"@, "daily_tokens"@, "lifetime_tokens"@]);
    assert(values.deep_view() =~= seq![
        text_or_null(context.account_key.deep_view()),
        daily@,
        integer_or_null(lifetime),
    ]);
    let mut record = start_record(context, "usage", observed_at_ms);
    record.source_key = state_digest("usage", object_text(keys.as_slice(), &values).as_str());
    record.lifetime_tokens = lifetime;
    record.daily_tokens_json = Some(daily);
    record
}

/// The records of a message; what is known of the account is brought up to it.
pub fn ingest_value(
    message: &Json,
    fallback_observed_at_ms: i64,
    context: &mut IngestContext,
) -> (r: Vec<SourceAppServerRecord>)
    ensures
        (r.deep_view(), final(context).deep_view()) == ingested(
            message@,
            fallback_observed_at_ms,
            old(context).deep_view(),
        ),
{
    let mut records: Vec<SourceAppServerRecord> = Vec::new();
    if message.get("error").is_some() {
        records.push(record_unavailable(fallback_observed_at_ms));
        assert(records.deep_view() =~= seq![unavailable_record(fallback_observed_at_ms)]);
        return records;
    }
    let bodies: [&str; 2] = ["params", "result"];
    let times: [&str; 3] = ["observed_at", "observedAt", "timestamp"];
    let limits: [&str; 2] = ["rateLimits", "rate_limits"];
    let usages: [&str; 4] = [
        "dailyUsageBuckets",
        "daily_usage_buckets",
        "lifetimeTokens",
        "lifetime_tokens",
    ];
    assert(views(bodies@) =~= seq!["params"@, "result"@]);
    assert(views(times@) =~= seq!["observed_at"@, "observedAt"@, "timestamp"@]);
    assert(views(limits@) =~= seq!["rateLimits"@, "rate_limits"@]);
    assert(views(usages@) =~= bucket_keys() + lifetime_keys());
    let method = message.text_member("method");
    let null = Json::Null;
    let payload = match message.find(bodies.as_slice()) {
        Some(payload) => payload,
        None => &null,
    };
    let observed_at_ms: i64 = match first_instant(payload, times.as_slice()) {
        Some(at) => at,
        None => fallback_observed_at_ms,
    };
    let result = match message.get("result") {
        Some(result) => result,
        None => payload,
    };
    assert(records.deep_view() =~= Seq::empty());
    if holds(&method, "account/read") || result.get("account").is_some() {
        let account = match result.get("account") {
            Some(account) => account,
            None => result,
        };
        *context = read_account(account);
        records.push(make_account_record(context, observed_at_ms));
        assert(records.deep_view() =~= seq![account_record(context.deep_view(), observed_at_ms)]);
    }
    let ghost accounts = records.deep_view();
    assert(accounts + Seq::<SourceAppServerRecordView>::empty() =~= accounts);
    if holds(&method, "account/rateLimits/read") || result.find(limits.as_slice()).is_some() {
        insert_quotas(&mut records, result, observed_at_ms, context);
    }
    let ghost quotas = records.deep_view();
    assert(quotas + Seq::<SourceAppServerRecordView>::empty() =~= quotas);
    if holds(&method, "account/usage/read") || result.find(usages.as_slice()).is_some() {
        records.push(make_usage_record(result, observed_at_ms, context));
        assert(records.deep_view() =~= quotas + seq![
            usage_record_of(result@, observed_at_ms, context.deep_view()),
        ]);
    }
    records
}

/// How many records of a kind tell something.
pub open spec fn count_of_kind(records: Seq<SourceAppServerRecordView>, kind: Seq<char>) -> nat
    decreases records.len(),
{
    if records.len() == 0 {
        0
    } else {
        count_of_kind(records.drop_last(), kind) + (if records.last().kind == kind
            && records.last().status == "ok"@ {
            1nat
        } else {
            0nat
        })
    }
}

fn count_kind(records: &Vec<SourceAppServerRecord>, kind: &str) -> (r: usize)
    ensures
        r == count_of_kind(records.deep_view(), kind@),
{
    let ghost all = records.deep_view();
    let len: usize = records.len();
    let mut count: usize = 0;
    let mut i: usize = 0;
    while i < len
        invariant
            i <= len,
            len == records@.len(),
            all == records.deep_view(),
            count <= i,
            count == count_of_kind(all.take(i as int), kind@),
        decreases len - i,
    {
        assert(all.take(i + 1).drop_last() =~= all.take(i as int));
        assert(all.take(i + 1).last() == records@[i as int].deep_view());
        if same(records[i].kind.as_str(), kind) && same(records[i].status.as_str(), "ok") {
            count = count + 1;
        }
        i = i + 1;
    }
    assert(all.take(i as int) =~= all);
    count
}

/// What lines with records told.
pub fn scan_report(lines_seen: usize, records: &Vec<SourceAppServerRecord>) -> (r:
    AppServerScanReport)
    ensures
        r.lines_seen == lines_seen,
        r.account_rows == count_of_kind(records.deep_view(), "account"@),
        r.quota_rows == count_of_kind(records.deep_view(), "quota"@),
        r.usage_rows == count_of_kind(records.deep_view(), "usage"@),
{
    AppServerScanReport {
        lines_seen,
        account_rows: count_kind(records, "account"),
        quota_rows: count_kind(records, "quota"),
        usage_rows: count_kind(records, "usage"),
    }
}

/// The records of one message, read on its own, and the report of it.
pub fn ingest_line(message: &Json, fallback_observed_at_ms: i64) -> (r: (
    Vec<SourceAppServerRecord>,
    AppServerScanReport,
))
    ensures
        r.0.deep_view() == ingested(message@, fallback_observed_at_ms, empty_ingest_context()).0,
        r.1.lines_seen == 1,
        r.1.account_rows == count_of_kind(r.0.deep_view(), "account"@),
        r.1.quota_rows == count_of_kind(r.0.deep_view(), "quota"@),
        r.1.usage_rows == count_of_kind(r.0.deep_view(), "usage"@),
{
    let mut context = IngestContext::default();
    let records = ingest_value(message, fallback_observed_at_ms, &mut context);
    let report = scan_report(1, &records);
    (records, report)
}

/// Quotas that tell the same of the same account have one key, whenever they are seen: only when
/// they are first and last seen differs.
pub proof fn lemma_same_quota_has_one_key(
    window: JsonView,
    kind: Seq<char>,
    limit_id: Seq<char>,
    plan: Option<Seq<char>>,
    first: i64,
    second: i64,
    context: IngestContextView,
)
    ensures
        match (
            window_record(window, kind, limit_id, plan, first, context),
            window_record(window, kind, limit_id, plan, second, context),
        ) {
            (Some(a), Some(b)) => b == (SourceAppServerRecordView {
                first_seen_at_ms: second,
                last_seen_at_ms: second,
                ..a
            }),
            (None, None) => true,
            _ => false,
        },
{
}

/// A message that reports an error tells nothing but that the server does not answer: no value is
/// made up, and what is known of the account stays.
pub proof fn lemma_error_tells_nothing(message: JsonView, at: i64, context: IngestContextView)
    requires
        message.get("error"@) is Some,
    ensures
        ingested(message, at, context) == (seq![unavailable_record(at)], context),
        unavailable_record(at).used_percent is None,
        unavailable_record(at).lifetime_tokens is None,
        unavailable_record(at).daily_tokens_json is None,
{
}

/// The lines that ask the server for the account and its quotas, and for its usage where
/// `include_usage`.
pub fn request_lines(include_usage: bool) -> (r: Vec<&'static str>)
    ensures
        views(r@) == (seq![
            "{\"id\":1,\"method\":\"initialize\",\"params\":{\"capabilities\":null,\"clientInfo\":{\"name\":\"codex-meter\",\"title\":\"Codex Meter\",\"version\":\"minimal-r2\"}}}"@,
            "{\"method\":\"initialized\"}"@,
            "{\"id\":2,\"method\":\"account/read\",\"params\":{}}"@,
            "{\"id\":3,\"method\":\"account/rateLimits/read\",\"params\":{}}"@,
        ] + if include_usage {
            seq!["{\"id\":4,\"method\":\"account/usage/read\",\"params\":{}}"@]
        } else {
            Seq::empty()
        }),
{
    let mut lines: Vec<&'static str> = Vec::new();
    lines.push(
        "{\"id\":1,\"method\":\"initialize\",\"params\":{\"capabilities\":null,\"clientInfo\":{\"name\":\"codex-meter\",\"title\":\"Codex Meter\",\"version\":\"minimal-r2\"}}}",
    );
    lines.push("{\"method\":\"initialized\"}");
    lines.push("{\"id\":2,\"method\":\"account/read\",\"params\":{}}");
    lines.push("{\"id\":3,\"method\":\"account/rateLimits/read\",\"params\":{}}");
    if include_usage {
        lines.push("{\"id\":4,\"method\":\"account/usage/read\",\"params\":{}}");
    }
    assert(views(lines@) =~= seq![
        "{\"id\":1,\"method\":\"initialize\",\"params\":{\"capabilities\":null,\"clientInfo\":{\"name\":\"codex-meter\",\"title\":\"Codex Meter\",\"version\":\"minimal-r2\"}}}"@,
        "{\"method\":\"initialized\"}"@,
        "{\"id\":2,\"method\":\"account/read\",\"params\":{}}"@,
        "{\"id\":3,\"method\":\"account/rateLimits/read\",\"params\":{}}"@,
    ] + if include_usage {
        seq!["{\"id\":4,\"method\":\"account/usage/read\",\"params\":{}}"@]
    } else {
        Seq::empty()
    });
    lines
}

/// The identities of the replies that were seen, each once.
pub struct Replies {
    ids: Vec<i64>,
}

impl Replies {
    /// The identities that were seen.
    pub closed spec fn ids(&self) -> Set<i64> {
        self.ids@.to_set()
    }

    /// Whether no identity is held twice.
    pub closed spec fn well_formed(&self) -> bool {
        self.ids@.no_duplicates()
    }

    /// No reply was seen.
    pub fn new() -> (r: Self)
        ensures
            r.well_formed(),
            r.ids() == Set::<i64>::empty(),
    {
        let r = Replies { ids: Vec::new() };
        assert(r.ids@.to_set() =~= Set::empty());
        r
    }

    fn holds(&self, id: i64) -> (r: bool)
        ensures
            r == self.ids@.contains(id),
    {
        let mut i: usize = 0;
        while i < self.ids.len()
            invariant
                i <= self.ids@.len(),
                forall|k: int| 0 <= k < i ==> #[trigger] self.ids@[k] != id,
            decreases self.ids@.len() - i,
        {
            if self.ids[i] == id {
                return true;
            }
            i = i + 1;
        }
        false
    }

    /// Takes note of a line; one that is not JSON or has no identity counts for nothing.
    pub fn note(&mut self, line: &Option<Json>)
        requires
            old(self).well_formed(),
        ensures
            final(self).well_formed(),
            final(self).ids() == (match line.deep_view() {
                Some(line) => match line.get("id"@) {
                    Some(id) => match id.as_exact() {
                        Some(id) => old(self).ids().insert(id),
                        None => old(self).ids(),
                    },
                    None => old(self).ids(),
                },
                None => old(self).ids(),
            }),
    {
        if let Some(line) = line {
            if let Some(value) = line.get("id") {
                if let Some(id) = value.as_exact() {
                    let ghost before = self.ids@;
                    if self.holds(id) {
                        assert(before.to_set().insert(id) =~= before.to_set());
                    } else {
                        self.ids.push(id);
                        assert(self.ids@ == before.push(id));
                        assert forall|x: i64| #[trigger] before.push(id).contains(x) <==> before.contains(
                            x,
                        ) || x == id by {
                            if before.contains(x) {
                                assert(before.push(id)[before.index_of(x)] == x);
                            }
                            if x == id {
                                assert(before.push(id)[before.len() as int] == x);
                            }
                        }
                        assert(self.ids@.to_set() =~= before.to_set().insert(id));
                    }
                }
            }
        }
    }

    /// Whether all replies were seen: three, and one more for the usage.
    pub fn is_complete(&self, include_usage: bool) -> (r: bool)
        requires
            self.well_formed(),
        ensures
            r == (self.ids().len() >= (if include_usage {
                4nat
            } else {
                3nat
            })),
    {
        proof {
            self.ids@.unique_seq_to_set();
        }
        self.ids.len() >= if include_usage {
            4
        } else {
            3
        }
    }
}

} // verus!
