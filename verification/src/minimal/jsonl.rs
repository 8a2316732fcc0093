//! The events of session logs.
use crate::db::{empty_source_jsonl_record, SourceJsonlRecord, SourceJsonlRecordView};
use crate::digest::{digest_text, hex_digest, hex_digest_of, text_digest};
use crate::json::{
    add_field, field, integer_or_null, json_quoted, json_text, object_text, percentage_in,
    percentage_or_null, quoted, text_member, text_of_first, text_or_null, views, write_integer,
    write_object, write_text, Json, JsonView, Percentage,
};
use crate::minimal::db::{
    relation_of, session_relation, EventRecord, EventRecordView, QuotaRecord, QuotaRecordView,
};
use crate::ordered::{sort, sorted};
use crate::pipelines::source::jsonl::fast::{add_logs, logs_among, ByPath};
use crate::pipelines::source::jsonl::{
    epoch_of_first, first_epoch, member_or_null, normalize_tier, parse_timestamp, tier_named,
    timestamp_of, JsonlError,
};
use crate::pricing::TokenCounts;
use crate::text::{add_bytes, copy_option, first_of, first_some, holds, same, text_or};
use vstd::prelude::*;
use vstd::string::*;
use vstd::utf8::encode_utf8;

pub mod laws;
pub mod scan;

verus! {

/// A collector of the logs below the directory `codex_home`.
#[derive(Debug)]
pub struct JsonlCollector {
    pub codex_home: String,
}

/// What the lines of a log so far tell of the lines that follow.
#[derive(Debug)]
pub struct FileContext {
    pub session_id: Option<String>,
    pub root_session_id: Option<String>,
    pub turn_id: Option<String>,
    pub turn_started_at_ms: Option<i64>,
    pub model: Option<String>,
    pub provider: Option<String>,
    pub plan: Option<String>,
    pub tier: Option<String>,
}

/// A `FileContext` with its texts as sequences of characters.
#[verifier::ext_equal]
pub struct FileContextView {
    pub session_id: Option<Seq<char>>,
    pub root_session_id: Option<Seq<char>>,
    pub turn_id: Option<Seq<char>>,
    pub turn_started_at_ms: Option<i64>,
    pub model: Option<Seq<char>>,
    pub provider: Option<Seq<char>>,
    pub plan: Option<Seq<char>>,
    pub tier: Option<Seq<char>>,
}

impl DeepView for FileContext {
    type V = FileContextView;

    open spec fn deep_view(&self) -> FileContextView {
        FileContextView {
            session_id: self.session_id.deep_view(),
            root_session_id: self.root_session_id.deep_view(),
            turn_id: self.turn_id.deep_view(),
            turn_started_at_ms: self.turn_started_at_ms,
            model: self.model.deep_view(),
            provider: self.provider.deep_view(),
            plan: self.plan.deep_view(),
            tier: self.tier.deep_view(),
        }
    }
}

/// A `FileContext` of which nothing is known.
pub open spec fn empty_file_context() -> FileContextView {
    FileContextView {
        session_id: None,
        root_session_id: None,
        turn_id: None,
        turn_started_at_ms: None,
        model: None,
        provider: None,
        plan: None,
        tier: None,
    }
}

impl Default for FileContext {
    fn default() -> (r: Self)
        ensures
            r.deep_view() == empty_file_context(),
    {
        let r = FileContext {
            session_id: None,
            root_session_id: None,
            turn_id: None,
            turn_started_at_ms: None,
            model: None,
            provider: None,
            plan: None,
            tier: None,
        };
        assert(r.deep_view() =~= empty_file_context());
        r
    }
}

/// How far a log was read.
#[derive(Debug)]
pub struct CursorState {
    pub offset_bytes: u64,
    pub mtime_ms: Option<i64>,
    pub digest: Option<String>,
}

/// A `CursorState` with its texts as sequences of characters.
#[verifier::ext_equal]
pub struct CursorStateView {
    pub offset_bytes: u64,
    pub mtime_ms: Option<i64>,
    pub digest: Option<Seq<char>>,
}

impl DeepView for CursorState {
    type V = CursorStateView;

    open spec fn deep_view(&self) -> CursorStateView {
        CursorStateView {
            offset_bytes: self.offset_bytes,
            mtime_ms: self.mtime_ms,
            digest: self.digest.deep_view(),
        }
    }
}

/// What a scan of all logs found.
#[derive(Clone, Copy, Debug, PartialEq, Eq, Structural)]
pub struct JsonlScanReport {
    pub files_scanned: usize,
    pub files_changed: usize,
    pub complete_lines: usize,
    pub recognized_events: usize,
    pub inserted_events: usize,
    pub duplicate_events: usize,
    pub inserted_quota_samples: usize,
}

impl JsonlCollector {
    /// A collector of the logs below `codex_home`.
    pub fn new(codex_home: String) -> (r: Self)
        ensures
            r.codex_home@ == codex_home@,
    {
        JsonlCollector { codex_home }
    }

    /// The same collector: logs are read alike in every time zone.
    pub fn with_timezone(self, timezone: String) -> (r: Self)
        ensures
            r == self,
    {
        self
    }

    /// Where logs are read.
    pub fn home_display(&self) -> (r: String)
        ensures
            r@ == self.codex_home@,
    {
        self.codex_home.clone()
    }

    /// The logs among the files below the two directories of sessions, in the order of their paths.
    pub fn discover_paths(&self, active: &Vec<String>, archived: &Vec<String>) -> (r: Vec<
        (String, &'static str),
    >)
        ensures
            r.deep_view() == sorted::<(String, &'static str), ByPath>(
                logs_among(active.deep_view(), "active"@) + logs_among(
                    archived.deep_view(),
                    "archived"@,
                ),
            ),
    {
        let mut logs: Vec<(String, &'static str)> = Vec::new();
        assert(logs.deep_view() =~= Seq::empty());
        add_logs(&mut logs, active, "active");
        assert(logs.deep_view() =~= logs_among(active.deep_view(), "active"@));
        add_logs(&mut logs, archived, "archived");
        sort::<(String, &'static str), ByPath>(logs)
    }
}

/// The first of two members as an integer, nothing where there is none.
pub open spec fn exact_or_zero(value: JsonView, keys: Seq<Seq<char>>) -> i64 {
    match value.find(keys) {
        Some(found) => match found.as_exact() {
            Some(n) => n,
            None => 0,
        },
        None => 0,
    }
}

/// The counts of tokens of a value that counts input.
pub open spec fn counts_in(value: JsonView) -> Option<TokenCounts> {
    match value.get("input_tokens"@) {
        Some(found) => match found.as_exact() {
            Some(input) => Some(
                TokenCounts {
                    input,
                    cached: exact_or_zero(
                        value,
                        seq!["cached_input_tokens"@, "cache_read_input_tokens"@],
                    ),
                    cache_write: exact_or_zero(
                        value,
                        seq!["cache_write_input_tokens"@, "cache_creation_input_tokens"@],
                    ),
                    output: exact_or_zero(value, seq!["output_tokens"@]),
                    reasoning: exact_or_zero(value, seq!["reasoning_output_tokens"@]),
                    total: exact_or_zero(value, seq!["total_tokens"@]),
                },
            ),
            None => None,
        },
        None => None,
    }
}

/// The counts of tokens of a member.
pub open spec fn counts_of_member(value: JsonView, key: Seq<char>) -> Option<TokenCounts> {
    match value.get(key) {
        Some(found) => counts_in(found),
        None => None,
    }
}

/// The digest of an event: of its kind, its session and its line.
pub open spec fn digest_of_line(
    kind: Seq<char>,
    session_id: Option<Seq<char>>,
    line: Seq<u8>,
) -> Seq<char> {
    hex_digest_of(
        encode_utf8(kind) + seq![0u8] + encode_utf8(text_or(session_id, Seq::empty())) + seq![0u8]
            + line,
    )
}

/// What is known after a line, and the event that it states.
#[verifier::ext_equal]
pub struct EventRead {
    pub context: FileContextView,
    pub event: Option<EventRecordView>,
}

/// An event at an instant of which nothing but its kind and what is known of its log is told.
pub open spec fn bare_event(
    kind: Seq<char>,
    value: JsonView,
    context: FileContextView,
    at: i64,
) -> EventRecordView {
    EventRecordView {
        source_digest: Seq::empty(),
        observed_at_ms: at,
        kind,
        session_id: context.session_id,
        root_session_id: None,
        title: None,
        model: None,
        tier: None,
        provider: context.provider,
        account_key: None,
        plan: context.plan,
        last_tokens: None,
        cumulative_tokens: None,
        fast: None,
        quota_json: None,
        payload: value,
        quality: Seq::empty(),
    }
}

/// An event under the digest of its line; whether it is fast follows from its tier.
pub open spec fn event_of_line(event: EventRecordView, line: Seq<u8>) -> EventRecordView {
    EventRecordView {
        source_digest: digest_of_line(event.kind, event.session_id, line),
        fast: match event.tier {
            Some(tier) => Some(tier == "fast"@),
            None => None,
        },
        ..event
    }
}

/// The start of a session is read.
pub open spec fn session_read(
    value: JsonView,
    payload: JsonView,
    context: FileContextView,
    at: i64,
) -> EventRead {
    let session_id = text_of_first(payload, seq!["session_id"@, "id"@]);
    let provider = first_some(text_member(payload, "model_provider"@), context.provider);
    let root = text_of_first(payload, seq!["forked_from_id"@, "parent_thread_id"@]);
    EventRead {
        context: FileContextView { session_id, provider, root_session_id: root, ..context },
        event: Some(
            EventRecordView {
                session_id,
                root_session_id: root,
                title: text_member(payload, "title"@),
                provider,
                ..bare_event("session_meta"@, value, context, at)
            },
        ),
    }
}

/// Settings are read.
pub open spec fn settings_read(
    value: JsonView,
    payload: JsonView,
    context: FileContextView,
    at: i64,
) -> EventRead {
    let settings = member_or_null(payload, "thread_settings"@);
    let model = text_member(settings, "model"@);
    let tier = match text_member(settings, "service_tier"@) {
        Some(name) => tier_named(name),
        None => None,
    };
    let provider = first_some(text_member(settings, "model_provider_id"@), context.provider);
    EventRead {
        context: FileContextView { model, tier, provider, ..context },
        event: Some(
            EventRecordView {
                model,
                tier,
                provider,
                ..bare_event("thread_settings"@, value, context, at)
            },
        ),
    }
}

/// The limits that a count of tokens states.
pub open spec fn limits_in(value: JsonView, payload: JsonView) -> Option<JsonView> {
    first_some(value.get("rate_limits"@), payload.get("rate_limits"@))
}

/// The plan after a count of tokens.
pub open spec fn plan_after(limits: Option<JsonView>, plan: Option<Seq<char>>) -> Option<Seq<char>> {
    match limits {
        Some(limits) => first_some(
            text_of_first(limits, seq!["plan_type"@, "plan_type_raw"@]),
            plan,
        ),
        None => plan,
    }
}

/// A count of tokens is read: one that counts nothing states nothing.
pub open spec fn count_read(
    value: JsonView,
    payload: JsonView,
    context: FileContextView,
    at: i64,
) -> EventRead {
    let info = member_or_null(payload, "info"@);
    let last = counts_of_member(info, "last_token_usage"@);
    let cumulative = counts_of_member(info, "total_token_usage"@);
    let limits = limits_in(value, payload);
    let plan = plan_after(limits, context.plan);
    if last is None && cumulative is None {
        EventRead { context, event: None }
    } else {
        EventRead {
            context: FileContextView { plan, ..context },
            event: Some(
                EventRecordView {
                    tier: context.tier,
                    model: context.model,
                    plan,
                    last_tokens: last,
                    cumulative_tokens: cumulative,
                    quota_json: limits,
                    ..bare_event("token_count"@, value, context, at)
                },
            ),
        }
    }
}

/// The event of a line at an instant.
pub open spec fn event_at(value: JsonView, context: FileContextView, at: i64) -> EventRead {
    let kind = text_member(value, "type"@);
    let payload = member_or_null(value, "payload"@);
    let inner = text_member(payload, "type"@);
    if kind == Some("session_meta"@) {
        session_read(value, payload, context, at)
    } else if kind == Some("event_msg"@) && inner == Some("thread_settings_applied"@) {
        settings_read(value, payload, context, at)
    } else if kind == Some("event_msg"@) && inner == Some("token_count"@) {
        count_read(value, payload, context, at)
    } else {
        EventRead { context, event: None }
    }
}

/// What a line tells of the events of its log, or why it cannot be read.
pub open spec fn event_read(line: Seq<u8>, value: JsonView, context: FileContextView) -> Result<
    EventRead,
    Seq<char>,
> {
    match timestamp_of(value.get("timestamp"@)) {
        Ok(at) => Ok(event_read_at(line, value, context, at)),
        Err(reason) => Err(reason),
    }
}

/// What is known after a line, and the turn that it states.
#[verifier::ext_equal]
pub struct TurnRead {
    pub context: FileContextView,
    pub turn: Option<SourceJsonlRecordView>,
}

/// The key of a turn.
pub open spec fn turn_key(session_id: Option<Seq<char>>, turn_id: Seq<char>) -> Seq<char> {
    "turn:"@ + text_or(session_id, "unknown"@) + ":"@ + turn_id
}

/// The keys under which a turn is named.
pub open spec fn turn_keys() -> Seq<Seq<char>> {
    seq!["turn_id"@, "turnId"@]
}

/// The type of what a line tells: its own, or that of the event that it wraps.
pub open spec fn inner_type(value: JsonView) -> Seq<char> {
    let kind = text_or(text_member(value, "type"@), Seq::empty());
    if kind == "event_msg"@ {
        text_or(text_member(member_or_null(value, "payload"@), "type"@), Seq::empty())
    } else {
        kind
    }
}

/// What is known after the start or the end of a turn.
pub open spec fn context_of_turn(
    inner: Seq<char>,
    payload: JsonView,
    context: FileContextView,
    turn_id: Seq<char>,
    at: i64,
) -> FileContextView {
    let started = if context.turn_id == Some(turn_id) {
        context.turn_started_at_ms
    } else {
        None
    };
    FileContextView {
        turn_id: Some(turn_id),
        turn_started_at_ms: if inner == "task_started"@ {
            first_some(epoch_of_first(payload, seq!["started_at"@, "startedAt"@]), Some(at))
        } else {
            started
        },
        ..context
    }
}

/// The record of a turn.
pub open spec fn turn_record(
    inner: Seq<char>,
    payload: JsonView,
    context: FileContextView,
    turn_id: Seq<char>,
    at: i64,
) -> SourceJsonlRecordView {
    SourceJsonlRecordView {
        source_key: turn_key(context.session_id, turn_id),
        kind: "turn"@,
        observed_at_ms: at,
        session_id: context.session_id,
        root_session_id: context.root_session_id,
        turn_id: Some(turn_id),
        relation: Some(relation_of(context.root_session_id)),
        started_at_ms: first_some(context.turn_started_at_ms, Some(at)),
        ended_at_ms: if inner == "task_complete"@ {
            first_some(epoch_of_first(payload, seq!["completed_at"@, "completedAt"@]), Some(at))
        } else {
            None
        },
        model: context.model,
        service_tier: context.tier,
        provider: context.provider,
        plan_type: context.plan,
        ..empty_source_jsonl_record()
    }
}

/// The turn of a line at an instant.
pub open spec fn turn_at(value: JsonView, context: FileContextView, at: i64) -> TurnRead {
    let payload = member_or_null(value, "payload"@);
    let inner = inner_type(value);
    let named = text_of_first(payload, turn_keys());
    if inner == "turn_context"@ {
        TurnRead { context: FileContextView { turn_id: named, ..context }, turn: None }
    } else if inner == "task_started"@ || inner == "task_complete"@ {
        match first_some(named, context.turn_id) {
            Some(turn_id) => {
                let after = context_of_turn(inner, payload, context, turn_id, at);
                TurnRead {
                    context: after,
                    turn: Some(turn_record(inner, payload, after, turn_id, at)),
                }
            },
            None => TurnRead { context, turn: None },
        }
    } else {
        TurnRead { context, turn: None }
    }
}

/// What a line tells of the turns of its log, or why it cannot be read.
pub open spec fn turn_read(value: JsonView, context: FileContextView) -> Result<TurnRead, Seq<char>> {
    match timestamp_of(value.get("timestamp"@)) {
        Ok(at) => Ok(turn_at(value, context, at)),
        Err(reason) => Err(reason),
    }
}

/// The start and the end of a turn of one session are stored under one key, and the end keeps the
/// instant of the start.
pub proof fn lemma_turn_has_one_key(
    started: JsonView,
    completed: JsonView,
    context: FileContextView,
    first_at: i64,
    last_at: i64,
)
    requires
        inner_type(started) == "task_started"@,
        inner_type(completed) == "task_complete"@,
        text_of_first(member_or_null(started, "payload"@), turn_keys()) is Some,
        text_of_first(member_or_null(completed, "payload"@), turn_keys()) == text_of_first(
            member_or_null(started, "payload"@),
            turn_keys(),
        ),
    ensures
        ({
            let first = turn_at(started, context, first_at);
            let last = turn_at(completed, first.context, last_at);
            &&& first.turn matches Some(x)
            &&& last.turn matches Some(y)
            &&& x.source_key == y.source_key
            &&& x.started_at_ms == y.started_at_ms
            &&& x.ended_at_ms is None
            &&& y.ended_at_ms is Some
        }),
{
    reveal_strlit("task_started");
    reveal_strlit("task_complete");
    reveal_strlit("turn_context");
    assert("task_started"@.len() != "task_complete"@.len());
    assert("turn_context"@[1] != "task_started"@[1]);
    assert("turn_context"@[1] != "task_complete"@[1]);
}

/// The integer of a member that is one.
pub open spec fn exact_member(value: JsonView, key: Seq<char>) -> Option<i64> {
    match value.get(key) {
        Some(found) => found.as_exact(),
        None => None,
    }
}

/// A text as a value, null where there is none.
pub open spec fn text_value(text: Option<Seq<char>>) -> JsonView {
    match text {
        Some(text) => JsonView::Text(text),
        None => JsonView::Null,
    }
}

/// The state of one of the quotas of limits.
pub open spec fn quota_in(
    limits: JsonView,
    kind: Seq<char>,
    plan: Option<Seq<char>>,
    at: i64,
) -> Seq<QuotaRecordView> {
    let limit_id = text_member(limits, "limit_id"@);
    match limits.get(kind) {
        Some(window) => {
            let used_percent = percentage_in(window, "used_percent"@);
            let resets_at_ms = epoch_of_first(window, seq!["resets_at_ms"@, "resets_at"@]);
            if window is Null || used_percent is None && resets_at_ms is None {
                Seq::empty()
            } else {
                seq![
                    QuotaRecordView {
                        event_id: 0,
                        source_digest: text_digest(json_text(limits)) + ":"@ + kind,
                        observed_at_ms: at,
                        account_key: None,
                        limit_id,
                        window_kind: kind,
                        used_percent,
                        window_minutes: exact_member(window, "window_minutes"@),
                        resets_at_ms,
                        plan,
                        source: "jsonl"@,
                        raw_json: JsonView::Object(
                            seq![
                                ("limit_id"@, text_value(limit_id)),
                                ("window"@, window),
                                ("window_kind"@, JsonView::Text(kind)),
                            ],
                        ),
                    },
                ]
            }
        },
        None => Seq::empty(),
    }
}

/// The states of quotas that limits give.
pub open spec fn quotas_in(limits: JsonView, context: FileContextView, at: i64) -> Seq<
    QuotaRecordView,
> {
    if limits is Object {
        let plan = first_some(
            text_of_first(limits, seq!["plan_type"@, "plan_type_raw"@]),
            context.plan,
        );
        quota_in(limits, "primary"@, plan, at) + quota_in(limits, "secondary"@, plan, at)
    } else {
        Seq::empty()
    }
}

/// The key of a state of a quota: a digest of all that it states.
pub open spec fn quota_key(sample: QuotaRecordView) -> Seq<char> {
    "quota:"@ + text_digest(
        object_text(
            seq![
                field("limit_id"@, text_or_null(sample.limit_id)),
                field("plan"@, text_or_null(sample.plan)),
                field("resets_at_ms"@, integer_or_null(sample.resets_at_ms)),
                field("used_percent"@, percentage_or_null(sample.used_percent)),
                field("window_kind"@, json_quoted(sample.window_kind)),
                field("window_minutes"@, integer_or_null(sample.window_minutes)),
            ],
        ),
    )
}

/// A state of a quota that is seen again, later or in another log, has the key that it had.
pub proof fn lemma_quota_key_is_of_its_state(first: QuotaRecordView, second: QuotaRecordView)
    requires
        first.limit_id == second.limit_id,
        first.plan == second.plan,
        first.resets_at_ms == second.resets_at_ms,
        first.used_percent == second.used_percent,
        first.window_kind == second.window_kind,
        first.window_minutes == second.window_minutes,
    ensures
        quota_key(first) == quota_key(second),
{
}

fn get_or_null<'a>(value: &'a Json, key: &str, null: &'a Json) -> (r: &'a Json)
    requires
        null@ == JsonView::Null,
    ensures
        r@ == member_or_null(value@, key@),
{
    match value.get(key) {
        Some(found) => found,
        None => null,
    }
}

fn read_exact(value: &Json, keys: &[&str]) -> (r: i64)
    ensures
        r == exact_or_zero(value@, views(keys@)),
{
    match value.find(keys) {
        Some(found) => match found.as_exact() {
            Some(n) => n,
            None => 0,
        },
        None => 0,
    }
}

/// The counts of tokens of a value that counts input.
pub fn parse_token_counts(value: &Json) -> (r: Option<TokenCounts>)
    ensures
        r == counts_in(value@),
{
    let input = match value.get("input_tokens") {
        Some(found) => match found.as_exact() {
            Some(n) => n,
            None => return None,
        },
        None => return None,
    };
    let cached: [&str; 2] = ["cached_input_tokens", "cache_read_input_tokens"];
    let written: [&str; 2] = ["cache_write_input_tokens", "cache_creation_input_tokens"];
    let output: [&str; 1] = ["output_tokens"];
    let reasoning: [&str; 1] = ["reasoning_output_tokens"];
    let total: [&str; 1] = ["total_tokens"];
    assert(views(cached@) =~= seq!["cached_input_tokens"@, "cache_read_input_tokens"@]);
    assert(views(written@) =~= seq!["cache_write_input_tokens"@, "cache_creation_input_tokens"@]);
    assert(views(output@) =~= seq!["output_tokens"@]);
    assert(views(reasoning@) =~= seq!["reasoning_output_tokens"@]);
    assert(views(total@) =~= seq!["total_tokens"@]);
    Some(
        TokenCounts {
            input,
            cached: read_exact(value, cached.as_slice()),
            cache_write: read_exact(value, written.as_slice()),
            output: read_exact(value, output.as_slice()),
            reasoning: read_exact(value, reasoning.as_slice()),
            total: read_exact(value, total.as_slice()),
        },
    )
}

fn read_counts(value: &Json, key: &str) -> (r: Option<TokenCounts>)
    ensures
        r == counts_of_member(value@, key@),
{
    match value.get(key) {
        Some(found) => parse_token_counts(found),
        None => None,
    }
}

/// The digest of an event: of its kind, its session and its line.
pub fn event_digest(kind: &str, session_id: &Option<String>, line: &[u8]) -> (r: String)
    ensures
        r@ == digest_of_line(kind@, session_id.deep_view(), line@),
{
    let mut bytes: Vec<u8> = Vec::new();
    add_bytes(&mut bytes, kind.as_bytes());
    bytes.push(0);
    let empty = String::new();
    let session = match session_id {
        Some(id) => id.as_str(),
        None => empty.as_str(),
    };
    assert(empty@ =~= Seq::empty());
    add_bytes(&mut bytes, session.as_bytes());
    bytes.push(0);
    add_bytes(&mut bytes, line);
    assert(bytes@ =~= encode_utf8(kind@) + seq![0u8] + encode_utf8(
        text_or(session_id.deep_view(), Seq::empty()),
    ) + seq![0u8] + line@);
    hex_digest(bytes.as_slice())
}

fn start_event(kind: &str, value: &Json, context: &FileContext, at: i64) -> (r: EventRecord)
    ensures
        r.deep_view() == bare_event(kind@, value@, context.deep_view(), at),
{
    let event = EventRecord {
        source_digest: String::new(),
        observed_at_ms: at,
        kind: kind.to_owned(),
        session_id: copy_option(&context.session_id),
        root_session_id: None,
        title: None,
        model: None,
        tier: None,
        provider: copy_option(&context.provider),
        account_key: None,
        plan: copy_option(&context.plan),
        last_tokens: None,
        cumulative_tokens: None,
        fast: None,
        quota_json: None,
        payload: value.copy(),
        quality: Vec::new(),
    };
    assert(event.quality.deep_view() =~= Seq::empty());
    assert(event.source_digest@ =~= Seq::empty());
    event
}

fn read_session(value: &Json, payload: &Json, context: &mut FileContext, at: i64) -> (r:
    EventRecord)
    ensures
        session_read(value@, payload@, old(context).deep_view(), at) == (EventRead {
            context: final(context).deep_view(),
            event: Some(r.deep_view()),
        }),
{
    let id_keys: [&str; 2] = ["session_id", "id"];
    let root_keys: [&str; 2] = ["forked_from_id", "parent_thread_id"];
    assert(views(id_keys@) =~= seq!["session_id"@, "id"@]);
    assert(views(root_keys@) =~= seq!["forked_from_id"@, "parent_thread_id"@]);
    let mut event = start_event("session_meta", value, context, at);
    event.session_id = payload.text_of_first(id_keys.as_slice());
    event.root_session_id = payload.text_of_first(root_keys.as_slice());
    event.title = payload.text_member("title");
    event.provider = first_of(&payload.text_member("model_provider"), &context.provider);
    context.session_id = copy_option(&event.session_id);
    context.root_session_id = copy_option(&event.root_session_id);
    context.provider = copy_option(&event.provider);
    event
}

fn read_settings(value: &Json, payload: &Json, context: &mut FileContext, at: i64) -> (r:
    EventRecord)
    ensures
        settings_read(value@, payload@, old(context).deep_view(), at) == (EventRead {
            context: final(context).deep_view(),
            event: Some(r.deep_view()),
        }),
{
    let null = Json::Null;
    let settings = get_or_null(payload, "thread_settings", &null);
    let mut event = start_event("thread_settings", value, context, at);
    event.model = settings.text_member("model");
    event.tier = match settings.text_member("service_tier") {
        Some(name) => match normalize_tier(name.as_str()) {
            Some(tier) => Some(tier.to_owned()),
            None => None,
        },
        None => None,
    };
    event.provider = first_of(&settings.text_member("model_provider_id"), &context.provider);
    context.model = copy_option(&event.model);
    context.tier = copy_option(&event.tier);
    context.provider = copy_option(&event.provider);
    event
}

fn read_count(value: &Json, payload: &Json, context: &mut FileContext, at: i64) -> (r: Option<
    EventRecord,
>)
    ensures
        count_read(value@, payload@, old(context).deep_view(), at) == (EventRead {
            context: final(context).deep_view(),
            event: r.deep_view(),
        }),
{
    let null = Json::Null;
    let info = get_or_null(payload, "info", &null);
    let last = read_counts(info, "last_token_usage");
    let cumulative = read_counts(info, "total_token_usage");
    if last.is_none() && cumulative.is_none() {
        return None;
    }
    let limits = match value.get("rate_limits") {
        Some(limits) => Some(limits),
        None => payload.get("rate_limits"),
    };
    let mut event = start_event("token_count", value, context, at);
    if let Some(limits) = limits {
        let keys: [&str; 2] = ["plan_type", "plan_type_raw"];
        assert(views(keys@) =~= seq!["plan_type"@, "plan_type_raw"@]);
        event.plan = first_of(&limits.text_of_first(keys.as_slice()), &context.plan);
        context.plan = copy_option(&event.plan);
        event.quota_json = Some(limits.copy());
    }
    event.tier = copy_option(&context.tier);
    event.model = copy_option(&context.model);
    event.last_tokens = last;
    event.cumulative_tokens = cumulative;
    Some(event)
}

/// What a line tells of an instant, with the digest of the line.
pub open spec fn event_read_at(
    line: Seq<u8>,
    value: JsonView,
    context: FileContextView,
    at: i64,
) -> EventRead {
    let read = event_at(value, context, at);
    EventRead {
        context: read.context,
        event: match read.event {
            Some(event) => Some(event_of_line(event, line)),
            None => None,
        },
    }
}

/// What a line tells of an instant; the context is brought up to the line.
pub fn parse_event_at(raw_line: &[u8], value: &Json, context: &mut FileContext, at: i64) -> (r:
    Option<EventRecord>)
    ensures
        (EventRead { context: final(context).deep_view(), event: r.deep_view() })
            == event_read_at(raw_line@, value@, old(context).deep_view(), at),
{
    let kind = match value.text_member("type") {
        Some(kind) => kind,
        None => return None,
    };
    let null = Json::Null;
    let payload = get_or_null(value, "payload", &null);
    let inner = payload.text_member("type");
    let event = if same(kind.as_str(), "session_meta") {
        Some(read_session(value, payload, context, at))
    } else if same(kind.as_str(), "event_msg") && holds(&inner, "thread_settings_applied") {
        Some(read_settings(value, payload, context, at))
    } else if same(kind.as_str(), "event_msg") && holds(&inner, "token_count") {
        read_count(value, payload, context, at)
    } else {
        None
    };
    match event {
        Some(mut event) => {
            event.source_digest = event_digest(event.kind.as_str(), &event.session_id, raw_line);
            event.fast = match &event.tier {
                Some(tier) => Some(same(tier.as_str(), "fast")),
                None => None,
            };
            Some(event)
        },
        None => None,
    }
}

/// Reads the event of a line of a log.
pub fn parse_event(raw_line: &[u8], value: &Json, context: &mut FileContext) -> (r: Result<
    Option<EventRecord>,
    JsonlError,
>)
    ensures
        match r {
            Ok(event) => event_read(raw_line@, value@, old(context).deep_view()) == Ok::<
                EventRead,
                Seq<char>,
            >(EventRead { context: final(context).deep_view(), event: event.deep_view() }),
            Err(error) => event_read(raw_line@, value@, old(context).deep_view()) == Err::<
                EventRead,
                Seq<char>,
            >(error.deep_view()) && final(context).deep_view() == old(context).deep_view(),
        },
{
    match parse_timestamp(value.get("timestamp")) {
        Ok(at) => Ok(parse_event_at(raw_line, value, context, at)),
        Err(error) => Err(error),
    }
}

fn read_inner_type(value: &Json, payload: &Json) -> (r: String)
    requires
        payload@ == member_or_null(value@, "payload"@),
    ensures
        r@ == inner_type(value@),
{
    let kind = match value.text_member("type") {
        Some(kind) => kind,
        None => String::new(),
    };
    assert(value@.get("type"@) is None ==> kind@ =~= Seq::empty());
    if same(kind.as_str(), "event_msg") {
        match payload.text_member("type") {
            Some(inner) => inner,
            None => String::new(),
        }
    } else {
        kind
    }
}

fn read_turn(
    inner: &str,
    payload: &Json,
    context: &mut FileContext,
    turn_id: String,
    at: i64,
) -> (r: SourceJsonlRecord)
    ensures
        final(context).deep_view() == context_of_turn(
            inner@,
            payload@,
            old(context).deep_view(),
            turn_id@,
            at,
        ),
        r.deep_view() == turn_record(
            inner@,
            payload@,
            final(context).deep_view(),
            turn_id@,
            at,
        ),
{
    let start_keys: [&str; 2] = ["started_at", "startedAt"];
    let end_keys: [&str; 2] = ["completed_at", "completedAt"];
    assert(views(start_keys@) =~= seq!["started_at"@, "startedAt"@]);
    assert(views(end_keys@) =~= seq!["completed_at"@, "completedAt"@]);
    if !holds(&context.turn_id, turn_id.as_str()) {
        context.turn_started_at_ms = None;
    }
    context.turn_id = Some(turn_id.clone());
    if same(inner, "task_started") {
        context.turn_started_at_ms = match first_epoch(payload, start_keys.as_slice()) {
            Some(started) => Some(started),
            None => Some(at),
        };
    }
    let mut key = "turn:".to_owned();
    match &context.session_id {
        Some(id) => key.append(id.as_str()),
        None => key.append("unknown"),
    }
    key.append(":");
    key.append(turn_id.as_str());
    let mut record = SourceJsonlRecord::default();
    record.source_key = key;
    record.kind = "turn".to_owned();
    record.observed_at_ms = at;
    record.session_id = copy_option(&context.session_id);
    record.root_session_id = copy_option(&context.root_session_id);
    record.turn_id = Some(turn_id);
    record.relation = Some(session_relation(&context.root_session_id));
    record.started_at_ms = match context.turn_started_at_ms {
        Some(started) => Some(started),
        None => Some(at),
    };
    record.ended_at_ms = if same(inner, "task_complete") {
        match first_epoch(payload, end_keys.as_slice()) {
            Some(ended) => Some(ended),
            None => Some(at),
        }
    } else {
        None
    };
    record.model = copy_option(&context.model);
    record.service_tier = copy_option(&context.tier);
    record.provider = copy_option(&context.provider);
    record.plan_type = copy_option(&context.plan);
    record
}

/// The turn that a line tells of at an instant; the context is brought up to the line.
pub fn parse_turn_at(value: &Json, context: &mut FileContext, at: i64) -> (r: Option<
    SourceJsonlRecord,
>)
    ensures
        (TurnRead { context: final(context).deep_view(), turn: r.deep_view() }) == turn_at(
            value@,
            old(context).deep_view(),
            at,
        ),
{
    let null = Json::Null;
    let payload = get_or_null(value, "payload", &null);
    let inner = read_inner_type(value, payload);
    let keys: [&str; 2] = ["turn_id", "turnId"];
    assert(views(keys@) =~= turn_keys());
    let named = payload.text_of_first(keys.as_slice());
    if same(inner.as_str(), "turn_context") {
        context.turn_id = named;
        return None;
    }
    if !same(inner.as_str(), "task_started") && !same(inner.as_str(), "task_complete") {
        return None;
    }
    match first_of(&named, &context.turn_id) {
        Some(turn_id) => Some(read_turn(inner.as_str(), payload, context, turn_id, at)),
        None => None,
    }
}

/// Reads the turn of a line of a log.
pub fn parse_turn_record(value: &Json, context: &mut FileContext) -> (r: Result<
    Option<SourceJsonlRecord>,
    JsonlError,
>)
    ensures
        match r {
            Ok(turn) => turn_read(value@, old(context).deep_view()) == Ok::<TurnRead, Seq<char>>(
                TurnRead { context: final(context).deep_view(), turn: turn.deep_view() },
            ),
            Err(error) => turn_read(value@, old(context).deep_view()) == Err::<
                TurnRead,
                Seq<char>,
            >(error.deep_view()) && final(context).deep_view() == old(context).deep_view(),
        },
{
    match parse_timestamp(value.get("timestamp")) {
        Ok(at) => Ok(parse_turn_at(value, context, at)),
        Err(error) => Err(error),
    }
}

fn raw_quota(limit_id: &Option<String>, kind: &str, window: &Json) -> (r: Json)
    ensures
        r@ == JsonView::Object(
            seq![
                ("limit_id"@, text_value(limit_id.deep_view())),
                ("window"@, window@),
                ("window_kind"@, JsonView::Text(kind@)),
            ],
        ),
{
    let id = match limit_id {
        Some(id) => Json::Text(id.clone()),
        None => Json::Null,
    };
    let named = Json::Text(kind.to_owned());
    let held = window.copy();
    assert(id@ == text_value(limit_id.deep_view()));
    assert(named@ == JsonView::Text(kind@));
    let mut members: Vec<(String, Json)> = Vec::new();
    members.push(("limit_id".to_owned(), id));
    members.push(("window".to_owned(), held));
    members.push(("window_kind".to_owned(), named));
    let r = Json::Object(members);
    let ghost told = r@->Object_0;
    assert(told.len() == 3);
    assert(told[0] == ("limit_id"@, text_value(limit_id.deep_view())));
    assert(told[1] == ("window"@, window@));
    assert(told[2] == ("window_kind"@, JsonView::Text(kind@)));
    assert(told =~= seq![
        ("limit_id"@, text_value(limit_id.deep_view())),
        ("window"@, window@),
        ("window_kind"@, JsonView::Text(kind@)),
    ]);
    r
}

fn read_percentage(value: &Json, key: &str) -> (r: Option<Percentage>)
    ensures
        r.deep_view() == percentage_in(value@, key@),
{
    match value.get(key) {
        Some(Json::Number(n)) => Some(Percentage { value: n.float, text: n.float_text.clone() }),
        _ => None,
    }
}

fn add_quota(
    records: &mut Vec<QuotaRecord>,
    limits: &Json,
    kind: &str,
    plan: &Option<String>,
    at: i64,
)
    ensures
        final(records).deep_view() == old(records).deep_view() + quota_in(
            limits@,
            kind@,
            plan.deep_view(),
            at,
        ),
{
    let ghost before = records.deep_view();
    let window = match limits.get(kind) {
        Some(window) => window,
        None => {
            assert(before + Seq::<QuotaRecordView>::empty() =~= before);
            return ;
        },
    };
    assert(before + Seq::<QuotaRecordView>::empty() =~= before);
    if let Json::Null = window {
        return ;
    }
    let keys: [&str; 2] = ["resets_at_ms", "resets_at"];
    assert(views(keys@) =~= seq!["resets_at_ms"@, "resets_at"@]);
    let used_percent = read_percentage(window, "used_percent");
    let resets_at_ms = first_epoch(window, keys.as_slice());
    if used_percent.is_none() && resets_at_ms.is_none() {
        return ;
    }
    let limit_id = limits.text_member("limit_id");
    let mut source_digest = digest_text(limits.to_text().as_str());
    source_digest.append(":");
    source_digest.append(kind);
    let raw_json = raw_quota(&limit_id, kind, window);
    let record = QuotaRecord {
        event_id: 0,
        source_digest,
        observed_at_ms: at,
        account_key: None,
        limit_id,
        window_kind: kind.to_owned(),
        used_percent,
        window_minutes: match window.get("window_minutes") {
            Some(minutes) => minutes.as_exact(),
            None => None,
        },
        resets_at_ms,
        plan: copy_option(plan),
        source: "jsonl".to_owned(),
        raw_json,
    };
    let ghost told = record.deep_view();
    assert(told == quota_in(limits@, kind@, plan.deep_view(), at)[0]);
    records.push(record);
    assert(records.deep_view() =~= before + seq![told]);
    assert(quota_in(limits@, kind@, plan.deep_view(), at) =~= seq![told]);
}

/// The states of quotas that limits give.
pub fn rate_limit_records(limits: &Json, context: &FileContext, at: i64) -> (r: Vec<QuotaRecord>)
    ensures
        r.deep_view() == quotas_in(limits@, context.deep_view(), at),
{
    let mut records: Vec<QuotaRecord> = Vec::new();
    assert(records.deep_view() =~= Seq::empty());
    if let Json::Object(_) = limits {
        let keys: [&str; 2] = ["plan_type", "plan_type_raw"];
        assert(views(keys@) =~= seq!["plan_type"@, "plan_type_raw"@]);
        let plan = first_of(&limits.text_of_first(keys.as_slice()), &context.plan);
        add_quota(&mut records, limits, "primary", &plan, at);
        add_quota(&mut records, limits, "secondary", &plan, at);
        assert(records.deep_view() =~= quotas_in(limits@, context.deep_view(), at));
    }
    records
}

/// The key of a state of a quota.
pub fn source_quota_key(sample: &QuotaRecord) -> (r: String)
    ensures
        r@ == quota_key(sample.deep_view()),
{
    let percentage = match &sample.used_percent {
        Some(percentage) => percentage.text.clone(),
        None => "null".to_owned(),
    };
    let mut fields: Vec<String> = Vec::new();
    assert(fields.deep_view() =~= Seq::empty());
    add_field(&mut fields, "limit_id", write_text(&sample.limit_id));
    add_field(&mut fields, "plan", write_text(&sample.plan));
    add_field(&mut fields, "resets_at_ms", write_integer(sample.resets_at_ms));
    add_field(&mut fields, "used_percent", percentage);
    add_field(&mut fields, "window_kind", quoted(sample.window_kind.as_str()));
    add_field(&mut fields, "window_minutes", write_integer(sample.window_minutes));
    assert(fields.deep_view() =~= seq![
        field("limit_id"@, text_or_null(sample.limit_id.deep_view())),
        field("plan"@, text_or_null(sample.plan.deep_view())),
        field("resets_at_ms"@, integer_or_null(sample.resets_at_ms)),
        field("used_percent"@, percentage_or_null(sample.deep_view().used_percent)),
        field("window_kind"@, json_quoted(sample.window_kind@)),
        field("window_minutes"@, integer_or_null(sample.window_minutes)),
    ]);
    let mut key = "quota:".to_owned();
    key.append(digest_text(write_object(&fields).as_str()).as_str());
    key
}

} // verus!
