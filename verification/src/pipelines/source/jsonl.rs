//! Session logs: facts about sessions, turns, token usage and quotas.
//!
//! Of a line of a log only these facts are kept; no message and no tool payload is.
pub mod fast;
pub mod laws;
pub mod lines;

use crate::calendar::{
    date_of_instant, in_calendar, julian_day_at, Date, DAY_MS, SHANGHAI_OFFSET_MS,
};
use crate::db::{
    empty_source_jsonl_record, SourceJsonlRecord, SourceJsonlRecordView,
};
use crate::digest::{digest_text, text_digest};
use crate::json::{
    integer_of_first, integer_or_null, json_quoted, quoted, text_member, text_of_first,
    text_or_null, views, Float, Json, JsonView,
};
use crate::num::{clamp_i64, saturating_mul, saturating_sub, smaller, truncating_div};
use crate::ordered::{lemma_place, lookup, place, put, OrderedMap};
use crate::pricing::{tokens_excess, tokens_normalized, tokens_observed, TokenCounts};
use crate::text::{
    ascii_lower, characters, copy_option, decimal, digits_value, first_some, holds, integer_text,
    join, joined, lemma_bad_digit, lemma_less_total, pieces, same, same_option, split, text_or,
    to_ascii_lowercase, trim, trimmed,
};
use vstd::prelude::*;
use vstd::string::*;

verus! {

/// Why a log could not be read.
#[derive(Debug, PartialEq)]
pub enum JsonlError {
    /// A time stamp is missing or cannot be read.
    Timestamp(String),
}

impl DeepView for JsonlError {
    type V = Seq<char>;

    open spec fn deep_view(&self) -> Seq<char> {
        match self {
            JsonlError::Timestamp(reason) => reason@,
        }
    }
}

/// What the lines of a log so far say about the lines that follow.
#[derive(Debug)]
pub struct FileContext {
    pub session_id: Option<String>,
    pub parent_session_id: Option<String>,
    pub root_session_id: Option<String>,
    pub relation: Option<String>,
    pub turn_id: Option<String>,
    pub turn_started_at_ms: Option<i64>,
    pub model: Option<String>,
    pub provider: Option<String>,
    pub plan: Option<String>,
    pub tier: Option<String>,
    pub reasoning_effort: Option<String>,
    pub previous_cumulative: Option<TokenCounts>,
}

/// A `FileContext` with its texts as sequences of characters.
#[verifier::ext_equal]
pub struct FileContextView {
    pub session_id: Option<Seq<char>>,
    pub parent_session_id: Option<Seq<char>>,
    pub root_session_id: Option<Seq<char>>,
    pub relation: Option<Seq<char>>,
    pub turn_id: Option<Seq<char>>,
    pub turn_started_at_ms: Option<i64>,
    pub model: Option<Seq<char>>,
    pub provider: Option<Seq<char>>,
    pub plan: Option<Seq<char>>,
    pub tier: Option<Seq<char>>,
    pub reasoning_effort: Option<Seq<char>>,
    pub previous_cumulative: Option<TokenCounts>,
}

impl DeepView for FileContext {
    type V = FileContextView;

    open spec fn deep_view(&self) -> FileContextView {
        FileContextView {
            session_id: self.session_id.deep_view(),
            parent_session_id: self.parent_session_id.deep_view(),
            root_session_id: self.root_session_id.deep_view(),
            relation: self.relation.deep_view(),
            turn_id: self.turn_id.deep_view(),
            turn_started_at_ms: self.turn_started_at_ms,
            model: self.model.deep_view(),
            provider: self.provider.deep_view(),
            plan: self.plan.deep_view(),
            tier: self.tier.deep_view(),
            reasoning_effort: self.reasoning_effort.deep_view(),
            previous_cumulative: self.previous_cumulative,
        }
    }
}

/// A `FileContext` of which nothing is known.
pub open spec fn empty_file_context() -> FileContextView {
    FileContextView {
        session_id: None,
        parent_session_id: None,
        root_session_id: None,
        relation: None,
        turn_id: None,
        turn_started_at_ms: None,
        model: None,
        provider: None,
        plan: None,
        tier: None,
        reasoning_effort: None,
        previous_cumulative: None,
    }
}

impl Default for FileContext {
    fn default() -> (r: Self)
        ensures
            r.deep_view() == empty_file_context(),
    {
        let r = FileContext {
            session_id: None,
            parent_session_id: None,
            root_session_id: None,
            relation: None,
            turn_id: None,
            turn_started_at_ms: None,
            model: None,
            provider: None,
            plan: None,
            tier: None,
            reasoning_effort: None,
            previous_cumulative: None,
        };
        assert(r.deep_view() =~= empty_file_context());
        r
    }
}

impl FileContext {
    /// A copy of the record.
    pub fn copy(&self) -> (r: Self)
        ensures
            r.deep_view() == self.deep_view(),
    {
        FileContext {
            session_id: copy_option(&self.session_id),
            parent_session_id: copy_option(&self.parent_session_id),
            root_session_id: copy_option(&self.root_session_id),
            relation: copy_option(&self.relation),
            turn_id: copy_option(&self.turn_id),
            turn_started_at_ms: self.turn_started_at_ms,
            model: copy_option(&self.model),
            provider: copy_option(&self.provider),
            plan: copy_option(&self.plan),
            tier: copy_option(&self.tier),
            reasoning_effort: copy_option(&self.reasoning_effort),
            previous_cumulative: self.previous_cumulative,
        }
    }
}

/// What is known when a text is read as an RFC 3339 time stamp: the nanoseconds since the Unix
/// epoch, or why it is none.
pub uninterp spec fn rfc3339(text: Seq<char>) -> Result<int, Seq<char>>;

/// `time::OffsetDateTime::parse` with the RFC 3339 format and `unix_timestamp_nanos`, or the text
/// of the error: a function of the text alone, named `rfc3339`.
#[verifier::external_body]
pub(crate) fn parse_rfc3339(text: &str) -> (r: Result<i128, String>)
    ensures
        match r {
            Ok(nanos) => rfc3339(text@) == Ok::<int, Seq<char>>(nanos as int),
            Err(reason) => rfc3339(text@) == Err::<int, Seq<char>>(reason@),
        },
{
    match time::OffsetDateTime::parse(text, &time::format_description::well_known::Rfc3339) {
        Ok(date) => Ok(date.unix_timestamp_nanos()),
        Err(error) => Err(error.to_string()),
    }
}

/// The milliseconds since the Unix epoch that a time stamp writes.
pub open spec fn timestamp_of(value: Option<JsonView>) -> Result<i64, Seq<char>> {
    match value {
        Some(JsonView::Text(text)) => match rfc3339(text) {
            Ok(nanos) => Ok(truncating_div(nanos, 1_000_000) as i64),
            Err(reason) => Err(reason),
        },
        _ => Err("missing timestamp"@),
    }
}

/// The milliseconds since the Unix epoch of a number of seconds or of milliseconds.
pub open spec fn epoch_millis(number: i64) -> i64 {
    if -100_000_000_000 < number < 100_000_000_000 {
        clamp_i64(number * 1_000)
    } else {
        number
    }
}

/// The milliseconds since the Unix epoch that a JSON number gives in seconds or in milliseconds.
pub open spec fn epoch_of(value: JsonView) -> Option<i64> {
    match value.as_integer() {
        Some(number) => Some(epoch_millis(number)),
        None => None,
    }
}

/// The milliseconds since the Unix epoch that the first of the members `keys` gives.
pub open spec fn epoch_of_first(value: JsonView, keys: Seq<Seq<char>>) -> Option<i64> {
    match value.find(keys) {
        Some(found) => epoch_of(found),
        None => None,
    }
}

/// The tier that a service tier names, whatever the case of its letters.
pub open spec fn tier_named(value: Seq<char>) -> Option<Seq<char>> {
    let lowered = ascii_lower(value);
    if lowered == "standard"@ || lowered == "default"@ {
        Some("standard"@)
    } else if lowered == "fast"@ || lowered == "priority"@ {
        Some("fast"@)
    } else {
        None
    }
}

/// The tier after a member for the service tier was read: it stays where there is none, and is not
/// known where the member names none.
pub open spec fn tier_after(found: Option<JsonView>, tier: Option<Seq<char>>) -> Option<Seq<char>> {
    match found {
        None => tier,
        Some(value) => match value.as_text() {
            Some(text) => tier_named(text),
            None => None,
        },
    }
}

/// A text without white space at its ends, where anything is left of it.
pub open spec fn non_empty(text: Option<Seq<char>>) -> Option<Seq<char>> {
    match text {
        Some(text) => if trimmed(text).len() > 0 {
            Some(trimmed(text))
        } else {
            None
        },
        None => None,
    }
}

/// The first of the members `keys` that is a text, trimmed, where anything is left of it.
pub open spec fn first_text(value: JsonView, keys: Seq<Seq<char>>) -> Option<Seq<char>>
    decreases keys.len(),
{
    if keys.len() == 0 {
        None
    } else {
        match text_member(value, keys[0]) {
            Some(text) => non_empty(Some(text)),
            None => first_text(value, keys.skip(1)),
        }
    }
}

/// The reasoning effort that an object names, itself or in the settings of its collaboration mode.
pub open spec fn effort_of(value: JsonView) -> Option<Seq<char>> {
    let own = first_text(value, seq!["reasoning_effort"@, "reasoningEffort"@, "effort"@]);
    match own {
        Some(effort) => Some(effort),
        None => match value.get("collaboration_mode"@) {
            Some(mode) => match mode.get("settings"@) {
                Some(settings) => first_text(settings, seq!["reasoning_effort"@, "effort"@]),
                None => None,
            },
            None => None,
        },
    }
}

/// The parent that the source of a session names, for one that another session spawned.
pub open spec fn spawn_parent(payload: JsonView) -> Option<JsonView> {
    match payload.get("source"@) {
        Some(source) => match source.get("subagent"@) {
            Some(subagent) => match subagent.get("thread_spawn"@) {
                Some(spawn) => spawn.get("parent_thread_id"@),
                None => None,
            },
            None => None,
        },
        None => None,
    }
}

/// The session that a session was forked from or spawned by.
pub open spec fn parent_of_session(payload: JsonView) -> Option<Seq<char>> {
    let found = first_some(
        payload.find(seq!["forked_from_id"@, "parent_thread_id"@]),
        spawn_parent(payload),
    );
    match found {
        Some(JsonView::Text(id)) => if id.len() > 0 {
            Some(id)
        } else {
            None
        },
        _ => None,
    }
}

/// How a session is related to others.
pub open spec fn relation_of_session(payload: JsonView) -> Seq<char> {
    let spawned = match spawn_parent(payload) {
        Some(value) => value.as_text(),
        None => None,
    };
    if text_member(payload, "forked_from_id"@) is Some {
        "fork"@
    } else if text_member(payload, "parent_thread_id"@) is Some || spawned is Some {
        "child"@
    } else {
        "main"@
    }
}

/// The count that the first of the members `keys` gives; none is zero.
pub open spec fn count_of(value: JsonView, keys: Seq<Seq<char>>) -> i64 {
    match integer_of_first(value, keys) {
        Some(n) => n,
        None => 0,
    }
}

/// Token counts of an object, in normal form, where they count anything.
pub open spec fn token_counts_of(value: JsonView) -> Option<TokenCounts> {
    let tokens = tokens_normalized(
        TokenCounts {
            input: count_of(value, seq!["input_tokens"@, "inputTokens"@]),
            cached: count_of(
                value,
                seq!["cached_input_tokens"@, "cache_read_input_tokens"@, "cacheReadInputTokens"@],
            ),
            cache_write: count_of(
                value,
                seq![
                    "cache_write_input_tokens"@,
                    "cache_creation_input_tokens"@,
                    "cacheCreationInputTokens"@,
                ],
            ),
            output: count_of(value, seq!["output_tokens"@, "outputTokens"@]),
            reasoning: count_of(value, seq!["reasoning_output_tokens"@, "reasoningOutputTokens"@]),
            total: count_of(value, seq!["total_tokens"@, "totalTokens"@]),
        },
    );
    if tokens_observed(tokens) {
        Some(tokens)
    } else {
        None
    }
}

/// Whether a counter fell in any of its fields.
pub open spec fn counter_fell(current: TokenCounts, previous: TokenCounts) -> bool {
    current.input < previous.input || current.cached < previous.cached || current.cache_write
        < previous.cache_write || current.output < previous.output || current.reasoning
        < previous.reasoning || current.total < previous.total
}

/// What of a report of token counts is new: the counts of the last request, unless the cumulative
/// counter has not moved; else what the cumulative counter has more than before, or all of it after
/// it was reset. With it comes the quality of the answer.
pub open spec fn new_tokens(
    last: Option<TokenCounts>,
    cumulative: Option<TokenCounts>,
    previous: Option<TokenCounts>,
) -> (Option<TokenCounts>, Option<Seq<char>>) {
    let reset = cumulative is Some && previous is Some && counter_fell(cumulative->0, previous->0);
    let advanced = cumulative is None || previous != cumulative;
    if last is Some && advanced {
        (
            last,
            if reset {
                Some("counter_reset"@)
            } else {
                None
            },
        )
    } else {
        match cumulative {
            None => (None, None),
            Some(current) => (
                Some(
                    if previous is None || reset {
                        current
                    } else {
                        tokens_excess(current, previous->0)
                    },
                ),
                Some(
                    if reset {
                        "derived_from_cumulative,counter_reset"@
                    } else {
                        "derived_from_cumulative"@
                    },
                ),
            ),
        }
    }
}

/// A JSON object in writing, by its keys and the texts of their values.
pub open spec fn object_of(keys: Seq<Seq<char>>, values: Seq<Seq<char>>) -> Seq<char> {
    "{"@ + joined(
        Seq::new(keys.len(), |i: int| json_quoted(keys[i]) + ":"@ + values[i]),
        ","@,
    ) + "}"@
}

/// Optional token counts in JSON.
pub open spec fn tokens_or_null(tokens: Option<TokenCounts>) -> Seq<char> {
    match tokens {
        Some(t) => object_of(
            seq!["cache_write"@, "cached"@, "input"@, "output"@, "reasoning"@, "total"@],
            seq![
                integer_text(t.cache_write as int),
                integer_text(t.cached as int),
                integer_text(t.input as int),
                integer_text(t.output as int),
                integer_text(t.reasoning as int),
                integer_text(t.total as int),
            ],
        ),
        None => "null"@,
    }
}

/// The digest by which a usage is known. A cumulative counter tells a copy of an event wherever it
/// stands; without one the time of the event is part of what tells it.
pub open spec fn usage_digest_of(
    context: FileContextView,
    observed_at_ms: i64,
    last: Option<TokenCounts>,
    cumulative: Option<TokenCounts>,
) -> Seq<char> {
    text_digest(
        object_of(
            seq![
                "cumulative"@,
                "last"@,
                "model"@,
                "observed_at_ms"@,
                "plan"@,
                "reasoning_effort"@,
                "session_id"@,
                "tier"@,
                "turn_id"@,
            ],
            seq![
                tokens_or_null(cumulative),
                tokens_or_null(last),
                text_or_null(context.model),
                integer_or_null(
                    if cumulative is None {
                        Some(observed_at_ms)
                    } else {
                        None
                    },
                ),
                text_or_null(context.plan),
                text_or_null(context.reasoning_effort),
                text_or_null(context.session_id),
                text_or_null(context.tier),
                text_or_null(context.turn_id),
            ],
        ),
    )
}

/// A usage with a cumulative counter is known by one digest, whenever it was observed.
pub proof fn lemma_replayed_usage_has_one_digest(
    context: FileContextView,
    first_at_ms: i64,
    second_at_ms: i64,
    last: Option<TokenCounts>,
    cumulative: TokenCounts,
)
    ensures
        usage_digest_of(context, first_at_ms, last, Some(cumulative)) == usage_digest_of(
            context,
            second_at_ms,
            last,
            Some(cumulative),
        ),
{
}

/// The quota that a window of an object of rate limits reports, if any.
pub open spec fn quota_of_window(
    limits: JsonView,
    window_kind: Seq<char>,
    context: FileContextView,
    observed_at_ms: i64,
) -> Option<SourceJsonlRecordView> {
    let limit_id = text_of_first(limits, seq!["limit_id"@, "limitId"@]);
    let plan = first_some(
        text_of_first(limits, seq!["plan_type"@, "plan_type_raw"@]),
        context.plan,
    );
    match limits.get(window_kind) {
        None => None,
        Some(window) => {
            let percent = match window.find(seq!["used_percent"@, "usedPercent"@]) {
                Some(value) => (value.as_float(), value.as_float_text()),
                None => (None, None),
            };
            let window_minutes = integer_of_first(
                window,
                seq!["window_minutes"@, "windowMinutes"@],
            );
            let resets_at_ms = epoch_of_first(
                window,
                seq!["resets_at_ms"@, "resetsAt"@, "resets_at"@],
            );
            if percent.0 is None && resets_at_ms is None {
                None
            } else {
                Some(
                    SourceJsonlRecordView {
                        source_key: "quota:"@ + text_digest(
                            object_of(
                                seq![
                                    "limit_id"@,
                                    "plan"@,
                                    "resets_at_ms"@,
                                    "used_percent"@,
                                    "window_kind"@,
                                    "window_minutes"@,
                                ],
                                seq![
                                    text_or_null(limit_id),
                                    text_or_null(plan),
                                    integer_or_null(resets_at_ms),
                                    text_or(percent.1, "null"@),
                                    json_quoted(window_kind),
                                    integer_or_null(window_minutes),
                                ],
                            ),
                        ),
                        kind: "quota"@,
                        observed_at_ms,
                        last_seen_at_ms: Some(observed_at_ms),
                        provider: context.provider,
                        plan_type: plan,
                        limit_id,
                        window_kind: Some(window_kind),
                        used_percent: percent.0,
                        window_minutes,
                        resets_at_ms,
                        quality: Some("jsonl"@),
                        ..empty_source_jsonl_record()
                    },
                )
            }
        },
    }
}

/// The values that are there, in order.
pub open spec fn present<T>(a: Option<T>, b: Option<T>) -> Seq<T> {
    match (a, b) {
        (Some(x), Some(y)) => seq![x, y],
        (Some(x), None) => seq![x],
        (None, Some(y)) => seq![y],
        (None, None) => Seq::empty(),
    }
}

/// The quotas that an object of rate limits reports.
pub open spec fn quotas_of(
    limits: JsonView,
    context: FileContextView,
    observed_at_ms: i64,
) -> Seq<SourceJsonlRecordView> {
    present(
        quota_of_window(limits, "primary"@, context, observed_at_ms),
        quota_of_window(limits, "secondary"@, context, observed_at_ms),
    )
}

/// What a line changes in the context, and the facts that it states.
pub struct LineEffect {
    pub context: FileContextView,
    pub records: Seq<SourceJsonlRecordView>,
}

/// The effect of the line that opens a session.
pub open spec fn session_effect(
    payload: JsonView,
    context: FileContextView,
    observed_at_ms: i64,
) -> LineEffect {
    match text_of_first(payload, seq!["id"@, "session_id"@]) {
        None => LineEffect { context, records: Seq::empty() },
        Some(session_id) => {
            let same_session = context.session_id == Some(session_id);
            let parent = parent_of_session(payload);
            let after = FileContextView {
                session_id: Some(session_id),
                parent_session_id: parent,
                root_session_id: parent,
                relation: Some(relation_of_session(payload)),
                provider: first_some(text_member(payload, "model_provider"@), context.provider),
                previous_cumulative: if same_session {
                    context.previous_cumulative
                } else {
                    None
                },
                turn_id: if same_session {
                    context.turn_id
                } else {
                    None
                },
                turn_started_at_ms: if same_session {
                    context.turn_started_at_ms
                } else {
                    None
                },
                ..context
            };
            LineEffect {
                context: after,
                records: seq![
                    SourceJsonlRecordView {
                        source_key: "session:"@ + session_id,
                        kind: "session"@,
                        observed_at_ms,
                        session_id: Some(session_id),
                        parent_session_id: parent,
                        root_session_id: parent,
                        relation: after.relation,
                        title: text_member(payload, "title"@),
                        provider: after.provider,
                        plan_type: after.plan,
                        reasoning_effort: after.reasoning_effort,
                        quality: Some("session_meta"@),
                        ..empty_source_jsonl_record()
                    },
                ],
            }
        },
    }
}

/// The context after a turn's settings.
pub open spec fn turn_context_effect(payload: JsonView, context: FileContextView) -> FileContextView {
    FileContextView {
        turn_id: text_of_first(payload, seq!["turn_id"@, "turnId"@]),
        model: first_some(first_text(payload, seq!["model"@]), context.model),
        reasoning_effort: first_some(effort_of(payload), context.reasoning_effort),
        tier: tier_after(payload.find(seq!["service_tier"@, "serviceTier"@]), context.tier),
        ..context
    }
}

/// Whether a type of event ends a turn before it is complete.
pub open spec fn is_abort(inner_type: Seq<char>) -> bool {
    inner_type == "task_aborted"@ || inner_type == "turn_aborted"@
}

/// Whether a type of event starts or ends a turn.
pub open spec fn is_turn_event(inner_type: Seq<char>) -> bool {
    inner_type == "task_started"@ || inner_type == "task_complete"@ || is_abort(inner_type)
}

/// The effect of a line that starts or ends a turn.
pub open spec fn turn_effect(
    inner_type: Seq<char>,
    payload: JsonView,
    context: FileContextView,
    observed_at_ms: i64,
) -> LineEffect {
    match first_some(text_of_first(payload, seq!["turn_id"@, "turnId"@]), context.turn_id) {
        None => LineEffect { context, records: Seq::empty() },
        Some(turn_id) => {
            let started = if inner_type == "task_started"@ {
                first_some(
                    epoch_of_first(payload, seq!["started_at"@, "startedAt"@]),
                    Some(observed_at_ms),
                )
            } else if context.turn_id == Some(turn_id) {
                context.turn_started_at_ms
            } else {
                None
            };
            let after = FileContextView {
                turn_id: Some(turn_id),
                turn_started_at_ms: started,
                ..context
            };
            LineEffect {
                context: after,
                records: seq![
                    SourceJsonlRecordView {
                        source_key: "turn:"@ + text_or(after.session_id, "unknown"@) + ":"@
                            + turn_id,
                        kind: "turn"@,
                        observed_at_ms,
                        session_id: after.session_id,
                        parent_session_id: after.parent_session_id,
                        root_session_id: after.root_session_id,
                        turn_id: Some(turn_id),
                        relation: after.relation,
                        started_at_ms: first_some(started, Some(observed_at_ms)),
                        ended_at_ms: if inner_type == "task_started"@ {
                            None
                        } else {
                            first_some(
                                epoch_of_first(
                                    payload,
                                    seq![
                                        "completed_at"@,
                                        "completedAt"@,
                                        "aborted_at"@,
                                        "abortedAt"@,
                                    ],
                                ),
                                Some(observed_at_ms),
                            )
                        },
                        model: after.model,
                        service_tier: after.tier,
                        reasoning_effort: after.reasoning_effort,
                        provider: after.provider,
                        plan_type: after.plan,
                        quality: if is_abort(inner_type) {
                            Some("aborted"@)
                        } else {
                            None
                        },
                        ..empty_source_jsonl_record()
                    },
                ],
            }
        },
    }
}

/// The value of a member, else `null`.
pub open spec fn member_or_null(value: JsonView, key: Seq<char>) -> JsonView {
    match value.get(key) {
        Some(found) => found,
        None => JsonView::Null,
    }
}

/// The context after the settings of a thread were applied.
pub open spec fn settings_effect(payload: JsonView, context: FileContextView) -> FileContextView {
    let settings = member_or_null(payload, "thread_settings"@);
    FileContextView {
        model: first_some(text_member(settings, "model"@), context.model),
        tier: tier_after(settings.get("service_tier"@), context.tier),
        reasoning_effort: first_some(effort_of(settings), context.reasoning_effort),
        provider: first_some(text_member(settings, "model_provider_id"@), context.provider),
        ..context
    }
}

/// Whether counts name none of the parts that are priced.
pub open spec fn is_total_only(tokens: TokenCounts) -> bool {
    tokens.input == 0 && tokens.cached == 0 && tokens.cache_write == 0 && tokens.output == 0
        && tokens.reasoning == 0
}

/// The counts of a member of an object.
pub open spec fn counts_member(info: JsonView, key: Seq<char>) -> Option<TokenCounts> {
    match info.get(key) {
        Some(value) => token_counts_of(value),
        None => None,
    }
}

/// The effect of a line that reports token counts.
pub open spec fn token_effect(
    line: JsonView,
    payload: JsonView,
    context: FileContextView,
    observed_at_ms: i64,
) -> LineEffect {
    let info = member_or_null(payload, "info"@);
    let last = counts_member(info, "last_token_usage"@);
    let cumulative = counts_member(info, "total_token_usage"@);
    let (found, quality) = new_tokens(last, cumulative, context.previous_cumulative);
    let counted = FileContextView {
        previous_cumulative: first_some(cumulative, context.previous_cumulative),
        ..context
    };
    match found {
        Some(found) if tokens_observed(tokens_normalized(found)) => {
            let tokens = tokens_normalized(found);
            let limits = first_some(line.get("rate_limits"@), payload.get("rate_limits"@));
            let after = match limits {
                Some(limits) => FileContextView {
                    plan: first_some(
                        text_of_first(limits, seq!["plan_type"@, "plan_type_raw"@]),
                        counted.plan,
                    ),
                    ..counted
                },
                None => counted,
            };
            let quotas = match limits {
                Some(limits) => quotas_of(limits, after, observed_at_ms),
                None => Seq::empty(),
            };
            LineEffect {
                context: after,
                records: if is_total_only(tokens) {
                    quotas
                } else {
                    quotas.push(
                        SourceJsonlRecordView {
                            source_key: "usage:"@ + usage_digest_of(
                                after,
                                observed_at_ms,
                                last,
                                cumulative,
                            ),
                            kind: "usage"@,
                            observed_at_ms,
                            session_id: after.session_id,
                            parent_session_id: after.parent_session_id,
                            root_session_id: after.root_session_id,
                            turn_id: after.turn_id,
                            relation: after.relation,
                            model: after.model,
                            service_tier: after.tier,
                            reasoning_effort: after.reasoning_effort,
                            provider: after.provider,
                            plan_type: after.plan,
                            input_tokens: Some(tokens.input),
                            cache_read_tokens: Some(tokens.cached),
                            cache_write_tokens: Some(tokens.cache_write),
                            output_tokens: Some(tokens.output),
                            reasoning_tokens: Some(tokens.reasoning),
                            total_tokens: Some(tokens.total),
                            quality,
                            ..empty_source_jsonl_record()
                        },
                    )
                },
            }
        },
        _ => LineEffect { context: counted, records: Seq::empty() },
    }
}

/// The effect of a line with a readable time stamp.
pub open spec fn event_effect(
    line: JsonView,
    context: FileContextView,
    observed_at_ms: i64,
) -> LineEffect {
    let event_type = text_or(text_member(line, "type"@), Seq::empty());
    let payload = member_or_null(line, "payload"@);
    let inner_type = if event_type == "event_msg"@ {
        text_or(text_member(payload, "type"@), Seq::empty())
    } else {
        event_type
    };
    if event_type == "session_meta"@ {
        session_effect(payload, context, observed_at_ms)
    } else if inner_type == "turn_context"@ {
        LineEffect { context: turn_context_effect(payload, context), records: Seq::empty() }
    } else if is_turn_event(inner_type) {
        turn_effect(inner_type, payload, context, observed_at_ms)
    } else if inner_type == "thread_settings_applied"@ {
        LineEffect { context: settings_effect(payload, context), records: Seq::empty() }
    } else if inner_type == "token_count"@ {
        token_effect(line, payload, context, observed_at_ms)
    } else {
        LineEffect { context, records: Seq::empty() }
    }
}

/// The effect of a line, or why it has none.
pub open spec fn line_effect(line: JsonView, context: FileContextView) -> Result<
    LineEffect,
    Seq<char>,
> {
    match timestamp_of(line.get("timestamp"@)) {
        Ok(at) => Ok(event_effect(line, context, at)),
        Err(reason) => Err(reason),
    }
}

/// Whether two values have the same members `keys`.
pub open spec fn same_members(a: JsonView, b: JsonView, keys: Seq<Seq<char>>) -> bool {
    forall|i: int| 0 <= i < keys.len() ==> a.get(#[trigger] keys[i]) == b.get(keys[i])
}

/// Whether two values name a reasoning effort in the same members.
pub open spec fn efforts_agree(a: JsonView, b: JsonView) -> bool {
    &&& same_members(a, b, seq!["reasoning_effort"@, "reasoningEffort"@, "effort"@])
    &&& same_members(
        member_or_null(member_or_null(a, "collaboration_mode"@), "settings"@),
        member_or_null(member_or_null(b, "collaboration_mode"@), "settings"@),
        seq!["reasoning_effort"@, "effort"@],
    )
}

/// Whether two values give the same members for each count of tokens.
pub open spec fn counts_agree(a: JsonView, b: JsonView) -> bool {
    &&& same_members(a, b, seq!["input_tokens"@, "inputTokens"@])
    &&& same_members(
        a,
        b,
        seq!["cached_input_tokens"@, "cache_read_input_tokens"@, "cacheReadInputTokens"@],
    )
    &&& same_members(
        a,
        b,
        seq![
            "cache_write_input_tokens"@,
            "cache_creation_input_tokens"@,
            "cacheCreationInputTokens"@,
        ],
    )
    &&& same_members(a, b, seq!["output_tokens"@, "outputTokens"@])
    &&& same_members(a, b, seq!["reasoning_output_tokens"@, "reasoningOutputTokens"@])
    &&& same_members(a, b, seq!["total_tokens"@, "totalTokens"@])
}

/// Whether two windows of rate limits agree on what is read of a window.
pub open spec fn windows_agree(a: JsonView, b: JsonView) -> bool {
    &&& same_members(a, b, seq!["used_percent"@, "usedPercent"@])
    &&& same_members(a, b, seq!["window_minutes"@, "windowMinutes"@])
    &&& same_members(a, b, seq!["resets_at_ms"@, "resetsAt"@, "resets_at"@])
}

/// Whether two objects of rate limits agree on what is read of them.
pub open spec fn limits_agree(a: JsonView, b: JsonView) -> bool {
    &&& same_members(a, b, seq!["limit_id"@, "limitId"@])
    &&& same_members(a, b, seq!["plan_type"@, "plan_type_raw"@])
    &&& windows_agree(member_or_null(a, "primary"@), member_or_null(b, "primary"@))
    &&& windows_agree(member_or_null(a, "secondary"@), member_or_null(b, "secondary"@))
}

/// Whether two values both have rate limits, or neither, and agree on what is read of them.
pub open spec fn rate_limits_agree(a: JsonView, b: JsonView) -> bool {
    &&& a.get("rate_limits"@) is Some == b.get("rate_limits"@) is Some
    &&& limits_agree(member_or_null(a, "rate_limits"@), member_or_null(b, "rate_limits"@))
}

/// Whether two payloads agree on what is read of the one that opens a session.
pub open spec fn session_members_agree(a: JsonView, b: JsonView) -> bool {
    &&& same_members(a, b, seq!["id"@, "session_id"@])
    &&& same_members(a, b, seq!["forked_from_id"@, "parent_thread_id"@])
    &&& spawn_parent(a) == spawn_parent(b)
    &&& same_members(a, b, seq!["model_provider"@, "title"@])
}

/// Whether two payloads agree on what is read of the settings, the start and the end of a turn.
pub open spec fn turn_members_agree(a: JsonView, b: JsonView) -> bool {
    &&& same_members(a, b, seq!["turn_id"@, "turnId"@])
    &&& same_members(a, b, seq!["model"@])
    &&& efforts_agree(a, b)
    &&& same_members(a, b, seq!["service_tier"@, "serviceTier"@])
    &&& same_members(a, b, seq!["started_at"@, "startedAt"@])
    &&& same_members(
        a,
        b,
        seq!["completed_at"@, "completedAt"@, "aborted_at"@, "abortedAt"@],
    )
}

/// Whether the settings of a thread in two payloads agree on what is read of them.
pub open spec fn settings_members_agree(a: JsonView, b: JsonView) -> bool {
    let (a, b) = (member_or_null(a, "thread_settings"@), member_or_null(b, "thread_settings"@));
    &&& same_members(a, b, seq!["model"@, "service_tier"@, "model_provider_id"@])
    &&& efforts_agree(a, b)
}

/// Whether the counts of tokens in two payloads agree on what is read of them.
pub open spec fn token_members_agree(a: JsonView, b: JsonView) -> bool {
    let (a, b) = (member_or_null(a, "info"@), member_or_null(b, "info"@));
    &&& counts_agree(
        member_or_null(a, "last_token_usage"@),
        member_or_null(b, "last_token_usage"@),
    )
    &&& counts_agree(
        member_or_null(a, "total_token_usage"@),
        member_or_null(b, "total_token_usage"@),
    )
}

/// Whether two lines agree on every member that is read: the time stamp, the type, the rate limits,
/// and of the payload its type, the ids, the title, the provider, the model, the tier, the effort,
/// the times, the settings, the counts and the rate limits.
pub open spec fn lines_agree(a: JsonView, b: JsonView) -> bool {
    let (x, y) = (member_or_null(a, "payload"@), member_or_null(b, "payload"@));
    &&& same_members(a, b, seq!["timestamp"@, "type"@])
    &&& rate_limits_agree(a, b)
    &&& same_members(x, y, seq!["type"@])
    &&& session_members_agree(x, y)
    &&& turn_members_agree(x, y)
    &&& settings_members_agree(x, y)
    &&& token_members_agree(x, y)
    &&& rate_limits_agree(x, y)
}

proof fn lemma_found_alike(a: JsonView, b: JsonView, keys: Seq<Seq<char>>)
    requires
        same_members(a, b, keys),
    ensures
        a.find(keys) == b.find(keys),
        first_text(a, keys) == first_text(b, keys),
    decreases keys.len(),
{
    if keys.len() > 0 {
        let rest = keys.skip(1);
        assert forall|i: int| 0 <= i < rest.len() implies a.get(#[trigger] rest[i]) == b.get(
            rest[i],
        ) by {
            assert(rest[i] == keys[i + 1]);
        }
        lemma_found_alike(a, b, rest);
        assert(a.get(keys[0]) == b.get(keys[0]));
    }
}

proof fn lemma_first_text_of_null(keys: Seq<Seq<char>>)
    ensures
        first_text(JsonView::Null, keys) is None,
        JsonView::Null.find(keys) is None,
    decreases keys.len(),
{
    if keys.len() > 0 {
        lemma_first_text_of_null(keys.skip(1));
    }
}

proof fn lemma_efforts_alike(a: JsonView, b: JsonView)
    requires
        efforts_agree(a, b),
    ensures
        effort_of(a) == effort_of(b),
{
    let own = seq!["reasoning_effort"@, "reasoningEffort"@, "effort"@];
    let set = seq!["reasoning_effort"@, "effort"@];
    lemma_found_alike(a, b, own);
    lemma_found_alike(
        member_or_null(member_or_null(a, "collaboration_mode"@), "settings"@),
        member_or_null(member_or_null(b, "collaboration_mode"@), "settings"@),
        set,
    );
    lemma_first_text_of_null(set);
}

proof fn lemma_counts_alike(a: JsonView, b: JsonView, key: Seq<char>)
    requires
        counts_agree(member_or_null(a, key), member_or_null(b, key)),
    ensures
        counts_member(a, key) == counts_member(b, key),
{
    let (x, y) = (member_or_null(a, key), member_or_null(b, key));
    let input = seq!["input_tokens"@, "inputTokens"@];
    let cached = seq![
        "cached_input_tokens"@,
        "cache_read_input_tokens"@,
        "cacheReadInputTokens"@,
    ];
    let written = seq![
        "cache_write_input_tokens"@,
        "cache_creation_input_tokens"@,
        "cacheCreationInputTokens"@,
    ];
    let output = seq!["output_tokens"@, "outputTokens"@];
    let reasoning = seq!["reasoning_output_tokens"@, "reasoningOutputTokens"@];
    let total = seq!["total_tokens"@, "totalTokens"@];
    lemma_found_alike(x, y, input);
    lemma_found_alike(x, y, cached);
    lemma_found_alike(x, y, written);
    lemma_found_alike(x, y, output);
    lemma_found_alike(x, y, reasoning);
    lemma_found_alike(x, y, total);
    assert(token_counts_of(x) == token_counts_of(y));
    lemma_first_text_of_null(input);
    lemma_first_text_of_null(cached);
    lemma_first_text_of_null(written);
    lemma_first_text_of_null(output);
    lemma_first_text_of_null(reasoning);
    lemma_first_text_of_null(total);
    assert(token_counts_of(JsonView::Null) is None);
}

proof fn lemma_quotas_alike(
    a: JsonView,
    b: JsonView,
    window_kind: Seq<char>,
    context: FileContextView,
    observed_at_ms: i64,
)
    requires
        same_members(a, b, seq!["limit_id"@, "limitId"@]),
        same_members(a, b, seq!["plan_type"@, "plan_type_raw"@]),
        windows_agree(member_or_null(a, window_kind), member_or_null(b, window_kind)),
    ensures
        quota_of_window(a, window_kind, context, observed_at_ms) == quota_of_window(
            b,
            window_kind,
            context,
            observed_at_ms,
        ),
{
    let (x, y) = (member_or_null(a, window_kind), member_or_null(b, window_kind));
    let percent = seq!["used_percent"@, "usedPercent"@];
    let minutes = seq!["window_minutes"@, "windowMinutes"@];
    let resets = seq!["resets_at_ms"@, "resetsAt"@, "resets_at"@];
    lemma_found_alike(a, b, seq!["limit_id"@, "limitId"@]);
    lemma_found_alike(a, b, seq!["plan_type"@, "plan_type_raw"@]);
    lemma_found_alike(x, y, percent);
    lemma_found_alike(x, y, minutes);
    lemma_found_alike(x, y, resets);
    lemma_first_text_of_null(percent);
    lemma_first_text_of_null(resets);
}

proof fn lemma_sessions_alike(
    a: JsonView,
    b: JsonView,
    context: FileContextView,
    observed_at_ms: i64,
)
    requires
        session_members_agree(a, b),
    ensures
        session_effect(a, context, observed_at_ms) == session_effect(b, context, observed_at_ms),
{
    let parents = seq!["forked_from_id"@, "parent_thread_id"@];
    let names = seq!["model_provider"@, "title"@];
    lemma_found_alike(a, b, seq!["id"@, "session_id"@]);
    lemma_found_alike(a, b, parents);
    assert(a.get(parents[0]) == b.get(parents[0]) && a.get(parents[1]) == b.get(parents[1]));
    assert(a.get(names[0]) == b.get(names[0]) && a.get(names[1]) == b.get(names[1]));
}

proof fn lemma_turns_alike(
    inner_type: Seq<char>,
    a: JsonView,
    b: JsonView,
    context: FileContextView,
    observed_at_ms: i64,
)
    requires
        turn_members_agree(a, b),
    ensures
        turn_context_effect(a, context) == turn_context_effect(b, context),
        turn_effect(inner_type, a, context, observed_at_ms) == turn_effect(
            inner_type,
            b,
            context,
            observed_at_ms,
        ),
{
    lemma_found_alike(a, b, seq!["turn_id"@, "turnId"@]);
    lemma_found_alike(a, b, seq!["model"@]);
    lemma_found_alike(a, b, seq!["service_tier"@, "serviceTier"@]);
    lemma_found_alike(a, b, seq!["started_at"@, "startedAt"@]);
    lemma_found_alike(
        a,
        b,
        seq!["completed_at"@, "completedAt"@, "aborted_at"@, "abortedAt"@],
    );
    lemma_efforts_alike(a, b);
}

proof fn lemma_settings_alike(a: JsonView, b: JsonView, context: FileContextView)
    requires
        settings_members_agree(a, b),
    ensures
        settings_effect(a, context) == settings_effect(b, context),
{
    let (x, y) = (member_or_null(a, "thread_settings"@), member_or_null(b, "thread_settings"@));
    let keys = seq!["model"@, "service_tier"@, "model_provider_id"@];
    lemma_efforts_alike(x, y);
    assert(x.get(keys[0]) == y.get(keys[0]) && x.get(keys[1]) == y.get(keys[1]) && x.get(keys[2])
        == y.get(keys[2]));
}

/// The effect of rate limits on the context, and the quotas in them.
spec fn limits_effect(
    limits: Option<JsonView>,
    context: FileContextView,
    observed_at_ms: i64,
) -> (FileContextView, Seq<SourceJsonlRecordView>) {
    match limits {
        Some(limits) => {
            let after = FileContextView {
                plan: first_some(
                    text_of_first(limits, seq!["plan_type"@, "plan_type_raw"@]),
                    context.plan,
                ),
                ..context
            };
            (after, quotas_of(limits, after, observed_at_ms))
        },
        None => (context, Seq::empty()),
    }
}

proof fn lemma_limits_alike(
    line: JsonView,
    payload: JsonView,
    other: JsonView,
    other_payload: JsonView,
    context: FileContextView,
    observed_at_ms: i64,
)
    requires
        rate_limits_agree(line, other),
        rate_limits_agree(payload, other_payload),
    ensures
        limits_effect(
            first_some(line.get("rate_limits"@), payload.get("rate_limits"@)),
            context,
            observed_at_ms,
        ) == limits_effect(
            first_some(other.get("rate_limits"@), other_payload.get("rate_limits"@)),
            context,
            observed_at_ms,
        ),
{
    let x = first_some(line.get("rate_limits"@), payload.get("rate_limits"@));
    let y = first_some(other.get("rate_limits"@), other_payload.get("rate_limits"@));
    assert(x is Some == y is Some);
    if x is Some {
        assert(limits_agree(x->0, y->0));
        lemma_found_alike(x->0, y->0, seq!["plan_type"@, "plan_type_raw"@]);
        let after = limits_effect(x, context, observed_at_ms).0;
        lemma_quotas_alike(x->0, y->0, "primary"@, after, observed_at_ms);
        lemma_quotas_alike(x->0, y->0, "secondary"@, after, observed_at_ms);
    }
}

proof fn lemma_tokens_alike(
    line: JsonView,
    payload: JsonView,
    other: JsonView,
    other_payload: JsonView,
    context: FileContextView,
    observed_at_ms: i64,
)
    requires
        rate_limits_agree(line, other),
        rate_limits_agree(payload, other_payload),
        token_members_agree(payload, other_payload),
    ensures
        token_effect(line, payload, context, observed_at_ms) == token_effect(
            other,
            other_payload,
            context,
            observed_at_ms,
        ),
{
    let (a, b) = (member_or_null(payload, "info"@), member_or_null(other_payload, "info"@));
    lemma_counts_alike(a, b, "last_token_usage"@);
    lemma_counts_alike(a, b, "total_token_usage"@);
    let counted = FileContextView {
        previous_cumulative: first_some(
            counts_member(a, "total_token_usage"@),
            context.previous_cumulative,
        ),
        ..context
    };
    lemma_limits_alike(line, payload, other, other_payload, counted, observed_at_ms);
}

/// What a line does, or why it does nothing, depends on the members that are read alone: nothing
/// else of a line reaches a fact.
pub proof fn lemma_only_listed_members_count(a: JsonView, b: JsonView, context: FileContextView)
    requires
        lines_agree(a, b),
    ensures
        line_effect(a, context) == line_effect(b, context),
{
    let (x, y) = (member_or_null(a, "payload"@), member_or_null(b, "payload"@));
    let keys = seq!["timestamp"@, "type"@];
    assert(a.get(keys[0]) == b.get(keys[0]) && a.get(keys[1]) == b.get(keys[1]));
    let inner = seq!["type"@];
    assert(x.get(inner[0]) == y.get(inner[0]));
    if let Ok(at) = timestamp_of(a.get("timestamp"@)) {
        let event_type = text_or(text_member(a, "type"@), Seq::empty());
        let inner_type = if event_type == "event_msg"@ {
            text_or(text_member(x, "type"@), Seq::empty())
        } else {
            event_type
        };
        lemma_sessions_alike(x, y, context, at);
        lemma_turns_alike(inner_type, x, y, context, at);
        lemma_settings_alike(x, y, context);
        lemma_tokens_alike(a, x, b, y, context, at);
        assert(event_effect(a, context, at) == event_effect(b, context, at));
    }
}

/// Whether each fact is a session, a turn, a usage or a quota.
pub open spec fn are_known_kinds(records: Seq<SourceJsonlRecordView>) -> bool {
    forall|i: int|
        0 <= i < records.len() ==> {
            let kind = (#[trigger] records[i]).kind;
            kind == "session"@ || kind == "turn"@ || kind == "usage"@ || kind == "quota"@
        }
}

proof fn lemma_token_kinds(
    line: JsonView,
    payload: JsonView,
    context: FileContextView,
    observed_at_ms: i64,
)
    ensures
        are_known_kinds(token_effect(line, payload, context, observed_at_ms).records),
{
    let limits = first_some(line.get("rate_limits"@), payload.get("rate_limits"@));
    if limits is Some {
        assert forall|after: FileContextView| are_known_kinds(
            #[trigger] quotas_of(limits->0, after, observed_at_ms),
        ) by {
            let primary = quota_of_window(limits->0, "primary"@, after, observed_at_ms);
            let secondary = quota_of_window(limits->0, "secondary"@, after, observed_at_ms);
            assert(primary is Some ==> (primary->0).kind == "quota"@);
            assert(secondary is Some ==> (secondary->0).kind == "quota"@);
        }
    }
    let records = token_effect(line, payload, context, observed_at_ms).records;
    assert forall|i: int| 0 <= i < records.len() implies ({
        let kind = (#[trigger] records[i]).kind;
        kind == "session"@ || kind == "turn"@ || kind == "usage"@ || kind == "quota"@
    }) by {}
}

/// A line states facts of four kinds and of no other: sessions, turns, usages and quotas.
pub proof fn lemma_four_kinds(line: JsonView, context: FileContextView)
    requires
        line_effect(line, context) is Ok,
    ensures
        are_known_kinds((line_effect(line, context)->Ok_0).records),
{
    let payload = member_or_null(line, "payload"@);
    if let Ok(at) = timestamp_of(line.get("timestamp"@)) {
        lemma_token_kinds(line, payload, context, at);
        assert(are_known_kinds(session_effect(payload, context, at).records));
        assert forall|inner_type: Seq<char>| are_known_kinds(
            (#[trigger] turn_effect(inner_type, payload, context, at)).records,
        ) by {}
    }
}

/// The milliseconds of a number of nanoseconds, cut towards zero to those of 64 bits.
pub fn nanos_to_millis(nanos: i128) -> (r: i64)
    ensures
        r == truncating_div(nanos as int, 1_000_000) as i64,
{
    let millis: i128 = match nanos.checked_div(1_000_000) {
        Some(millis) => millis,
        None => 0,
    };
    millis as i64
}

/// Reads a time stamp.
pub fn parse_timestamp(value: Option<&Json>) -> (r: Result<i64, JsonlError>)
    ensures
        match r {
            Ok(at) => timestamp_of(value.deep_view()) == Ok::<i64, Seq<char>>(at),
            Err(error) => timestamp_of(value.deep_view()) == Err::<i64, Seq<char>>(
                error.deep_view(),
            ),
        },
{
    let text = match value {
        Some(Json::Text(text)) => text,
        _ => return Err(JsonlError::Timestamp("missing timestamp".to_owned())),
    };
    match parse_rfc3339(text.as_str()) {
        Ok(nanos) => Ok(nanos_to_millis(nanos)),
        Err(reason) => Err(JsonlError::Timestamp(reason)),
    }
}

fn epoch_from(number: i64) -> (r: i64)
    ensures
        r == epoch_millis(number),
{
    if -100_000_000_000 < number && number < 100_000_000_000 {
        saturating_mul(number, 1_000)
    } else {
        number
    }
}

pub(crate) fn as_epoch_ms(value: &Json) -> (r: Option<i64>)
    ensures
        r == epoch_of(value@),
{
    match value.as_integer() {
        Some(number) => Some(epoch_from(number)),
        None => None,
    }
}

pub(crate) fn first_epoch(value: &Json, keys: &[&str]) -> (r: Option<i64>)
    ensures
        r == epoch_of_first(value@, views(keys@)),
{
    match value.find(keys) {
        Some(found) => as_epoch_ms(found),
        None => None,
    }
}

/// The tier that a service tier names.
pub fn normalize_tier(value: &str) -> (r: Option<&'static str>)
    ensures
        r.deep_view() == tier_named(value@),
{
    let lowered = to_ascii_lowercase(value);
    if same(lowered.as_str(), "standard") || same(lowered.as_str(), "default") {
        Some("standard")
    } else if same(lowered.as_str(), "fast") || same(lowered.as_str(), "priority") {
        Some("fast")
    } else {
        None
    }
}

fn next_tier(found: Option<&Json>, tier: &Option<String>) -> (r: Option<String>)
    ensures
        r.deep_view() == tier_after(found.deep_view(), tier.deep_view()),
{
    match found {
        None => copy_option(tier),
        Some(Json::Text(text)) => match normalize_tier(text.as_str()) {
            Some(name) => Some(name.to_owned()),
            None => None,
        },
        Some(_) => None,
    }
}

/// A text without white space at its ends, where anything is left of it.
pub fn normalize_effort(value: &str) -> (r: Option<String>)
    ensures
        r.deep_view() == non_empty(Some(value@)),
{
    let value = trim(value);
    if value.as_str().is_empty() {
        None
    } else {
        Some(value)
    }
}

/// The text of a member without white space at its ends, where anything is left of it.
pub fn non_empty_string(value: Option<&Json>) -> (r: Option<String>)
    ensures
        r.deep_view() == non_empty(
            match value.deep_view() {
                Some(value) => value.as_text(),
                None => None,
            },
        ),
{
    match value {
        Some(Json::Text(text)) => normalize_effort(text.as_str()),
        _ => None,
    }
}

fn nested_string(value: &Json, keys: &[&str]) -> (r: Option<String>)
    ensures
        r.deep_view() == first_text(value@, views(keys@)),
{
    let mut i: usize = 0;
    assert(views(keys@).skip(0) =~= views(keys@));
    while i < keys.len()
        invariant
            i <= keys@.len(),
            first_text(value@, views(keys@)) == first_text(value@, views(keys@).skip(i as int)),
        decreases keys@.len() - i,
    {
        if let Some(text) = value.text_member(keys[i]) {
            return normalize_effort(text.as_str());
        }
        assert(views(keys@).skip(i as int).skip(1) =~= views(keys@).skip(i + 1));
        i = i + 1;
    }
    None
}

fn reasoning_effort(value: &Json) -> (r: Option<String>)
    ensures
        r.deep_view() == effort_of(value@),
{
    let keys: [&str; 3] = ["reasoning_effort", "reasoningEffort", "effort"];
    assert(views(keys@) =~= seq!["reasoning_effort"@, "reasoningEffort"@, "effort"@]);
    let own = nested_string(value, keys.as_slice());
    if own.is_some() {
        return own;
    }
    if let Some(mode) = value.get("collaboration_mode") {
        if let Some(settings) = mode.get("settings") {
            let keys: [&str; 2] = ["reasoning_effort", "effort"];
            assert(views(keys@) =~= seq!["reasoning_effort"@, "effort"@]);
            return nested_string(settings, keys.as_slice());
        }
    }
    None
}

fn spawned_by(payload: &Json) -> (r: Option<&Json>)
    ensures
        r.deep_view() == spawn_parent(payload@),
{
    if let Some(source) = payload.get("source") {
        if let Some(subagent) = source.get("subagent") {
            if let Some(spawn) = subagent.get("thread_spawn") {
                return spawn.get("parent_thread_id");
            }
        }
    }
    None
}

/// The session that a session was forked from or spawned by.
pub fn session_parent(payload: &Json) -> (r: Option<String>)
    ensures
        r.deep_view() == parent_of_session(payload@),
{
    let keys: [&str; 2] = ["forked_from_id", "parent_thread_id"];
    assert(views(keys@) =~= seq!["forked_from_id"@, "parent_thread_id"@]);
    let found = match payload.find(keys.as_slice()) {
        Some(value) => Some(value),
        None => spawned_by(payload),
    };
    match found {
        Some(Json::Text(id)) => if id.as_str().is_empty() {
            None
        } else {
            Some(id.clone())
        },
        _ => None,
    }
}

fn session_relation(payload: &Json) -> (r: &'static str)
    ensures
        r@ == relation_of_session(payload@),
{
    if payload.text_member("forked_from_id").is_some() {
        return "fork";
    }
    if payload.text_member("parent_thread_id").is_some() {
        return "child";
    }
    match spawned_by(payload) {
        Some(Json::Text(_)) => "child",
        _ => "main",
    }
}

fn count_member(value: &Json, keys: &[&str]) -> (r: i64)
    ensures
        r == count_of(value@, views(keys@)),
{
    match value.integer_of_first(keys) {
        Some(n) => n,
        None => 0,
    }
}

/// Token counts of an object, in normal form, where they count anything.
pub fn parse_token_counts(value: &Json) -> (r: Option<TokenCounts>)
    ensures
        r == token_counts_of(value@),
{
    let input: [&str; 2] = ["input_tokens", "inputTokens"];
    let cached: [&str; 3] = [
        "cached_input_tokens",
        "cache_read_input_tokens",
        "cacheReadInputTokens",
    ];
    let cache_write: [&str; 3] = [
        "cache_write_input_tokens",
        "cache_creation_input_tokens",
        "cacheCreationInputTokens",
    ];
    let output: [&str; 2] = ["output_tokens", "outputTokens"];
    let reasoning: [&str; 2] = ["reasoning_output_tokens", "reasoningOutputTokens"];
    let total: [&str; 2] = ["total_tokens", "totalTokens"];
    proof {
        assert(views(input@) =~= seq!["input_tokens"@, "inputTokens"@]);
        assert(views(cached@) =~= seq![
            "cached_input_tokens"@,
            "cache_read_input_tokens"@,
            "cacheReadInputTokens"@,
        ]);
        assert(views(cache_write@) =~= seq![
            "cache_write_input_tokens"@,
            "cache_creation_input_tokens"@,
            "cacheCreationInputTokens"@,
        ]);
        assert(views(output@) =~= seq!["output_tokens"@, "outputTokens"@]);
        assert(views(reasoning@) =~= seq!["reasoning_output_tokens"@, "reasoningOutputTokens"@]);
        assert(views(total@) =~= seq!["total_tokens"@, "totalTokens"@]);
    }
    let tokens = TokenCounts {
        input: count_member(value, input.as_slice()),
        cached: count_member(value, cached.as_slice()),
        cache_write: count_member(value, cache_write.as_slice()),
        output: count_member(value, output.as_slice()),
        reasoning: count_member(value, reasoning.as_slice()),
        total: count_member(value, total.as_slice()),
    }.normalized();
    if tokens.observed() {
        Some(tokens)
    } else {
        None
    }
}

/// Whether a counter fell in any of its fields.
pub fn counter_reset(current: &TokenCounts, previous: &TokenCounts) -> (r: bool)
    ensures
        r == counter_fell(*current, *previous),
{
    current.input < previous.input || current.cached < previous.cached || current.cache_write
        < previous.cache_write || current.output < previous.output || current.reasoning
        < previous.reasoning || current.total < previous.total
}

/// Writes a JSON object with the keys and the texts of their values.
pub(crate) fn object_text(keys: &[&str], values: &Vec<String>) -> (r: String)
    requires
        keys@.len() == values@.len(),
    ensures
        r@ == object_of(views(keys@), values.deep_view()),
{
    let mut parts: Vec<String> = Vec::new();
    let mut i: usize = 0;
    while i < keys.len()
        invariant
            i <= keys@.len(),
            keys@.len() == values@.len(),
            parts@.len() == i,
            forall|k: int|
                0 <= k < i ==> (#[trigger] parts@[k])@ == json_quoted(keys@[k]@) + ":"@
                    + values@[k]@,
        decreases keys@.len() - i,
    {
        let mut part = quoted(keys[i]);
        part.append(":");
        part.append(values[i].as_str());
        parts.push(part);
        i = i + 1;
    }
    let mut r = "{".to_owned();
    r.append(join(&parts, ",").as_str());
    r.append("}");
    assert(parts.deep_view() =~= Seq::new(
        views(keys@).len(),
        |i: int| json_quoted(views(keys@)[i]) + ":"@ + values.deep_view()[i],
    ));
    assert(r@ =~= object_of(views(keys@), values.deep_view()));
    r
}

pub(crate) fn optional_text(text: &Option<String>) -> (r: String)
    ensures
        r@ == text_or_null(text.deep_view()),
{
    match text {
        Some(text) => quoted(text.as_str()),
        None => "null".to_owned(),
    }
}

pub(crate) fn optional_integer(n: Option<i64>) -> (r: String)
    ensures
        r@ == integer_or_null(n),
{
    match n {
        Some(n) => decimal(n),
        None => "null".to_owned(),
    }
}

fn optional_tokens(tokens: Option<TokenCounts>) -> (r: String)
    ensures
        r@ == tokens_or_null(tokens),
{
    match tokens {
        Some(t) => {
            let keys: [&str; 6] = [
                "cache_write",
                "cached",
                "input",
                "output",
                "reasoning",
                "total",
            ];
            let mut values: Vec<String> = Vec::new();
            values.push(decimal(t.cache_write));
            values.push(decimal(t.cached));
            values.push(decimal(t.input));
            values.push(decimal(t.output));
            values.push(decimal(t.reasoning));
            values.push(decimal(t.total));
            proof {
                assert(views(keys@) =~= seq![
                    "cache_write"@,
                    "cached"@,
                    "input"@,
                    "output"@,
                    "reasoning"@,
                    "total"@,
                ]);
                assert(values.deep_view() =~= seq![
                    integer_text(t.cache_write as int),
                    integer_text(t.cached as int),
                    integer_text(t.input as int),
                    integer_text(t.output as int),
                    integer_text(t.reasoning as int),
                    integer_text(t.total as int),
                ]);
            }
            object_text(keys.as_slice(), &values)
        },
        None => "null".to_owned(),
    }
}

fn usage_digest(
    context: &FileContext,
    observed_at_ms: i64,
    last: Option<TokenCounts>,
    cumulative: Option<TokenCounts>,
) -> (r: String)
    ensures
        r@ == usage_digest_of(context.deep_view(), observed_at_ms, last, cumulative),
{
    let keys: [&str; 9] = [
        "cumulative",
        "last",
        "model",
        "observed_at_ms",
        "plan",
        "reasoning_effort",
        "session_id",
        "tier",
        "turn_id",
    ];
    let at: Option<i64> = if cumulative.is_none() {
        Some(observed_at_ms)
    } else {
        None
    };
    let mut values: Vec<String> = Vec::new();
    values.push(optional_tokens(cumulative));
    values.push(optional_tokens(last));
    values.push(optional_text(&context.model));
    values.push(optional_integer(at));
    values.push(optional_text(&context.plan));
    values.push(optional_text(&context.reasoning_effort));
    values.push(optional_text(&context.session_id));
    values.push(optional_text(&context.tier));
    values.push(optional_text(&context.turn_id));
    proof {
        let c = context.deep_view();
        assert(views(keys@) =~= seq![
            "cumulative"@,
            "last"@,
            "model"@,
            "observed_at_ms"@,
            "plan"@,
            "reasoning_effort"@,
            "session_id"@,
            "tier"@,
            "turn_id"@,
        ]);
        assert(values.deep_view() =~= seq![
            tokens_or_null(cumulative),
            tokens_or_null(last),
            text_or_null(c.model),
            integer_or_null(at),
            text_or_null(c.plan),
            text_or_null(c.reasoning_effort),
            text_or_null(c.session_id),
            text_or_null(c.tier),
            text_or_null(c.turn_id),
        ]);
    }
    digest_text(object_text(keys.as_slice(), &values).as_str())
}

fn quota_record(
    limits: &Json,
    window_kind: &str,
    context: &FileContext,
    observed_at_ms: i64,
) -> (r: Option<SourceJsonlRecord>)
    ensures
        r.deep_view() == quota_of_window(
            limits@,
            window_kind@,
            context.deep_view(),
            observed_at_ms,
        ),
{
    let limit_keys: [&str; 2] = ["limit_id", "limitId"];
    let plan_keys: [&str; 2] = ["plan_type", "plan_type_raw"];
    let percent_keys: [&str; 2] = ["used_percent", "usedPercent"];
    let minute_keys: [&str; 2] = ["window_minutes", "windowMinutes"];
    let reset_keys: [&str; 3] = ["resets_at_ms", "resetsAt", "resets_at"];
    proof {
        assert(views(limit_keys@) =~= seq!["limit_id"@, "limitId"@]);
        assert(views(plan_keys@) =~= seq!["plan_type"@, "plan_type_raw"@]);
        assert(views(percent_keys@) =~= seq!["used_percent"@, "usedPercent"@]);
        assert(views(minute_keys@) =~= seq!["window_minutes"@, "windowMinutes"@]);
        assert(views(reset_keys@) =~= seq!["resets_at_ms"@, "resetsAt"@, "resets_at"@]);
    }
    let limit_id = limits.text_of_first(limit_keys.as_slice());
    let plan = match limits.text_of_first(plan_keys.as_slice()) {
        Some(plan) => Some(plan),
        None => copy_option(&context.plan),
    };
    let window = match limits.get(window_kind) {
        Some(window) => window,
        None => return None,
    };
    let (used_percent, percent_text): (Option<Float>, Option<String>) = match window.find(
        percent_keys.as_slice(),
    ) {
        Some(value) => (value.as_float(), value.as_float_text()),
        None => (None, None),
    };
    let window_minutes = window.integer_of_first(minute_keys.as_slice());
    let resets_at_ms = first_epoch(window, reset_keys.as_slice());
    if used_percent.is_none() && resets_at_ms.is_none() {
        return None;
    }
    let keys: [&str; 6] = [
        "limit_id",
        "plan",
        "resets_at_ms",
        "used_percent",
        "window_kind",
        "window_minutes",
    ];
    let mut values: Vec<String> = Vec::new();
    values.push(optional_text(&limit_id));
    values.push(optional_text(&plan));
    values.push(optional_integer(resets_at_ms));
    values.push(
        match &percent_text {
            Some(text) => text.clone(),
            None => "null".to_owned(),
        },
    );
    values.push(quoted(window_kind));
    values.push(optional_integer(window_minutes));
    proof {
        assert(views(keys@) =~= seq![
            "limit_id"@,
            "plan"@,
            "resets_at_ms"@,
            "used_percent"@,
            "window_kind"@,
            "window_minutes"@,
        ]);
        assert(values.deep_view() =~= seq![
            text_or_null(limit_id.deep_view()),
            text_or_null(plan.deep_view()),
            integer_or_null(resets_at_ms),
            text_or(percent_text.deep_view(), "null"@),
            json_quoted(window_kind@),
            integer_or_null(window_minutes),
        ]);
    }
    let digest = digest_text(object_text(keys.as_slice(), &values).as_str());
    let mut source_key = "quota:".to_owned();
    source_key.append(digest.as_str());
    let mut record = SourceJsonlRecord::default();
    record.source_key = source_key;
    record.kind = "quota".to_owned();
    record.observed_at_ms = observed_at_ms;
    record.last_seen_at_ms = Some(observed_at_ms);
    record.provider = copy_option(&context.provider);
    record.plan_type = plan;
    record.limit_id = limit_id;
    record.window_kind = Some(window_kind.to_owned());
    record.used_percent = used_percent;
    record.window_minutes = window_minutes;
    record.resets_at_ms = resets_at_ms;
    record.quality = Some("jsonl".to_owned());
    Some(record)
}

/// The quotas that an object of rate limits reports.
pub fn quota_records(limits: &Json, context: &FileContext, observed_at_ms: i64) -> (r: Vec<
    SourceJsonlRecord,
>)
    ensures
        r.deep_view() == quotas_of(limits@, context.deep_view(), observed_at_ms),
{
    let mut records: Vec<SourceJsonlRecord> = Vec::new();
    let primary = quota_record(limits, "primary", context, observed_at_ms);
    let secondary = quota_record(limits, "secondary", context, observed_at_ms);
    let ghost expected = present(primary.deep_view(), secondary.deep_view());
    if let Some(record) = primary {
        records.push(record);
    }
    if let Some(record) = secondary {
        records.push(record);
    }
    assert(records.deep_view() =~= expected);
    records
}

fn session_line(payload: &Json, context: &mut FileContext, observed_at_ms: i64) -> (r: Vec<
    SourceJsonlRecord,
>)
    ensures
        (LineEffect { context: final(context).deep_view(), records: r.deep_view() })
            == session_effect(payload@, old(context).deep_view(), observed_at_ms),
{
    let mut records: Vec<SourceJsonlRecord> = Vec::new();
    let keys: [&str; 2] = ["id", "session_id"];
    assert(views(keys@) =~= seq!["id"@, "session_id"@]);
    let session_id = match payload.text_of_first(keys.as_slice()) {
        Some(id) => id,
        None => {
            assert(records.deep_view() =~= Seq::empty());
            return records;
        },
    };
    let ghost effect = session_effect(payload@, context.deep_view(), observed_at_ms);
    if !holds(&context.session_id, session_id.as_str()) {
        context.previous_cumulative = None;
        context.turn_id = None;
        context.turn_started_at_ms = None;
    }
    context.session_id = Some(session_id.clone());
    if let Some(provider) = payload.text_member("model_provider") {
        context.provider = Some(provider);
    }
    let parent = session_parent(payload);
    context.parent_session_id = copy_option(&parent);
    context.relation = Some(session_relation(payload).to_owned());
    context.root_session_id = copy_option(&parent);
    let mut source_key = "session:".to_owned();
    source_key.append(session_id.as_str());
    let mut record = SourceJsonlRecord::default();
    record.source_key = source_key;
    record.kind = "session".to_owned();
    record.observed_at_ms = observed_at_ms;
    record.session_id = Some(session_id);
    record.parent_session_id = copy_option(&parent);
    record.root_session_id = parent;
    record.relation = copy_option(&context.relation);
    record.title = payload.text_member("title");
    record.provider = copy_option(&context.provider);
    record.plan_type = copy_option(&context.plan);
    record.reasoning_effort = copy_option(&context.reasoning_effort);
    record.quality = Some("session_meta".to_owned());
    assert(context.deep_view() =~= effect.context);
    assert(record.deep_view() =~= effect.records[0]);
    records.push(record);
    assert(records.deep_view() =~= effect.records);
    records
}

fn turn_context_line(payload: &Json, context: &mut FileContext)
    ensures
        final(context).deep_view() == turn_context_effect(payload@, old(context).deep_view()),
{
    let turn_keys: [&str; 2] = ["turn_id", "turnId"];
    let model_keys: [&str; 1] = ["model"];
    let tier_keys: [&str; 2] = ["service_tier", "serviceTier"];
    proof {
        assert(views(turn_keys@) =~= seq!["turn_id"@, "turnId"@]);
        assert(views(model_keys@) =~= seq!["model"@]);
        assert(views(tier_keys@) =~= seq!["service_tier"@, "serviceTier"@]);
    }
    context.turn_id = payload.text_of_first(turn_keys.as_slice());
    if let Some(model) = nested_string(payload, model_keys.as_slice()) {
        context.model = Some(model);
    }
    if let Some(effort) = reasoning_effort(payload) {
        context.reasoning_effort = Some(effort);
    }
    context.tier = next_tier(payload.find(tier_keys.as_slice()), &context.tier);
}

fn turn_line(
    inner_type: &str,
    payload: &Json,
    context: &mut FileContext,
    observed_at_ms: i64,
) -> (r: Vec<SourceJsonlRecord>)
    requires
        is_turn_event(inner_type@),
    ensures
        (LineEffect { context: final(context).deep_view(), records: r.deep_view() }) == turn_effect(
            inner_type@,
            payload@,
            old(context).deep_view(),
            observed_at_ms,
        ),
{
    let mut records: Vec<SourceJsonlRecord> = Vec::new();
    let turn_keys: [&str; 2] = ["turn_id", "turnId"];
    let start_keys: [&str; 2] = ["started_at", "startedAt"];
    let end_keys: [&str; 4] = ["completed_at", "completedAt", "aborted_at", "abortedAt"];
    proof {
        assert(views(turn_keys@) =~= seq!["turn_id"@, "turnId"@]);
        assert(views(start_keys@) =~= seq!["started_at"@, "startedAt"@]);
        assert(views(end_keys@) =~= seq![
            "completed_at"@,
            "completedAt"@,
            "aborted_at"@,
            "abortedAt"@,
        ]);
    }
    let ghost effect = turn_effect(inner_type@, payload@, context.deep_view(), observed_at_ms);
    let named = match payload.text_of_first(turn_keys.as_slice()) {
        Some(id) => Some(id),
        None => copy_option(&context.turn_id),
    };
    let turn_id = match named {
        Some(id) => id,
        None => {
            assert(records.deep_view() =~= Seq::empty());
            return records;
        },
    };
    if !holds(&context.turn_id, turn_id.as_str()) {
        context.turn_started_at_ms = None;
    }
    context.turn_id = Some(turn_id.clone());
    let starts = same(inner_type, "task_started");
    if starts {
        context.turn_started_at_ms = match first_epoch(payload, start_keys.as_slice()) {
            Some(at) => Some(at),
            None => Some(observed_at_ms),
        };
    }
    let aborts = same(inner_type, "task_aborted") || same(inner_type, "turn_aborted");
    let mut source_key = "turn:".to_owned();
    source_key.append(
        match &context.session_id {
            Some(id) => id.as_str(),
            None => "unknown",
        },
    );
    source_key.append(":");
    source_key.append(turn_id.as_str());
    let mut record = SourceJsonlRecord::default();
    record.source_key = source_key;
    record.kind = "turn".to_owned();
    record.observed_at_ms = observed_at_ms;
    record.session_id = copy_option(&context.session_id);
    record.parent_session_id = copy_option(&context.parent_session_id);
    record.root_session_id = copy_option(&context.root_session_id);
    record.turn_id = Some(turn_id);
    record.relation = copy_option(&context.relation);
    record.started_at_ms = match context.turn_started_at_ms {
        Some(at) => Some(at),
        None => Some(observed_at_ms),
    };
    record.ended_at_ms = if starts {
        None
    } else {
        match first_epoch(payload, end_keys.as_slice()) {
            Some(at) => Some(at),
            None => Some(observed_at_ms),
        }
    };
    record.model = copy_option(&context.model);
    record.service_tier = copy_option(&context.tier);
    record.reasoning_effort = copy_option(&context.reasoning_effort);
    record.provider = copy_option(&context.provider);
    record.plan_type = copy_option(&context.plan);
    record.quality = if aborts {
        Some("aborted".to_owned())
    } else {
        None
    };
    assert(context.deep_view() =~= effect.context);
    assert(record.deep_view() =~= effect.records[0]);
    records.push(record);
    assert(records.deep_view() =~= effect.records);
    records
}

fn settings_line(payload: &Json, context: &mut FileContext)
    ensures
        final(context).deep_view() == settings_effect(payload@, old(context).deep_view()),
{
    let null = Json::Null;
    let settings = match payload.get("thread_settings") {
        Some(settings) => settings,
        None => &null,
    };
    if let Some(model) = settings.text_member("model") {
        context.model = Some(model);
    }
    context.tier = next_tier(settings.get("service_tier"), &context.tier);
    if let Some(effort) = reasoning_effort(settings) {
        context.reasoning_effort = Some(effort);
    }
    if let Some(provider) = settings.text_member("model_provider_id") {
        context.provider = Some(provider);
    }
}

/// What of a report of token counts is new, and the quality of the answer.
pub fn advance_counter(
    last: Option<TokenCounts>,
    cumulative: Option<TokenCounts>,
    previous: Option<TokenCounts>,
) -> (r: (Option<TokenCounts>, Option<&'static str>))
    ensures
        (r.0, r.1.deep_view()) == new_tokens(last, cumulative, previous),
{
    let reset = match (cumulative, previous) {
        (Some(current), Some(earlier)) => counter_reset(&current, &earlier),
        _ => false,
    };
    let advanced = match (cumulative, previous) {
        (Some(current), Some(earlier)) => current != earlier,
        _ => true,
    };
    if last.is_some() && advanced {
        return (
            last,
            if reset {
                Some("counter_reset")
            } else {
                None
            },
        );
    }
    match cumulative {
        None => (None, None),
        Some(current) => {
            let tokens = match previous {
                None => current,
                Some(earlier) => if reset {
                    current
                } else {
                    current.saturating_sub(&earlier)
                },
            };
            (
                Some(tokens),
                if reset {
                    Some("derived_from_cumulative,counter_reset")
                } else {
                    Some("derived_from_cumulative")
                },
            )
        },
    }
}

fn counts_of_member(info: &Json, key: &str) -> (r: Option<TokenCounts>)
    ensures
        r == counts_member(info@, key@),
{
    match info.get(key) {
        Some(value) => parse_token_counts(value),
        None => None,
    }
}

fn usage_record(
    context: &FileContext,
    observed_at_ms: i64,
    tokens: TokenCounts,
    digest: String,
    quality: Option<&str>,
) -> (r: SourceJsonlRecord)
    ensures
        r.deep_view() == (SourceJsonlRecordView {
            source_key: "usage:"@ + digest@,
            kind: "usage"@,
            observed_at_ms,
            session_id: context.deep_view().session_id,
            parent_session_id: context.deep_view().parent_session_id,
            root_session_id: context.deep_view().root_session_id,
            turn_id: context.deep_view().turn_id,
            relation: context.deep_view().relation,
            model: context.deep_view().model,
            service_tier: context.deep_view().tier,
            reasoning_effort: context.deep_view().reasoning_effort,
            provider: context.deep_view().provider,
            plan_type: context.deep_view().plan,
            input_tokens: Some(tokens.input),
            cache_read_tokens: Some(tokens.cached),
            cache_write_tokens: Some(tokens.cache_write),
            output_tokens: Some(tokens.output),
            reasoning_tokens: Some(tokens.reasoning),
            total_tokens: Some(tokens.total),
            quality: quality.deep_view(),
            ..empty_source_jsonl_record()
        }),
{
    let mut source_key = "usage:".to_owned();
    source_key.append(digest.as_str());
    let mut record = SourceJsonlRecord::default();
    record.source_key = source_key;
    record.kind = "usage".to_owned();
    record.observed_at_ms = observed_at_ms;
    record.session_id = copy_option(&context.session_id);
    record.parent_session_id = copy_option(&context.parent_session_id);
    record.root_session_id = copy_option(&context.root_session_id);
    record.turn_id = copy_option(&context.turn_id);
    record.relation = copy_option(&context.relation);
    record.model = copy_option(&context.model);
    record.service_tier = copy_option(&context.tier);
    record.reasoning_effort = copy_option(&context.reasoning_effort);
    record.provider = copy_option(&context.provider);
    record.plan_type = copy_option(&context.plan);
    record.input_tokens = Some(tokens.input);
    record.cache_read_tokens = Some(tokens.cached);
    record.cache_write_tokens = Some(tokens.cache_write);
    record.output_tokens = Some(tokens.output);
    record.reasoning_tokens = Some(tokens.reasoning);
    record.total_tokens = Some(tokens.total);
    record.quality = match quality {
        Some(quality) => Some(quality.to_owned()),
        None => None,
    };
    record
}

fn token_line(line: &Json, payload: &Json, context: &mut FileContext, observed_at_ms: i64) -> (r:
    Vec<SourceJsonlRecord>)
    ensures
        (LineEffect { context: final(context).deep_view(), records: r.deep_view() })
            == token_effect(line@, payload@, old(context).deep_view(), observed_at_ms),
{
    let ghost effect = token_effect(line@, payload@, context.deep_view(), observed_at_ms);
    let mut records: Vec<SourceJsonlRecord> = Vec::new();
    assert(records.deep_view() =~= Seq::empty());
    let null = Json::Null;
    let info = match payload.get("info") {
        Some(info) => info,
        None => &null,
    };
    let last = counts_of_member(info, "last_token_usage");
    let cumulative = counts_of_member(info, "total_token_usage");
    let (found, quality) = advance_counter(last, cumulative, context.previous_cumulative);
    if cumulative.is_some() {
        context.previous_cumulative = cumulative;
    }
    let tokens = match found {
        Some(found) => found.normalized(),
        None => return records,
    };
    if !tokens.observed() {
        return records;
    }
    let limits = match line.get("rate_limits") {
        Some(limits) => Some(limits),
        None => payload.get("rate_limits"),
    };
    if let Some(limits) = limits {
        let plan_keys: [&str; 2] = ["plan_type", "plan_type_raw"];
        assert(views(plan_keys@) =~= seq!["plan_type"@, "plan_type_raw"@]);
        if let Some(plan) = limits.text_of_first(plan_keys.as_slice()) {
            context.plan = Some(plan);
        }
        records = quota_records(limits, context, observed_at_ms);
    }
    assert(context.deep_view() =~= effect.context);
    let ghost quotas = records.deep_view();
    if tokens.input == 0 && tokens.cached == 0 && tokens.cache_write == 0 && tokens.output == 0
        && tokens.reasoning == 0 {
        return records;
    }
    let digest = usage_digest(context, observed_at_ms, last, cumulative);
    let record = usage_record(context, observed_at_ms, tokens, digest, quality);
    records.push(record);
    assert(records.deep_view() =~= quotas.push(record.deep_view()));
    assert(records.deep_view() =~= effect.records);
    records
}

fn no_records() -> (r: Vec<SourceJsonlRecord>)
    ensures
        r.deep_view() == Seq::<SourceJsonlRecordView>::empty(),
{
    let r: Vec<SourceJsonlRecord> = Vec::new();
    assert(r.deep_view() =~= Seq::empty());
    r
}

/// The facts that a line of a log states of an instant; the context is brought up to the line.
pub fn records_at(line: &Json, context: &mut FileContext, observed_at_ms: i64) -> (r: Vec<
    SourceJsonlRecord,
>)
    ensures
        (LineEffect { context: final(context).deep_view(), records: r.deep_view() })
            == event_effect(line@, old(context).deep_view(), observed_at_ms),
{
    let event_type = match line.text_member("type") {
        Some(text) => text,
        None => String::new(),
    };
    let null = Json::Null;
    let payload = match line.get("payload") {
        Some(payload) => payload,
        None => &null,
    };
    let inner_type = if same(event_type.as_str(), "event_msg") {
        match payload.text_member("type") {
            Some(text) => text,
            None => String::new(),
        }
    } else {
        event_type.clone()
    };
    let inner = inner_type.as_str();
    if same(event_type.as_str(), "session_meta") {
        return session_line(payload, context, observed_at_ms);
    }
    if same(inner, "turn_context") {
        turn_context_line(payload, context);
        return no_records();
    }
    if same(inner, "task_started") || same(inner, "task_complete") || same(inner, "task_aborted")
        || same(inner, "turn_aborted") {
        return turn_line(inner, payload, context, observed_at_ms);
    }
    if same(inner, "thread_settings_applied") {
        settings_line(payload, context);
        return no_records();
    }
    if same(inner, "token_count") {
        return token_line(line, payload, context, observed_at_ms);
    }
    no_records()
}

/// The facts that a line of a log states; the context is brought up to the line.
pub fn records_for_line(line: &Json, context: &mut FileContext) -> (r: Result<
    Vec<SourceJsonlRecord>,
    JsonlError,
>)
    ensures
        match r {
            Ok(records) => line_effect(line@, old(context).deep_view()) == Ok::<
                LineEffect,
                Seq<char>,
            >(LineEffect { context: final(context).deep_view(), records: records.deep_view() }),
            Err(error) => {
                &&& line_effect(line@, old(context).deep_view()) == Err::<LineEffect, Seq<char>>(
                    error.deep_view(),
                )
                &&& *final(context) == *old(context)
            },
        },
{
    match parse_timestamp(line.get("timestamp")) {
        Ok(at) => Ok(records_at(line, context, at)),
        Err(error) => Err(error),
    }
}

/// The parent of `current` on the way up from `session`, whose own parent may be named directly; an
/// empty name is none.
pub open spec fn parent_above(
    graph: Seq<(Seq<char>, Seq<char>)>,
    session: Seq<char>,
    direct: Option<Seq<char>>,
    current: Seq<char>,
) -> Option<Seq<char>> {
    let known = lookup::<String, Seq<char>>(graph, current);
    let named = if current == session {
        first_some(direct, known)
    } else {
        known
    };
    match named {
        Some(parent) if parent.len() > 0 => Some(parent),
        _ => None,
    }
}

/// The session `n` steps above `session`, where the way goes so far.
pub open spec fn ancestor(
    graph: Seq<(Seq<char>, Seq<char>)>,
    session: Seq<char>,
    direct: Option<Seq<char>>,
    n: nat,
) -> Option<Seq<char>>
    decreases n,
{
    if n == 0 {
        Some(session)
    } else {
        match ancestor(graph, session, direct, (n - 1) as nat) {
            Some(current) => parent_above(graph, session, direct, current),
            None => None,
        }
    }
}

/// Whether `root` is where the way up from `session` ends.
pub open spec fn is_root(
    graph: Seq<(Seq<char>, Seq<char>)>,
    session: Seq<char>,
    direct: Option<Seq<char>>,
    root: Seq<char>,
) -> bool {
    parent_above(graph, session, direct, root) is None && exists|n: nat|
        ancestor(graph, session, direct, n) == Some(root)
}

/// Where the way up from `session` ends, if it does.
pub open spec fn root_of(
    graph: Seq<(Seq<char>, Seq<char>)>,
    session: Seq<char>,
    direct: Option<Seq<char>>,
) -> Option<Seq<char>> {
    if exists|root: Seq<char>| is_root(graph, session, direct, root) {
        Some(choose|root: Seq<char>| is_root(graph, session, direct, root))
    } else {
        None
    }
}

/// Whether the way up from `session` never ends.
pub open spec fn is_endless(
    graph: Seq<(Seq<char>, Seq<char>)>,
    session: Seq<char>,
    direct: Option<Seq<char>>,
) -> bool {
    forall|n: nat| ancestor(graph, session, direct, n) is Some
}

proof fn lemma_repeats(
    graph: Seq<(Seq<char>, Seq<char>)>,
    session: Seq<char>,
    direct: Option<Seq<char>>,
    i: nat,
    j: nat,
    d: nat,
)
    requires
        ancestor(graph, session, direct, i) == ancestor(graph, session, direct, j),
    ensures
        ancestor(graph, session, direct, i + d) == ancestor(graph, session, direct, j + d),
    decreases d,
{
    if d > 0 {
        lemma_repeats(graph, session, direct, i, j, (d - 1) as nat);
    }
}

proof fn lemma_cycle_is_endless(
    graph: Seq<(Seq<char>, Seq<char>)>,
    session: Seq<char>,
    direct: Option<Seq<char>>,
    i: nat,
    j: nat,
    n: nat,
)
    requires
        i < j,
        ancestor(graph, session, direct, i) == ancestor(graph, session, direct, j),
        forall|m: nat| m <= j ==> ancestor(graph, session, direct, m) is Some,
    ensures
        ancestor(graph, session, direct, n) is Some,
    decreases n,
{
    if n > j {
        lemma_repeats(graph, session, direct, i, j, (n - j) as nat);
        lemma_cycle_is_endless(graph, session, direct, i, j, (i + (n - j)) as nat);
    }
}

/// Two ways up from one session end at one root, and a way that ends is not endless.
pub proof fn lemma_root_is_unique(
    graph: Seq<(Seq<char>, Seq<char>)>,
    session: Seq<char>,
    direct: Option<Seq<char>>,
    a: Seq<char>,
    b: Seq<char>,
)
    requires
        is_root(graph, session, direct, a),
    ensures
        is_root(graph, session, direct, b) ==> a == b,
        !is_endless(graph, session, direct),
{
    let n = choose|n: nat| ancestor(graph, session, direct, n) == Some(a);
    assert(ancestor(graph, session, direct, (n + 1) as nat) is None);
    if is_root(graph, session, direct, b) {
        let m = choose|m: nat| ancestor(graph, session, direct, m) == Some(b);
        if n < m {
            lemma_stays_ended(graph, session, direct, (n + 1) as nat, m);
        }
        if m < n {
            assert(ancestor(graph, session, direct, (m + 1) as nat) is None);
            lemma_stays_ended(graph, session, direct, (m + 1) as nat, n);
        }
    }
}

proof fn lemma_stays_ended(
    graph: Seq<(Seq<char>, Seq<char>)>,
    session: Seq<char>,
    direct: Option<Seq<char>>,
    n: nat,
    m: nat,
)
    requires
        ancestor(graph, session, direct, n) is None,
        n <= m,
    ensures
        ancestor(graph, session, direct, m) is None,
    decreases m,
{
    if n < m {
        lemma_stays_ended(graph, session, direct, n, (m - 1) as nat);
    }
}

/// A session with a parent is the one that the way started from, or a key of the graph.
proof fn lemma_parent_is_known(
    graph: Seq<(Seq<char>, Seq<char>)>,
    session: Seq<char>,
    direct: Option<Seq<char>>,
    current: Seq<char>,
)
    requires
        parent_above(graph, session, direct, current) is Some,
    ensures
        current == session || exists|i: int| 0 <= i < graph.len() && (#[trigger] graph[i]).0
            == current,
{
    if current != session {
        lemma_place::<String, Seq<char>>(graph, current);
        let p = place::<String, Seq<char>>(graph, current);
        lemma_less_total(graph[p].0, current);
        assert(graph[p].0 == current);
    }
}

/// Distinct sessions that all have parents are no more than the graph has keys, and one.
proof fn lemma_way_is_bounded(
    graph: Seq<(Seq<char>, Seq<char>)>,
    session: Seq<char>,
    direct: Option<Seq<char>>,
    seen: Seq<Seq<char>>,
)
    requires
        seen.no_duplicates(),
        forall|i: int|
            0 <= i < seen.len() ==> parent_above(graph, session, direct, #[trigger] seen[i])
                is Some,
    ensures
        seen.len() <= graph.len() + 1,
{
    let known = Seq::new(graph.len(), |i: int| graph[i].0).push(session);
    assert forall|x: Seq<char>| seen.to_set().contains(x) implies known.to_set().contains(x) by {
        let i = seen.index_of(x);
        lemma_parent_is_known(graph, session, direct, seen[i]);
        if x != session {
            let k = choose|k: int| 0 <= k < graph.len() && (#[trigger] graph[k]).0 == x;
            assert(known[k] == x);
        } else {
            assert(known[graph.len() as int] == x);
        }
    }
    seen.unique_seq_to_set();
    known.lemma_cardinality_of_set();
    vstd::seq_lib::seq_to_set_is_finite(seen);
    vstd::seq_lib::seq_to_set_is_finite(known);
    vstd::set_lib::lemma_len_subset(seen.to_set(), known.to_set());
}

proof fn lemma_root_is(
    graph: Seq<(Seq<char>, Seq<char>)>,
    session: Seq<char>,
    direct: Option<Seq<char>>,
    root: Seq<char>,
)
    requires
        is_root(graph, session, direct, root),
    ensures
        root_of(graph, session, direct) == Some(root),
{
    lemma_root_is_unique(graph, session, direct, root, root_of(graph, session, direct)->0);
}

proof fn lemma_way_ends(
    graph: Seq<(Seq<char>, Seq<char>)>,
    session: Seq<char>,
    direct: Option<Seq<char>>,
    n: nat,
)
    requires
        ancestor(graph, session, direct, n) is None,
    ensures
        root_of(graph, session, direct) is Some,
    decreases n,
{
    match ancestor(graph, session, direct, (n - 1) as nat) {
        Some(current) => {
            assert(is_root(graph, session, direct, current));
        },
        None => {
            lemma_way_ends(graph, session, direct, (n - 1) as nat);
        },
    }
}

/// Whether the way up from `session` comes to some session twice.
pub open spec fn revisits(
    graph: Seq<(Seq<char>, Seq<char>)>,
    session: Seq<char>,
    direct: Option<Seq<char>>,
) -> bool {
    exists|i: nat, j: nat|
        i < j && (#[trigger] ancestor(graph, session, direct, i)) is Some && ancestor(
            graph,
            session,
            direct,
            i,
        ) == #[trigger] ancestor(graph, session, direct, j)
}

/// A session has no root where the way up from it never ends, and that is where the way comes to
/// some session twice.
pub proof fn lemma_no_root_means_a_circle(
    graph: Seq<(Seq<char>, Seq<char>)>,
    session: Seq<char>,
    direct: Option<Seq<char>>,
)
    ensures
        root_of(graph, session, direct) is None <==> is_endless(graph, session, direct),
        is_endless(graph, session, direct) <==> revisits(graph, session, direct),
{
    if root_of(graph, session, direct) is Some {
        let root = root_of(graph, session, direct)->0;
        lemma_root_is_unique(graph, session, direct, root, root);
    } else {
        assert forall|n: nat| ancestor(graph, session, direct, n) is Some by {
            if ancestor(graph, session, direct, n) is None {
                lemma_way_ends(graph, session, direct, n);
            }
        }
    }
    if is_endless(graph, session, direct) && !revisits(graph, session, direct) {
        let seen = Seq::new(graph.len() + 2, |i: int| ancestor(graph, session, direct, i as nat)->0);
        assert forall|i: int, j: int|
            0 <= i < seen.len() && 0 <= j < seen.len() && i != j implies seen[i] != seen[j] by {
            assert(ancestor(graph, session, direct, i as nat) is Some);
            assert(ancestor(graph, session, direct, j as nat) is Some);
            if i < j {
                assert(ancestor(graph, session, direct, i as nat) != ancestor(
                    graph,
                    session,
                    direct,
                    j as nat,
                ));
            } else {
                assert(ancestor(graph, session, direct, j as nat) != ancestor(
                    graph,
                    session,
                    direct,
                    i as nat,
                ));
            }
        }
        assert forall|i: int| 0 <= i < seen.len() implies parent_above(
            graph,
            session,
            direct,
            #[trigger] seen[i],
        ) is Some by {
            assert(ancestor(graph, session, direct, i as nat) is Some);
            assert(ancestor(graph, session, direct, (i + 1) as nat) is Some);
        }
        lemma_way_is_bounded(graph, session, direct, seen);
    }
    if revisits(graph, session, direct) {
        let (i, j) = choose|i: nat, j: nat|
            i < j && (#[trigger] ancestor(graph, session, direct, i)) is Some && ancestor(
                graph,
                session,
                direct,
                i,
            ) == #[trigger] ancestor(graph, session, direct, j);
        lemma_return_is_endless(graph, session, direct, i, j);
    }
}

proof fn lemma_return_is_endless(
    graph: Seq<(Seq<char>, Seq<char>)>,
    session: Seq<char>,
    direct: Option<Seq<char>>,
    i: nat,
    j: nat,
)
    requires
        i < j,
        ancestor(graph, session, direct, j) is Some,
        ancestor(graph, session, direct, i) == ancestor(graph, session, direct, j),
    ensures
        is_endless(graph, session, direct),
{
    assert forall|m: nat| m <= j implies ancestor(graph, session, direct, m) is Some by {
        if ancestor(graph, session, direct, m) is None {
            lemma_stays_ended(graph, session, direct, m, j);
        }
    }
    assert forall|n: nat| ancestor(graph, session, direct, n) is Some by {
        lemma_cycle_is_endless(graph, session, direct, i, j, n);
    }
}

/// The way up from a session is the way up from its parent, one step later, as long as that has not
/// come to a session whose parent is named directly.
proof fn lemma_way_goes_on(
    graph: Seq<(Seq<char>, Seq<char>)>,
    session: Seq<char>,
    direct: Option<Seq<char>>,
    parent: Seq<char>,
    n: nat,
)
    requires
        parent_above(graph, session, direct, session) == Some(parent),
        direct is None || forall|m: nat|
            m < n ==> #[trigger] ancestor(graph, parent, None, m) != Some(session),
    ensures
        ancestor(graph, session, direct, (n + 1) as nat) == ancestor(graph, parent, None, n),
    decreases n,
{
    if n > 0 {
        let before = (n - 1) as nat;
        lemma_way_goes_on(graph, session, direct, parent, before);
        assert(direct is None || ancestor(graph, parent, None, before) != Some(session));
    } else {
        assert(ancestor(graph, session, direct, 0) == Some(session));
    }
}

proof fn lemma_way_comes_back(
    graph: Seq<(Seq<char>, Seq<char>)>,
    session: Seq<char>,
    direct: Option<Seq<char>>,
    parent: Seq<char>,
    m: nat,
)
    requires
        parent_above(graph, session, direct, session) == Some(parent),
        ancestor(graph, parent, None, m) == Some(session),
    ensures
        is_endless(graph, session, direct),
    decreases m,
{
    if exists|k: nat| k < m && #[trigger] ancestor(graph, parent, None, k) == Some(session) {
        let k = choose|k: nat|
            k < m && #[trigger] ancestor(graph, parent, None, k) == Some(session);
        lemma_way_comes_back(graph, session, direct, parent, k);
    } else {
        lemma_way_goes_on(graph, session, direct, parent, m);
        assert(ancestor(graph, session, direct, 0) == Some(session));
        lemma_return_is_endless(graph, session, direct, 0, (m + 1) as nat);
    }
}

/// Whether the way up from `session`, by the graph alone, comes to `other`.
pub open spec fn comes_to(
    graph: Seq<(Seq<char>, Seq<char>)>,
    session: Seq<char>,
    other: Seq<char>,
) -> bool {
    exists|n: nat| #[trigger] ancestor(graph, session, None, n) == Some(other)
}

/// A session without a parent is its own root. One with a parent has the root that its parent has
/// by the graph. A parent that is named directly counts for the first step only: where the way up
/// from it comes back to the session, the way is a circle, and there is no root.
pub proof fn lemma_root_is_that_of_the_parent(
    graph: Seq<(Seq<char>, Seq<char>)>,
    session: Seq<char>,
    direct: Option<Seq<char>>,
)
    ensures
        match parent_above(graph, session, direct, session) {
            None => root_of(graph, session, direct) == Some(session),
            Some(parent) => root_of(graph, session, direct) == if direct is Some && comes_to(
                graph,
                parent,
                session,
            ) {
                None
            } else {
                root_of(graph, parent, None)
            },
        },
{
    match parent_above(graph, session, direct, session) {
        None => {
            assert(ancestor(graph, session, direct, 0) == Some(session));
            lemma_root_is(graph, session, direct, session);
        },
        Some(parent) => {
            if direct is Some && comes_to(graph, parent, session) {
                let m = choose|m: nat| #[trigger] ancestor(graph, parent, None, m) == Some(session);
                lemma_way_comes_back(graph, session, direct, parent, m);
                lemma_no_root_means_a_circle(graph, session, direct);
            } else {
                if root_of(graph, session, direct) is Some {
                    let root = root_of(graph, session, direct)->0;
                    let n = choose|n: nat| ancestor(graph, session, direct, n) == Some(root);
                    assert(root != session);
                    assert(n > 0);
                    lemma_way_goes_on(graph, session, direct, parent, (n - 1) as nat);
                    assert(is_root(graph, parent, None, root));
                    lemma_root_is(graph, parent, None, root);
                }
                if root_of(graph, parent, None) is Some {
                    let root = root_of(graph, parent, None)->0;
                    let n = choose|n: nat| ancestor(graph, parent, None, n) == Some(root);
                    lemma_way_goes_on(graph, session, direct, parent, n);
                    assert(direct is None || root != session);
                    assert(is_root(graph, session, direct, root));
                    lemma_root_is(graph, session, direct, root);
                }
            }
        },
    }
}

fn seen_before(seen: &Vec<String>, current: &str) -> (r: Option<usize>)
    ensures
        match r {
            Some(i) => i < seen@.len() && seen@[i as int]@ == current@,
            None => forall|i: int| 0 <= i < seen@.len() ==> (#[trigger] seen@[i])@ != current@,
        },
{
    let mut i: usize = 0;
    while i < seen.len()
        invariant
            i <= seen@.len(),
            forall|k: int| 0 <= k < i ==> (#[trigger] seen@[k])@ != current@,
        decreases seen@.len() - i,
    {
        if same(seen[i].as_str(), current) {
            return Some(i);
        }
        i = i + 1;
    }
    None
}

fn find_parent(
    graph: &OrderedMap<String, String>,
    session_id: &str,
    direct_parent: Option<&str>,
    current: &String,
) -> (r: Option<String>)
    ensures
        r.deep_view() == parent_above(
            graph.deep_view(),
            session_id@,
            direct_parent.deep_view(),
            current@,
        ),
{
    let known = graph.get(current);
    let named: Option<String> = if same(current.as_str(), session_id) {
        match direct_parent {
            Some(parent) => Some(parent.to_owned()),
            None => match known {
                Some(parent) => Some(parent.clone()),
                None => None,
            },
        }
    } else {
        match known {
            Some(parent) => Some(parent.clone()),
            None => None,
        }
    };
    match named {
        Some(parent) => if parent.as_str().is_empty() {
            None
        } else {
            Some(parent)
        },
        None => None,
    }
}

/// The session where the way up from a session ends; none where it runs in a circle.
pub fn resolve_root_session_id(
    session_id: &str,
    direct_parent: Option<&str>,
    parent_graph: &OrderedMap<String, String>,
) -> (r: Option<String>)
    ensures
        r.deep_view() == root_of(
            parent_graph.deep_view(),
            session_id@,
            direct_parent.deep_view(),
        ),
        match r {
            Some(root) => is_root(
                parent_graph.deep_view(),
                session_id@,
                direct_parent.deep_view(),
                root@,
            ),
            None => is_endless(
                parent_graph.deep_view(),
                session_id@,
                direct_parent.deep_view(),
            ),
        },
{
    let ghost graph = parent_graph.deep_view();
    let ghost direct = direct_parent.deep_view();
    let mut current = session_id.to_owned();
    let mut seen: Vec<String> = Vec::new();
    loop
        invariant
            graph == parent_graph.deep_view(),
            direct == direct_parent.deep_view(),
            ancestor(graph, session_id@, direct, seen@.len()) == Some(current@),
            forall|i: int|
                0 <= i < seen@.len() ==> ancestor(graph, session_id@, direct, i as nat) == Some(
                    (#[trigger] seen.deep_view()[i]),
                ),
            seen.deep_view().no_duplicates(),
            forall|i: int|
                0 <= i < seen@.len() ==> parent_above(
                    graph,
                    session_id@,
                    direct,
                    #[trigger] seen.deep_view()[i],
                ) is Some,
            seen@.len() <= graph.len() + 1,
        decreases graph.len() + 2 - seen@.len(),
    {
        if let Some(i) = seen_before(&seen, current.as_str()) {
            proof {
                let j = seen@.len();
                assert(seen.deep_view()[i as int] == current@);
                assert forall|m: nat| m <= j implies ancestor(
                    graph,
                    session_id@,
                    direct,
                    m,
                ) is Some by {
                    if m < j {
                        assert(ancestor(graph, session_id@, direct, m) == Some(
                            seen.deep_view()[m as int],
                        ));
                    }
                }
                assert forall|n: nat| ancestor(graph, session_id@, direct, n) is Some by {
                    lemma_cycle_is_endless(graph, session_id@, direct, i as nat, j, n);
                }
                assert forall|root: Seq<char>| !is_root(graph, session_id@, direct, root) by {
                    if is_root(graph, session_id@, direct, root) {
                        lemma_root_is_unique(graph, session_id@, direct, root, root);
                    }
                }
            }
            return None;
        }
        match find_parent(parent_graph, session_id, direct_parent, &current) {
            None => {
                proof {
                    assert(is_root(graph, session_id@, direct, current@));
                    lemma_root_is_unique(
                        graph,
                        session_id@,
                        direct,
                        current@,
                        root_of(graph, session_id@, direct)->0,
                    );
                }
                return Some(current);
            },
            Some(parent) => {
                let ghost before = seen.deep_view();
                proof {
                    assert forall|i: int| 0 <= i < before.len() implies before[i] != current@ by {
                        assert(before[i] == seen@[i]@);
                    }
                }
                seen.push(current);
                current = parent;
                proof {
                    let after = seen.deep_view();
                    assert(after =~= before.push(after.last()));
                    assert forall|i: int| 0 <= i < after.len() implies ancestor(
                        graph,
                        session_id@,
                        direct,
                        i as nat,
                    ) == Some((#[trigger] after[i])) && parent_above(
                        graph,
                        session_id@,
                        direct,
                        after[i],
                    ) is Some by {
                        if i < before.len() {
                            assert(after[i] == before[i]);
                        }
                    }
                    lemma_way_is_bounded(graph, session_id@, direct, after);
                }
            },
        }
    }
}

/// How to tell what a forked log copied from its parent: the token counts of the parent before the
/// fork, and, where those do not match, how many events the log starts with in one burst.
#[derive(Debug)]
pub struct ReplaySpec {
    pub parent_prefix: Vec<TokenCounts>,
    pub fallback_burst_len: usize,
}

/// How far the comparison of a log with what its parent counted has come.
#[derive(Debug)]
pub enum ReplayState {
    Match { prefix: Vec<TokenCounts>, index: usize, fallback_burst_len: usize },
    SkipBurst { remaining: usize },
    Done,
}

pub enum ReplayStateView {
    Match { prefix: Seq<TokenCounts>, index: nat, fallback_burst_len: nat },
    SkipBurst { remaining: nat },
    Done,
}

impl DeepView for ReplayState {
    type V = ReplayStateView;

    open spec fn deep_view(&self) -> ReplayStateView {
        match self {
            ReplayState::Match { prefix, index, fallback_burst_len } => ReplayStateView::Match {
                prefix: prefix@,
                index: *index as nat,
                fallback_burst_len: *fallback_burst_len as nat,
            },
            ReplayState::SkipBurst { remaining } => ReplayStateView::SkipBurst {
                remaining: *remaining as nat,
            },
            ReplayState::Done => ReplayStateView::Done,
        }
    }
}

/// The state after one more event, and whether the event is a copy.
pub open spec fn replay_step(state: ReplayStateView, tokens: TokenCounts) -> (ReplayStateView, bool) {
    match state {
        ReplayStateView::Match { prefix, index, fallback_burst_len } => {
            if index < prefix.len() && prefix[index as int] == tokens {
                (
                    ReplayStateView::Match { prefix, index: index + 1, fallback_burst_len },
                    true,
                )
            } else if index == 0 && fallback_burst_len > 0 {
                (
                    ReplayStateView::SkipBurst { remaining: (fallback_burst_len - 1) as nat },
                    true,
                )
            } else {
                (ReplayStateView::Done, false)
            }
        },
        ReplayStateView::SkipBurst { remaining } => if remaining == 0 {
            (ReplayStateView::Done, false)
        } else {
            (ReplayStateView::SkipBurst { remaining: (remaining - 1) as nat }, true)
        },
        ReplayStateView::Done => (ReplayStateView::Done, false),
    }
}

/// The state after the first `n` of `events`.
pub open spec fn replay_state_after(
    start: ReplayStateView,
    events: Seq<TokenCounts>,
    n: nat,
) -> ReplayStateView
    decreases n,
{
    if n == 0 {
        start
    } else {
        replay_step(
            replay_state_after(start, events, (n - 1) as nat),
            events[n - 1],
        ).0
    }
}

/// Whether event `n` of `events` is taken for a copy.
pub open spec fn is_replayed(start: ReplayStateView, events: Seq<TokenCounts>, n: nat) -> bool {
    replay_step(replay_state_after(start, events, n), events[n as int]).1
}

/// The copies are the events with which a log repeats its parent from the start; where already the
/// first event differs, they are the events of the first burst.
pub proof fn lemma_replay_skips_a_prefix(
    prefix: Seq<TokenCounts>,
    fallback_burst_len: nat,
    events: Seq<TokenCounts>,
    n: nat,
)
    requires
        n < events.len(),
    ensures
        is_replayed(
            ReplayStateView::Match { prefix, index: 0, fallback_burst_len },
            events,
            n,
        ) <==> if prefix.len() > 0 && events[0] == prefix[0] {
            n < prefix.len() && forall|i: int| 0 <= i <= n ==> events[i] == prefix[i]
        } else {
            n < fallback_burst_len
        },
{
    lemma_replay_state(prefix, fallback_burst_len, events, n);
}

proof fn lemma_replay_state(
    prefix: Seq<TokenCounts>,
    fallback_burst_len: nat,
    events: Seq<TokenCounts>,
    n: nat,
)
    requires
        n <= events.len(),
    ensures
        ({
            let start = ReplayStateView::Match { prefix, index: 0, fallback_burst_len };
            let state = replay_state_after(start, events, n);
            if n == 0 {
                state == start
            } else if prefix.len() > 0 && events[0] == prefix[0] {
                if n <= prefix.len() && forall|i: int| 0 <= i < n ==> events[i] == prefix[i] {
                    state == (ReplayStateView::Match { prefix, index: n, fallback_burst_len })
                } else {
                    state is Done
                }
            } else if n <= fallback_burst_len {
                state == (ReplayStateView::SkipBurst { remaining: (fallback_burst_len - n) as nat })
            } else {
                state is Done
            }
        }),
    decreases n,
{
    if n > 0 {
        lemma_replay_state(prefix, fallback_burst_len, events, (n - 1) as nat);
    }
}

fn copy_counts(counts: &Vec<TokenCounts>) -> (r: Vec<TokenCounts>)
    ensures
        r@ == counts@,
{
    let mut r: Vec<TokenCounts> = Vec::new();
    let mut i: usize = 0;
    while i < counts.len()
        invariant
            i <= counts@.len(),
            r@ == counts@.take(i as int),
        decreases counts@.len() - i,
    {
        r.push(counts[i]);
        i = i + 1;
        assert(r@ =~= counts@.take(i as int));
    }
    assert(counts@.take(i as int) =~= counts@);
    r
}

impl ReplayState {
    /// The state before the first event; none where nothing can have been copied.
    pub fn new(spec: Option<&ReplaySpec>) -> (r: Option<Self>)
        ensures
            r.deep_view() == (match spec {
                Some(spec) if spec.parent_prefix@.len() > 0 || spec.fallback_burst_len > 0 => Some(
                    ReplayStateView::Match {
                        prefix: spec.parent_prefix@,
                        index: 0,
                        fallback_burst_len: spec.fallback_burst_len as nat,
                    },
                ),
                _ => None,
            }),
    {
        match spec {
            Some(spec) => if spec.parent_prefix.is_empty() && spec.fallback_burst_len == 0 {
                None
            } else {
                Some(
                    ReplayState::Match {
                        prefix: copy_counts(&spec.parent_prefix),
                        index: 0,
                        fallback_burst_len: spec.fallback_burst_len,
                    },
                )
            },
            None => None,
        }
    }

    /// Whether the next event is a copy.
    pub fn should_skip(&mut self, tokens: &TokenCounts) -> (r: bool)
        ensures
            (final(self).deep_view(), r) == replay_step(old(self).deep_view(), *tokens),
    {
        let (next, skip) = match self {
            ReplayState::Match { prefix, index, fallback_burst_len } => {
                if *index < prefix.len() && prefix[*index] == *tokens {
                    *index = *index + 1;
                    return true;
                }
                if *index == 0 && *fallback_burst_len > 0 {
                    (ReplayState::SkipBurst { remaining: *fallback_burst_len - 1 }, true)
                } else {
                    (ReplayState::Done, false)
                }
            },
            ReplayState::SkipBurst { remaining } => {
                if *remaining == 0 {
                    (ReplayState::Done, false)
                } else {
                    (ReplayState::SkipBurst { remaining: *remaining - 1 }, true)
                }
            },
            ReplayState::Done => (ReplayState::Done, false),
        };
        *self = next;
        skip
    }
}

/// How many events from the start follow one another within a second each.
pub open spec fn close_run(events: Seq<(i64, TokenCounts)>) -> nat
    decreases events.len(),
{
    if events.len() <= 1 {
        events.len()
    } else if clamp_i64(events[1].0 - events[0].0) <= 1_000 {
        1 + close_run(events.skip(1))
    } else {
        1
    }
}

/// The length of the burst that a log starts with; a single event is none.
pub fn leading_rewritten_burst_len(events: &Vec<(i64, TokenCounts)>) -> (r: usize)
    ensures
        r == (if close_run(events@) >= 2 {
            close_run(events@)
        } else {
            0
        }),
{
    if events.len() < 2 {
        return 0;
    }
    let mut length: usize = 1;
    let mut open = true;
    assert(events@.skip(0) =~= events@);
    while length < events.len() && open
        invariant
            1 <= length <= events@.len(),
            events@.len() >= 2,
            open ==> close_run(events@) == length - 1 + close_run(events@.skip(length - 1)),
            !open ==> close_run(events@) == length,
        decreases events@.len() - length, open as int,
    {
        let ghost rest = events@.skip(length - 1);
        assert(rest[0] == events@[length - 1] && rest[1] == events@[length as int]);
        assert(rest.skip(1) =~= events@.skip(length as int));
        if saturating_sub(events[length].0, events[length - 1].0) <= 1_000 {
            length = length + 1;
        } else {
            open = false;
        }
    }
    assert(open ==> events@.skip(length - 1).len() == 1);
    if length >= 2 {
        length
    } else {
        0
    }
}

/// The counts of a record, in normal form.
pub open spec fn tokens_of_record(record: SourceJsonlRecordView) -> TokenCounts {
    let count = |n: Option<i64>|
        match n {
            Some(n) => n,
            None => 0i64,
        };
    tokens_normalized(
        TokenCounts {
            input: count(record.input_tokens),
            cached: count(record.cache_read_tokens),
            cache_write: count(record.cache_write_tokens),
            output: count(record.output_tokens),
            reasoning: count(record.reasoning_tokens),
            total: count(record.total_tokens),
        },
    )
}

/// The counts of a record, in normal form.
pub fn record_tokens(record: &SourceJsonlRecord) -> (r: TokenCounts)
    ensures
        r == tokens_of_record(record.deep_view()),
{
    TokenCounts {
        input: record.input_tokens.unwrap_or(0),
        cached: record.cache_read_tokens.unwrap_or(0),
        cache_write: record.cache_write_tokens.unwrap_or(0),
        output: record.output_tokens.unwrap_or(0),
        reasoning: record.reasoning_tokens.unwrap_or(0),
        total: record.total_tokens.unwrap_or(0),
    }.normalized()
}

/// What is known of a session beside its log.
#[derive(Debug)]
pub struct LocalSessionMetadata {
    pub title: Option<String>,
    pub parent_session_id: Option<String>,
    pub reasoning_effort: Option<String>,
}

/// A `LocalSessionMetadata` with its texts as sequences of characters.
#[verifier::ext_equal]
pub struct LocalSessionMetadataView {
    pub title: Option<Seq<char>>,
    pub parent_session_id: Option<Seq<char>>,
    pub reasoning_effort: Option<Seq<char>>,
}

impl DeepView for LocalSessionMetadata {
    type V = LocalSessionMetadataView;

    open spec fn deep_view(&self) -> LocalSessionMetadataView {
        LocalSessionMetadataView {
            title: self.title.deep_view(),
            parent_session_id: self.parent_session_id.deep_view(),
            reasoning_effort: self.reasoning_effort.deep_view(),
        }
    }
}

/// A `LocalSessionMetadata` of which nothing is known.
pub open spec fn empty_local_session_metadata() -> LocalSessionMetadataView {
    LocalSessionMetadataView {
        title: None,
        parent_session_id: None,
        reasoning_effort: None,
    }
}

impl Default for LocalSessionMetadata {
    fn default() -> (r: Self)
        ensures
            r.deep_view() == empty_local_session_metadata(),
    {
        let r = LocalSessionMetadata {
            title: None,
            parent_session_id: None,
            reasoning_effort: None,
        };
        assert(r.deep_view() =~= empty_local_session_metadata());
        r
    }
}

/// A list of marks with one more.
pub open spec fn marked(quality: Option<Seq<char>>, flag: Seq<char>) -> Seq<char> {
    match quality {
        Some(current) if current.len() > 0 => current + ","@ + flag,
        _ => flag,
    }
}

/// Marks a record.
pub fn append_quality(record: &mut SourceJsonlRecord, flag: &str)
    ensures
        final(record).deep_view() == (SourceJsonlRecordView {
            quality: Some(marked(old(record).deep_view().quality, flag@)),
            ..old(record).deep_view()
        }),
{
    let joined = match &record.quality {
        Some(current) => if current.as_str().is_empty() {
            flag.to_owned()
        } else {
            let mut joined = current.clone();
            joined.append(",");
            joined.append(flag);
            joined
        },
        None => flag.to_owned(),
    };
    record.quality = Some(joined);
}

/// A record with what is known of its session beside the log, and with its root. A session with a
/// parent is not a main one; one whose way up is a circle has no root, and is marked.
pub open spec fn enriched(
    record: SourceJsonlRecordView,
    metadata: Seq<(Seq<char>, LocalSessionMetadataView)>,
    graph: Seq<(Seq<char>, Seq<char>)>,
) -> SourceJsonlRecordView {
    match record.session_id {
        None => record,
        Some(session) => {
            let known = match lookup::<String, LocalSessionMetadataView>(metadata, session) {
                Some(known) => known,
                None => empty_local_session_metadata(),
            };
            let parent = first_some(
                first_some(record.parent_session_id, known.parent_session_id),
                lookup::<String, Seq<char>>(graph, session),
            );
            let root = root_of(graph, session, parent);
            SourceJsonlRecordView {
                title: if record.kind == "session"@ {
                    first_some(record.title, known.title)
                } else {
                    record.title
                },
                parent_session_id: parent,
                reasoning_effort: first_some(record.reasoning_effort, known.reasoning_effort),
                root_session_id: root,
                quality: if root is None {
                    Some(marked(record.quality, "root_unresolved"@))
                } else {
                    record.quality
                },
                relation: if parent is Some && record.relation == Some("main"@) {
                    Some("child"@)
                } else {
                    record.relation
                },
                ..record
            }
        },
    }
}

/// Adds to a record what is known of its session beside the log, and its root.
pub fn enrich_record_from_metadata(
    record: &mut SourceJsonlRecord,
    metadata: &OrderedMap<String, LocalSessionMetadata>,
    parent_graph: &OrderedMap<String, String>,
)
    ensures
        final(record).deep_view() == enriched(
            old(record).deep_view(),
            metadata.deep_view(),
            parent_graph.deep_view(),
        ),
{
    let session_id = match &record.session_id {
        Some(id) => id.clone(),
        None => return,
    };
    if let Some(known) = metadata.get(&session_id) {
        if same(record.kind.as_str(), "session") && record.title.is_none() {
            record.title = copy_option(&known.title);
        }
        if record.parent_session_id.is_none() {
            record.parent_session_id = copy_option(&known.parent_session_id);
        }
        if record.reasoning_effort.is_none() {
            record.reasoning_effort = copy_option(&known.reasoning_effort);
        }
    }
    if record.parent_session_id.is_none() {
        record.parent_session_id = match parent_graph.get(&session_id) {
            Some(parent) => Some(parent.clone()),
            None => None,
        };
    }
    let direct = match &record.parent_session_id {
        Some(parent) => Some(parent.as_str()),
        None => None,
    };
    let root = resolve_root_session_id(session_id.as_str(), direct, parent_graph);
    let unresolved = root.is_none();
    record.root_session_id = root;
    if unresolved {
        append_quality(record, "root_unresolved");
    }
    if record.parent_session_id.is_some() && holds(&record.relation, "main") {
        record.relation = Some("child".to_owned());
    }
}

/// The root of a stored record, where it is not the one that is stored.
pub fn repaired_root(
    session_id: &str,
    direct_parent: Option<&str>,
    stored_root: &Option<String>,
    parent_graph: &OrderedMap<String, String>,
) -> (r: Option<Option<String>>)
    ensures
        ({
            let root = root_of(parent_graph.deep_view(), session_id@, direct_parent.deep_view());
            match r {
                Some(repaired) => repaired.deep_view() == root && root != stored_root.deep_view(),
                None => root == stored_root.deep_view(),
            }
        }),
{
    let root = resolve_root_session_id(session_id, direct_parent, parent_graph);
    if same_option(&root, stored_root) {
        None
    } else {
        Some(root)
    }
}

/// What is known of sessions after one more entry of the index was read.
pub open spec fn indexed(
    metadata: Seq<(Seq<char>, LocalSessionMetadataView)>,
    entry: JsonView,
) -> Seq<(Seq<char>, LocalSessionMetadataView)> {
    match text_member(entry, "id"@) {
        None => metadata,
        Some(id) => {
            let known = match lookup::<String, LocalSessionMetadataView>(metadata, id) {
                Some(known) => known,
                None => empty_local_session_metadata(),
            };
            let title = non_empty(
                match entry.get("thread_name"@) {
                    Some(value) => value.as_text(),
                    None => None,
                },
            );
            put::<String, LocalSessionMetadataView>(
                metadata,
                id,
                LocalSessionMetadataView { title: first_some(known.title, title), ..known },
            )
        },
    }
}

/// Reads one entry of the index of sessions.
pub fn read_index_entry(metadata: &mut OrderedMap<String, LocalSessionMetadata>, entry: &Json)
    ensures
        final(metadata).deep_view() == indexed(old(metadata).deep_view(), entry@),
{
    let id = match entry.text_member("id") {
        Some(id) => id,
        None => return,
    };
    let title = non_empty_string(entry.get("thread_name"));
    let known = metadata.entry(id, LocalSessionMetadata::default());
    if known.title.is_none() {
        known.title = title;
    }
}

/// What is known of sessions after the title and the effort of a thread were read.
pub open spec fn with_thread(
    metadata: Seq<(Seq<char>, LocalSessionMetadataView)>,
    id: Seq<char>,
    title: Option<Seq<char>>,
    effort: Option<Seq<char>>,
) -> Seq<(Seq<char>, LocalSessionMetadataView)> {
    let known = match lookup::<String, LocalSessionMetadataView>(metadata, id) {
        Some(known) => known,
        None => empty_local_session_metadata(),
    };
    put::<String, LocalSessionMetadataView>(
        metadata,
        id,
        LocalSessionMetadataView {
            title: first_some(known.title, non_empty(title)),
            reasoning_effort: first_some(known.reasoning_effort, non_empty(effort)),
            ..known
        },
    )
}

fn trimmed_option(text: &Option<String>) -> (r: Option<String>)
    ensures
        r.deep_view() == non_empty(text.deep_view()),
{
    match text {
        Some(text) => normalize_effort(text.as_str()),
        None => None,
    }
}

/// Reads the title and the effort of a thread.
pub fn read_thread(
    metadata: &mut OrderedMap<String, LocalSessionMetadata>,
    id: String,
    title: &Option<String>,
    effort: &Option<String>,
)
    ensures
        final(metadata).deep_view() == with_thread(
            old(metadata).deep_view(),
            id@,
            title.deep_view(),
            effort.deep_view(),
        ),
{
    let title = trimmed_option(title);
    let effort = trimmed_option(effort);
    let known = metadata.entry(id, LocalSessionMetadata::default());
    if known.title.is_none() {
        known.title = title;
    }
    if known.reasoning_effort.is_none() {
        known.reasoning_effort = effort;
    }
}

/// Reads which thread spawned another; the last that is read for a thread stays.
pub fn read_spawn_edge(
    metadata: &mut OrderedMap<String, LocalSessionMetadata>,
    parent: String,
    child: String,
)
    ensures
        final(metadata).deep_view() == put::<String, LocalSessionMetadataView>(
            old(metadata).deep_view(),
            child@,
            LocalSessionMetadataView {
                parent_session_id: Some(parent@),
                ..match lookup::<String, LocalSessionMetadataView>(
                    old(metadata).deep_view(),
                    child@,
                ) {
                    Some(known) => known,
                    None => empty_local_session_metadata(),
                }
            },
        ),
{
    let known = metadata.entry(child, LocalSessionMetadata::default());
    known.parent_session_id = Some(parent);
}

/// The number that decimal digits write, with or without a plus sign before them.
pub open spec fn number_of(s: Seq<char>) -> Option<nat> {
    let digits = if s.len() > 0 && s[0] == '+' {
        s.skip(1)
    } else {
        s
    };
    if digits.len() == 0 {
        None
    } else {
        digits_value(digits)
    }
}

/// The date that three numbers with hyphens between them give.
pub open spec fn from_date_of(value: Seq<char>) -> Option<Date> {
    let parts = pieces(value, '-');
    if parts.len() != 3 {
        None
    } else {
        match (number_of(parts[0]), number_of(parts[1]), number_of(parts[2])) {
            (Some(year), Some(month), Some(day)) => {
                let date = Date { year: year as i32, month: month as u8, day: day as u8 };
                if year <= 9999 && month <= 12 && day <= 31 && date.valid() {
                    Some(date)
                } else {
                    None
                }
            },
            _ => None,
        }
    }
}

/// The number that a text writes, where it is at most 9999; larger numbers are held at 10000.
fn parse_small_number(text: &str) -> (r: Option<u32>)
    ensures
        match r {
            Some(n) => number_of(text@) is Some && n == smaller(
                number_of(text@)->0 as int,
                10_000,
            ),
            None => number_of(text@) is None,
        },
{
    let v = characters(text);
    let len: usize = v.len();
    let from: usize = if len > 0 && v[0] == '+' {
        1
    } else {
        0
    };
    let ghost digits = v@.skip(from as int);
    assert(from == 0 ==> digits =~= v@);
    if from == len {
        return None;
    }
    let mut n: u32 = 0;
    let mut i: usize = from;
    while i < len
        invariant
            from <= i <= len,
            len == v@.len(),
            digits == v@.skip(from as int),
            number_of(text@) == digits_value(digits),
            digits_value(digits.take(i - from)) is Some,
            n == smaller(digits_value(digits.take(i - from))->0 as int, 10_000),
        decreases len - i,
    {
        let c = v[i];
        assert(digits.take(i + 1 - from).drop_last() =~= digits.take(i - from));
        assert(digits.take(i + 1 - from).last() == c);
        if !('0' <= c && c <= '9') {
            proof {
                lemma_bad_digit(digits, i - from);
            }
            return None;
        }
        let next: u32 = n * 10 + (c as u32 - 48);
        n = if next > 10_000 {
            10_000
        } else {
            next
        };
        i = i + 1;
    }
    assert(digits.take(i - from) =~= digits);
    Some(n)
}

/// Reads the date from which logs are read.
pub fn parse_date(value: &str) -> (r: Result<Date, JsonlError>)
    ensures
        match r {
            Ok(date) => from_date_of(value@) == Some(date),
            Err(error) => from_date_of(value@) is None && error.deep_view()
                == "invalid JSONL from date: "@ + value@,
        },
{
    let parts = split(value, '-');
    if parts.len() == 3 {
        let ghost all = pieces(value@, '-');
        assert(all[0] == parts@[0]@ && all[1] == parts@[1]@ && all[2] == parts@[2]@);
        let year = parse_small_number(parts[0].as_str());
        let month = parse_small_number(parts[1].as_str());
        let day = parse_small_number(parts[2].as_str());
        if let (Some(year), Some(month), Some(day)) = (year, month, day) {
            if year <= 9999 && month <= 12 && day <= 31 {
                if let Some(date) = Date::new(year as i32, month as u8, day as u8) {
                    return Ok(date);
                }
            }
        }
    }
    let mut reason = "invalid JSONL from date: ".to_owned();
    reason.append(value);
    Err(JsonlError::Timestamp(reason))
}

/// The date from which logs are read where none is set: the last thirty days, in Shanghai.
pub fn default_from_date(now_ms: i64) -> (r: Date)
    requires
        in_calendar(now_ms as int, 0),
        in_calendar(now_ms as int, SHANGHAI_OFFSET_MS as int),
        in_calendar(now_ms - 29 * DAY_MS, SHANGHAI_OFFSET_MS as int),
    ensures
        r.valid(),
        r.julian_day() == julian_day_at(now_ms as int, SHANGHAI_OFFSET_MS as int) - 29,
{
    match date_of_instant(now_ms, SHANGHAI_OFFSET_MS) {
        Ok(today) => {
            let n = today.to_julian_day();
            match Date::from_julian_day(n - 29) {
                Some(date) => date,
                None => today,
            }
        },
        Err(_) => Date { year: 1970, month: 1, day: 1 },
    }
}

/// What a scan of the logs did.
#[derive(Clone, Copy, Debug, PartialEq, Eq, Structural)]
pub struct JsonlScanReport {
    pub files_scanned: usize,
    pub files_changed: usize,
    pub complete_lines: usize,
    pub recognized_events: usize,
    pub inserted_events: usize,
    pub duplicate_events: usize,
    pub inserted_quota_samples: usize,
}

impl Default for JsonlScanReport {
    fn default() -> (r: Self)
        ensures
            r == (JsonlScanReport {
                files_scanned: 0,
                files_changed: 0,
                complete_lines: 0,
                recognized_events: 0,
                inserted_events: 0,
                duplicate_events: 0,
                inserted_quota_samples: 0,
            }),
    {
        JsonlScanReport {
            files_scanned: 0,
            files_changed: 0,
            complete_lines: 0,
            recognized_events: 0,
            inserted_events: 0,
            duplicate_events: 0,
            inserted_quota_samples: 0,
        }
    }
}

/// Where logs are read, where the state of their reading is kept, and from which date on.
#[derive(Debug)]
pub struct JsonlCollector {
    pub codex_home: String,
    pub cursor_path: Option<String>,
    pub from_date: Option<Date>,
}

impl JsonlCollector {
    /// Reads the logs below `codex_home`.
    pub fn new(codex_home: &str) -> (r: Self)
        ensures
            r.codex_home@ == codex_home@,
            r.cursor_path.deep_view() == Some(".runtime/jsonl-cursors.json"@),
            r.from_date is None,
    {
        JsonlCollector {
            codex_home: codex_home.to_owned(),
            cursor_path: Some(".runtime/jsonl-cursors.json".to_owned()),
            from_date: None,
        }
    }

    /// Keeps the state of reading at `path`, or nowhere.
    pub fn with_cursor_path(self, path: Option<String>) -> (r: Self)
        ensures
            r == (JsonlCollector { cursor_path: path, ..self }),
    {
        JsonlCollector { cursor_path: path, ..self }
    }

    /// Reads from `from_date` on, or all there is.
    pub fn with_from_date(self, from_date: Option<Date>) -> (r: Self)
        ensures
            r == (JsonlCollector { from_date, ..self }),
    {
        JsonlCollector { from_date, ..self }
    }

    /// Where logs are read.
    pub fn home_display(&self) -> (r: String)
        ensures
            r@ == self.codex_home@,
    {
        self.codex_home.clone()
    }
}

} // verus!
