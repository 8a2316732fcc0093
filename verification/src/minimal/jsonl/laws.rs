//! What the rows of a log say of its lines.
use crate::db::SourceJsonlRecordView;
use crate::json::{either_member, lemma_find_by_two, JsonView};
use crate::minimal::db::{row_of_event, row_of_quota, stored_again};
use crate::minimal::jsonl::{counts_in, event_read, quotas_in, FileContextView};
use crate::pipelines::source::jsonl::laws::{
    instant_in, is_event_of, is_line_of, known, text_of, tier_in,
};
use crate::pricing::TokenCounts;
use vstd::prelude::*;
use vstd::string::*;

verus! {

/// The integer that a member is, where it is one of 64 bits.
pub open spec fn integer_in(found: Option<JsonView>) -> Option<i64> {
    match found {
        Some(JsonView::Number(number)) => number.integer,
        _ => None,
    }
}

/// The integer that a member is; nothing is zero.
pub open spec fn count_in(found: Option<JsonView>) -> int {
    match integer_in(found) {
        Some(n) => n as int,
        None => 0,
    }
}

/// Whether counts are those of an object, each that of the member which names it.
pub open spec fn are_counts_of(counts: TokenCounts, value: JsonView) -> bool {
    &&& counts.input == count_in(value.get("input_tokens"@))
    &&& counts.cached == count_in(
        either_member(value, "cached_input_tokens"@, "cache_read_input_tokens"@),
    )
    &&& counts.cache_write == count_in(
        either_member(value, "cache_write_input_tokens"@, "cache_creation_input_tokens"@),
    )
    &&& counts.output == count_in(value.get("output_tokens"@))
    &&& counts.reasoning == count_in(value.get("reasoning_output_tokens"@))
    &&& counts.total == count_in(value.get("total_tokens"@))
}

/// An object counts tokens where its input is an integer; each count is that of the member which
/// names it.
pub proof fn lemma_counts_are_those_of_their_members(value: JsonView)
    ensures
        counts_in(value) is Some <==> integer_in(value.get("input_tokens"@)) is Some,
        counts_in(value) is Some ==> are_counts_of(counts_in(value)->0, value),
{
    lemma_find_by_two(value, "cached_input_tokens"@, "cache_read_input_tokens"@);
    lemma_find_by_two(value, "cache_write_input_tokens"@, "cache_creation_input_tokens"@);
    lemma_find_by_one(value, "output_tokens"@);
    lemma_find_by_one(value, "reasoning_output_tokens"@);
    lemma_find_by_one(value, "total_tokens"@);
}

proof fn lemma_find_by_one(value: JsonView, key: Seq<char>)
    ensures
        value.find(seq![key]) == value.get(key),
{
    reveal_with_fuel(JsonView::find, 2);
    assert(seq![key].skip(1) =~= Seq::<Seq<char>>::empty());
}

/// Whether a row tells counts of tokens, each in the column of its kind.
pub open spec fn tells_counts(row: SourceJsonlRecordView, value: JsonView) -> bool {
    &&& row.input_tokens is Some && row.input_tokens->0 == count_in(value.get("input_tokens"@))
    &&& row.cache_read_tokens is Some && row.cache_read_tokens->0 == count_in(
        either_member(value, "cached_input_tokens"@, "cache_read_input_tokens"@),
    )
    &&& row.cache_write_tokens is Some && row.cache_write_tokens->0 == count_in(
        either_member(value, "cache_write_input_tokens"@, "cache_creation_input_tokens"@),
    )
    &&& row.output_tokens is Some && row.output_tokens->0 == count_in(value.get("output_tokens"@))
    &&& row.reasoning_tokens is Some && row.reasoning_tokens->0 == count_in(
        value.get("reasoning_output_tokens"@),
    )
    &&& row.total_tokens is Some && row.total_tokens->0 == count_in(value.get("total_tokens"@))
}

proof fn lemma_kinds_of_lines()
    ensures
        "event_msg"@ != "session_meta"@,
        "token_count"@ != "thread_settings_applied"@,
        "token_count"@ != "session_meta"@,
        "thread_settings"@ != "session_meta"@,
        "thread_settings"@ != "token_count"@,
{
    reveal_strlit("event_msg");
    reveal_strlit("session_meta");
    reveal_strlit("token_count");
    reveal_strlit("thread_settings");
    reveal_strlit("thread_settings_applied");
    assert("event_msg"@.len() == 9 && "session_meta"@.len() == 12 && "token_count"@.len() == 11
        && "thread_settings"@.len() == 15 && "thread_settings_applied"@.len() == 23);
}

/// A line that counts the tokens of a request is stored as usage at its instant, each count in the
/// column of its kind, with the session, the model, the tier and the provider that the lines before
/// it named and the plan that its limits name, else that of the lines before.
pub proof fn lemma_count_is_stored_by_kind(
    bytes: Seq<u8>,
    line: JsonView,
    payload: JsonView,
    info: JsonView,
    reported: JsonView,
    context: FileContextView,
    at: i64,
)
    requires
        is_event_of(line, "token_count"@, payload, at),
        payload.get("info"@) == Some(info),
        info.get("last_token_usage"@) == Some(reported),
        integer_in(reported.get("input_tokens"@)) is Some,
    ensures
        event_read(bytes, line, context) is Ok,
        ({
            let read = event_read(bytes, line, context)->Ok_0;
            let limits = if line.get("rate_limits"@) is Some {
                line.get("rate_limits"@)
            } else {
                payload.get("rate_limits"@)
            };
            let plan = match limits {
                Some(limits) => known(
                    text_of(either_member(limits, "plan_type"@, "plan_type_raw"@)),
                    context.plan,
                ),
                None => context.plan,
            };
            let row = row_of_event(read.event->0);
            &&& read.event is Some
            &&& row is Some
            &&& row->0.kind == "usage"@
            &&& row->0.observed_at_ms == at
            &&& tells_counts(row->0, reported)
            &&& row->0.session_id == context.session_id
            &&& row->0.model == context.model
            &&& row->0.service_tier == context.tier
            &&& row->0.provider == context.provider
            &&& row->0.plan_type == plan
            &&& read.context.plan == plan
            &&& read.context.session_id == context.session_id
            &&& read.context.model == context.model
            &&& read.context.tier == context.tier
            &&& read.context.turn_id == context.turn_id
        }),
{
    lemma_kinds_of_lines();
    lemma_counts_are_those_of_their_members(reported);
    if let Some(limits) = line.get("rate_limits"@) {
        lemma_find_by_two(limits, "plan_type"@, "plan_type_raw"@);
    }
    if let Some(limits) = payload.get("rate_limits"@) {
        lemma_find_by_two(limits, "plan_type"@, "plan_type_raw"@);
    }
}

/// The line that opens a session is stored as a session, with its title and its provider, and as a
/// fork where it names where it comes from; the lines that follow are of this session.
pub proof fn lemma_session_is_stored(
    bytes: Seq<u8>,
    line: JsonView,
    payload: JsonView,
    context: FileContextView,
    at: i64,
)
    requires
        is_line_of(line, "session_meta"@, payload, at),
    ensures
        event_read(bytes, line, context) is Ok,
        ({
            let read = event_read(bytes, line, context)->Ok_0;
            let row = row_of_event(read.event->0);
            let id = text_of(either_member(payload, "session_id"@, "id"@));
            let root = text_of(either_member(payload, "forked_from_id"@, "parent_thread_id"@));
            let provider = known(text_of(payload.get("model_provider"@)), context.provider);
            &&& read.event is Some
            &&& row is Some
            &&& row->0.kind == "session"@
            &&& row->0.observed_at_ms == at
            &&& row->0.session_id == id && read.context.session_id == id
            &&& row->0.root_session_id == root && read.context.root_session_id == root
            &&& row->0.relation == Some(
                if root is Some {
                    "fork"@
                } else {
                    "main"@
                },
            )
            &&& row->0.title == text_of(payload.get("title"@))
            &&& row->0.provider == provider && read.context.provider == provider
            &&& row->0.plan_type == context.plan && read.context.plan == context.plan
            &&& row->0.input_tokens is None && row->0.total_tokens is None
            &&& id is Some ==> row->0.source_key == "session:"@ + id->0
        }),
{
    lemma_kinds_of_lines();
    lemma_find_by_two(payload, "session_id"@, "id"@);
    lemma_find_by_two(payload, "forked_from_id"@, "parent_thread_id"@);
}

/// The settings that are applied give the lines that follow their model and their tier, and their
/// provider where they name one; no row is stored of them.
pub proof fn lemma_settings_are_kept(
    bytes: Seq<u8>,
    line: JsonView,
    payload: JsonView,
    settings: JsonView,
    context: FileContextView,
    at: i64,
)
    requires
        is_event_of(line, "thread_settings_applied"@, payload, at),
        payload.get("thread_settings"@) == Some(settings),
    ensures
        event_read(bytes, line, context) is Ok,
        ({
            let read = event_read(bytes, line, context)->Ok_0;
            let tier = match settings.get("service_tier"@) {
                Some(found) => tier_in(found),
                None => None,
            };
            &&& read.context.model == text_of(settings.get("model"@))
            &&& read.context.tier == tier
            &&& read.context.provider == known(
                text_of(settings.get("model_provider_id"@)),
                context.provider,
            )
            &&& read.context.session_id == context.session_id
            &&& read.context.root_session_id == context.root_session_id
            &&& read.context.plan == context.plan
            &&& read.event is Some
            &&& read.event->0.fast == (match tier {
                Some(tier) => Some(tier == "fast"@),
                None => None,
            })
            &&& row_of_event(read.event->0) is None
        }),
{
    lemma_kinds_of_lines();
}

/// Whether a row is of a window of limits.
pub open spec fn is_of_window(
    row: SourceJsonlRecordView,
    limits: JsonView,
    kind: Seq<char>,
    window: JsonView,
    plan: Option<Seq<char>>,
    at: i64,
) -> bool {
    &&& row.kind == "quota"@
    &&& row.observed_at_ms == at
    &&& row.last_seen_at_ms == Some(at)
    &&& row.window_kind == Some(kind)
    &&& row.limit_id == text_of(limits.get("limit_id"@))
    &&& row.window_minutes == integer_in(window.get("window_minutes"@))
    &&& row.resets_at_ms == instant_in(either_member(window, "resets_at_ms"@, "resets_at"@))
    &&& row.plan_type == plan
    &&& window.get("used_percent"@) is Some && window.get("used_percent"@)->0 is Number
        ==> row.used_percent == Some((window.get("used_percent"@)->0->Number_0).float)
    &&& !(window.get("used_percent"@) is Some && window.get("used_percent"@)->0 is Number)
        ==> row.used_percent is None
    &&& row.quality == Some("source="@ + "jsonl"@)
}

/// Limits tell their two windows, each with what it says of itself: the main one first, then the
/// other. A window that says neither its percentage nor its reset is not told.
pub proof fn lemma_quotas_are_those_of_their_windows(
    limits: JsonView,
    context: FileContextView,
    at: i64,
    key: Seq<char>,
)
    requires
        limits is Object,
    ensures
        ({
            let quotas = quotas_in(limits, context, at);
            let plan = known(
                text_of(either_member(limits, "plan_type"@, "plan_type_raw"@)),
                context.plan,
            );
            let main = tells_window(limits, "primary"@);
            let other = tells_window(limits, "secondary"@);
            &&& quotas.len() == (if main {
                1int
            } else {
                0int
            }) + (if other {
                1int
            } else {
                0int
            })
            &&& main ==> is_of_window(
                row_of_quota(key, quotas[0]),
                limits,
                "primary"@,
                limits.get("primary"@)->0,
                plan,
                at,
            )
            &&& other ==> is_of_window(
                row_of_quota(key, quotas.last()),
                limits,
                "secondary"@,
                limits.get("secondary"@)->0,
                plan,
                at,
            )
        }),
{
    lemma_find_by_two(limits, "plan_type"@, "plan_type_raw"@);
    if let Some(window) = limits.get("primary"@) {
        lemma_find_by_two(window, "resets_at_ms"@, "resets_at"@);
    }
    if let Some(window) = limits.get("secondary"@) {
        lemma_find_by_two(window, "resets_at_ms"@, "resets_at"@);
    }
}

/// Whether limits have a window that says its percentage or its reset.
pub open spec fn tells_window(limits: JsonView, kind: Seq<char>) -> bool {
    match limits.get(kind) {
        Some(window) => {
            ||| window.get("used_percent"@) is Some && window.get("used_percent"@)->0 is Number
            ||| instant_in(either_member(window, "resets_at_ms"@, "resets_at"@)) is Some
        },
        None => false,
    }
}

/// A row that is stored again keeps its kind, its session and its tokens, and takes each of the
/// facts that may come later from the row that is seen, where that knows it.
pub proof fn lemma_stored_again_keeps_and_takes(
    stored: SourceJsonlRecordView,
    seen: SourceJsonlRecordView,
)
    ensures
        ({
            let row = stored_again(stored, seen);
            &&& row.source_key == stored.source_key
            &&& row.kind == stored.kind
            &&& row.observed_at_ms == stored.observed_at_ms
            &&& row.session_id == stored.session_id
            &&& row.input_tokens == stored.input_tokens
            &&& row.cache_read_tokens == stored.cache_read_tokens
            &&& row.cache_write_tokens == stored.cache_write_tokens
            &&& row.output_tokens == stored.output_tokens
            &&& row.reasoning_tokens == stored.reasoning_tokens
            &&& row.total_tokens == stored.total_tokens
            &&& row.last_seen_at_ms == known(seen.last_seen_at_ms, stored.last_seen_at_ms)
            &&& row.root_session_id == known(seen.root_session_id, stored.root_session_id)
            &&& row.turn_id == known(seen.turn_id, stored.turn_id)
            &&& row.relation == known(seen.relation, stored.relation)
            &&& row.title == known(seen.title, stored.title)
            &&& row.started_at_ms == known(seen.started_at_ms, stored.started_at_ms)
            &&& row.ended_at_ms == known(seen.ended_at_ms, stored.ended_at_ms)
            &&& row.model == known(seen.model, stored.model)
            &&& row.service_tier == known(seen.service_tier, stored.service_tier)
            &&& row.provider == known(seen.provider, stored.provider)
            &&& row.plan_type == known(seen.plan_type, stored.plan_type)
            &&& row.limit_id == known(seen.limit_id, stored.limit_id)
            &&& row.window_kind == known(seen.window_kind, stored.window_kind)
            &&& row.used_percent == known(seen.used_percent, stored.used_percent)
            &&& row.window_minutes == known(seen.window_minutes, stored.window_minutes)
            &&& row.resets_at_ms == known(seen.resets_at_ms, stored.resets_at_ms)
            &&& row.quality == known(seen.quality, stored.quality)
        }),
{
}

} // verus!
