//! What the facts of a log say of its lines.
use crate::json::{
    either_member, lemma_find_by_three, lemma_find_by_two, whole_number, Float, JsonView,
};
use crate::pipelines::source::jsonl::{
    first_text, line_effect, quota_of_window, quotas_of, spawn_parent, timestamp_of,
    token_counts_of, token_effect, FileContextView, LineEffect,
};
use crate::db::SourceJsonlRecordView;
use crate::pricing::{lemma_normal_form, TokenCounts};
use crate::text::{ascii_lower, trimmed};
use vstd::prelude::*;
use vstd::string::*;

verus! {

/// The larger of a count and zero.
pub open spec fn at_least_zero(n: int) -> int {
    if n > 0 {
        n
    } else {
        0
    }
}

/// Each count of an object is the number of the member that names it: the input, what of it was read
/// from the cache, what was written to the cache, the output, what of it was reasoning, and all. A
/// negative count is none, a part is at most its whole, and a total that is not told is that of
/// input and output. An object in which all of them are zero counts nothing.
pub proof fn lemma_counts_are_those_of_their_members(value: JsonView)
    ensures
        ({
            let input = at_least_zero(
                whole_number(either_member(value, "input_tokens"@, "inputTokens"@)),
            );
            let read = at_least_zero(
                whole_number(
                    if value.get("cached_input_tokens"@) is Some {
                        value.get("cached_input_tokens"@)
                    } else {
                        either_member(value, "cache_read_input_tokens"@, "cacheReadInputTokens"@)
                    },
                ),
            );
            let written = at_least_zero(
                whole_number(
                    if value.get("cache_write_input_tokens"@) is Some {
                        value.get("cache_write_input_tokens"@)
                    } else {
                        either_member(
                            value,
                            "cache_creation_input_tokens"@,
                            "cacheCreationInputTokens"@,
                        )
                    },
                ),
            );
            let output = at_least_zero(
                whole_number(either_member(value, "output_tokens"@, "outputTokens"@)),
            );
            let reasoning = at_least_zero(
                whole_number(
                    either_member(value, "reasoning_output_tokens"@, "reasoningOutputTokens"@),
                ),
            );
            let total = whole_number(either_member(value, "total_tokens"@, "totalTokens"@));
            match token_counts_of(value) {
                Some(counts) => {
                    &&& counts.input == input
                    &&& counts.cached == if read < input {
                        read
                    } else {
                        input
                    }
                    &&& counts.cache_write == written
                    &&& counts.output == output
                    &&& counts.reasoning == if reasoning < output {
                        reasoning
                    } else {
                        output
                    }
                    &&& total > 0 ==> counts.total == total
                    &&& total <= 0 && input + output <= i64::MAX ==> counts.total == input + output
                    &&& input > 0 || written > 0 || output > 0 || total > 0
                },
                None => input == 0 && written == 0 && output == 0 && total <= 0,
            }
        }),
{
    lemma_find_by_two(value, "input_tokens"@, "inputTokens"@);
    lemma_find_by_three(
        value,
        "cached_input_tokens"@,
        "cache_read_input_tokens"@,
        "cacheReadInputTokens"@,
    );
    lemma_find_by_three(
        value,
        "cache_write_input_tokens"@,
        "cache_creation_input_tokens"@,
        "cacheCreationInputTokens"@,
    );
    lemma_find_by_two(value, "output_tokens"@, "outputTokens"@);
    lemma_find_by_two(value, "reasoning_output_tokens"@, "reasoningOutputTokens"@);
    lemma_find_by_two(value, "total_tokens"@, "totalTokens"@);
}

/// What an object tells of reading from the cache counts as read and not as written, and what it
/// tells of writing counts as written and not as read.
pub proof fn lemma_reading_is_not_writing(value: JsonView)
    requires
        value.get("cache_read_input_tokens"@) is None,
        value.get("cacheReadInputTokens"@) is None,
        value.get("cache_creation_input_tokens"@) is None,
        value.get("cacheCreationInputTokens"@) is None,
        0 <= whole_number(value.get("cached_input_tokens"@)) <= whole_number(
            value.get("input_tokens"@),
        ),
        0 <= whole_number(value.get("cache_write_input_tokens"@)),
        whole_number(value.get("input_tokens"@)) > 0,
        value.get("input_tokens"@) is Some,
    ensures
        token_counts_of(value) is Some,
        (token_counts_of(value)->0).cached == whole_number(value.get("cached_input_tokens"@)),
        (token_counts_of(value)->0).cache_write == whole_number(
            value.get("cache_write_input_tokens"@),
        ),
{
    lemma_counts_are_those_of_their_members(value);
}

/// Whether a record tells the counts of tokens of a request, each under its name.
pub open spec fn tells_counts(record: SourceJsonlRecordView, counts: TokenCounts) -> bool {
    &&& record.input_tokens == Some(counts.input)
    &&& record.cache_read_tokens == Some(counts.cached)
    &&& record.cache_write_tokens == Some(counts.cache_write)
    &&& record.output_tokens == Some(counts.output)
    &&& record.reasoning_tokens == Some(counts.reasoning)
    &&& record.total_tokens == Some(counts.total)
}

/// Whether a record is of the session, the turn and the settings of a context.
pub open spec fn is_of_context(record: SourceJsonlRecordView, context: FileContextView) -> bool {
    &&& record.session_id == context.session_id
    &&& record.parent_session_id == context.parent_session_id
    &&& record.root_session_id == context.root_session_id
    &&& record.turn_id == context.turn_id
    &&& record.relation == context.relation
    &&& record.model == context.model
    &&& record.service_tier == context.tier
    &&& record.reasoning_effort == context.reasoning_effort
    &&& record.provider == context.provider
}

/// Whether a line reports tokens: it is an event with a readable time stamp whose payload is a count
/// of tokens.
pub open spec fn reports_tokens(
    line: JsonView,
    payload: JsonView,
    info: JsonView,
    at: i64,
) -> bool {
    &&& timestamp_of(line.get("timestamp"@)) == Ok::<i64, Seq<char>>(at)
    &&& line.get("type"@) == Some(JsonView::Text("event_msg"@))
    &&& line.get("payload"@) == Some(payload)
    &&& payload.get("type"@) == Some(JsonView::Text("token_count"@))
    &&& payload.get("info"@) == Some(info)
}

proof fn lemma_token_line(
    line: JsonView,
    payload: JsonView,
    info: JsonView,
    context: FileContextView,
    at: i64,
)
    requires
        reports_tokens(line, payload, info, at),
    ensures
        line_effect(line, context) == Ok::<LineEffect, Seq<char>>(
            token_effect(line, payload, context, at),
        ),
{
    reveal_strlit("event_msg");
    reveal_strlit("session_meta");
    reveal_strlit("turn_context");
    reveal_strlit("task_started");
    reveal_strlit("task_complete");
    reveal_strlit("task_aborted");
    reveal_strlit("turn_aborted");
    reveal_strlit("thread_settings_applied");
    reveal_strlit("token_count");
    assert("token_count"@[0] != "turn_context"@[0] || "token_count"@.len()
        != "turn_context"@.len());
    assert("event_msg"@.len() != "session_meta"@.len());
    assert("token_count"@.len() != "task_started"@.len());
    assert("token_count"@.len() != "task_complete"@.len());
    assert("token_count"@.len() != "task_aborted"@.len());
    assert("token_count"@.len() != "turn_aborted"@.len());
    assert("token_count"@.len() != "thread_settings_applied"@.len());
}

/// A line that reports the tokens of a request, and no running total, states a usage at the time of
/// the line with these tokens, each kind under its own name, for the session, the turn, the model,
/// the tier and the effort that the lines before it named.
pub proof fn lemma_usage_tells_the_tokens_of_its_line(
    line: JsonView,
    payload: JsonView,
    info: JsonView,
    reported: JsonView,
    context: FileContextView,
    at: i64,
)
    requires
        reports_tokens(line, payload, info, at),
        info.get("last_token_usage"@) == Some(reported),
        info.get("total_token_usage"@) is None,
        token_counts_of(reported) is Some,
        (token_counts_of(reported)->0).input > 0 || (token_counts_of(reported)->0).output > 0,
    ensures
        line_effect(line, context) is Ok,
        ({
            let effect = line_effect(line, context)->Ok_0;
            let usage = effect.records.last();
            &&& effect.records.len() > 0
            &&& usage.kind == "usage"@
            &&& usage.observed_at_ms == at
            &&& tells_counts(usage, token_counts_of(reported)->0)
            &&& is_of_context(usage, context)
            &&& effect.context.previous_cumulative == context.previous_cumulative
        }),
{
    lemma_token_line(line, payload, info, context, at);
    lemma_counts_are_those_of_their_members(reported);
    lemma_normal_form(token_counts_of(reported)->0);
}

/// A line that reports only a running total states a usage with what this total has more than the
/// one before it, kind by kind; the first total of a session counts as a whole.
pub proof fn lemma_running_totals_are_differenced(
    line: JsonView,
    payload: JsonView,
    info: JsonView,
    reported: JsonView,
    context: FileContextView,
    at: i64,
)
    requires
        reports_tokens(line, payload, info, at),
        info.get("last_token_usage"@) is None,
        info.get("total_token_usage"@) == Some(reported),
        token_counts_of(reported) is Some,
    ensures
        line_effect(line, context) is Ok,
        ({
            let now = token_counts_of(reported)->0;
            let effect = line_effect(line, context)->Ok_0;
            let usage = effect.records.last();
            &&& effect.context.previous_cumulative == Some(now)
            &&& match context.previous_cumulative {
                None => now.input > 0 || now.output > 0 ==> effect.records.len() > 0
                    && usage.kind == "usage"@ && tells_counts(usage, now) && is_of_context(
                    usage,
                    context,
                ),
                Some(before) => {
                    let grown = 0 <= before.input <= now.input && 0 <= before.cached <= now.cached
                        && 0 <= before.cache_write <= now.cache_write && 0 <= before.output
                        <= now.output && 0 <= before.reasoning <= now.reasoning && 0
                        <= before.total < now.total && now.cached - before.cached <= now.input
                        - before.input && now.reasoning - before.reasoning <= now.output
                        - before.output && (before.input < now.input || before.output
                        < now.output);
                    grown ==> effect.records.len() > 0 && usage.kind == "usage"@
                        && usage.observed_at_ms == at && is_of_context(usage, context)
                        && tells_counts(
                        usage,
                        TokenCounts {
                            input: (now.input - before.input) as i64,
                            cached: (now.cached - before.cached) as i64,
                            cache_write: (now.cache_write - before.cache_write) as i64,
                            output: (now.output - before.output) as i64,
                            reasoning: (now.reasoning - before.reasoning) as i64,
                            total: (now.total - before.total) as i64,
                        },
                    )
                },
            }
        }),
{
    lemma_token_line(line, payload, info, context, at);
    lemma_counts_are_those_of_their_members(reported);
    lemma_normal_form(token_counts_of(reported)->0);
}

/// The milliseconds that a number gives which counts seconds or milliseconds.
pub open spec fn instant_of(number: int) -> int {
    if -100_000_000_000 < number && number < 100_000_000_000 {
        number * 1_000
    } else {
        number
    }
}

/// The text that a member is.
pub open spec fn text_of(found: Option<JsonView>) -> Option<Seq<char>> {
    match found {
        Some(JsonView::Text(text)) => Some(text),
        _ => None,
    }
}

/// Whether a record is of a window of rate limits: its percentage, its length and when it resets
/// are those that the window tells, and its limit and its plan those that the limits tell.
pub open spec fn is_of_window(
    record: SourceJsonlRecordView,
    limits: JsonView,
    kind: Seq<char>,
    percent: Float,
    context: FileContextView,
    at: i64,
) -> bool {
    let window = limits.get(kind)->0;
    let minutes = either_member(window, "window_minutes"@, "windowMinutes"@);
    let resets = if window.get("resets_at_ms"@) is Some {
        window.get("resets_at_ms"@)
    } else {
        either_member(window, "resetsAt"@, "resets_at"@)
    };
    let plan = text_of(either_member(limits, "plan_type"@, "plan_type_raw"@));
    &&& record.kind == "quota"@
    &&& record.window_kind == Some(kind)
    &&& record.observed_at_ms == at
    &&& record.last_seen_at_ms == Some(at)
    &&& record.used_percent == Some(percent)
    &&& record.window_minutes is Some <==> minutes is Some && minutes->0 is Number
    &&& record.window_minutes is Some ==> record.window_minutes->0 == whole_number(minutes)
    &&& record.resets_at_ms is Some <==> resets is Some && resets->0 is Number
    &&& record.resets_at_ms is Some ==> record.resets_at_ms->0 == instant_of(whole_number(resets))
    &&& record.limit_id == text_of(either_member(limits, "limit_id"@, "limitId"@))
    &&& plan is Some ==> record.plan_type == plan
    &&& plan is None ==> record.plan_type == context.plan
    &&& record.provider == context.provider
}

proof fn lemma_quota_is_of_its_window(
    limits: JsonView,
    kind: Seq<char>,
    window: JsonView,
    context: FileContextView,
    at: i64,
)
    requires
        limits.get(kind) == Some(window),
        either_member(window, "used_percent"@, "usedPercent"@) is Some,
        either_member(window, "used_percent"@, "usedPercent"@)->0 is Number,
    ensures
        quota_of_window(limits, kind, context, at) is Some,
        is_of_window(
            quota_of_window(limits, kind, context, at)->0,
            limits,
            kind,
            (either_member(window, "used_percent"@, "usedPercent"@)->0->Number_0).float,
            context,
            at,
        ),
{
    lemma_find_by_two(window, "used_percent"@, "usedPercent"@);
    lemma_find_by_two(window, "window_minutes"@, "windowMinutes"@);
    lemma_find_by_three(window, "resets_at_ms"@, "resetsAt"@, "resets_at"@);
    lemma_find_by_two(limits, "plan_type"@, "plan_type_raw"@);
    lemma_find_by_two(limits, "limit_id"@, "limitId"@);
}

/// A line that reports the tokens of a request together with rate limits states, for each of the two
/// windows that tells a percentage, a quota with what the window tells. The limits of the line
/// count before those of its payload.
pub proof fn lemma_quotas_tell_the_windows_of_their_line(
    line: JsonView,
    payload: JsonView,
    info: JsonView,
    reported: JsonView,
    limits: JsonView,
    kind: Seq<char>,
    window: JsonView,
    context: FileContextView,
    at: i64,
)
    requires
        reports_tokens(line, payload, info, at),
        info.get("last_token_usage"@) == Some(reported),
        info.get("total_token_usage"@) is None,
        token_counts_of(reported) is Some,
        either_member_of(line, payload, "rate_limits"@) == Some(limits),
        kind == "primary"@ || kind == "secondary"@,
        limits.get(kind) == Some(window),
        either_member(window, "used_percent"@, "usedPercent"@) is Some,
        either_member(window, "used_percent"@, "usedPercent"@)->0 is Number,
    ensures
        line_effect(line, context) is Ok,
        exists|i: int|
            0 <= i < (line_effect(line, context)->Ok_0).records.len() && is_of_window(
                #[trigger] (line_effect(line, context)->Ok_0).records[i],
                limits,
                kind,
                (either_member(window, "used_percent"@, "usedPercent"@)->0->Number_0).float,
                context,
                at,
            ),
        ({
            let plan = text_of(either_member(limits, "plan_type"@, "plan_type_raw"@));
            let after = (line_effect(line, context)->Ok_0).context;
            after.plan == if plan is Some {
                plan
            } else {
                context.plan
            }
        }),
{
    lemma_token_line(line, payload, info, context, at);
    lemma_counts_are_those_of_their_members(reported);
    lemma_normal_form(token_counts_of(reported)->0);
    lemma_find_by_two(limits, "plan_type"@, "plan_type_raw"@);
    let effect = line_effect(line, context)->Ok_0;
    let after = effect.context;
    let percent = (either_member(window, "used_percent"@, "usedPercent"@)->0->Number_0).float;
    lemma_quota_is_of_its_window(limits, kind, window, after, at);
    let quotas = quotas_of(limits, after, at);
    let first = quota_of_window(limits, "primary"@, after, at);
    let i: int = if kind == "primary"@ || first is None {
        0
    } else {
        1
    };
    reveal_strlit("primary");
    reveal_strlit("secondary");
    assert("primary"@.len() != "secondary"@.len());
    assert(quotas[i] == quota_of_window(limits, kind, after, at)->0);
    assert(effect.records[i] == quotas[i]);
    assert(is_of_window(effect.records[i], limits, kind, percent, context, at));
}

/// A member of a line, or else that of its payload.
pub open spec fn either_member_of(line: JsonView, payload: JsonView, key: Seq<char>) -> Option<
    JsonView,
> {
    if line.get(key) is Some {
        line.get(key)
    } else {
        payload.get(key)
    }
}

/// Whether a line is of a kind and has a payload and a readable time stamp.
pub open spec fn is_line_of(
    line: JsonView,
    kind: Seq<char>,
    payload: JsonView,
    at: i64,
) -> bool {
    &&& timestamp_of(line.get("timestamp"@)) == Ok::<i64, Seq<char>>(at)
    &&& line.get("type"@) == Some(JsonView::Text(kind))
    &&& line.get("payload"@) == Some(payload)
}

/// Whether a line wraps an event of a kind.
pub open spec fn is_event_of(
    line: JsonView,
    kind: Seq<char>,
    payload: JsonView,
    at: i64,
) -> bool {
    is_line_of(line, "event_msg"@, payload, at) && payload.get("type"@) == Some(
        JsonView::Text(kind),
    )
}

/// The first of two where it is known, else the second.
pub open spec fn known<T>(first: Option<T>, second: Option<T>) -> Option<T> {
    if first is Some {
        first
    } else {
        second
    }
}

/// The parent that a session names: the one that it was forked from, else its parent thread, else
/// the thread that spawned it; an empty name is none.
pub open spec fn parent_named(payload: JsonView) -> Option<Seq<char>> {
    let spawn = match payload.get("source"@) {
        Some(source) => match source.get("subagent"@) {
            Some(subagent) => match subagent.get("thread_spawn"@) {
                Some(spawn) => spawn.get("parent_thread_id"@),
                None => None,
            },
            None => None,
        },
        None => None,
    };
    let found = text_of(
        known(either_member(payload, "forked_from_id"@, "parent_thread_id"@), spawn),
    );
    if found == Some(Seq::<char>::empty()) {
        None
    } else {
        found
    }
}

/// The line that opens a session states it, with its title, its parent and its provider, and the
/// lines that follow are of this session. A turn and a running total go on only within a session.
pub proof fn lemma_session_line_opens_its_session(
    line: JsonView,
    payload: JsonView,
    context: FileContextView,
    at: i64,
    id: Seq<char>,
)
    requires
        is_line_of(line, "session_meta"@, payload, at),
        text_of(either_member(payload, "id"@, "session_id"@)) == Some(id),
    ensures
        line_effect(line, context) is Ok,
        ({
            let effect = line_effect(line, context)->Ok_0;
            let (after, record) = (effect.context, effect.records[0]);
            let provider = known(text_of(payload.get("model_provider"@)), context.provider);
            &&& effect.records.len() == 1
            &&& record.kind == "session"@
            &&& record.source_key == "session:"@ + id
            &&& record.observed_at_ms == at
            &&& record.session_id == Some(id) && after.session_id == Some(id)
            &&& record.title == text_of(payload.get("title"@))
            &&& record.provider == provider && after.provider == provider
            &&& record.parent_session_id == parent_named(payload)
            &&& after.parent_session_id == parent_named(payload)
            &&& record.root_session_id == parent_named(payload)
            &&& after.root_session_id == parent_named(payload)
            &&& record.relation == after.relation
            &&& text_of(payload.get("forked_from_id"@)) is Some ==> after.relation == Some("fork"@)
            &&& text_of(payload.get("forked_from_id"@)) is None && text_of(
                payload.get("parent_thread_id"@),
            ) is Some ==> after.relation == Some("child"@)
            &&& payload.get("forked_from_id"@) is None && payload.get("parent_thread_id"@) is None
                && payload.get("source"@) is None ==> after.relation == Some("main"@)
            &&& record.plan_type == context.plan && after.plan == context.plan
            &&& record.reasoning_effort == context.reasoning_effort
            &&& after.model == context.model && after.tier == context.tier
            &&& context.session_id == Some(id) ==> after.turn_id == context.turn_id
                && after.previous_cumulative == context.previous_cumulative
                && after.turn_started_at_ms == context.turn_started_at_ms
            &&& context.session_id != Some(id) ==> after.turn_id is None
                && after.previous_cumulative is None && after.turn_started_at_ms is None
        }),
{
    lemma_find_by_two(payload, "id"@, "session_id"@);
    lemma_find_by_two(payload, "forked_from_id"@, "parent_thread_id"@);
    let found = text_of(
        known(either_member(payload, "forked_from_id"@, "parent_thread_id"@), spawn_parent(payload)),
    );
    if found is Some && (found->0).len() == 0 {
        assert(found->0 =~= Seq::<char>::empty());
    }
}

proof fn lemma_kinds_of_events()
    ensures
        "event_msg"@ != "session_meta"@,
        "turn_context"@ != "session_meta"@,
        "turn_context"@ != "event_msg"@,
        "task_started"@ != "turn_context"@,
        "task_complete"@ != "turn_context"@,
        "task_aborted"@ != "turn_context"@,
        "turn_aborted"@ != "turn_context"@,
        "thread_settings_applied"@ != "turn_context"@,
        "thread_settings_applied"@ != "task_started"@,
        "thread_settings_applied"@ != "task_complete"@,
        "thread_settings_applied"@ != "task_aborted"@,
        "thread_settings_applied"@ != "turn_aborted"@,
        "task_complete"@ != "task_started"@,
        "task_aborted"@ != "task_started"@,
        "turn_aborted"@ != "task_started"@,
        "task_complete"@ != "task_aborted"@,
        "task_complete"@ != "turn_aborted"@,
{
    reveal_strlit("event_msg");
    reveal_strlit("session_meta");
    reveal_strlit("turn_context");
    reveal_strlit("task_started");
    reveal_strlit("task_complete");
    reveal_strlit("task_aborted");
    reveal_strlit("turn_aborted");
    reveal_strlit("thread_settings_applied");
    assert("event_msg"@.len() == 9);
    assert("session_meta"@[0] == 's');
    assert("turn_context"@[0] == 't' && "turn_context"@[1] == 'u' && "turn_context"@[5] == 'c');
    assert("task_started"@[1] == 'a' && "task_started"@[5] == 's' && "task_started"@.len() == 12);
    assert("task_complete"@.len() == 13);
    assert("task_aborted"@[1] == 'a' && "task_aborted"@[5] == 'a');
    assert("turn_aborted"@[1] == 'u' && "turn_aborted"@[5] == 'a');
    assert("thread_settings_applied"@.len() == 23);
}

/// Whether a record is of a turn that the lines of a session tell of.
pub open spec fn is_of_turn(
    record: SourceJsonlRecordView,
    id: Seq<char>,
    context: FileContextView,
    at: i64,
) -> bool {
    &&& record.kind == "turn"@
    &&& record.observed_at_ms == at
    &&& record.turn_id == Some(id)
    &&& record.session_id == context.session_id
    &&& record.parent_session_id == context.parent_session_id
    &&& record.root_session_id == context.root_session_id
    &&& record.relation == context.relation
    &&& record.model == context.model
    &&& record.service_tier == context.tier
    &&& record.reasoning_effort == context.reasoning_effort
    &&& record.provider == context.provider
    &&& record.plan_type == context.plan
}

/// The milliseconds that a member gives, where it is a number that counts seconds or milliseconds.
pub open spec fn instant_in(found: Option<JsonView>) -> Option<i64> {
    match found {
        Some(JsonView::Number(number)) => {
            let n = whole_number(Some(JsonView::Number(number)));
            Some(instant_of(n) as i64)
        },
        _ => None,
    }
}

/// The line that starts a turn states it, with the instant at which it says that the turn started,
/// else that of the line, and no end; the lines that follow are of this turn.
pub proof fn lemma_turn_line_starts_its_turn(
    line: JsonView,
    payload: JsonView,
    context: FileContextView,
    at: i64,
    id: Seq<char>,
)
    requires
        is_event_of(line, "task_started"@, payload, at),
        known(text_of(either_member(payload, "turn_id"@, "turnId"@)), context.turn_id) == Some(id),
    ensures
        line_effect(line, context) is Ok,
        ({
            let effect = line_effect(line, context)->Ok_0;
            let (after, record) = (effect.context, effect.records[0]);
            let started = known(
                instant_in(either_member(payload, "started_at"@, "startedAt"@)),
                Some(at),
            );
            &&& effect.records.len() == 1
            &&& is_of_turn(record, id, context, at)
            &&& record.started_at_ms == started
            &&& record.ended_at_ms is None
            &&& record.quality is None
            &&& after.turn_id == Some(id)
            &&& after.turn_started_at_ms == started
            &&& after.session_id == context.session_id
            &&& after.previous_cumulative == context.previous_cumulative
        }),
{
    lemma_kinds_of_events();
    lemma_find_by_two(payload, "turn_id"@, "turnId"@);
    lemma_find_by_two(payload, "started_at"@, "startedAt"@);
}

/// The line that ends a turn states it with its start, where the lines before it told it, else the
/// instant of the line, and with the instant at which it says that the turn ended, else that of the
/// line. A turn that was aborted is marked.
pub proof fn lemma_turn_line_ends_its_turn(
    line: JsonView,
    kind: Seq<char>,
    payload: JsonView,
    context: FileContextView,
    at: i64,
    id: Seq<char>,
)
    requires
        kind == "task_complete"@ || kind == "task_aborted"@ || kind == "turn_aborted"@,
        is_event_of(line, kind, payload, at),
        known(text_of(either_member(payload, "turn_id"@, "turnId"@)), context.turn_id) == Some(id),
    ensures
        line_effect(line, context) is Ok,
        ({
            let effect = line_effect(line, context)->Ok_0;
            let (after, record) = (effect.context, effect.records[0]);
            let ended = if either_member(payload, "completed_at"@, "completedAt"@) is Some {
                either_member(payload, "completed_at"@, "completedAt"@)
            } else {
                either_member(payload, "aborted_at"@, "abortedAt"@)
            };
            let started = if context.turn_id == Some(id) {
                context.turn_started_at_ms
            } else {
                None
            };
            &&& effect.records.len() == 1
            &&& is_of_turn(record, id, context, at)
            &&& record.started_at_ms == known(started, Some(at))
            &&& record.ended_at_ms == known(instant_in(ended), Some(at))
            &&& record.quality == (if kind == "task_complete"@ {
                None
            } else {
                Some("aborted"@)
            })
            &&& after.turn_id == Some(id)
            &&& after.turn_started_at_ms == started
            &&& after.session_id == context.session_id
        }),
{
    lemma_kinds_of_events();
    lemma_find_by_two(payload, "turn_id"@, "turnId"@);
    lemma_find_by_four(payload, "completed_at"@, "completedAt"@, "aborted_at"@, "abortedAt"@);
}

proof fn lemma_find_by_four(
    value: JsonView,
    first: Seq<char>,
    second: Seq<char>,
    third: Seq<char>,
    fourth: Seq<char>,
)
    ensures
        value.find(seq![first, second, third, fourth]) == if either_member(
            value,
            first,
            second,
        ) is Some {
            either_member(value, first, second)
        } else {
            either_member(value, third, fourth)
        },
{
    let keys = seq![first, second, third, fourth];
    assert(keys.skip(1) =~= seq![second, third, fourth]);
    lemma_find_by_three(value, second, third, fourth);
    reveal_with_fuel(JsonView::find, 2);
}

/// The tier that a member names: `standard` for standard and default, `fast` for fast and priority,
/// in letters of either case; none for anything else.
pub open spec fn tier_in(found: JsonView) -> Option<Seq<char>> {
    match found {
        JsonView::Text(name) => if ascii_lower(name) == "standard"@ || ascii_lower(name)
            == "default"@ {
            Some("standard"@)
        } else if ascii_lower(name) == "fast"@ || ascii_lower(name) == "priority"@ {
            Some("fast"@)
        } else {
            None
        },
        _ => None,
    }
}

/// The settings of a thread that are applied give the lines that follow the model, the provider and
/// the tier that they name, and leave what they do not name; they state nothing and leave the
/// session, the turn and the plan.
pub proof fn lemma_settings_line_sets_what_it_names(
    line: JsonView,
    payload: JsonView,
    settings: JsonView,
    context: FileContextView,
    at: i64,
)
    requires
        is_event_of(line, "thread_settings_applied"@, payload, at),
        payload.get("thread_settings"@) == Some(settings),
    ensures
        line_effect(line, context) is Ok,
        ({
            let effect = line_effect(line, context)->Ok_0;
            let after = effect.context;
            &&& effect.records.len() == 0
            &&& after.model == known(text_of(settings.get("model"@)), context.model)
            &&& after.provider == known(
                text_of(settings.get("model_provider_id"@)),
                context.provider,
            )
            &&& after.tier == (if settings.get("service_tier"@) is Some {
                tier_in(settings.get("service_tier"@)->0)
            } else {
                context.tier
            })
            &&& after.session_id == context.session_id
            &&& after.parent_session_id == context.parent_session_id
            &&& after.root_session_id == context.root_session_id
            &&& after.relation == context.relation
            &&& after.turn_id == context.turn_id
            &&& after.turn_started_at_ms == context.turn_started_at_ms
            &&& after.plan == context.plan
            &&& after.previous_cumulative == context.previous_cumulative
        }),
{
    lemma_kinds_of_events();
}

/// The context of a turn gives the lines that follow its turn, and the model, the effort and the
/// tier that it names; it states nothing and leaves the session, the provider and the plan.
pub proof fn lemma_turn_context_sets_what_it_names(
    line: JsonView,
    payload: JsonView,
    context: FileContextView,
    at: i64,
)
    requires
        is_line_of(line, "turn_context"@, payload, at),
    ensures
        line_effect(line, context) is Ok,
        ({
            let effect = line_effect(line, context)->Ok_0;
            let after = effect.context;
            &&& effect.records.len() == 0
            &&& after.turn_id == text_of(either_member(payload, "turn_id"@, "turnId"@))
            &&& text_of(payload.get("model"@)) is None ==> after.model == context.model
            &&& text_of(payload.get("model"@)) is Some && trimmed(
                text_of(payload.get("model"@))->0,
            ).len() > 0 ==> after.model == Some(trimmed(text_of(payload.get("model"@))->0))
            &&& text_of(payload.get("reasoning_effort"@)) is Some && trimmed(
                text_of(payload.get("reasoning_effort"@))->0,
            ).len() > 0 ==> after.reasoning_effort == Some(
                trimmed(text_of(payload.get("reasoning_effort"@))->0),
            )
            &&& after.tier == (match either_member(payload, "service_tier"@, "serviceTier"@) {
                Some(found) => tier_in(found),
                None => context.tier,
            })
            &&& after.session_id == context.session_id
            &&& after.parent_session_id == context.parent_session_id
            &&& after.root_session_id == context.root_session_id
            &&& after.relation == context.relation
            &&& after.provider == context.provider
            &&& after.plan == context.plan
            &&& after.previous_cumulative == context.previous_cumulative
            &&& after.turn_started_at_ms == context.turn_started_at_ms
        }),
{
    lemma_kinds_of_events();
    lemma_find_by_two(payload, "turn_id"@, "turnId"@);
    lemma_find_by_two(payload, "service_tier"@, "serviceTier"@);
    reveal_with_fuel(first_text, 2);
    assert(seq!["model"@].skip(1) =~= Seq::<Seq<char>>::empty());
    let keys = seq!["reasoning_effort"@, "reasoningEffort"@, "effort"@];
    assert(keys[0] == "reasoning_effort"@);
}

/// A line without a readable time stamp has no effect, and a line of any other kind leaves all as it
/// was.
pub proof fn lemma_other_lines_change_nothing(
    line: JsonView,
    context: FileContextView,
    at: i64,
    kind: Seq<char>,
)
    requires
        timestamp_of(line.get("timestamp"@)) == Ok::<i64, Seq<char>>(at),
        line.get("type"@) == Some(JsonView::Text(kind)),
        kind != "session_meta"@ && kind != "turn_context"@ && kind != "task_started"@ && kind
            != "task_complete"@ && kind != "task_aborted"@ && kind != "turn_aborted"@ && kind
            != "thread_settings_applied"@ && kind != "token_count"@ && kind != "event_msg"@,
    ensures
        line_effect(line, context) is Ok,
        (line_effect(line, context)->Ok_0).context == context,
        (line_effect(line, context)->Ok_0).records.len() == 0,
{
}

} // verus!
