//! What the events and the days of session logs say of their lines.
use crate::collectors::jsonl::events::{
    counts_of, instant_in, limits_of, line_read, window_member, CursorContextView, JsonlEventView,
    JsonlRateLimitWindowView, JsonlTokenCountEventView,
};
use crate::collectors::jsonl::rollups::{
    added_counts, date_in, day_so_far, days_of, rollups_of, DayView, TokenRowView,
};
use crate::collectors::jsonl::cursor::JsonlCollectorErrorView;
use crate::domain::models::TokenCounts;
use crate::json::{first_text, JsonView};
use crate::ordered::{
    keys_increase, lemma_entry_is_found, lemma_has, lemma_keys_differ, lemma_put_in_order,
    lemma_put_lookup, lookup,
};
use crate::pipelines::source::jsonl::laws::{known, text_of};
use crate::text::{ascii_lower, integer_of};
use vstd::prelude::*;
use vstd::string::*;

verus! {

/// The integer that a member is, as a number or in writing.
pub open spec fn integer_in(found: Option<JsonView>) -> Option<i64> {
    match found {
        Some(JsonView::Number(number)) => number.integer,
        Some(JsonView::Text(text)) => integer_of(text),
        _ => None,
    }
}

/// The count that a member is; one that is negative or none is not told.
pub open spec fn is_count(found: Option<JsonView>) -> bool {
    integer_in(found) is Some && integer_in(found)->0 >= 0
}

/// The count that a member is; one that is not told is zero.
pub open spec fn count_in(found: Option<JsonView>) -> int {
    if is_count(found) {
        integer_in(found)->0 as int
    } else {
        0
    }
}

/// Whether counts are those of an object, each that of the member which names it.
pub open spec fn are_counts_of(counts: TokenCounts, value: JsonView) -> bool {
    &&& counts.input_tokens == count_in(value.get("input_tokens"@))
    &&& counts.cached_input_tokens == count_in(value.get("cached_input_tokens"@))
    &&& counts.cache_write_input_tokens == count_in(value.get("cache_write_input_tokens"@))
    &&& counts.output_tokens == count_in(value.get("output_tokens"@))
    &&& counts.reasoning_output_tokens == count_in(value.get("reasoning_output_tokens"@))
    &&& counts.total_tokens == count_in(value.get("total_tokens"@))
}

/// Whether an object counts anything.
pub open spec fn counts_something(value: JsonView) -> bool {
    is_count(value.get("input_tokens"@)) || is_count(value.get("cached_input_tokens"@))
        || is_count(value.get("cache_write_input_tokens"@)) || is_count(
        value.get("output_tokens"@),
    ) || is_count(value.get("reasoning_output_tokens"@)) || is_count(value.get("total_tokens"@))
}

/// Each count of an object is that of the member which names it; an object that has none of these
/// members counts nothing.
pub proof fn lemma_counts_are_those_of_their_members(value: JsonView)
    ensures
        counts_of(value) is Some <==> counts_something(value),
        counts_of(value) is Some ==> are_counts_of(counts_of(value)->0, value),
{
}

/// Whether a line wraps an event at an instant.
pub open spec fn is_event_of(
    record: JsonView,
    kind: Seq<char>,
    payload: JsonView,
    at: i64,
) -> bool {
    &&& record.get("type"@) == Some(JsonView::Text("event_msg"@))
    &&& record.get("payload"@) == Some(payload)
    &&& payload is Object
    &&& payload.get("type"@) == Some(JsonView::Text(kind))
    &&& instant_in(record) == Some(at)
}

/// Whether a window of limits is read: its percentage, its minutes and its reset are those of the
/// members which name them; a reset in seconds is told in milliseconds.
pub open spec fn is_window_of(window: JsonlRateLimitWindowView, value: JsonView) -> bool {
    let reset = integer_in(value.get("resets_at"@));
    &&& window.window_minutes == integer_in(value.get("window_minutes"@))
    &&& reset is None ==> window.resets_at_ms is None
    &&& reset is Some && -1_000_000_000_000 < reset->0 && reset->0 < 1_000_000_000_000
        ==> window.resets_at_ms is Some && window.resets_at_ms->0 == reset->0 * 1_000
    &&& reset is Some && (reset->0 <= -1_000_000_000_000 || 1_000_000_000_000 <= reset->0)
        ==> window.resets_at_ms == reset
    &&& match value.get("used_percent"@) {
        Some(JsonView::Number(number)) => window.used_percent is Some && (
        window.used_percent->0).value == number.float,
        _ => window.used_percent is None,
    }
}

proof fn lemma_kinds_of_lines()
    ensures
        "event_msg"@ != "session_meta"@,
        "token_count"@ != "thread_settings_applied"@,
{
    reveal_strlit("event_msg");
    reveal_strlit("session_meta");
    reveal_strlit("token_count");
    reveal_strlit("thread_settings_applied");
    assert("event_msg"@.len() == 9 && "session_meta"@.len() == 12 && "token_count"@.len() == 11
        && "thread_settings_applied"@.len() == 23);
}

/// The event of a line that counts tokens.
pub open spec fn count_event_of(record: JsonView, context: CursorContextView) -> Option<
    JsonlTokenCountEventView,
> {
    match line_read(record, context) {
        Ok(read) => match read.event {
            Some(JsonlEventView::TokenCount(event)) => Some(event),
            _ => None,
        },
        Err(_) => None,
    }
}

/// A line that counts the tokens of a request states them, each kind under its name: those of the
/// request, and the running totals. The context stays as it was.
pub proof fn lemma_count_line_tells_its_tokens(
    record: JsonView,
    payload: JsonView,
    info: JsonView,
    last: JsonView,
    context: CursorContextView,
    at: i64,
)
    requires
        is_event_of(record, "token_count"@, payload, at),
        payload.get("info"@) == Some(info),
        info is Object,
        info.get("last_token_usage"@) == Some(last),
        counts_something(last),
    ensures
        line_read(record, context) is Ok,
        (line_read(record, context)->Ok_0).context == context,
        count_event_of(record, context) is Some,
        ({
            let event = count_event_of(record, context)->0;
            &&& event.observed_at_ms == at
            &&& event.last_token_usage is Some && are_counts_of(event.last_token_usage->0, last)
            &&& match info.get("total_token_usage"@) {
                Some(total) => {
                    &&& event.total_token_usage is Some <==> counts_something(total)
                    &&& event.total_token_usage is Some ==> are_counts_of(
                        event.total_token_usage->0,
                        total,
                    )
                },
                None => event.total_token_usage is None,
            }
            &&& event.model_context_window == integer_in(info.get("model_context_window"@))
            &&& event.model == known(
                text_of(payload.get("model"@)),
                known(text_of(info.get("model"@)), context.last_model),
            )
            &&& event.model_provider == known(
                text_of(payload.get("model_provider"@)),
                context.model_provider,
            )
            &&& payload.get("session_id"@) is None && payload.get("thread_id"@) is None
                && payload.get("threadId"@) is None ==> event.session_id == (if context.session_id
                is Some {
                context.session_id->0
            } else {
                "unknown-session"@
            })
            &&& text_of(payload.get("session_id"@)) is Some ==> event.session_id == text_of(
                payload.get("session_id"@),
            )->0
            &&& text_of(payload.get("service_tier"@)) is None ==> event.service_tier == (
            if context.last_service_tier is Some {
                context.last_service_tier->0
            } else {
                "unknown"@
            })
        }),
{
    lemma_kinds_of_lines();
    lemma_counts_are_those_of_their_members(last);
    if let Some(total) = info.get("total_token_usage"@) {
        lemma_counts_are_those_of_their_members(total);
    }
    let keys = seq!["session_id"@, "thread_id"@, "threadId"@];
    assert(keys.skip(1) =~= seq!["thread_id"@, "threadId"@]);
    assert(seq!["thread_id"@, "threadId"@].skip(1) =~= seq!["threadId"@]);
    assert(seq!["threadId"@].skip(1) =~= Seq::<Seq<char>>::empty());
    reveal_with_fuel(first_text, 4);
}

/// The limits of a line that counts tokens are those of its two windows, each under its own name.
pub proof fn lemma_count_line_tells_its_windows(
    record: JsonView,
    payload: JsonView,
    info: JsonView,
    last: JsonView,
    limits: JsonView,
    primary: JsonView,
    secondary: JsonView,
    context: CursorContextView,
    at: i64,
)
    requires
        is_event_of(record, "token_count"@, payload, at),
        payload.get("info"@) == Some(info),
        info is Object,
        info.get("last_token_usage"@) == Some(last),
        counts_something(last),
        payload.get("rate_limits"@) == Some(limits),
        limits is Object,
        limits.get("primary"@) == Some(primary),
        primary is Object,
        limits.get("secondary"@) == Some(secondary),
        secondary is Object,
    ensures
        count_event_of(record, context) is Some,
        ({
            let told = (count_event_of(record, context)->0).rate_limits;
            &&& told is Some
            &&& is_window_of((told->0).primary, primary)
            &&& is_window_of((told->0).secondary, secondary)
            &&& (told->0).plan_type_raw == text_of(limits.get("plan_type"@))
            &&& text_of(limits.get("limit_id"@)) is Some ==> (told->0).limit_id == text_of(
                limits.get("limit_id"@),
            )->0
            &&& text_of(limits.get("limit_name"@)) is Some ==> (told->0).limit_name == text_of(
                limits.get("limit_name"@),
            )
        }),
{
    lemma_kinds_of_lines();
    lemma_counts_are_those_of_their_members(last);
    lemma_limits_are_read(limits, primary, secondary);
    assert((count_event_of(record, context)->0).rate_limits == Some(limits_of(limits)));
}

proof fn lemma_window_is_read(limits: JsonView, kind: Seq<char>, window: JsonView)
    requires
        limits.get(kind) == Some(window),
        window is Object,
    ensures
        is_window_of(window_member(limits, kind), window),
{
}

proof fn lemma_limits_are_read(limits: JsonView, primary: JsonView, secondary: JsonView)
    requires
        limits.get("primary"@) == Some(primary),
        primary is Object,
        limits.get("secondary"@) == Some(secondary),
        secondary is Object,
    ensures
        is_window_of(limits_of(limits).primary, primary),
        is_window_of(limits_of(limits).secondary, secondary),
        limits_of(limits).plan_type_raw == text_of(limits.get("plan_type"@)),
        text_of(limits.get("limit_id"@)) is Some ==> limits_of(limits).limit_id == text_of(
            limits.get("limit_id"@),
        )->0,
        text_of(limits.get("limit_name"@)) is Some ==> limits_of(limits).limit_name == text_of(
            limits.get("limit_name"@),
        ),
{
    lemma_window_is_read(limits, "primary"@, primary);
    lemma_window_is_read(limits, "secondary"@, secondary);
    let ids = seq!["limit_id"@, "id"@];
    let names = seq!["limit_name"@, "name"@];
    assert(ids[0] == "limit_id"@ && names[0] == "limit_name"@);
    reveal_with_fuel(first_text, 2);
}

/// The line that opens a session states it with what it says of itself, and the lines that follow
/// are of this session.
pub proof fn lemma_session_line_opens_its_session(
    record: JsonView,
    payload: JsonView,
    context: CursorContextView,
    at: i64,
    id: Seq<char>,
)
    requires
        record.get("type"@) == Some(JsonView::Text("session_meta"@)),
        record.get("payload"@) == Some(payload),
        payload is Object,
        instant_in(record) == Some(at),
        text_of(payload.get("session_id"@)) == Some(id),
    ensures
        line_read(record, context) is Ok,
        ({
            let read = line_read(record, context)->Ok_0;
            &&& read.context.session_id == Some(id)
            &&& read.context.session_started_at_ms == Some(at)
            &&& read.context.cli_version == text_of(payload.get("cli_version"@))
            &&& read.context.model_provider == text_of(payload.get("model_provider"@))
            &&& read.context.thread_source == text_of(payload.get("thread_source"@))
            &&& read.context.last_model == context.last_model
            &&& read.context.last_service_tier == context.last_service_tier
            &&& read.event matches Some(JsonlEventView::SessionMeta(event)) && event.session_id == id
                && event.observed_at_ms == at && event.cli_version == text_of(
                payload.get("cli_version"@),
            ) && event.model_provider == text_of(payload.get("model_provider"@))
                && event.thread_source == text_of(payload.get("thread_source"@))
        }),
{
    let keys = seq!["session_id"@, "id"@];
    assert(keys[0] == "session_id"@);
    reveal_with_fuel(first_text, 2);
}

/// The settings that are applied give the lines that follow their model, their provider and their
/// tier: `fast` for fast and priority, `standard` for standard and default, else `unknown`.
pub proof fn lemma_settings_line_sets_what_it_names(
    record: JsonView,
    payload: JsonView,
    settings: JsonView,
    context: CursorContextView,
    at: i64,
)
    requires
        is_event_of(record, "thread_settings_applied"@, payload, at),
        payload.get("thread_settings"@) == Some(settings),
        settings is Object,
    ensures
        line_read(record, context) is Ok,
        ({
            let read = line_read(record, context)->Ok_0;
            let named = text_of(settings.get("service_tier"@));
            let tier = match named {
                Some(name) => if ascii_lower(name) == "fast"@ || ascii_lower(name) == "priority"@ {
                    "fast"@
                } else if ascii_lower(name) == "standard"@ || ascii_lower(name) == "default"@ {
                    "standard"@
                } else {
                    "unknown"@
                },
                None => "unknown"@,
            };
            &&& read.context.last_model == text_of(settings.get("model"@))
            &&& read.context.last_service_tier == Some(tier)
            &&& text_of(settings.get("model_provider_id"@)) is Some
                ==> read.context.last_model_provider_id == text_of(
                settings.get("model_provider_id"@),
            )
            &&& context.model_provider is Some ==> read.context.model_provider
                == context.model_provider
            &&& read.context.session_id == context.session_id
            &&& read.event matches Some(JsonlEventView::ThreadSettings(event))
                && event.observed_at_ms == at && event.model == text_of(settings.get("model"@))
                && event.service_tier == tier && event.model_provider_id
                == read.context.last_model_provider_id
        }),
{
    lemma_kinds_of_lines();
    let keys = seq!["model_provider_id"@, "provider"@];
    assert(keys[0] == "model_provider_id"@);
    reveal_with_fuel(first_text, 2);
}

/// Whether a row is of a date.
pub open spec fn is_of_date(row: TokenRowView, timezone: Seq<char>, date: Seq<char>) -> bool {
    date_in(row.observed_at_ms, timezone) == Ok::<Seq<char>, JsonlCollectorErrorView>(date)
}

/// A count over the rows of a date.
pub open spec fn sum_on(
    rows: Seq<TokenRowView>,
    timezone: Seq<char>,
    date: Seq<char>,
    count: spec_fn(TokenCounts) -> int,
) -> int
    decreases rows.len(),
{
    if rows.len() == 0 {
        0
    } else {
        sum_on(rows.drop_last(), timezone, date, count) + (if is_of_date(
            rows.last(),
            timezone,
            date,
        ) {
            count(rows.last().tokens)
        } else {
            0
        })
    }
}

/// Whether counts are the sums over the rows of a date, each of its own kind.
pub open spec fn are_sums_on(
    tokens: TokenCounts,
    rows: Seq<TokenRowView>,
    timezone: Seq<char>,
    date: Seq<char>,
) -> bool {
    &&& tokens.input_tokens == sum_on(rows, timezone, date, |t: TokenCounts| t.input_tokens as int)
    &&& tokens.cached_input_tokens == sum_on(
        rows,
        timezone,
        date,
        |t: TokenCounts| t.cached_input_tokens as int,
    )
    &&& tokens.cache_write_input_tokens == sum_on(
        rows,
        timezone,
        date,
        |t: TokenCounts| t.cache_write_input_tokens as int,
    )
    &&& tokens.output_tokens == sum_on(
        rows,
        timezone,
        date,
        |t: TokenCounts| t.output_tokens as int,
    )
    &&& tokens.reasoning_output_tokens == sum_on(
        rows,
        timezone,
        date,
        |t: TokenCounts| t.reasoning_output_tokens as int,
    )
    &&& tokens.total_tokens == sum_on(rows, timezone, date, |t: TokenCounts| t.total_tokens as int)
}

proof fn lemma_day_adds_up(rows: Seq<TokenRowView>, timezone: Seq<char>, date: Seq<char>)
    requires
        days_of(rows, timezone) is Ok,
    ensures
        keys_increase::<String, DayView>(days_of(rows, timezone)->Ok_0),
        are_sums_on(
            day_so_far(days_of(rows, timezone)->Ok_0, date).tokens,
            rows,
            timezone,
            date,
        ),
        lookup::<String, DayView>(days_of(rows, timezone)->Ok_0, date) is Some <==> exists|i: int|
            0 <= i < rows.len() && is_of_date(#[trigger] rows[i], timezone, date),
    decreases rows.len(),
{
    if rows.len() > 0 {
        let (shorter, row) = (rows.drop_last(), rows.last());
        lemma_day_adds_up(shorter, timezone, date);
        let before = days_of(shorter, timezone)->Ok_0;
        let own = date_in(row.observed_at_ms, timezone)->Ok_0;
        let held = day_so_far(before, own);
        let after = DayView {
            tokens: added_counts(held.tokens, row.tokens)->0,
            digests: held.digests.push(row.source_digest),
        };
        lemma_put_in_order::<String, DayView>(before, own, after);
        lemma_put_lookup::<String, DayView>(before, own, after, date);
        assert(rows[rows.len() - 1] == row);
        if exists|i: int| 0 <= i < shorter.len() && is_of_date(#[trigger] shorter[i], timezone, date) {
            let i = choose|i: int|
                0 <= i < shorter.len() && is_of_date(#[trigger] shorter[i], timezone, date);
            assert(rows[i] == shorter[i]);
        }
        if exists|i: int| 0 <= i < rows.len() && is_of_date(#[trigger] rows[i], timezone, date) {
            let i = choose|i: int|
                0 <= i < rows.len() && is_of_date(#[trigger] rows[i], timezone, date);
            if i < shorter.len() {
                assert(shorter[i] == rows[i]);
            }
        }
    }
}

/// Each day of a machine tells the sums over the rows of its date, each kind of its own; each date
/// has one day, and each row is of a date that has.
pub proof fn lemma_days_tell_their_rows(
    rows: Seq<TokenRowView>,
    machine_id: i64,
    timezone: Seq<char>,
    version: Seq<char>,
)
    requires
        days_of(rows, timezone) is Ok,
    ensures
        ({
            let days = rollups_of(days_of(rows, timezone)->Ok_0, machine_id, timezone, version);
            &&& forall|i: int|
                #![trigger days[i]]
                0 <= i < days.len() ==> are_sums_on(
                    days[i].tokens,
                    rows,
                    timezone,
                    days[i].local_date,
                ) && days[i].machine_id == machine_id && days[i].timezone == timezone
                    && days[i].collector_version == version && days[i].source == "jsonl"@
            &&& forall|i: int, j: int|
                0 <= i < j < days.len() ==> (#[trigger] days[i]).local_date != (
                #[trigger] days[j]).local_date
            &&& forall|k: int|
                #![trigger rows[k]]
                0 <= k < rows.len() ==> exists|i: int|
                    0 <= i < days.len() && is_of_date(
                        rows[k],
                        timezone,
                        (#[trigger] days[i]).local_date,
                    )
        }),
{
    let all = days_of(rows, timezone)->Ok_0;
    let days = rollups_of(all, machine_id, timezone, version);
    lemma_day_adds_up(rows, timezone, Seq::empty());
    assert forall|i: int| #![trigger days[i]] 0 <= i < days.len() implies are_sums_on(
        days[i].tokens,
        rows,
        timezone,
        days[i].local_date,
    ) && days[i].machine_id == machine_id && days[i].timezone == timezone
        && days[i].collector_version == version && days[i].source == "jsonl"@ by {
        lemma_entry_is_found::<String, DayView>(all, i);
        lemma_day_adds_up(rows, timezone, all[i].0);
    }
    assert forall|i: int, j: int| 0 <= i < j < days.len() implies (#[trigger] days[i]).local_date
        != (#[trigger] days[j]).local_date by {
        lemma_keys_differ::<String, DayView>(all, i, j);
    }
    assert forall|k: int| #![trigger rows[k]] 0 <= k < rows.len() implies exists|i: int|
        0 <= i < days.len() && is_of_date(rows[k], timezone, (#[trigger] days[i]).local_date) by {
        lemma_rows_have_dates(rows, timezone, k);
        let date = date_in(rows[k].observed_at_ms, timezone)->Ok_0;
        assert(is_of_date(rows[k], timezone, date));
        lemma_day_adds_up(rows, timezone, date);
        lemma_has::<String, DayView>(all, date);
        let i = choose|i: int| 0 <= i < all.len() && (#[trigger] all[i]).0 == date;
        assert(days[i].local_date == date);
    }
}

proof fn lemma_rows_have_dates(rows: Seq<TokenRowView>, timezone: Seq<char>, k: int)
    requires
        days_of(rows, timezone) is Ok,
        0 <= k < rows.len(),
    ensures
        date_in(rows[k].observed_at_ms, timezone) is Ok,
    decreases rows.len(),
{
    if k < rows.len() - 1 {
        assert(rows.drop_last()[k] == rows[k]);
        lemma_rows_have_dates(rows.drop_last(), timezone, k);
    }
}

} // verus!
