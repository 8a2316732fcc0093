//! What the rows of a run say of what the run printed.
use crate::db::SourceCcusageRecordView;
use crate::json::{either_member, lemma_find_by_three, lemma_find_by_two, JsonView};
use crate::pipelines::source::ccusage::{records_of_run, CommandResultView};
use crate::pipelines::source::jsonl::laws::text_of;
use vstd::prelude::*;
use vstd::string::*;

verus! {

/// The integer that a member is, cut where it is none of 64 bits.
pub open spec fn integer_of(found: Option<JsonView>) -> Option<i64> {
    match found {
        Some(JsonView::Number(number)) => if number.integer is Some {
            number.integer
        } else {
            Some(number.truncated)
        },
        _ => None,
    }
}

/// Whether a record tells a row that a run printed: each count is that of the member which names it,
/// and its amount is the cost.
pub open spec fn tells_row(record: SourceCcusageRecordView, row: JsonView) -> bool {
    &&& record.input_tokens == integer_of(either_member(row, "inputTokens"@, "input_tokens"@))
    &&& record.cache_read_tokens == integer_of(
        either_member(row, "cacheReadTokens"@, "cache_read_tokens"@),
    )
    &&& record.cache_write_tokens == integer_of(
        if row.get("cacheCreationTokens"@) is Some {
            row.get("cacheCreationTokens"@)
        } else {
            either_member(row, "cacheWriteTokens"@, "cache_write_tokens"@)
        },
    )
    &&& record.output_tokens == integer_of(either_member(row, "outputTokens"@, "output_tokens"@))
    &&& record.reasoning_tokens == integer_of(
        either_member(row, "reasoningOutputTokens"@, "reasoning_tokens"@),
    )
    &&& record.total_tokens == integer_of(either_member(row, "totalTokens"@, "total_tokens"@))
    &&& record.amount == (match either_member(row, "costUSD"@, "amount"@) {
        Some(JsonView::Number(number)) => Some(number.float),
        _ => None,
    })
}

/// Whether a record is of a run.
pub open spec fn is_of_run(record: SourceCcusageRecordView, result: CommandResultView) -> bool {
    &&& record.run_at_ms == result.finished_at_ms
    &&& record.range_start_ms == result.started_at_ms
    &&& record.range_end_ms == result.finished_at_ms
    &&& record.scope == result.scope
    &&& record.pricing_scheme == result.pricing
    &&& record.speed == result.speed
    &&& record.ccusage_version == result.version
    &&& record.status == result.status
}

proof fn lemma_row_is_told(row: JsonView)
    ensures
        row.find(seq!["inputTokens"@, "input_tokens"@]) == either_member(
            row,
            "inputTokens"@,
            "input_tokens"@,
        ),
        row.find(seq!["cacheReadTokens"@, "cache_read_tokens"@]) == either_member(
            row,
            "cacheReadTokens"@,
            "cache_read_tokens"@,
        ),
        row.find(seq!["outputTokens"@, "output_tokens"@]) == either_member(
            row,
            "outputTokens"@,
            "output_tokens"@,
        ),
        row.find(seq!["reasoningOutputTokens"@, "reasoning_tokens"@]) == either_member(
            row,
            "reasoningOutputTokens"@,
            "reasoning_tokens"@,
        ),
        row.find(seq!["totalTokens"@, "total_tokens"@]) == either_member(
            row,
            "totalTokens"@,
            "total_tokens"@,
        ),
        row.find(seq!["costUSD"@, "amount"@]) == either_member(row, "costUSD"@, "amount"@),
        row.find(seq!["sessionId"@, "session_id"@]) == either_member(
            row,
            "sessionId"@,
            "session_id"@,
        ),
        row.find(seq!["cacheCreationTokens"@, "cacheWriteTokens"@, "cache_write_tokens"@]) == if row.get(
            "cacheCreationTokens"@,
        ) is Some {
            row.get("cacheCreationTokens"@)
        } else {
            either_member(row, "cacheWriteTokens"@, "cache_write_tokens"@)
        },
{
    lemma_find_by_two(row, "inputTokens"@, "input_tokens"@);
    lemma_find_by_two(row, "cacheReadTokens"@, "cache_read_tokens"@);
    lemma_find_by_two(row, "outputTokens"@, "output_tokens"@);
    lemma_find_by_two(row, "reasoningOutputTokens"@, "reasoning_tokens"@);
    lemma_find_by_two(row, "totalTokens"@, "total_tokens"@);
    lemma_find_by_two(row, "costUSD"@, "amount"@);
    lemma_find_by_two(row, "sessionId"@, "session_id"@);
    lemma_find_by_three(row, "cacheCreationTokens"@, "cacheWriteTokens"@, "cache_write_tokens"@);
}

/// The text that a member is, else `unknown`.
pub open spec fn name_in(found: Option<JsonView>) -> Seq<char> {
    match text_of(found) {
        Some(name) => name,
        None => "unknown"@,
    }
}

/// A run by day is told day by day: one record for each, under its date, with its own counts.
pub proof fn lemma_days_of_a_run_are_told(
    result: CommandResultView,
    data: JsonView,
    rows: Seq<JsonView>,
    i: int,
)
    requires
        result.scope == "daily"@,
        data.get("daily"@) == Some(JsonView::Array(rows)),
        0 <= i < rows.len(),
    ensures
        records_of_run(result, data).len() == rows.len(),
        is_of_run(records_of_run(result, data)[i], result),
        tells_row(records_of_run(result, data)[i], rows[i]),
        records_of_run(result, data)[i].scope_key == name_in(rows[i].get("date"@)),
{
    lemma_row_is_told(rows[i]);
}

/// A run by session is told session by session: one record for each, under its identity, with its
/// own counts.
pub proof fn lemma_sessions_of_a_run_are_told(
    result: CommandResultView,
    data: JsonView,
    rows: Seq<JsonView>,
    i: int,
)
    requires
        result.scope == "session"@,
        data.get("sessions"@) == Some(JsonView::Array(rows)),
        0 <= i < rows.len(),
    ensures
        records_of_run(result, data).len() == rows.len(),
        is_of_run(records_of_run(result, data)[i], result),
        tells_row(records_of_run(result, data)[i], rows[i]),
        records_of_run(result, data)[i].scope_key == name_in(
            either_member(rows[i], "sessionId"@, "session_id"@),
        ),
{
    reveal_strlit("daily");
    reveal_strlit("session");
    assert("daily"@.len() != "session"@.len());
    lemma_row_is_told(rows[i]);
}

/// A run that printed no row is told by one record, which counts nothing.
pub proof fn lemma_empty_run_is_told(result: CommandResultView, data: JsonView)
    requires
        data is Null,
    ensures
        records_of_run(result, data).len() == 1,
        is_of_run(records_of_run(result, data)[0], result),
        records_of_run(result, data)[0].scope_key == "__run__"@,
        records_of_run(result, data)[0].input_tokens is None,
        records_of_run(result, data)[0].total_tokens is None,
        records_of_run(result, data)[0].amount is None,
{
    lemma_row_is_told(JsonView::Null);
}

} // verus!
