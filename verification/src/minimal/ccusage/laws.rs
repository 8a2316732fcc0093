//! What the rows of a run say of what the run printed.
use crate::db::SourceCcusageRecordView;
use crate::json::JsonView;
use crate::minimal::ccusage::records_of_run;
use crate::pipelines::source::ccusage::laws::{integer_of, is_of_run, name_in};
use crate::pipelines::source::ccusage::CommandResultView;
use vstd::prelude::*;
use vstd::string::*;

verus! {

/// Whether a record tells a row that a run printed: each count is that of the member which names it,
/// and its amount is the cost.
pub open spec fn tells_row(record: SourceCcusageRecordView, row: JsonView) -> bool {
    &&& record.input_tokens == integer_of(row.get("inputTokens"@))
    &&& record.cache_read_tokens == integer_of(row.get("cacheReadTokens"@))
    &&& record.cache_write_tokens == integer_of(row.get("cacheCreationTokens"@))
    &&& record.output_tokens == integer_of(row.get("outputTokens"@))
    &&& record.reasoning_tokens == integer_of(row.get("reasoningOutputTokens"@))
    &&& record.total_tokens == integer_of(row.get("totalTokens"@))
    &&& record.amount == (match row.get("costUSD"@) {
        Some(JsonView::Number(number)) => Some(number.float),
        _ => None,
    })
}

proof fn lemma_find_by_one(value: JsonView, key: Seq<char>)
    ensures
        value.find(seq![key]) == value.get(key),
{
    reveal_with_fuel(JsonView::find, 2);
    assert(seq![key].skip(1) =~= Seq::<Seq<char>>::empty());
}

proof fn lemma_row_is_told(row: JsonView)
    ensures
        row.find(seq!["inputTokens"@]) == row.get("inputTokens"@),
        row.find(seq!["cacheReadTokens"@]) == row.get("cacheReadTokens"@),
        row.find(seq!["cacheCreationTokens"@]) == row.get("cacheCreationTokens"@),
        row.find(seq!["outputTokens"@]) == row.get("outputTokens"@),
        row.find(seq!["reasoningOutputTokens"@]) == row.get("reasoningOutputTokens"@),
        row.find(seq!["totalTokens"@]) == row.get("totalTokens"@),
        row.find(seq!["costUSD"@]) == row.get("costUSD"@),
{
    lemma_find_by_one(row, "inputTokens"@);
    lemma_find_by_one(row, "cacheReadTokens"@);
    lemma_find_by_one(row, "cacheCreationTokens"@);
    lemma_find_by_one(row, "outputTokens"@);
    lemma_find_by_one(row, "reasoningOutputTokens"@);
    lemma_find_by_one(row, "totalTokens"@);
    lemma_find_by_one(row, "costUSD"@);
}

/// A run by day is told day by day: one record for each, under its date, with its own counts.
pub proof fn lemma_days_of_a_run_are_told(
    result: CommandResultView,
    data: JsonView,
    rows: Seq<JsonView>,
    i: int,
)
    requires
        result.scope == "daily"@,
        data.get("daily"@) == Some(JsonView::Array(rows)),
        0 <= i < rows.len(),
    ensures
        records_of_run(result, data).len() == rows.len(),
        is_of_run(records_of_run(result, data)[i], result),
        tells_row(records_of_run(result, data)[i], rows[i]),
        records_of_run(result, data)[i].scope_key == name_in(rows[i].get("date"@)),
{
    lemma_row_is_told(rows[i]);
}

/// A run by session is told session by session: one record for each, under its identity, with its
/// own counts.
pub proof fn lemma_sessions_of_a_run_are_told(
    result: CommandResultView,
    data: JsonView,
    rows: Seq<JsonView>,
    i: int,
)
    requires
        result.scope == "session"@,
        data.get("sessions"@) == Some(JsonView::Array(rows)),
        0 <= i < rows.len(),
    ensures
        records_of_run(result, data).len() == rows.len(),
        is_of_run(records_of_run(result, data)[i], result),
        tells_row(records_of_run(result, data)[i], rows[i]),
        records_of_run(result, data)[i].scope_key == name_in(rows[i].get("sessionId"@)),
{
    reveal_strlit("daily");
    reveal_strlit("session");
    assert("daily"@.len() != "session"@.len());
    lemma_row_is_told(rows[i]);
}

} // verus!
