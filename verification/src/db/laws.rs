//! What a stored fact is after it was seen again.
use crate::db::source_jsonl::{merged, upserted};
use crate::db::{app_server_upserted, SourceAppServerRecordView, SourceJsonlRecordView};
use crate::pipelines::source::jsonl::laws::known;
use vstd::prelude::*;
use vstd::string::*;

verus! {

/// Whether a row keeps its key, its kind and its session, and has each other fact from the row that
/// is seen where that knows it, else as it was stored.
pub open spec fn takes_what_is_seen(
    row: SourceJsonlRecordView,
    stored: SourceJsonlRecordView,
    seen: SourceJsonlRecordView,
) -> bool {
    &&& row.source_key == stored.source_key
    &&& row.kind == stored.kind
    &&& row.session_id == stored.session_id
    &&& row.parent_session_id == known(seen.parent_session_id, stored.parent_session_id)
    &&& row.root_session_id == known(seen.root_session_id, stored.root_session_id)
    &&& row.turn_id == known(seen.turn_id, stored.turn_id)
    &&& row.relation == known(seen.relation, stored.relation)
    &&& row.title == known(seen.title, stored.title)
    &&& row.started_at_ms == known(seen.started_at_ms, stored.started_at_ms)
    &&& row.ended_at_ms == known(seen.ended_at_ms, stored.ended_at_ms)
    &&& row.model == known(seen.model, stored.model)
    &&& row.service_tier == known(seen.service_tier, stored.service_tier)
    &&& row.reasoning_effort == known(seen.reasoning_effort, stored.reasoning_effort)
    &&& row.provider == known(seen.provider, stored.provider)
    &&& row.plan_type == known(seen.plan_type, stored.plan_type)
    &&& row.input_tokens == known(seen.input_tokens, stored.input_tokens)
    &&& row.cache_read_tokens == known(seen.cache_read_tokens, stored.cache_read_tokens)
    &&& row.cache_write_tokens == known(seen.cache_write_tokens, stored.cache_write_tokens)
    &&& row.output_tokens == known(seen.output_tokens, stored.output_tokens)
    &&& row.reasoning_tokens == known(seen.reasoning_tokens, stored.reasoning_tokens)
    &&& row.total_tokens == known(seen.total_tokens, stored.total_tokens)
    &&& row.limit_id == known(seen.limit_id, stored.limit_id)
    &&& row.window_kind == known(seen.window_kind, stored.window_kind)
    &&& row.used_percent == known(seen.used_percent, stored.used_percent)
    &&& row.window_minutes == known(seen.window_minutes, stored.window_minutes)
    &&& row.resets_at_ms == known(seen.resets_at_ms, stored.resets_at_ms)
    &&& row.quality == known(seen.quality, stored.quality)
}

/// Whether a row was seen from the earlier to the later of the times at which two rows were.
pub open spec fn spans_both(
    row: SourceJsonlRecordView,
    stored: SourceJsonlRecordView,
    seen: SourceJsonlRecordView,
) -> bool {
    let one = known(stored.last_seen_at_ms, Some(stored.observed_at_ms))->0;
    let other = known(seen.last_seen_at_ms, Some(seen.observed_at_ms))->0;
    &&& row.observed_at_ms <= stored.observed_at_ms && row.observed_at_ms <= seen.observed_at_ms
    &&& row.observed_at_ms == stored.observed_at_ms || row.observed_at_ms == seen.observed_at_ms
    &&& row.last_seen_at_ms is Some
    &&& row.last_seen_at_ms->0 >= one && row.last_seen_at_ms->0 >= other
    &&& row.last_seen_at_ms->0 == one || row.last_seen_at_ms->0 == other
}

/// A stored fact that is stored again takes what is seen. A quota was then seen from the earlier to
/// the later of the times; any other fact keeps when it was observed.
pub proof fn lemma_upsert_takes_what_is_seen(
    stored: SourceJsonlRecordView,
    seen: SourceJsonlRecordView,
)
    ensures
        takes_what_is_seen(upserted(stored, seen), stored, seen),
        stored.kind == "quota"@ ==> spans_both(upserted(stored, seen), stored, seen),
        stored.kind != "quota"@ ==> upserted(stored, seen).observed_at_ms == stored.observed_at_ms
            && upserted(stored, seen).last_seen_at_ms == known(
            seen.last_seen_at_ms,
            stored.last_seen_at_ms,
        ),
{
}

/// Two facts with one key are merged in the same way before they are stored.
pub proof fn lemma_merge_takes_what_is_seen(
    stored: SourceJsonlRecordView,
    seen: SourceJsonlRecordView,
)
    ensures
        takes_what_is_seen(merged(stored, seen), stored, seen),
        stored.kind == "quota"@ && seen.kind == "quota"@ ==> spans_both(
            merged(stored, seen),
            stored,
            seen,
        ),
        stored.kind != "quota"@ || seen.kind != "quota"@ ==> merged(stored, seen).observed_at_ms
            == stored.observed_at_ms && merged(stored, seen).last_seen_at_ms == known(
            seen.last_seen_at_ms,
            stored.last_seen_at_ms,
        ),
{
}

/// A stored fact of the account keeps its key, its kind and when it was first seen; it was last seen
/// now and is as it was seen, and what was not seen stays.
pub proof fn lemma_account_fact_takes_what_is_seen(
    stored: SourceAppServerRecordView,
    seen: SourceAppServerRecordView,
)
    ensures
        ({
            let row = app_server_upserted(stored, seen);
            &&& row.source_key == stored.source_key
            &&& row.kind == stored.kind
            &&& row.first_seen_at_ms == stored.first_seen_at_ms
            &&& row.last_seen_at_ms == seen.last_seen_at_ms
            &&& row.status == seen.status
            &&& row.account_key == known(seen.account_key, stored.account_key)
            &&& row.account_label == known(seen.account_label, stored.account_label)
            &&& row.auth_kind == known(seen.auth_kind, stored.auth_kind)
            &&& row.provider == known(seen.provider, stored.provider)
            &&& row.plan_type == known(seen.plan_type, stored.plan_type)
            &&& row.limit_id == known(seen.limit_id, stored.limit_id)
            &&& row.window_kind == known(seen.window_kind, stored.window_kind)
            &&& row.used_percent == known(seen.used_percent, stored.used_percent)
            &&& row.window_minutes == known(seen.window_minutes, stored.window_minutes)
            &&& row.resets_at_ms == known(seen.resets_at_ms, stored.resets_at_ms)
            &&& row.lifetime_tokens == known(seen.lifetime_tokens, stored.lifetime_tokens)
            &&& row.daily_tokens_json == known(seen.daily_tokens_json, stored.daily_tokens_json)
            &&& row.freshness == known(seen.freshness, stored.freshness)
        }),
{
}

} // verus!
