//! What the stored rows tell of requests, turns, quotas and the account.
use crate::db::{SourceAppServerRecordView, SourceJsonlRecordView};
use crate::json::{Float, JsonView};
use crate::minimal::rollup::load::{
    account_of, app_server_quota, jsonl_quota, quotas_of, turns_of, turns_of_session, usage_of,
    ByObserved,
};
use crate::minimal::rollup::roots::{sessions_of, SessionMetaView};
use crate::ordered::{
    is_ranking, keys_increase, lemma_put_in_order, lemma_put_lookup, lemma_sorted_in_order,
    lemma_sorted_keeps, lookup, Ranking,
};
use crate::pipelines::result::materialize::records::{
    QuotaObservation, QuotaObservationView, TurnRecordView,
};
use crate::pipelines::result::materialize::tables::told;
use vstd::prelude::*;
use vstd::string::*;

verus! {

/// A row of usage tells a request: each of its facts is that of the column with its name. A total
/// that is not told is that of input, output and reasoning.
pub proof fn lemma_row_tells_its_request(row: SourceJsonlRecordView)
    ensures
        ({
            let usage = usage_of(row);
            &&& usage.source_key == row.source_key
            &&& usage.observed_at_ms == row.observed_at_ms
            &&& usage.session_id == row.session_id
            &&& usage.root_session_id == row.root_session_id
            &&& usage.model == row.model
            &&& usage.tier == row.service_tier
            &&& usage.provider == row.provider
            &&& usage.plan_type == row.plan_type
            &&& usage.tokens.input == told(row.input_tokens)
            &&& usage.tokens.cached == told(row.cache_read_tokens)
            &&& usage.tokens.cache_write == told(row.cache_write_tokens)
            &&& usage.tokens.output == told(row.output_tokens)
            &&& usage.tokens.reasoning == told(row.reasoning_tokens)
            &&& row.total_tokens is Some ==> usage.tokens.total == row.total_tokens->0
            &&& row.total_tokens is None && told(row.input_tokens) >= 0 && told(row.output_tokens)
                >= 0 && told(row.reasoning_tokens) >= 0 && told(row.input_tokens) + told(
                row.output_tokens,
            ) + told(row.reasoning_tokens) <= i64::MAX ==> usage.tokens.total == told(
                row.input_tokens,
            ) + told(row.output_tokens) + told(row.reasoning_tokens)
        }),
{
}

/// Whether a quota says what a row says of a window.
pub open spec fn says_window(
    quota: QuotaObservationView,
    limit_id: Option<Seq<char>>,
    window_kind: Option<Seq<char>>,
    used_percent: Option<Float>,
    window_minutes: Option<i64>,
    resets_at_ms: Option<i64>,
    plan_type: Option<Seq<char>>,
) -> bool {
    &&& quota.limit_id == limit_id
    &&& window_kind is Some ==> quota.window_kind == window_kind->0
    &&& window_kind is None ==> quota.window_kind == "primary"@
    &&& quota.used_percent == used_percent
    &&& quota.window_minutes == window_minutes
    &&& quota.resets_at_ms == resets_at_ms
    &&& quota.plan_type == plan_type
}

/// The quotas are those of all rows, each with what its row says, in the order of time; those of
/// the account count for more than those of logs.
pub proof fn lemma_quotas_are_those_of_rows(
    jsonl: Seq<SourceJsonlRecordView>,
    app_server: Seq<SourceAppServerRecordView>,
    i: int,
    k: int,
)
    requires
        0 <= i < jsonl.len(),
        0 <= k < app_server.len(),
    ensures
        ({
            let quotas = quotas_of(jsonl, app_server);
            let (log, account) = (jsonl_quota(jsonl[i]), app_server_quota(app_server[k]));
            &&& quotas.len() == jsonl.len() + app_server.len()
            &&& quotas.to_multiset().count(log) > 0
            &&& quotas.to_multiset().count(account) > 0
            &&& log.first_seen_at_ms == jsonl[i].observed_at_ms
            &&& log.account_key is None
            &&& log.source == "jsonl"@
            &&& says_window(
                log,
                jsonl[i].limit_id,
                jsonl[i].window_kind,
                jsonl[i].used_percent,
                jsonl[i].window_minutes,
                jsonl[i].resets_at_ms,
                jsonl[i].plan_type,
            )
            &&& account.first_seen_at_ms == app_server[k].first_seen_at_ms
            &&& account.account_key == app_server[k].account_key
            &&& account.source == "app_server"@
            &&& says_window(
                account,
                app_server[k].limit_id,
                app_server[k].window_kind,
                app_server[k].used_percent,
                app_server[k].window_minutes,
                app_server[k].resets_at_ms,
                app_server[k].plan_type,
            )
            &&& account.priority > log.priority
        }),
{
    let logs = jsonl.map_values(|row: SourceJsonlRecordView| jsonl_quota(row));
    let accounts = app_server.map_values(|row: SourceAppServerRecordView| app_server_quota(row));
    let all = logs + accounts;
    lemma_sorted_keeps::<QuotaObservation, ByObserved>(all);
    assert(all[i] == jsonl_quota(jsonl[i]));
    assert(all[logs.len() + k] == app_server_quota(app_server[k]));
    all.to_multiset_ensures();
    assert(all.contains(all[i]));
    assert(all.contains(all[logs.len() + k]));
}

/// The quotas stand in the order of time, and of one instant those of the account come last.
pub proof fn lemma_quotas_stand_in_order(
    jsonl: Seq<SourceJsonlRecordView>,
    app_server: Seq<SourceAppServerRecordView>,
    j: int,
    k: int,
)
    requires
        0 <= j < k < quotas_of(jsonl, app_server).len(),
    ensures
        quotas_of(jsonl, app_server)[j].first_seen_at_ms <= quotas_of(
            jsonl,
            app_server,
        )[k].first_seen_at_ms,
{
    let all = jsonl.map_values(|row: SourceJsonlRecordView| jsonl_quota(row))
        + app_server.map_values(|row: SourceAppServerRecordView| app_server_quota(row));
    let quotas = quotas_of(jsonl, app_server);
    assert(is_ranking::<QuotaObservation, ByObserved>());
    lemma_sorted_in_order::<QuotaObservation, ByObserved>(all);
    assert(!ByObserved::later(quotas[j], quotas[k]));
}

/// The account is the one of the row, where there is one.
pub proof fn lemma_account_is_that_of_its_row(row: SourceAppServerRecordView, lists: Seq<JsonView>)
    ensures
        account_of(Some(row), lists).account_key == row.account_key,
        account_of(Some(row), lists).auth_kind == row.auth_kind,
        account_of(Some(row), lists).plan_type == row.plan_type,
        account_of(Some(row), lists).daily_tokens == account_of(None, lists).daily_tokens,
        account_of(None, lists).account_key is None,
        account_of(None, lists).plan_type is None,
{
}

proof fn lemma_turns_in_order(rows: Seq<SourceJsonlRecordView>)
    ensures
        keys_increase::<String, Seq<TurnRecordView>>(turns_of(rows)),
        keys_increase::<String, SessionMetaView>(sessions_of(rows)),
    decreases rows.len(),
{
    if rows.len() > 0 {
        let (shorter, row) = (rows.drop_last(), rows.last());
        lemma_turns_in_order(shorter);
        if let Some(id) = row.session_id {
            if let Some(turn) = row.turn_id {
                lemma_put_in_order::<String, Seq<TurnRecordView>>(
                    turns_of(shorter),
                    id,
                    turns_of_session(turns_of(shorter), id).push(
                        TurnRecordView { id: turn, started: row.started_at_ms, ended: row.ended_at_ms },
                    ),
                );
            }
            lemma_put_in_order::<String, SessionMetaView>(
                sessions_of(shorter),
                id,
                SessionMetaView { parent_session_id: row.root_session_id, title: row.title },
            );
        }
    }
}

/// A row of a turn adds it, with its start and its end, to the turns of its session, and to no
/// other.
pub proof fn lemma_row_adds_its_turn(
    rows: Seq<SourceJsonlRecordView>,
    row: SourceJsonlRecordView,
    id: Seq<char>,
)
    ensures
        ({
            let before = turns_of_session(turns_of(rows), id);
            let after = turns_of_session(turns_of(rows.push(row)), id);
            if row.session_id == Some(id) && row.turn_id is Some {
                &&& after.len() == before.len() + 1
                &&& after.drop_last() == before
                &&& after.last().id == row.turn_id->0
                &&& after.last().started == row.started_at_ms
                &&& after.last().ended == row.ended_at_ms
            } else {
                after == before
            }
        }),
{
    assert(rows.push(row).drop_last() =~= rows);
    lemma_turns_in_order(rows);
    if row.session_id is Some && row.turn_id is Some {
        let own = row.session_id->0;
        let turns = turns_of_session(turns_of(rows), own).push(
            TurnRecordView {
                id: row.turn_id->0,
                started: row.started_at_ms,
                ended: row.ended_at_ms,
            },
        );
        lemma_put_lookup::<String, Seq<TurnRecordView>>(turns_of(rows), own, turns, id);
        assert(turns.drop_last() =~= turns_of_session(turns_of(rows), own));
    }
}

/// A row of a session gives it its title and the session that it comes from; any other row leaves
/// what is known of it.
pub proof fn lemma_row_tells_its_session(
    rows: Seq<SourceJsonlRecordView>,
    row: SourceJsonlRecordView,
    id: Seq<char>,
)
    ensures
        ({
            let before = lookup::<String, SessionMetaView>(sessions_of(rows), id);
            let after = lookup::<String, SessionMetaView>(sessions_of(rows.push(row)), id);
            &&& row.session_id == Some(id) ==> after is Some && (after->0).title == row.title && (
            after->0).parent_session_id == row.root_session_id
            &&& row.session_id != Some(id) ==> after == before
        }),
{
    assert(rows.push(row).drop_last() =~= rows);
    lemma_turns_in_order(rows);
    if let Some(own) = row.session_id {
        lemma_put_lookup::<String, SessionMetaView>(
            sessions_of(rows),
            own,
            SessionMetaView { parent_session_id: row.root_session_id, title: row.title },
            id,
        );
    }
}

} // verus!
