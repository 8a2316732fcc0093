//! What the stored rows tell of requests, sessions, turns, quotas and the account.
use crate::db::{SourceAppServerRecordView, SourceJsonlRecordView};
use crate::json::{either_member, lemma_find_by_three, lemma_find_by_two, JsonView};
use crate::ordered::{
    is_ranking, keys_increase, lemma_entry_is_found, lemma_has, lemma_put_in_order,
    lemma_put_lookup, lemma_sorted_in_order, lemma_sorted_keeps, lookup, put, sorted, Key, Ranking,
};
use crate::pipelines::result::materialize::load::{
    account_days, account_of, all_quotas, app_server_quota, day_tokens, facts_in_order, facts_of,
    is_usage_row, jsonl_quota, jsonl_quotas, latest_account, quotas_of, tokens_of_row, told_items,
    usage_of_row, with_app_server_quotas, with_days, ByObserved, ByTurnStart,
};
use crate::pipelines::result::materialize::records::{
    AccountContextView, QuotaObservation, QuotaObservationView, SessionMetaView, TurnRecord,
    TurnRecordView, UsageRecord, UsageRecordView,
};
use crate::pipelines::result::materialize::tables::told;
use crate::pipelines::result::materialize::windows::{
    has_canonical, is_canonical, is_retained, ByTime,
};
use crate::pipelines::result::materialize::{quotas_in, SourcesView};
use vstd::prelude::*;
use vstd::string::*;

verus! {

/// A count that is not below zero.
pub open spec fn counted(column: Option<i64>) -> int {
    if told(column) < 0 {
        0
    } else {
        told(column)
    }
}

/// Whether a row tells a request that used tokens.
#[verifier::opaque]
pub open spec fn tells_usage(row: SourceJsonlRecordView) -> bool {
    &&& row.kind == "usage"@
    &&& counted(row.input_tokens) > 0 || counted(row.cache_write_tokens) > 0 || counted(
        row.output_tokens,
    ) > 0 || counted(row.total_tokens) > 0
}

/// Whether a request is the one that a row tells: each of its facts is that of the column with its
/// name; no part is larger than its whole, and a total that is not told is that of input and output.
#[verifier::opaque]
pub open spec fn is_request_of(usage: UsageRecordView, row: SourceJsonlRecordView) -> bool {
    &&& usage.source_key == row.source_key
    &&& usage.observed_at_ms == row.observed_at_ms
    &&& usage.session_id == row.session_id
    &&& usage.root_session_id == row.root_session_id
    &&& usage.turn_id == row.turn_id
    &&& usage.model == row.model
    &&& usage.tier == row.service_tier
    &&& usage.reasoning_effort == row.reasoning_effort
    &&& usage.relation == row.relation
    &&& usage.provider == row.provider
    &&& usage.plan_type == row.plan_type
    &&& usage.tokens.input == counted(row.input_tokens)
    &&& usage.tokens.output == counted(row.output_tokens)
    &&& usage.tokens.cache_write == counted(row.cache_write_tokens)
    &&& counted(row.cache_read_tokens) <= counted(row.input_tokens) ==> usage.tokens.cached
        == counted(row.cache_read_tokens)
    &&& counted(row.cache_read_tokens) > counted(row.input_tokens) ==> usage.tokens.cached
        == counted(row.input_tokens)
    &&& counted(row.reasoning_tokens) <= counted(row.output_tokens) ==> usage.tokens.reasoning
        == counted(row.reasoning_tokens)
    &&& counted(row.reasoning_tokens) > counted(row.output_tokens) ==> usage.tokens.reasoning
        == counted(row.output_tokens)
    &&& counted(row.total_tokens) > 0 ==> usage.tokens.total == counted(row.total_tokens)
    &&& counted(row.total_tokens) == 0 && counted(row.input_tokens) + counted(row.output_tokens)
        <= i64::MAX ==> usage.tokens.total == counted(row.input_tokens) + counted(
        row.output_tokens,
    )
}

proof fn lemma_row_tells_request(row: SourceJsonlRecordView)
    ensures
        is_usage_row(row) <==> tells_usage(row),
        is_request_of(usage_of_row(row), row),
{
    reveal(tells_usage);
    reveal(is_request_of);
    let tokens = tokens_of_row(row);
    assert(tokens.input == counted(row.input_tokens));
    assert(tokens.output == counted(row.output_tokens));
}

proof fn lemma_sorted_multiset<T: DeepView, O: Ranking<T>>(s: Seq<T::V>, x: T::V)
    ensures
        sorted::<T, O>(s.push(x)).to_multiset() == sorted::<T, O>(s).to_multiset().insert(x),
{
    broadcast use vstd::seq_lib::group_to_multiset_ensures;

    lemma_sorted_keeps::<T, O>(s);
    lemma_sorted_keeps::<T, O>(s.push(x));
}

/// One more row tells one more request where it is of usage and counts some token, with the facts
/// of the row; any other row tells no request.
pub proof fn lemma_row_adds_its_request(
    rows: Seq<SourceJsonlRecordView>,
    row: SourceJsonlRecordView,
)
    ensures
        ({
            let (before, after) = (facts_of(rows).usages, facts_of(rows.push(row)).usages);
            &&& tells_usage(row) ==> exists|usage: UsageRecordView|
                #[trigger] is_request_of(usage, row) && after.to_multiset()
                    == before.to_multiset().insert(usage)
            &&& !tells_usage(row) ==> after == before
        }),
{
    assert(rows.push(row).drop_last() =~= rows);
    lemma_row_tells_request(row);
    lemma_kinds_differ();
    if tells_usage(row) {
        lemma_sorted_multiset::<UsageRecord, ByObserved>(
            facts_in_order(rows).usages,
            usage_of_row(row),
        );
        assert(is_request_of(usage_of_row(row), row));
    }
}

/// Where there are no rows, there are no requests, sessions or turns; the requests that rows tell
/// stand in the order of time.
pub proof fn lemma_requests_stand_in_order(rows: Seq<SourceJsonlRecordView>)
    ensures
        ({
            let usages = facts_of(rows).usages;
            &&& rows.len() == 0 ==> usages.len() == 0 && facts_of(rows).sessions.len() == 0
                && facts_of(rows).turns.len() == 0
            &&& forall|j: int, k: int|
                0 <= j < k < usages.len() ==> (#[trigger] usages[j]).observed_at_ms <= (
                #[trigger] usages[k]).observed_at_ms
        }),
{
    let before = facts_in_order(rows).usages;
    let usages = facts_of(rows).usages;
    assert(is_ranking::<UsageRecord, ByObserved>());
    lemma_sorted_in_order::<UsageRecord, ByObserved>(before);
    assert forall|j: int, k: int| 0 <= j < k < usages.len() implies (
    #[trigger] usages[j]).observed_at_ms <= (#[trigger] usages[k]).observed_at_ms by {
        assert(!ByObserved::later(usages[j], usages[k]));
    }
}

/// Whether a row tells a session.
pub open spec fn tells_session(row: SourceJsonlRecordView, id: Seq<char>) -> bool {
    row.kind == "session"@ && row.session_id == Some(id)
}

/// Whether a row tells a turn of a session.
pub open spec fn tells_turn(row: SourceJsonlRecordView, id: Seq<char>) -> bool {
    row.kind == "turn"@ && row.session_id == Some(id) && row.turn_id is Some
}

proof fn lemma_kinds_differ()
    ensures
        "usage"@ != "session"@,
        "usage"@ != "turn"@,
        "session"@ != "turn"@,
{
    reveal_strlit("usage");
    reveal_strlit("session");
    reveal_strlit("turn");
    assert("usage"@.len() == 5 && "session"@.len() == 7 && "turn"@.len() == 4);
}

proof fn lemma_facts_in_order(rows: Seq<SourceJsonlRecordView>)
    ensures
        keys_increase::<String, SessionMetaView>(facts_in_order(rows).sessions),
        keys_increase::<String, Seq<TurnRecordView>>(facts_in_order(rows).turns),
    decreases rows.len(),
{
    if rows.len() > 0 {
        let shorter = rows.drop_last();
        lemma_facts_in_order(shorter);
        let (before, row) = (facts_in_order(shorter), rows.last());
        if row.session_id is Some {
            assert forall|meta: SessionMetaView| keys_increase::<String, SessionMetaView>(
                #[trigger] put::<String, SessionMetaView>(
                    before.sessions,
                    row.session_id->0,
                    meta,
                ),
            ) by {
                lemma_put_in_order::<String, SessionMetaView>(
                    before.sessions,
                    row.session_id->0,
                    meta,
                );
            }
            assert forall|turns: Seq<TurnRecordView>| keys_increase::<String, Seq<TurnRecordView>>(
                #[trigger] put::<String, Seq<TurnRecordView>>(
                    before.turns,
                    row.session_id->0,
                    turns,
                ),
            ) by {
                lemma_put_in_order::<String, Seq<TurnRecordView>>(
                    before.turns,
                    row.session_id->0,
                    turns,
                );
            }
        }
    }
}

/// A row that tells a session gives it its title and its relation; any other row leaves what is
/// known of the session.
pub proof fn lemma_row_tells_its_session(
    rows: Seq<SourceJsonlRecordView>,
    row: SourceJsonlRecordView,
    id: Seq<char>,
)
    ensures
        ({
            let before = lookup::<String, SessionMetaView>(facts_of(rows).sessions, id);
            let after = lookup::<String, SessionMetaView>(facts_of(rows.push(row)).sessions, id);
            &&& tells_session(row, id) ==> after is Some && (after->0).title == row.title && (
            after->0).relation == row.relation
            &&& !tells_session(row, id) ==> after == before
        }),
{
    assert(rows.push(row).drop_last() =~= rows);
    lemma_facts_in_order(rows);
    lemma_kinds_differ();
    if row.session_id is Some {
        lemma_put_lookup::<String, SessionMetaView>(
            facts_in_order(rows).sessions,
            row.session_id->0,
            SessionMetaView { title: row.title, relation: row.relation },
            id,
        );
    }
}

/// The turns of a session, as they were read.
spec fn turns_read(rows: Seq<SourceJsonlRecordView>, id: Seq<char>) -> Seq<TurnRecordView> {
    match lookup::<String, Seq<TurnRecordView>>(facts_in_order(rows).turns, id) {
        Some(turns) => turns,
        None => Seq::empty(),
    }
}

/// Whether a turn is the one that a row tells.
pub open spec fn is_turn_of(turn: TurnRecordView, row: SourceJsonlRecordView) -> bool {
    &&& row.turn_id == Some(turn.id)
    &&& turn.started == row.started_at_ms
    &&& turn.ended == row.ended_at_ms
}

/// The turns of a session.
pub open spec fn turns_told(rows: Seq<SourceJsonlRecordView>, id: Seq<char>) -> Seq<TurnRecordView> {
    match lookup::<String, Seq<TurnRecordView>>(facts_of(rows).turns, id) {
        Some(turns) => turns,
        None => Seq::empty(),
    }
}

proof fn lemma_turns_are_sorted(rows: Seq<SourceJsonlRecordView>, id: Seq<char>)
    ensures
        turns_told(rows, id) == sorted::<TurnRecord, ByTurnStart>(turns_read(rows, id)),
{
    let read = facts_in_order(rows).turns;
    let all = facts_of(rows).turns;
    lemma_facts_in_order(rows);
    assert forall|i: int, j: int| 0 <= i < j < all.len() implies <String as Key>::before(
        (#[trigger] all[i]).0,
        (#[trigger] all[j]).0,
    ) by {
        assert(<String as Key>::before(read[i].0, read[j].0));
    }
    lemma_has::<String, Seq<TurnRecordView>>(read, id);
    lemma_has::<String, Seq<TurnRecordView>>(all, id);
    if exists|i: int| 0 <= i < read.len() && (#[trigger] read[i]).0 == id {
        let i = choose|i: int| 0 <= i < read.len() && (#[trigger] read[i]).0 == id;
        lemma_entry_is_found::<String, Seq<TurnRecordView>>(read, i);
        lemma_entry_is_found::<String, Seq<TurnRecordView>>(all, i);
    } else if exists|i: int| 0 <= i < all.len() && (#[trigger] all[i]).0 == id {
        let i = choose|i: int| 0 <= i < all.len() && (#[trigger] all[i]).0 == id;
        assert(read[i].0 == id);
    }
}

/// A row that tells a turn of a session adds it to the turns of the session; any other row leaves
/// them.
pub proof fn lemma_row_adds_its_turn(
    rows: Seq<SourceJsonlRecordView>,
    row: SourceJsonlRecordView,
    id: Seq<char>,
)
    ensures
        ({
            let (before, after) = (turns_told(rows, id), turns_told(rows.push(row), id));
            &&& tells_turn(row, id) ==> exists|turn: TurnRecordView|
                #[trigger] is_turn_of(turn, row) && after.to_multiset()
                    == before.to_multiset().insert(turn)
            &&& !tells_turn(row, id) ==> after == before
        }),
{
    assert(rows.push(row).drop_last() =~= rows);
    lemma_facts_in_order(rows);
    lemma_kinds_differ();
    lemma_turns_are_sorted(rows, id);
    lemma_turns_are_sorted(rows.push(row), id);
    if row.session_id is Some && row.turn_id is Some {
        let own = row.session_id->0;
        let turn = TurnRecordView {
            id: row.turn_id->0,
            started: row.started_at_ms,
            ended: row.ended_at_ms,
        };
        lemma_put_lookup::<String, Seq<TurnRecordView>>(
            facts_in_order(rows).turns,
            own,
            turns_read(rows, own).push(turn),
            id,
        );
        lemma_sorted_multiset::<TurnRecord, ByTurnStart>(turns_read(rows, id), turn);
        if tells_turn(row, id) {
            assert(turns_read(rows.push(row), id) == turns_read(rows, id).push(turn));
            assert(is_turn_of(turn, row));
        }
    }
}

/// The turns of a session stand in the order in which they started; those of which no start is
/// known come first.
pub proof fn lemma_turns_stand_in_order(
    rows: Seq<SourceJsonlRecordView>,
    id: Seq<char>,
    j: int,
    k: int,
)
    requires
        0 <= j < k < turns_told(rows, id).len(),
        turns_told(rows, id)[j].started is Some,
    ensures
        turns_told(rows, id)[k].started is Some,
        turns_told(rows, id)[j].started->0 <= turns_told(rows, id)[k].started->0,
{
    lemma_turns_are_sorted(rows, id);
    let turns = turns_told(rows, id);
    assert(is_ranking::<TurnRecord, ByTurnStart>());
    lemma_sorted_in_order::<TurnRecord, ByTurnStart>(turns_read(rows, id));
    assert(!ByTurnStart::later(turns[j], turns[k]));
}

/// Whether a quota is the one that a row of a log tells, for an account.
#[verifier::opaque]
pub open spec fn is_quota_of_log(
    quota: QuotaObservationView,
    row: SourceJsonlRecordView,
    account: AccountContextView,
) -> bool {
    &&& row.kind == "quota"@
    &&& quota.first_seen_at_ms == row.observed_at_ms
    &&& row.last_seen_at_ms is Some ==> quota.last_seen_at_ms == row.last_seen_at_ms->0
    &&& row.last_seen_at_ms is None ==> quota.last_seen_at_ms == row.observed_at_ms
    &&& quota.account_key == account.account_key
    &&& quota.limit_id == row.limit_id
    &&& row.window_kind is Some ==> quota.window_kind == row.window_kind->0
    &&& row.window_kind is None ==> quota.window_kind == "primary"@
    &&& quota.used_percent == row.used_percent
    &&& quota.window_minutes == row.window_minutes
    &&& quota.resets_at_ms == row.resets_at_ms
    &&& quota.plan_type == row.plan_type
    &&& quota.source == "jsonl"@
    &&& quota.priority == 1
}

/// Whether a quota is the one that a row of the account tells. What the row leaves open of the
/// account and the plan is that of the account.
#[verifier::opaque]
pub open spec fn is_quota_of_account(
    quota: QuotaObservationView,
    row: SourceAppServerRecordView,
    account: AccountContextView,
) -> bool {
    &&& row.kind == "quota"@
    &&& quota.first_seen_at_ms == row.first_seen_at_ms
    &&& quota.last_seen_at_ms == row.last_seen_at_ms
    &&& row.account_key is Some ==> quota.account_key == row.account_key
    &&& row.account_key is None ==> quota.account_key == account.account_key
    &&& quota.limit_id == row.limit_id
    &&& row.window_kind is Some ==> quota.window_kind == row.window_kind->0
    &&& row.window_kind is None ==> quota.window_kind == "primary"@
    &&& quota.used_percent == row.used_percent
    &&& quota.window_minutes == row.window_minutes
    &&& quota.resets_at_ms == row.resets_at_ms
    &&& row.plan_type is Some ==> quota.plan_type == row.plan_type
    &&& row.plan_type is None ==> quota.plan_type == account.plan_type
    &&& quota.source == "app_server"@
    &&& quota.priority == 2
}

/// Whether some row tells a quota.
pub open spec fn is_told_quota(
    quota: QuotaObservationView,
    jsonl: Seq<SourceJsonlRecordView>,
    app_server: Seq<SourceAppServerRecordView>,
    account: AccountContextView,
) -> bool {
    ||| exists|i: int| 0 <= i < jsonl.len() && is_quota_of_log(quota, #[trigger] jsonl[i], account)
    ||| exists|i: int|
        0 <= i < app_server.len() && is_quota_of_account(quota, #[trigger] app_server[i], account)
}

proof fn lemma_quota_of_log(
    quota: QuotaObservationView,
    row: SourceJsonlRecordView,
    account: AccountContextView,
)
    ensures
        is_quota_of_log(quota, row, account) <==> row.kind == "quota"@ && quota == jsonl_quota(
            row,
            account,
        ),
{
    reveal(is_quota_of_log);
}

proof fn lemma_quota_of_account(
    quota: QuotaObservationView,
    row: SourceAppServerRecordView,
    account: AccountContextView,
)
    ensures
        is_quota_of_account(quota, row, account) <==> row.kind == "quota"@ && quota
            == app_server_quota(row, account),
{
    reveal(is_quota_of_account);
}

proof fn lemma_push_contains<T>(s: Seq<T>, x: T, y: T)
    ensures
        s.push(x).contains(y) <==> s.contains(y) || x == y,
{
    let all = s.push(x);
    assert(all[s.len() as int] == x);
    if s.contains(y) {
        let i = choose|i: int| 0 <= i < s.len() && s[i] == y;
        assert(all[i] == y);
    }
    if all.contains(y) {
        let i = choose|i: int| 0 <= i < all.len() && all[i] == y;
        if i < s.len() {
            assert(s[i] == y);
        }
    }
}

proof fn lemma_log_quotas(
    rows: Seq<SourceJsonlRecordView>,
    account: AccountContextView,
    quota: QuotaObservationView,
)
    ensures
        jsonl_quotas(rows, account).contains(quota) <==> exists|i: int|
            0 <= i < rows.len() && is_quota_of_log(quota, #[trigger] rows[i], account),
    decreases rows.len(),
{
    if rows.len() > 0 {
        let shorter = rows.drop_last();
        lemma_log_quotas(shorter, account, quota);
        lemma_quota_of_log(quota, rows.last(), account);
        lemma_push_contains(
            jsonl_quotas(shorter, account),
            jsonl_quota(rows.last(), account),
            quota,
        );
        assert(rows[rows.len() - 1] == rows.last());
        if exists|i: int| 0 <= i < shorter.len() && is_quota_of_log(
            quota,
            #[trigger] shorter[i],
            account,
        ) {
            let i = choose|i: int|
                0 <= i < shorter.len() && is_quota_of_log(quota, #[trigger] shorter[i], account);
            assert(rows[i] == shorter[i]);
        }
        if exists|i: int| 0 <= i < rows.len() && is_quota_of_log(quota, #[trigger] rows[i], account) {
            let i = choose|i: int|
                0 <= i < rows.len() && is_quota_of_log(quota, #[trigger] rows[i], account);
            if i < shorter.len() {
                assert(shorter[i] == rows[i]);
            }
        }
    }
}

proof fn lemma_account_quotas(
    quotas: Seq<QuotaObservationView>,
    rows: Seq<SourceAppServerRecordView>,
    account: AccountContextView,
    quota: QuotaObservationView,
)
    ensures
        with_app_server_quotas(quotas, rows, account).contains(quota) <==> quotas.contains(quota)
            || exists|i: int|
            0 <= i < rows.len() && is_quota_of_account(quota, #[trigger] rows[i], account),
    decreases rows.len(),
{
    if rows.len() > 0 {
        let shorter = rows.drop_last();
        lemma_account_quotas(quotas, shorter, account, quota);
        lemma_quota_of_account(quota, rows.last(), account);
        lemma_push_contains(
            with_app_server_quotas(quotas, shorter, account),
            app_server_quota(rows.last(), account),
            quota,
        );
        assert(rows[rows.len() - 1] == rows.last());
        if exists|i: int| 0 <= i < shorter.len() && is_quota_of_account(
            quota,
            #[trigger] shorter[i],
            account,
        ) {
            let i = choose|i: int|
                0 <= i < shorter.len() && is_quota_of_account(quota, #[trigger] shorter[i], account);
            assert(rows[i] == shorter[i]);
        }
        if exists|i: int| 0 <= i < rows.len() && is_quota_of_account(
            quota,
            #[trigger] rows[i],
            account,
        ) {
            let i = choose|i: int|
                0 <= i < rows.len() && is_quota_of_account(quota, #[trigger] rows[i], account);
            if i < shorter.len() {
                assert(shorter[i] == rows[i]);
            }
        }
    }
}

/// Whether a quota is the main window of the limit `codex`.
pub open spec fn is_main_codex(quota: QuotaObservationView) -> bool {
    quota.window_kind == "primary"@ && quota.limit_id == Some("codex"@)
}

/// The quotas that count are those that some row tells, but for main windows of another limit than
/// `codex` of an account of which some row tells the main window of that limit.
pub proof fn lemma_quotas_are_those_of_rows(
    jsonl: Seq<SourceJsonlRecordView>,
    app_server: Seq<SourceAppServerRecordView>,
    account: AccountContextView,
    quota: QuotaObservationView,
)
    ensures
        quotas_of(jsonl, app_server, account).contains(quota) <==> is_told_quota(
            quota,
            jsonl,
            app_server,
            account,
        ) && (quota.window_kind == "primary"@ && quota.limit_id != Some("codex"@) ==> !exists|
            other: QuotaObservationView,
        | #[trigger]
            is_told_quota(other, jsonl, app_server, account) && is_main_codex(other)
                && other.account_key == quota.account_key),
{
    let all = all_quotas(jsonl, app_server, account);
    let kept = |q: QuotaObservationView| is_retained(all, q);
    assert forall|q: QuotaObservationView| #[trigger]
        is_told_quota(q, jsonl, app_server, account) <==> all.contains(q) by {
        lemma_log_quotas(jsonl, account, q);
        lemma_account_quotas(jsonl_quotas(jsonl, account), app_server, account, q);
    }
    assert(is_told_quota(quota, jsonl, app_server, account) <==> all.contains(quota));
    if all.contains(quota) && kept(quota) {
        let i = choose|i: int| 0 <= i < all.len() && all[i] == quota;
        all.lemma_filter_contains(kept, i);
    }
    if all.filter(kept).contains(quota) {
        all.lemma_filter_contains_rev(kept, quota);
        let i = choose|i: int| 0 <= i < all.filter(kept).len() && all.filter(kept)[i] == quota;
        all.lemma_filter_pred(kept, i);
    }
    let hidden = exists|other: QuotaObservationView| #[trigger]
        is_told_quota(other, jsonl, app_server, account) && is_main_codex(other)
            && other.account_key == quota.account_key;
    if has_canonical(all, quota.account_key) {
        let i = choose|i: int|
            0 <= i < all.len() && is_canonical(#[trigger] all[i]) && all[i].account_key
                == quota.account_key;
        assert(all.contains(all[i]));
        assert(is_told_quota(all[i], jsonl, app_server, account));
    }
    if hidden {
        let other = choose|other: QuotaObservationView| #[trigger]
            is_told_quota(other, jsonl, app_server, account) && is_main_codex(other)
                && other.account_key == quota.account_key;
        assert(all.contains(other));
        let i = choose|i: int| 0 <= i < all.len() && all[i] == other;
        assert(is_canonical(all[i]));
    }
}

/// The quotas that rows are made of stand in the order in which they were first seen, and are those
/// that count.
pub proof fn lemma_quotas_stand_in_order(sources: SourcesView)
    ensures
        ({
            let quotas = quotas_in(sources);
            let account = account_of(sources.app_server, sources.daily);
            &&& quotas.to_multiset() == quotas_of(
                sources.jsonl,
                sources.app_server,
                account,
            ).to_multiset()
            &&& forall|j: int, k: int|
                0 <= j < k < quotas.len() ==> (#[trigger] quotas[j]).first_seen_at_ms <= (
                #[trigger] quotas[k]).first_seen_at_ms
        }),
{
    let before = quotas_of(
        sources.jsonl,
        sources.app_server,
        account_of(sources.app_server, sources.daily),
    );
    let quotas = quotas_in(sources);
    lemma_sorted_keeps::<QuotaObservation, ByTime>(before);
    assert(is_ranking::<QuotaObservation, ByTime>());
    lemma_sorted_in_order::<QuotaObservation, ByTime>(before);
    assert forall|j: int, k: int| 0 <= j < k < quotas.len() implies (
    #[trigger] quotas[j]).first_seen_at_ms <= (#[trigger] quotas[k]).first_seen_at_ms by {
        assert(!ByTime::later(quotas[j], quotas[k]));
    }
}

/// The account is the one that was seen last, of several that were seen together the one whose row
/// comes last; where no row tells an account, nothing is known of it.
pub proof fn lemma_account_is_the_latest(
    rows: Seq<SourceAppServerRecordView>,
    daily: Seq<Option<JsonView>>,
)
    ensures
        ({
            let account = account_of(rows, daily);
            ||| exists|n: int|
                {
                    &&& 0 <= n < rows.len() && (#[trigger] rows[n]).kind == "account"@
                    &&& forall|j: int|
                        0 <= j < rows.len() && (#[trigger] rows[j]).kind == "account"@
                            ==> rows[j].last_seen_at_ms <= rows[n].last_seen_at_ms && (j > n
                            ==> rows[j].last_seen_at_ms < rows[n].last_seen_at_ms)
                    &&& account.account_key == rows[n].account_key
                    &&& account.auth_kind == rows[n].auth_kind
                    &&& account.provider == rows[n].provider
                    &&& account.plan_type == rows[n].plan_type
                }
            ||| {
                &&& forall|j: int| 0 <= j < rows.len() ==> (#[trigger] rows[j]).kind != "account"@
                &&& account.account_key is None && account.auth_kind is None
                &&& account.provider is None && account.plan_type is None
            }
        }),
{
    lemma_latest_account(rows);
    if let Some(n) = latest_account(rows) {
        assert(rows[n].kind == "account"@);
    }
}

proof fn lemma_latest_account(rows: Seq<SourceAppServerRecordView>)
    ensures
        match latest_account(rows) {
            Some(n) => {
                &&& 0 <= n < rows.len() && rows[n].kind == "account"@
                &&& forall|j: int|
                    0 <= j < rows.len() && (#[trigger] rows[j]).kind == "account"@
                        ==> rows[j].last_seen_at_ms <= rows[n].last_seen_at_ms && (j > n
                        ==> rows[j].last_seen_at_ms < rows[n].last_seen_at_ms)
            },
            None => forall|j: int| 0 <= j < rows.len() ==> (#[trigger] rows[j]).kind != "account"@,
        },
    decreases rows.len(),
{
    if rows.len() > 0 {
        let shorter = rows.drop_last();
        lemma_latest_account(shorter);
        assert forall|j: int| 0 <= j < shorter.len() implies shorter[j] == #[trigger] rows[j] by {}
    }
}

/// The date that an item of the account's days tells: the first that it has of three members, where
/// that is a text.
pub open spec fn date_told(item: JsonView) -> Option<Seq<char>> {
    let found = if item.get("startDate"@) is Some {
        item.get("startDate"@)
    } else {
        either_member(item, "start_date"@, "date"@)
    };
    match found {
        Some(JsonView::Text(date)) => Some(date),
        _ => None,
    }
}

/// The tokens that an item of the account's days tells: the first that it has of two members, where
/// that is an integer.
pub open spec fn tokens_told(item: JsonView) -> Option<i64> {
    match either_member(item, "tokens"@, "totalTokens"@) {
        Some(JsonView::Number(number)) => number.integer,
        _ => None,
    }
}

proof fn lemma_days_in_order(days: Seq<(Seq<char>, i64)>, items: Seq<JsonView>)
    requires
        keys_increase::<String, i64>(days),
    ensures
        keys_increase::<String, i64>(with_days(days, items)),
    decreases items.len(),
{
    if items.len() > 0 {
        lemma_days_in_order(days, items.drop_last());
        if let Some((date, tokens)) = day_tokens(items.last()) {
            lemma_put_in_order::<String, i64>(with_days(days, items.drop_last()), date, tokens);
        }
    }
}

proof fn lemma_account_days_in_order(
    rows: Seq<SourceAppServerRecordView>,
    daily: Seq<Option<JsonView>>,
)
    ensures
        keys_increase::<String, i64>(account_days(rows, daily)),
    decreases rows.len(),
{
    if rows.len() > 0 {
        lemma_account_days_in_order(rows.drop_last(), daily);
        lemma_days_in_order(
            account_days(rows.drop_last(), daily),
            told_items(daily[rows.len() - 1]),
        );
    }
}

proof fn lemma_earlier_days(
    rows: Seq<SourceAppServerRecordView>,
    daily: Seq<Option<JsonView>>,
    list: Option<JsonView>,
)
    requires
        rows.len() <= daily.len(),
    ensures
        account_days(rows, daily.push(list)) == account_days(rows, daily),
    decreases rows.len(),
{
    if rows.len() > 0 {
        lemma_earlier_days(rows.drop_last(), daily, list);
    }
}

/// The tokens of a day of the account are those that the item that comes last tells of it. A row of
/// usage adds the items of its list, of which one more gives the tokens of its date; any other row
/// adds none.
pub proof fn lemma_item_tells_its_day(
    rows: Seq<SourceAppServerRecordView>,
    daily: Seq<Option<JsonView>>,
    row: SourceAppServerRecordView,
    items: Seq<JsonView>,
    item: JsonView,
    date: Seq<char>,
)
    requires
        rows.len() == daily.len(),
    ensures
        ({
            let before = account_of(rows, daily).daily_tokens;
            let none = account_of(
                rows.push(row),
                daily.push(Some(JsonView::Array(Seq::empty()))),
            ).daily_tokens;
            let some = account_of(
                rows.push(row),
                daily.push(Some(JsonView::Array(items))),
            ).daily_tokens;
            let more = account_of(
                rows.push(row),
                daily.push(Some(JsonView::Array(items.push(item)))),
            ).daily_tokens;
            &&& none == before
            &&& row.kind != "usage"@ ==> more == before
            &&& row.kind == "usage"@ ==> lookup::<String, i64>(more, date) == (if date_told(item)
                == Some(date) && tokens_told(item) is Some {
                tokens_told(item)
            } else {
                lookup::<String, i64>(some, date)
            })
        }),
{
    let all = rows.push(row);
    assert(all.drop_last() =~= rows);
    let lists = |list: Seq<JsonView>| daily.push(Some(JsonView::Array(list)));
    assert(items.push(item).drop_last() =~= items);
    lemma_earlier_days(rows, daily, Some(JsonView::Array(Seq::empty())));
    lemma_earlier_days(rows, daily, Some(JsonView::Array(items)));
    lemma_earlier_days(rows, daily, Some(JsonView::Array(items.push(item))));
    lemma_account_days_in_order(all, lists(items));
    lemma_find_by_three(item, "startDate"@, "start_date"@, "date"@);
    lemma_find_by_two(item, "tokens"@, "totalTokens"@);
    if row.kind == "usage"@ {
        let some = account_days(all, lists(items));
        if let Some((own, tokens)) = day_tokens(item) {
            lemma_put_lookup::<String, i64>(some, own, tokens, date);
        }
    }
}

} // verus!
