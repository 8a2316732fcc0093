//! What was collected, as the tables are made from it.
use crate::db::{
    SourceAppServerRecord, SourceAppServerRecordView, SourceJsonlRecord, SourceJsonlRecordView,
};
use crate::json::{Json, JsonView};
use crate::minimal::rollup::roots::{SessionMeta, SessionMetaView};
use crate::num::{clamp_i64, saturating_add};
use crate::ordered::{lookup, put, sort, sorted, OrderedMap, Ranking};
use crate::pipelines::result::materialize::load::{
    add_days, kind_or_primary, or_zero, told_items, value_or_zero, with_days,
};
use crate::pipelines::result::materialize::records::{
    empty_account_context, AccountContext, AccountContextView, QuotaObservation,
    QuotaObservationView, TurnRecord, TurnRecordView, UsageRecord, UsageRecordView,
};
use crate::pricing::TokenCounts;
use crate::text::{copy_option, text_or};
use vstd::prelude::*;
use vstd::string::*;

verus! {

/// What was collected.
#[derive(Debug)]
pub struct Facts {
    pub usages: Vec<UsageRecord>,
    pub sessions: OrderedMap<String, SessionMeta>,
    pub turns: OrderedMap<String, Vec<TurnRecord>>,
    pub quotas: Vec<QuotaObservation>,
    pub account: AccountContext,
}

/// A `Facts` with its texts as sequences of characters.
#[verifier::ext_equal]
pub struct FactsView {
    pub usages: Seq<UsageRecordView>,
    pub sessions: Seq<(Seq<char>, SessionMetaView)>,
    pub turns: Seq<(Seq<char>, Seq<TurnRecordView>)>,
    pub quotas: Seq<QuotaObservationView>,
    pub account: AccountContextView,
}

impl DeepView for Facts {
    type V = FactsView;

    open spec fn deep_view(&self) -> FactsView {
        FactsView {
            usages: self.usages.deep_view(),
            sessions: self.sessions.deep_view(),
            turns: self.turns.deep_view(),
            quotas: self.quotas.deep_view(),
            account: self.account.deep_view(),
        }
    }
}

/// The tokens of a row: a total that is missing is that of input, output and reasoning.
pub open spec fn tokens_of(row: SourceJsonlRecordView) -> TokenCounts {
    let input = or_zero(row.input_tokens);
    let output = or_zero(row.output_tokens);
    let reasoning = or_zero(row.reasoning_tokens);
    TokenCounts {
        input,
        cached: or_zero(row.cache_read_tokens),
        cache_write: or_zero(row.cache_write_tokens),
        output,
        reasoning,
        total: match row.total_tokens {
            Some(total) => total,
            None => clamp_i64(clamp_i64(input + output) + reasoning),
        },
    }
}

/// The usage of a row.
pub open spec fn usage_of(row: SourceJsonlRecordView) -> UsageRecordView {
    UsageRecordView {
        source_key: row.source_key,
        observed_at_ms: row.observed_at_ms,
        session_id: row.session_id,
        root_session_id: row.root_session_id,
        turn_id: None,
        model: row.model,
        tier: row.service_tier,
        reasoning_effort: None,
        relation: None,
        provider: row.provider,
        plan_type: row.plan_type,
        tokens: tokens_of(row),
    }
}

/// The usages that rows of that kind tell.
pub fn load_usages(rows: &Vec<SourceJsonlRecord>) -> (r: Vec<UsageRecord>)
    ensures
        r.deep_view() == rows.deep_view().map_values(|row: SourceJsonlRecordView| usage_of(row)),
{
    let ghost all = rows.deep_view();
    let ghost wanted = all.map_values(|row: SourceJsonlRecordView| usage_of(row));
    let mut usages: Vec<UsageRecord> = Vec::new();
    assert(usages.deep_view() =~= wanted.take(0));
    let mut i: usize = 0;
    while i < rows.len()
        invariant
            i <= rows@.len(),
            all == rows.deep_view(),
            wanted == all.map_values(|row: SourceJsonlRecordView| usage_of(row)),
            usages.deep_view() == wanted.take(i as int),
        decreases rows@.len() - i,
    {
        let row = &rows[i];
        assert(all[i as int] == row.deep_view());
        let (input, output) = (value_or_zero(row.input_tokens), value_or_zero(row.output_tokens));
        let reasoning = value_or_zero(row.reasoning_tokens);
        let usage = UsageRecord {
            source_key: row.source_key.clone(),
            observed_at_ms: row.observed_at_ms,
            session_id: copy_option(&row.session_id),
            root_session_id: copy_option(&row.root_session_id),
            turn_id: None,
            model: copy_option(&row.model),
            tier: copy_option(&row.service_tier),
            reasoning_effort: None,
            relation: None,
            provider: copy_option(&row.provider),
            plan_type: copy_option(&row.plan_type),
            tokens: TokenCounts {
                input,
                cached: value_or_zero(row.cache_read_tokens),
                cache_write: value_or_zero(row.cache_write_tokens),
                output,
                reasoning,
                total: match row.total_tokens {
                    Some(total) => total,
                    None => saturating_add(saturating_add(input, output), reasoning),
                },
            },
        };
        let ghost before = usages.deep_view();
        let ghost told = usage.deep_view();
        assert(told =~= wanted[i as int]);
        usages.push(usage);
        assert(usages.deep_view() =~= before.push(told));
        assert(wanted.take(i + 1) =~= wanted.take(i as int).push(told));
        i = i + 1;
    }
    assert(wanted.take(i as int) =~= wanted);
    usages
}

/// The turns of a session.
pub open spec fn turns_of_session(
    turns: Seq<(Seq<char>, Seq<TurnRecordView>)>,
    session_id: Seq<char>,
) -> Seq<TurnRecordView> {
    match lookup::<String, Seq<TurnRecordView>>(turns, session_id) {
        Some(turns) => turns,
        None => Seq::empty(),
    }
}

/// The turns that rows of that kind tell, by their sessions.
pub open spec fn turns_of(rows: Seq<SourceJsonlRecordView>) -> Seq<
    (Seq<char>, Seq<TurnRecordView>),
>
    decreases rows.len(),
{
    if rows.len() == 0 {
        Seq::empty()
    } else {
        let before = turns_of(rows.drop_last());
        let row = rows.last();
        match (row.session_id, row.turn_id) {
            (Some(session_id), Some(id)) => put::<String, Seq<TurnRecordView>>(
                before,
                session_id,
                turns_of_session(before, session_id).push(
                    TurnRecordView { id, started: row.started_at_ms, ended: row.ended_at_ms },
                ),
            ),
            _ => before,
        }
    }
}

/// The turns that rows of that kind tell, by their sessions.
pub fn load_turns(rows: &Vec<SourceJsonlRecord>) -> (r: OrderedMap<String, Vec<TurnRecord>>)
    ensures
        r.deep_view() == turns_of(rows.deep_view()),
{
    let ghost all = rows.deep_view();
    let mut turns: OrderedMap<String, Vec<TurnRecord>> = OrderedMap::new();
    let mut i: usize = 0;
    while i < rows.len()
        invariant
            i <= rows@.len(),
            all == rows.deep_view(),
            turns.deep_view() == turns_of(all.take(i as int)),
        decreases rows@.len() - i,
    {
        assert(all.take(i + 1).drop_last() =~= all.take(i as int));
        assert(all.take(i + 1).last() == rows@[i as int].deep_view());
        if let (Some(session_id), Some(id)) = (&rows[i].session_id, &rows[i].turn_id) {
            let empty: Vec<TurnRecord> = Vec::new();
            assert(empty.deep_view() =~= Seq::empty());
            let turn = TurnRecord {
                id: id.clone(),
                started: rows[i].started_at_ms,
                ended: rows[i].ended_at_ms,
            };
            let ghost told = turn.deep_view();
            let members = turns.entry(session_id.clone(), empty);
            let ghost before = members.deep_view();
            members.push(turn);
            assert(members.deep_view() =~= before.push(told));
        }
        i = i + 1;
    }
    assert(all.take(i as int) =~= all);
    turns
}

/// The quota of a row of a log.
pub open spec fn jsonl_quota(row: SourceJsonlRecordView) -> QuotaObservationView {
    QuotaObservationView {
        first_seen_at_ms: row.observed_at_ms,
        last_seen_at_ms: row.observed_at_ms,
        account_key: None,
        limit_id: row.limit_id,
        window_kind: text_or(row.window_kind, "primary"@),
        used_percent: row.used_percent,
        window_minutes: row.window_minutes,
        resets_at_ms: row.resets_at_ms,
        plan_type: row.plan_type,
        source: "jsonl"@,
        priority: 1,
    }
}

/// The quota of a row of the account server.
pub open spec fn app_server_quota(row: SourceAppServerRecordView) -> QuotaObservationView {
    QuotaObservationView {
        first_seen_at_ms: row.first_seen_at_ms,
        last_seen_at_ms: row.first_seen_at_ms,
        account_key: row.account_key,
        limit_id: row.limit_id,
        window_kind: text_or(row.window_kind, "primary"@),
        used_percent: row.used_percent,
        window_minutes: row.window_minutes,
        resets_at_ms: row.resets_at_ms,
        plan_type: row.plan_type,
        source: "app_server"@,
        priority: 2,
    }
}

/// By when a quota was seen.
pub struct ByObserved;

impl Ranking<QuotaObservation> for ByObserved {
    open spec fn later(a: QuotaObservationView, b: QuotaObservationView) -> bool {
        a.first_seen_at_ms > b.first_seen_at_ms
    }

    fn is_later(a: &QuotaObservation, b: &QuotaObservation) -> (r: bool) {
        a.first_seen_at_ms > b.first_seen_at_ms
    }
}

/// The quotas that rows of that kind tell, in the order in which they were seen.
pub open spec fn quotas_of(
    jsonl: Seq<SourceJsonlRecordView>,
    app_server: Seq<SourceAppServerRecordView>,
) -> Seq<QuotaObservationView> {
    sorted::<QuotaObservation, ByObserved>(
        jsonl.map_values(|row: SourceJsonlRecordView| jsonl_quota(row)) + app_server.map_values(
            |row: SourceAppServerRecordView| app_server_quota(row),
        ),
    )
}

/// The quotas that rows of that kind tell, in the order in which they were seen.
pub fn load_quotas(
    jsonl: &Vec<SourceJsonlRecord>,
    app_server: &Vec<SourceAppServerRecord>,
) -> (r: Vec<QuotaObservation>)
    ensures
        r.deep_view() == quotas_of(jsonl.deep_view(), app_server.deep_view()),
{
    let ghost logs = jsonl.deep_view();
    let ghost first = logs.map_values(|row: SourceJsonlRecordView| jsonl_quota(row));
    let mut quotas: Vec<QuotaObservation> = Vec::new();
    assert(quotas.deep_view() =~= first.take(0));
    let mut i: usize = 0;
    while i < jsonl.len()
        invariant
            i <= jsonl@.len(),
            logs == jsonl.deep_view(),
            first == logs.map_values(|row: SourceJsonlRecordView| jsonl_quota(row)),
            quotas.deep_view() == first.take(i as int),
        decreases jsonl@.len() - i,
    {
        let row = &jsonl[i];
        assert(logs[i as int] == row.deep_view());
        let quota = QuotaObservation {
            first_seen_at_ms: row.observed_at_ms,
            last_seen_at_ms: row.observed_at_ms,
            account_key: None,
            limit_id: copy_option(&row.limit_id),
            window_kind: kind_or_primary(&row.window_kind),
            used_percent: row.used_percent,
            window_minutes: row.window_minutes,
            resets_at_ms: row.resets_at_ms,
            plan_type: copy_option(&row.plan_type),
            source: "jsonl".to_owned(),
            priority: 1,
        };
        let ghost before = quotas.deep_view();
        let ghost told = quota.deep_view();
        assert(told =~= first[i as int]);
        quotas.push(quota);
        assert(quotas.deep_view() =~= before.push(told));
        assert(first.take(i + 1) =~= first.take(i as int).push(told));
        i = i + 1;
    }
    assert(first.take(i as int) =~= first);
    let ghost told_rows = app_server.deep_view();
    let ghost second = told_rows.map_values(|row: SourceAppServerRecordView| app_server_quota(row));
    assert(first + second.take(0) =~= first);
    let mut j: usize = 0;
    while j < app_server.len()
        invariant
            j <= app_server@.len(),
            told_rows == app_server.deep_view(),
            second == told_rows.map_values(
                |row: SourceAppServerRecordView| app_server_quota(row),
            ),
            quotas.deep_view() == first + second.take(j as int),
        decreases app_server@.len() - j,
    {
        let row = &app_server[j];
        assert(told_rows[j as int] == row.deep_view());
        let quota = QuotaObservation {
            first_seen_at_ms: row.first_seen_at_ms,
            last_seen_at_ms: row.first_seen_at_ms,
            account_key: copy_option(&row.account_key),
            limit_id: copy_option(&row.limit_id),
            window_kind: kind_or_primary(&row.window_kind),
            used_percent: row.used_percent,
            window_minutes: row.window_minutes,
            resets_at_ms: row.resets_at_ms,
            plan_type: copy_option(&row.plan_type),
            source: "app_server".to_owned(),
            priority: 2,
        };
        let ghost before = quotas.deep_view();
        let ghost told = quota.deep_view();
        assert(told =~= second[j as int]);
        quotas.push(quota);
        assert(quotas.deep_view() =~= before.push(told));
        assert(first + second.take(j + 1) =~= (first + second.take(j as int)).push(told));
        j = j + 1;
    }
    assert(second.take(j as int) =~= second);
    sort::<QuotaObservation, ByObserved>(quotas)
}

/// The tokens by day that lists tell, one list after the other.
pub open spec fn days_of(lists: Seq<JsonView>) -> Seq<(Seq<char>, i64)>
    decreases lists.len(),
{
    if lists.len() == 0 {
        Seq::empty()
    } else {
        with_days(days_of(lists.drop_last()), told_items(Some(lists.last())))
    }
}

/// The account that was seen last, with the tokens by day that lists tell.
pub open spec fn account_of(
    account: Option<SourceAppServerRecordView>,
    lists: Seq<JsonView>,
) -> AccountContextView {
    match account {
        Some(row) => AccountContextView {
            account_key: row.account_key,
            auth_kind: row.auth_kind,
            provider: None,
            plan_type: row.plan_type,
            daily_tokens: days_of(lists),
        },
        None => AccountContextView { daily_tokens: days_of(lists), ..empty_account_context() },
    }
}

/// The account that was seen last, with the tokens by day that lists tell.
pub fn load_account_context(
    account: Option<&SourceAppServerRecord>,
    daily: &Vec<Option<Json>>,
) -> (r: AccountContext)
    requires
        forall|i: int| 0 <= i < daily@.len() ==> (#[trigger] daily@[i]) is Some,
    ensures
        r.deep_view() == account_of(
            account.deep_view(),
            daily.deep_view().map_values(|list: Option<JsonView>| list->0),
        ),
{
    let ghost lists = daily.deep_view().map_values(|list: Option<JsonView>| list->0);
    let mut days: OrderedMap<String, i64> = OrderedMap::new();
    let mut i: usize = 0;
    while i < daily.len()
        invariant
            i <= daily@.len(),
            forall|i: int| 0 <= i < daily@.len() ==> (#[trigger] daily@[i]) is Some,
            lists == daily.deep_view().map_values(|list: Option<JsonView>| list->0),
            days.deep_view() == days_of(lists.take(i as int)),
        decreases daily@.len() - i,
    {
        assert(lists.take(i + 1).drop_last() =~= lists.take(i as int));
        assert(daily@[i as int] is Some);
        assert(daily.deep_view()[i as int] == daily@[i as int].deep_view());
        assert(lists.take(i + 1).last() == daily@[i as int].deep_view()->0);
        add_days(&mut days, &daily[i]);
        i = i + 1;
    }
    assert(lists.take(i as int) =~= lists);
    match account {
        Some(row) => AccountContext {
            account_key: copy_option(&row.account_key),
            auth_kind: copy_option(&row.auth_kind),
            provider: None,
            plan_type: copy_option(&row.plan_type),
            daily_tokens: days,
        },
        None => AccountContext {
            account_key: None,
            auth_kind: None,
            provider: None,
            plan_type: None,
            daily_tokens: days,
        },
    }
}

} // verus!
