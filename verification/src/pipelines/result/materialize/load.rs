//! What the rollups are made from, read from the stored facts.
use crate::db::{
    CapacityRecord, CapacityRecordView, SourceAppServerRecord, SourceAppServerRecordView,
    SourceJsonlRecord, SourceJsonlRecordView,
};
use crate::json::{text_of_first, views, Json, JsonView};
use crate::ordered::{lookup, put, sort, sorted, OrderedMap, Ranking};
use crate::pipelines::result::materialize::records::{
    empty_account_context, AccountContext, AccountContextView, Capacity, CapacityView,
    QuotaObservation, QuotaObservationView, SessionMeta, SessionMetaView, TurnRecord,
    TurnRecordView, UsageRecord, UsageRecordView,
};
use crate::pipelines::result::materialize::windows::{is_retained, retain_canonical_primary_quotas};
use crate::pricing::{tokens_normalized, tokens_observed, TokenCounts};
use crate::text::{copy_option, first_of, first_some, same, text_or};
use vstd::prelude::*;
use vstd::string::*;

verus! {

/// What the stored rows of logs tell: requests, sessions, and turns by session.
#[derive(Debug)]
pub struct JsonlFacts {
    pub usages: Vec<UsageRecord>,
    pub sessions: OrderedMap<String, SessionMeta>,
    pub turns: OrderedMap<String, Vec<TurnRecord>>,
}

/// `JsonlFacts` with its texts as sequences of characters.
#[verifier::ext_equal]
pub struct JsonlFactsView {
    pub usages: Seq<UsageRecordView>,
    pub sessions: Seq<(Seq<char>, SessionMetaView)>,
    pub turns: Seq<(Seq<char>, Seq<TurnRecordView>)>,
}

impl DeepView for JsonlFacts {
    type V = JsonlFactsView;

    open spec fn deep_view(&self) -> JsonlFactsView {
        JsonlFactsView {
            usages: self.usages.deep_view(),
            sessions: self.sessions.deep_view(),
            turns: self.turns.deep_view(),
        }
    }
}

/// By when a request was made.
pub struct ByObserved;

impl Ranking<UsageRecord> for ByObserved {
    open spec fn later(a: UsageRecordView, b: UsageRecordView) -> bool {
        a.observed_at_ms > b.observed_at_ms
    }

    fn is_later(a: &UsageRecord, b: &UsageRecord) -> (r: bool) {
        a.observed_at_ms > b.observed_at_ms
    }
}

/// By when a turn started; those of which that is not known come first.
pub struct ByTurnStart;

impl Ranking<TurnRecord> for ByTurnStart {
    open spec fn later(a: TurnRecordView, b: TurnRecordView) -> bool {
        match (a.started, b.started) {
            (Some(a), Some(b)) => a > b,
            (Some(_), None) => true,
            (None, _) => false,
        }
    }

    fn is_later(a: &TurnRecord, b: &TurnRecord) -> (r: bool) {
        match (a.started, b.started) {
            (Some(a), Some(b)) => a > b,
            (Some(_), None) => true,
            (None, _) => false,
        }
    }
}

/// A number, or 0.
pub open spec fn or_zero(value: Option<i64>) -> i64 {
    match value {
        Some(value) => value,
        None => 0,
    }
}

/// A number, or zero where there is none.
pub(crate) fn value_or_zero(value: Option<i64>) -> (r: i64)
    ensures
        r == or_zero(value),
{
    match value {
        Some(n) => n,
        None => 0,
    }
}

/// The tokens of a row, in their normal form.
pub open spec fn tokens_of_row(row: SourceJsonlRecordView) -> TokenCounts {
    tokens_normalized(
        TokenCounts {
            input: or_zero(row.input_tokens),
            cached: or_zero(row.cache_read_tokens),
            cache_write: or_zero(row.cache_write_tokens),
            output: or_zero(row.output_tokens),
            reasoning: or_zero(row.reasoning_tokens),
            total: or_zero(row.total_tokens),
        },
    )
}

/// Whether a row is of a request that used tokens.
pub open spec fn is_usage_row(row: SourceJsonlRecordView) -> bool {
    row.kind == "usage"@ && tokens_observed(tokens_of_row(row))
}

/// The request of a row.
pub open spec fn usage_of_row(row: SourceJsonlRecordView) -> UsageRecordView {
    UsageRecordView {
        source_key: row.source_key,
        observed_at_ms: row.observed_at_ms,
        session_id: row.session_id,
        root_session_id: row.root_session_id,
        turn_id: row.turn_id,
        model: row.model,
        tier: row.service_tier,
        reasoning_effort: row.reasoning_effort,
        relation: row.relation,
        provider: row.provider,
        plan_type: row.plan_type,
        tokens: tokens_of_row(row),
    }
}

/// What rows tell, with what one more row tells.
pub open spec fn with_row(facts: JsonlFactsView, row: SourceJsonlRecordView) -> JsonlFactsView {
    if is_usage_row(row) {
        JsonlFactsView { usages: facts.usages.push(usage_of_row(row)), ..facts }
    } else if row.kind == "session"@ && row.session_id is Some {
        JsonlFactsView {
            sessions: put::<String, SessionMetaView>(
                facts.sessions,
                row.session_id->0,
                SessionMetaView { title: row.title, relation: row.relation },
            ),
            ..facts
        }
    } else if row.kind == "turn"@ && row.session_id is Some && row.turn_id is Some {
        let held = match lookup::<String, Seq<TurnRecordView>>(facts.turns, row.session_id->0) {
            Some(held) => held,
            None => Seq::empty(),
        };
        JsonlFactsView {
            turns: put::<String, Seq<TurnRecordView>>(
                facts.turns,
                row.session_id->0,
                held.push(
                    TurnRecordView {
                        id: row.turn_id->0,
                        started: row.started_at_ms,
                        ended: row.ended_at_ms,
                    },
                ),
            ),
            ..facts
        }
    } else {
        facts
    }
}

/// What rows tell, in the order of the rows.
pub open spec fn facts_in_order(rows: Seq<SourceJsonlRecordView>) -> JsonlFactsView
    decreases rows.len(),
{
    if rows.len() == 0 {
        JsonlFactsView { usages: Seq::empty(), sessions: Seq::empty(), turns: Seq::empty() }
    } else {
        with_row(facts_in_order(rows.drop_last()), rows.last())
    }
}

/// Turns by session, each session's in the order in which they started.
pub open spec fn sorted_turns(turns: Seq<(Seq<char>, Seq<TurnRecordView>)>) -> Seq<
    (Seq<char>, Seq<TurnRecordView>),
> {
    Seq::new(turns.len(), |i: int| (turns[i].0, sorted::<TurnRecord, ByTurnStart>(turns[i].1)))
}

/// What the stored rows of logs tell.
pub open spec fn facts_of(rows: Seq<SourceJsonlRecordView>) -> JsonlFactsView {
    let facts = facts_in_order(rows);
    JsonlFactsView {
        usages: sorted::<UsageRecord, ByObserved>(facts.usages),
        sessions: facts.sessions,
        turns: sorted_turns(facts.turns),
    }
}

/// The place of the account that was seen last, of several that of the last.
pub open spec fn latest_account(rows: Seq<SourceAppServerRecordView>) -> Option<int>
    decreases rows.len(),
{
    if rows.len() == 0 {
        None
    } else {
        let rest = latest_account(rows.drop_last());
        let better = match rest {
            Some(i) => rows[i].last_seen_at_ms <= rows.last().last_seen_at_ms,
            None => true,
        };
        if rows.last().kind == "account"@ && better {
            Some(rows.len() - 1)
        } else {
            rest
        }
    }
}

/// The keys under which the date of a day's tokens may stand.
pub open spec fn date_keys() -> Seq<Seq<char>> {
    seq!["startDate"@, "start_date"@, "date"@]
}

/// The keys under which a day's tokens may stand.
pub open spec fn token_keys() -> Seq<Seq<char>> {
    seq!["tokens"@, "totalTokens"@]
}

/// A day's tokens, where both the date and the tokens are told.
pub open spec fn day_tokens(item: JsonView) -> Option<(Seq<char>, i64)> {
    let tokens = match item.find(token_keys()) {
        Some(value) => value.as_exact(),
        None => None,
    };
    match (text_of_first(item, date_keys()), tokens) {
        (Some(date), Some(tokens)) => Some((date, tokens)),
        _ => None,
    }
}

/// Tokens by day with those of a list.
pub open spec fn with_days(days: Seq<(Seq<char>, i64)>, items: Seq<JsonView>) -> Seq<
    (Seq<char>, i64),
>
    decreases items.len(),
{
    if items.len() == 0 {
        days
    } else {
        let before = with_days(days, items.drop_last());
        match day_tokens(items.last()) {
            Some((date, tokens)) => put::<String, i64>(before, date, tokens),
            None => before,
        }
    }
}

/// The items of a list that is told.
pub open spec fn told_items(value: Option<JsonView>) -> Seq<JsonView> {
    match value {
        Some(JsonView::Array(items)) => items,
        _ => Seq::empty(),
    }
}

/// The tokens by day that the usage rows of the account tell; `daily` holds, for each row, the list
/// of days that it tells.
pub open spec fn account_days(
    rows: Seq<SourceAppServerRecordView>,
    daily: Seq<Option<JsonView>>,
) -> Seq<(Seq<char>, i64)>
    decreases rows.len(),
{
    if rows.len() == 0 {
        Seq::empty()
    } else {
        let before = account_days(rows.drop_last(), daily);
        if rows.last().kind == "usage"@ {
            with_days(before, told_items(daily[rows.len() - 1]))
        } else {
            before
        }
    }
}

/// The account that was seen last, with the tokens by day that all usage rows tell.
pub open spec fn account_of(
    rows: Seq<SourceAppServerRecordView>,
    daily: Seq<Option<JsonView>>,
) -> AccountContextView {
    let days = account_days(rows, daily);
    match latest_account(rows) {
        Some(i) => AccountContextView {
            account_key: rows[i].account_key,
            auth_kind: rows[i].auth_kind,
            provider: rows[i].provider,
            plan_type: rows[i].plan_type,
            daily_tokens: days,
        },
        None => AccountContextView { daily_tokens: days, ..empty_account_context() },
    }
}

/// The quota that a row of a log tells.
pub open spec fn jsonl_quota(
    row: SourceJsonlRecordView,
    account: AccountContextView,
) -> QuotaObservationView {
    QuotaObservationView {
        first_seen_at_ms: row.observed_at_ms,
        last_seen_at_ms: match row.last_seen_at_ms {
            Some(seen) => seen,
            None => row.observed_at_ms,
        },
        account_key: account.account_key,
        limit_id: row.limit_id,
        window_kind: text_or(row.window_kind, "primary"@),
        used_percent: row.used_percent,
        window_minutes: row.window_minutes,
        resets_at_ms: row.resets_at_ms,
        plan_type: row.plan_type,
        source: "jsonl"@,
        priority: 1,
    }
}

/// The quota that a row of the account tells.
pub open spec fn app_server_quota(
    row: SourceAppServerRecordView,
    account: AccountContextView,
) -> QuotaObservationView {
    QuotaObservationView {
        first_seen_at_ms: row.first_seen_at_ms,
        last_seen_at_ms: row.last_seen_at_ms,
        account_key: first_some(row.account_key, account.account_key),
        limit_id: row.limit_id,
        window_kind: text_or(row.window_kind, "primary"@),
        used_percent: row.used_percent,
        window_minutes: row.window_minutes,
        resets_at_ms: row.resets_at_ms,
        plan_type: first_some(row.plan_type, account.plan_type),
        source: "app_server"@,
        priority: 2,
    }
}

/// The quotas that rows of logs tell.
pub open spec fn jsonl_quotas(
    rows: Seq<SourceJsonlRecordView>,
    account: AccountContextView,
) -> Seq<QuotaObservationView>
    decreases rows.len(),
{
    if rows.len() == 0 {
        Seq::empty()
    } else {
        let before = jsonl_quotas(rows.drop_last(), account);
        if rows.last().kind == "quota"@ {
            before.push(jsonl_quota(rows.last(), account))
        } else {
            before
        }
    }
}

/// Quotas with those that rows of the account tell.
pub open spec fn with_app_server_quotas(
    quotas: Seq<QuotaObservationView>,
    rows: Seq<SourceAppServerRecordView>,
    account: AccountContextView,
) -> Seq<QuotaObservationView>
    decreases rows.len(),
{
    if rows.len() == 0 {
        quotas
    } else {
        let before = with_app_server_quotas(quotas, rows.drop_last(), account);
        if rows.last().kind == "quota"@ {
            before.push(app_server_quota(rows.last(), account))
        } else {
            before
        }
    }
}

/// All quotas that are told, those of logs first.
pub open spec fn all_quotas(
    jsonl: Seq<SourceJsonlRecordView>,
    app_server: Seq<SourceAppServerRecordView>,
    account: AccountContextView,
) -> Seq<QuotaObservationView> {
    with_app_server_quotas(jsonl_quotas(jsonl, account), app_server, account)
}

/// The quotas that count.
pub open spec fn quotas_of(
    jsonl: Seq<SourceJsonlRecordView>,
    app_server: Seq<SourceAppServerRecordView>,
    account: AccountContextView,
) -> Seq<QuotaObservationView> {
    let all = all_quotas(jsonl, app_server, account);
    all.filter(|quota: QuotaObservationView| is_retained(all, quota))
}

/// The capacity of a row.
pub open spec fn capacity_of_row(row: CapacityRecordView) -> CapacityView {
    CapacityView {
        profile: row.profile_code,
        account_key: row.account_key,
        plan_type: row.plan_type,
        credit: row.weekly_credit,
        from: row.effective_from_ms,
        to: row.effective_to_ms,
    }
}

/// The capacities of rows.
pub open spec fn capacities_of(rows: Seq<CapacityRecordView>) -> Seq<CapacityView> {
    Seq::new(rows.len(), |i: int| capacity_of_row(rows[i]))
}

fn row_tokens(row: &SourceJsonlRecord) -> (r: TokenCounts)
    ensures
        r == tokens_of_row(row.deep_view()),
{
    TokenCounts {
        input: value_or_zero(row.input_tokens),
        cached: value_or_zero(row.cache_read_tokens),
        cache_write: value_or_zero(row.cache_write_tokens),
        output: value_or_zero(row.output_tokens),
        reasoning: value_or_zero(row.reasoning_tokens),
        total: value_or_zero(row.total_tokens),
    }.normalized()
}

fn add_row(facts: &mut JsonlFacts, row: &SourceJsonlRecord)
    ensures
        final(facts).deep_view() == with_row(old(facts).deep_view(), row.deep_view()),
{
    let ghost before = facts.deep_view();
    if same(row.kind.as_str(), "usage") {
        let tokens = row_tokens(row);
        proof {
            reveal_strlit("usage");
            reveal_strlit("session");
            reveal_strlit("turn");
            assert("usage"@[0] == 'u' && "session"@[0] == 's' && "turn"@[0] == 't');
        }
        if tokens.observed() {
            facts.usages.push(
                UsageRecord {
                    source_key: row.source_key.clone(),
                    observed_at_ms: row.observed_at_ms,
                    session_id: copy_option(&row.session_id),
                    root_session_id: copy_option(&row.root_session_id),
                    turn_id: copy_option(&row.turn_id),
                    model: copy_option(&row.model),
                    tier: copy_option(&row.service_tier),
                    reasoning_effort: copy_option(&row.reasoning_effort),
                    relation: copy_option(&row.relation),
                    provider: copy_option(&row.provider),
                    plan_type: copy_option(&row.plan_type),
                    tokens,
                },
            );
            assert(facts.usages.deep_view() =~= before.usages.push(usage_of_row(row.deep_view())));
        }
    } else if same(row.kind.as_str(), "session") {
        proof {
            reveal_strlit("session");
            reveal_strlit("turn");
            assert("session"@[0] == 's' && "turn"@[0] == 't');
        }
        if let Some(session_id) = &row.session_id {
            facts.sessions.put(
                session_id.clone(),
                SessionMeta {
                    title: copy_option(&row.title),
                    relation: copy_option(&row.relation),
                },
            );
        }
    } else if same(row.kind.as_str(), "turn") {
        if let (Some(session_id), Some(turn_id)) = (&row.session_id, &row.turn_id) {
            let turn = TurnRecord {
                id: turn_id.clone(),
                started: row.started_at_ms,
                ended: row.ended_at_ms,
            };
            let none: Vec<TurnRecord> = Vec::new();
            assert(none.deep_view() =~= Seq::empty());
            let held = facts.turns.entry(session_id.clone(), none);
            let ghost turns = held.deep_view();
            held.push(turn);
            assert(held.deep_view() =~= turns.push(turn.deep_view()));
        }
    }
}

/// Reads what the stored rows of logs tell.
pub fn load_jsonl(rows: &Vec<SourceJsonlRecord>) -> (r: JsonlFacts)
    ensures
        r.deep_view() == facts_of(rows.deep_view()),
{
    let ghost all = rows.deep_view();
    let mut facts = JsonlFacts {
        usages: Vec::new(),
        sessions: OrderedMap::new(),
        turns: OrderedMap::new(),
    };
    assert(facts.deep_view() =~= facts_in_order(all.take(0)));
    let mut i: usize = 0;
    while i < rows.len()
        invariant
            i <= rows@.len(),
            all == rows.deep_view(),
            facts.deep_view() == facts_in_order(all.take(i as int)),
        decreases rows@.len() - i,
    {
        assert(all.take(i + 1).drop_last() =~= all.take(i as int));
        assert(all.take(i + 1).last() == rows@[i as int].deep_view());
        add_row(&mut facts, &rows[i]);
        i = i + 1;
    }
    assert(all.take(i as int) =~= all);
    let ghost gathered = facts.turns.deep_view();
    let ghost expected = sorted_turns(gathered);
    let mut entries: Vec<(String, Vec<TurnRecord>)> = Vec::new();
    for entry in it: facts.turns.entries
        invariant
            it.seq().len() == gathered.len(),
            expected == sorted_turns(gathered),
            forall|k: int|
                0 <= k < gathered.len() ==> (#[trigger] it.seq()[k]).deep_view() == gathered[k],
            entries.deep_view() == expected.take(it.index()),
    {
        let ghost before = entries.deep_view();
        let ghost n = it.index();
        let (session_id, turns) = entry;
        let entry = (session_id, sort::<TurnRecord, ByTurnStart>(turns));
        assert(entry.deep_view() == expected[n]);
        entries.push(entry);
        assert(entries.deep_view() =~= before.push(expected[n]));
        assert(entries.deep_view() =~= expected.take(n + 1));
    }
    assert(expected.take(expected.len() as int) =~= expected);
    JsonlFacts {
        usages: sort::<UsageRecord, ByObserved>(facts.usages),
        sessions: facts.sessions,
        turns: OrderedMap { entries },
    }
}

fn find_account(rows: &Vec<SourceAppServerRecord>) -> (r: Option<usize>)
    ensures
        match r {
            Some(n) => n < rows@.len() && latest_account(rows.deep_view()) == Some(n as int),
            None => latest_account(rows.deep_view()) is None,
        },
{
    let ghost all = rows.deep_view();
    let mut best: Option<usize> = None;
    let mut i: usize = 0;
    while i < rows.len()
        invariant
            i <= rows@.len(),
            all == rows.deep_view(),
            match best {
                Some(n) => n < i && latest_account(all.take(i as int)) == Some(n as int),
                None => latest_account(all.take(i as int)) is None,
            },
        decreases rows@.len() - i,
    {
        assert(all.take(i + 1).drop_last() =~= all.take(i as int));
        assert(all.take(i + 1).last() == rows@[i as int].deep_view());
        let better = match best {
            Some(n) => rows[n].last_seen_at_ms <= rows[i].last_seen_at_ms,
            None => true,
        };
        if same(rows[i].kind.as_str(), "account") && better {
            best = Some(i);
        }
        i = i + 1;
    }
    assert(all.take(i as int) =~= all);
    best
}

fn read_day(item: &Json) -> (r: Option<(String, i64)>)
    ensures
        r.deep_view() == day_tokens(item@),
{
    let dates: [&str; 3] = ["startDate", "start_date", "date"];
    let counts: [&str; 2] = ["tokens", "totalTokens"];
    assert(views(dates@) =~= date_keys());
    assert(views(counts@) =~= token_keys());
    let tokens = match item.find(counts.as_slice()) {
        Some(value) => value.as_exact(),
        None => None,
    };
    match (item.text_of_first(dates.as_slice()), tokens) {
        (Some(date), Some(tokens)) => Some((date, tokens)),
        _ => None,
    }
}

pub(crate) fn add_days(days: &mut OrderedMap<String, i64>, value: &Option<Json>)
    ensures
        final(days).deep_view() == with_days(
            old(days).deep_view(),
            told_items(value.deep_view()),
        ),
{
    let ghost before = days.deep_view();
    if let Some(Json::Array(items)) = value {
        let ghost all = items.deep_view();
        assert(told_items(value.deep_view()) =~= all);
        let mut i: usize = 0;
        while i < items.len()
            invariant
                i <= items@.len(),
                all == items.deep_view(),
                days.deep_view() == with_days(before, all.take(i as int)),
            decreases items@.len() - i,
        {
            assert(all.take(i + 1).drop_last() =~= all.take(i as int));
            assert(all.take(i + 1).last() == items@[i as int]@);
            if let Some((date, tokens)) = read_day(&items[i]) {
                days.put(date, tokens);
            }
            i = i + 1;
        }
        assert(all.take(i as int) =~= all);
    }
}

/// Reads the account; `daily` holds, for each row, the list of days that it tells.
pub fn load_account(rows: &Vec<SourceAppServerRecord>, daily: &Vec<Option<Json>>) -> (r:
    AccountContext)
    requires
        daily@.len() == rows@.len(),
    ensures
        r.deep_view() == account_of(rows.deep_view(), daily.deep_view()),
{
    let ghost all = rows.deep_view();
    let ghost lists = daily.deep_view();
    let mut days: OrderedMap<String, i64> = OrderedMap::new();
    let mut i: usize = 0;
    while i < rows.len()
        invariant
            i <= rows@.len(),
            daily@.len() == rows@.len(),
            all == rows.deep_view(),
            lists == daily.deep_view(),
            days.deep_view() == account_days(all.take(i as int), lists),
        decreases rows@.len() - i,
    {
        assert(all.take(i + 1).drop_last() =~= all.take(i as int));
        assert(all.take(i + 1).last() == rows@[i as int].deep_view());
        assert(lists[i as int] == daily@[i as int].deep_view());
        if same(rows[i].kind.as_str(), "usage") {
            add_days(&mut days, &daily[i]);
        }
        i = i + 1;
    }
    assert(all.take(i as int) =~= all);
    match find_account(rows) {
        Some(n) => AccountContext {
            account_key: copy_option(&rows[n].account_key),
            auth_kind: copy_option(&rows[n].auth_kind),
            provider: copy_option(&rows[n].provider),
            plan_type: copy_option(&rows[n].plan_type),
            daily_tokens: days,
        },
        None => AccountContext {
            account_key: None,
            auth_kind: None,
            provider: None,
            plan_type: None,
            daily_tokens: days,
        },
    }
}

pub(crate) fn kind_or_primary(kind: &Option<String>) -> (r: String)
    ensures
        r@ == text_or(kind.deep_view(), "primary"@),
{
    match kind {
        Some(kind) => kind.clone(),
        None => "primary".to_owned(),
    }
}

/// Reads the quotas that count, and the account; `daily` holds, for each row of the account, the
/// list of days that it tells.
pub fn load_account_and_quotas(
    jsonl: &Vec<SourceJsonlRecord>,
    app_server: &Vec<SourceAppServerRecord>,
    daily: &Vec<Option<Json>>,
) -> (r: (Vec<QuotaObservation>, AccountContext))
    requires
        daily@.len() == app_server@.len(),
    ensures
        r.1.deep_view() == account_of(app_server.deep_view(), daily.deep_view()),
        r.0.deep_view() == quotas_of(
            jsonl.deep_view(),
            app_server.deep_view(),
            r.1.deep_view(),
        ),
{
    let account = load_account(app_server, daily);
    let ghost context = account.deep_view();
    let ghost logs = jsonl.deep_view();
    let ghost rows = app_server.deep_view();
    let mut quotas: Vec<QuotaObservation> = Vec::new();
    assert(quotas.deep_view() =~= jsonl_quotas(logs.take(0), context));
    let mut i: usize = 0;
    while i < jsonl.len()
        invariant
            i <= jsonl@.len(),
            logs == jsonl.deep_view(),
            context == account.deep_view(),
            quotas.deep_view() == jsonl_quotas(logs.take(i as int), context),
        decreases jsonl@.len() - i,
    {
        let row = &jsonl[i];
        let ghost before = quotas.deep_view();
        assert(logs.take(i + 1).drop_last() =~= logs.take(i as int));
        assert(logs.take(i + 1).last() == row.deep_view());
        if same(row.kind.as_str(), "quota") {
            quotas.push(
                QuotaObservation {
                    first_seen_at_ms: row.observed_at_ms,
                    last_seen_at_ms: match row.last_seen_at_ms {
                        Some(seen) => seen,
                        None => row.observed_at_ms,
                    },
                    account_key: copy_option(&account.account_key),
                    limit_id: copy_option(&row.limit_id),
                    window_kind: kind_or_primary(&row.window_kind),
                    used_percent: row.used_percent,
                    window_minutes: row.window_minutes,
                    resets_at_ms: row.resets_at_ms,
                    plan_type: copy_option(&row.plan_type),
                    source: "jsonl".to_owned(),
                    priority: 1,
                },
            );
            assert(quotas.deep_view() =~= before.push(jsonl_quota(row.deep_view(), context)));
        }
        i = i + 1;
    }
    assert(logs.take(i as int) =~= logs);
    let ghost first = quotas.deep_view();
    let mut k: usize = 0;
    while k < app_server.len()
        invariant
            k <= app_server@.len(),
            rows == app_server.deep_view(),
            context == account.deep_view(),
            quotas.deep_view() == with_app_server_quotas(first, rows.take(k as int), context),
        decreases app_server@.len() - k,
    {
        let row = &app_server[k];
        let ghost before = quotas.deep_view();
        assert(rows.take(k + 1).drop_last() =~= rows.take(k as int));
        assert(rows.take(k + 1).last() == row.deep_view());
        if same(row.kind.as_str(), "quota") {
            quotas.push(
                QuotaObservation {
                    first_seen_at_ms: row.first_seen_at_ms,
                    last_seen_at_ms: row.last_seen_at_ms,
                    account_key: first_of(&row.account_key, &account.account_key),
                    limit_id: copy_option(&row.limit_id),
                    window_kind: kind_or_primary(&row.window_kind),
                    used_percent: row.used_percent,
                    window_minutes: row.window_minutes,
                    resets_at_ms: row.resets_at_ms,
                    plan_type: first_of(&row.plan_type, &account.plan_type),
                    source: "app_server".to_owned(),
                    priority: 2,
                },
            );
            assert(quotas.deep_view() =~= before.push(app_server_quota(row.deep_view(), context)));
        }
        k = k + 1;
    }
    assert(rows.take(k as int) =~= rows);
    (retain_canonical_primary_quotas(&quotas), account)
}

/// Reads the capacities.
pub fn load_capacities(rows: &Vec<CapacityRecord>) -> (r: Vec<Capacity>)
    ensures
        r.deep_view() == capacities_of(rows.deep_view()),
{
    let ghost expected = capacities_of(rows.deep_view());
    let mut r: Vec<Capacity> = Vec::new();
    let mut i: usize = 0;
    while i < rows.len()
        invariant
            i <= rows@.len(),
            expected == capacities_of(rows.deep_view()),
            r.deep_view() == expected.take(i as int),
        decreases rows@.len() - i,
    {
        let ghost before = r.deep_view();
        let row = &rows[i];
        r.push(
            Capacity {
                profile: row.profile_code.clone(),
                account_key: copy_option(&row.account_key),
                plan_type: copy_option(&row.plan_type),
                credit: row.weekly_credit,
                from: row.effective_from_ms,
                to: row.effective_to_ms,
            },
        );
        assert(r.deep_view() =~= before.push(expected[i as int]));
        i = i + 1;
        assert(r.deep_view() =~= expected.take(i as int));
    }
    assert(expected.take(i as int) =~= expected);
    r
}

} // verus!
