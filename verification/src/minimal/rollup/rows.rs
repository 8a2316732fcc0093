//! The rows of the tables.
use crate::db::{
    Coverage, ModelUsage, ModelUsageView, UsageDailyRecord, UsageDailyRecordView,
    UsageMinuteRecord, UsageMinuteRecordView, UsageSessionRecord, UsageSessionRecordView,
};
use crate::minimal::rollup::metric::{
    api_usd_of, credit_of, if_used, MetricAggregate, MetricAggregateView,
};
use crate::minimal::rollup::{
    window_key, DayAggregate, DayAggregateView, MinuteBucket, MinuteBucketView, Rollup, RollupView,
    SessionAggregate, SessionAggregateView,
};
use crate::num::{clamp_i64, saturating_sub};
use crate::ordered::{joined_set, lookup, with_text, with_texts, OrderedMap};
use crate::pipelines::result::materialize::records::{AccountContext, AccountContextView};
use crate::pipelines::result::materialize::rows::copy_rises;
use crate::text::{copy_option, decimal, integer_text, same};
use vstd::prelude::*;
use vstd::string::*;

verus! {

/// What qualifies a day: also whether official percentages, and the tokens of the account, are
/// known.
pub open spec fn flags_of_day(day: DayAggregateView, account_tokens: Option<i64>) -> Seq<Seq<char>> {
    let first = if day.first_official is None {
        with_text(day.quality, "official_unavailable"@)
    } else {
        day.quality
    };
    if account_tokens is None {
        with_text(first, "account_tokens_unavailable"@)
    } else {
        first
    }
}

/// The tokens of the account that were not seen locally, where both counts are known.
pub open spec fn unobserved_of(account_tokens: Option<i64>, local: Option<i64>) -> Option<i64> {
    match (account_tokens, local) {
        (Some(remote), Some(local)) => Some(clamp_i64(remote - local)),
        _ => None,
    }
}

/// The part of the tokens of the account that was seen locally, where there are any.
pub open spec fn coverage_of(account_tokens: Option<i64>, local: Option<i64>) -> Option<Coverage> {
    match (account_tokens, local) {
        (Some(remote), Some(local)) => if remote > 0 {
            Some(Coverage { local, remote })
        } else {
            None
        },
        _ => None,
    }
}

/// The row of a day.
pub open spec fn daily_row(
    day: DayAggregateView,
    account: AccountContextView,
) -> UsageDailyRecordView {
    let account_tokens = lookup::<String, i64>(account.daily_tokens, day.local_date);
    let local = if_used(day.metrics, day.metrics.tokens.total);
    UsageDailyRecordView {
        local_date: day.local_date,
        account_key: account.account_key,
        auth_kind: account.auth_kind,
        plan_type: account.plan_type,
        capacity_profile: None,
        input_tokens: if_used(day.metrics, day.metrics.tokens.input),
        cache_read_tokens: if_used(day.metrics, day.metrics.tokens.cached),
        cache_write_tokens: if_used(day.metrics, day.metrics.tokens.cache_write),
        output_tokens: if_used(day.metrics, day.metrics.tokens.output),
        reasoning_tokens: if_used(day.metrics, day.metrics.tokens.reasoning),
        total_tokens: local,
        credit_micros: credit_of(day.metrics),
        api_usd_micros: api_usd_of(day.metrics),
        local_share: None,
        account_tokens,
        unobserved_tokens: unobserved_of(account_tokens, local),
        coverage: coverage_of(account_tokens, local),
        account_token_freshness: Some(
            if account_tokens is Some {
                "settled"@
            } else {
                "unavailable"@
            },
        ),
        official_percent_start: day.first_official,
        official_percent_end: day.last_official,
        official_rises: day.rises,
        reset_count: day.reset_count,
        quality: joined_set(flags_of_day(day, account_tokens)),
    }
}

/// The row of a minute.
pub open spec fn minute_row(
    bucket: MinuteBucketView,
    account: AccountContextView,
) -> UsageMinuteRecordView {
    UsageMinuteRecordView {
        bucket_key: integer_text(bucket.minute_start_ms as int) + ":"@ + window_key(
            bucket.window_id,
        ),
        minute_start_ms: bucket.minute_start_ms,
        local_date: bucket.local_date,
        account_key: bucket.account_key,
        auth_kind: account.auth_kind,
        plan_type: bucket.plan_type,
        provider: bucket.provider,
        capacity_profile: None,
        window_id: bucket.window_id,
        window_kind: None,
        window_start_ms: bucket.window_start_ms,
        resets_at_ms: bucket.resets_at_ms,
        reset_marker: bucket.reset_marker,
        input_tokens: if_used(bucket.metrics, bucket.metrics.tokens.input),
        cache_read_tokens: if_used(bucket.metrics, bucket.metrics.tokens.cached),
        cache_write_tokens: if_used(bucket.metrics, bucket.metrics.tokens.cache_write),
        output_tokens: if_used(bucket.metrics, bucket.metrics.tokens.output),
        reasoning_tokens: if_used(bucket.metrics, bucket.metrics.tokens.reasoning),
        total_tokens: if_used(bucket.metrics, bucket.metrics.tokens.total),
        credit_micros: credit_of(bucket.metrics),
        api_usd_micros: api_usd_of(bucket.metrics),
        official_used_percent: match bucket.official {
            Some(point) => Some(point.percent),
            None => None,
        },
        official_source: match bucket.official {
            Some(point) => Some(point.source),
            None => None,
        },
        quality: joined_set(bucket.metrics.quality),
    }
}

/// The usage of a model at a tier. Reasoning efforts are not told apart.
pub open spec fn model_usage(
    entry: ((Seq<char>, Seq<char>), MetricAggregateView),
) -> ModelUsageView {
    ModelUsageView {
        model: (entry.0).0,
        tier: (entry.0).1,
        reasoning_effort: Seq::empty(),
        tokens: entry.1.tokens.total,
        credit_micros: credit_of(entry.1),
        api_usd_micros: api_usd_of(entry.1),
    }
}

/// How fast a sum was served: at one tier, at several, or not known.
pub open spec fn fast_state_of(tiers: Seq<Seq<char>>) -> Seq<char> {
    if tiers.len() == 0 {
        "unknown"@
    } else if tiers.len() == 1 {
        if tiers[0] == "fast"@ {
            "fast"@
        } else {
            "standard"@
        }
    } else {
        "mixed"@
    }
}

/// The model of a sum, where it has only one.
pub open spec fn primary_model_of(
    models: Seq<((Seq<char>, Seq<char>), MetricAggregateView)>,
) -> Option<Seq<char>> {
    if models.len() == 1 {
        Some((models[0].0).0)
    } else {
        None
    }
}

/// The row of a sum.
pub open spec fn session_row(
    row_key: Seq<char>,
    session: SessionAggregateView,
    account: AccountContextView,
) -> UsageSessionRecordView {
    UsageSessionRecordView {
        row_key,
        local_date: session.local_date,
        root_session_id: session.root_session_id,
        session_id: session.session_id,
        turn_id: session.turn_id,
        title: session.title,
        relation: session.relation,
        started_at_ms: session.started_at_ms,
        ended_at_ms: session.ended_at_ms,
        window_id: session.window_id,
        account_key: session.account_key,
        auth_kind: account.auth_kind,
        plan_type: session.plan_type,
        provider: session.provider,
        capacity_profile: None,
        primary_model: primary_model_of(session.models),
        fast_state: Some(fast_state_of(session.tiers)),
        models: session.models.map_values(
            |entry: ((Seq<char>, Seq<char>), MetricAggregateView)| model_usage(entry),
        ),
        input_tokens: if_used(session.metrics, session.metrics.tokens.input),
        cache_read_tokens: if_used(session.metrics, session.metrics.tokens.cached),
        cache_write_tokens: if_used(session.metrics, session.metrics.tokens.cache_write),
        output_tokens: if_used(session.metrics, session.metrics.tokens.output),
        reasoning_tokens: if_used(session.metrics, session.metrics.tokens.reasoning),
        total_tokens: if_used(session.metrics, session.metrics.tokens.total),
        credit_micros: credit_of(session.metrics),
        api_usd_micros: api_usd_of(session.metrics),
        official_percent_start: session.official_start,
        official_percent_end: session.official_end,
        quality: joined_set(with_texts(session.quality, session.metrics.quality)),
    }
}

/// Makes the row of a day.
pub fn to_daily_row(day: &DayAggregate, account: &AccountContext) -> (r: UsageDailyRecord)
    ensures
        r.deep_view() == daily_row(day.deep_view(), account.deep_view()),
{
    let account_tokens = match account.daily_tokens.get(&day.local_date) {
        Some(tokens) => Some(*tokens),
        None => None,
    };
    let local = day.metrics.optional_metric(day.metrics.tokens.total);
    let mut quality = day.quality.copy();
    if day.first_official.is_none() {
        quality.insert("official_unavailable");
    }
    if account_tokens.is_none() {
        quality.insert("account_tokens_unavailable");
    }
    let freshness = if account_tokens.is_some() {
        "settled".to_owned()
    } else {
        "unavailable".to_owned()
    };
    UsageDailyRecord {
        local_date: day.local_date.clone(),
        account_key: copy_option(&account.account_key),
        auth_kind: copy_option(&account.auth_kind),
        plan_type: copy_option(&account.plan_type),
        capacity_profile: None,
        input_tokens: day.metrics.optional_metric(day.metrics.tokens.input),
        cache_read_tokens: day.metrics.optional_metric(day.metrics.tokens.cached),
        cache_write_tokens: day.metrics.optional_metric(day.metrics.tokens.cache_write),
        output_tokens: day.metrics.optional_metric(day.metrics.tokens.output),
        reasoning_tokens: day.metrics.optional_metric(day.metrics.tokens.reasoning),
        total_tokens: local,
        credit_micros: day.metrics.credit(),
        api_usd_micros: day.metrics.api_usd(),
        local_share: None,
        account_tokens,
        unobserved_tokens: match (account_tokens, local) {
            (Some(remote), Some(local)) => Some(saturating_sub(remote, local)),
            _ => None,
        },
        coverage: match (account_tokens, local) {
            (Some(remote), Some(local)) => if remote > 0 {
                Some(Coverage { local, remote })
            } else {
                None
            },
            _ => None,
        },
        account_token_freshness: Some(freshness),
        official_percent_start: day.first_official,
        official_percent_end: day.last_official,
        official_rises: copy_rises(&day.rises),
        reset_count: day.reset_count,
        quality: quality.join(),
    }
}

/// Makes the row of a minute.
pub fn to_minute_row(bucket: &MinuteBucket, account: &AccountContext) -> (r: UsageMinuteRecord)
    ensures
        r.deep_view() == minute_row(bucket.deep_view(), account.deep_view()),
{
    let mut bucket_key = decimal(bucket.minute_start_ms);
    bucket_key.append(":");
    match &bucket.window_id {
        Some(id) => bucket_key.append(id.as_str()),
        None => bucket_key.append("none"),
    }
    UsageMinuteRecord {
        bucket_key,
        minute_start_ms: bucket.minute_start_ms,
        local_date: bucket.local_date.clone(),
        account_key: copy_option(&bucket.account_key),
        auth_kind: copy_option(&account.auth_kind),
        plan_type: copy_option(&bucket.plan_type),
        provider: copy_option(&bucket.provider),
        capacity_profile: None,
        window_id: copy_option(&bucket.window_id),
        window_kind: None,
        window_start_ms: bucket.window_start_ms,
        resets_at_ms: bucket.resets_at_ms,
        reset_marker: bucket.reset_marker,
        input_tokens: bucket.metrics.optional_metric(bucket.metrics.tokens.input),
        cache_read_tokens: bucket.metrics.optional_metric(bucket.metrics.tokens.cached),
        cache_write_tokens: bucket.metrics.optional_metric(bucket.metrics.tokens.cache_write),
        output_tokens: bucket.metrics.optional_metric(bucket.metrics.tokens.output),
        reasoning_tokens: bucket.metrics.optional_metric(bucket.metrics.tokens.reasoning),
        total_tokens: bucket.metrics.optional_metric(bucket.metrics.tokens.total),
        credit_micros: bucket.metrics.credit(),
        api_usd_micros: bucket.metrics.api_usd(),
        official_used_percent: match &bucket.official {
            Some(point) => Some(point.percent),
            None => None,
        },
        official_source: match &bucket.official {
            Some(point) => Some(point.source.clone()),
            None => None,
        },
        quality: bucket.metrics.quality.join(),
    }
}

fn list_models(models: &OrderedMap<(String, String), MetricAggregate>) -> (r: Vec<ModelUsage>)
    ensures
        r.deep_view() == models.deep_view().map_values(
            |entry: ((Seq<char>, Seq<char>), MetricAggregateView)| model_usage(entry),
        ),
{
    let ghost all = models.deep_view();
    let ghost wanted = all.map_values(
        |entry: ((Seq<char>, Seq<char>), MetricAggregateView)| model_usage(entry),
    );
    let mut r: Vec<ModelUsage> = Vec::new();
    assert(r.deep_view() =~= wanted.take(0));
    let mut i: usize = 0;
    while i < models.entries.len()
        invariant
            i <= models.entries@.len(),
            all == models.deep_view(),
            wanted == all.map_values(
                |entry: ((Seq<char>, Seq<char>), MetricAggregateView)| model_usage(entry),
            ),
            r.deep_view() == wanted.take(i as int),
        decreases models.entries@.len() - i,
    {
        let entry = &models.entries[i];
        assert(all[i as int] == entry.deep_view());
        let effort = String::new();
        assert(effort@ =~= Seq::empty());
        let usage = ModelUsage {
            model: (entry.0).0.clone(),
            tier: (entry.0).1.clone(),
            reasoning_effort: effort,
            tokens: entry.1.tokens.total,
            credit_micros: entry.1.credit(),
            api_usd_micros: entry.1.api_usd(),
        };
        let ghost before = r.deep_view();
        let ghost told = usage.deep_view();
        assert(told =~= wanted[i as int]);
        r.push(usage);
        assert(r.deep_view() =~= before.push(told));
        assert(wanted.take(i + 1) =~= wanted.take(i as int).push(told));
        i = i + 1;
    }
    assert(wanted.take(i as int) =~= wanted);
    r
}

/// Makes the row of a sum.
pub fn to_session_row(row_key: &String, session: &SessionAggregate, account: &AccountContext) -> (r:
    UsageSessionRecord)
    ensures
        r.deep_view() == session_row(row_key@, session.deep_view(), account.deep_view()),
{
    let mut quality = session.quality.copy();
    quality.extend(&session.metrics.quality.items);
    let fast_state = if session.tiers.items.len() == 0 {
        "unknown"
    } else if session.tiers.items.len() == 1 {
        assert(session.tiers.deep_view()[0] == session.tiers.items@[0]@);
        if same(session.tiers.items[0].as_str(), "fast") {
            "fast"
        } else {
            "standard"
        }
    } else {
        "mixed"
    };
    let primary_model = if session.models.entries.len() == 1 {
        assert(session.models.deep_view()[0] == session.models.entries@[0].deep_view());
        Some((session.models.entries[0].0).0.clone())
    } else {
        None
    };
    UsageSessionRecord {
        row_key: row_key.clone(),
        local_date: session.local_date.clone(),
        root_session_id: copy_option(&session.root_session_id),
        session_id: copy_option(&session.session_id),
        turn_id: copy_option(&session.turn_id),
        title: copy_option(&session.title),
        relation: copy_option(&session.relation),
        started_at_ms: session.started_at_ms,
        ended_at_ms: session.ended_at_ms,
        window_id: copy_option(&session.window_id),
        account_key: copy_option(&session.account_key),
        auth_kind: copy_option(&account.auth_kind),
        plan_type: copy_option(&session.plan_type),
        provider: copy_option(&session.provider),
        capacity_profile: None,
        primary_model,
        fast_state: Some(fast_state.to_owned()),
        models: list_models(&session.models),
        input_tokens: session.metrics.optional_metric(session.metrics.tokens.input),
        cache_read_tokens: session.metrics.optional_metric(session.metrics.tokens.cached),
        cache_write_tokens: session.metrics.optional_metric(session.metrics.tokens.cache_write),
        output_tokens: session.metrics.optional_metric(session.metrics.tokens.output),
        reasoning_tokens: session.metrics.optional_metric(session.metrics.tokens.reasoning),
        total_tokens: session.metrics.optional_metric(session.metrics.tokens.total),
        credit_micros: session.metrics.credit(),
        api_usd_micros: session.metrics.api_usd(),
        official_percent_start: session.official_start,
        official_percent_end: session.official_end,
        quality: quality.join(),
    }
}

/// The rows of the tables.
#[derive(Debug)]
pub struct RollupRows {
    pub days: Vec<UsageDailyRecord>,
    pub minutes: Vec<UsageMinuteRecord>,
    pub sessions: Vec<UsageSessionRecord>,
}

/// A `RollupRows` with its texts as sequences of characters.
#[verifier::ext_equal]
pub struct RollupRowsView {
    pub days: Seq<UsageDailyRecordView>,
    pub minutes: Seq<UsageMinuteRecordView>,
    pub sessions: Seq<UsageSessionRecordView>,
}

impl DeepView for RollupRows {
    type V = RollupRowsView;

    open spec fn deep_view(&self) -> RollupRowsView {
        RollupRowsView {
            days: self.days.deep_view(),
            minutes: self.minutes.deep_view(),
            sessions: self.sessions.deep_view(),
        }
    }
}

/// The rows of the tables.
pub open spec fn rows_of(rollup: RollupView, account: AccountContextView) -> RollupRowsView {
    RollupRowsView {
        days: rollup.days.map_values(
            |entry: (Seq<char>, DayAggregateView)| daily_row(entry.1, account),
        ),
        minutes: rollup.gathered.minutes.map_values(
            |entry: ((i64, Seq<char>), MinuteBucketView)| minute_row(entry.1, account),
        ),
        sessions: rollup.gathered.sessions.map_values(
            |entry: (Seq<char>, SessionAggregateView)| session_row(entry.0, entry.1, account),
        ),
    }
}

fn daily_rows(days: &OrderedMap<String, DayAggregate>, account: &AccountContext) -> (r: Vec<
    UsageDailyRecord,
>)
    ensures
        r.deep_view() == days.deep_view().map_values(
            |entry: (Seq<char>, DayAggregateView)| daily_row(entry.1, account.deep_view()),
        ),
{
    let ghost all = days.deep_view();
    let ghost wanted = all.map_values(
        |entry: (Seq<char>, DayAggregateView)| daily_row(entry.1, account.deep_view()),
    );
    let mut r: Vec<UsageDailyRecord> = Vec::new();
    assert(r.deep_view() =~= wanted.take(0));
    let mut i: usize = 0;
    while i < days.entries.len()
        invariant
            i <= days.entries@.len(),
            all == days.deep_view(),
            wanted == all.map_values(
                |entry: (Seq<char>, DayAggregateView)| daily_row(entry.1, account.deep_view()),
            ),
            r.deep_view() == wanted.take(i as int),
        decreases days.entries@.len() - i,
    {
        assert(all[i as int] == days.entries@[i as int].deep_view());
        let row = to_daily_row(&days.entries[i].1, account);
        let ghost before = r.deep_view();
        let ghost told = row.deep_view();
        assert(told == wanted[i as int]);
        r.push(row);
        assert(r.deep_view() =~= before.push(told));
        assert(wanted.take(i + 1) =~= wanted.take(i as int).push(told));
        i = i + 1;
    }
    assert(wanted.take(i as int) =~= wanted);
    r
}

fn minute_rows(
    minutes: &OrderedMap<(i64, String), MinuteBucket>,
    account: &AccountContext,
) -> (r: Vec<UsageMinuteRecord>)
    ensures
        r.deep_view() == minutes.deep_view().map_values(
            |entry: ((i64, Seq<char>), MinuteBucketView)|
                minute_row(entry.1, account.deep_view()),
        ),
{
    let ghost all = minutes.deep_view();
    let ghost wanted = all.map_values(
        |entry: ((i64, Seq<char>), MinuteBucketView)| minute_row(entry.1, account.deep_view()),
    );
    let mut r: Vec<UsageMinuteRecord> = Vec::new();
    assert(r.deep_view() =~= wanted.take(0));
    let mut i: usize = 0;
    while i < minutes.entries.len()
        invariant
            i <= minutes.entries@.len(),
            all == minutes.deep_view(),
            wanted == all.map_values(
                |entry: ((i64, Seq<char>), MinuteBucketView)|
                    minute_row(entry.1, account.deep_view()),
            ),
            r.deep_view() == wanted.take(i as int),
        decreases minutes.entries@.len() - i,
    {
        assert(all[i as int] == minutes.entries@[i as int].deep_view());
        let row = to_minute_row(&minutes.entries[i].1, account);
        let ghost before = r.deep_view();
        let ghost told = row.deep_view();
        assert(told == wanted[i as int]);
        r.push(row);
        assert(r.deep_view() =~= before.push(told));
        assert(wanted.take(i + 1) =~= wanted.take(i as int).push(told));
        i = i + 1;
    }
    assert(wanted.take(i as int) =~= wanted);
    r
}

fn session_rows(
    sessions: &OrderedMap<String, SessionAggregate>,
    account: &AccountContext,
) -> (r: Vec<UsageSessionRecord>)
    ensures
        r.deep_view() == sessions.deep_view().map_values(
            |entry: (Seq<char>, SessionAggregateView)|
                session_row(entry.0, entry.1, account.deep_view()),
        ),
{
    let ghost all = sessions.deep_view();
    let ghost wanted = all.map_values(
        |entry: (Seq<char>, SessionAggregateView)|
            session_row(entry.0, entry.1, account.deep_view()),
    );
    let mut r: Vec<UsageSessionRecord> = Vec::new();
    assert(r.deep_view() =~= wanted.take(0));
    let mut i: usize = 0;
    while i < sessions.entries.len()
        invariant
            i <= sessions.entries@.len(),
            all == sessions.deep_view(),
            wanted == all.map_values(
                |entry: (Seq<char>, SessionAggregateView)|
                    session_row(entry.0, entry.1, account.deep_view()),
            ),
            r.deep_view() == wanted.take(i as int),
        decreases sessions.entries@.len() - i,
    {
        assert(all[i as int] == sessions.entries@[i as int].deep_view());
        let row = to_session_row(&sessions.entries[i].0, &sessions.entries[i].1, account);
        let ghost before = r.deep_view();
        let ghost told = row.deep_view();
        assert(told == wanted[i as int]);
        r.push(row);
        assert(r.deep_view() =~= before.push(told));
        assert(wanted.take(i + 1) =~= wanted.take(i as int).push(told));
        i = i + 1;
    }
    assert(wanted.take(i as int) =~= wanted);
    r
}

impl Rollup {
    /// The rows of the tables.
    pub fn rows(&self, account: &AccountContext) -> (r: RollupRows)
        ensures
            r.deep_view() == rows_of(self.deep_view(), account.deep_view()),
    {
        RollupRows {
            days: daily_rows(&self.days, account),
            minutes: minute_rows(&self.gathered.minutes, account),
            sessions: session_rows(&self.gathered.sessions, account),
        }
    }
}

} // verus!
