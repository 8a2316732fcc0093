//! The rows that are stored of what was gathered.
use crate::db::{
    Coverage, ModelUsage, ModelUsageView, Rise, Share, UsageDailyRecord, UsageDailyRecordView,
    UsageMinuteRecord, UsageMinuteRecordView, UsageSessionRecord, UsageSessionRecordView,
    UsageWindowRecord, UsageWindowRecordView,
};
use crate::domain::time::has_local_time;
use crate::json::Float;
use crate::num::{clamp_i64, saturating_add, saturating_sub};
use crate::ordered::{
    joined_set, lookup, with_text_if, with_texts, OrderedMap, TextSet,
};
use crate::pipelines::result::materialize::capacity::{
    capacity_for, capacity_for_plan, capacity_of, capacity_of_profile, dominant_plan,
    dominant_subscription_plan, heaviest_plan,
};
use crate::pipelines::result::materialize::clock::{
    day_start_ms, has_minute, local_date, local_date_of, minute_of, minute_start, start_of_day,
};
use crate::pipelines::result::materialize::metric::{
    api_usd_of, credit_of, if_used, is_api_plan, is_partial, is_subscription_plan, plan_is_api,
    plan_is_subscription,
};
use crate::pipelines::result::materialize::records::{
    AccountContext, AccountContextView, Capacity, CapacityView, DayAggregate, DayAggregateView,
    Metric, MetricView, MinuteBucket, MinuteBucketView, PlanAggregate, PlanAggregateView,
    SessionAggregate, SessionAggregateView, WindowAggregate, WindowAggregateView,
};
use crate::pipelines::result::materialize::rollup::window_is_datable;
use crate::text::{
    borrowed, copy_option, decimal, first_of, first_some, integer_text, less, same, same_option,
    text_less, text_or,
};
use vstd::prelude::*;
use vstd::string::*;

verus! {

/// The marks of some usage, with those of its sum, as they are stored.
pub open spec fn quality_text(quality: Seq<Seq<char>>, metric: MetricView) -> Option<Seq<char>> {
    joined_set(
        with_text_if(
            with_texts(quality, metric.quality),
            is_partial(metric),
            "pricing_partial"@,
        ),
    )
}

/// The sum of the tokens of those days that lie between two dates, and whether there is any.
pub open spec fn tokens_in(
    days: Seq<(Seq<char>, i64)>,
    first: Seq<char>,
    last: Seq<char>,
) -> Option<i64>
    decreases days.len(),
{
    if days.len() == 0 {
        None
    } else {
        let before = tokens_in(days.drop_last(), first, last);
        let (date, tokens) = days.last();
        if !text_less(date, first) && !text_less(last, date) {
            Some(
                clamp_i64(
                    (match before {
                        Some(before) => before,
                        None => 0,
                    }) + tokens,
                ),
            )
        } else {
            before
        }
    }
}

/// The tokens that the account counts from the day of one instant to that of another, or to the
/// end.
pub open spec fn account_tokens_of(
    account: AccountContextView,
    start: i64,
    end: Option<i64>,
) -> Option<i64> {
    match local_date_of(start) {
        Some(first) => {
            let last = match end {
                Some(end) => text_or(local_date_of(end), "9999-12-31"@),
                None => "9999-12-31"@,
            };
            tokens_in(account.daily_tokens, first, last)
        },
        None => None,
    }
}

/// How many plans are known subscriptions.
pub open spec fn subscription_count(plans: Seq<(Seq<char>, PlanAggregateView)>) -> nat
    decreases plans.len(),
{
    if plans.len() == 0 {
        0
    } else {
        subscription_count(plans.drop_last()) + (if plan_is_subscription(
            plans.last().1.plan_type,
        ) {
            1nat
        } else {
            0nat
        })
    }
}

/// Whether some plan is that of the API.
pub open spec fn uses_api(plans: Seq<(Seq<char>, PlanAggregateView)>) -> bool {
    exists|i: int| 0 <= i < plans.len() && plan_is_api((#[trigger] plans[i]).1.plan_type)
}

/// The plan by which the local share is reckoned: the subscription, where there is only one.
pub open spec fn local_plan(plans: Seq<(Seq<char>, PlanAggregateView)>) -> Option<
    PlanAggregateView,
> {
    if subscription_count(plans) == 1 {
        heaviest_plan(plans, true)
    } else {
        None
    }
}

/// The plan that is shown: the subscription that weighs most, else the plan that does.
pub open spec fn shown_plan(plans: Seq<(Seq<char>, PlanAggregateView)>) -> Option<Seq<char>> {
    match first_some(heaviest_plan(plans, true), heaviest_plan(plans, false)) {
        Some(plan) => plan.plan_type,
        None => None,
    }
}

/// The profile of a plan.
pub open spec fn profile_of(plan: Option<PlanAggregateView>) -> Option<Seq<char>> {
    match plan {
        Some(plan) => plan.capacity_profile,
        None => None,
    }
}

/// The capacity of the plan by which the local share is reckoned.
pub open spec fn local_capacity(
    plans: Seq<(Seq<char>, PlanAggregateView)>,
    account_key: Option<Seq<char>>,
    capacities: Seq<CapacityView>,
    at: i64,
) -> Option<CapacityView> {
    match local_plan(plans) {
        Some(plan) => capacity_of_profile(
            capacities,
            account_key,
            plan.plan_type,
            plan.capacity_profile,
            at,
        ),
        None => None,
    }
}

/// The name of a capacity's profile.
pub open spec fn capacity_name(capacity: Option<CapacityView>) -> Option<Seq<char>> {
    match capacity {
        Some(capacity) => Some(capacity.profile),
        None => None,
    }
}

/// The share of a weekly credit that a plan used; none of a credit that is not positive.
pub open spec fn share_of(
    plan: Option<PlanAggregateView>,
    capacity: Option<CapacityView>,
) -> Option<Share> {
    match (plan, capacity) {
        (Some(plan), Some(capacity)) => match credit_of(plan.metric) {
            Some(credit_micros) if capacity.credit > 0 => Some(
                Share { credit_micros, weekly_credit: capacity.credit },
            ),
            _ => None,
        },
        _ => None,
    }
}

/// What the account counts more than was seen locally.
pub open spec fn unobserved_of(remote: Option<i64>, metric: MetricView) -> Option<i64> {
    match remote {
        Some(remote) if metric.has_usage => Some(clamp_i64(remote - metric.tokens.total)),
        _ => None,
    }
}

/// How much of what the account counts was seen locally.
pub open spec fn coverage_of(remote: Option<i64>, metric: MetricView) -> Option<Coverage> {
    match remote {
        Some(remote) if metric.has_usage && remote > 0 => Some(
            Coverage { local: metric.tokens.total, remote },
        ),
        _ => None,
    }
}

/// The row of a day.
pub open spec fn daily_row(
    day: DayAggregateView,
    account: AccountContextView,
    capacities: Seq<CapacityView>,
) -> UsageDailyRecordView {
    let plan = local_plan(day.plans);
    let capacity = local_capacity(
        day.plans,
        account.account_key,
        capacities,
        start_of_day(day.local_date),
    );
    let account_tokens = lookup::<String, i64>(account.daily_tokens, day.local_date);
    let metric = day.metric;
    let marked = with_text_if(
        with_text_if(
            with_text_if(
                with_text_if(day.quality, day.official_start is None, "official_unavailable"@),
                account_tokens is None,
                "account_tokens_unavailable"@,
            ),
            day.plans.len() > 1,
            "mixed_plan"@,
        ),
        uses_api(day.plans) && subscription_count(day.plans) > 0,
        "mixed_account"@,
    );
    UsageDailyRecordView {
        local_date: day.local_date,
        account_key: account.account_key,
        auth_kind: account.auth_kind,
        plan_type: shown_plan(day.plans),
        capacity_profile: first_some(capacity_name(capacity), profile_of(plan)),
        input_tokens: if_used(metric, metric.tokens.input),
        cache_read_tokens: if_used(metric, metric.tokens.cached),
        cache_write_tokens: if_used(metric, metric.tokens.cache_write),
        output_tokens: if_used(metric, metric.tokens.output),
        reasoning_tokens: if_used(metric, metric.tokens.reasoning),
        total_tokens: if_used(metric, metric.tokens.total),
        credit_micros: credit_of(metric),
        api_usd_micros: api_usd_of(metric),
        local_share: share_of(plan, capacity),
        account_tokens,
        unobserved_tokens: unobserved_of(account_tokens, metric),
        coverage: coverage_of(account_tokens, metric),
        account_token_freshness: Some(
            if account_tokens is Some {
                "settled"@
            } else {
                "unavailable"@
            },
        ),
        official_percent_start: day.official_start,
        official_percent_end: day.official_end,
        official_rises: day.rises,
        reset_count: day.reset_count,
        quality: joined_set(with_texts(marked, metric.quality)),
    }
}

/// The row of a minute.
pub open spec fn minute_row(
    bucket: MinuteBucketView,
    account: AccountContextView,
    capacities: Seq<CapacityView>,
) -> UsageMinuteRecordView {
    let account_key = first_some(bucket.account_key, account.account_key);
    let capacity = capacity_of(capacities, account_key, bucket.plan_type, bucket.minute_start_ms);
    let metric = bucket.metric;
    UsageMinuteRecordView {
        bucket_key: integer_text(bucket.minute_start_ms as int) + ":"@ + text_or(
            bucket.window_id,
            "none"@,
        ),
        minute_start_ms: bucket.minute_start_ms,
        local_date: bucket.local_date,
        account_key,
        auth_kind: account.auth_kind,
        plan_type: bucket.plan_type,
        provider: first_some(bucket.provider, account.provider),
        capacity_profile: capacity_name(capacity),
        window_id: bucket.window_id,
        window_kind: bucket.window_kind,
        window_start_ms: bucket.window_start_ms,
        resets_at_ms: bucket.resets_at_ms,
        reset_marker: bucket.reset_marker,
        input_tokens: if_used(metric, metric.tokens.input),
        cache_read_tokens: if_used(metric, metric.tokens.cached),
        cache_write_tokens: if_used(metric, metric.tokens.cache_write),
        output_tokens: if_used(metric, metric.tokens.output),
        reasoning_tokens: if_used(metric, metric.tokens.reasoning),
        total_tokens: if_used(metric, metric.tokens.total),
        credit_micros: credit_of(metric),
        api_usd_micros: api_usd_of(metric),
        official_used_percent: match bucket.official {
            Some(point) => Some(point.percent),
            None => None,
        },
        official_source: match bucket.official {
            Some(point) => Some(point.source),
            None => None,
        },
        quality: quality_text(bucket.quality, metric),
    }
}

/// The row of a window.
pub open spec fn window_row(
    window: WindowAggregateView,
    account: AccountContextView,
    capacities: Seq<CapacityView>,
) -> UsageWindowRecordView {
    let segment = window.segment;
    let account_key = first_some(segment.account_key, account.account_key);
    let plan = local_plan(window.plans);
    let capacity = local_capacity(window.plans, account_key, capacities, segment.start_at_ms);
    let account_tokens = account_tokens_of(account, segment.start_at_ms, segment.reset_at_ms);
    let metric = window.metric;
    let marked = with_text_if(
        with_text_if(
            with_text_if(window.quality, window.plans.len() > 1, "mixed_plan"@),
            uses_api(window.plans) && subscription_count(window.plans) > 0,
            "mixed_account"@,
        ),
        account_tokens is None,
        "account_tokens_unavailable"@,
    );
    UsageWindowRecordView {
        window_id: segment.id,
        account_key,
        limit_id: segment.limit_id,
        window_kind: segment.window_kind,
        window_start_ms: Some(segment.start_at_ms),
        resets_at_ms: segment.reset_at_ms,
        window_minutes: segment.window_minutes,
        auth_kind: account.auth_kind,
        plan_type: shown_plan(window.plans),
        provider: account.provider,
        capacity_profile: first_some(capacity_name(capacity), profile_of(plan)),
        input_tokens: if_used(metric, metric.tokens.input),
        cache_read_tokens: if_used(metric, metric.tokens.cached),
        cache_write_tokens: if_used(metric, metric.tokens.cache_write),
        output_tokens: if_used(metric, metric.tokens.output),
        reasoning_tokens: if_used(metric, metric.tokens.reasoning),
        total_tokens: if_used(metric, metric.tokens.total),
        credit_micros: credit_of(metric),
        api_usd_micros: api_usd_of(metric),
        local_share: share_of(plan, capacity),
        account_tokens,
        unobserved_tokens: unobserved_of(account_tokens, metric),
        coverage: coverage_of(account_tokens, metric),
        official_percent_start: window.official_start,
        official_percent_end: window.official_end,
        official_rises: window.rises,
        quality: quality_text(marked, metric),
    }
}

/// The official percentages of a window from one minute to another.
pub open spec fn percents_between(
    minutes: Seq<((i64, Seq<char>), MinuteBucketView)>,
    window_id: Option<Seq<char>>,
    first: i64,
    last: i64,
) -> Seq<Float>
    decreases minutes.len(),
{
    if minutes.len() == 0 {
        Seq::empty()
    } else {
        let before = percents_between(minutes.drop_last(), window_id, first, last);
        let bucket = minutes.last().1;
        if bucket.window_id == window_id && first <= bucket.minute_start_ms <= last
            && bucket.official is Some {
            before.push(bucket.official->0.percent)
        } else {
            before
        }
    }
}

/// When a session's first request was made.
pub open spec fn first_request(session: SessionAggregateView) -> i64 {
    match session.observed_start_ms {
        Some(start) => start,
        None => 0,
    }
}

/// When a session's last request was made.
pub open spec fn last_request(session: SessionAggregateView) -> i64 {
    match session.observed_end_ms {
        Some(end) => end,
        None => first_request(session),
    }
}

/// The official percentages of a session's window while it made requests.
pub open spec fn session_percents(
    session: SessionAggregateView,
    minutes: Seq<((i64, Seq<char>), MinuteBucketView)>,
) -> Seq<Float> {
    percents_between(
        minutes,
        session.window_id,
        minute_of(first_request(session)),
        minute_of(last_request(session)),
    )
}

/// The first of several values.
pub open spec fn first_value<T>(values: Seq<T>) -> Option<T> {
    if values.len() > 0 {
        Some(values[0])
    } else {
        None
    }
}

/// The last of several values.
pub open spec fn last_value<T>(values: Seq<T>) -> Option<T> {
    if values.len() > 0 {
        Some(values.last())
    } else {
        None
    }
}

/// The usage of a model in a session.
pub open spec fn model_usage(
    entry: ((Seq<char>, (Seq<char>, Seq<char>)), MetricView),
) -> ModelUsageView {
    ModelUsageView {
        model: (entry.0).0,
        tier: ((entry.0).1).0,
        reasoning_effort: ((entry.0).1).1,
        tokens: entry.1.tokens.total,
        credit_micros: credit_of(entry.1),
        api_usd_micros: api_usd_of(entry.1),
    }
}

/// The usage of a session by model.
pub open spec fn model_usages(
    models: Seq<((Seq<char>, (Seq<char>, Seq<char>)), MetricView)>,
) -> Seq<ModelUsageView> {
    Seq::new(models.len(), |i: int| model_usage(models[i]))
}

/// Whether requests were fast.
pub open spec fn fast_state(tiers: Seq<Seq<char>>) -> Seq<char> {
    if tiers.len() == 0 {
        "unknown"@
    } else if tiers.len() > 1 {
        "mixed"@
    } else if tiers[0] == "fast"@ {
        "fast"@
    } else {
        "standard"@
    }
}

/// The row of a session.
pub open spec fn session_row(
    key: Seq<char>,
    session: SessionAggregateView,
    account: AccountContextView,
    capacities: Seq<CapacityView>,
    minutes: Seq<((i64, Seq<char>), MinuteBucketView)>,
) -> UsageSessionRecordView {
    let account_key = first_some(session.account_key, account.account_key);
    let capacity = capacity_of(
        capacities,
        account_key,
        session.plan_type,
        match session.started_at_ms {
            Some(started) => started,
            None => 0,
        },
    );
    let percents = session_percents(session, minutes);
    let metric = session.metric;
    UsageSessionRecordView {
        row_key: key,
        local_date: session.local_date,
        root_session_id: session.root_session_id,
        session_id: session.session_id,
        turn_id: session.turn_id,
        title: session.title,
        relation: session.relation,
        started_at_ms: session.started_at_ms,
        ended_at_ms: session.ended_at_ms,
        window_id: session.window_id,
        account_key,
        auth_kind: account.auth_kind,
        plan_type: session.plan_type,
        provider: first_some(session.provider, account.provider),
        capacity_profile: capacity_name(capacity),
        primary_model: if session.models.len() == 1 {
            Some((session.models[0].0).0)
        } else {
            None
        },
        fast_state: Some(fast_state(session.tiers)),
        models: model_usages(session.models),
        input_tokens: if_used(metric, metric.tokens.input),
        cache_read_tokens: if_used(metric, metric.tokens.cached),
        cache_write_tokens: if_used(metric, metric.tokens.cache_write),
        output_tokens: if_used(metric, metric.tokens.output),
        reasoning_tokens: if_used(metric, metric.tokens.reasoning),
        total_tokens: if_used(metric, metric.tokens.total),
        credit_micros: credit_of(metric),
        api_usd_micros: api_usd_of(metric),
        official_percent_start: first_value(percents),
        official_percent_end: last_value(percents),
        quality: quality_text(
            with_text_if(session.quality, percents.len() == 0, "official_unavailable"@),
            metric,
        ),
    }
}

/// The marks of some usage, with those of its sum, as they are stored.
pub fn join_quality(quality: TextSet, metric: &Metric) -> (r: Option<String>)
    ensures
        r.deep_view() == quality_text(quality.deep_view(), metric.deep_view()),
{
    let mut quality = quality;
    quality.extend(&metric.quality.items);
    if let Some(flag) = metric.quality_flags() {
        quality.insert(flag);
    }
    quality.join()
}

/// The tokens that the account counts from the day of one instant to that of another.
pub fn account_tokens_between(account: &AccountContext, start: i64, end: Option<i64>) -> (r: Option<
    i64,
>)
    requires
        has_local_time(start),
        local_date_of(start) is Some && end is Some ==> has_local_time(end->0),
    ensures
        r == account_tokens_of(account.deep_view(), start, end),
{
    let first = match local_date(start) {
        Ok(date) => date,
        Err(_) => {
            return None;
        },
    };
    let last = match end {
        Some(end) => match local_date(end) {
            Ok(date) => date,
            Err(_) => "9999-12-31".to_owned(),
        },
        None => "9999-12-31".to_owned(),
    };
    let days = &account.daily_tokens;
    let ghost all = days.deep_view();
    let mut total: Option<i64> = None;
    let mut i: usize = 0;
    while i < days.entries.len()
        invariant
            i <= days.entries@.len(),
            all == days.deep_view(),
            total == tokens_in(all.take(i as int), first@, last@),
        decreases days.entries@.len() - i,
    {
        assert(all.take(i + 1).drop_last() =~= all.take(i as int));
        assert(all.take(i + 1).last() == days.entries@[i as int].deep_view());
        let (date, tokens) = (&days.entries[i].0, days.entries[i].1);
        if !less(date.as_str(), first.as_str()) && !less(last.as_str(), date.as_str()) {
            let before: i64 = match total {
                Some(before) => before,
                None => 0,
            };
            total = Some(saturating_add(before, tokens));
        }
        i = i + 1;
    }
    assert(all.take(i as int) =~= all);
    total
}

/// What the plans of some usage tell: how many are known subscriptions, and whether any is the API.
fn count_plans(plans: &OrderedMap<String, PlanAggregate>) -> (r: (usize, bool))
    ensures
        r.0 == subscription_count(plans.deep_view()),
        r.1 == uses_api(plans.deep_view()),
{
    let ghost all = plans.deep_view();
    let len: usize = plans.entries.len();
    let mut subscriptions: usize = 0;
    let mut api = false;
    let mut i: usize = 0;
    while i < len
        invariant
            i <= len,
            len == plans.entries@.len(),
            all == plans.deep_view(),
            subscriptions <= i,
            subscriptions == subscription_count(all.take(i as int)),
            api == exists|k: int| 0 <= k < i && plan_is_api((#[trigger] all[k]).1.plan_type),
        decreases len - i,
    {
        assert(all.take(i + 1).drop_last() =~= all.take(i as int));
        assert(all.take(i + 1).last() == plans.entries@[i as int].deep_view());
        assert(all[i as int] == plans.entries@[i as int].deep_view());
        let plan = &plans.entries[i].1;
        if is_subscription_plan(borrowed(&plan.plan_type)) {
            subscriptions = subscriptions + 1;
        }
        if is_api_plan(borrowed(&plan.plan_type)) {
            api = true;
        }
        i = i + 1;
    }
    assert(all.take(i as int) =~= all);
    (subscriptions, api)
}

fn find_local_plan(plans: &OrderedMap<String, PlanAggregate>) -> (r: Option<&PlanAggregate>)
    ensures
        r.deep_view() == local_plan(plans.deep_view()),
{
    if count_plans(plans).0 == 1 {
        dominant_subscription_plan(plans)
    } else {
        None
    }
}

fn find_shown_plan(plans: &OrderedMap<String, PlanAggregate>) -> (r: Option<String>)
    ensures
        r.deep_view() == shown_plan(plans.deep_view()),
{
    match dominant_subscription_plan(plans) {
        Some(plan) => copy_option(&plan.plan_type),
        None => match dominant_plan(plans) {
            Some(plan) => copy_option(&plan.plan_type),
            None => None,
        },
    }
}

fn find_local_capacity<'a>(
    plan: Option<&PlanAggregate>,
    account_key: Option<&str>,
    capacities: &'a Vec<Capacity>,
    at: i64,
    Ghost(plans): Ghost<Seq<(Seq<char>, PlanAggregateView)>>,
) -> (r: Option<&'a Capacity>)
    requires
        plan.deep_view() == local_plan(plans),
    ensures
        r.deep_view() == local_capacity(
            plans,
            account_key.deep_view(),
            capacities.deep_view(),
            at,
        ),
{
    match plan {
        Some(plan) => capacity_for_plan(
            capacities,
            account_key,
            borrowed(&plan.plan_type),
            borrowed(&plan.capacity_profile),
            at,
        ),
        None => None,
    }
}

fn profile_name(capacity: Option<&Capacity>, plan: Option<&PlanAggregate>) -> (r: Option<String>)
    ensures
        r.deep_view() == first_some(
            capacity_name(capacity.deep_view()),
            profile_of(plan.deep_view()),
        ),
{
    match capacity {
        Some(capacity) => Some(capacity.profile.clone()),
        None => match plan {
            Some(plan) => copy_option(&plan.capacity_profile),
            None => None,
        },
    }
}

fn share(plan: Option<&PlanAggregate>, capacity: Option<&Capacity>) -> (r: Option<Share>)
    ensures
        r == share_of(plan.deep_view(), capacity.deep_view()),
{
    match (plan, capacity) {
        (Some(plan), Some(capacity)) => match plan.metric.credit() {
            Some(credit_micros) => if capacity.credit > 0 {
                Some(Share { credit_micros, weekly_credit: capacity.credit })
            } else {
                None
            },
            None => None,
        },
        _ => None,
    }
}

fn unobserved(remote: Option<i64>, metric: &Metric) -> (r: Option<i64>)
    ensures
        r == unobserved_of(remote, metric.deep_view()),
{
    match remote {
        Some(remote) => if metric.has_usage {
            Some(saturating_sub(remote, metric.tokens.total))
        } else {
            None
        },
        None => None,
    }
}

fn coverage(remote: Option<i64>, metric: &Metric) -> (r: Option<Coverage>)
    ensures
        r == coverage_of(remote, metric.deep_view()),
{
    match remote {
        Some(remote) => if metric.has_usage && remote > 0 {
            Some(Coverage { local: metric.tokens.total, remote })
        } else {
            None
        },
        None => None,
    }
}

pub(crate) fn copy_rises(rises: &Vec<Rise>) -> (r: Vec<Rise>)
    ensures
        r@ == rises@,
{
    let mut r: Vec<Rise> = Vec::new();
    let mut i: usize = 0;
    while i < rises.len()
        invariant
            i <= rises@.len(),
            r@ == rises@.take(i as int),
        decreases rises@.len() - i,
    {
        r.push(rises[i]);
        i = i + 1;
        assert(r@ =~= rises@.take(i as int));
    }
    assert(rises@.take(i as int) =~= rises@);
    r
}

/// Makes the row of a day.
pub fn to_daily_row(day: &DayAggregate, account: &AccountContext, capacities: &Vec<Capacity>) -> (r:
    UsageDailyRecord)
    ensures
        r.deep_view() == daily_row(day.deep_view(), account.deep_view(), capacities.deep_view()),
{
    let plan = find_local_plan(&day.plans);
    let capacity = find_local_capacity(
        plan,
        borrowed(&account.account_key),
        capacities,
        day_start_ms(day.local_date.as_str()),
        Ghost(day.plans.deep_view()),
    );
    let account_tokens: Option<i64> = match account.daily_tokens.get(&day.local_date) {
        Some(tokens) => Some(*tokens),
        None => None,
    };
    let mut quality = day.quality.copy();
    if day.official_start.is_none() {
        quality.insert("official_unavailable");
    }
    if account_tokens.is_none() {
        quality.insert("account_tokens_unavailable");
    }
    if day.plans.entries.len() > 1 {
        quality.insert("mixed_plan");
    }
    let (subscriptions, api) = count_plans(&day.plans);
    if api && subscriptions > 0 {
        quality.insert("mixed_account");
    }
    quality.extend(&day.metric.quality.items);
    let metric = &day.metric;
    UsageDailyRecord {
        local_date: day.local_date.clone(),
        account_key: copy_option(&account.account_key),
        auth_kind: copy_option(&account.auth_kind),
        plan_type: find_shown_plan(&day.plans),
        capacity_profile: profile_name(capacity, plan),
        input_tokens: metric.used(metric.tokens.input),
        cache_read_tokens: metric.used(metric.tokens.cached),
        cache_write_tokens: metric.used(metric.tokens.cache_write),
        output_tokens: metric.used(metric.tokens.output),
        reasoning_tokens: metric.used(metric.tokens.reasoning),
        total_tokens: metric.used(metric.tokens.total),
        credit_micros: metric.credit(),
        api_usd_micros: metric.api_usd(),
        local_share: share(plan, capacity),
        account_tokens,
        unobserved_tokens: unobserved(account_tokens, metric),
        coverage: coverage(account_tokens, metric),
        account_token_freshness: if account_tokens.is_some() {
            Some("settled".to_owned())
        } else {
            Some("unavailable".to_owned())
        },
        official_percent_start: day.official_start,
        official_percent_end: day.official_end,
        official_rises: copy_rises(&day.rises),
        reset_count: day.reset_count,
        quality: quality.join(),
    }
}

/// Makes the row of a minute.
pub fn to_minute_row(
    bucket: &MinuteBucket,
    account: &AccountContext,
    capacities: &Vec<Capacity>,
) -> (r: UsageMinuteRecord)
    ensures
        r.deep_view() == minute_row(
            bucket.deep_view(),
            account.deep_view(),
            capacities.deep_view(),
        ),
{
    let account_key = first_of(&bucket.account_key, &account.account_key);
    let capacity = capacity_for(
        capacities,
        borrowed(&account_key),
        borrowed(&bucket.plan_type),
        bucket.minute_start_ms,
    );
    let mut bucket_key = decimal(bucket.minute_start_ms);
    bucket_key.append(":");
    bucket_key.append(
        match &bucket.window_id {
            Some(id) => id.as_str(),
            None => "none",
        },
    );
    let metric = &bucket.metric;
    UsageMinuteRecord {
        bucket_key,
        minute_start_ms: bucket.minute_start_ms,
        local_date: bucket.local_date.clone(),
        account_key,
        auth_kind: copy_option(&account.auth_kind),
        plan_type: copy_option(&bucket.plan_type),
        provider: first_of(&bucket.provider, &account.provider),
        capacity_profile: match capacity {
            Some(capacity) => Some(capacity.profile.clone()),
            None => None,
        },
        window_id: copy_option(&bucket.window_id),
        window_kind: copy_option(&bucket.window_kind),
        window_start_ms: bucket.window_start_ms,
        resets_at_ms: bucket.resets_at_ms,
        reset_marker: bucket.reset_marker,
        input_tokens: metric.used(metric.tokens.input),
        cache_read_tokens: metric.used(metric.tokens.cached),
        cache_write_tokens: metric.used(metric.tokens.cache_write),
        output_tokens: metric.used(metric.tokens.output),
        reasoning_tokens: metric.used(metric.tokens.reasoning),
        total_tokens: metric.used(metric.tokens.total),
        credit_micros: metric.credit(),
        api_usd_micros: metric.api_usd(),
        official_used_percent: match &bucket.official {
            Some(point) => Some(point.percent),
            None => None,
        },
        official_source: match &bucket.official {
            Some(point) => Some(point.source.clone()),
            None => None,
        },
        quality: join_quality(bucket.quality.copy(), metric),
    }
}

/// Makes the row of a window.
pub fn to_window_row(
    window: &WindowAggregate,
    account: &AccountContext,
    capacities: &Vec<Capacity>,
) -> (r: UsageWindowRecord)
    requires
        window_is_datable(window.segment.deep_view()),
    ensures
        r.deep_view() == window_row(
            window.deep_view(),
            account.deep_view(),
            capacities.deep_view(),
        ),
{
    let segment = &window.segment;
    let account_key = first_of(&segment.account_key, &account.account_key);
    let plan = find_local_plan(&window.plans);
    let capacity = find_local_capacity(
        plan,
        borrowed(&account_key),
        capacities,
        segment.start_at_ms,
        Ghost(window.plans.deep_view()),
    );
    let account_tokens = account_tokens_between(account, segment.start_at_ms, segment.reset_at_ms);
    let mut quality = window.quality.copy();
    if window.plans.entries.len() > 1 {
        quality.insert("mixed_plan");
    }
    let (subscriptions, api) = count_plans(&window.plans);
    if api && subscriptions > 0 {
        quality.insert("mixed_account");
    }
    if account_tokens.is_none() {
        quality.insert("account_tokens_unavailable");
    }
    let metric = &window.metric;
    UsageWindowRecord {
        window_id: segment.id.clone(),
        account_key,
        limit_id: copy_option(&segment.limit_id),
        window_kind: segment.window_kind.clone(),
        window_start_ms: Some(segment.start_at_ms),
        resets_at_ms: segment.reset_at_ms,
        window_minutes: segment.window_minutes,
        auth_kind: copy_option(&account.auth_kind),
        plan_type: find_shown_plan(&window.plans),
        provider: copy_option(&account.provider),
        capacity_profile: profile_name(capacity, plan),
        input_tokens: metric.used(metric.tokens.input),
        cache_read_tokens: metric.used(metric.tokens.cached),
        cache_write_tokens: metric.used(metric.tokens.cache_write),
        output_tokens: metric.used(metric.tokens.output),
        reasoning_tokens: metric.used(metric.tokens.reasoning),
        total_tokens: metric.used(metric.tokens.total),
        credit_micros: metric.credit(),
        api_usd_micros: metric.api_usd(),
        local_share: share(plan, capacity),
        account_tokens,
        unobserved_tokens: unobserved(account_tokens, metric),
        coverage: coverage(account_tokens, metric),
        official_percent_start: window.official_start,
        official_percent_end: window.official_end,
        official_rises: copy_rises(&window.rises),
        quality: join_quality(quality, metric),
    }
}

/// The first and the last official percentage of a session's window while it made requests.
pub fn official_for_session(
    session: &SessionAggregate,
    minutes: &OrderedMap<(i64, String), MinuteBucket>,
) -> (r: (Option<Float>, Option<Float>))
    requires
        has_minute(first_request(session.deep_view())),
        has_minute(last_request(session.deep_view())),
    ensures
        r.0 == first_value(session_percents(session.deep_view(), minutes.deep_view())),
        r.1 == last_value(session_percents(session.deep_view(), minutes.deep_view())),
{
    let start: i64 = match session.observed_start_ms {
        Some(start) => start,
        None => 0,
    };
    let end: i64 = match session.observed_end_ms {
        Some(end) => end,
        None => start,
    };
    let first: i64 = minute_start(start);
    let last: i64 = minute_start(end);
    let ghost all = minutes.deep_view();
    let ghost id = session.window_id.deep_view();
    let mut r: (Option<Float>, Option<Float>) = (None, None);
    let mut i: usize = 0;
    while i < minutes.entries.len()
        invariant
            i <= minutes.entries@.len(),
            all == minutes.deep_view(),
            id == session.window_id.deep_view(),
            r.0 == first_value(percents_between(all.take(i as int), id, first, last)),
            r.1 == last_value(percents_between(all.take(i as int), id, first, last)),
        decreases minutes.entries@.len() - i,
    {
        assert(all.take(i + 1).drop_last() =~= all.take(i as int));
        assert(all.take(i + 1).last() == minutes.entries@[i as int].deep_view());
        let bucket = &minutes.entries[i].1;
        if same_option(&bucket.window_id, &session.window_id) && first <= bucket.minute_start_ms
            && bucket.minute_start_ms <= last {
            if let Some(point) = &bucket.official {
                if r.0.is_none() {
                    r.0 = Some(point.percent);
                }
                r.1 = Some(point.percent);
            }
        }
        i = i + 1;
    }
    assert(all.take(i as int) =~= all);
    r
}

fn list_models(models: &OrderedMap<(String, (String, String)), Metric>) -> (r: Vec<ModelUsage>)
    ensures
        r.deep_view() == model_usages(models.deep_view()),
{
    let ghost all = models.deep_view();
    let ghost expected = model_usages(all);
    let mut r: Vec<ModelUsage> = Vec::new();
    let mut i: usize = 0;
    while i < models.entries.len()
        invariant
            i <= models.entries@.len(),
            all == models.deep_view(),
            expected == model_usages(all),
            r.deep_view() == expected.take(i as int),
        decreases models.entries@.len() - i,
    {
        let ghost before = r.deep_view();
        let entry = &models.entries[i];
        assert(all[i as int] == entry.deep_view());
        r.push(
            ModelUsage {
                model: (entry.0).0.clone(),
                tier: ((entry.0).1).0.clone(),
                reasoning_effort: ((entry.0).1).1.clone(),
                tokens: entry.1.tokens.total,
                credit_micros: entry.1.credit(),
                api_usd_micros: entry.1.api_usd(),
            },
        );
        assert(r.deep_view() =~= before.push(expected[i as int]));
        i = i + 1;
        assert(r.deep_view() =~= expected.take(i as int));
    }
    assert(expected.take(i as int) =~= expected);
    r
}

fn find_fast_state(tiers: &TextSet) -> (r: String)
    ensures
        r@ == fast_state(tiers.deep_view()),
{
    if tiers.items.len() == 0 {
        "unknown".to_owned()
    } else if tiers.items.len() > 1 {
        "mixed".to_owned()
    } else {
        assert(tiers.deep_view()[0] == tiers.items@[0]@);
        if same(tiers.items[0].as_str(), "fast") {
            "fast".to_owned()
        } else {
            "standard".to_owned()
        }
    }
}

/// Makes the row of a session.
pub fn to_session_row(
    key: &str,
    session: &SessionAggregate,
    account: &AccountContext,
    capacities: &Vec<Capacity>,
    minutes: &OrderedMap<(i64, String), MinuteBucket>,
) -> (r: UsageSessionRecord)
    requires
        has_minute(first_request(session.deep_view())),
        has_minute(last_request(session.deep_view())),
    ensures
        r.deep_view() == session_row(
            key@,
            session.deep_view(),
            account.deep_view(),
            capacities.deep_view(),
            minutes.deep_view(),
        ),
{
    let account_key = first_of(&session.account_key, &account.account_key);
    let started: i64 = match session.started_at_ms {
        Some(started) => started,
        None => 0,
    };
    let capacity = capacity_for(
        capacities,
        borrowed(&account_key),
        borrowed(&session.plan_type),
        started,
    );
    let (official_percent_start, official_percent_end) = official_for_session(session, minutes);
    let mut quality = session.quality.copy();
    if official_percent_start.is_none() {
        quality.insert("official_unavailable");
    }
    let metric = &session.metric;
    proof {
        if session.models.entries@.len() == 1 {
            assert(session.models.deep_view()[0] == session.models.entries@[0].deep_view());
        }
    }
    UsageSessionRecord {
        row_key: key.to_owned(),
        local_date: session.local_date.clone(),
        root_session_id: copy_option(&session.root_session_id),
        session_id: copy_option(&session.session_id),
        turn_id: copy_option(&session.turn_id),
        title: copy_option(&session.title),
        relation: copy_option(&session.relation),
        started_at_ms: session.started_at_ms,
        ended_at_ms: session.ended_at_ms,
        window_id: copy_option(&session.window_id),
        account_key,
        auth_kind: copy_option(&account.auth_kind),
        plan_type: copy_option(&session.plan_type),
        provider: first_of(&session.provider, &account.provider),
        capacity_profile: match capacity {
            Some(capacity) => Some(capacity.profile.clone()),
            None => None,
        },
        primary_model: if session.models.entries.len() == 1 {
            Some((session.models.entries[0].0).0.clone())
        } else {
            None
        },
        fast_state: Some(find_fast_state(&session.tiers)),
        models: list_models(&session.models),
        input_tokens: metric.used(metric.tokens.input),
        cache_read_tokens: metric.used(metric.tokens.cached),
        cache_write_tokens: metric.used(metric.tokens.cache_write),
        output_tokens: metric.used(metric.tokens.output),
        reasoning_tokens: metric.used(metric.tokens.reasoning),
        total_tokens: metric.used(metric.tokens.total),
        credit_micros: metric.credit(),
        api_usd_micros: metric.api_usd(),
        official_percent_start,
        official_percent_end,
        quality: join_quality(quality, metric),
    }
}

} // verus!
