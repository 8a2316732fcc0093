//! What the rows of days and windows say of the plans that were used.
use crate::db::Share;
use crate::ordered::{
    all_values, keys_increase, lemma_entry_is_found, lemma_lookup_value, lemma_place,
    lemma_put_in_order, lemma_put_lookup, lemma_put_values, lookup, put,
};
use crate::pipelines::result::materialize::capacity::{
    capacity_of, capacity_of_profile, heaviest, is_in_force, key_of_plan,
    lemma_capacity_is_in_force, lemma_fittest, with_plan_usage,
};
use crate::pipelines::result::materialize::clock::start_of_day;
use crate::pipelines::result::materialize::laws::lemma_gathered_in_order;
use crate::pipelines::result::materialize::metric::{
    plan_is_subscription, plan_of_usage, with_usage,
};
use crate::pipelines::result::materialize::records::{
    empty_metric, empty_plan_aggregate, empty_window_aggregate, CapacityView, DayAggregateView,
    MetricView, MinuteBucketView, PlanAggregateView, QuotaObservationView, UsageRecordView,
    WindowAggregateView, WindowSegmentView,
};
use crate::pipelines::result::materialize::rollup::{
    day_with_usage, fresh_windows, gathered, held_day, id_of, official_scan, price_of,
    quota_minutes, window_with_percent, SettingView,
};
use crate::pipelines::result::materialize::tables::{
    adds_up, are_countable, credit_used, day_of, is_countable, is_valid, knows_credit,
    lemma_adds_up_step, lemma_countable_parts, lemma_minute_of_step, lemma_nothing_adds_up,
    lemma_windows_are_keyed, select, sum_over, told,
};
use crate::pipelines::result::materialize::told::lemma_days_are_keyed;
use crate::pipelines::result::materialize::windows::window_of_usage;
use crate::pipelines::result::materialize::{
    quotas_in, refreshed, setting_in, usages_in, SourcesView,
};
use crate::pricing::ServiceTier;
use vstd::prelude::*;
use vstd::string::*;

verus! {

/// The plan of a request, with the profile of the capacity that it had then.
pub open spec fn plan_key(usage: UsageRecordView, setting: SettingView) -> Seq<char> {
    key_of_plan(
        plan_of_usage(usage),
        match capacity_of(
            setting.capacities,
            setting.account.account_key,
            plan_of_usage(usage),
            usage.observed_at_ms,
        ) {
            Some(capacity) => Some(capacity.profile),
            None => None,
        },
    )
}

/// The sum of a plan; of none, where the plan is not kept.
spec fn plan_sum(plans: Seq<(Seq<char>, PlanAggregateView)>, key: Seq<char>) -> MetricView {
    match lookup::<String, PlanAggregateView>(plans, key) {
        Some(plan) => plan.metric,
        None => empty_metric(),
    }
}

/// Whether the plans of a row are those of its requests.
spec fn plans_add_up(
    plans: Seq<(Seq<char>, PlanAggregateView)>,
    usages: Seq<UsageRecordView>,
    setting: SettingView,
    key: Seq<char>,
) -> bool {
    &&& keys_increase::<String, PlanAggregateView>(plans)
    &&& adds_up(
        plan_sum(plans, key),
        select(usages, |u: UsageRecordView| plan_key(u, setting) == key),
        setting.configured,
    )
    &&& is_valid(plan_sum(plans, key))
}

proof fn lemma_plans_step(
    plans: Seq<(Seq<char>, PlanAggregateView)>,
    usages: Seq<UsageRecordView>,
    usage: UsageRecordView,
    setting: SettingView,
    key: Seq<char>,
)
    requires
        plans_add_up(plans, usages, setting, key),
        are_countable(usages.push(usage), setting.configured),
    ensures
        plans_add_up(
            with_plan_usage(
                plans,
                usage,
                price_of(usage, setting.configured),
                setting.account,
                setting.capacities,
            ),
            usages.push(usage),
            setting,
            key,
        ),
{
    let all = usages.push(usage);
    let wanted = |u: UsageRecordView| plan_key(u, setting) == key;
    let own = plan_key(usage, setting);
    let price = price_of(usage, setting.configured);
    let after = with_plan_usage(plans, usage, price, setting.account, setting.capacities);
    assert(all.drop_last() =~= usages);
    assert(all.last() == usage);
    assert(is_countable(all[usages.len() as int], setting.configured));
    lemma_countable_parts(all, wanted, setting.configured);
    let held = match lookup::<String, PlanAggregateView>(plans, own) {
        Some(held) => held,
        None => empty_plan_aggregate(),
    };
    assert forall|row: PlanAggregateView|
        row.metric == with_usage(held.metric, usage, price) implies keys_increase::<
        String,
        PlanAggregateView,
    >(#[trigger] put::<String, PlanAggregateView>(plans, own, row)) && plan_sum(
        put::<String, PlanAggregateView>(plans, own, row),
        key,
    ) == (if own == key {
        row.metric
    } else {
        plan_sum(plans, key)
    }) by {
        lemma_put_in_order::<String, PlanAggregateView>(plans, own, row);
        lemma_put_lookup::<String, PlanAggregateView>(plans, own, row, key);
    }
    if own == key {
        lemma_adds_up_step(
            plan_sum(plans, key),
            select(usages, wanted),
            usage,
            setting.configured,
        );
    }
}

proof fn lemma_selected_are_countable(
    usages: Seq<UsageRecordView>,
    wanted: spec_fn(UsageRecordView) -> bool,
    configured: ServiceTier,
)
    requires
        are_countable(usages, configured),
    ensures
        are_countable(select(usages, wanted), configured),
    decreases usages.len(),
{
    lemma_countable_parts(usages, wanted, configured);
    if usages.len() > 0 {
        let shorter = usages.drop_last();
        lemma_selected_are_countable(shorter, wanted, configured);
        let (before, after) = (select(shorter, wanted), select(usages, wanted));
        assert(is_countable(usages[usages.len() - 1], configured));
        assert forall|i: int| 0 <= i < after.len() implies is_countable(
            #[trigger] after[i],
            configured,
        ) by {
            if i < before.len() {
                assert(after[i] == before[i]);
            }
        }
    }
}

proof fn lemma_no_plans(
    minutes: Seq<((i64, Seq<char>), MinuteBucketView)>,
    segments: Seq<WindowSegmentView>,
)
    ensures
        all_values::<String, DayAggregateView>(
            official_scan(minutes, segments).days,
            |day: DayAggregateView| day.plans.len() == 0,
        ),
        all_values::<String, WindowAggregateView>(
            official_scan(minutes, segments).windows,
            |window: WindowAggregateView| window.plans.len() == 0,
        ),
    decreases minutes.len(),
{
    let pd = |day: DayAggregateView| day.plans.len() == 0;
    let pw = |window: WindowAggregateView| window.plans.len() == 0;
    if minutes.len() == 0 {
        lemma_no_fresh_plans(segments);
    } else {
        let shorter = minutes.drop_last();
        lemma_no_plans(shorter, segments);
        let before = official_scan(shorter, segments);
        let bucket = minutes.last().1;
        if bucket.official is Some && bucket.window_id is Some {
            let id = bucket.window_id->0;
            lemma_lookup_value::<String, WindowAggregateView>(before.windows, id, pw);
            if let Some(window) = lookup::<String, WindowAggregateView>(before.windows, id) {
                lemma_put_values::<String, WindowAggregateView>(
                    before.windows,
                    id,
                    window_with_percent(window, bucket.official->0.percent),
                    pw,
                );
            }
            let date = bucket.local_date;
            lemma_lookup_value::<String, DayAggregateView>(before.days, date, pd);
            assert forall|row: DayAggregateView| row.plans.len() == 0 implies all_values::<
                String,
                DayAggregateView,
            >(#[trigger] put::<String, DayAggregateView>(before.days, date, row), pd) by {
                lemma_put_values::<String, DayAggregateView>(before.days, date, row, pd);
            }
        }
    }
}

proof fn lemma_no_fresh_plans(segments: Seq<WindowSegmentView>)
    ensures
        all_values::<String, WindowAggregateView>(
            fresh_windows(segments),
            |window: WindowAggregateView| window.plans.len() == 0,
        ),
    decreases segments.len(),
{
    if segments.len() > 0 {
        lemma_no_fresh_plans(segments.drop_last());
        lemma_put_values::<String, WindowAggregateView>(
            fresh_windows(segments.drop_last()),
            segments.last().id,
            WindowAggregateView { segment: segments.last(), ..empty_window_aggregate() },
            |window: WindowAggregateView| window.plans.len() == 0,
        );
    }
}

proof fn lemma_nothing_by_plan(
    plans: Seq<(Seq<char>, PlanAggregateView)>,
    usages: Seq<UsageRecordView>,
    setting: SettingView,
    key: Seq<char>,
)
    requires
        plans.len() == 0,
        usages.len() == 0,
    ensures
        plans_add_up(plans, usages, setting, key),
{
    lemma_nothing_adds_up(setting.configured);
    assert(select(usages, |u: UsageRecordView| plan_key(u, setting) == key) =~= Seq::empty());
    lemma_place::<String, PlanAggregateView>(plans, key);
}

proof fn lemma_day_plans(
    usages: Seq<UsageRecordView>,
    quotas: Seq<QuotaObservationView>,
    setting: SettingView,
    date: Seq<char>,
    key: Seq<char>,
)
    requires
        are_countable(usages, setting.configured),
    ensures
        plans_add_up(
            held_day(gathered(usages, quotas, setting).days, date).plans,
            select(usages, |u: UsageRecordView| day_of(u) == date),
            setting,
            key,
        ),
    decreases usages.len(),
{
    let wanted = |u: UsageRecordView| day_of(u) == date;
    lemma_countable_parts(usages, wanted, setting.configured);
    if usages.len() == 0 {
        let minutes = quota_minutes(quotas, setting);
        let p = |day: DayAggregateView| day.plans.len() == 0;
        lemma_no_plans(minutes, setting.windows);
        let days = official_scan(minutes, setting.windows).days;
        lemma_lookup_value::<String, DayAggregateView>(days, date, p);
        lemma_nothing_by_plan(held_day(days, date).plans, select(usages, wanted), setting, key);
    } else {
        let (shorter, usage) = (usages.drop_last(), usages.last());
        lemma_day_plans(shorter, quotas, setting, date, key);
        lemma_gathered_in_order(shorter, quotas, setting);
        lemma_minute_of_step(shorter, quotas, setting, usage);
        let before = gathered(shorter, quotas, setting);
        let own = day_of(usage);
        let day = day_with_usage(
            held_day(before.days, own),
            usage,
            price_of(usage, setting.configured),
            setting,
        );
        lemma_put_lookup::<String, DayAggregateView>(before.days, own, day, date);
        if own == date {
            lemma_selected_are_countable(usages, wanted, setting.configured);
            lemma_plans_step(
                held_day(before.days, date).plans,
                select(shorter, wanted),
                usage,
                setting,
                key,
            );
        }
    }
}

proof fn lemma_heaviest(plans: Seq<(Seq<char>, PlanAggregateView)>, subscriptions: bool)
    ensures
        match heaviest(plans, subscriptions) {
            Some(i) => 0 <= i < plans.len() && (subscriptions ==> plan_is_subscription(
                plans[i].1.plan_type,
            )),
            None => true,
        },
    decreases plans.len(),
{
    if plans.len() > 0 {
        lemma_heaviest(plans.drop_last(), subscriptions);
    }
}

/// Whether a capacity is known and holds at an instant, for an account.
pub open spec fn holds_at(
    capacity: CapacityView,
    account_key: Option<Seq<char>>,
    at: i64,
) -> bool {
    &&& capacity.from <= at
    &&& capacity.to is Some ==> at < capacity.to->0
    &&& capacity.account_key is Some ==> capacity.account_key == account_key
}

proof fn lemma_capacity_of_profile(
    capacities: Seq<CapacityView>,
    account_key: Option<Seq<char>>,
    plan: Option<Seq<char>>,
    profile: Option<Seq<char>>,
    at: i64,
)
    ensures
        match capacity_of_profile(capacities, account_key, plan, profile, at) {
            Some(capacity) => capacities.contains(capacity) && holds_at(capacity, account_key, at),
            None => true,
        },
{
    lemma_capacity_is_in_force(capacities, account_key, plan, at);
    if let Some(name) = profile {
        let wanted = Seq::new(
            capacities.len(),
            |i: int|
                capacities[i].profile == name && is_in_force(capacities[i], account_key, at),
        );
        lemma_fittest(capacities, wanted, Seq::new(capacities.len(), |i: int| 0int));
    }
}

/// Whether a share is that of a plan: its credit is the sum over the requests of that plan, as far
/// as it is known, and it is held against the weekly credit of a capacity that holds then.
pub open spec fn is_share_of(
    share: Share,
    requests: Seq<UsageRecordView>,
    setting: SettingView,
    account_key: Option<Seq<char>>,
    at: i64,
) -> bool {
    &&& exists|key: Seq<char>|
        {
            let own = #[trigger] of_plan(requests, setting, key);
            &&& own.len() > 0
            &&& knows_credit(own, setting.configured)
            &&& share.credit_micros == sum_over(
                own,
                |u: UsageRecordView| told(credit_used(u, setting.configured)),
            )
        }
    &&& exists|i: int|
        {
            &&& 0 <= i < setting.capacities.len()
            &&& holds_at(#[trigger] setting.capacities[i], account_key, at)
            &&& share.weekly_credit == setting.capacities[i].credit
            &&& setting.capacities[i].credit > 0
        }
}

/// The requests of a plan.
pub open spec fn of_plan(
    requests: Seq<UsageRecordView>,
    setting: SettingView,
    key: Seq<char>,
) -> Seq<UsageRecordView> {
    select(requests, |u: UsageRecordView| plan_key(u, setting) == key)
}

/// The share of a row of the days is that of one plan of its date, held against the capacity that
/// holds when the day starts.
pub proof fn lemma_shares_of_days(sources: SourcesView, at: int)
    requires
        are_countable(usages_in(sources), sources.configured),
        0 <= at < refreshed(sources).daily.len(),
        refreshed(sources).daily[at].local_share is Some,
    ensures
        ({
            let row = refreshed(sources).daily[at];
            is_share_of(
                row.local_share->0,
                select(usages_in(sources), |u: UsageRecordView| day_of(u) == row.local_date),
                setting_in(sources),
                row.account_key,
                start_of_day(row.local_date),
            )
        }),
{
    let (usages, quotas, setting) = (usages_in(sources), quotas_in(sources), setting_in(sources));
    let days = gathered(usages, quotas, setting).days;
    let row = refreshed(sources).daily[at];
    lemma_gathered_in_order(usages, quotas, setting);
    lemma_days_are_keyed(usages, quotas, setting);
    let p = |date: Seq<char>, day: DayAggregateView| day.local_date == date;
    assert(p(days[at].0, days[at].1));
    lemma_entry_is_found::<String, DayAggregateView>(days, at);
    let plans = days[at].1.plans;
    let own = select(usages, |u: UsageRecordView| day_of(u) == row.local_date);
    assert(held_day(days, row.local_date).plans == plans);
    lemma_heaviest(plans, true);
    let n = heaviest(plans, true)->0;
    let (key, plan) = plans[n];
    lemma_day_plans(usages, quotas, setting, row.local_date, key);
    lemma_entry_is_found::<String, PlanAggregateView>(plans, n);
    assert(plan_sum(plans, key) == plan.metric);
    assert(of_plan(own, setting, key) == select(
        own,
        |u: UsageRecordView| plan_key(u, setting) == key,
    ));
    assert(of_plan(own, setting, key).len() > 0);
    let when = start_of_day(row.local_date);
    lemma_capacity_of_profile(
        setting.capacities,
        setting.account.account_key,
        plan.plan_type,
        plan.capacity_profile,
        when,
    );
    let capacity = capacity_of_profile(
        setting.capacities,
        setting.account.account_key,
        plan.plan_type,
        plan.capacity_profile,
        when,
    )->0;
    let i = choose|i: int| 0 <= i < setting.capacities.len() && setting.capacities[i] == capacity;
    assert(holds_at(setting.capacities[i], row.account_key, when));
}

proof fn lemma_window_plans(
    usages: Seq<UsageRecordView>,
    quotas: Seq<QuotaObservationView>,
    setting: SettingView,
    id: Seq<char>,
    key: Seq<char>,
)
    requires
        are_countable(usages, setting.configured),
    ensures
        match lookup::<String, WindowAggregateView>(gathered(usages, quotas, setting).windows, id) {
            Some(window) => plans_add_up(
                window.plans,
                select(
                    usages,
                    |u: UsageRecordView|
                        id_of(window_of_usage(setting.windows, u.observed_at_ms)) == Some(id),
                ),
                setting,
                key,
            ),
            None => true,
        },
    decreases usages.len(),
{
    let wanted = |u: UsageRecordView|
        id_of(window_of_usage(setting.windows, u.observed_at_ms)) == Some(id);
    lemma_countable_parts(usages, wanted, setting.configured);
    if usages.len() == 0 {
        let minutes = quota_minutes(quotas, setting);
        let p = |window: WindowAggregateView| window.plans.len() == 0;
        lemma_no_plans(minutes, setting.windows);
        let windows = official_scan(minutes, setting.windows).windows;
        lemma_lookup_value::<String, WindowAggregateView>(windows, id, p);
        if let Some(window) = lookup::<String, WindowAggregateView>(windows, id) {
            lemma_nothing_by_plan(window.plans, select(usages, wanted), setting, key);
        }
    } else {
        let (shorter, usage) = (usages.drop_last(), usages.last());
        lemma_window_plans(shorter, quotas, setting, id, key);
        lemma_gathered_in_order(shorter, quotas, setting);
        let before = gathered(shorter, quotas, setting).windows;
        let price = price_of(usage, setting.configured);
        if let Some(own) = id_of(window_of_usage(setting.windows, usage.observed_at_ms)) {
            if let Some(window) = lookup::<String, WindowAggregateView>(before, own) {
                assert forall|row: WindowAggregateView| lookup::<String, WindowAggregateView>(
                    #[trigger] put::<String, WindowAggregateView>(before, own, row),
                    id,
                ) == (if own == id {
                    Some(row)
                } else {
                    lookup::<String, WindowAggregateView>(before, id)
                }) by {
                    lemma_put_lookup::<String, WindowAggregateView>(before, own, row, id);
                }
                if own == id {
                    lemma_selected_are_countable(usages, wanted, setting.configured);
                    lemma_plans_step(
                        window.plans,
                        select(shorter, wanted),
                        usage,
                        setting,
                        key,
                    );
                }
            }
        }
    }
}

/// The share of a row of the windows is that of one plan of its window, held against the capacity
/// that holds when the window starts.
pub proof fn lemma_shares_of_windows(sources: SourcesView, at: int)
    requires
        are_countable(usages_in(sources), sources.configured),
        0 <= at < refreshed(sources).windows.len(),
        refreshed(sources).windows[at].local_share is Some,
    ensures
        ({
            let row = refreshed(sources).windows[at];
            let windows = setting_in(sources).windows;
            &&& row.window_start_ms is Some
            &&& is_share_of(
                row.local_share->0,
                select(
                    usages_in(sources),
                    |u: UsageRecordView|
                        id_of(window_of_usage(windows, u.observed_at_ms)) == Some(row.window_id),
                ),
                setting_in(sources),
                row.account_key,
                row.window_start_ms->0,
            )
        }),
{
    let (usages, quotas, setting) = (usages_in(sources), quotas_in(sources), setting_in(sources));
    let windows = gathered(usages, quotas, setting).windows;
    let row = refreshed(sources).windows[at];
    lemma_gathered_in_order(usages, quotas, setting);
    lemma_windows_are_keyed(usages, quotas, setting);
    let p = |id: Seq<char>, window: WindowAggregateView| window.segment.id == id;
    assert(p(windows[at].0, windows[at].1));
    lemma_entry_is_found::<String, WindowAggregateView>(windows, at);
    let plans = windows[at].1.plans;
    let own = select(
        usages,
        |u: UsageRecordView|
            id_of(window_of_usage(setting.windows, u.observed_at_ms)) == Some(row.window_id),
    );
    lemma_heaviest(plans, true);
    let n = heaviest(plans, true)->0;
    let (key, plan) = plans[n];
    lemma_window_plans(usages, quotas, setting, row.window_id, key);
    lemma_entry_is_found::<String, PlanAggregateView>(plans, n);
    assert(plan_sum(plans, key) == plan.metric);
    assert(of_plan(own, setting, key) == select(
        own,
        |u: UsageRecordView| plan_key(u, setting) == key,
    ));
    assert(of_plan(own, setting, key).len() > 0);
    let when = row.window_start_ms->0;
    lemma_capacity_of_profile(
        setting.capacities,
        row.account_key,
        plan.plan_type,
        plan.capacity_profile,
        when,
    );
    let capacity = capacity_of_profile(
        setting.capacities,
        row.account_key,
        plan.plan_type,
        plan.capacity_profile,
        when,
    )->0;
    let i = choose|i: int| 0 <= i < setting.capacities.len() && setting.capacities[i] == capacity;
    assert(holds_at(setting.capacities[i], row.account_key, when));
}

} // verus!
