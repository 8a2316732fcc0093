//! Weekly credit, and usage by plan.
use crate::ordered::{lookup, put, OrderedMap};
use crate::pipelines::result::materialize::metric::{
    credit_of, effective_plan_type, is_subscription_plan, plan_is_subscription, plan_of_usage,
    with_usage,
};
use crate::pipelines::result::materialize::records::{
    empty_plan_aggregate, AccountContext, AccountContextView, Capacity, CapacityView, MetricView,
    PlanAggregate, PlanAggregateView, UsageRecord, UsageRecordView,
};
use crate::pricing::{Price, PriceView};
use crate::text::{ascii_lower, borrowed, first_of, first_some, same, text_or, to_ascii_lowercase};
use vstd::prelude::*;
use vstd::string::*;

verus! {

/// The profile of a plan, where none is told.
pub open spec fn profile_of_plan(plan: Option<Seq<char>>) -> Option<Seq<char>> {
    match plan {
        Some(plan) => if ascii_lower(plan) == "plus"@ {
            Some("usd20"@)
        } else if ascii_lower(plan) == "team"@ {
            Some("usd100"@)
        } else if ascii_lower(plan) == "pro"@ {
            Some("usd200"@)
        } else {
            None
        },
        None => None,
    }
}

/// Whether a capacity holds at `at`, and for the account.
pub open spec fn is_in_force(
    capacity: CapacityView,
    account_key: Option<Seq<char>>,
    at: i64,
) -> bool {
    &&& capacity.from <= at
    &&& capacity.to is None || at < capacity.to->0
    &&& capacity.account_key is None || capacity.account_key == account_key
}

/// How well a capacity fits a plan: 2 for one that names the plan, and 1 for one with its profile.
pub open spec fn fitness(capacity: CapacityView, plan: Option<Seq<char>>) -> int {
    let exact = capacity.plan_type is Some && plan is Some && ascii_lower(capacity.plan_type->0)
        == ascii_lower(plan->0);
    let profile = profile_of_plan(plan) is Some && ascii_lower(capacity.profile) == ascii_lower(
        profile_of_plan(plan)->0,
    );
    (if exact {
        2int
    } else {
        0int
    }) + (if profile {
        1int
    } else {
        0int
    })
}

/// The place of the fittest of the wanted capacities, of several that of the one that holds from
/// the latest instant, of several that of the last.
pub open spec fn fittest(capacities: Seq<CapacityView>, wanted: Seq<bool>, fit: Seq<int>) -> Option<
    int,
>
    decreases capacities.len(),
{
    if capacities.len() == 0 {
        None
    } else {
        let n = capacities.len() - 1;
        let rest = fittest(capacities.drop_last(), wanted, fit);
        let better = match rest {
            Some(i) => fit[i] < fit[n] || (fit[i] == fit[n] && capacities[i].from
                <= capacities[n].from),
            None => true,
        };
        if wanted[n] && better {
            Some(n)
        } else {
            rest
        }
    }
}

/// The capacity at a place.
pub open spec fn capacity_at(capacities: Seq<CapacityView>, place: Option<int>) -> Option<
    CapacityView,
> {
    match place {
        Some(i) => Some(capacities[i]),
        None => None,
    }
}

/// The capacity of a plan at an instant. Only known subscriptions have one.
pub open spec fn capacity_of(
    capacities: Seq<CapacityView>,
    account_key: Option<Seq<char>>,
    plan: Option<Seq<char>>,
    at: i64,
) -> Option<CapacityView> {
    if plan_is_subscription(plan) {
        let wanted = Seq::new(
            capacities.len(),
            |i: int|
                is_in_force(capacities[i], account_key, at) && (capacities[i].plan_type is None
                    || capacities[i].plan_type == plan),
        );
        let fit = Seq::new(capacities.len(), |i: int| fitness(capacities[i], plan));
        capacity_at(capacities, fittest(capacities, wanted, fit))
    } else {
        None
    }
}

/// The capacity with a profile at an instant, else that of the plan.
pub open spec fn capacity_of_profile(
    capacities: Seq<CapacityView>,
    account_key: Option<Seq<char>>,
    plan: Option<Seq<char>>,
    profile: Option<Seq<char>>,
    at: i64,
) -> Option<CapacityView> {
    let by_profile = match profile {
        Some(profile) => {
            let wanted = Seq::new(
                capacities.len(),
                |i: int|
                    capacities[i].profile == profile && is_in_force(
                        capacities[i],
                        account_key,
                        at,
                    ),
            );
            let fit = Seq::new(capacities.len(), |i: int| 0int);
            capacity_at(capacities, fittest(capacities, wanted, fit))
        },
        None => None,
    };
    first_some(by_profile, capacity_of(capacities, account_key, plan, at))
}

/// The key under which the usage of a plan is gathered.
pub open spec fn key_of_plan(plan: Option<Seq<char>>, profile: Option<Seq<char>>) -> Seq<char> {
    text_or(plan, "unknown"@) + ":"@ + text_or(profile, "unknown"@)
}

/// The usage by plan with one more request.
pub open spec fn with_plan_usage(
    plans: Seq<(Seq<char>, PlanAggregateView)>,
    usage: UsageRecordView,
    price: PriceView,
    account: AccountContextView,
    capacities: Seq<CapacityView>,
) -> Seq<(Seq<char>, PlanAggregateView)> {
    let plan = plan_of_usage(usage);
    let profile = match capacity_of(capacities, account.account_key, plan, usage.observed_at_ms) {
        Some(capacity) => Some(capacity.profile),
        None => None,
    };
    let key = key_of_plan(plan, profile);
    let held = match lookup::<String, PlanAggregateView>(plans, key) {
        Some(held) => held,
        None => empty_plan_aggregate(),
    };
    put::<String, PlanAggregateView>(
        plans,
        key,
        PlanAggregateView {
            plan_type: first_some(held.plan_type, plan),
            capacity_profile: first_some(held.capacity_profile, profile),
            metric: with_usage(held.metric, usage, price),
        },
    )
}

/// What a plan weighs: its credit in millionths, or a million for each token where that is not
/// known.
pub open spec fn weight_of(metric: MetricView) -> int {
    match credit_of(metric) {
        Some(credit) => credit as int,
        None => metric.tokens.total * 1_000_000,
    }
}

/// The place of the plan that weighs most, of several that of the last; only known subscriptions
/// count where `subscriptions` asks for that.
pub open spec fn heaviest(
    plans: Seq<(Seq<char>, PlanAggregateView)>,
    subscriptions: bool,
) -> Option<int>
    decreases plans.len(),
{
    if plans.len() == 0 {
        None
    } else {
        let rest = heaviest(plans.drop_last(), subscriptions);
        let plan = plans.last().1;
        let better = match rest {
            Some(i) => weight_of(plans[i].1.metric) <= weight_of(plan.metric),
            None => true,
        };
        if (subscriptions ==> plan_is_subscription(plan.plan_type)) && better {
            Some(plans.len() - 1)
        } else {
            rest
        }
    }
}

/// The plan that weighs most.
pub open spec fn heaviest_plan(
    plans: Seq<(Seq<char>, PlanAggregateView)>,
    subscriptions: bool,
) -> Option<PlanAggregateView> {
    match heaviest(plans, subscriptions) {
        Some(i) => Some(plans[i].1),
        None => None,
    }
}

/// The fittest capacity is a wanted one, and none of the wanted fits better.
pub proof fn lemma_fittest(capacities: Seq<CapacityView>, wanted: Seq<bool>, fit: Seq<int>)
    ensures
        match fittest(capacities, wanted, fit) {
            Some(n) => {
                &&& 0 <= n < capacities.len()
                &&& wanted[n]
                &&& forall|i: int|
                    0 <= i < capacities.len() && #[trigger] wanted[i] ==> fit[i] < fit[n] || (fit[i]
                        == fit[n] && capacities[i].from <= capacities[n].from)
            },
            None => forall|i: int| 0 <= i < capacities.len() ==> !#[trigger] wanted[i],
        },
    decreases capacities.len(),
{
    if capacities.len() > 0 {
        lemma_fittest(capacities.drop_last(), wanted, fit);
    }
}

/// A capacity that is found holds at the instant and for the account, and it is for the plan or for
/// any; the API and unknown plans have none.
pub proof fn lemma_capacity_is_in_force(
    capacities: Seq<CapacityView>,
    account_key: Option<Seq<char>>,
    plan: Option<Seq<char>>,
    at: i64,
)
    ensures
        match capacity_of(capacities, account_key, plan, at) {
            Some(capacity) => plan_is_subscription(plan) && capacities.contains(capacity)
                && is_in_force(capacity, account_key, at) && (capacity.plan_type is None
                || capacity.plan_type == plan),
            None => true,
        },
{
    if plan_is_subscription(plan) {
        let wanted = Seq::new(
            capacities.len(),
            |i: int|
                is_in_force(capacities[i], account_key, at) && (capacities[i].plan_type is None
                    || capacities[i].plan_type == plan),
        );
        let fit = Seq::new(capacities.len(), |i: int| fitness(capacities[i], plan));
        lemma_fittest(capacities, wanted, fit);
    }
}

/// The profile of a plan, where none is told.
pub fn default_capacity_profile(plan: Option<&str>) -> (r: Option<&'static str>)
    ensures
        r.deep_view() == profile_of_plan(plan.deep_view()),
{
    match plan {
        Some(plan) => {
            let lowered = to_ascii_lowercase(plan);
            if same(lowered.as_str(), "plus") {
                Some("usd20")
            } else if same(lowered.as_str(), "team") {
                Some("usd100")
            } else if same(lowered.as_str(), "pro") {
                Some("usd200")
            } else {
                None
            }
        },
        None => None,
    }
}

fn same_as(a: &Option<String>, b: Option<&str>) -> (r: bool)
    ensures
        r == (a.deep_view() == b.deep_view()),
{
    match (a, b) {
        (Some(a), Some(b)) => same(a.as_str(), b),
        (None, None) => true,
        _ => false,
    }
}

fn same_ignoring_case(a: &str, b: &str) -> (r: bool)
    ensures
        r == (ascii_lower(a@) == ascii_lower(b@)),
{
    same(to_ascii_lowercase(a).as_str(), to_ascii_lowercase(b).as_str())
}

fn in_force(capacity: &Capacity, account_key: Option<&str>, at_ms: i64) -> (r: bool)
    ensures
        r == is_in_force(capacity.deep_view(), account_key.deep_view(), at_ms),
{
    let ends = match capacity.to {
        Some(to) => at_ms >= to,
        None => false,
    };
    capacity.from <= at_ms && !ends && (capacity.account_key.is_none() || same_as(
        &capacity.account_key,
        account_key,
    ))
}

fn find_fittest<'a>(
    capacities: &'a Vec<Capacity>,
    wanted: &Vec<bool>,
    fit: &Vec<u8>,
) -> (r: Option<&'a Capacity>)
    requires
        wanted@.len() == capacities@.len(),
        fit@.len() == capacities@.len(),
    ensures
        r.deep_view() == capacity_at(
            capacities.deep_view(),
            fittest(
                capacities.deep_view(),
                wanted@,
                Seq::new(fit@.len(), |i: int| fit@[i] as int),
            ),
        ),
{
    let ghost all = capacities.deep_view();
    let ghost ranks = Seq::new(fit@.len(), |i: int| fit@[i] as int);
    let mut best: Option<usize> = None;
    let mut i: usize = 0;
    while i < capacities.len()
        invariant
            i <= capacities@.len(),
            all == capacities.deep_view(),
            ranks == Seq::new(fit@.len(), |i: int| fit@[i] as int),
            wanted@.len() == capacities@.len(),
            fit@.len() == capacities@.len(),
            match best {
                Some(n) => n < i && fittest(all.take(i as int), wanted@, ranks) == Some(n as int),
                None => fittest(all.take(i as int), wanted@, ranks) is None,
            },
        decreases capacities@.len() - i,
    {
        proof {
            assert(all.take(i + 1).drop_last() =~= all.take(i as int));
            assert(all.take(i + 1).last() == capacities@[i as int].deep_view());
        }
        let better = match best {
            Some(n) => fit[n] < fit[i] || (fit[n] == fit[i] && capacities[n].from
                <= capacities[i].from),
            None => true,
        };
        if wanted[i] && better {
            best = Some(i);
        }
        i = i + 1;
    }
    assert(all.take(i as int) =~= all);
    match best {
        Some(n) => Some(&capacities[n]),
        None => None,
    }
}

/// The capacity of a plan at an instant.
pub fn capacity_for<'a>(
    capacities: &'a Vec<Capacity>,
    account_key: Option<&str>,
    plan: Option<&str>,
    at_ms: i64,
) -> (r: Option<&'a Capacity>)
    ensures
        r.deep_view() == capacity_of(
            capacities.deep_view(),
            account_key.deep_view(),
            plan.deep_view(),
            at_ms,
        ),
{
    if !is_subscription_plan(plan) {
        return None;
    }
    let ghost all = capacities.deep_view();
    let preferred = default_capacity_profile(plan);
    let mut wanted: Vec<bool> = Vec::new();
    let mut fit: Vec<u8> = Vec::new();
    let mut i: usize = 0;
    while i < capacities.len()
        invariant
            i <= capacities@.len(),
            all == capacities.deep_view(),
            preferred.deep_view() == profile_of_plan(plan.deep_view()),
            wanted@.len() == i,
            fit@.len() == i,
            forall|k: int|
                0 <= k < i ==> (#[trigger] wanted@[k]) == (is_in_force(
                    all[k],
                    account_key.deep_view(),
                    at_ms,
                ) && (all[k].plan_type is None || all[k].plan_type == plan.deep_view())),
            forall|k: int|
                0 <= k < i ==> (#[trigger] fit@[k]) as int == fitness(all[k], plan.deep_view()),
        decreases capacities@.len() - i,
    {
        let capacity = &capacities[i];
        assert(all[i as int] == capacity.deep_view());
        wanted.push(
            in_force(capacity, account_key, at_ms) && (capacity.plan_type.is_none() || same_as(
                &capacity.plan_type,
                plan,
            )),
        );
        let exact = match (&capacity.plan_type, plan) {
            (Some(value), Some(candidate)) => same_ignoring_case(value.as_str(), candidate),
            _ => false,
        };
        let profile = match preferred {
            Some(profile) => same_ignoring_case(capacity.profile.as_str(), profile),
            None => false,
        };
        let mut rank: u8 = 0;
        if exact {
            rank = 2;
        }
        if profile {
            rank = rank + 1;
        }
        fit.push(rank);
        i = i + 1;
    }
    proof {
        assert(wanted@ =~= Seq::new(
            all.len(),
            |i: int|
                is_in_force(all[i], account_key.deep_view(), at_ms) && (all[i].plan_type is None
                    || all[i].plan_type == plan.deep_view()),
        ));
        assert(Seq::new(fit@.len(), |i: int| fit@[i] as int) =~= Seq::new(
            all.len(),
            |i: int| fitness(all[i], plan.deep_view()),
        ));
    }
    find_fittest(capacities, &wanted, &fit)
}

/// The capacity with a profile at an instant, else that of the plan.
pub fn capacity_for_plan<'a>(
    capacities: &'a Vec<Capacity>,
    account_key: Option<&str>,
    plan_type: Option<&str>,
    profile: Option<&str>,
    at_ms: i64,
) -> (r: Option<&'a Capacity>)
    ensures
        r.deep_view() == capacity_of_profile(
            capacities.deep_view(),
            account_key.deep_view(),
            plan_type.deep_view(),
            profile.deep_view(),
            at_ms,
        ),
{
    let ghost all = capacities.deep_view();
    if let Some(profile) = profile {
        let mut wanted: Vec<bool> = Vec::new();
        let mut fit: Vec<u8> = Vec::new();
        let mut i: usize = 0;
        while i < capacities.len()
            invariant
                i <= capacities@.len(),
                all == capacities.deep_view(),
                wanted@.len() == i,
                fit@.len() == i,
                forall|k: int|
                    0 <= k < i ==> (#[trigger] wanted@[k]) == (all[k].profile == profile@
                        && is_in_force(all[k], account_key.deep_view(), at_ms)),
                forall|k: int| 0 <= k < i ==> (#[trigger] fit@[k]) == 0,
            decreases capacities@.len() - i,
        {
            let capacity = &capacities[i];
            assert(all[i as int] == capacity.deep_view());
            wanted.push(
                same(capacity.profile.as_str(), profile) && in_force(capacity, account_key, at_ms),
            );
            fit.push(0);
            i = i + 1;
        }
        proof {
            assert(wanted@ =~= Seq::new(
                all.len(),
                |i: int|
                    all[i].profile == profile@ && is_in_force(
                        all[i],
                        account_key.deep_view(),
                        at_ms,
                    ),
            ));
            assert(Seq::new(fit@.len(), |i: int| fit@[i] as int) =~= Seq::new(
                all.len(),
                |i: int| 0int,
            ));
        }
        if let Some(capacity) = find_fittest(capacities, &wanted, &fit) {
            return Some(capacity);
        }
    }
    capacity_for(capacities, account_key, plan_type, at_ms)
}

/// The key under which the usage of a plan is gathered.
pub fn plan_key(plan_type: Option<&str>, capacity_profile: Option<&str>) -> (r: String)
    ensures
        r@ == key_of_plan(plan_type.deep_view(), capacity_profile.deep_view()),
{
    let mut key = match plan_type {
        Some(plan) => plan.to_owned(),
        None => "unknown".to_owned(),
    };
    key.append(":");
    key.append(
        match capacity_profile {
            Some(profile) => profile,
            None => "unknown",
        },
    );
    key
}

/// Adds a request to the usage by plan.
pub fn add_plan_metric(
    plans: &mut OrderedMap<String, PlanAggregate>,
    usage: &UsageRecord,
    price: &Price,
    account: &AccountContext,
    capacities: &Vec<Capacity>,
)
    ensures
        final(plans).deep_view() == with_plan_usage(
            old(plans).deep_view(),
            usage.deep_view(),
            price.deep_view(),
            account.deep_view(),
            capacities.deep_view(),
        ),
{
    let plan_type = effective_plan_type(usage);
    let capacity = capacity_for(
        capacities,
        borrowed(&account.account_key),
        borrowed(&plan_type),
        usage.observed_at_ms,
    );
    let capacity_profile = match capacity {
        Some(capacity) => Some(capacity.profile.clone()),
        None => None,
    };
    let key = plan_key(borrowed(&plan_type), borrowed(&capacity_profile));
    let entry = plans.entry(key, PlanAggregate::default());
    entry.plan_type = first_of(&entry.plan_type, &plan_type);
    entry.capacity_profile = first_of(&entry.capacity_profile, &capacity_profile);
    entry.metric.add_usage(usage, price);
}

fn weight(plan: &PlanAggregate) -> (r: i128)
    ensures
        r == weight_of(plan.metric.deep_view()),
{
    match plan.metric.credit() {
        Some(credit) => credit as i128,
        None => plan.metric.tokens.total as i128 * 1_000_000,
    }
}

fn find_heaviest(plans: &OrderedMap<String, PlanAggregate>, subscriptions: bool) -> (r: Option<
    &PlanAggregate,
>)
    ensures
        r.deep_view() == heaviest_plan(plans.deep_view(), subscriptions),
{
    let ghost all = plans.deep_view();
    let mut best: Option<usize> = None;
    let mut i: usize = 0;
    while i < plans.entries.len()
        invariant
            i <= plans.entries@.len(),
            all == plans.deep_view(),
            match best {
                Some(n) => n < i && heaviest(all.take(i as int), subscriptions) == Some(n as int),
                None => heaviest(all.take(i as int), subscriptions) is None,
            },
        decreases plans.entries@.len() - i,
    {
        proof {
            assert(all.take(i + 1).drop_last() =~= all.take(i as int));
            assert(all.take(i + 1).last() == plans.entries@[i as int].deep_view());
            if let Some(n) = best {
                assert(all[n as int] == plans.entries@[n as int].deep_view());
            }
        }
        let plan = &plans.entries[i].1;
        let better = match best {
            Some(n) => weight(&plans.entries[n].1) <= weight(plan),
            None => true,
        };
        if (!subscriptions || is_subscription_plan(borrowed(&plan.plan_type))) && better {
            best = Some(i);
        }
        i = i + 1;
    }
    assert(all.take(i as int) =~= all);
    match best {
        Some(n) => {
            assert(all[n as int] == plans.entries@[n as int].deep_view());
            Some(&plans.entries[n].1)
        },
        None => None,
    }
}

/// The plan that weighs most.
pub fn dominant_plan(plans: &OrderedMap<String, PlanAggregate>) -> (r: Option<&PlanAggregate>)
    ensures
        r.deep_view() == heaviest_plan(plans.deep_view(), false),
{
    find_heaviest(plans, false)
}

/// The known subscription that weighs most.
pub fn dominant_subscription_plan(plans: &OrderedMap<String, PlanAggregate>) -> (r: Option<
    &PlanAggregate,
>)
    ensures
        r.deep_view() == heaviest_plan(plans.deep_view(), true),
{
    find_heaviest(plans, true)
}

} // verus!
