//! What the rows of a page's tables tell of the requests that were collected.
use crate::db::{ModelUsageView, UsageMinuteRecordView, UsageSessionRecordView};
use crate::json::Float;
use crate::minimal::pricing::price_of;
use crate::minimal::rollup::load::FactsView;
use crate::minimal::rollup::metric::{
    api_usd_of, credit_of, if_used, merged, no_metric, with_request, MetricAggregateView,
};
use crate::minimal::rollup::rows::{minute_row, rows_of};
use crate::minimal::rollup::{
    bucket_with_usage, date_or_unknown, day_with, days_of_minutes, gathered, id_of, minute_key,
    models_with, new_day, new_session, percent_of, quota_minutes, rolled_up, root_of, session_key,
    session_of, session_with, setting_of, turn_id_of, turn_of, window_key, DayAggregateView,
    GatheredView, MinuteBucketView, SessionAggregateView, SettingView,
};
use crate::ordered::{
    all_entries, all_values, keys_increase, lemma_entry_is_found, lemma_lookup_entry,
    lemma_lookup_value, lemma_put_entries, lemma_put_in_order, lemma_put_lookup, lemma_put_sum,
    lemma_put_values, lookup, put, sum_values,
};
use crate::pipelines::result::materialize::clock::minute_of;
use crate::pipelines::result::materialize::records::{
    AccountContextView, QuotaObservationView, UsageRecordView,
};
use crate::pipelines::result::materialize::tables::{
    first_in, last_in, select, sum_over, told, whole_minute, Columns,
};
use crate::pipelines::result::materialize::windows::window_of_usage;
use crate::pricing::PriceView;
use crate::text::text_or;
use vstd::prelude::*;
use vstd::string::*;

verus! {

/// What a request costs.
pub open spec fn cost_of(usage: UsageRecordView) -> PriceView {
    price_of(usage.tokens, usage.model, usage.tier, usage.observed_at_ms)
}

/// One of the eight numbers of a request: its tokens by kind, its credit and its dollars.
pub open spec fn number_of(usage: UsageRecordView, n: int) -> int {
    if n == 0 {
        usage.tokens.input as int
    } else if n == 1 {
        usage.tokens.cached as int
    } else if n == 2 {
        usage.tokens.cache_write as int
    } else if n == 3 {
        usage.tokens.output as int
    } else if n == 4 {
        usage.tokens.reasoning as int
    } else if n == 5 {
        usage.tokens.total as int
    } else if n == 6 {
        told(cost_of(usage).credit_micros)
    } else {
        told(cost_of(usage).api_usd_micros)
    }
}

/// One of the eight numbers over requests.
pub open spec fn sum_of(usages: Seq<UsageRecordView>, n: int) -> int {
    sum_over(usages, |u: UsageRecordView| number_of(u, n))
}

/// Whether requests count nothing negative and their sums can be held.
pub open spec fn are_countable(usages: Seq<UsageRecordView>) -> bool {
    &&& forall|i: int, n: int|
        0 <= i < usages.len() && 0 <= n < 8 ==> #[trigger] number_of(usages[i], n) >= 0
    &&& forall|n: int| 0 <= n < 8 ==> #[trigger] sum_of(usages, n) <= i64::MAX
}

/// Whether the credit of all requests is known.
pub open spec fn all_credit_known(usages: Seq<UsageRecordView>) -> bool {
    forall|i: int| 0 <= i < usages.len() ==> cost_of(#[trigger] usages[i]).credit_micros is Some
}

/// Whether the dollars of all requests are known.
pub open spec fn all_dollars_known(usages: Seq<UsageRecordView>) -> bool {
    forall|i: int| 0 <= i < usages.len() ==> cost_of(#[trigger] usages[i]).api_usd_micros is Some
}

/// Whether columns tell the sums over requests, each that of its own kind: the tokens where there is
/// a request, and the amounts where there is one and those of all are known.
pub open spec fn tells_sums(columns: Columns, usages: Seq<UsageRecordView>) -> bool {
    let some = usages.len() > 0;
    &&& columns.input == (if some {
        Some(sum_over(usages, |u: UsageRecordView| u.tokens.input as int) as i64)
    } else {
        None
    })
    &&& columns.cache_read == (if some {
        Some(sum_over(usages, |u: UsageRecordView| u.tokens.cached as int) as i64)
    } else {
        None
    })
    &&& columns.cache_write == (if some {
        Some(sum_over(usages, |u: UsageRecordView| u.tokens.cache_write as int) as i64)
    } else {
        None
    })
    &&& columns.output == (if some {
        Some(sum_over(usages, |u: UsageRecordView| u.tokens.output as int) as i64)
    } else {
        None
    })
    &&& columns.reasoning == (if some {
        Some(sum_over(usages, |u: UsageRecordView| u.tokens.reasoning as int) as i64)
    } else {
        None
    })
    &&& columns.total == (if some {
        Some(sum_over(usages, |u: UsageRecordView| u.tokens.total as int) as i64)
    } else {
        None
    })
    &&& columns.credit == (if some && all_credit_known(usages) {
        Some(sum_over(usages, |u: UsageRecordView| told(cost_of(u).credit_micros)) as i64)
    } else {
        None
    })
    &&& columns.api_usd == (if some && all_dollars_known(usages) {
        Some(sum_over(usages, |u: UsageRecordView| told(cost_of(u).api_usd_micros)) as i64)
    } else {
        None
    })
}

/// One of the eight numbers of a sum.
spec fn number_in(metric: MetricAggregateView, n: int) -> int {
    if n == 0 {
        metric.tokens.input as int
    } else if n == 1 {
        metric.tokens.cached as int
    } else if n == 2 {
        metric.tokens.cache_write as int
    } else if n == 3 {
        metric.tokens.output as int
    } else if n == 4 {
        metric.tokens.reasoning as int
    } else if n == 5 {
        metric.tokens.total as int
    } else if n == 6 {
        metric.credit_micros as int
    } else {
        metric.api_usd_micros as int
    }
}

/// Whether a sum is the one over requests.
spec fn adds_up(metric: MetricAggregateView, usages: Seq<UsageRecordView>) -> bool {
    &&& forall|n: int| 0 <= n < 8 ==> #[trigger] number_in(metric, n) == sum_of(usages, n)
    &&& metric.has_usage == (usages.len() > 0)
    &&& metric.has_usage ==> metric.credit_known == all_credit_known(usages) && metric.api_known
        == all_dollars_known(usages)
}

proof fn lemma_sums_are_bounded(
    usages: Seq<UsageRecordView>,
    wanted: spec_fn(UsageRecordView) -> bool,
    n: int,
)
    requires
        0 <= n < 8,
        forall|i: int| 0 <= i < usages.len() ==> number_of(#[trigger] usages[i], n) >= 0,
    ensures
        0 <= sum_of(select(usages, wanted), n) <= sum_of(usages, n),
        usages.len() > 0 ==> sum_of(usages.drop_last(), n) <= sum_of(usages, n),
    decreases usages.len(),
{
    if usages.len() > 0 {
        let shorter = usages.drop_last();
        assert forall|i: int| 0 <= i < shorter.len() implies number_of(#[trigger] shorter[i], n)
            >= 0 by {
            assert(shorter[i] == usages[i]);
        }
        lemma_sums_are_bounded(shorter, wanted, n);
        assert(number_of(usages[usages.len() - 1], n) >= 0);
        if wanted(usages.last()) {
            assert(select(usages, wanted).drop_last() =~= select(shorter, wanted));
        }
    }
}

proof fn lemma_countable_parts(
    usages: Seq<UsageRecordView>,
    wanted: spec_fn(UsageRecordView) -> bool,
)
    requires
        are_countable(usages),
    ensures
        usages.len() > 0 ==> are_countable(usages.drop_last()),
        forall|n: int|
            0 <= n < 8 ==> 0 <= #[trigger] sum_of(select(usages, wanted), n) <= i64::MAX,
{
    assert forall|n: int| 0 <= n < 8 implies 0 <= #[trigger] sum_of(select(usages, wanted), n)
        <= i64::MAX by {
        assert forall|i: int| 0 <= i < usages.len() implies number_of(#[trigger] usages[i], n)
            >= 0 by {}
        assert(sum_of(usages, n) <= i64::MAX);
        lemma_sums_are_bounded(usages, wanted, n);
    }
    if usages.len() > 0 {
        let shorter = usages.drop_last();
        assert forall|i: int, n: int| 0 <= i < shorter.len() && 0 <= n < 8 implies
            #[trigger] number_of(shorter[i], n) >= 0 by {
            assert(number_of(usages[i], n) >= 0);
        }
        assert forall|n: int| 0 <= n < 8 implies #[trigger] sum_of(shorter, n) <= i64::MAX by {
            assert forall|i: int| 0 <= i < usages.len() implies number_of(#[trigger] usages[i], n)
                >= 0 by {}
            assert(sum_of(usages, n) <= i64::MAX);
            lemma_sums_are_bounded(usages, wanted, n);
        }
    }
}

proof fn lemma_known_step(usages: Seq<UsageRecordView>, usage: UsageRecordView)
    ensures
        all_credit_known(usages.push(usage)) <==> all_credit_known(usages) && cost_of(
            usage,
        ).credit_micros is Some,
        all_dollars_known(usages.push(usage)) <==> all_dollars_known(usages) && cost_of(
            usage,
        ).api_usd_micros is Some,
{
    let all = usages.push(usage);
    assert(all[usages.len() as int] == usage);
    assert forall|i: int| 0 <= i < usages.len() implies usages[i] == #[trigger] all[i] by {}
    if all_credit_known(all) {
        assert forall|i: int| 0 <= i < usages.len() implies cost_of(
            #[trigger] usages[i],
        ).credit_micros is Some by {
            assert(all[i] == usages[i]);
        }
    }
    if all_dollars_known(all) {
        assert forall|i: int| 0 <= i < usages.len() implies cost_of(
            #[trigger] usages[i],
        ).api_usd_micros is Some by {
            assert(all[i] == usages[i]);
        }
    }
}

/// A sum with one more request is the sum over one more request.
proof fn lemma_adds_up_step(
    metric: MetricAggregateView,
    usages: Seq<UsageRecordView>,
    usage: UsageRecordView,
)
    requires
        adds_up(metric, usages),
        forall|n: int| 0 <= n < 8 ==> #[trigger] number_of(usage, n) >= 0,
        forall|n: int| 0 <= n < 8 ==> 0 <= #[trigger] sum_of(usages, n),
        forall|n: int| 0 <= n < 8 ==> #[trigger] sum_of(usages.push(usage), n) <= i64::MAX,
    ensures
        adds_up(with_request(metric, usage.tokens, cost_of(usage)), usages.push(usage)),
{
    let all = usages.push(usage);
    let after = with_request(metric, usage.tokens, cost_of(usage));
    assert(all.drop_last() =~= usages);
    lemma_known_step(usages, usage);
    if usages.len() == 0 {
        assert(all_credit_known(usages) && all_dollars_known(usages));
    }
    assert forall|n: int| 0 <= n < 8 implies #[trigger] number_in(after, n) == sum_of(all, n) by {
        assert(number_in(metric, n) == sum_of(usages, n));
        assert(sum_of(all, n) == sum_of(usages, n) + number_of(usage, n));
        assert(0 <= sum_of(usages, n));
        assert(number_of(usage, n) >= 0);
        assert(sum_of(all, n) <= i64::MAX);
    }
}

proof fn lemma_nothing_adds_up()
    ensures
        adds_up(no_metric(), Seq::empty()),
{
    assert forall|n: int| 0 <= n < 8 implies #[trigger] number_in(no_metric(), n) == sum_of(
        Seq::empty(),
        n,
    ) by {}
}

/// The columns that a sum is stored in.
spec fn columns_of(metric: MetricAggregateView) -> Columns {
    Columns {
        input: if_used(metric, metric.tokens.input),
        cache_read: if_used(metric, metric.tokens.cached),
        cache_write: if_used(metric, metric.tokens.cache_write),
        output: if_used(metric, metric.tokens.output),
        reasoning: if_used(metric, metric.tokens.reasoning),
        total: if_used(metric, metric.tokens.total),
        credit: credit_of(metric),
        api_usd: api_usd_of(metric),
    }
}

proof fn lemma_same_sum(
    usages: Seq<UsageRecordView>,
    one: spec_fn(UsageRecordView) -> int,
    other: spec_fn(UsageRecordView) -> int,
)
    requires
        forall|u: UsageRecordView| #[trigger] one(u) == other(u),
    ensures
        sum_over(usages, one) == sum_over(usages, other),
    decreases usages.len(),
{
    if usages.len() > 0 {
        lemma_same_sum(usages.drop_last(), one, other);
        assert(one(usages.last()) == other(usages.last()));
    }
}

proof fn lemma_columns(metric: MetricAggregateView, usages: Seq<UsageRecordView>)
    requires
        adds_up(metric, usages),
    ensures
        tells_sums(columns_of(metric), usages),
{
    lemma_same_sum(
        usages,
        |u: UsageRecordView| number_of(u, 0),
        |u: UsageRecordView| u.tokens.input as int,
    );
    lemma_same_sum(
        usages,
        |u: UsageRecordView| number_of(u, 1),
        |u: UsageRecordView| u.tokens.cached as int,
    );
    lemma_same_sum(
        usages,
        |u: UsageRecordView| number_of(u, 2),
        |u: UsageRecordView| u.tokens.cache_write as int,
    );
    lemma_same_sum(
        usages,
        |u: UsageRecordView| number_of(u, 3),
        |u: UsageRecordView| u.tokens.output as int,
    );
    lemma_same_sum(
        usages,
        |u: UsageRecordView| number_of(u, 4),
        |u: UsageRecordView| u.tokens.reasoning as int,
    );
    lemma_same_sum(
        usages,
        |u: UsageRecordView| number_of(u, 5),
        |u: UsageRecordView| u.tokens.total as int,
    );
    lemma_same_sum(
        usages,
        |u: UsageRecordView| number_of(u, 6),
        |u: UsageRecordView| told(cost_of(u).credit_micros),
    );
    lemma_same_sum(
        usages,
        |u: UsageRecordView| number_of(u, 7),
        |u: UsageRecordView| told(cost_of(u).api_usd_micros),
    );
    assert(number_in(metric, 0) == sum_of(usages, 0));
    assert(number_in(metric, 1) == sum_of(usages, 1));
    assert(number_in(metric, 2) == sum_of(usages, 2));
    assert(number_in(metric, 3) == sum_of(usages, 3));
    assert(number_in(metric, 4) == sum_of(usages, 4));
    assert(number_in(metric, 5) == sum_of(usages, 5));
    assert(number_in(metric, 6) == sum_of(usages, 6));
    assert(number_in(metric, 7) == sum_of(usages, 7));
}

/// The minute and the window of a request.
pub open spec fn minute_of_request(usage: UsageRecordView, setting: SettingView) -> (
    i64,
    Seq<char>,
) {
    (
        whole_minute(usage.observed_at_ms),
        text_or(id_of(window_of_usage(setting.windows, usage.observed_at_ms)), "none"@),
    )
}

/// The row of sessions of a request: that of its day, its root, its session, its turn and its
/// window. A request in no turn has a row of its own.
pub open spec fn row_of_request(usage: UsageRecordView, setting: SettingView) -> Seq<char> {
    session_key(
        date_or_unknown(usage.observed_at_ms, setting.timezone),
        root_of(usage, setting),
        session_of(usage),
        text_or(turn_id_of(turn_of(usage, setting)), usage.source_key),
        window_key(id_of(window_of_usage(setting.windows, usage.observed_at_ms))),
    )
}

/// The row of a session before a request is added to it.
spec fn session_before(
    before: GatheredView,
    usage: UsageRecordView,
    setting: SettingView,
) -> SessionAggregateView {
    match lookup::<String, SessionAggregateView>(before.sessions, row_of_request(usage, setting)) {
        Some(session) => session,
        None => new_session(usage, date_or_unknown(usage.observed_at_ms, setting.timezone), setting),
    }
}

/// The row of a session after a request is added to it.
spec fn session_after(
    before: GatheredView,
    usage: UsageRecordView,
    setting: SettingView,
) -> SessionAggregateView {
    session_with(
        session_before(before, usage, setting),
        usage,
        turn_of(usage, setting),
        percent_of(bucket_with_usage(before.minutes, usage, setting).official),
    )
}

/// Whether a minute is kept under its key.
spec fn minute_has_key(
    key: (i64, Seq<char>),
    bucket: MinuteBucketView,
    timezone: Seq<char>,
) -> bool {
    &&& bucket.minute_start_ms == key.0
    &&& text_or(bucket.window_id, "none"@) == key.1
    &&& bucket.local_date == date_or_unknown(key.0, timezone)
}

/// Whether no request is in a minute.
spec fn is_unused(bucket: MinuteBucketView) -> bool {
    bucket.metrics == no_metric()
}

proof fn lemma_quota_minutes(quotas: Seq<QuotaObservationView>, setting: SettingView)
    ensures
        keys_increase::<(i64, String), MinuteBucketView>(quota_minutes(quotas, setting)),
        all_entries::<(i64, String), MinuteBucketView>(
            quota_minutes(quotas, setting),
            |key: (i64, Seq<char>), bucket: MinuteBucketView|
                minute_has_key(key, bucket, setting.timezone),
        ),
        all_values::<(i64, String), MinuteBucketView>(
            quota_minutes(quotas, setting),
            |bucket: MinuteBucketView| is_unused(bucket),
        ),
    decreases quotas.len(),
{
    let p = |key: (i64, Seq<char>), bucket: MinuteBucketView|
        minute_has_key(key, bucket, setting.timezone);
    let q = |bucket: MinuteBucketView| is_unused(bucket);
    if quotas.len() > 0 {
        let (shorter, quota) = (quotas.drop_last(), quotas.last());
        lemma_quota_minutes(shorter, setting);
        let before = quota_minutes(shorter, setting);
        if quota.used_percent is Some {
            let at = quota.first_seen_at_ms;
            let key = minute_key(minute_of(at), window_of_usage(setting.windows, at));
            lemma_lookup_entry::<(i64, String), MinuteBucketView>(before, key, p);
            lemma_lookup_value::<(i64, String), MinuteBucketView>(before, key, q);
            assert forall|bucket: MinuteBucketView| p(key, bucket) && q(bucket) implies all_entries::<
                (i64, String),
                MinuteBucketView,
            >(#[trigger] put::<(i64, String), MinuteBucketView>(before, key, bucket), p)
                && all_values::<(i64, String), MinuteBucketView>(
                put::<(i64, String), MinuteBucketView>(before, key, bucket),
                q,
            ) && keys_increase::<(i64, String), MinuteBucketView>(
                put::<(i64, String), MinuteBucketView>(before, key, bucket),
            ) by {
                lemma_put_entries::<(i64, String), MinuteBucketView>(before, key, bucket, p);
                lemma_put_values::<(i64, String), MinuteBucketView>(before, key, bucket, q);
                lemma_put_in_order::<(i64, String), MinuteBucketView>(before, key, bucket);
            }
        }
    }
}

proof fn lemma_gathered(
    usages: Seq<UsageRecordView>,
    quotas: Seq<QuotaObservationView>,
    setting: SettingView,
)
    requires
        gathered(usages, quotas, setting) is Ok,
    ensures
        ({
            let rollup = gathered(usages, quotas, setting)->Ok_0;
            &&& keys_increase::<(i64, String), MinuteBucketView>(rollup.minutes)
            &&& keys_increase::<String, SessionAggregateView>(rollup.sessions)
            &&& all_entries::<(i64, String), MinuteBucketView>(
                rollup.minutes,
                |key: (i64, Seq<char>), bucket: MinuteBucketView|
                    minute_has_key(key, bucket, setting.timezone),
            )
        }),
    decreases usages.len(),
{
    let p = |key: (i64, Seq<char>), bucket: MinuteBucketView|
        minute_has_key(key, bucket, setting.timezone);
    if usages.len() == 0 {
        lemma_quota_minutes(quotas, setting);
    } else {
        let (shorter, usage) = (usages.drop_last(), usages.last());
        lemma_gathered(shorter, quotas, setting);
        let before = gathered(shorter, quotas, setting)->Ok_0;
        let key = minute_of_request(usage, setting);
        let bucket = bucket_with_usage(before.minutes, usage, setting);
        lemma_lookup_entry::<(i64, String), MinuteBucketView>(before.minutes, key, p);
        lemma_put_entries::<(i64, String), MinuteBucketView>(before.minutes, key, bucket, p);
        lemma_put_in_order::<(i64, String), MinuteBucketView>(before.minutes, key, bucket);
        lemma_put_in_order::<String, SessionAggregateView>(
            before.sessions,
            row_of_request(usage, setting),
            session_after(before, usage, setting),
        );
    }
}

/// The sum of a minute; of none, where the minute is not kept.
spec fn minute_sum(
    minutes: Seq<((i64, Seq<char>), MinuteBucketView)>,
    key: (i64, Seq<char>),
) -> MetricAggregateView {
    match lookup::<(i64, String), MinuteBucketView>(minutes, key) {
        Some(bucket) => bucket.metrics,
        None => no_metric(),
    }
}

/// The sum of a row of sessions; of none, where the row is not kept.
spec fn session_sum(
    sessions: Seq<(Seq<char>, SessionAggregateView)>,
    key: Seq<char>,
) -> MetricAggregateView {
    match lookup::<String, SessionAggregateView>(sessions, key) {
        Some(session) => session.metrics,
        None => no_metric(),
    }
}

proof fn lemma_last_is_countable(usages: Seq<UsageRecordView>)
    requires
        are_countable(usages),
        usages.len() > 0,
    ensures
        forall|n: int| 0 <= n < 8 ==> #[trigger] number_of(usages.last(), n) >= 0,
{
    assert forall|n: int| 0 <= n < 8 implies #[trigger] number_of(usages.last(), n) >= 0 by {
        assert(number_of(usages[usages.len() - 1], n) >= 0);
    }
}

proof fn lemma_picked_step(
    usages: Seq<UsageRecordView>,
    wanted: spec_fn(UsageRecordView) -> bool,
)
    requires
        are_countable(usages),
        usages.len() > 0,
        wanted(usages.last()),
    ensures
        select(usages, wanted) == select(usages.drop_last(), wanted).push(usages.last()),
        forall|n: int|
            0 <= n < 8 ==> #[trigger] sum_of(
                select(usages.drop_last(), wanted).push(usages.last()),
                n,
            ) <= i64::MAX,
{
    lemma_countable_parts(usages, wanted);
    let all = select(usages.drop_last(), wanted).push(usages.last());
    assert(select(usages, wanted) == all);
    assert forall|n: int| 0 <= n < 8 implies #[trigger] sum_of(all, n) <= i64::MAX by {
        assert(sum_of(select(usages, wanted), n) <= i64::MAX);
    }
}

proof fn lemma_minute_adds_up(
    usages: Seq<UsageRecordView>,
    quotas: Seq<QuotaObservationView>,
    setting: SettingView,
    key: (i64, Seq<char>),
)
    requires
        are_countable(usages),
        gathered(usages, quotas, setting) is Ok,
    ensures
        adds_up(
            minute_sum(gathered(usages, quotas, setting)->Ok_0.minutes, key),
            select(usages, |u: UsageRecordView| minute_of_request(u, setting) == key),
        ),
    decreases usages.len(),
{
    let wanted = |u: UsageRecordView| minute_of_request(u, setting) == key;
    lemma_countable_parts(usages, wanted);
    if usages.len() == 0 {
        let q = |bucket: MinuteBucketView| is_unused(bucket);
        lemma_quota_minutes(quotas, setting);
        lemma_lookup_value::<(i64, String), MinuteBucketView>(
            quota_minutes(quotas, setting),
            key,
            q,
        );
        lemma_nothing_adds_up();
        assert(select(usages, wanted) =~= Seq::empty());
    } else {
        let (shorter, usage) = (usages.drop_last(), usages.last());
        lemma_last_is_countable(usages);
        lemma_minute_adds_up(shorter, quotas, setting, key);
        lemma_gathered(shorter, quotas, setting);
        lemma_countable_parts(shorter, wanted);
        let before = gathered(shorter, quotas, setting)->Ok_0;
        let own = minute_of_request(usage, setting);
        let bucket = bucket_with_usage(before.minutes, usage, setting);
        lemma_put_lookup::<(i64, String), MinuteBucketView>(before.minutes, own, bucket, key);
        if own == key {
            lemma_picked_step(usages, wanted);
            lemma_adds_up_step(minute_sum(before.minutes, key), select(shorter, wanted), usage);
        }
    }
}

/// What one more request does to the sessions.
proof fn lemma_sessions_step(
    usages: Seq<UsageRecordView>,
    quotas: Seq<QuotaObservationView>,
    setting: SettingView,
)
    requires
        usages.len() > 0,
        gathered(usages, quotas, setting) is Ok,
    ensures
        gathered(usages.drop_last(), quotas, setting) is Ok,
        ({
            let before = gathered(usages.drop_last(), quotas, setting)->Ok_0;
            gathered(usages, quotas, setting)->Ok_0.sessions == put::<String, SessionAggregateView>(
                before.sessions,
                row_of_request(usages.last(), setting),
                session_after(before, usages.last(), setting),
            )
        }),
{
}

proof fn lemma_session_adds_up(
    usages: Seq<UsageRecordView>,
    quotas: Seq<QuotaObservationView>,
    setting: SettingView,
    key: Seq<char>,
)
    requires
        are_countable(usages),
        gathered(usages, quotas, setting) is Ok,
    ensures
        adds_up(
            session_sum(gathered(usages, quotas, setting)->Ok_0.sessions, key),
            select(usages, |u: UsageRecordView| row_of_request(u, setting) == key),
        ),
    decreases usages.len(),
{
    let wanted = |u: UsageRecordView| row_of_request(u, setting) == key;
    lemma_countable_parts(usages, wanted);
    if usages.len() == 0 {
        lemma_nothing_adds_up();
        assert(select(usages, wanted) =~= Seq::empty());
    } else {
        let (shorter, usage) = (usages.drop_last(), usages.last());
        lemma_last_is_countable(usages);
        lemma_sessions_step(usages, quotas, setting);
        lemma_session_adds_up(shorter, quotas, setting, key);
        lemma_gathered(shorter, quotas, setting);
        lemma_countable_parts(shorter, wanted);
        let before = gathered(shorter, quotas, setting)->Ok_0;
        let own = row_of_request(usage, setting);
        lemma_put_lookup::<String, SessionAggregateView>(
            before.sessions,
            own,
            session_after(before, usage, setting),
            key,
        );
        if own == key {
            lemma_picked_step(usages, wanted);
            assert(session_before(before, usage, setting).metrics == session_sum(
                before.sessions,
                key,
            ));
            lemma_adds_up_step(session_sum(before.sessions, key), select(shorter, wanted), usage);
        }
    }
}

/// The columns of a minute.
pub open spec fn minute_columns(row: UsageMinuteRecordView) -> Columns {
    Columns {
        input: row.input_tokens,
        cache_read: row.cache_read_tokens,
        cache_write: row.cache_write_tokens,
        output: row.output_tokens,
        reasoning: row.reasoning_tokens,
        total: row.total_tokens,
        credit: row.credit_micros,
        api_usd: row.api_usd_micros,
    }
}

/// The columns of a session.
pub open spec fn session_columns(row: UsageSessionRecordView) -> Columns {
    Columns {
        input: row.input_tokens,
        cache_read: row.cache_read_tokens,
        cache_write: row.cache_write_tokens,
        output: row.output_tokens,
        reasoning: row.reasoning_tokens,
        total: row.total_tokens,
        credit: row.credit_micros,
        api_usd: row.api_usd_micros,
    }
}

/// A row of the minutes tells, in each column, the sum over the requests of its minute and window,
/// and has the date of its minute.
pub proof fn lemma_minutes_tell_their_requests(facts: FactsView, timezone: Seq<char>, at: int)
    requires
        are_countable(facts.usages),
        rolled_up(facts, timezone) is Ok,
        0 <= at < rows_of(rolled_up(facts, timezone)->Ok_0, facts.account).minutes.len(),
    ensures
        ({
            let row = rows_of(rolled_up(facts, timezone)->Ok_0, facts.account).minutes[at];
            let setting = setting_of(facts, timezone);
            &&& tells_sums(
                minute_columns(row),
                select(
                    facts.usages,
                    |u: UsageRecordView|
                        minute_of_request(u, setting) == (
                            row.minute_start_ms,
                            text_or(row.window_id, "none"@),
                        ),
                ),
            )
            &&& row.local_date == date_or_unknown(row.minute_start_ms, timezone)
        }),
{
    let setting = setting_of(facts, timezone);
    let (usages, quotas) = (facts.usages, facts.quotas);
    let minutes = gathered(usages, quotas, setting)->Ok_0.minutes;
    let row = rows_of(rolled_up(facts, timezone)->Ok_0, facts.account).minutes[at];
    lemma_gathered(usages, quotas, setting);
    let p = |key: (i64, Seq<char>), bucket: MinuteBucketView|
        minute_has_key(key, bucket, timezone);
    assert(p(minutes[at].0, minutes[at].1));
    lemma_entry_is_found::<(i64, String), MinuteBucketView>(minutes, at);
    let key = (row.minute_start_ms, text_or(row.window_id, "none"@));
    assert(key == minutes[at].0);
    lemma_minute_adds_up(usages, quotas, setting, key);
    lemma_columns(
        minutes[at].1.metrics,
        select(usages, |u: UsageRecordView| minute_of_request(u, setting) == key),
    );
    assert(minute_columns(row) == columns_of(minutes[at].1.metrics));
}

/// A row of the sessions tells, in each column, the sum over the requests of its day, root,
/// session, turn and window.
pub proof fn lemma_sessions_tell_their_requests(facts: FactsView, timezone: Seq<char>, at: int)
    requires
        are_countable(facts.usages),
        rolled_up(facts, timezone) is Ok,
        0 <= at < rows_of(rolled_up(facts, timezone)->Ok_0, facts.account).sessions.len(),
    ensures
        ({
            let row = rows_of(rolled_up(facts, timezone)->Ok_0, facts.account).sessions[at];
            let setting = setting_of(facts, timezone);
            tells_sums(
                session_columns(row),
                select(
                    facts.usages,
                    |u: UsageRecordView| row_of_request(u, setting) == row.row_key,
                ),
            )
        }),
{
    let setting = setting_of(facts, timezone);
    let (usages, quotas) = (facts.usages, facts.quotas);
    let sessions = gathered(usages, quotas, setting)->Ok_0.sessions;
    let row = rows_of(rolled_up(facts, timezone)->Ok_0, facts.account).sessions[at];
    lemma_gathered(usages, quotas, setting);
    lemma_entry_is_found::<String, SessionAggregateView>(sessions, at);
    lemma_session_adds_up(usages, quotas, setting, sessions[at].0);
    lemma_columns(
        sessions[at].1.metrics,
        select(usages, |u: UsageRecordView| row_of_request(u, setting) == row.row_key),
    );
    assert(session_columns(row) == columns_of(sessions[at].1.metrics));
}

/// The models of a row of sessions; none, where the row is not kept.
spec fn models_of(
    sessions: Seq<(Seq<char>, SessionAggregateView)>,
    key: Seq<char>,
) -> Seq<((Seq<char>, Seq<char>), MetricAggregateView)> {
    match lookup::<String, SessionAggregateView>(sessions, key) {
        Some(session) => session.models,
        None => Seq::empty(),
    }
}

/// The sum of a model; of none, where the model is not kept.
spec fn model_sum(
    models: Seq<((Seq<char>, Seq<char>), MetricAggregateView)>,
    name: (Seq<char>, Seq<char>),
) -> MetricAggregateView {
    match lookup::<(String, String), MetricAggregateView>(models, name) {
        Some(metric) => metric,
        None => no_metric(),
    }
}

/// Whether a request is in a row of sessions and names a model and a tier; a tier that is not known
/// is `unknown`.
pub open spec fn is_of_model(
    usage: UsageRecordView,
    setting: SettingView,
    key: Seq<char>,
    model: Seq<char>,
    tier: Seq<char>,
) -> bool {
    &&& row_of_request(usage, setting) == key
    &&& usage.model == Some(model)
    &&& tier == (if usage.tier is Some {
        usage.tier->0
    } else {
        "unknown"@
    })
}

/// The model and the tier of a request.
spec fn name_of(usage: UsageRecordView) -> (Seq<char>, Seq<char>) {
    (usage.model->0, text_or(usage.tier, "unknown"@))
}

proof fn lemma_models_step(
    usages: Seq<UsageRecordView>,
    quotas: Seq<QuotaObservationView>,
    setting: SettingView,
    key: Seq<char>,
)
    requires
        usages.len() > 0,
        gathered(usages, quotas, setting) is Ok,
    ensures
        gathered(usages.drop_last(), quotas, setting) is Ok,
        ({
            let usage = usages.last();
            let before = models_of(
                gathered(usages.drop_last(), quotas, setting)->Ok_0.sessions,
                key,
            );
            let after = models_of(gathered(usages, quotas, setting)->Ok_0.sessions, key);
            if row_of_request(usage, setting) == key && usage.model is Some {
                after == put::<(String, String), MetricAggregateView>(
                    before,
                    name_of(usage),
                    with_request(model_sum(before, name_of(usage)), usage.tokens, cost_of(usage)),
                )
            } else {
                after == before
            }
        }),
{
    let usage = usages.last();
    lemma_sessions_step(usages, quotas, setting);
    lemma_gathered(usages.drop_last(), quotas, setting);
    let before = gathered(usages.drop_last(), quotas, setting)->Ok_0;
    lemma_put_lookup::<String, SessionAggregateView>(
        before.sessions,
        row_of_request(usage, setting),
        session_after(before, usage, setting),
        key,
    );
    if row_of_request(usage, setting) == key {
        assert(session_before(before, usage, setting).models == models_of(before.sessions, key));
        assert(session_after(before, usage, setting).models == models_with(
            models_of(before.sessions, key),
            usage,
        ));
    }
}

proof fn lemma_models_in_order(
    usages: Seq<UsageRecordView>,
    quotas: Seq<QuotaObservationView>,
    setting: SettingView,
    key: Seq<char>,
)
    requires
        gathered(usages, quotas, setting) is Ok,
    ensures
        ({
            let models = models_of(gathered(usages, quotas, setting)->Ok_0.sessions, key);
            &&& keys_increase::<(String, String), MetricAggregateView>(models)
            &&& all_values::<(String, String), MetricAggregateView>(
                models,
                |metric: MetricAggregateView| metric.has_usage,
            )
        }),
    decreases usages.len(),
{
    let p = |metric: MetricAggregateView| metric.has_usage;
    if usages.len() > 0 {
        let (shorter, usage) = (usages.drop_last(), usages.last());
        lemma_models_step(usages, quotas, setting, key);
        lemma_models_in_order(shorter, quotas, setting, key);
        let before = models_of(gathered(shorter, quotas, setting)->Ok_0.sessions, key);
        let metric = with_request(
            model_sum(before, name_of(usage)),
            usage.tokens,
            cost_of(usage),
        );
        lemma_put_in_order::<(String, String), MetricAggregateView>(before, name_of(usage), metric);
        lemma_put_values::<(String, String), MetricAggregateView>(
            before,
            name_of(usage),
            metric,
            p,
        );
    }
}

proof fn lemma_model_adds_up(
    usages: Seq<UsageRecordView>,
    quotas: Seq<QuotaObservationView>,
    setting: SettingView,
    key: Seq<char>,
    model: Seq<char>,
    tier: Seq<char>,
)
    requires
        are_countable(usages),
        gathered(usages, quotas, setting) is Ok,
    ensures
        adds_up(
            model_sum(
                models_of(gathered(usages, quotas, setting)->Ok_0.sessions, key),
                (model, tier),
            ),
            select(usages, |u: UsageRecordView| is_of_model(u, setting, key, model, tier)),
        ),
    decreases usages.len(),
{
    let wanted = |u: UsageRecordView| is_of_model(u, setting, key, model, tier);
    lemma_countable_parts(usages, wanted);
    if usages.len() == 0 {
        lemma_nothing_adds_up();
        assert(select(usages, wanted) =~= Seq::empty());
    } else {
        let (shorter, usage) = (usages.drop_last(), usages.last());
        lemma_last_is_countable(usages);
        lemma_models_step(usages, quotas, setting, key);
        lemma_model_adds_up(shorter, quotas, setting, key, model, tier);
        lemma_models_in_order(shorter, quotas, setting, key);
        lemma_countable_parts(shorter, wanted);
        let before = models_of(gathered(shorter, quotas, setting)->Ok_0.sessions, key);
        if row_of_request(usage, setting) == key && usage.model is Some {
            let name = name_of(usage);
            lemma_put_lookup::<(String, String), MetricAggregateView>(
                before,
                name,
                with_request(model_sum(before, name), usage.tokens, cost_of(usage)),
                (model, tier),
            );
            assert(wanted(usage) == (name == (model, tier)));
            if wanted(usage) {
                lemma_picked_step(usages, wanted);
                lemma_adds_up_step(model_sum(before, name), select(shorter, wanted), usage);
            }
        }
    }
}

/// Whether an entry of the models of a row of sessions tells the total tokens, the credit and the
/// dollars of the requests of that row with its model and tier. An amount is told where those of all
/// these requests are known.
pub open spec fn tells_model(
    entry: ModelUsageView,
    key: Seq<char>,
    usages: Seq<UsageRecordView>,
    setting: SettingView,
) -> bool {
    let own = select(
        usages,
        |u: UsageRecordView| is_of_model(u, setting, key, entry.model, entry.tier),
    );
    &&& own.len() > 0
    &&& entry.tokens == sum_over(own, |u: UsageRecordView| u.tokens.total as int)
    &&& entry.credit_micros is Some <==> all_credit_known(own)
    &&& entry.credit_micros is Some ==> entry.credit_micros->0 == sum_over(
        own,
        |u: UsageRecordView| told(cost_of(u).credit_micros),
    )
    &&& entry.api_usd_micros is Some <==> all_dollars_known(own)
    &&& entry.api_usd_micros is Some ==> entry.api_usd_micros->0 == sum_over(
        own,
        |u: UsageRecordView| told(cost_of(u).api_usd_micros),
    )
}

/// Each entry of the models of a row of sessions tells the requests of its model and tier.
pub proof fn lemma_models_tell_their_requests(
    facts: FactsView,
    timezone: Seq<char>,
    at: int,
    n: int,
)
    requires
        are_countable(facts.usages),
        rolled_up(facts, timezone) is Ok,
        0 <= at < rows_of(rolled_up(facts, timezone)->Ok_0, facts.account).sessions.len(),
        0 <= n < rows_of(rolled_up(facts, timezone)->Ok_0, facts.account).sessions[at].models.len(),
    ensures
        ({
            let row = rows_of(rolled_up(facts, timezone)->Ok_0, facts.account).sessions[at];
            tells_model(row.models[n], row.row_key, facts.usages, setting_of(facts, timezone))
        }),
{
    let setting = setting_of(facts, timezone);
    let (usages, quotas) = (facts.usages, facts.quotas);
    let sessions = gathered(usages, quotas, setting)->Ok_0.sessions;
    let row = rows_of(rolled_up(facts, timezone)->Ok_0, facts.account).sessions[at];
    let key = sessions[at].0;
    lemma_gathered(usages, quotas, setting);
    lemma_entry_is_found::<String, SessionAggregateView>(sessions, at);
    let models = models_of(sessions, key);
    assert(models == sessions[at].1.models);
    lemma_models_in_order(usages, quotas, setting, key);
    let used = |metric: MetricAggregateView| metric.has_usage;
    assert(used(models[n].1));
    lemma_entry_is_found::<(String, String), MetricAggregateView>(models, n);
    let entry = row.models[n];
    lemma_model_adds_up(usages, quotas, setting, key, entry.model, entry.tier);
    assert(models[n].0 == (entry.model, entry.tier));
    let own = select(
        usages,
        |u: UsageRecordView| is_of_model(u, setting, key, entry.model, entry.tier),
    );
    lemma_columns(models[n].1, own);
    lemma_same_sum(
        own,
        |u: UsageRecordView| number_of(u, 5),
        |u: UsageRecordView| u.tokens.total as int,
    );
    lemma_same_sum(
        own,
        |u: UsageRecordView| number_of(u, 6),
        |u: UsageRecordView| told(cost_of(u).credit_micros),
    );
    lemma_same_sum(
        own,
        |u: UsageRecordView| number_of(u, 7),
        |u: UsageRecordView| told(cost_of(u).api_usd_micros),
    );
    assert(number_in(models[n].1, 5) == sum_of(own, 5));
    assert(number_in(models[n].1, 6) == sum_of(own, 6));
    assert(number_in(models[n].1, 7) == sum_of(own, 7));
}

/// The date of a request, that of its minute.
pub open spec fn day_of(usage: UsageRecordView, timezone: Seq<char>) -> Seq<char> {
    date_or_unknown(whole_minute(usage.observed_at_ms), timezone)
}

/// What a minute adds to one of the numbers of a day.
spec fn number_on(bucket: MinuteBucketView, date: Seq<char>, n: int) -> int {
    if bucket.local_date == date {
        number_in(bucket.metrics, n)
    } else {
        0
    }
}

/// What one more request does to its minute.
proof fn lemma_bucket_step(
    usages: Seq<UsageRecordView>,
    quotas: Seq<QuotaObservationView>,
    setting: SettingView,
    n: int,
)
    requires
        are_countable(usages),
        usages.len() > 0,
        gathered(usages, quotas, setting) is Ok,
        0 <= n < 8,
    ensures
        gathered(usages.drop_last(), quotas, setting) is Ok,
        are_countable(usages.drop_last()),
        ({
            let before = gathered(usages.drop_last(), quotas, setting)->Ok_0.minutes;
            let key = minute_of_request(usages.last(), setting);
            let bucket = bucket_with_usage(before, usages.last(), setting);
            &&& gathered(usages, quotas, setting)->Ok_0.minutes == put::<
                (i64, String),
                MinuteBucketView,
            >(before, key, bucket)
            &&& bucket.local_date == day_of(usages.last(), setting.timezone)
            &&& number_in(bucket.metrics, n) == number_in(minute_sum(before, key), n) + number_of(
                usages.last(),
                n,
            )
            &&& match lookup::<(i64, String), MinuteBucketView>(before, key) {
                Some(held) => held.local_date == bucket.local_date,
                None => number_in(minute_sum(before, key), n) == 0,
            }
        }),
{
    let (shorter, usage) = (usages.drop_last(), usages.last());
    let key = minute_of_request(usage, setting);
    let same = |u: UsageRecordView| minute_of_request(u, setting) == key;
    lemma_last_is_countable(usages);
    lemma_countable_parts(usages, same);
    lemma_gathered(shorter, quotas, setting);
    let before = gathered(shorter, quotas, setting)->Ok_0.minutes;
    let bucket = bucket_with_usage(before, usage, setting);
    let p = |key: (i64, Seq<char>), bucket: MinuteBucketView|
        minute_has_key(key, bucket, setting.timezone);
    lemma_lookup_entry::<(i64, String), MinuteBucketView>(before, key, p);
    lemma_minute_adds_up(shorter, quotas, setting, key);
    lemma_countable_parts(shorter, same);
    lemma_picked_step(usages, same);
    let metric = minute_sum(before, key);
    lemma_adds_up_step(metric, select(shorter, same), usage);
    assert(number_in(metric, n) == sum_of(select(shorter, same), n));
    assert(number_in(bucket.metrics, n) == sum_of(select(shorter, same).push(usage), n));
    assert(select(shorter, same).push(usage).drop_last() =~= select(shorter, same));
}

proof fn lemma_minutes_of_day(
    usages: Seq<UsageRecordView>,
    quotas: Seq<QuotaObservationView>,
    setting: SettingView,
    date: Seq<char>,
    n: int,
)
    requires
        are_countable(usages),
        gathered(usages, quotas, setting) is Ok,
        0 <= n < 8,
    ensures
        sum_values::<(i64, String), MinuteBucketView>(
            gathered(usages, quotas, setting)->Ok_0.minutes,
            |bucket: MinuteBucketView| number_on(bucket, date, n),
        ) == sum_of(select(usages, |u: UsageRecordView| day_of(u, setting.timezone) == date), n),
    decreases usages.len(),
{
    let f = |bucket: MinuteBucketView| number_on(bucket, date, n);
    let wanted = |u: UsageRecordView| day_of(u, setting.timezone) == date;
    if usages.len() == 0 {
        lemma_no_numbers(quotas, setting, date, n);
    } else {
        let (shorter, usage) = (usages.drop_last(), usages.last());
        lemma_bucket_step(usages, quotas, setting, n);
        lemma_minutes_of_day(shorter, quotas, setting, date, n);
        let before = gathered(shorter, quotas, setting)->Ok_0.minutes;
        let key = minute_of_request(usage, setting);
        let bucket = bucket_with_usage(before, usage, setting);
        lemma_put_sum::<(i64, String), MinuteBucketView>(before, key, bucket, f);
        if wanted(usage) {
            assert(select(usages, wanted).drop_last() =~= select(shorter, wanted));
        }
    }
}

proof fn lemma_no_numbers(
    quotas: Seq<QuotaObservationView>,
    setting: SettingView,
    date: Seq<char>,
    n: int,
)
    ensures
        sum_values::<(i64, String), MinuteBucketView>(
            quota_minutes(quotas, setting),
            |bucket: MinuteBucketView| number_on(bucket, date, n),
        ) == 0,
    decreases quotas.len(),
{
    let f = |bucket: MinuteBucketView| number_on(bucket, date, n);
    let q = |bucket: MinuteBucketView| is_unused(bucket);
    if quotas.len() > 0 {
        let (shorter, quota) = (quotas.drop_last(), quotas.last());
        lemma_no_numbers(shorter, setting, date, n);
        lemma_quota_minutes(shorter, setting);
        let before = quota_minutes(shorter, setting);
        if quota.used_percent is Some {
            let at = quota.first_seen_at_ms;
            let key = minute_key(minute_of(at), window_of_usage(setting.windows, at));
            lemma_lookup_value::<(i64, String), MinuteBucketView>(before, key, q);
            assert forall|bucket: MinuteBucketView| is_unused(bucket) implies sum_values::<
                (i64, String),
                MinuteBucketView,
            >(#[trigger] put::<(i64, String), MinuteBucketView>(before, key, bucket), f) == 0 by {
                lemma_put_sum::<(i64, String), MinuteBucketView>(before, key, bucket, f);
            }
        }
    }
}

/// The day as it is kept, or a new one.
spec fn day_on(days: Seq<(Seq<char>, DayAggregateView)>, date: Seq<char>) -> DayAggregateView {
    match lookup::<String, DayAggregateView>(days, date) {
        Some(day) => day,
        None => new_day(date),
    }
}

proof fn lemma_days_in_order(minutes: Seq<((i64, Seq<char>), MinuteBucketView)>)
    ensures
        keys_increase::<String, DayAggregateView>(days_of_minutes(minutes)),
        all_entries::<String, DayAggregateView>(
            days_of_minutes(minutes),
            |date: Seq<char>, day: DayAggregateView| day.local_date == date,
        ),
    decreases minutes.len(),
{
    let p = |date: Seq<char>, day: DayAggregateView| day.local_date == date;
    if minutes.len() > 0 {
        let (shorter, bucket) = (minutes.drop_last(), minutes.last().1);
        lemma_days_in_order(shorter);
        let before = days_of_minutes(shorter);
        let day = day_with(day_on(before, bucket.local_date), bucket);
        lemma_lookup_entry::<String, DayAggregateView>(before, bucket.local_date, p);
        lemma_put_in_order::<String, DayAggregateView>(before, bucket.local_date, day);
        lemma_put_entries::<String, DayAggregateView>(before, bucket.local_date, day, p);
    }
}

/// Whether a sum has no negative number, and none at all where nothing was summed.
spec fn is_sum(metric: MetricAggregateView, n: int) -> bool {
    number_in(metric, n) >= 0 && (metric.has_usage || number_in(metric, n) == 0)
}

proof fn lemma_day_number(
    minutes: Seq<((i64, Seq<char>), MinuteBucketView)>,
    date: Seq<char>,
    n: int,
)
    requires
        0 <= n < 8,
        all_values::<(i64, String), MinuteBucketView>(
            minutes,
            |bucket: MinuteBucketView| is_sum(bucket.metrics, n),
        ),
        sum_values::<(i64, String), MinuteBucketView>(
            minutes,
            |bucket: MinuteBucketView| number_on(bucket, date, n),
        ) <= i64::MAX,
    ensures
        number_in(day_on(days_of_minutes(minutes), date).metrics, n) == sum_values::<
            (i64, String),
            MinuteBucketView,
        >(minutes, |bucket: MinuteBucketView| number_on(bucket, date, n)),
        is_sum(day_on(days_of_minutes(minutes), date).metrics, n),
    decreases minutes.len(),
{
    let q = |bucket: MinuteBucketView| is_sum(bucket.metrics, n);
    let f = |bucket: MinuteBucketView| number_on(bucket, date, n);
    if minutes.len() > 0 {
        let (shorter, bucket) = (minutes.drop_last(), minutes.last().1);
        assert(all_values::<(i64, String), MinuteBucketView>(minutes, q));
        assert forall|i: int| 0 <= i < shorter.len() implies q((#[trigger] shorter[i]).1) by {
            assert(q((minutes[i]).1));
            assert(shorter[i] == minutes[i]);
        }
        assert(q(minutes[minutes.len() - 1].1));
        assert(sum_values::<(i64, String), MinuteBucketView>(minutes, f) == sum_values::<
            (i64, String),
            MinuteBucketView,
        >(shorter, f) + f(bucket));
        lemma_day_number(shorter, date, n);
        lemma_days_in_order(shorter);
        let before = days_of_minutes(shorter);
        let held = day_on(before, bucket.local_date);
        lemma_put_lookup::<String, DayAggregateView>(
            before,
            bucket.local_date,
            day_with(held, bucket),
            date,
        );
        if bucket.local_date == date {
            assert(day_with(held, bucket).metrics == merged(held.metrics, bucket.metrics));
        }
    }
}

proof fn lemma_day_is_used(
    minutes: Seq<((i64, Seq<char>), MinuteBucketView)>,
    date: Seq<char>,
)
    ensures
        day_on(days_of_minutes(minutes), date).metrics.has_usage <==> exists|i: int|
            0 <= i < minutes.len() && (#[trigger] minutes[i]).1.local_date == date
                && minutes[i].1.metrics.has_usage,
    decreases minutes.len(),
{
    if minutes.len() > 0 {
        let (shorter, bucket) = (minutes.drop_last(), minutes.last().1);
        lemma_day_is_used(shorter, date);
        lemma_days_in_order(shorter);
        let before = days_of_minutes(shorter);
        lemma_put_lookup::<String, DayAggregateView>(
            before,
            bucket.local_date,
            day_with(day_on(before, bucket.local_date), bucket),
            date,
        );
        assert(minutes[minutes.len() - 1].1 == bucket);
        if exists|i: int|
            0 <= i < shorter.len() && (#[trigger] shorter[i]).1.local_date == date
                && shorter[i].1.metrics.has_usage {
            let i = choose|i: int|
                0 <= i < shorter.len() && (#[trigger] shorter[i]).1.local_date == date
                    && shorter[i].1.metrics.has_usage;
            assert(minutes[i] == shorter[i]);
        }
        if exists|i: int|
            0 <= i < minutes.len() && (#[trigger] minutes[i]).1.local_date == date
                && minutes[i].1.metrics.has_usage {
            let i = choose|i: int|
                0 <= i < minutes.len() && (#[trigger] minutes[i]).1.local_date == date
                    && minutes[i].1.metrics.has_usage;
            if i < shorter.len() {
                assert(shorter[i] == minutes[i]);
            }
        }
    }
}

/// A row of the days tells, in each column that is told, the sum over the requests of its date, each
/// that of its own kind; and tells the tokens where any minute of its date does.
pub proof fn lemma_days_tell_their_requests(facts: FactsView, timezone: Seq<char>, at: int)
    requires
        are_countable(facts.usages),
        rolled_up(facts, timezone) is Ok,
        0 <= at < rows_of(rolled_up(facts, timezone)->Ok_0, facts.account).days.len(),
    ensures
        ({
            let rows = rows_of(rolled_up(facts, timezone)->Ok_0, facts.account);
            let row = rows.days[at];
            let own = select(
                facts.usages,
                |u: UsageRecordView| day_of(u, timezone) == row.local_date,
            );
            &&& told(row.input_tokens) == sum_over(own, |u: UsageRecordView| u.tokens.input as int)
            &&& told(row.cache_read_tokens) == sum_over(
                own,
                |u: UsageRecordView| u.tokens.cached as int,
            )
            &&& told(row.cache_write_tokens) == sum_over(
                own,
                |u: UsageRecordView| u.tokens.cache_write as int,
            )
            &&& told(row.output_tokens) == sum_over(
                own,
                |u: UsageRecordView| u.tokens.output as int,
            )
            &&& told(row.reasoning_tokens) == sum_over(
                own,
                |u: UsageRecordView| u.tokens.reasoning as int,
            )
            &&& told(row.total_tokens) == sum_over(own, |u: UsageRecordView| u.tokens.total as int)
            &&& row.credit_micros is Some ==> row.credit_micros->0 == sum_over(
                own,
                |u: UsageRecordView| told(cost_of(u).credit_micros),
            )
            &&& row.api_usd_micros is Some ==> row.api_usd_micros->0 == sum_over(
                own,
                |u: UsageRecordView| told(cost_of(u).api_usd_micros),
            )
            &&& row.total_tokens is Some <==> exists|i: int|
                0 <= i < rows.minutes.len() && (#[trigger] rows.minutes[i]).local_date
                    == row.local_date && rows.minutes[i].total_tokens is Some
        }),
{
    let setting = setting_of(facts, timezone);
    let (usages, quotas) = (facts.usages, facts.quotas);
    let minutes = gathered(usages, quotas, setting)->Ok_0.minutes;
    let days = days_of_minutes(minutes);
    let rows = rows_of(rolled_up(facts, timezone)->Ok_0, facts.account);
    let row = rows.days[at];
    let date = row.local_date;
    let wanted = |u: UsageRecordView| day_of(u, timezone) == date;
    let own = select(usages, wanted);
    lemma_gathered(usages, quotas, setting);
    lemma_days_in_order(minutes);
    let p = |date: Seq<char>, day: DayAggregateView| day.local_date == date;
    assert(p(days[at].0, days[at].1));
    lemma_entry_is_found::<String, DayAggregateView>(days, at);
    let metric = days[at].1.metrics;
    assert(day_on(days, date).metrics == metric);
    lemma_countable_parts(usages, wanted);
    assert forall|n: int| 0 <= n < 8 implies #[trigger] number_in(metric, n) == sum_of(own, n)
        && is_sum(metric, n) by {
        lemma_minutes_of_day(usages, quotas, setting, date, n);
        assert(sum_of(select(usages, wanted), n) <= i64::MAX);
        let q = |bucket: MinuteBucketView| is_sum(bucket.metrics, n);
        assert forall|i: int| 0 <= i < minutes.len() implies q((#[trigger] minutes[i]).1) by {
            let key = minutes[i].0;
            let same = |u: UsageRecordView| minute_of_request(u, setting) == key;
            lemma_entry_is_found::<(i64, String), MinuteBucketView>(minutes, i);
            lemma_minute_adds_up(usages, quotas, setting, key);
            lemma_countable_parts(usages, same);
            assert(number_in(minutes[i].1.metrics, n) == sum_of(select(usages, same), n));
        }
        lemma_day_number(minutes, date, n);
    }
    lemma_same_sum(
        own,
        |u: UsageRecordView| number_of(u, 0),
        |u: UsageRecordView| u.tokens.input as int,
    );
    lemma_same_sum(
        own,
        |u: UsageRecordView| number_of(u, 1),
        |u: UsageRecordView| u.tokens.cached as int,
    );
    lemma_same_sum(
        own,
        |u: UsageRecordView| number_of(u, 2),
        |u: UsageRecordView| u.tokens.cache_write as int,
    );
    lemma_same_sum(
        own,
        |u: UsageRecordView| number_of(u, 3),
        |u: UsageRecordView| u.tokens.output as int,
    );
    lemma_same_sum(
        own,
        |u: UsageRecordView| number_of(u, 4),
        |u: UsageRecordView| u.tokens.reasoning as int,
    );
    lemma_same_sum(
        own,
        |u: UsageRecordView| number_of(u, 5),
        |u: UsageRecordView| u.tokens.total as int,
    );
    lemma_same_sum(
        own,
        |u: UsageRecordView| number_of(u, 6),
        |u: UsageRecordView| told(cost_of(u).credit_micros),
    );
    lemma_same_sum(
        own,
        |u: UsageRecordView| number_of(u, 7),
        |u: UsageRecordView| told(cost_of(u).api_usd_micros),
    );
    assert(number_in(metric, 0) == sum_of(own, 0));
    assert(number_in(metric, 1) == sum_of(own, 1));
    assert(number_in(metric, 2) == sum_of(own, 2));
    assert(number_in(metric, 3) == sum_of(own, 3));
    assert(number_in(metric, 4) == sum_of(own, 4));
    assert(number_in(metric, 5) == sum_of(own, 5));
    assert(number_in(metric, 6) == sum_of(own, 6));
    assert(number_in(metric, 7) == sum_of(own, 7));
    lemma_day_is_used(minutes, date);
    if metric.has_usage {
        let i = choose|i: int|
            0 <= i < minutes.len() && (#[trigger] minutes[i]).1.local_date == date
                && minutes[i].1.metrics.has_usage;
        assert(rows.minutes[i].total_tokens is Some);
    }
    if exists|i: int|
        0 <= i < rows.minutes.len() && (#[trigger] rows.minutes[i]).local_date == row.local_date
            && rows.minutes[i].total_tokens is Some {
        let i = choose|i: int|
            0 <= i < rows.minutes.len() && (#[trigger] rows.minutes[i]).local_date
                == row.local_date && rows.minutes[i].total_tokens is Some;
        assert(minutes[i].1.metrics.has_usage);
    }
}

/// The percentages that the minutes of a day say, in the order of the minutes.
pub open spec fn percents_on(rows: Seq<UsageMinuteRecordView>, date: Seq<char>) -> Seq<Float>
    decreases rows.len(),
{
    if rows.len() == 0 {
        Seq::empty()
    } else {
        let before = percents_on(rows.drop_last(), date);
        if rows.last().local_date == date && rows.last().official_used_percent is Some {
            before.push(rows.last().official_used_percent->0)
        } else {
            before
        }
    }
}

/// How many minutes of a day have a reset.
pub open spec fn resets_on(rows: Seq<UsageMinuteRecordView>, date: Seq<char>) -> int
    decreases rows.len(),
{
    if rows.len() == 0 {
        0
    } else {
        resets_on(rows.drop_last(), date) + (if rows.last().local_date == date
            && rows.last().reset_marker {
            1int
        } else {
            0int
        })
    }
}

proof fn lemma_official_of_day(
    minutes: Seq<((i64, Seq<char>), MinuteBucketView)>,
    account: AccountContextView,
    date: Seq<char>,
)
    ensures
        ({
            let rows = minutes.map_values(
                |entry: ((i64, Seq<char>), MinuteBucketView)| minute_row(entry.1, account),
            );
            let day = day_on(days_of_minutes(minutes), date);
            &&& day.first_official == first_in(percents_on(rows, date))
            &&& day.last_official == last_in(percents_on(rows, date))
            &&& 0 <= resets_on(rows, date) <= minutes.len()
            &&& resets_on(rows, date) <= i64::MAX ==> day.reset_count == resets_on(rows, date)
        }),
    decreases minutes.len(),
{
    let make = |entry: ((i64, Seq<char>), MinuteBucketView)| minute_row(entry.1, account);
    if minutes.len() > 0 {
        let (shorter, bucket) = (minutes.drop_last(), minutes.last().1);
        lemma_official_of_day(shorter, account, date);
        lemma_days_in_order(shorter);
        let before = days_of_minutes(shorter);
        lemma_put_lookup::<String, DayAggregateView>(
            before,
            bucket.local_date,
            day_with(day_on(before, bucket.local_date), bucket),
            date,
        );
        assert(minutes.map_values(make).drop_last() =~= shorter.map_values(make));
        assert(minutes.map_values(make).last() == minute_row(bucket, account));
    }
}

/// The official percentages of a day are the first and the last of its minutes, and its resets are
/// the minutes that have one.
pub proof fn lemma_days_say_what_minutes_say(facts: FactsView, timezone: Seq<char>, at: int)
    requires
        rolled_up(facts, timezone) is Ok,
        0 <= at < rows_of(rolled_up(facts, timezone)->Ok_0, facts.account).days.len(),
    ensures
        ({
            let rows = rows_of(rolled_up(facts, timezone)->Ok_0, facts.account);
            let row = rows.days[at];
            &&& row.official_percent_start == first_in(percents_on(rows.minutes, row.local_date))
            &&& row.official_percent_end == last_in(percents_on(rows.minutes, row.local_date))
            &&& resets_on(rows.minutes, row.local_date) <= i64::MAX ==> row.reset_count
                == resets_on(rows.minutes, row.local_date)
        }),
{
    let setting = setting_of(facts, timezone);
    let minutes = gathered(facts.usages, facts.quotas, setting)->Ok_0.minutes;
    let days = days_of_minutes(minutes);
    let rows = rows_of(rolled_up(facts, timezone)->Ok_0, facts.account);
    lemma_days_in_order(minutes);
    let p = |date: Seq<char>, day: DayAggregateView| day.local_date == date;
    assert(p(days[at].0, days[at].1));
    lemma_entry_is_found::<String, DayAggregateView>(days, at);
    lemma_official_of_day(minutes, facts.account, days[at].0);
    assert(rows.minutes =~= minutes.map_values(
        |entry: ((i64, Seq<char>), MinuteBucketView)| minute_row(entry.1, facts.account),
    ));
}

} // verus!
