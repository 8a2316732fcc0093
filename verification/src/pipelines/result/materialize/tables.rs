//! What each row of the four tables says of the requests that it is made of.
use crate::config::{embedded_api, embedded_subscription};
use crate::db::Rise;
use crate::json::Float;
use crate::ordered::{
    all_entries, all_values, keys_increase, lemma_lookup_entry, lemma_lookup_value, lemma_place,
    lemma_put_entries, lemma_put_in_order, lemma_put_lookup, lemma_put_sum, lemma_put_values,
    lookup, place, put, sum_values, with_texts,
};
use crate::pipelines::result::materialize::capacity::with_plan_usage;
use crate::pipelines::result::materialize::clock::{local_date_of, minute_of};
use crate::pipelines::result::materialize::laws::{
    bucket_step, lemma_gathered_in_order, lemma_official_in_order, lemma_quota_minutes_in_order,
    session_step,
};
use crate::pipelines::result::materialize::metric::{context_of_usage, with_usage, UsageContext};
use crate::pipelines::result::materialize::records::{
    empty_metric, empty_window_aggregate, DayAggregateView, MetricView, MinuteBucketView,
    QuotaObservationView, SessionAggregateView, UsageRecordView, WindowAggregateView,
    WindowSegmentView,
};
use crate::pipelines::result::materialize::rollup::{
    day_with_usage, fresh_windows, gathered, held_day, held_minute, id_of, minute_key,
    minute_with_quota, model_key, official_scan, price_of, quota_minutes, quota_rollup,
    root_of_usage, session_key, session_with_usage, slice_of, turn_of_usage, window_with_percent,
    SettingView,
};
use crate::pipelines::result::materialize::windows::{window_of_quota, window_of_usage};
use crate::pricing::{price_by_catalogs, tokens_sum, PriceView, ServiceTier, TokenCounts};
use crate::text::{ascii_lower, text_or};
use vstd::prelude::*;
use vstd::string::*;

verus! {

/// A number of each request, summed over requests.
pub open spec fn sum_over(
    usages: Seq<UsageRecordView>,
    number: spec_fn(UsageRecordView) -> int,
) -> int
    decreases usages.len(),
{
    if usages.len() == 0 {
        0
    } else {
        sum_over(usages.drop_last(), number) + number(usages.last())
    }
}

/// The requests that `wanted` picks, in their order.
pub open spec fn select(
    usages: Seq<UsageRecordView>,
    wanted: spec_fn(UsageRecordView) -> bool,
) -> Seq<UsageRecordView>
    decreases usages.len(),
{
    if usages.len() == 0 {
        Seq::empty()
    } else if wanted(usages.last()) {
        select(usages.drop_last(), wanted).push(usages.last())
    } else {
        select(usages.drop_last(), wanted)
    }
}

/// The number that a column tells; none counts for nothing.
pub open spec fn told(column: Option<i64>) -> int {
    match column {
        Some(number) => number as int,
        None => 0,
    }
}

/// What a request costs by the built-in catalogs.
pub open spec fn cost_of(usage: UsageRecordView, configured: ServiceTier) -> PriceView {
    price_by_catalogs(
        usage.tokens,
        usage.model,
        usage.tier,
        usage.observed_at_ms,
        configured,
        embedded_subscription(),
        embedded_api(),
    )
}

/// The credit that a request uses: what it costs, where it names a plan other than that of the API.
pub open spec fn credit_used(usage: UsageRecordView, configured: ServiceTier) -> Option<i64> {
    if usage.plan_type is Some && ascii_lower(usage.plan_type->0) != "api"@ {
        cost_of(usage, configured).credit_micros
    } else {
        None
    }
}

/// The dollars that a request would cost through the API.
pub open spec fn dollars_of(usage: UsageRecordView, configured: ServiceTier) -> Option<i64> {
    cost_of(usage, configured).api_usd_micros
}

/// The columns of tokens and amounts of a row.
pub struct Columns {
    pub input: Option<i64>,
    pub cache_read: Option<i64>,
    pub cache_write: Option<i64>,
    pub output: Option<i64>,
    pub reasoning: Option<i64>,
    pub total: Option<i64>,
    pub credit: Option<i64>,
    pub api_usd: Option<i64>,
}

/// Whether columns tell the sums over requests, each column that of its own kind: the tokens where
/// there is a request, and the amounts where that of some request is known.
pub open spec fn tells_sums(
    columns: Columns,
    usages: Seq<UsageRecordView>,
    configured: ServiceTier,
) -> bool {
    &&& columns.input is Some <==> usages.len() > 0
    &&& columns.cache_read is Some <==> usages.len() > 0
    &&& columns.cache_write is Some <==> usages.len() > 0
    &&& columns.output is Some <==> usages.len() > 0
    &&& columns.reasoning is Some <==> usages.len() > 0
    &&& columns.total is Some <==> usages.len() > 0
    &&& told(columns.input) == sum_over(usages, |u: UsageRecordView| u.tokens.input as int)
    &&& told(columns.cache_read) == sum_over(usages, |u: UsageRecordView| u.tokens.cached as int)
    &&& told(columns.cache_write) == sum_over(
        usages,
        |u: UsageRecordView| u.tokens.cache_write as int,
    )
    &&& told(columns.output) == sum_over(usages, |u: UsageRecordView| u.tokens.output as int)
    &&& told(columns.reasoning) == sum_over(usages, |u: UsageRecordView| u.tokens.reasoning as int)
    &&& told(columns.total) == sum_over(usages, |u: UsageRecordView| u.tokens.total as int)
    &&& columns.credit is Some <==> knows_credit(usages, configured)
    &&& told(columns.credit) == sum_over(
        usages,
        |u: UsageRecordView| told(credit_used(u, configured)),
    )
    &&& columns.api_usd is Some <==> knows_dollars(usages, configured)
    &&& told(columns.api_usd) == sum_over(
        usages,
        |u: UsageRecordView| told(dollars_of(u, configured)),
    )
}

/// Whether no count and no amount of a request is negative.
pub open spec fn is_countable(usage: UsageRecordView, configured: ServiceTier) -> bool {
    &&& usage.tokens.input >= 0
    &&& usage.tokens.cached >= 0
    &&& usage.tokens.cache_write >= 0
    &&& usage.tokens.output >= 0
    &&& usage.tokens.reasoning >= 0
    &&& usage.tokens.total >= 0
    &&& told(credit_used(usage, configured)) >= 0
    &&& told(dollars_of(usage, configured)) >= 0
}

/// Whether 64 bits can hold each sum over requests.
pub open spec fn sums_fit(usages: Seq<UsageRecordView>, configured: ServiceTier) -> bool {
    &&& sum_over(usages, |u: UsageRecordView| u.tokens.input as int) <= i64::MAX
    &&& sum_over(usages, |u: UsageRecordView| u.tokens.cached as int) <= i64::MAX
    &&& sum_over(usages, |u: UsageRecordView| u.tokens.cache_write as int) <= i64::MAX
    &&& sum_over(usages, |u: UsageRecordView| u.tokens.output as int) <= i64::MAX
    &&& sum_over(usages, |u: UsageRecordView| u.tokens.reasoning as int) <= i64::MAX
    &&& sum_over(usages, |u: UsageRecordView| u.tokens.total as int) <= i64::MAX
    &&& sum_over(usages, |u: UsageRecordView| told(credit_used(u, configured))) <= i64::MAX
    &&& sum_over(usages, |u: UsageRecordView| told(dollars_of(u, configured))) <= i64::MAX
}

/// Whether requests count nothing negative and their sums can be held.
pub open spec fn are_countable(usages: Seq<UsageRecordView>, configured: ServiceTier) -> bool {
    &&& forall|i: int| 0 <= i < usages.len() ==> is_countable(#[trigger] usages[i], configured)
    &&& sums_fit(usages, configured)
}

/// Whether the credit of some request is known.
pub open spec fn knows_credit(usages: Seq<UsageRecordView>, configured: ServiceTier) -> bool {
    exists|i: int| 0 <= i < usages.len() && credit_used(#[trigger] usages[i], configured) is Some
}

/// Whether the dollars of some request are known.
pub open spec fn knows_dollars(usages: Seq<UsageRecordView>, configured: ServiceTier) -> bool {
    exists|i: int| 0 <= i < usages.len() && dollars_of(#[trigger] usages[i], configured) is Some
}

/// Whether counts of tokens are the sums over requests.
pub open spec fn tokens_add_up(tokens: TokenCounts, usages: Seq<UsageRecordView>) -> bool {
    &&& tokens.input == sum_over(usages, |u: UsageRecordView| u.tokens.input as int)
    &&& tokens.cached == sum_over(usages, |u: UsageRecordView| u.tokens.cached as int)
    &&& tokens.cache_write == sum_over(usages, |u: UsageRecordView| u.tokens.cache_write as int)
    &&& tokens.output == sum_over(usages, |u: UsageRecordView| u.tokens.output as int)
    &&& tokens.reasoning == sum_over(usages, |u: UsageRecordView| u.tokens.reasoning as int)
    &&& tokens.total == sum_over(usages, |u: UsageRecordView| u.tokens.total as int)
}

/// Whether a sum is the one over requests.
pub open spec fn adds_up(
    metric: MetricView,
    usages: Seq<UsageRecordView>,
    configured: ServiceTier,
) -> bool {
    &&& metric.has_usage == (usages.len() > 0)
    &&& tokens_add_up(metric.tokens, usages)
    &&& metric.credit_known == knows_credit(usages, configured)
    &&& metric.credit_micros == sum_over(
        usages,
        |u: UsageRecordView| told(credit_used(u, configured)),
    )
    &&& metric.api_known == knows_dollars(usages, configured)
    &&& metric.api_usd_micros == sum_over(
        usages,
        |u: UsageRecordView| told(dollars_of(u, configured)),
    )
}

proof fn lemma_sum_is_valid(
    usages: Seq<UsageRecordView>,
    wanted: spec_fn(UsageRecordView) -> bool,
    number: spec_fn(UsageRecordView) -> int,
)
    requires
        forall|i: int| 0 <= i < usages.len() ==> number(#[trigger] usages[i]) >= 0,
    ensures
        0 <= sum_over(select(usages, wanted), number) <= sum_over(usages, number),
        usages.len() > 0 ==> sum_over(usages.drop_last(), number) <= sum_over(usages, number),
    decreases usages.len(),
{
    if usages.len() > 0 {
        let shorter = usages.drop_last();
        assert forall|i: int| 0 <= i < shorter.len() implies number(#[trigger] shorter[i]) >= 0 by {
            assert(shorter[i] == usages[i]);
        }
        lemma_sum_is_valid(shorter, wanted, number);
        assert(number(usages[usages.len() - 1]) >= 0);
        let picked = select(usages, wanted);
        if wanted(usages.last()) {
            assert(picked.drop_last() =~= select(shorter, wanted));
        }
    }
}

/// Requests of which the sums can be held are so without the last, and so are those that are picked.
pub proof fn lemma_countable_parts(
    usages: Seq<UsageRecordView>,
    wanted: spec_fn(UsageRecordView) -> bool,
    configured: ServiceTier,
)
    requires
        are_countable(usages, configured),
    ensures
        usages.len() > 0 ==> are_countable(usages.drop_last(), configured),
        sums_fit(select(usages, wanted), configured),
{
    let i = |u: UsageRecordView| u.tokens.input as int;
    let c = |u: UsageRecordView| u.tokens.cached as int;
    let w = |u: UsageRecordView| u.tokens.cache_write as int;
    let o = |u: UsageRecordView| u.tokens.output as int;
    let r = |u: UsageRecordView| u.tokens.reasoning as int;
    let t = |u: UsageRecordView| u.tokens.total as int;
    let m = |u: UsageRecordView| told(credit_used(u, configured));
    let d = |u: UsageRecordView| told(dollars_of(u, configured));
    assert forall|k: int| 0 <= k < usages.len() implies i(#[trigger] usages[k]) >= 0 && c(usages[k])
        >= 0 && w(usages[k]) >= 0 && o(usages[k]) >= 0 && r(usages[k]) >= 0 && t(usages[k]) >= 0
        && m(usages[k]) >= 0 && d(usages[k]) >= 0 by {
        assert(is_countable(usages[k], configured));
    }
    lemma_sum_is_valid(usages, wanted, i);
    lemma_sum_is_valid(usages, wanted, c);
    lemma_sum_is_valid(usages, wanted, w);
    lemma_sum_is_valid(usages, wanted, o);
    lemma_sum_is_valid(usages, wanted, r);
    lemma_sum_is_valid(usages, wanted, t);
    lemma_sum_is_valid(usages, wanted, m);
    lemma_sum_is_valid(usages, wanted, d);
    if usages.len() > 0 {
        let shorter = usages.drop_last();
        assert forall|k: int| 0 <= k < shorter.len() implies is_countable(
            #[trigger] shorter[k],
            configured,
        ) by {
            assert(shorter[k] == usages[k]);
        }
    }
}

proof fn lemma_knowing_step(
    usages: Seq<UsageRecordView>,
    usage: UsageRecordView,
    configured: ServiceTier,
)
    ensures
        knows_credit(usages.push(usage), configured) <==> knows_credit(usages, configured)
            || credit_used(usage, configured) is Some,
        knows_dollars(usages.push(usage), configured) <==> knows_dollars(usages, configured)
            || dollars_of(usage, configured) is Some,
{
    let all = usages.push(usage);
    assert(all[usages.len() as int] == usage);
    if knows_credit(usages, configured) {
        let i = choose|i: int|
            0 <= i < usages.len() && credit_used(#[trigger] usages[i], configured) is Some;
        assert(all[i] == usages[i]);
    }
    if knows_credit(all, configured) {
        let i = choose|i: int|
            0 <= i < all.len() && credit_used(#[trigger] all[i], configured) is Some;
        if i < usages.len() {
            assert(usages[i] == all[i]);
        }
    }
    if knows_dollars(usages, configured) {
        let i = choose|i: int|
            0 <= i < usages.len() && dollars_of(#[trigger] usages[i], configured) is Some;
        assert(all[i] == usages[i]);
    }
    if knows_dollars(all, configured) {
        let i = choose|i: int|
            0 <= i < all.len() && dollars_of(#[trigger] all[i], configured) is Some;
        if i < usages.len() {
            assert(usages[i] == all[i]);
        }
    }
}

pub proof fn lemma_unknown_sums_are_zero(usages: Seq<UsageRecordView>, configured: ServiceTier)
    ensures
        !knows_credit(usages, configured) ==> sum_over(
            usages,
            |u: UsageRecordView| told(credit_used(u, configured)),
        ) == 0,
        !knows_dollars(usages, configured) ==> sum_over(
            usages,
            |u: UsageRecordView| told(dollars_of(u, configured)),
        ) == 0,
    decreases usages.len(),
{
    if usages.len() > 0 {
        let shorter = usages.drop_last();
        lemma_unknown_sums_are_zero(shorter, configured);
        lemma_knowing_step(shorter, usages.last(), configured);
        assert(shorter.push(usages.last()) =~= usages);
    }
}

proof fn lemma_tokens_step(
    tokens: TokenCounts,
    usages: Seq<UsageRecordView>,
    usage: UsageRecordView,
    configured: ServiceTier,
)
    requires
        tokens_add_up(tokens, usages),
        sums_fit(usages.push(usage), configured),
        is_countable(usage, configured),
        tokens.input >= 0 && tokens.cached >= 0 && tokens.cache_write >= 0 && tokens.output >= 0
            && tokens.reasoning >= 0 && tokens.total >= 0,
    ensures
        tokens_add_up(tokens_sum(tokens, usage.tokens), usages.push(usage)),
{
    assert(usages.push(usage).drop_last() =~= usages);
}

/// Whether nothing that was summed is negative.
pub open spec fn is_valid(metric: MetricView) -> bool {
    &&& metric.tokens.input >= 0
    &&& metric.tokens.cached >= 0
    &&& metric.tokens.cache_write >= 0
    &&& metric.tokens.output >= 0
    &&& metric.tokens.reasoning >= 0
    &&& metric.tokens.total >= 0
    &&& metric.credit_micros >= 0
    &&& metric.api_usd_micros >= 0
}

/// A sum with one more request is the sum over one more request.
pub proof fn lemma_adds_up_step(
    metric: MetricView,
    usages: Seq<UsageRecordView>,
    usage: UsageRecordView,
    configured: ServiceTier,
)
    requires
        adds_up(metric, usages, configured),
        is_valid(metric),
        sums_fit(usages.push(usage), configured),
        is_countable(usage, configured),
    ensures
        adds_up(
            with_usage(metric, usage, price_of(usage, configured)),
            usages.push(usage),
            configured,
        ),
        is_valid(with_usage(metric, usage, price_of(usage, configured))),
{
    assert(usages.push(usage).drop_last() =~= usages);
    lemma_knowing_step(usages, usage, configured);
    lemma_tokens_step(metric.tokens, usages, usage, configured);
    lemma_api_is_lower();
    assert(context_of_usage(usage) == UsageContext::Subscription <==> usage.plan_type is Some
        && ascii_lower(usage.plan_type->0) != "api"@);
}

/// The name of the API's plan is in lower case.
proof fn lemma_api_is_lower()
    ensures
        ascii_lower("api"@) == "api"@,
{
    reveal_strlit("api");
    assert(ascii_lower("api"@) =~= "api"@);
}

/// Whether a minute is kept under its key, and has the date of its start.
pub open spec fn minute_has_key(key: (i64, Seq<char>), bucket: MinuteBucketView) -> bool {
    &&& bucket.minute_start_ms == key.0
    &&& text_or(bucket.window_id, "none"@) == key.1
    &&& bucket.local_date == text_or(local_date_of(key.0), "unknown"@)
}

/// The date of a request in Shanghai, and `unknown` outside the calendar.
pub open spec fn day_of(usage: UsageRecordView) -> Seq<char> {
    text_or(local_date_of(whole_minute(usage.observed_at_ms)), "unknown"@)
}

/// The whole minute that an instant is in.
pub open spec fn whole_minute(ms: i64) -> i64 {
    (ms - ms % 60_000) as i64
}

/// The minute and the window of a request.
pub open spec fn minute_of_request(usage: UsageRecordView, setting: SettingView) -> (
    i64,
    Seq<char>,
) {
    (
        whole_minute(usage.observed_at_ms),
        text_or(id_of(window_of_usage(setting.windows, usage.observed_at_ms)), "none"@),
    )
}

/// The sum of a minute; of none, where the minute is not kept.
pub open spec fn minute_sum(
    minutes: Seq<((i64, Seq<char>), MinuteBucketView)>,
    key: (i64, Seq<char>),
) -> MetricView {
    match lookup::<(i64, String), MinuteBucketView>(minutes, key) {
        Some(bucket) => bucket.metric,
        None => empty_metric(),
    }
}

/// The sum of a day; of none, where the day is not kept.
pub open spec fn day_sum(days: Seq<(Seq<char>, DayAggregateView)>, date: Seq<char>) -> MetricView {
    match lookup::<String, DayAggregateView>(days, date) {
        Some(day) => day.metric,
        None => empty_metric(),
    }
}

/// The sum of a window; of none, where the window is not kept.
pub open spec fn window_sum(
    windows: Seq<(Seq<char>, WindowAggregateView)>,
    id: Seq<char>,
) -> MetricView {
    match lookup::<String, WindowAggregateView>(windows, id) {
        Some(window) => window.metric,
        None => empty_metric(),
    }
}

/// The sum of a row of sessions; of none, where the row is not kept.
pub open spec fn session_sum(
    sessions: Seq<(Seq<char>, SessionAggregateView)>,
    key: Seq<char>,
) -> MetricView {
    match lookup::<String, SessionAggregateView>(sessions, key) {
        Some(session) => session.metric,
        None => empty_metric(),
    }
}

pub proof fn lemma_quota_minutes_start(quotas: Seq<QuotaObservationView>, setting: SettingView)
    ensures
        all_entries::<(i64, String), MinuteBucketView>(
            quota_minutes(quotas, setting),
            |key: (i64, Seq<char>), bucket: MinuteBucketView| minute_has_key(key, bucket),
        ),
        all_values::<(i64, String), MinuteBucketView>(
            quota_minutes(quotas, setting),
            |bucket: MinuteBucketView| bucket.metric == empty_metric(),
        ),
    decreases quotas.len(),
{
    let p = |key: (i64, Seq<char>), bucket: MinuteBucketView| minute_has_key(key, bucket);
    let q = |bucket: MinuteBucketView| bucket.metric == empty_metric();
    if quotas.len() > 0 {
        let shorter = quotas.drop_last();
        let quota = quotas.last();
        lemma_quota_minutes_start(shorter, setting);
        lemma_quota_minutes_in_order(shorter, setting);
        let before = quota_minutes(shorter, setting);
        let segment = window_of_quota(setting.windows, quota);
        let minute = minute_of(quota.first_seen_at_ms);
        let key = minute_key(minute, segment);
        let held = held_minute(before, minute, segment, setting.account);
        let after = minute_with_quota(held, minute, quota, segment);
        lemma_lookup_entry::<(i64, String), MinuteBucketView>(before, key, p);
        lemma_lookup_value::<(i64, String), MinuteBucketView>(before, key, q);
        assert(minute_has_key(key, held));
        assert(held.metric == empty_metric());
        lemma_put_entries::<(i64, String), MinuteBucketView>(before, key, after, p);
        lemma_put_values::<(i64, String), MinuteBucketView>(before, key, after, q);
    }
}

pub proof fn lemma_fresh_windows_start(segments: Seq<WindowSegmentView>)
    ensures
        all_entries::<String, WindowAggregateView>(
            fresh_windows(segments),
            |id: Seq<char>, window: WindowAggregateView| window.segment.id == id,
        ),
        all_values::<String, WindowAggregateView>(
            fresh_windows(segments),
            |window: WindowAggregateView| window.metric == empty_metric(),
        ),
        keys_increase::<String, WindowAggregateView>(fresh_windows(segments)),
    decreases segments.len(),
{
    let p = |id: Seq<char>, window: WindowAggregateView| window.segment.id == id;
    let q = |window: WindowAggregateView| window.metric == empty_metric();
    if segments.len() > 0 {
        let shorter = segments.drop_last();
        lemma_fresh_windows_start(shorter);
        let before = fresh_windows(shorter);
        let id = segments.last().id;
        let row = WindowAggregateView { segment: segments.last(), ..empty_window_aggregate() };
        lemma_put_entries::<String, WindowAggregateView>(before, id, row, p);
        lemma_put_values::<String, WindowAggregateView>(before, id, row, q);
        lemma_put_in_order::<String, WindowAggregateView>(before, id, row);
    }
}

pub proof fn lemma_official_start(
    minutes: Seq<((i64, Seq<char>), MinuteBucketView)>,
    segments: Seq<WindowSegmentView>,
)
    ensures
        all_entries::<String, DayAggregateView>(
            official_scan(minutes, segments).days,
            |date: Seq<char>, day: DayAggregateView| day.local_date == date,
        ),
        all_values::<String, DayAggregateView>(
            official_scan(minutes, segments).days,
            |day: DayAggregateView| day.metric == empty_metric(),
        ),
        all_entries::<String, WindowAggregateView>(
            official_scan(minutes, segments).windows,
            |id: Seq<char>, window: WindowAggregateView| window.segment.id == id,
        ),
        all_values::<String, WindowAggregateView>(
            official_scan(minutes, segments).windows,
            |window: WindowAggregateView| window.metric == empty_metric(),
        ),
    decreases minutes.len(),
{
    let pd = |date: Seq<char>, day: DayAggregateView| day.local_date == date;
    let qd = |day: DayAggregateView| day.metric == empty_metric();
    let pw = |id: Seq<char>, window: WindowAggregateView| window.segment.id == id;
    let qw = |window: WindowAggregateView| window.metric == empty_metric();
    if minutes.len() == 0 {
        lemma_fresh_windows_start(segments);
    } else {
        let shorter = minutes.drop_last();
        lemma_official_start(shorter, segments);
        lemma_official_in_order(shorter, segments);
        let before = official_scan(shorter, segments);
        let bucket = minutes.last().1;
        if bucket.official is Some && bucket.window_id is Some {
            let id = bucket.window_id->0;
            let percent = bucket.official->0.percent;
            lemma_lookup_entry::<String, WindowAggregateView>(before.windows, id, pw);
            lemma_lookup_value::<String, WindowAggregateView>(before.windows, id, qw);
            if let Some(window) = lookup::<String, WindowAggregateView>(before.windows, id) {
                let row = window_with_percent(window, percent);
                lemma_put_entries::<String, WindowAggregateView>(before.windows, id, row, pw);
                lemma_put_values::<String, WindowAggregateView>(before.windows, id, row, qw);
            }
            if bucket.window_kind == Some("primary"@) {
                let date = bucket.local_date;
                lemma_lookup_entry::<String, DayAggregateView>(before.days, date, pd);
                lemma_lookup_value::<String, DayAggregateView>(before.days, date, qd);
                assert forall|row: DayAggregateView|
                    row.metric == empty_metric() && row.local_date == date implies all_entries::<
                    String,
                    DayAggregateView,
                >(#[trigger] put::<String, DayAggregateView>(before.days, date, row), pd)
                    && all_values::<String, DayAggregateView>(
                    put::<String, DayAggregateView>(before.days, date, row),
                    qd,
                ) by {
                    lemma_put_entries::<String, DayAggregateView>(before.days, date, row, pd);
                    lemma_put_values::<String, DayAggregateView>(before.days, date, row, qd);
                }
            }
        }
    }
}

pub proof fn lemma_minutes_are_keyed(
    usages: Seq<UsageRecordView>,
    quotas: Seq<QuotaObservationView>,
    setting: SettingView,
)
    ensures
        all_entries::<(i64, String), MinuteBucketView>(
            gathered(usages, quotas, setting).minutes,
            |key: (i64, Seq<char>), bucket: MinuteBucketView| minute_has_key(key, bucket),
        ),
    decreases usages.len(),
{
    let p = |key: (i64, Seq<char>), bucket: MinuteBucketView| minute_has_key(key, bucket);
    if usages.len() == 0 {
        lemma_quota_minutes_start(quotas, setting);
    } else {
        let (shorter, usage) = (usages.drop_last(), usages.last());
        lemma_minutes_are_keyed(shorter, quotas, setting);
        lemma_gathered_in_order(shorter, quotas, setting);
        let before = gathered(shorter, quotas, setting);
        let key = minute_of_request(usage, setting);
        lemma_lookup_entry::<(i64, String), MinuteBucketView>(before.minutes, key, p);
        lemma_put_entries::<(i64, String), MinuteBucketView>(
            before.minutes,
            key,
            bucket_step(before, usage, setting),
            p,
        );
    }
}

pub proof fn lemma_minute_of_step(
    usages: Seq<UsageRecordView>,
    quotas: Seq<QuotaObservationView>,
    setting: SettingView,
    usage: UsageRecordView,
)
    ensures
        bucket_step(gathered(usages, quotas, setting), usage, setting).local_date == day_of(usage),
{
    let p = |key: (i64, Seq<char>), bucket: MinuteBucketView| minute_has_key(key, bucket);
    let before = gathered(usages, quotas, setting);
    lemma_minutes_are_keyed(usages, quotas, setting);
    lemma_gathered_in_order(usages, quotas, setting);
    lemma_lookup_entry::<(i64, String), MinuteBucketView>(
        before.minutes,
        minute_of_request(usage, setting),
        p,
    );
}

/// Nothing has been summed before the first request.
pub proof fn lemma_nothing_adds_up(configured: ServiceTier)
    ensures
        adds_up(empty_metric(), Seq::empty(), configured),
        is_valid(empty_metric()),
{
}

pub proof fn lemma_minute_adds_up(
    usages: Seq<UsageRecordView>,
    quotas: Seq<QuotaObservationView>,
    setting: SettingView,
    key: (i64, Seq<char>),
)
    requires
        are_countable(usages, setting.configured),
    ensures
        ({
            let metric = minute_sum(gathered(usages, quotas, setting).minutes, key);
            adds_up(
                metric,
                select(usages, |u: UsageRecordView| minute_of_request(u, setting) == key),
                setting.configured,
            ) && is_valid(metric)
        }),
    decreases usages.len(),
{
    let wanted = |u: UsageRecordView| minute_of_request(u, setting) == key;
    lemma_countable_parts(usages, wanted, setting.configured);
    if usages.len() == 0 {
        let q = |bucket: MinuteBucketView| bucket.metric == empty_metric();
        lemma_quota_minutes_start(quotas, setting);
        lemma_lookup_value::<(i64, String), MinuteBucketView>(
            quota_minutes(quotas, setting),
            key,
            q,
        );
        lemma_nothing_adds_up(setting.configured);
    } else {
        let (shorter, usage) = (usages.drop_last(), usages.last());
        assert(is_countable(usages[usages.len() - 1], setting.configured));
        lemma_minute_adds_up(shorter, quotas, setting, key);
        lemma_gathered_in_order(shorter, quotas, setting);
        let before = gathered(shorter, quotas, setting);
        let own = minute_of_request(usage, setting);
        let bucket = bucket_step(before, usage, setting);
        lemma_put_lookup::<(i64, String), MinuteBucketView>(before.minutes, own, bucket, key);
        if own == key {
            lemma_adds_up_step(
                minute_sum(before.minutes, key),
                select(shorter, wanted),
                usage,
                setting.configured,
            );
        }
    }
}

pub proof fn lemma_day_adds_up(
    usages: Seq<UsageRecordView>,
    quotas: Seq<QuotaObservationView>,
    setting: SettingView,
    date: Seq<char>,
)
    requires
        are_countable(usages, setting.configured),
    ensures
        ({
            let metric = day_sum(gathered(usages, quotas, setting).days, date);
            adds_up(
                metric,
                select(usages, |u: UsageRecordView| day_of(u) == date),
                setting.configured,
            ) && is_valid(metric)
        }),
    decreases usages.len(),
{
    let wanted = |u: UsageRecordView| day_of(u) == date;
    lemma_countable_parts(usages, wanted, setting.configured);
    if usages.len() == 0 {
        let q = |day: DayAggregateView| day.metric == empty_metric();
        let minutes = quota_minutes(quotas, setting);
        lemma_official_start(minutes, setting.windows);
        lemma_lookup_value::<String, DayAggregateView>(
            official_scan(minutes, setting.windows).days,
            date,
            q,
        );
        lemma_nothing_adds_up(setting.configured);
    } else {
        let (shorter, usage) = (usages.drop_last(), usages.last());
        assert(is_countable(usages[usages.len() - 1], setting.configured));
        lemma_day_adds_up(shorter, quotas, setting, date);
        lemma_gathered_in_order(shorter, quotas, setting);
        lemma_minute_of_step(shorter, quotas, setting, usage);
        let before = gathered(shorter, quotas, setting);
        let own = day_of(usage);
        let day = day_with_usage(
            held_day(before.days, own),
            usage,
            price_of(usage, setting.configured),
            setting,
        );
        lemma_put_lookup::<String, DayAggregateView>(before.days, own, day, date);
        if own == date {
            lemma_adds_up_step(
                day_sum(before.days, date),
                select(shorter, wanted),
                usage,
                setting.configured,
            );
        }
    }
}

/// A window with one more request.
spec fn window_with_usage(
    window: WindowAggregateView,
    usage: UsageRecordView,
    setting: SettingView,
) -> WindowAggregateView {
    let price = price_of(usage, setting.configured);
    WindowAggregateView {
        metric: with_usage(window.metric, usage, price),
        plans: with_plan_usage(window.plans, usage, price, setting.account, setting.capacities),
        quality: with_texts(window.quality, price.quality),
        ..window
    }
}

pub proof fn lemma_windows_are_keyed(
    usages: Seq<UsageRecordView>,
    quotas: Seq<QuotaObservationView>,
    setting: SettingView,
)
    ensures
        all_entries::<String, WindowAggregateView>(
            gathered(usages, quotas, setting).windows,
            |id: Seq<char>, window: WindowAggregateView| window.segment.id == id,
        ),
    decreases usages.len(),
{
    let p = |id: Seq<char>, window: WindowAggregateView| window.segment.id == id;
    if usages.len() == 0 {
        lemma_official_start(quota_minutes(quotas, setting), setting.windows);
    } else {
        let (shorter, usage) = (usages.drop_last(), usages.last());
        lemma_windows_are_keyed(shorter, quotas, setting);
        lemma_gathered_in_order(shorter, quotas, setting);
        let before = gathered(shorter, quotas, setting).windows;
        if let Some(id) = id_of(window_of_usage(setting.windows, usage.observed_at_ms)) {
            lemma_lookup_entry::<String, WindowAggregateView>(before, id, p);
            if let Some(window) = lookup::<String, WindowAggregateView>(before, id) {
                lemma_put_entries::<String, WindowAggregateView>(
                    before,
                    id,
                    window_with_usage(window, usage, setting),
                    p,
                );
            }
        }
    }
}

pub proof fn lemma_window_adds_up(
    usages: Seq<UsageRecordView>,
    quotas: Seq<QuotaObservationView>,
    setting: SettingView,
    id: Seq<char>,
)
    requires
        are_countable(usages, setting.configured),
        lookup::<String, WindowAggregateView>(gathered(usages, quotas, setting).windows, id) is Some,
    ensures
        ({
            let metric = window_sum(gathered(usages, quotas, setting).windows, id);
            adds_up(
                metric,
                select(
                    usages,
                    |u: UsageRecordView|
                        id_of(window_of_usage(setting.windows, u.observed_at_ms)) == Some(id),
                ),
                setting.configured,
            ) && is_valid(metric)
        }),
    decreases usages.len(),
{
    let wanted = |u: UsageRecordView|
        id_of(window_of_usage(setting.windows, u.observed_at_ms)) == Some(id);
    lemma_countable_parts(usages, wanted, setting.configured);
    if usages.len() == 0 {
        let q = |window: WindowAggregateView| window.metric == empty_metric();
        let minutes = quota_minutes(quotas, setting);
        lemma_official_start(minutes, setting.windows);
        lemma_lookup_value::<String, WindowAggregateView>(
            official_scan(minutes, setting.windows).windows,
            id,
            q,
        );
        lemma_nothing_adds_up(setting.configured);
    } else {
        let (shorter, usage) = (usages.drop_last(), usages.last());
        assert(is_countable(usages[usages.len() - 1], setting.configured));
        lemma_gathered_in_order(shorter, quotas, setting);
        let before = gathered(shorter, quotas, setting).windows;
        let own = id_of(window_of_usage(setting.windows, usage.observed_at_ms));
        if own is Some {
            if let Some(window) = lookup::<String, WindowAggregateView>(before, own->0) {
                lemma_put_lookup::<String, WindowAggregateView>(
                    before,
                    own->0,
                    window_with_usage(window, usage, setting),
                    id,
                );
            }
        }
        lemma_window_adds_up(shorter, quotas, setting, id);
        if own == Some(id) {
            lemma_adds_up_step(
                window_sum(before, id),
                select(shorter, wanted),
                usage,
                setting.configured,
            );
        }
    }
}

/// The row of sessions in which a request is: that of its root, its turn, its day and its window.
pub open spec fn row_of_request(usage: UsageRecordView, setting: SettingView) -> Seq<char> {
    let segment = window_of_usage(setting.windows, usage.observed_at_ms);
    session_key(
        root_of_usage(usage),
        slice_of(usage, turn_of_usage(usage, setting.turns), day_of(usage), segment).turn_id,
        day_of(usage),
        id_of(segment),
    )
}

pub proof fn lemma_session_of_step(
    usages: Seq<UsageRecordView>,
    quotas: Seq<QuotaObservationView>,
    setting: SettingView,
    usage: UsageRecordView,
)
    ensures
        session_step(gathered(usages, quotas, setting), usage, setting).0 == row_of_request(
            usage,
            setting,
        ),
{
    lemma_minute_of_step(usages, quotas, setting, usage);
}

pub proof fn lemma_session_adds_up(
    usages: Seq<UsageRecordView>,
    quotas: Seq<QuotaObservationView>,
    setting: SettingView,
    key: Seq<char>,
)
    requires
        are_countable(usages, setting.configured),
    ensures
        ({
            let metric = session_sum(gathered(usages, quotas, setting).sessions, key);
            adds_up(
                metric,
                select(usages, |u: UsageRecordView| row_of_request(u, setting) == key),
                setting.configured,
            ) && is_valid(metric)
        }),
    decreases usages.len(),
{
    let wanted = |u: UsageRecordView| row_of_request(u, setting) == key;
    lemma_countable_parts(usages, wanted, setting.configured);
    if usages.len() == 0 {
        lemma_nothing_adds_up(setting.configured);
    } else {
        let (shorter, usage) = (usages.drop_last(), usages.last());
        assert(is_countable(usages[usages.len() - 1], setting.configured));
        lemma_session_adds_up(shorter, quotas, setting, key);
        lemma_gathered_in_order(shorter, quotas, setting);
        lemma_session_of_step(shorter, quotas, setting, usage);
        let before = gathered(shorter, quotas, setting);
        let (own, held, slice) = session_step(before, usage, setting);
        let row = session_with_usage(held, usage, price_of(usage, setting.configured), slice);
        lemma_put_lookup::<String, SessionAggregateView>(before.sessions, own, row, key);
        if own == key {
            assert(held.metric == session_sum(before.sessions, key));
            lemma_adds_up_step(
                session_sum(before.sessions, key),
                select(shorter, wanted),
                usage,
                setting.configured,
            );
        }
    }
}

/// The sums of the models of a row of sessions; none, where the row is not kept.
pub open spec fn models_of(
    sessions: Seq<(Seq<char>, SessionAggregateView)>,
    key: Seq<char>,
) -> Seq<((Seq<char>, (Seq<char>, Seq<char>)), MetricView)> {
    match lookup::<String, SessionAggregateView>(sessions, key) {
        Some(session) => session.models,
        None => Seq::empty(),
    }
}

/// The sum of a model; of none, where the model is not kept.
pub open spec fn model_sum(
    models: Seq<((Seq<char>, (Seq<char>, Seq<char>)), MetricView)>,
    model: (Seq<char>, (Seq<char>, Seq<char>)),
) -> MetricView {
    match lookup::<(String, (String, String)), MetricView>(models, model) {
        Some(metric) => metric,
        None => empty_metric(),
    }
}

/// Whether a request is in a row of sessions and names a model, a tier and an effort; a tier or an
/// effort that is not known is `unknown`.
pub open spec fn is_of_model(
    usage: UsageRecordView,
    setting: SettingView,
    key: Seq<char>,
    model: Seq<char>,
    tier: Seq<char>,
    effort: Seq<char>,
) -> bool {
    &&& row_of_request(usage, setting) == key
    &&& usage.model == Some(model)
    &&& tier == (if usage.tier is Some {
        usage.tier->0
    } else {
        "unknown"@
    })
    &&& effort == (if usage.reasoning_effort is Some {
        usage.reasoning_effort->0
    } else {
        "unknown"@
    })
}

pub proof fn lemma_models_in_order(
    usages: Seq<UsageRecordView>,
    quotas: Seq<QuotaObservationView>,
    setting: SettingView,
    key: Seq<char>,
)
    ensures
        keys_increase::<(String, (String, String)), MetricView>(
            models_of(gathered(usages, quotas, setting).sessions, key),
        ),
    decreases usages.len(),
{
    if usages.len() > 0 {
        let (shorter, usage) = (usages.drop_last(), usages.last());
        lemma_models_in_order(shorter, quotas, setting, key);
        lemma_gathered_in_order(shorter, quotas, setting);
        let before = gathered(shorter, quotas, setting);
        let price = price_of(usage, setting.configured);
        let (own, held, slice) = session_step(before, usage, setting);
        let row = session_with_usage(held, usage, price, slice);
        lemma_put_lookup::<String, SessionAggregateView>(before.sessions, own, row, key);
        if own == key {
            assert(held.models == models_of(before.sessions, key));
            let after = with_usage(model_sum(held.models, model_key(usage)), usage, price);
            lemma_put_in_order::<(String, (String, String)), MetricView>(
                held.models,
                model_key(usage),
                after,
            );
        }
    }
}

pub proof fn lemma_model_adds_up(
    usages: Seq<UsageRecordView>,
    quotas: Seq<QuotaObservationView>,
    setting: SettingView,
    key: Seq<char>,
    model: Seq<char>,
    tier: Seq<char>,
    effort: Seq<char>,
)
    requires
        are_countable(usages, setting.configured),
    ensures
        ({
            let metric = model_sum(
                models_of(gathered(usages, quotas, setting).sessions, key),
                (model, (tier, effort)),
            );
            adds_up(
                metric,
                select(
                    usages,
                    |u: UsageRecordView| is_of_model(u, setting, key, model, tier, effort),
                ),
                setting.configured,
            ) && is_valid(metric)
        }),
    decreases usages.len(),
{
    let wanted = |u: UsageRecordView| is_of_model(u, setting, key, model, tier, effort);
    let name = (model, (tier, effort));
    lemma_countable_parts(usages, wanted, setting.configured);
    if usages.len() == 0 {
        lemma_nothing_adds_up(setting.configured);
    } else {
        let (shorter, usage) = (usages.drop_last(), usages.last());
        assert(is_countable(usages[usages.len() - 1], setting.configured));
        lemma_model_adds_up(shorter, quotas, setting, key, model, tier, effort);
        lemma_models_in_order(shorter, quotas, setting, key);
        lemma_gathered_in_order(shorter, quotas, setting);
        lemma_session_of_step(shorter, quotas, setting, usage);
        let before = gathered(shorter, quotas, setting);
        let price = price_of(usage, setting.configured);
        let (own, held, slice) = session_step(before, usage, setting);
        let row = session_with_usage(held, usage, price, slice);
        lemma_put_lookup::<String, SessionAggregateView>(before.sessions, own, row, key);
        if own == key && usage.model is Some {
            let models = models_of(before.sessions, key);
            assert(held.models == models);
            let after = with_usage(model_sum(models, model_key(usage)), usage, price);
            lemma_put_lookup::<(String, (String, String)), MetricView>(
                models,
                model_key(usage),
                after,
                name,
            );
            assert(wanted(usage) == (model_key(usage) == name));
            if wanted(usage) {
                lemma_adds_up_step(
                    model_sum(models, name),
                    select(shorter, wanted),
                    usage,
                    setting.configured,
                );
            }
        }
    }
}

/// Whether a request is in a row of sessions and names a model.
pub open spec fn names_a_model(
    usage: UsageRecordView,
    setting: SettingView,
    key: Seq<char>,
) -> bool {
    row_of_request(usage, setting) == key && usage.model is Some
}

pub proof fn lemma_models_add_up(
    usages: Seq<UsageRecordView>,
    quotas: Seq<QuotaObservationView>,
    setting: SettingView,
    key: Seq<char>,
)
    requires
        are_countable(usages, setting.configured),
    ensures
        sum_values::<(String, (String, String)), MetricView>(
            models_of(gathered(usages, quotas, setting).sessions, key),
            |metric: MetricView| metric.tokens.total as int,
        ) == sum_over(
            select(usages, |u: UsageRecordView| names_a_model(u, setting, key)),
            |u: UsageRecordView| u.tokens.total as int,
        ),
    decreases usages.len(),
{
    let wanted = |u: UsageRecordView| names_a_model(u, setting, key);
    let total = |metric: MetricView| metric.tokens.total as int;
    lemma_countable_parts(usages, wanted, setting.configured);
    if usages.len() > 0 {
        let (shorter, usage) = (usages.drop_last(), usages.last());
        lemma_models_add_up(shorter, quotas, setting, key);
        lemma_gathered_in_order(shorter, quotas, setting);
        lemma_session_of_step(shorter, quotas, setting, usage);
        let before = gathered(shorter, quotas, setting);
        let price = price_of(usage, setting.configured);
        let (own, held, slice) = session_step(before, usage, setting);
        let row = session_with_usage(held, usage, price, slice);
        lemma_put_lookup::<String, SessionAggregateView>(before.sessions, own, row, key);
        if own == key && usage.model is Some {
            let models = models_of(before.sessions, key);
            assert(held.models == models);
            let name = model_key(usage);
            let after = with_usage(model_sum(models, name), usage, price);
            lemma_put_sum::<(String, (String, String)), MetricView>(models, name, after, total);
            assert(is_countable(usages[usages.len() - 1], setting.configured));
            let same = |u: UsageRecordView|
                is_of_model(u, setting, key, name.0, (name.1).0, (name.1).1);
            lemma_model_adds_up(shorter, quotas, setting, key, name.0, (name.1).0, (name.1).1);
            lemma_countable_parts(usages, same, setting.configured);
            assert(same(usage));
            assert(select(usages, same).drop_last() =~= select(shorter, same));
            assert(select(usages, wanted).drop_last() =~= select(shorter, wanted));
        }
    }
}

/// The first of several values.
pub open spec fn first_in<T>(values: Seq<T>) -> Option<T> {
    if values.len() == 0 {
        None
    } else {
        Some(values[0])
    }
}

/// The last of several values.
pub open spec fn last_in<T>(values: Seq<T>) -> Option<T> {
    if values.len() == 0 {
        None
    } else {
        Some(values[values.len() - 1])
    }
}

/// The rises among percentages in their order: one for each that is not below the one before it.
pub open spec fn rises_in(percents: Seq<Float>) -> Seq<Rise>
    decreases percents.len(),
{
    if percents.len() < 2 {
        Seq::empty()
    } else {
        let (from, to) = (percents[percents.len() - 2], percents[percents.len() - 1]);
        let before = rises_in(percents.drop_last());
        if from.rank <= to.rank {
            before.push(Rise { from, to })
        } else {
            before
        }
    }
}

/// What a minute says of its window: the official percentage, where one is known.
pub struct Point {
    pub minute_start_ms: i64,
    pub local_date: Seq<char>,
    pub window_id: Option<Seq<char>>,
    pub window_kind: Option<Seq<char>>,
    pub percent: Option<Float>,
}

/// The percentages that minutes say of a window, in the order of the minutes.
pub open spec fn percents_of_window(points: Seq<Point>, id: Seq<char>) -> Seq<Float>
    decreases points.len(),
{
    if points.len() == 0 {
        Seq::empty()
    } else {
        let point = points.last();
        let before = percents_of_window(points.drop_last(), id);
        if point.window_id == Some(id) && point.percent is Some {
            before.push(point.percent->0)
        } else {
            before
        }
    }
}

/// The percentages that the minutes of a day say of main windows, in the order of the minutes.
pub open spec fn percents_of_day(points: Seq<Point>, date: Seq<char>) -> Seq<Float>
    decreases points.len(),
{
    if points.len() == 0 {
        Seq::empty()
    } else {
        let point = points.last();
        let before = percents_of_day(points.drop_last(), date);
        if point.local_date == date && point.window_kind == Some("primary"@)
            && point.window_id is Some && point.percent is Some {
            before.push(point.percent->0)
        } else {
            before
        }
    }
}

/// What a minute says.
pub open spec fn point_of(bucket: MinuteBucketView) -> Point {
    Point {
        minute_start_ms: bucket.minute_start_ms,
        local_date: bucket.local_date,
        window_id: bucket.window_id,
        window_kind: bucket.window_kind,
        percent: match bucket.official {
            Some(official) => Some(official.percent),
            None => None,
        },
    }
}

/// What minutes say, in their order.
pub open spec fn points_of(minutes: Seq<((i64, Seq<char>), MinuteBucketView)>) -> Seq<Point> {
    Seq::new(minutes.len(), |i: int| point_of(minutes[i].1))
}

proof fn lemma_official_of_window(
    minutes: Seq<((i64, Seq<char>), MinuteBucketView)>,
    segments: Seq<WindowSegmentView>,
    id: Seq<char>,
)
    ensures
        lookup::<String, WindowAggregateView>(official_scan(minutes, segments).windows, id) is Some
            ==> ({
            let window = lookup::<String, WindowAggregateView>(
                official_scan(minutes, segments).windows,
                id,
            )->0;
            let percents = percents_of_window(points_of(minutes), id);
            &&& window.official_start == first_in(percents)
            &&& window.official_end == last_in(percents)
            &&& window.rises == rises_in(percents)
        }),
    decreases minutes.len(),
{
    if minutes.len() == 0 {
        lemma_fresh_windows_say_nothing(segments);
        let p = |w: WindowAggregateView|
            w.official_start is None && w.official_end is None && w.rises.len() == 0;
        lemma_lookup_value::<String, WindowAggregateView>(fresh_windows(segments), id, p);
        if let Some(window) = lookup::<String, WindowAggregateView>(fresh_windows(segments), id) {
            assert(window.rises =~= Seq::empty());
        }
    } else {
        let shorter = minutes.drop_last();
        lemma_official_of_window(shorter, segments, id);
        lemma_official_in_order(shorter, segments);
        assert(points_of(minutes).drop_last() =~= points_of(shorter));
        let before = official_scan(shorter, segments).windows;
        let bucket = minutes.last().1;
        if bucket.official is Some && bucket.window_id is Some {
            let own = bucket.window_id->0;
            let percent = bucket.official->0.percent;
            if let Some(window) = lookup::<String, WindowAggregateView>(before, own) {
                lemma_put_lookup::<String, WindowAggregateView>(
                    before,
                    own,
                    window_with_percent(window, percent),
                    id,
                );
                if own == id {
                    let percents = percents_of_window(points_of(shorter), id);
                    assert(percents.push(percent).drop_last() =~= percents);
                }
            }
        }
    }
}

proof fn lemma_fresh_windows_say_nothing(segments: Seq<WindowSegmentView>)
    ensures
        all_values::<String, WindowAggregateView>(
            fresh_windows(segments),
            |w: WindowAggregateView|
                w.official_start is None && w.official_end is None && w.rises.len() == 0,
        ),
    decreases segments.len(),
{
    if segments.len() > 0 {
        lemma_fresh_windows_say_nothing(segments.drop_last());
        lemma_put_values::<String, WindowAggregateView>(
            fresh_windows(segments.drop_last()),
            segments.last().id,
            WindowAggregateView { segment: segments.last(), ..empty_window_aggregate() },
            |w: WindowAggregateView|
                w.official_start is None && w.official_end is None && w.rises.len() == 0,
        );
    }
}

proof fn lemma_official_of_day(
    minutes: Seq<((i64, Seq<char>), MinuteBucketView)>,
    segments: Seq<WindowSegmentView>,
    date: Seq<char>,
)
    ensures
        ({
            let day = held_day(official_scan(minutes, segments).days, date);
            let percents = percents_of_day(points_of(minutes), date);
            &&& day.official_start == first_in(percents)
            &&& day.official_end == last_in(percents)
        }),
    decreases minutes.len(),
{
    if minutes.len() > 0 {
        let shorter = minutes.drop_last();
        lemma_official_of_day(shorter, segments, date);
        lemma_official_in_order(shorter, segments);
        assert(points_of(minutes).drop_last() =~= points_of(shorter));
        let before = official_scan(shorter, segments).days;
        let after = official_scan(minutes, segments).days;
        let bucket = minutes.last().1;
        if bucket.official is Some && bucket.window_id is Some && bucket.window_kind == Some(
            "primary"@,
        ) {
            let own = bucket.local_date;
            assert forall|row: DayAggregateView| lookup::<String, DayAggregateView>(
                #[trigger] put::<String, DayAggregateView>(before, own, row),
                own,
            ) == Some(row) && (own != date ==> lookup::<String, DayAggregateView>(
                put::<String, DayAggregateView>(before, own, row),
                date,
            ) == lookup::<String, DayAggregateView>(before, date)) by {
                lemma_put_lookup::<String, DayAggregateView>(before, own, row, date);
            }
        }
    }
}

/// A minute that is put says what the one in its place said, or nothing where there was none.
proof fn lemma_put_keeps_percents(
    minutes: Seq<((i64, Seq<char>), MinuteBucketView)>,
    key: (i64, Seq<char>),
    bucket: MinuteBucketView,
    id: Seq<char>,
    date: Seq<char>,
)
    requires
        match lookup::<(i64, String), MinuteBucketView>(minutes, key) {
            Some(held) => point_of(bucket) == point_of(held),
            None => bucket.official is None,
        },
    ensures
        ({
            let after = put::<(i64, String), MinuteBucketView>(minutes, key, bucket);
            &&& percents_of_window(points_of(after), id) == percents_of_window(
                points_of(minutes),
                id,
            )
            &&& percents_of_day(points_of(after), date) == percents_of_day(points_of(minutes), date)
        }),
{
    let after = put::<(i64, String), MinuteBucketView>(minutes, key, bucket);
    lemma_place::<(i64, String), MinuteBucketView>(minutes, key);
    let p = place::<(i64, String), MinuteBucketView>(minutes, key);
    if lookup::<(i64, String), MinuteBucketView>(minutes, key) is Some {
        assert(points_of(after) =~= points_of(minutes));
    } else {
        let points = points_of(minutes);
        assert(points_of(after) =~= points.insert(p, point_of(bucket)));
        lemma_silent_point(points, p, point_of(bucket), id, date);
    }
}

proof fn lemma_silent_point(
    points: Seq<Point>,
    p: int,
    point: Point,
    id: Seq<char>,
    date: Seq<char>,
)
    requires
        0 <= p <= points.len(),
        point.percent is None,
    ensures
        percents_of_window(points.insert(p, point), id) == percents_of_window(points, id),
        percents_of_day(points.insert(p, point), date) == percents_of_day(points, date),
    decreases points.len(),
{
    let after = points.insert(p, point);
    if p == points.len() {
        assert(after.drop_last() =~= points);
    } else {
        let shorter = points.drop_last();
        lemma_silent_point(shorter, p, point, id, date);
        assert(after.drop_last() =~= shorter.insert(p, point));
        assert(after.last() == points.last());
    }
}

proof fn lemma_requests_keep_percents(
    usages: Seq<UsageRecordView>,
    quotas: Seq<QuotaObservationView>,
    setting: SettingView,
    id: Seq<char>,
    date: Seq<char>,
)
    ensures
        ({
            let points = points_of(gathered(usages, quotas, setting).minutes);
            let before = points_of(quota_minutes(quotas, setting));
            &&& percents_of_window(points, id) == percents_of_window(before, id)
            &&& percents_of_day(points, date) == percents_of_day(before, date)
        }),
    decreases usages.len(),
{
    if usages.len() > 0 {
        let (shorter, usage) = (usages.drop_last(), usages.last());
        lemma_requests_keep_percents(shorter, quotas, setting, id, date);
        let before = gathered(shorter, quotas, setting);
        lemma_put_keeps_percents(
            before.minutes,
            minute_of_request(usage, setting),
            bucket_step(before, usage, setting),
            id,
            date,
        );
    }
}

pub proof fn lemma_requests_keep_official(
    usages: Seq<UsageRecordView>,
    quotas: Seq<QuotaObservationView>,
    setting: SettingView,
    id: Seq<char>,
    date: Seq<char>,
)
    ensures
        ({
            let start = quota_rollup(quotas, setting);
            let rollup = gathered(usages, quotas, setting);
            let window = lookup::<String, WindowAggregateView>(rollup.windows, id);
            let first = lookup::<String, WindowAggregateView>(start.windows, id);
            let (day, day_before) = (held_day(rollup.days, date), held_day(start.days, date));
            &&& window is Some <==> first is Some
            &&& window is Some ==> (window->0).official_start == (first->0).official_start && (
            window->0).official_end == (first->0).official_end && (window->0).rises
                == (first->0).rises
            &&& day.official_start == day_before.official_start
            &&& day.official_end == day_before.official_end
        }),
    decreases usages.len(),
{
    if usages.len() > 0 {
        let (shorter, usage) = (usages.drop_last(), usages.last());
        lemma_requests_keep_official(shorter, quotas, setting, id, date);
        lemma_gathered_in_order(shorter, quotas, setting);
        let before = gathered(shorter, quotas, setting);
        if let Some(own) = id_of(window_of_usage(setting.windows, usage.observed_at_ms)) {
            if let Some(window) = lookup::<String, WindowAggregateView>(before.windows, own) {
                lemma_put_lookup::<String, WindowAggregateView>(
                    before.windows,
                    own,
                    window_with_usage(window, usage, setting),
                    id,
                );
            }
        }
        let own = bucket_step(before, usage, setting).local_date;
        let day = day_with_usage(
            held_day(before.days, own),
            usage,
            price_of(usage, setting.configured),
            setting,
        );
        lemma_put_lookup::<String, DayAggregateView>(before.days, own, day, date);
    }
}

pub proof fn lemma_window_says_its_minutes(
    usages: Seq<UsageRecordView>,
    quotas: Seq<QuotaObservationView>,
    setting: SettingView,
    id: Seq<char>,
)
    requires
        lookup::<String, WindowAggregateView>(gathered(usages, quotas, setting).windows, id) is Some,
    ensures
        ({
            let rollup = gathered(usages, quotas, setting);
            let window = lookup::<String, WindowAggregateView>(rollup.windows, id)->0;
            let percents = percents_of_window(points_of(rollup.minutes), id);
            &&& window.official_start == first_in(percents)
            &&& window.official_end == last_in(percents)
            &&& window.rises == rises_in(percents)
        }),
{
    let date = Seq::<char>::empty();
    lemma_requests_keep_percents(usages, quotas, setting, id, date);
    lemma_requests_keep_official(usages, quotas, setting, id, date);
    lemma_official_of_window(quota_minutes(quotas, setting), setting.windows, id);
}

pub proof fn lemma_day_says_its_minutes(
    usages: Seq<UsageRecordView>,
    quotas: Seq<QuotaObservationView>,
    setting: SettingView,
    date: Seq<char>,
)
    ensures
        ({
            let rollup = gathered(usages, quotas, setting);
            let day = held_day(rollup.days, date);
            let percents = percents_of_day(points_of(rollup.minutes), date);
            &&& day.official_start == first_in(percents)
            &&& day.official_end == last_in(percents)
        }),
{
    let id = Seq::<char>::empty();
    lemma_requests_keep_percents(usages, quotas, setting, id, date);
    lemma_requests_keep_official(usages, quotas, setting, id, date);
    lemma_official_of_day(quota_minutes(quotas, setting), setting.windows, date);
}

} // verus!
