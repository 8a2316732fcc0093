//! What holds of usage however it is gathered.
use crate::json::Float;
use crate::num::clamp_i64;
use crate::ordered::{
    all_values, keys_increase, lemma_lookup_value, lemma_place, lemma_put_in_order,
    lemma_put_lookup, lemma_put_sum, lemma_put_values, lemma_value_in_sum, lookup, put, sum_values,
    with_text_if, with_texts, Key,
};
use crate::pipelines::result::materialize::capacity::with_plan_usage;
use crate::pipelines::result::materialize::clock::{has_minute, is_datable, minute_of};
use crate::pipelines::result::materialize::metric::with_usage;
use crate::pipelines::result::materialize::records::{
    empty_window_aggregate, DayAggregateView, MetricView, MinuteBucketView, QuotaObservationView,
    SessionAggregateView, UsageRecordView, WindowAggregateView, WindowSegmentView,
};
use crate::pipelines::result::materialize::rollup::{
    are_datable, day_with_usage, finished_days, fresh_session, fresh_windows, gathered, held_day,
    held_minute, id_of, minute_key, minute_with_quota, minute_with_usage, official_scan, price_of,
    quota_minutes, quota_rollup, rolled_up, root_of_usage, session_key, session_with_usage,
    slice_of, turn_of_usage, window_is_datable, window_with_percent, with_rise, RollupView,
    SettingView, SliceView,
};
use crate::pipelines::result::materialize::rows::{first_request, last_request};
use crate::pipelines::result::materialize::windows::{
    lemma_every_request_is_in_a_window, window_of_quota, window_of_usage,
};
use crate::pricing::{PriceView, TokenCounts};
use crate::text::first_some;
use vstd::prelude::*;

verus! {

/// Whether the requests of a row have minutes.
pub open spec fn has_minutes(session: SessionAggregateView) -> bool {
    has_minute(first_request(session)) && has_minute(last_request(session))
}

/// Whether a row is of requests that have minutes, from the first to the last.
pub open spec fn has_requests(session: SessionAggregateView) -> bool {
    session.observed_start_ms is Some && session.observed_end_ms is Some && has_minutes(session)
}

/// Whether a window that was gathered has a date at its two ends.
pub open spec fn gathered_is_datable(window: WindowAggregateView) -> bool {
    window_is_datable(window.segment)
}

proof fn lemma_fresh_windows_datable(windows: Seq<WindowSegmentView>)
    requires
        forall|i: int| 0 <= i < windows.len() ==> window_is_datable(#[trigger] windows[i]),
    ensures
        all_values::<String, WindowAggregateView>(
            fresh_windows(windows),
            |w: WindowAggregateView| gathered_is_datable(w),
        ),
    decreases windows.len(),
{
    if windows.len() > 0 {
        let shorter = windows.drop_last();
        assert forall|i: int| 0 <= i < shorter.len() implies window_is_datable(
            #[trigger] shorter[i],
        ) by {
            assert(shorter[i] == windows[i]);
        }
        lemma_fresh_windows_datable(shorter);
        assert(window_is_datable(windows[windows.len() - 1]));
        lemma_put_values::<String, WindowAggregateView>(
            fresh_windows(shorter),
            windows.last().id,
            WindowAggregateView {
                segment: windows.last(),
                ..empty_window_aggregate()
            },
            |w: WindowAggregateView| gathered_is_datable(w),
        );
    }
}

proof fn lemma_official_windows_datable(
    minutes: Seq<((i64, Seq<char>), MinuteBucketView)>,
    windows: Seq<WindowSegmentView>,
)
    requires
        forall|i: int| 0 <= i < windows.len() ==> window_is_datable(#[trigger] windows[i]),
    ensures
        all_values::<String, WindowAggregateView>(
            official_scan(minutes, windows).windows,
            |w: WindowAggregateView| gathered_is_datable(w),
        ),
    decreases minutes.len(),
{
    let p = |w: WindowAggregateView| gathered_is_datable(w);
    if minutes.len() == 0 {
        lemma_fresh_windows_datable(windows);
    } else {
        lemma_official_windows_datable(minutes.drop_last(), windows);
        let before = official_scan(minutes.drop_last(), windows).windows;
        let bucket = minutes.last().1;
        if bucket.official is Some && bucket.window_id is Some {
            let id = bucket.window_id->0;
            let percent = bucket.official->0.percent;
            lemma_lookup_value::<String, WindowAggregateView>(before, id, p);
            if let Some(window) = lookup::<String, WindowAggregateView>(before, id) {
                lemma_put_values::<String, WindowAggregateView>(
                    before,
                    id,
                    window_with_percent(
                        window,
                        percent,
                    ),
                    p,
                );
            }
        }
    }
}

/// Where all instants have minutes and dates, so have the windows and the rows of sessions.
pub proof fn lemma_gathered_is_datable(
    usages: Seq<UsageRecordView>,
    quotas: Seq<QuotaObservationView>,
    setting: SettingView,
)
    requires
        are_datable(usages, quotas, setting.windows),
    ensures
        all_values::<String, WindowAggregateView>(
            gathered(usages, quotas, setting).windows,
            |w: WindowAggregateView| gathered_is_datable(w),
        ),
        all_values::<String, SessionAggregateView>(
            gathered(usages, quotas, setting).sessions,
            |s: SessionAggregateView| has_requests(s),
        ),
    decreases usages.len(),
{
    let p = |w: WindowAggregateView| gathered_is_datable(w);
    let q = |s: SessionAggregateView| has_requests(s);
    if usages.len() == 0 {
        lemma_official_windows_datable(quota_minutes(quotas, setting), setting.windows);
    } else {
        let shorter = usages.drop_last();
        assert forall|i: int| 0 <= i < shorter.len() implies is_datable(
            (#[trigger] shorter[i]).observed_at_ms,
        ) by {
            assert(shorter[i] == usages[i]);
        }
        lemma_gathered_is_datable(shorter, quotas, setting);
        let before = gathered(shorter, quotas, setting);
        let usage = usages.last();
        assert(is_datable(usages[usages.len() - 1].observed_at_ms));
        let price = price_of(usage, setting.configured);
        let segment = window_of_usage(setting.windows, usage.observed_at_ms);
        if let Some(id) = id_of(segment) {
            lemma_lookup_value::<String, WindowAggregateView>(before.windows, id, p);
            if let Some(window) = lookup::<String, WindowAggregateView>(before.windows, id) {
                lemma_put_values::<String, WindowAggregateView>(
                    before.windows,
                    id,
                    WindowAggregateView {
                        metric: with_usage(window.metric, usage, price),
                        plans: with_plan_usage(
                            window.plans,
                            usage,
                            price,
                            setting.account,
                            setting.capacities,
                        ),
                        quality: with_texts(window.quality, price.quality),
                        ..window
                    },
                    p,
                );
            }
        }
        let (key, held, slice) = session_step(before, usage, setting);
        lemma_lookup_value::<String, SessionAggregateView>(before.sessions, key, q);
        lemma_put_values::<String, SessionAggregateView>(
            before.sessions,
            key,
            session_with_usage(held, usage, price, slice),
            q,
        );
    }
}

/// The minute of a request after it is added.
pub open spec fn bucket_step(
    rollup: RollupView,
    usage: UsageRecordView,
    setting: SettingView,
) -> MinuteBucketView {
    minute_with_usage(
        held_minute(
            rollup.minutes,
            minute_of(usage.observed_at_ms),
            window_of_usage(setting.windows, usage.observed_at_ms),
            setting.account,
        ),
        usage,
        price_of(usage, setting.configured),
        setting.account,
    )
}

/// The row of a request: its key, the row before the request, and the part of the turn.
pub open spec fn session_step(
    rollup: RollupView,
    usage: UsageRecordView,
    setting: SettingView,
) -> (Seq<char>, SessionAggregateView, SliceView) {
    let bucket = bucket_step(rollup, usage, setting);
    let segment = window_of_usage(setting.windows, usage.observed_at_ms);
    let slice = slice_of(
        usage,
        turn_of_usage(usage, setting.turns),
        bucket.local_date,
        segment,
    );
    let key = session_key(root_of_usage(usage), slice.turn_id, bucket.local_date, id_of(segment));
    let held = match lookup::<String, SessionAggregateView>(rollup.sessions, key) {
        Some(held) => held,
        None => fresh_session(usage, bucket, slice, segment, setting.sessions),
    };
    (key, held, slice)
}

/// Whether no key of what was gathered occurs twice, and all stand in order.
pub open spec fn is_ordered(rollup: RollupView) -> bool {
    &&& keys_increase::<(i64, String), MinuteBucketView>(rollup.minutes)
    &&& keys_increase::<String, DayAggregateView>(rollup.days)
    &&& keys_increase::<String, WindowAggregateView>(rollup.windows)
    &&& keys_increase::<String, SessionAggregateView>(rollup.sessions)
}

pub proof fn lemma_quota_minutes_in_order(quotas: Seq<QuotaObservationView>, setting: SettingView)
    ensures
        keys_increase::<(i64, String), MinuteBucketView>(quota_minutes(quotas, setting)),
    decreases quotas.len(),
{
    if quotas.len() > 0 {
        lemma_quota_minutes_in_order(quotas.drop_last(), setting);
        let before = quota_minutes(quotas.drop_last(), setting);
        let quota = quotas.last();
        let segment = window_of_quota(setting.windows, quota);
        let minute = minute_of(quota.first_seen_at_ms);
        lemma_put_in_order::<(i64, String), MinuteBucketView>(
            before,
            minute_key(minute, segment),
            minute_with_quota(
                held_minute(before, minute, segment, setting.account),
                minute,
                quota,
                segment,
            ),
        );
    }
}

proof fn lemma_fresh_windows_in_order(windows: Seq<WindowSegmentView>)
    ensures
        keys_increase::<String, WindowAggregateView>(fresh_windows(windows)),
    decreases windows.len(),
{
    if windows.len() > 0 {
        lemma_fresh_windows_in_order(windows.drop_last());
        lemma_put_in_order::<String, WindowAggregateView>(
            fresh_windows(windows.drop_last()),
            windows.last().id,
            WindowAggregateView {
                segment: windows.last(),
                ..empty_window_aggregate()
            },
        );
    }
}

pub proof fn lemma_official_in_order(
    minutes: Seq<((i64, Seq<char>), MinuteBucketView)>,
    windows: Seq<WindowSegmentView>,
)
    ensures
        keys_increase::<String, DayAggregateView>(official_scan(minutes, windows).days),
        keys_increase::<String, WindowAggregateView>(official_scan(minutes, windows).windows),
    decreases minutes.len(),
{
    if minutes.len() == 0 {
        lemma_fresh_windows_in_order(windows);
    } else {
        lemma_official_in_order(minutes.drop_last(), windows);
        let before = official_scan(minutes.drop_last(), windows);
        let after = official_scan(minutes, windows);
        let bucket = minutes.last().1;
        if bucket.official is Some && bucket.window_id is Some {
            let id = bucket.window_id->0;
            let percent = bucket.official->0.percent;
            if let Some(window) = lookup::<String, WindowAggregateView>(before.windows, id) {
                lemma_put_in_order::<String, WindowAggregateView>(
                    before.windows,
                    id,
                    window_with_percent(
                        window,
                        percent,
                    ),
                );
            }
            if bucket.window_kind == Some("primary"@) {
                lemma_put_any_in_order(before.days, bucket.local_date);
            }
        }
    }
}

proof fn lemma_put_any_in_order(days: Seq<(Seq<char>, DayAggregateView)>, date: Seq<char>)
    requires
        keys_increase::<String, DayAggregateView>(days),
    ensures
        forall|day: DayAggregateView|
            keys_increase::<String, DayAggregateView>(
                #[trigger] put::<String, DayAggregateView>(days, date, day),
            ),
{
    assert forall|day: DayAggregateView|
        keys_increase::<String, DayAggregateView>(
            #[trigger] put::<String, DayAggregateView>(days, date, day),
        ) by {
        lemma_put_in_order::<String, DayAggregateView>(days, date, day);
    }
}

/// What was gathered stands in the order of its keys.
pub proof fn lemma_gathered_in_order(
    usages: Seq<UsageRecordView>,
    quotas: Seq<QuotaObservationView>,
    setting: SettingView,
)
    ensures
        is_ordered(gathered(usages, quotas, setting)),
    decreases usages.len(),
{
    if usages.len() == 0 {
        lemma_quota_minutes_in_order(quotas, setting);
        lemma_official_in_order(quota_minutes(quotas, setting), setting.windows);
    } else {
        lemma_gathered_in_order(usages.drop_last(), quotas, setting);
        let before = gathered(usages.drop_last(), quotas, setting);
        let usage = usages.last();
        let price = price_of(usage, setting.configured);
        let segment = window_of_usage(setting.windows, usage.observed_at_ms);
        let bucket = bucket_step(before, usage, setting);
        lemma_put_in_order::<(i64, String), MinuteBucketView>(
            before.minutes,
            minute_key(minute_of(usage.observed_at_ms), segment),
            bucket,
        );
        lemma_put_any_in_order(before.days, bucket.local_date);
        if let Some(id) = id_of(segment) {
            if let Some(window) = lookup::<String, WindowAggregateView>(before.windows, id) {
                lemma_put_in_order::<String, WindowAggregateView>(
                    before.windows,
                    id,
                    WindowAggregateView {
                        metric: with_usage(window.metric, usage, price),
                        plans: with_plan_usage(
                            window.plans,
                            usage,
                            price,
                            setting.account,
                            setting.capacities,
                        ),
                        quality: with_texts(window.quality, price.quality),
                        ..window
                    },
                );
            }
        }
        let (key, held, slice) = session_step(before, usage, setting);
        lemma_put_in_order::<String, SessionAggregateView>(
            before.sessions,
            key,
            session_with_usage(held, usage, price, slice),
        );
    }
}

/// Each minute of a window, each day, each window and each part of a turn has one row, and the rows
/// stand in the order of their keys.
pub proof fn lemma_one_row_for_each_key(
    usages: Seq<UsageRecordView>,
    quotas: Seq<QuotaObservationView>,
    setting: SettingView,
)
    ensures
        is_ordered(rolled_up(usages, quotas, setting)),
{
    lemma_gathered_in_order(usages, quotas, setting);
    let before = gathered(usages, quotas, setting).days;
    let after = finished_days(before);
    assert forall|i: int, j: int| 0 <= i < j < after.len() implies String::before(
        (#[trigger] after[i]).0,
        (#[trigger] after[j]).0,
    ) by {
        assert(after[i].0 == before[i].0 && after[j].0 == before[j].0);
    }
}

/// The kind of count that is of all tokens.
pub const ALL_TOKENS: i64 = 5;

/// A count of tokens by kind: of the input, of what was read from the cache and written to it, of
/// the output, of the reasoning, or of all.
pub open spec fn count(tokens: TokenCounts, kind: int) -> int {
    if kind == 0 {
        tokens.input as int
    } else if kind == 1 {
        tokens.cached as int
    } else if kind == 2 {
        tokens.cache_write as int
    } else if kind == 3 {
        tokens.output as int
    } else if kind == 4 {
        tokens.reasoning as int
    } else {
        tokens.total as int
    }
}

/// The tokens of requests together.
pub open spec fn total_count(usages: Seq<UsageRecordView>, kind: int) -> int
    decreases usages.len(),
{
    if usages.len() == 0 {
        0
    } else {
        total_count(usages.drop_last(), kind) + count(usages.last().tokens, kind)
    }
}

/// The tokens of all minutes together.
pub open spec fn minutes_count(rollup: RollupView, kind: int) -> int {
    sum_values::<(i64, String), MinuteBucketView>(
        rollup.minutes,
        |bucket: MinuteBucketView| count(bucket.metric.tokens, kind),
    )
}

/// The tokens of all days together.
pub open spec fn days_count(rollup: RollupView, kind: int) -> int {
    sum_values::<String, DayAggregateView>(
        rollup.days,
        |day: DayAggregateView| count(day.metric.tokens, kind),
    )
}

/// The tokens of all sessions together.
pub open spec fn sessions_count(rollup: RollupView, kind: int) -> int {
    sum_values::<String, SessionAggregateView>(
        rollup.sessions,
        |session: SessionAggregateView| count(session.metric.tokens, kind),
    )
}

proof fn lemma_metric_count(metric: MetricView, usage: UsageRecordView, kind: int)
    requires
        i64::MIN <= count(metric.tokens, kind) + count(usage.tokens, kind) <= i64::MAX,
    ensures
        forall|price: PriceView|
            count((#[trigger] with_usage(metric, usage, price)).tokens, kind) == count(
                metric.tokens,
                kind,
            ) + count(usage.tokens, kind),
{
}

proof fn lemma_quota_minutes_are_unused(
    quotas: Seq<QuotaObservationView>,
    setting: SettingView,
    kind: int,
)
    ensures
        sum_values::<(i64, String), MinuteBucketView>(
            quota_minutes(quotas, setting),
            |bucket: MinuteBucketView| count(bucket.metric.tokens, kind),
        ) == 0,
        all_values::<(i64, String), MinuteBucketView>(
            quota_minutes(quotas, setting),
            |bucket: MinuteBucketView| count(bucket.metric.tokens, kind) == 0,
        ),
    decreases quotas.len(),
{
    if quotas.len() > 0 {
        lemma_quota_minutes_are_unused(quotas.drop_last(), setting, kind);
        let before = quota_minutes(quotas.drop_last(), setting);
        let quota = quotas.last();
        let segment = window_of_quota(setting.windows, quota);
        let minute = minute_of(quota.first_seen_at_ms);
        let key = minute_key(minute, segment);
        let after = minute_with_quota(
            held_minute(before, minute, segment, setting.account),
            minute,
            quota,
            segment,
        );
        let p = |bucket: MinuteBucketView| count(bucket.metric.tokens, kind) == 0;
        lemma_lookup_value::<(i64, String), MinuteBucketView>(before, key, p);
        lemma_put_values::<(i64, String), MinuteBucketView>(before, key, after, p);
        lemma_put_sum::<(i64, String), MinuteBucketView>(
            before,
            key,
            after,
            |bucket: MinuteBucketView| count(bucket.metric.tokens, kind),
        );
    }
}

proof fn lemma_official_days_are_unused(
    minutes: Seq<((i64, Seq<char>), MinuteBucketView)>,
    windows: Seq<WindowSegmentView>,
    kind: int,
)
    ensures
        sum_values::<String, DayAggregateView>(
            official_scan(minutes, windows).days,
            |day: DayAggregateView| count(day.metric.tokens, kind),
        ) == 0,
        all_values::<String, DayAggregateView>(
            official_scan(minutes, windows).days,
            |day: DayAggregateView| count(day.metric.tokens, kind) == 0,
        ),
    decreases minutes.len(),
{
    if minutes.len() > 0 {
        lemma_official_days_are_unused(minutes.drop_last(), windows, kind);
        let before = official_scan(minutes.drop_last(), windows);
        let after = official_scan(minutes, windows);
        let bucket = minutes.last().1;
        if bucket.official is Some && bucket.window_id is Some && bucket.window_kind == Some(
            "primary"@,
        ) {
            let date = bucket.local_date;
            let p = |day: DayAggregateView| count(day.metric.tokens, kind) == 0;
            lemma_lookup_value::<String, DayAggregateView>(before.days, date, p);
            let day = held_day(before.days, date);
            let id = bucket.window_id->0;
            let percent = bucket.official->0.percent;
            let previous = lookup::<(String, String), Float>(before.last, (date, id));
            let resets = with_text_if(
                before.resets,
                bucket.reset_marker,
                date + ":"@ + id,
            );
            let new = DayAggregateView {
                official_start: first_some(day.official_start, Some(percent)),
                official_end: Some(percent),
                rises: with_rise(
                    day.rises,
                    previous,
                    percent,
                ),
                reset_count: if resets == before.resets {
                    day.reset_count
                } else {
                    clamp_i64(day.reset_count + 1)
                },
                ..day
            };
            assert(after.days == put::<String, DayAggregateView>(before.days, date, new));
            lemma_put_values::<String, DayAggregateView>(before.days, date, new, p);
            lemma_put_sum::<String, DayAggregateView>(
                before.days,
                date,
                new,
                |day: DayAggregateView| count(day.metric.tokens, kind),
            );
        }
    }
}

/// Whether no count of what was gathered is negative.
spec fn counts_are_valid(rollup: RollupView, kind: int) -> bool {
    &&& forall|i: int|
        0 <= i < rollup.minutes.len() ==> count((#[trigger] rollup.minutes[i]).1.metric.tokens, kind)
            >= 0
    &&& forall|i: int|
        0 <= i < rollup.days.len() ==> count((#[trigger] rollup.days[i]).1.metric.tokens, kind) >= 0
    &&& forall|i: int|
        0 <= i < rollup.sessions.len() ==> count(
            (#[trigger] rollup.sessions[i]).1.metric.tokens,
            kind,
        ) >= 0
}

proof fn lemma_gathered_counts(
    usages: Seq<UsageRecordView>,
    quotas: Seq<QuotaObservationView>,
    setting: SettingView,
    kind: int,
)
    requires
        forall|i: int| 0 <= i < usages.len() ==> count((#[trigger] usages[i]).tokens, kind) >= 0,
        total_count(usages, kind) <= i64::MAX,
    ensures
        counts_are_valid(gathered(usages, quotas, setting), kind),
        minutes_count(gathered(usages, quotas, setting), kind) == total_count(usages, kind),
        days_count(gathered(usages, quotas, setting), kind) == total_count(usages, kind),
        sessions_count(gathered(usages, quotas, setting), kind) == total_count(usages, kind),
    decreases usages.len(),
{
    let fm = |bucket: MinuteBucketView| count(bucket.metric.tokens, kind);
    let fd = |day: DayAggregateView| count(day.metric.tokens, kind);
    let fs = |session: SessionAggregateView| count(session.metric.tokens, kind);
    if usages.len() == 0 {
        let minutes = quota_minutes(quotas, setting);
        lemma_quota_minutes_are_unused(quotas, setting, kind);
        lemma_official_days_are_unused(minutes, setting.windows, kind);
        let pm = |bucket: MinuteBucketView| count(bucket.metric.tokens, kind) == 0;
        let pd = |day: DayAggregateView| count(day.metric.tokens, kind) == 0;
        let rollup = quota_rollup(quotas, setting);
        assert forall|i: int| 0 <= i < rollup.minutes.len() implies count(
            (#[trigger] rollup.minutes[i]).1.metric.tokens,
            kind,
        ) >= 0 by {
            assert(pm(rollup.minutes[i].1));
        }
        assert forall|i: int| 0 <= i < rollup.days.len() implies count(
            (#[trigger] rollup.days[i]).1.metric.tokens,
            kind,
        ) >= 0 by {
            assert(pd(rollup.days[i].1));
        }
    } else {
        let shorter = usages.drop_last();
        let usage = usages.last();
        assert forall|i: int| 0 <= i < shorter.len() implies count(
            (#[trigger] shorter[i]).tokens,
            kind,
        ) >= 0 by {
            assert(shorter[i] == usages[i]);
        }
        assert(count(usages[usages.len() - 1].tokens, kind) >= 0);
        lemma_gathered_counts(shorter, quotas, setting, kind);
        let before = gathered(shorter, quotas, setting);
        let after = gathered(usages, quotas, setting);
        let price = price_of(usage, setting.configured);
        let minute = minute_of(usage.observed_at_ms);
        let segment = window_of_usage(setting.windows, usage.observed_at_ms);
        // the minute
        let mkey = minute_key(minute, segment);
        let mheld = held_minute(before.minutes, minute, segment, setting.account);
        let bucket = bucket_step(before, usage, setting);
        assert forall|i: int| 0 <= i < before.minutes.len() implies fm(
            (#[trigger] before.minutes[i]).1,
        ) >= 0 by {}
        lemma_value_in_sum::<(i64, String), MinuteBucketView>(before.minutes, mkey, fm);
        lemma_metric_count(mheld.metric, usage, kind);
        lemma_put_sum::<(i64, String), MinuteBucketView>(before.minutes, mkey, bucket, fm);
        let pm = |bucket: MinuteBucketView| count(bucket.metric.tokens, kind) >= 0;
        lemma_put_values::<(i64, String), MinuteBucketView>(before.minutes, mkey, bucket, pm);
        // the day
        let date = bucket.local_date;
        let dheld = held_day(before.days, date);
        let day = day_with_usage(
            dheld,
            usage,
            price,
            setting,
        );
        assert forall|i: int| 0 <= i < before.days.len() implies fd((#[trigger] before.days[i]).1)
            >= 0 by {}
        lemma_value_in_sum::<String, DayAggregateView>(before.days, date, fd);
        lemma_metric_count(dheld.metric, usage, kind);
        lemma_put_sum::<String, DayAggregateView>(before.days, date, day, fd);
        let pd = |day: DayAggregateView| count(day.metric.tokens, kind) >= 0;
        lemma_put_values::<String, DayAggregateView>(before.days, date, day, pd);
        // the session
        let (key, held, slice) = session_step(before, usage, setting);
        let session = session_with_usage(held, usage, price, slice);
        assert forall|i: int| 0 <= i < before.sessions.len() implies fs(
            (#[trigger] before.sessions[i]).1,
        ) >= 0 by {}
        lemma_value_in_sum::<String, SessionAggregateView>(before.sessions, key, fs);
        lemma_metric_count(held.metric, usage, kind);
        lemma_put_sum::<String, SessionAggregateView>(before.sessions, key, session, fs);
        let ps = |session: SessionAggregateView| count(session.metric.tokens, kind) >= 0;
        lemma_put_values::<String, SessionAggregateView>(before.sessions, key, session, ps);
        assert forall|i: int| 0 <= i < after.minutes.len() implies count(
            (#[trigger] after.minutes[i]).1.metric.tokens,
            kind,
        ) >= 0 by {
            assert(pm(after.minutes[i].1));
        }
        assert forall|i: int| 0 <= i < after.days.len() implies count(
            (#[trigger] after.days[i]).1.metric.tokens,
            kind,
        ) >= 0 by {
            assert(pd(after.days[i].1));
        }
        assert forall|i: int| 0 <= i < after.sessions.len() implies count(
            (#[trigger] after.sessions[i]).1.metric.tokens,
            kind,
        ) >= 0 by {
            assert(ps(after.sessions[i].1));
        }
    }
}

proof fn lemma_finished_count(days: Seq<(Seq<char>, DayAggregateView)>, kind: int)
    ensures
        sum_values::<String, DayAggregateView>(
            finished_days(days),
            |day: DayAggregateView| count(day.metric.tokens, kind),
        ) == sum_values::<String, DayAggregateView>(
            days,
            |day: DayAggregateView| count(day.metric.tokens, kind),
        ),
    decreases days.len(),
{
    if days.len() > 0 {
        lemma_finished_count(days.drop_last(), kind);
        assert(finished_days(days).drop_last() =~= finished_days(days.drop_last()));
    }
}

/// The tokens of all windows together.
pub open spec fn windows_count(rollup: RollupView, kind: int) -> int {
    sum_values::<String, WindowAggregateView>(
        rollup.windows,
        |window: WindowAggregateView| count(window.metric.tokens, kind),
    )
}

/// Whether rows of windows stand in order and there is one for each of `segments`.
spec fn has_windows(
    windows: Seq<(Seq<char>, WindowAggregateView)>,
    segments: Seq<WindowSegmentView>,
) -> bool {
    &&& keys_increase::<String, WindowAggregateView>(windows)
    &&& forall|i: int|
        0 <= i < segments.len() ==> lookup::<String, WindowAggregateView>(
            windows,
            (#[trigger] segments[i]).id,
        ) is Some
}

proof fn lemma_put_has_windows(
    windows: Seq<(Seq<char>, WindowAggregateView)>,
    segments: Seq<WindowSegmentView>,
    id: Seq<char>,
    window: WindowAggregateView,
)
    requires
        has_windows(windows, segments),
    ensures
        has_windows(put::<String, WindowAggregateView>(windows, id, window), segments),
        lookup::<String, WindowAggregateView>(
            put::<String, WindowAggregateView>(windows, id, window),
            id,
        ) is Some,
{
    let after = put::<String, WindowAggregateView>(windows, id, window);
    lemma_put_in_order::<String, WindowAggregateView>(windows, id, window);
    lemma_put_lookup::<String, WindowAggregateView>(windows, id, window, id);
    assert forall|i: int| 0 <= i < segments.len() implies lookup::<String, WindowAggregateView>(
        after,
        (#[trigger] segments[i]).id,
    ) is Some by {
        lemma_put_lookup::<String, WindowAggregateView>(windows, id, window, segments[i].id);
    }
}

/// Rows of windows that hold no tokens.
spec fn is_unused(windows: Seq<(Seq<char>, WindowAggregateView)>, kind: int) -> bool {
    &&& all_values::<String, WindowAggregateView>(
        windows,
        |window: WindowAggregateView| count(window.metric.tokens, kind) == 0,
    )
    &&& sum_values::<String, WindowAggregateView>(
        windows,
        |window: WindowAggregateView| count(window.metric.tokens, kind),
    ) == 0
}

proof fn lemma_put_unused(
    windows: Seq<(Seq<char>, WindowAggregateView)>,
    id: Seq<char>,
    window: WindowAggregateView,
    kind: int,
)
    requires
        is_unused(windows, kind),
        count(window.metric.tokens, kind) == 0,
    ensures
        is_unused(put::<String, WindowAggregateView>(windows, id, window), kind),
{
    let p = |window: WindowAggregateView| count(window.metric.tokens, kind) == 0;
    let f = |window: WindowAggregateView| count(window.metric.tokens, kind);
    lemma_lookup_value::<String, WindowAggregateView>(windows, id, p);
    lemma_put_values::<String, WindowAggregateView>(windows, id, window, p);
    lemma_put_sum::<String, WindowAggregateView>(windows, id, window, f);
}

proof fn lemma_fresh_windows_are_unused(segments: Seq<WindowSegmentView>, kind: int)
    ensures
        has_windows(fresh_windows(segments), segments),
        is_unused(fresh_windows(segments), kind),
    decreases segments.len(),
{
    if segments.len() > 0 {
        let shorter = segments.drop_last();
        let last = segments.last();
        let row = WindowAggregateView { segment: last, ..empty_window_aggregate() };
        lemma_fresh_windows_are_unused(shorter, kind);
        lemma_put_has_windows(fresh_windows(shorter), shorter, last.id, row);
        lemma_put_unused(fresh_windows(shorter), last.id, row, kind);
        assert forall|i: int| 0 <= i < segments.len() implies lookup::<String, WindowAggregateView>(
            fresh_windows(segments),
            (#[trigger] segments[i]).id,
        ) is Some by {
            if i < shorter.len() {
                assert(shorter[i] == segments[i]);
            }
        }
    }
}

proof fn lemma_official_windows_are_unused(
    minutes: Seq<((i64, Seq<char>), MinuteBucketView)>,
    segments: Seq<WindowSegmentView>,
    kind: int,
)
    ensures
        has_windows(official_scan(minutes, segments).windows, segments),
        is_unused(official_scan(minutes, segments).windows, kind),
    decreases minutes.len(),
{
    if minutes.len() == 0 {
        lemma_fresh_windows_are_unused(segments, kind);
    } else {
        lemma_official_windows_are_unused(minutes.drop_last(), segments, kind);
        let before = official_scan(minutes.drop_last(), segments).windows;
        let bucket = minutes.last().1;
        if bucket.official is Some && bucket.window_id is Some {
            let id = bucket.window_id->0;
            let percent = bucket.official->0.percent;
            let p = |window: WindowAggregateView| count(window.metric.tokens, kind) == 0;
            lemma_lookup_value::<String, WindowAggregateView>(before, id, p);
            if let Some(window) = lookup::<String, WindowAggregateView>(before, id) {
                let after = window_with_percent(window, percent);
                lemma_put_has_windows(before, segments, id, after);
                lemma_put_unused(before, id, after, kind);
            }
        }
    }
}

proof fn lemma_windows_count(
    usages: Seq<UsageRecordView>,
    quotas: Seq<QuotaObservationView>,
    setting: SettingView,
    kind: int,
)
    requires
        forall|i: int| 0 <= i < usages.len() ==> count((#[trigger] usages[i]).tokens, kind) >= 0,
        total_count(usages, kind) <= i64::MAX,
        setting.windows.len() > 0,
    ensures
        has_windows(gathered(usages, quotas, setting).windows, setting.windows),
        all_values::<String, WindowAggregateView>(
            gathered(usages, quotas, setting).windows,
            |window: WindowAggregateView| count(window.metric.tokens, kind) >= 0,
        ),
        windows_count(gathered(usages, quotas, setting), kind) == total_count(usages, kind),
    decreases usages.len(),
{
    let f = |window: WindowAggregateView| count(window.metric.tokens, kind);
    let p = |window: WindowAggregateView| count(window.metric.tokens, kind) >= 0;
    let after = gathered(usages, quotas, setting).windows;
    if usages.len() == 0 {
        lemma_official_windows_are_unused(quota_minutes(quotas, setting), setting.windows, kind);
        let none = |window: WindowAggregateView| count(window.metric.tokens, kind) == 0;
        assert forall|i: int| 0 <= i < after.len() implies p((#[trigger] after[i]).1) by {
            assert(none(after[i].1));
        }
    } else {
        let (shorter, usage) = (usages.drop_last(), usages.last());
        assert forall|i: int| 0 <= i < shorter.len() implies count(
            (#[trigger] shorter[i]).tokens,
            kind,
        ) >= 0 by {
            assert(shorter[i] == usages[i]);
        }
        assert(count(usages[usages.len() - 1].tokens, kind) >= 0);
        lemma_windows_count(shorter, quotas, setting, kind);
        let before = gathered(shorter, quotas, setting).windows;
        let place = lemma_every_request_is_in_a_window(setting.windows, usage.observed_at_ms);
        let id = setting.windows[place].id;
        let price = price_of(usage, setting.configured);
        let held = lookup::<String, WindowAggregateView>(before, id)->0;
        let row = WindowAggregateView {
            metric: with_usage(held.metric, usage, price),
            plans: with_plan_usage(held.plans, usage, price, setting.account, setting.capacities),
            quality: with_texts(held.quality, price.quality),
            ..held
        };
        assert(after == put::<String, WindowAggregateView>(before, id, row));
        assert forall|i: int| 0 <= i < before.len() implies f((#[trigger] before[i]).1) >= 0 by {
            assert(p(before[i].1));
        }
        lemma_value_in_sum::<String, WindowAggregateView>(before, id, f);
        lemma_metric_count(held.metric, usage, kind);
        lemma_put_has_windows(before, setting.windows, id, row);
        lemma_put_values::<String, WindowAggregateView>(before, id, row, p);
        lemma_put_sum::<String, WindowAggregateView>(before, id, row, f);
    }
}

proof fn lemma_no_windows(
    usages: Seq<UsageRecordView>,
    quotas: Seq<QuotaObservationView>,
    setting: SettingView,
)
    requires
        setting.windows.len() == 0,
    ensures
        gathered(usages, quotas, setting).windows.len() == 0,
    decreases usages.len(),
{
    if usages.len() == 0 {
        lemma_no_official_windows(quota_minutes(quotas, setting), setting.windows);
    } else {
        lemma_no_windows(usages.drop_last(), quotas, setting);
    }
}

proof fn lemma_no_official_windows(
    minutes: Seq<((i64, Seq<char>), MinuteBucketView)>,
    segments: Seq<WindowSegmentView>,
)
    requires
        segments.len() == 0,
    ensures
        official_scan(minutes, segments).windows.len() == 0,
    decreases minutes.len(),
{
    if minutes.len() > 0 {
        lemma_no_official_windows(minutes.drop_last(), segments);
    }
}

/// Every token of every request is counted once by minute, once by day, once by session and, where
/// there are windows, once by window, as long as the sum can be held: of each kind of tokens, the
/// tables tell what the requests tell. Without windows the table of windows has no rows.
pub proof fn lemma_tokens_are_counted_once(
    usages: Seq<UsageRecordView>,
    quotas: Seq<QuotaObservationView>,
    setting: SettingView,
    kind: int,
)
    requires
        forall|i: int| 0 <= i < usages.len() ==> count((#[trigger] usages[i]).tokens, kind) >= 0,
        total_count(usages, kind) <= i64::MAX,
    ensures
        minutes_count(rolled_up(usages, quotas, setting), kind) == total_count(usages, kind),
        days_count(rolled_up(usages, quotas, setting), kind) == total_count(usages, kind),
        sessions_count(rolled_up(usages, quotas, setting), kind) == total_count(usages, kind),
        rolled_up(usages, quotas, setting).windows.len() > 0 <==> setting.windows.len() > 0,
        rolled_up(usages, quotas, setting).windows.len() > 0 ==> windows_count(
            rolled_up(usages, quotas, setting),
            kind,
        ) == total_count(usages, kind),
{
    if setting.windows.len() > 0 {
        lemma_windows_count(usages, quotas, setting, kind);
        let windows = gathered(usages, quotas, setting).windows;
        lemma_place::<String, WindowAggregateView>(windows, setting.windows[0].id);
        assert(lookup::<String, WindowAggregateView>(windows, setting.windows[0].id) is Some);
    } else {
        lemma_no_windows(usages, quotas, setting);
    }
    lemma_gathered_counts(usages, quotas, setting, kind);
    lemma_finished_count(gathered(usages, quotas, setting).days, kind);
}

/// Whether a sum that tells no usage holds no tokens.
pub open spec fn is_told(metric: MetricView, kind: int) -> bool {
    metric.has_usage || count(metric.tokens, kind) == 0
}

/// Whether all sums of what was gathered that tell no usage hold no tokens.
pub open spec fn all_is_told(rollup: RollupView, kind: int) -> bool {
    &&& all_values::<(i64, String), MinuteBucketView>(
        rollup.minutes,
        |bucket: MinuteBucketView| is_told(bucket.metric, kind),
    )
    &&& all_values::<String, DayAggregateView>(
        rollup.days,
        |day: DayAggregateView| is_told(day.metric, kind),
    )
    &&& all_values::<String, WindowAggregateView>(
        rollup.windows,
        |window: WindowAggregateView| is_told(window.metric, kind),
    )
    &&& all_values::<String, SessionAggregateView>(
        rollup.sessions,
        |session: SessionAggregateView| is_told(session.metric, kind),
    )
}

proof fn lemma_gathered_is_told(
    usages: Seq<UsageRecordView>,
    quotas: Seq<QuotaObservationView>,
    setting: SettingView,
    kind: int,
)
    ensures
        all_is_told(gathered(usages, quotas, setting), kind),
    decreases usages.len(),
{
    let pm = |bucket: MinuteBucketView| is_told(bucket.metric, kind);
    let pd = |day: DayAggregateView| is_told(day.metric, kind);
    let pw = |window: WindowAggregateView| is_told(window.metric, kind);
    let ps = |session: SessionAggregateView| is_told(session.metric, kind);
    let after = gathered(usages, quotas, setting);
    if usages.len() == 0 {
        let minutes = quota_minutes(quotas, setting);
        lemma_quota_minutes_are_unused(quotas, setting, kind);
        lemma_official_days_are_unused(minutes, setting.windows, kind);
        lemma_official_windows_are_unused(minutes, setting.windows, kind);
        let zm = |bucket: MinuteBucketView| count(bucket.metric.tokens, kind) == 0;
        let zd = |day: DayAggregateView| count(day.metric.tokens, kind) == 0;
        let zw = |window: WindowAggregateView| count(window.metric.tokens, kind) == 0;
        assert forall|i: int| 0 <= i < after.minutes.len() implies pm(
            (#[trigger] after.minutes[i]).1,
        ) by {
            assert(zm(after.minutes[i].1));
        }
        assert forall|i: int| 0 <= i < after.days.len() implies pd(
            (#[trigger] after.days[i]).1,
        ) by {
            assert(zd(after.days[i].1));
        }
        assert forall|i: int| 0 <= i < after.windows.len() implies pw(
            (#[trigger] after.windows[i]).1,
        ) by {
            assert(zw(after.windows[i].1));
        }
    } else {
        lemma_gathered_is_told(usages.drop_last(), quotas, setting, kind);
        let before = gathered(usages.drop_last(), quotas, setting);
        let usage = usages.last();
        let price = price_of(usage, setting.configured);
        let segment = window_of_usage(setting.windows, usage.observed_at_ms);
        let bucket = bucket_step(before, usage, setting);
        lemma_put_values::<(i64, String), MinuteBucketView>(
            before.minutes,
            minute_key(minute_of(usage.observed_at_ms), segment),
            bucket,
            pm,
        );
        let date = bucket.local_date;
        lemma_put_values::<String, DayAggregateView>(
            before.days,
            date,
            day_with_usage(held_day(before.days, date), usage, price, setting),
            pd,
        );
        if let Some(id) = id_of(segment) {
            if let Some(window) = lookup::<String, WindowAggregateView>(before.windows, id) {
                lemma_put_values::<String, WindowAggregateView>(
                    before.windows,
                    id,
                    WindowAggregateView {
                        metric: with_usage(window.metric, usage, price),
                        plans: with_plan_usage(
                            window.plans,
                            usage,
                            price,
                            setting.account,
                            setting.capacities,
                        ),
                        quality: with_texts(window.quality, price.quality),
                        ..window
                    },
                    pw,
                );
            }
        }
        let (key, held, slice) = session_step(before, usage, setting);
        lemma_put_values::<String, SessionAggregateView>(
            before.sessions,
            key,
            session_with_usage(held, usage, price, slice),
            ps,
        );
    }
}

/// A row that tells no usage holds no tokens.
pub proof fn lemma_unused_rows_are_empty(
    usages: Seq<UsageRecordView>,
    quotas: Seq<QuotaObservationView>,
    setting: SettingView,
    kind: int,
)
    ensures
        all_is_told(rolled_up(usages, quotas, setting), kind),
{
    lemma_gathered_is_told(usages, quotas, setting, kind);
    let before = gathered(usages, quotas, setting).days;
    let after = finished_days(before);
    let pd = |day: DayAggregateView| is_told(day.metric, kind);
    assert forall|i: int| 0 <= i < after.len() implies pd((#[trigger] after[i]).1) by {
        assert(pd(before[i].1));
    }
}

} // verus!
