//! What holds of usage however it is gathered.
use crate::minimal::rollup::load::FactsView;
use crate::minimal::rollup::metric::MetricAggregateView;
use crate::minimal::rollup::{
    bucket_with_usage, date_on, day_with, days_of_minutes, gathered, id_of, minute_key, new_day,
    new_session, percent_of, quota_minutes, rolled_up, root_of, session_key, session_of,
    session_with, setting_of, turn_id_of, turn_of, window_key, DayAggregateView, MinuteBucketView,
    SessionAggregateView, SettingView,
};
use crate::ordered::{
    all_values, lemma_lookup_value, lemma_put_sum, lemma_put_values, lemma_value_in_sum, lookup,
    put, sum_values,
};
use crate::pipelines::result::materialize::clock::minute_of;
use crate::pipelines::result::materialize::laws::{count, total_count};
use crate::pipelines::result::materialize::records::{QuotaObservationView, UsageRecordView};
use crate::pipelines::result::materialize::windows::window_of_usage;
use crate::text::text_or;
use vstd::prelude::*;

verus! {

/// The tokens of all minutes together.
pub open spec fn minutes_count(
    minutes: Seq<((i64, Seq<char>), MinuteBucketView)>,
    kind: int,
) -> int {
    sum_values::<(i64, String), MinuteBucketView>(
        minutes,
        |bucket: MinuteBucketView| count(bucket.metrics.tokens, kind),
    )
}

/// The tokens of all days together.
pub open spec fn days_count(days: Seq<(Seq<char>, DayAggregateView)>, kind: int) -> int {
    sum_values::<String, DayAggregateView>(
        days,
        |day: DayAggregateView| count(day.metrics.tokens, kind),
    )
}

/// The tokens of all sessions together.
pub open spec fn sessions_count(
    sessions: Seq<(Seq<char>, SessionAggregateView)>,
    kind: int,
) -> int {
    sum_values::<String, SessionAggregateView>(
        sessions,
        |session: SessionAggregateView| count(session.metrics.tokens, kind),
    )
}

/// Whether a sum counts no less than nothing, and nothing where nothing was summed.
spec fn is_sum(metric: MetricAggregateView, kind: int) -> bool {
    count(metric.tokens, kind) >= 0 && (metric.has_usage || count(metric.tokens, kind) == 0)
}

spec fn are_minutes(minutes: Seq<((i64, Seq<char>), MinuteBucketView)>, kind: int) -> bool {
    all_values::<(i64, String), MinuteBucketView>(
        minutes,
        |bucket: MinuteBucketView| is_sum(bucket.metrics, kind),
    )
}

spec fn are_sessions(sessions: Seq<(Seq<char>, SessionAggregateView)>, kind: int) -> bool {
    all_values::<String, SessionAggregateView>(
        sessions,
        |session: SessionAggregateView| is_sum(session.metrics, kind),
    )
}

proof fn lemma_quota_minutes_are_unused(
    quotas: Seq<QuotaObservationView>,
    setting: SettingView,
    kind: int,
)
    ensures
        minutes_count(quota_minutes(quotas, setting), kind) == 0,
        all_values::<(i64, String), MinuteBucketView>(
            quota_minutes(quotas, setting),
            |bucket: MinuteBucketView| count(bucket.metrics.tokens, kind) == 0,
        ),
    decreases quotas.len(),
{
    if quotas.len() > 0 {
        lemma_quota_minutes_are_unused(quotas.drop_last(), setting, kind);
        let before = quota_minutes(quotas.drop_last(), setting);
        let quota = quotas.last();
        let p = |bucket: MinuteBucketView| count(bucket.metrics.tokens, kind) == 0;
        let f = |bucket: MinuteBucketView| count(bucket.metrics.tokens, kind);
        if quota.used_percent is Some {
            let segment = window_of_usage(setting.windows, quota.first_seen_at_ms);
            let key = minute_key(minute_of(quota.first_seen_at_ms), segment);
            lemma_lookup_value::<(i64, String), MinuteBucketView>(before, key, p);
            assert forall|bucket: MinuteBucketView| p(bucket) implies all_values::<
                (i64, String),
                MinuteBucketView,
            >(
                #[trigger] put::<(i64, String), MinuteBucketView>(
                    before,
                    key,
                    bucket,
                ),
                p,
            ) && sum_values::<(i64, String), MinuteBucketView>(
                put::<(i64, String), MinuteBucketView>(before, key, bucket),
                f,
            ) == 0 by {
                lemma_put_values::<(i64, String), MinuteBucketView>(before, key, bucket, p);
                lemma_put_sum::<(i64, String), MinuteBucketView>(before, key, bucket, f);
            }
        }
    }
}

proof fn lemma_gathered_counts(
    usages: Seq<UsageRecordView>,
    quotas: Seq<QuotaObservationView>,
    setting: SettingView,
    kind: int,
)
    requires
        forall|i: int| 0 <= i < usages.len() ==> count((#[trigger] usages[i]).tokens, kind) >= 0,
        total_count(usages, kind) <= i64::MAX,
        gathered(usages, quotas, setting) is Ok,
    ensures
        are_minutes(gathered(usages, quotas, setting)->Ok_0.minutes, kind),
        are_sessions(gathered(usages, quotas, setting)->Ok_0.sessions, kind),
        minutes_count(gathered(usages, quotas, setting)->Ok_0.minutes, kind) == total_count(
            usages,
            kind,
        ),
        sessions_count(gathered(usages, quotas, setting)->Ok_0.sessions, kind) == total_count(
            usages,
            kind,
        ),
    decreases usages.len(),
{
    let fm = |bucket: MinuteBucketView| count(bucket.metrics.tokens, kind);
    let fs = |session: SessionAggregateView| count(session.metrics.tokens, kind);
    let pm = |bucket: MinuteBucketView| is_sum(bucket.metrics, kind);
    let ps = |session: SessionAggregateView| is_sum(session.metrics, kind);
    if usages.len() == 0 {
        lemma_quota_minutes_are_unused(quotas, setting, kind);
        let minutes = quota_minutes(quotas, setting);
        let unused = |bucket: MinuteBucketView| count(bucket.metrics.tokens, kind) == 0;
        assert forall|i: int| 0 <= i < minutes.len() implies pm((#[trigger] minutes[i]).1) by {
            assert(unused(minutes[i].1));
        }
    } else {
        let shorter = usages.drop_last();
        let usage = usages.last();
        assert forall|i: int| 0 <= i < shorter.len() implies count(
            (#[trigger] shorter[i]).tokens,
            kind,
        ) >= 0 by {
            assert(shorter[i] == usages[i]);
        }
        assert(count(usages[usages.len() - 1].tokens, kind) >= 0);
        lemma_gathered_counts(shorter, quotas, setting, kind);
        let before = gathered(shorter, quotas, setting)->Ok_0;
        let at = usage.observed_at_ms;
        let segment = window_of_usage(setting.windows, at);
        let bucket = bucket_with_usage(before.minutes, usage, setting);
        let turn = turn_of(usage, setting);
        let date = date_on(at, setting.timezone)->Ok_0;
        // the minute
        let mkey = minute_key(minute_of(at), segment);
        assert forall|i: int| 0 <= i < before.minutes.len() implies fm(
            (#[trigger] before.minutes[i]).1,
        ) >= 0 by {
            assert(pm(before.minutes[i].1));
        }
        lemma_value_in_sum::<(i64, String), MinuteBucketView>(before.minutes, mkey, fm);
        lemma_put_sum::<(i64, String), MinuteBucketView>(before.minutes, mkey, bucket, fm);
        lemma_put_values::<(i64, String), MinuteBucketView>(before.minutes, mkey, bucket, pm);
        // the session
        let key = session_key(
            date,
            root_of(usage, setting),
            session_of(usage),
            text_or(turn_id_of(turn), usage.source_key),
            window_key(id_of(segment)),
        );
        let held = match lookup::<String, SessionAggregateView>(before.sessions, key) {
            Some(session) => session,
            None => new_session(usage, date, setting),
        };
        let session = session_with(held, usage, turn, percent_of(bucket.official));
        assert forall|i: int| 0 <= i < before.sessions.len() implies fs(
            (#[trigger] before.sessions[i]).1,
        ) >= 0 by {
            assert(ps(before.sessions[i].1));
        }
        lemma_value_in_sum::<String, SessionAggregateView>(before.sessions, key, fs);
        lemma_put_sum::<String, SessionAggregateView>(before.sessions, key, session, fs);
        lemma_put_values::<String, SessionAggregateView>(before.sessions, key, session, ps);
    }
}

proof fn lemma_days_counts(minutes: Seq<((i64, Seq<char>), MinuteBucketView)>, kind: int)
    requires
        are_minutes(minutes, kind),
        minutes_count(minutes, kind) <= i64::MAX,
    ensures
        all_values::<String, DayAggregateView>(
            days_of_minutes(minutes),
            |day: DayAggregateView| count(day.metrics.tokens, kind) >= 0,
        ),
        days_count(days_of_minutes(minutes), kind) == minutes_count(minutes, kind),
    decreases minutes.len(),
{
    let pm = |bucket: MinuteBucketView| is_sum(bucket.metrics, kind);
    let fd = |day: DayAggregateView| count(day.metrics.tokens, kind);
    let pd = |day: DayAggregateView| count(day.metrics.tokens, kind) >= 0;
    if minutes.len() > 0 {
        let shorter = minutes.drop_last();
        assert forall|i: int| 0 <= i < shorter.len() implies pm((#[trigger] shorter[i]).1) by {
            assert(shorter[i] == minutes[i]);
            assert(pm(minutes[i].1));
        }
        assert(pm(minutes[minutes.len() - 1].1));
        lemma_days_counts(shorter, kind);
        let before = days_of_minutes(shorter);
        let bucket = minutes.last().1;
        let held = match lookup::<String, DayAggregateView>(before, bucket.local_date) {
            Some(day) => day,
            None => new_day(bucket.local_date),
        };
        let day = day_with(held, bucket);
        assert forall|i: int| 0 <= i < before.len() implies fd((#[trigger] before[i]).1) >= 0 by {
            assert(pd(before[i].1));
        }
        lemma_value_in_sum::<String, DayAggregateView>(before, bucket.local_date, fd);
        lemma_put_sum::<String, DayAggregateView>(before, bucket.local_date, day, fd);
        lemma_put_values::<String, DayAggregateView>(before, bucket.local_date, day, pd);
    }
}

/// Every token of every request is counted once by minute, once by day and once by session, as long
/// as the sum can be held: of each kind of tokens, the three tables tell what the requests tell.
pub proof fn lemma_tokens_are_counted_once(facts: FactsView, timezone: Seq<char>, kind: int)
    requires
        forall|i: int|
            0 <= i < facts.usages.len() ==> count((#[trigger] facts.usages[i]).tokens, kind) >= 0,
        total_count(facts.usages, kind) <= i64::MAX,
        rolled_up(facts, timezone) is Ok,
    ensures
        minutes_count(rolled_up(facts, timezone)->Ok_0.gathered.minutes, kind) == total_count(
            facts.usages,
            kind,
        ),
        days_count(rolled_up(facts, timezone)->Ok_0.days, kind) == total_count(
            facts.usages,
            kind,
        ),
        sessions_count(rolled_up(facts, timezone)->Ok_0.gathered.sessions, kind) == total_count(
            facts.usages,
            kind,
        ),
{
    let setting = setting_of(facts, timezone);
    lemma_gathered_counts(facts.usages, facts.quotas, setting, kind);
    lemma_days_counts(gathered(facts.usages, facts.quotas, setting)->Ok_0.minutes, kind);
}

} // verus!
