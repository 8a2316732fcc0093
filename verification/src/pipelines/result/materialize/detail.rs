//! What the rows of minutes and sessions say beyond their sums.
use crate::json::Float;
use crate::ordered::{
    all_values, lemma_entry_is_found, lemma_lookup_entry, lemma_lookup_value, lemma_put_lookup,
    lemma_put_values, lookup,
};
use crate::pipelines::result::materialize::clock::{end_of_day, start_of_day};
use crate::pipelines::result::materialize::laws::{
    bucket_step, lemma_gathered_in_order, lemma_quota_minutes_in_order, session_step,
};
use crate::pipelines::result::materialize::records::{
    MinuteBucketView, QuotaObservationView, SessionAggregateView, UsageRecordView,
    WindowSegmentView,
};
use crate::pipelines::result::materialize::rollup::{
    gathered, held_minute, id_of, minute_key, minute_with_quota, price_of, quota_minutes,
    session_with_usage, turn_of_usage, SettingView,
};
use crate::pipelines::result::materialize::spans::{
    lemma_quota_is_in_its_last_started, lemma_request_is_in_the_last_started,
};
use crate::pipelines::result::materialize::tables::{
    day_of, lemma_minute_of_step, lemma_minutes_are_keyed, lemma_quota_minutes_start,
    lemma_session_of_step, minute_has_key, minute_of_request, row_of_request, select, whole_minute,
};
use crate::pipelines::result::materialize::windows::{window_of_quota, window_of_usage, windows_of};
use crate::pipelines::result::materialize::{
    quotas_in, refreshed, setting_in, usages_in, SourcesView,
};
use crate::text::text_or;
use vstd::prelude::*;
use vstd::string::*;

verus! {

/// Whether a minute is of a window: it has its kind, its start and its reset.
pub open spec fn is_in_window(
    window_kind: Option<Seq<char>>,
    window_start_ms: Option<i64>,
    resets_at_ms: Option<i64>,
    segment: WindowSegmentView,
) -> bool {
    &&& window_kind == Some(segment.window_kind)
    &&& window_start_ms == Some(segment.start_at_ms)
    &&& resets_at_ms == segment.reset_at_ms
}

/// Whether a minute is of one of several windows, where it is of any.
spec fn is_in_some_window(bucket: MinuteBucketView, windows: Seq<WindowSegmentView>) -> bool {
    match bucket.window_id {
        Some(id) => exists|i: int|
            0 <= i < windows.len() && (#[trigger] windows[i]).id == id && is_in_window(
                bucket.window_kind,
                bucket.window_start_ms,
                bucket.resets_at_ms,
                windows[i],
            ),
        None => true,
    }
}

proof fn lemma_quota_minutes_are_in_windows(
    quotas: Seq<QuotaObservationView>,
    setting: SettingView,
)
    ensures
        all_values::<(i64, String), MinuteBucketView>(
            quota_minutes(quotas, setting),
            |bucket: MinuteBucketView| is_in_some_window(bucket, setting.windows),
        ),
    decreases quotas.len(),
{
    let p = |bucket: MinuteBucketView| is_in_some_window(bucket, setting.windows);
    if quotas.len() > 0 {
        let (shorter, quota) = (quotas.drop_last(), quotas.last());
        lemma_quota_minutes_are_in_windows(shorter, setting);
        lemma_quota_minutes_in_order(shorter, setting);
        lemma_quota_minutes_start(shorter, setting);
        let before = quota_minutes(shorter, setting);
        let segment = window_of_quota(setting.windows, quota);
        let minute = whole_minute(quota.first_seen_at_ms);
        let key = minute_key(minute, segment);
        let held = held_minute(before, minute, segment, setting.account);
        let after = minute_with_quota(held, minute, quota, segment);
        lemma_lookup_value::<(i64, String), MinuteBucketView>(before, key, p);
        let keyed = |key: (i64, Seq<char>), bucket: MinuteBucketView| minute_has_key(key, bucket);
        lemma_lookup_entry::<(i64, String), MinuteBucketView>(before, key, keyed);
        assert(minute_has_key(key, held));
        lemma_quota_is_in_its_last_started(setting.windows, quota);
        if let Some(window) = segment {
            let n = choose|n: int|
                0 <= n < setting.windows.len() && window == #[trigger] setting.windows[n];
            assert(setting.windows[n].id == window.id);
            assert(held.window_id is Some ==> held.window_id == Some(window.id));
        }
        assert(p(after));
        lemma_put_values::<(i64, String), MinuteBucketView>(before, key, after, p);
    }
}

proof fn lemma_minutes_are_in_windows(
    usages: Seq<UsageRecordView>,
    quotas: Seq<QuotaObservationView>,
    setting: SettingView,
)
    ensures
        all_values::<(i64, String), MinuteBucketView>(
            gathered(usages, quotas, setting).minutes,
            |bucket: MinuteBucketView| is_in_some_window(bucket, setting.windows),
        ),
    decreases usages.len(),
{
    let p = |bucket: MinuteBucketView| is_in_some_window(bucket, setting.windows);
    if usages.len() == 0 {
        lemma_quota_minutes_are_in_windows(quotas, setting);
    } else {
        let (shorter, usage) = (usages.drop_last(), usages.last());
        lemma_minutes_are_in_windows(shorter, quotas, setting);
        let before = gathered(shorter, quotas, setting);
        let key = minute_of_request(usage, setting);
        let after = bucket_step(before, usage, setting);
        lemma_lookup_value::<(i64, String), MinuteBucketView>(before.minutes, key, p);
        lemma_request_is_in_the_last_started(setting.windows, usage.observed_at_ms);
        if let Some(window) = window_of_usage(setting.windows, usage.observed_at_ms) {
            let n = choose|n: int|
                0 <= n < setting.windows.len() && window == #[trigger] setting.windows[n];
            assert(setting.windows[n].id == window.id);
        }
        assert(p(after));
        lemma_put_values::<(i64, String), MinuteBucketView>(before.minutes, key, after, p);
    }
}

/// A row of the minutes that is of a window has the kind, the start and the reset of a window of
/// that identity which quotas make.
pub proof fn lemma_minutes_are_of_their_windows(sources: SourcesView, at: int)
    requires
        0 <= at < refreshed(sources).minutes.len(),
        refreshed(sources).minutes[at].window_id is Some,
    ensures
        ({
            let row = refreshed(sources).minutes[at];
            let windows = windows_of(quotas_in(sources));
            exists|i: int|
                0 <= i < windows.len() && Some((#[trigger] windows[i]).id) == row.window_id
                    && is_in_window(
                    row.window_kind,
                    row.window_start_ms,
                    row.resets_at_ms,
                    windows[i],
                )
        }),
{
    let (usages, quotas, setting) = (usages_in(sources), quotas_in(sources), setting_in(sources));
    let minutes = gathered(usages, quotas, setting).minutes;
    lemma_minutes_are_in_windows(usages, quotas, setting);
    let p = |bucket: MinuteBucketView| is_in_some_window(bucket, setting.windows);
    assert(p(minutes[at].1));
    let row = refreshed(sources).minutes[at];
    let windows = setting.windows;
    let i = choose|i: int|
        0 <= i < windows.len() && (#[trigger] windows[i]).id == row.window_id->0 && is_in_window(
            row.window_kind,
            row.window_start_ms,
            row.resets_at_ms,
            windows[i],
        );
    assert(Some(windows[i].id) == row.window_id);
}

/// Whether a quota was seen in a minute and belongs to a window.
pub open spec fn is_seen_in(
    quota: QuotaObservationView,
    windows: Seq<WindowSegmentView>,
    key: (i64, Seq<char>),
) -> bool {
    &&& whole_minute(quota.first_seen_at_ms) == key.0
    &&& text_or(id_of(window_of_quota(windows, quota)), "none"@) == key.1
}

/// Whether a percentage of a minute is the best of those that were seen in it: that of the quota
/// whose source counts for most, of several of these that of the last.
pub open spec fn is_best_of(
    percent: Option<Float>,
    source: Option<Seq<char>>,
    quotas: Seq<QuotaObservationView>,
    windows: Seq<WindowSegmentView>,
    key: (i64, Seq<char>),
) -> bool {
    ||| {
        &&& percent is None && source is None
        &&& forall|i: int|
            0 <= i < quotas.len() && is_seen_in(#[trigger] quotas[i], windows, key)
                ==> quotas[i].used_percent is None
    }
    ||| exists|n: int|
        {
            &&& 0 <= n < quotas.len() && is_seen_in(#[trigger] quotas[n], windows, key)
            &&& quotas[n].used_percent is Some && percent == quotas[n].used_percent
            &&& source == Some(quotas[n].source)
            &&& forall|i: int|
                0 <= i < quotas.len() && is_seen_in(#[trigger] quotas[i], windows, key)
                    && quotas[i].used_percent is Some ==> quotas[i].priority <= quotas[n].priority
                    && (i > n ==> quotas[i].priority < quotas[n].priority)
        }
}

/// The place of the quota that a minute has its percentage from.
spec fn best_place(
    quotas: Seq<QuotaObservationView>,
    windows: Seq<WindowSegmentView>,
    key: (i64, Seq<char>),
) -> Option<int>
    decreases quotas.len(),
{
    if quotas.len() == 0 {
        None
    } else {
        let before = best_place(quotas.drop_last(), windows, key);
        let quota = quotas.last();
        if is_seen_in(quota, windows, key) && quota.used_percent is Some && (before is None
            || quota.priority >= quotas[before->0].priority) {
            Some(quotas.len() - 1)
        } else {
            before
        }
    }
}

proof fn lemma_best_place(
    quotas: Seq<QuotaObservationView>,
    windows: Seq<WindowSegmentView>,
    key: (i64, Seq<char>),
)
    ensures
        match best_place(quotas, windows, key) {
            Some(n) => {
                &&& 0 <= n < quotas.len() && is_seen_in(quotas[n], windows, key)
                &&& quotas[n].used_percent is Some
                &&& forall|i: int|
                    0 <= i < quotas.len() && is_seen_in(#[trigger] quotas[i], windows, key)
                        && quotas[i].used_percent is Some ==> quotas[i].priority
                        <= quotas[n].priority && (i > n ==> quotas[i].priority
                        < quotas[n].priority)
            },
            None => forall|i: int|
                0 <= i < quotas.len() && is_seen_in(#[trigger] quotas[i], windows, key)
                    ==> quotas[i].used_percent is None,
        },
    decreases quotas.len(),
{
    if quotas.len() > 0 {
        let shorter = quotas.drop_last();
        lemma_best_place(shorter, windows, key);
        assert forall|i: int| 0 <= i < shorter.len() implies shorter[i] == #[trigger] quotas[i] by {}
        assert(quotas[quotas.len() - 1] == quotas.last());
    }
}

proof fn lemma_minute_has_best(
    quotas: Seq<QuotaObservationView>,
    setting: SettingView,
    key: (i64, Seq<char>),
)
    ensures
        ({
            let found = lookup::<(i64, String), MinuteBucketView>(
                quota_minutes(quotas, setting),
                key,
            );
            match best_place(quotas, setting.windows, key) {
                Some(n) => found is Some && (found->0).official is Some && Some(
                    ((found->0).official->0).percent,
                ) == quotas[n].used_percent && ((found->0).official->0).source
                    == quotas[n].source && ((found->0).official->0).priority == quotas[n].priority,
                None => found is Some ==> (found->0).official is None,
            }
        }),
    decreases quotas.len(),
{
    if quotas.len() > 0 {
        let (shorter, quota) = (quotas.drop_last(), quotas.last());
        lemma_minute_has_best(shorter, setting, key);
        lemma_best_place(shorter, setting.windows, key);
        lemma_quota_minutes_in_order(shorter, setting);
        let before = quota_minutes(shorter, setting);
        let segment = window_of_quota(setting.windows, quota);
        let minute = whole_minute(quota.first_seen_at_ms);
        let own = minute_key(minute, segment);
        let after = minute_with_quota(
            held_minute(before, minute, segment, setting.account),
            minute,
            quota,
            segment,
        );
        lemma_put_lookup::<(i64, String), MinuteBucketView>(before, own, after, key);
        if let Some(n) = best_place(shorter, setting.windows, key) {
            assert(shorter[n] == quotas[n]);
        }
    }
}

proof fn lemma_requests_keep_best(
    usages: Seq<UsageRecordView>,
    quotas: Seq<QuotaObservationView>,
    setting: SettingView,
    key: (i64, Seq<char>),
)
    ensures
        ({
            let now = lookup::<(i64, String), MinuteBucketView>(
                gathered(usages, quotas, setting).minutes,
                key,
            );
            let first = lookup::<(i64, String), MinuteBucketView>(
                quota_minutes(quotas, setting),
                key,
            );
            &&& first is Some ==> now is Some && (now->0).official == (first->0).official
            &&& first is None && now is Some ==> (now->0).official is None
        }),
    decreases usages.len(),
{
    if usages.len() > 0 {
        let (shorter, usage) = (usages.drop_last(), usages.last());
        lemma_requests_keep_best(shorter, quotas, setting, key);
        lemma_gathered_in_order(shorter, quotas, setting);
        let before = gathered(shorter, quotas, setting);
        lemma_put_lookup::<(i64, String), MinuteBucketView>(
            before.minutes,
            minute_of_request(usage, setting),
            bucket_step(before, usage, setting),
            key,
        );
    }
}

/// The official percentage of a row of the minutes is that of the quota which was seen in its minute
/// and belongs to its window: of several the one whose source counts for most, and of these the
/// last.
pub proof fn lemma_minutes_say_the_best_percentage(sources: SourcesView, at: int)
    requires
        0 <= at < refreshed(sources).minutes.len(),
    ensures
        ({
            let row = refreshed(sources).minutes[at];
            is_best_of(
                row.official_used_percent,
                row.official_source,
                quotas_in(sources),
                setting_in(sources).windows,
                (row.minute_start_ms, text_or(row.window_id, "none"@)),
            )
        }),
{
    let (usages, quotas, setting) = (usages_in(sources), quotas_in(sources), setting_in(sources));
    let minutes = gathered(usages, quotas, setting).minutes;
    let row = refreshed(sources).minutes[at];
    lemma_gathered_in_order(usages, quotas, setting);
    lemma_minutes_are_keyed(usages, quotas, setting);
    let keyed = |key: (i64, Seq<char>), bucket: MinuteBucketView| minute_has_key(key, bucket);
    assert(keyed(minutes[at].0, minutes[at].1));
    let key = minutes[at].0;
    assert(key == (row.minute_start_ms, text_or(row.window_id, "none"@)));
    lemma_entry_is_found::<(i64, String), MinuteBucketView>(minutes, at);
    lemma_requests_keep_best(usages, quotas, setting, key);
    lemma_minute_has_best(quotas, setting, key);
    lemma_best_place(quotas, setting.windows, key);
    if let Some(n) = best_place(quotas, setting.windows, key) {
        assert(is_seen_in(quotas[n], setting.windows, key));
        assert(row.official_used_percent == quotas[n].used_percent);
    }
}

/// When the part of a turn starts that a request is of: where its turn starts, else where the
/// request was made, but not before its day and not before its window.
pub open spec fn part_start(usage: UsageRecordView, setting: SettingView) -> int {
    let turn = turn_of_usage(usage, setting.turns);
    let own = if turn is Some && (turn->0).started is Some {
        (turn->0).started->0 as int
    } else {
        usage.observed_at_ms as int
    };
    let day = start_of_day(day_of(usage)) as int;
    let bound = match window_of_usage(setting.windows, usage.observed_at_ms) {
        Some(window) if window.start_at_ms > day => window.start_at_ms as int,
        _ => day,
    };
    if own < bound {
        bound
    } else {
        own
    }
}

/// When the part of a turn ends that a request is of, where it is known: where its turn ends, but not
/// after its day and not after its window.
pub open spec fn part_end(usage: UsageRecordView, setting: SettingView) -> Option<int> {
    let turn = turn_of_usage(usage, setting.turns);
    let day = end_of_day(day_of(usage)) as int;
    let bound = match window_of_usage(setting.windows, usage.observed_at_ms) {
        Some(window) if window.reset_at_ms is Some && window.reset_at_ms->0 < day => {
            window.reset_at_ms->0 as int
        },
        _ => day,
    };
    if turn is Some && (turn->0).ended is Some {
        Some(
            if (turn->0).ended->0 < bound {
                (turn->0).ended->0 as int
            } else {
                bound
            },
        )
    } else {
        None
    }
}

/// Whether a row of sessions spans the parts that its requests are of.
pub open spec fn spans_parts(
    started: Option<i64>,
    ended: Option<i64>,
    own: Seq<UsageRecordView>,
    setting: SettingView,
) -> bool {
    &&& started is Some
    &&& forall|k: int| 0 <= k < own.len() ==> started->0 <= part_start(#[trigger] own[k], setting)
    &&& exists|k: int| 0 <= k < own.len() && started->0 == part_start(#[trigger] own[k], setting)
    &&& ended is None <==> forall|k: int|
        0 <= k < own.len() ==> part_end(#[trigger] own[k], setting) is None
    &&& ended is Some ==> forall|k: int|
        0 <= k < own.len() && part_end(#[trigger] own[k], setting) is Some ==> part_end(
            own[k],
            setting,
        )->0 <= ended->0
    &&& ended is Some ==> exists|k: int|
        0 <= k < own.len() && part_end(#[trigger] own[k], setting) == Some(ended->0 as int)
}

proof fn lemma_spans_first(
    started: Option<i64>,
    ended: Option<i64>,
    usage: UsageRecordView,
    setting: SettingView,
)
    requires
        started is Some && started->0 == part_start(usage, setting),
        match part_end(usage, setting) {
            Some(end) => ended is Some && ended->0 == end,
            None => ended is None,
        },
    ensures
        spans_parts(started, ended, seq![usage], setting),
{
    let own = seq![usage];
    assert(own[0] == usage);
    assert forall|k: int| 0 <= k < own.len() implies #[trigger] own[k] == usage by {}
    assert(started->0 == part_start(own[0], setting));
    assert(part_end(own[0], setting) == part_end(usage, setting));
}

proof fn lemma_spans_step(
    started: Option<i64>,
    ended: Option<i64>,
    own: Seq<UsageRecordView>,
    usage: UsageRecordView,
    setting: SettingView,
    after_start: Option<i64>,
    after_end: Option<i64>,
)
    requires
        spans_parts(started, ended, own, setting),
        after_start is Some,
        after_start->0 == (if started->0 < part_start(usage, setting) {
            started->0 as int
        } else {
            part_start(usage, setting)
        }),
        match (ended, part_end(usage, setting)) {
            (Some(one), Some(other)) => after_end is Some && after_end->0 == (if one < other {
                other
            } else {
                one as int
            }),
            (Some(one), None) => after_end == Some(one),
            (None, Some(other)) => after_end is Some && after_end->0 == other,
            (None, None) => after_end is None,
        },
    ensures
        spans_parts(after_start, after_end, own.push(usage), setting),
{
    let all = own.push(usage);
    assert(all[own.len() as int] == usage);
    assert forall|k: int| 0 <= k < own.len() implies own[k] == #[trigger] all[k] by {}
    let k = choose|k: int| 0 <= k < own.len() && started->0 == part_start(#[trigger] own[k], setting);
    assert(all[k] == own[k]);
    assert(exists|k: int|
        0 <= k < all.len() && after_start->0 == part_start(#[trigger] all[k], setting)) by {
        if started->0 < part_start(usage, setting) {
            assert(after_start->0 == part_start(all[k], setting));
        } else {
            assert(after_start->0 == part_start(all[own.len() as int], setting));
        }
    }
    if ended is Some {
        let n = choose|n: int|
            0 <= n < own.len() && part_end(#[trigger] own[n], setting) == Some(ended->0 as int);
        assert(all[n] == own[n]);
        assert(part_end(all[n], setting) is Some);
    }
    if part_end(usage, setting) is Some {
        assert(part_end(all[own.len() as int], setting) is Some);
    }
    if after_end is None {
        assert forall|k: int| 0 <= k < all.len() implies part_end(
            #[trigger] all[k],
            setting,
        ) is None by {
            if k < own.len() {
                assert(part_end(own[k], setting) is None);
            }
        }
    } else {
        assert forall|k: int|
            0 <= k < all.len() && part_end(#[trigger] all[k], setting) is Some implies part_end(
            all[k],
            setting,
        )->0 <= after_end->0 by {
            if k < own.len() {
                assert(part_end(own[k], setting) is Some);
            }
        }
    }
}

proof fn lemma_session_spans(
    usages: Seq<UsageRecordView>,
    quotas: Seq<QuotaObservationView>,
    setting: SettingView,
    key: Seq<char>,
)
    ensures
        ({
            let own = select(usages, |u: UsageRecordView| row_of_request(u, setting) == key);
            match lookup::<String, SessionAggregateView>(
                gathered(usages, quotas, setting).sessions,
                key,
            ) {
                Some(session) => spans_parts(
                    session.started_at_ms,
                    session.ended_at_ms,
                    own,
                    setting,
                ),
                None => own.len() == 0,
            }
        }),
    decreases usages.len(),
{
    let wanted = |u: UsageRecordView| row_of_request(u, setting) == key;
    if usages.len() > 0 {
        let (shorter, usage) = (usages.drop_last(), usages.last());
        lemma_session_spans(shorter, quotas, setting, key);
        lemma_gathered_in_order(shorter, quotas, setting);
        lemma_minute_of_step(shorter, quotas, setting, usage);
        lemma_session_of_step(shorter, quotas, setting, usage);
        let before = gathered(shorter, quotas, setting);
        let (own, held, slice) = session_step(before, usage, setting);
        let row = session_with_usage(held, usage, price_of(usage, setting.configured), slice);
        lemma_put_lookup::<String, SessionAggregateView>(before.sessions, own, row, key);
        assert(slice.started_at_ms == part_start(usage, setting));
        assert(match part_end(usage, setting) {
            Some(end) => slice.ended_at_ms is Some && slice.ended_at_ms->0 == end,
            None => slice.ended_at_ms is None,
        });
        if own == key {
            if lookup::<String, SessionAggregateView>(before.sessions, key) is Some {
                lemma_spans_step(
                    held.started_at_ms,
                    held.ended_at_ms,
                    select(shorter, wanted),
                    usage,
                    setting,
                    row.started_at_ms,
                    row.ended_at_ms,
                );
            } else {
                lemma_spans_first(row.started_at_ms, row.ended_at_ms, usage, setting);
                assert(select(usages, wanted) =~= seq![usage]);
            }
        }
    }
}

/// A row of the sessions starts with the earliest and ends with the latest of the parts of turns
/// that its requests are of.
pub proof fn lemma_sessions_span_their_parts(sources: SourcesView, at: int)
    requires
        0 <= at < refreshed(sources).sessions.len(),
    ensures
        ({
            let row = refreshed(sources).sessions[at];
            let setting = setting_in(sources);
            spans_parts(
                row.started_at_ms,
                row.ended_at_ms,
                select(
                    usages_in(sources),
                    |u: UsageRecordView| row_of_request(u, setting) == row.row_key,
                ),
                setting,
            )
        }),
{
    let (usages, quotas, setting) = (usages_in(sources), quotas_in(sources), setting_in(sources));
    let sessions = gathered(usages, quotas, setting).sessions;
    lemma_gathered_in_order(usages, quotas, setting);
    lemma_entry_is_found::<String, SessionAggregateView>(sessions, at);
    lemma_session_spans(usages, quotas, setting, sessions[at].0);
}

} // verus!
