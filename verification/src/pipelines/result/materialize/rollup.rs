//! Usage gathered by minute, day, quota window and session.
use crate::db::Rise;
use crate::json::Float;
use crate::num::{clamp_i64, larger, smaller};
use crate::ordered::{lookup, put, with_text_if, with_texts, OrderedMap};
use crate::pipelines::result::materialize::capacity::with_plan_usage;
use crate::pipelines::result::materialize::clock::{
    earlier_of, end_of_day, is_datable, later_of, local_date, local_date_of, minute_of,
    start_of_day,
};
use crate::pipelines::result::materialize::metric::{
    credit_of, is_partial, plan_of_usage, with_usage,
};
use crate::pipelines::result::materialize::records::{
    empty_day_aggregate, empty_metric, empty_minute_bucket, empty_session_aggregate,
    empty_window_aggregate, AccountContext, AccountContextView, Capacity, CapacityView,
    DayAggregate, DayAggregateView, MetricView, MinuteBucket, MinuteBucketView, OfficialPointView,
    QuotaObservationView, SessionAggregate, SessionAggregateView, SessionMeta, SessionMetaView,
    TurnRecord, TurnRecordView, UsageRecordView, WindowAggregate, WindowAggregateView,
    WindowSegment, WindowSegmentView,
};
use crate::pipelines::result::materialize::windows::{turn_at, window_of_quota, window_of_usage};
use crate::config::{embedded_api, embedded_subscription};
use crate::pricing::{price, price_by_catalogs, PriceView, ServiceTier};
use crate::text::{first_some, text_or};
use vstd::prelude::*;
use vstd::string::*;

verus! {

/// What the usage is gathered by: the windows, the account, the capacities, the sessions and their
/// turns, and the tier of requests that tell none.
#[derive(Debug)]
pub struct Setting {
    pub windows: Vec<WindowSegment>,
    pub account: AccountContext,
    pub capacities: Vec<Capacity>,
    pub sessions: OrderedMap<String, SessionMeta>,
    pub turns: OrderedMap<String, Vec<TurnRecord>>,
    pub configured: ServiceTier,
}

/// A `Setting` with its texts as sequences of characters.
#[verifier::ext_equal]
pub struct SettingView {
    pub windows: Seq<WindowSegmentView>,
    pub account: AccountContextView,
    pub capacities: Seq<CapacityView>,
    pub sessions: Seq<(Seq<char>, SessionMetaView)>,
    pub turns: Seq<(Seq<char>, Seq<TurnRecordView>)>,
    pub configured: ServiceTier,
}

impl DeepView for Setting {
    type V = SettingView;

    open spec fn deep_view(&self) -> SettingView {
        SettingView {
            windows: self.windows.deep_view(),
            account: self.account.deep_view(),
            capacities: self.capacities.deep_view(),
            sessions: self.sessions.deep_view(),
            turns: self.turns.deep_view(),
            configured: self.configured,
        }
    }
}

/// Usage by minute and window, by day, by window and by session.
#[derive(Debug)]
pub struct Rollup {
    pub minutes: OrderedMap<(i64, String), MinuteBucket>,
    pub days: OrderedMap<String, DayAggregate>,
    pub windows: OrderedMap<String, WindowAggregate>,
    pub sessions: OrderedMap<String, SessionAggregate>,
}

/// A `Rollup` with its texts as sequences of characters.
#[verifier::ext_equal]
pub struct RollupView {
    pub minutes: Seq<((i64, Seq<char>), MinuteBucketView)>,
    pub days: Seq<(Seq<char>, DayAggregateView)>,
    pub windows: Seq<(Seq<char>, WindowAggregateView)>,
    pub sessions: Seq<(Seq<char>, SessionAggregateView)>,
}

impl DeepView for Rollup {
    type V = RollupView;

    open spec fn deep_view(&self) -> RollupView {
        RollupView {
            minutes: self.minutes.deep_view(),
            days: self.days.deep_view(),
            windows: self.windows.deep_view(),
            sessions: self.sessions.deep_view(),
        }
    }
}

/// Whether all instants that are gathered by have a minute and a date.
pub open spec fn are_datable(
    usages: Seq<UsageRecordView>,
    quotas: Seq<QuotaObservationView>,
    windows: Seq<WindowSegmentView>,
) -> bool {
    &&& forall|i: int| 0 <= i < usages.len() ==> is_datable((#[trigger] usages[i]).observed_at_ms)
    &&& forall|i: int| 0 <= i < quotas.len() ==> is_datable((#[trigger] quotas[i]).first_seen_at_ms)
    &&& forall|i: int| 0 <= i < windows.len() ==> window_is_datable(#[trigger] windows[i])
}

/// Whether the start of a window can be dated, and its reset too where the start has a date.
pub open spec fn window_is_datable(window: WindowSegmentView) -> bool {
    is_datable(window.start_at_ms) && (local_date_of(window.start_at_ms) is Some
        && window.reset_at_ms is Some ==> crate::domain::time::has_local_time(
        window.reset_at_ms->0,
    ))
}

/// The identity of a window.
pub open spec fn id_of(segment: Option<WindowSegmentView>) -> Option<Seq<char>> {
    match segment {
        Some(segment) => Some(segment.id),
        None => None,
    }
}

/// The key of a minute in a window.
pub open spec fn minute_key(minute: i64, segment: Option<WindowSegmentView>) -> (i64, Seq<char>) {
    (minute, text_or(id_of(segment), "none"@))
}

/// A minute in a window, without usage.
pub open spec fn fresh_minute(
    minute: i64,
    segment: Option<WindowSegmentView>,
    account: AccountContextView,
) -> MinuteBucketView {
    let base = MinuteBucketView {
        minute_start_ms: minute,
        local_date: text_or(local_date_of(minute), "unknown"@),
        account_key: account.account_key,
        provider: account.provider,
        ..empty_minute_bucket()
    };
    match segment {
        Some(segment) => MinuteBucketView {
            window_id: Some(segment.id),
            window_kind: Some(segment.window_kind),
            window_start_ms: Some(segment.start_at_ms),
            resets_at_ms: segment.reset_at_ms,
            reset_marker: segment.ordinal > 0 && segment.start_at_ms == minute,
            account_key: first_some(segment.account_key, account.account_key),
            plan_type: segment.plan_type,
            ..base
        },
        None => base,
    }
}

/// The minute in a window as it is held, or a fresh one.
pub open spec fn held_minute(
    minutes: Seq<((i64, Seq<char>), MinuteBucketView)>,
    minute: i64,
    segment: Option<WindowSegmentView>,
    account: AccountContextView,
) -> MinuteBucketView {
    match lookup::<(i64, String), MinuteBucketView>(minutes, minute_key(minute, segment)) {
        Some(bucket) => bucket,
        None => fresh_minute(minute, segment, account),
    }
}

/// A minute with a quota that was seen in it. Of several percentages that of the higher source
/// counts, of one source the last.
pub open spec fn minute_with_quota(
    bucket: MinuteBucketView,
    minute: i64,
    quota: QuotaObservationView,
    segment: Option<WindowSegmentView>,
) -> MinuteBucketView {
    let official = match quota.used_percent {
        Some(percent) if bucket.official is None || quota.priority >= bucket.official->0.priority =>
        Some(OfficialPointView { percent, source: quota.source, priority: quota.priority }),
        _ => bucket.official,
    };
    match segment {
        Some(segment) => MinuteBucketView {
            official,
            account_key: first_some(
                first_some(bucket.account_key, segment.account_key),
                quota.account_key,
            ),
            plan_type: first_some(
                first_some(bucket.plan_type, segment.plan_type),
                quota.plan_type,
            ),
            window_kind: Some(segment.window_kind),
            window_start_ms: Some(segment.start_at_ms),
            resets_at_ms: segment.reset_at_ms,
            reset_marker: bucket.reset_marker || (segment.ordinal > 0 && minute_of(
                segment.start_at_ms,
            ) == minute),
            ..bucket
        },
        None => MinuteBucketView { official, ..bucket },
    }
}

/// Minutes with one more quota.
pub open spec fn with_quota(
    minutes: Seq<((i64, Seq<char>), MinuteBucketView)>,
    quota: QuotaObservationView,
    setting: SettingView,
) -> Seq<((i64, Seq<char>), MinuteBucketView)> {
    let segment = window_of_quota(setting.windows, quota);
    let minute = minute_of(quota.first_seen_at_ms);
    put::<(i64, String), MinuteBucketView>(
        minutes,
        minute_key(minute, segment),
        minute_with_quota(
            held_minute(minutes, minute, segment, setting.account),
            minute,
            quota,
            segment,
        ),
    )
}

/// The minutes in which quotas were seen.
pub open spec fn quota_minutes(quotas: Seq<QuotaObservationView>, setting: SettingView) -> Seq<
    ((i64, Seq<char>), MinuteBucketView),
>
    decreases quotas.len(),
{
    if quotas.len() == 0 {
        Seq::empty()
    } else {
        with_quota(quota_minutes(quotas.drop_last(), setting), quotas.last(), setting)
    }
}

/// The windows without usage, by identity.
pub open spec fn fresh_windows(windows: Seq<WindowSegmentView>) -> Seq<
    (Seq<char>, WindowAggregateView),
>
    decreases windows.len(),
{
    if windows.len() == 0 {
        Seq::empty()
    } else {
        put::<String, WindowAggregateView>(
            fresh_windows(windows.drop_last()),
            windows.last().id,
            WindowAggregateView { segment: windows.last(), ..empty_window_aggregate() },
        )
    }
}

/// Rises with the one from `previous` to `percent`, where that is not a fall.
pub open spec fn with_rise(rises: Seq<Rise>, previous: Option<Float>, percent: Float) -> Seq<Rise> {
    match previous {
        Some(previous) if percent.rank >= previous.rank => rises.push(
            Rise { from: previous, to: percent },
        ),
        _ => rises,
    }
}

/// A window with one more official percentage.
pub open spec fn window_with_percent(
    window: WindowAggregateView,
    percent: Float,
) -> WindowAggregateView {
    WindowAggregateView {
        official_start: first_some(window.official_start, Some(percent)),
        rises: with_rise(window.rises, window.official_end, percent),
        official_end: Some(percent),
        ..window
    }
}

/// The days and windows, and what was seen last of each window on each day, as far as the minutes
/// were read.
#[verifier::ext_equal]
pub struct OfficialScanView {
    pub days: Seq<(Seq<char>, DayAggregateView)>,
    pub windows: Seq<(Seq<char>, WindowAggregateView)>,
    pub last: Seq<((Seq<char>, Seq<char>), Float)>,
    pub resets: Seq<Seq<char>>,
}

/// The day as it is held, or a fresh one.
pub open spec fn held_day(days: Seq<(Seq<char>, DayAggregateView)>, date: Seq<char>) -> DayAggregateView {
    match lookup::<String, DayAggregateView>(days, date) {
        Some(day) => day,
        None => DayAggregateView { local_date: date, ..empty_day_aggregate() },
    }
}

/// The windows with an official percentage of one of them.
pub open spec fn windows_with_percent(
    windows: Seq<(Seq<char>, WindowAggregateView)>,
    id: Seq<char>,
    percent: Float,
) -> Seq<(Seq<char>, WindowAggregateView)> {
    match lookup::<String, WindowAggregateView>(windows, id) {
        Some(window) => put::<String, WindowAggregateView>(
            windows,
            id,
            window_with_percent(window, percent),
        ),
        None => windows,
    }
}

/// What was read, with one more minute. Main windows count for the day: its percentage, its rises
/// and each reset once.
pub open spec fn with_official(scan: OfficialScanView, bucket: MinuteBucketView) -> OfficialScanView {
    match (bucket.official, bucket.window_id) {
        (Some(official), Some(id)) => {
            let percent = official.percent;
            let windows = windows_with_percent(scan.windows, id, percent);
            if bucket.window_kind == Some("primary"@) {
                let date = bucket.local_date;
                let day = held_day(scan.days, date);
                let previous = lookup::<(String, String), Float>(scan.last, (date, id));
                let reset = date + ":"@ + id;
                let resets = with_text_if(scan.resets, bucket.reset_marker, reset);
                OfficialScanView {
                    windows,
                    days: put::<String, DayAggregateView>(
                        scan.days,
                        date,
                        DayAggregateView {
                            official_start: first_some(day.official_start, Some(percent)),
                            official_end: Some(percent),
                            rises: with_rise(day.rises, previous, percent),
                            reset_count: if resets == scan.resets {
                                day.reset_count
                            } else {
                                clamp_i64(day.reset_count + 1)
                            },
                            ..day
                        },
                    ),
                    last: put::<(String, String), Float>(scan.last, (date, id), percent),
                    resets,
                }
            } else {
                OfficialScanView { windows, ..scan }
            }
        },
        _ => scan,
    }
}

/// What the official percentages of minutes tell of days and windows.
pub open spec fn official_scan(
    minutes: Seq<((i64, Seq<char>), MinuteBucketView)>,
    windows: Seq<WindowSegmentView>,
) -> OfficialScanView
    decreases minutes.len(),
{
    if minutes.len() == 0 {
        OfficialScanView {
            days: Seq::empty(),
            windows: fresh_windows(windows),
            last: Seq::empty(),
            resets: Seq::empty(),
        }
    } else {
        with_official(official_scan(minutes.drop_last(), windows), minutes.last().1)
    }
}

/// What the quotas tell, before any usage.
pub open spec fn quota_rollup(
    quotas: Seq<QuotaObservationView>,
    setting: SettingView,
) -> RollupView {
    let minutes = quota_minutes(quotas, setting);
    let scan = official_scan(minutes, setting.windows);
    RollupView { minutes, days: scan.days, windows: scan.windows, sessions: Seq::empty() }
}

/// The price of a request.
pub open spec fn price_of(usage: UsageRecordView, configured: ServiceTier) -> PriceView {
    price_by_catalogs(
        usage.tokens,
        usage.model,
        usage.tier,
        usage.observed_at_ms,
        configured,
        embedded_subscription(),
        embedded_api(),
    )
}

/// A minute with one more request.
pub open spec fn minute_with_usage(
    bucket: MinuteBucketView,
    usage: UsageRecordView,
    price: PriceView,
    account: AccountContextView,
) -> MinuteBucketView {
    let plan = plan_of_usage(usage);
    MinuteBucketView {
        account_key: first_some(bucket.account_key, account.account_key),
        quality: with_text_if(
            bucket.quality,
            plan is Some && bucket.plan_type is Some && bucket.plan_type != plan,
            "mixed_plan"@,
        ),
        plan_type: first_some(plan, bucket.plan_type),
        provider: first_some(first_some(bucket.provider, usage.provider), account.provider),
        metric: with_usage(bucket.metric, usage, price),
        ..bucket
    }
}

/// A day with one more request.
pub open spec fn day_with_usage(
    day: DayAggregateView,
    usage: UsageRecordView,
    price: PriceView,
    setting: SettingView,
) -> DayAggregateView {
    DayAggregateView {
        metric: with_usage(day.metric, usage, price),
        quality: with_texts(day.quality, price.quality),
        plans: with_plan_usage(day.plans, usage, price, setting.account, setting.capacities),
        ..day
    }
}

/// The windows with one more request in one of them.
pub open spec fn windows_with_usage(
    windows: Seq<(Seq<char>, WindowAggregateView)>,
    id: Option<Seq<char>>,
    usage: UsageRecordView,
    price: PriceView,
    setting: SettingView,
) -> Seq<(Seq<char>, WindowAggregateView)> {
    match id {
        Some(id) => match lookup::<String, WindowAggregateView>(windows, id) {
            Some(window) => put::<String, WindowAggregateView>(
                windows,
                id,
                WindowAggregateView {
                    metric: with_usage(window.metric, usage, price),
                    plans: with_plan_usage(
                        window.plans,
                        usage,
                        price,
                        setting.account,
                        setting.capacities,
                    ),
                    quality: with_texts(window.quality, price.quality),
                    ..window
                },
            ),
            None => windows,
        },
        None => windows,
    }
}

/// The turn with an identity.
pub open spec fn turn_named(turns: Seq<TurnRecordView>, id: Seq<char>) -> Option<TurnRecordView>
    decreases turns.len(),
{
    if turns.len() == 0 {
        None
    } else if turns[0].id == id {
        Some(turns[0])
    } else {
        turn_named(turns.skip(1), id)
    }
}

/// The session of a request.
pub open spec fn session_of(usage: UsageRecordView) -> Seq<char> {
    text_or(usage.session_id, "unknown-session"@)
}

/// The session under which a request is gathered.
pub open spec fn root_of_usage(usage: UsageRecordView) -> Seq<char> {
    text_or(usage.root_session_id, session_of(usage))
}

/// The turn of a request: the one that it names, else the one in which it was made.
pub open spec fn turn_of_usage(
    usage: UsageRecordView,
    turns: Seq<(Seq<char>, Seq<TurnRecordView>)>,
) -> Option<TurnRecordView> {
    match lookup::<String, Seq<TurnRecordView>>(turns, session_of(usage)) {
        Some(turns) => first_some(
            match usage.turn_id {
                Some(id) => turn_named(turns, id),
                None => None,
            },
            turn_at(turns, usage.observed_at_ms),
        ),
        None => None,
    }
}

/// What a request adds to the row of its turn on a day in a window.
#[verifier::ext_equal]
pub struct SliceView {
    pub turn_id: Option<Seq<char>>,
    pub started_at_ms: i64,
    pub ended_at_ms: Option<i64>,
    pub crosses_boundary: bool,
}

/// The part of a turn that lies on a day and in a window.
pub open spec fn slice_of(
    usage: UsageRecordView,
    turn: Option<TurnRecordView>,
    date: Seq<char>,
    segment: Option<WindowSegmentView>,
) -> SliceView {
    let window_start = match segment {
        Some(segment) => segment.start_at_ms,
        None => i64::MIN,
    };
    let window_end = match segment {
        Some(segment) if segment.reset_at_ms is Some => segment.reset_at_ms->0,
        _ => i64::MAX,
    };
    let start = larger(start_of_day(date) as int, window_start as int);
    let end = smaller(end_of_day(date) as int, window_end as int);
    match turn {
        Some(turn) => SliceView {
            turn_id: first_some(usage.turn_id, Some(turn.id)),
            started_at_ms: larger(
                (match turn.started {
                    Some(started) => started,
                    None => usage.observed_at_ms,
                }) as int,
                start,
            ) as i64,
            ended_at_ms: match turn.ended {
                Some(ended) => Some(smaller(ended as int, end) as i64),
                None => None,
            },
            crosses_boundary: (turn.started is Some && turn.started->0 < start) || (
            turn.ended is Some && turn.ended->0 > end),
        },
        None => SliceView {
            turn_id: usage.turn_id,
            started_at_ms: larger(usage.observed_at_ms as int, start) as i64,
            ended_at_ms: None,
            crosses_boundary: false,
        },
    }
}

/// The key of the row of a turn on a day in a window.
pub open spec fn session_key(
    root: Seq<char>,
    turn_id: Option<Seq<char>>,
    date: Seq<char>,
    window_id: Option<Seq<char>>,
) -> Seq<char> {
    root + ":"@ + text_or(turn_id, "unknown"@) + ":"@ + date + ":"@ + text_or(window_id, "none"@)
}

/// The title of a session.
pub open spec fn title_of(sessions: Seq<(Seq<char>, SessionMetaView)>, id: Seq<char>) -> Option<
    Seq<char>,
> {
    match lookup::<String, SessionMetaView>(sessions, id) {
        Some(meta) => meta.title,
        None => None,
    }
}

/// The relation of a session to its root.
pub open spec fn relation_of(sessions: Seq<(Seq<char>, SessionMetaView)>, id: Seq<char>) -> Option<
    Seq<char>,
> {
    match lookup::<String, SessionMetaView>(sessions, id) {
        Some(meta) => meta.relation,
        None => None,
    }
}

/// The row of a turn on a day in a window, before its first request is added.
pub open spec fn fresh_session(
    usage: UsageRecordView,
    bucket: MinuteBucketView,
    slice: SliceView,
    segment: Option<WindowSegmentView>,
    sessions: Seq<(Seq<char>, SessionMetaView)>,
) -> SessionAggregateView {
    let session_id = session_of(usage);
    let root = root_of_usage(usage);
    SessionAggregateView {
        local_date: bucket.local_date,
        root_session_id: usage.root_session_id,
        session_id: Some(session_id),
        turn_id: slice.turn_id,
        title: first_some(title_of(sessions, root), title_of(sessions, session_id)),
        relation: first_some(
            first_some(usage.relation, relation_of(sessions, session_id)),
            Some(
                if session_id != root {
                    "child"@
                } else {
                    "main"@
                },
            ),
        ),
        started_at_ms: Some(slice.started_at_ms),
        ended_at_ms: slice.ended_at_ms,
        window_id: id_of(segment),
        account_key: bucket.account_key,
        plan_type: plan_of_usage(usage),
        provider: bucket.provider,
        observed_start_ms: Some(usage.observed_at_ms),
        observed_end_ms: Some(usage.observed_at_ms),
        ..empty_session_aggregate()
    }
}

/// The model, tier and effort of a request.
pub open spec fn model_key(usage: UsageRecordView) -> (Seq<char>, (Seq<char>, Seq<char>)) {
    (
        text_or(usage.model, ""@),
        (text_or(usage.tier, "unknown"@), text_or(usage.reasoning_effort, "unknown"@)),
    )
}

/// The usage by model with one more request.
pub open spec fn models_with_usage(
    models: Seq<((Seq<char>, (Seq<char>, Seq<char>)), MetricView)>,
    usage: UsageRecordView,
    price: PriceView,
) -> Seq<((Seq<char>, (Seq<char>, Seq<char>)), MetricView)> {
    let held = match lookup::<(String, (String, String)), MetricView>(models, model_key(usage)) {
        Some(held) => held,
        None => empty_metric(),
    };
    put::<(String, (String, String)), MetricView>(
        models,
        model_key(usage),
        with_usage(held, usage, price),
    )
}

/// The row of a turn with one more request.
pub open spec fn session_with_usage(
    session: SessionAggregateView,
    usage: UsageRecordView,
    price: PriceView,
    slice: SliceView,
) -> SessionAggregateView {
    let marked = with_text_if(
        with_text_if(session.quality, usage.root_session_id is None, "root_unresolved"@),
        slice.crosses_boundary,
        "split_boundary"@,
    );
    SessionAggregateView {
        metric: with_usage(session.metric, usage, price),
        quality: with_text_if(
            with_texts(marked, price.quality),
            usage.model is None,
            "missing_model"@,
        ),
        tiers: with_text_if(session.tiers, usage.model is Some, text_or(usage.tier, "unknown"@)),
        models: if usage.model is Some {
            models_with_usage(session.models, usage, price)
        } else {
            session.models
        },
        started_at_ms: earlier_of(session.started_at_ms, Some(slice.started_at_ms)),
        ended_at_ms: later_of(session.ended_at_ms, slice.ended_at_ms),
        observed_start_ms: earlier_of(session.observed_start_ms, Some(usage.observed_at_ms)),
        observed_end_ms: later_of(session.observed_end_ms, Some(usage.observed_at_ms)),
        ..session
    }
}

/// The sessions with one more request.
pub open spec fn sessions_with_usage(
    sessions: Seq<(Seq<char>, SessionAggregateView)>,
    usage: UsageRecordView,
    price: PriceView,
    bucket: MinuteBucketView,
    segment: Option<WindowSegmentView>,
    setting: SettingView,
) -> Seq<(Seq<char>, SessionAggregateView)> {
    let turn = turn_of_usage(usage, setting.turns);
    let slice = slice_of(usage, turn, bucket.local_date, segment);
    let key = session_key(root_of_usage(usage), slice.turn_id, bucket.local_date, id_of(segment));
    let held = match lookup::<String, SessionAggregateView>(sessions, key) {
        Some(held) => held,
        None => fresh_session(usage, bucket, slice, segment, setting.sessions),
    };
    put::<String, SessionAggregateView>(
        sessions,
        key,
        session_with_usage(held, usage, price, slice),
    )
}

/// What was gathered, with one more request.
pub open spec fn with_request(
    rollup: RollupView,
    usage: UsageRecordView,
    setting: SettingView,
) -> RollupView {
    let price = price_of(usage, setting.configured);
    let minute = minute_of(usage.observed_at_ms);
    let segment = window_of_usage(setting.windows, usage.observed_at_ms);
    let bucket = minute_with_usage(
        held_minute(rollup.minutes, minute, segment, setting.account),
        usage,
        price,
        setting.account,
    );
    RollupView {
        minutes: put::<(i64, String), MinuteBucketView>(
            rollup.minutes,
            minute_key(minute, segment),
            bucket,
        ),
        days: put::<String, DayAggregateView>(
            rollup.days,
            bucket.local_date,
            day_with_usage(held_day(rollup.days, bucket.local_date), usage, price, setting),
        ),
        windows: windows_with_usage(rollup.windows, id_of(segment), usage, price, setting),
        sessions: sessions_with_usage(rollup.sessions, usage, price, bucket, segment, setting),
    }
}

/// What quotas and requests tell.
pub open spec fn gathered(
    usages: Seq<UsageRecordView>,
    quotas: Seq<QuotaObservationView>,
    setting: SettingView,
) -> RollupView
    decreases usages.len(),
{
    if usages.len() == 0 {
        quota_rollup(quotas, setting)
    } else {
        with_request(gathered(usages.drop_last(), quotas, setting), usages.last(), setting)
    }
}

/// A day with the marks that its usage as a whole gives.
pub open spec fn finished_day(day: DayAggregateView) -> DayAggregateView {
    let marked = with_text_if(
        with_text_if(
            with_text_if(day.quality, day.plans.len() > 1, "mixed_plan"@),
            is_partial(day.metric),
            "pricing_partial"@,
        ),
        credit_of(day.metric) is None && day.metric.has_usage,
        "missing_pricing"@,
    );
    DayAggregateView { quality: with_texts(marked, day.metric.quality), ..day }
}

/// The days with the marks that their usage gives.
pub open spec fn finished_days(days: Seq<(Seq<char>, DayAggregateView)>) -> Seq<
    (Seq<char>, DayAggregateView),
> {
    Seq::new(days.len(), |i: int| (days[i].0, finished_day(days[i].1)))
}

/// What quotas and requests tell, with the days marked.
pub open spec fn rolled_up(
    usages: Seq<UsageRecordView>,
    quotas: Seq<QuotaObservationView>,
    setting: SettingView,
) -> RollupView {
    let rollup = gathered(usages, quotas, setting);
    RollupView { days: finished_days(rollup.days), ..rollup }
}

} // verus!
