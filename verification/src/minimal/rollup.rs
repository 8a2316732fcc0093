//! The tables of a page, made anew from what was collected.
use crate::calendar::{
    date_at, date_of_instant, in_calendar, out_of_range, SHANGHAI_OFFSET_MS,
};
use crate::db::Rise;
use crate::domain::time::{can_be_local, no_local_time};
use crate::json::Float;
use crate::minimal::pricing::{price, price_of};
use crate::minimal::rollup::load::{turns_of_session, Facts, FactsView};
use crate::minimal::rollup::metric::{
    merged, no_metric, with_request, MetricAggregate, MetricAggregateView,
};
use crate::minimal::rollup::roots::{resolve_root, root_above, SessionMeta, SessionMetaView};
use crate::minimal::rollup::windows::{build_windows, windows_of};
use crate::num::{clamp_i64, saturating_add};
use crate::ordered::{lookup, put, with_text, with_texts, OrderedMap, TextSet};
use crate::pipelines::result::materialize::clock::{has_minute, minute_of, minute_start};
use crate::pipelines::result::materialize::records::{
    AccountContext, AccountContextView, QuotaObservation, QuotaObservationView, TurnRecord,
    TurnRecordView, UsageRecord, UsageRecordView, WindowSegment, WindowSegmentView,
};
use crate::pipelines::result::materialize::windows::{
    find_turn, find_usage_window, turn_at, window_of_usage,
};
use crate::pricing::{Price, PriceView};
use crate::text::{
    ascii_lower, borrowed, copy_option, first_of, first_some, same, same_option, text_or,
    to_ascii_lowercase,
};
use vstd::prelude::*;
use vstd::string::*;

pub mod laws;
pub mod load;
pub mod metric;
pub mod roots;
pub mod rows;
pub mod stored;
pub mod told;
pub mod windows;

verus! {

/// Why the tables cannot be made.
#[derive(Debug)]
pub enum RollupError {
    /// The date of an instant cannot be told.
    Timestamp(String),
}

/// A `RollupError` with its text as a sequence of characters.
#[verifier::ext_equal]
pub enum RollupErrorView {
    Timestamp(Seq<char>),
}

impl DeepView for RollupError {
    type V = RollupErrorView;

    open spec fn deep_view(&self) -> RollupErrorView {
        match self {
            RollupError::Timestamp(reason) => RollupErrorView::Timestamp(reason@),
        }
    }
}

/// How many rows the tables have, and how many windows there are.
#[derive(Clone, Copy, Debug, PartialEq, Eq, Structural)]
pub struct RollupSummary {
    pub days: usize,
    pub minutes: usize,
    pub sessions: usize,
    pub windows: usize,
}

/// An official percentage, and where it comes from.
#[derive(Debug)]
pub struct OfficialPoint {
    pub percent: Float,
    pub source: String,
    pub observed_at_ms: i64,
    pub priority: u8,
}

/// A `OfficialPoint` with its texts as sequences of characters.
#[verifier::ext_equal]
pub struct OfficialPointView {
    pub percent: Float,
    pub source: Seq<char>,
    pub observed_at_ms: i64,
    pub priority: u8,
}

impl DeepView for OfficialPoint {
    type V = OfficialPointView;

    open spec fn deep_view(&self) -> OfficialPointView {
        OfficialPointView {
            percent: self.percent,
            source: self.source@,
            observed_at_ms: self.observed_at_ms,
            priority: self.priority,
        }
    }
}

/// The usage of a minute in a window.
#[derive(Debug)]
pub struct MinuteBucket {
    pub minute_start_ms: i64,
    pub local_date: String,
    pub window_id: Option<String>,
    pub window_start_ms: Option<i64>,
    pub resets_at_ms: Option<i64>,
    pub reset_marker: bool,
    pub account_key: Option<String>,
    pub plan_type: Option<String>,
    pub provider: Option<String>,
    pub metrics: MetricAggregate,
    pub official: Option<OfficialPoint>,
}

/// A `MinuteBucket` with its texts as sequences of characters.
#[verifier::ext_equal]
pub struct MinuteBucketView {
    pub minute_start_ms: i64,
    pub local_date: Seq<char>,
    pub window_id: Option<Seq<char>>,
    pub window_start_ms: Option<i64>,
    pub resets_at_ms: Option<i64>,
    pub reset_marker: bool,
    pub account_key: Option<Seq<char>>,
    pub plan_type: Option<Seq<char>>,
    pub provider: Option<Seq<char>>,
    pub metrics: MetricAggregateView,
    pub official: Option<OfficialPointView>,
}

impl DeepView for MinuteBucket {
    type V = MinuteBucketView;

    open spec fn deep_view(&self) -> MinuteBucketView {
        MinuteBucketView {
            minute_start_ms: self.minute_start_ms,
            local_date: self.local_date@,
            window_id: self.window_id.deep_view(),
            window_start_ms: self.window_start_ms,
            resets_at_ms: self.resets_at_ms,
            reset_marker: self.reset_marker,
            account_key: self.account_key.deep_view(),
            plan_type: self.plan_type.deep_view(),
            provider: self.provider.deep_view(),
            metrics: self.metrics.deep_view(),
            official: self.official.deep_view(),
        }
    }
}

/// The usage of a day.
#[derive(Debug)]
pub struct DayAggregate {
    pub local_date: String,
    pub metrics: MetricAggregate,
    pub first_official: Option<Float>,
    pub last_official: Option<Float>,
    pub rises: Vec<Rise>,
    pub reset_count: i64,
    pub last_window_id: Option<String>,
    pub quality: TextSet,
}

/// A `DayAggregate` with its texts as sequences of characters.
#[verifier::ext_equal]
pub struct DayAggregateView {
    pub local_date: Seq<char>,
    pub metrics: MetricAggregateView,
    pub first_official: Option<Float>,
    pub last_official: Option<Float>,
    pub rises: Seq<Rise>,
    pub reset_count: i64,
    pub last_window_id: Option<Seq<char>>,
    pub quality: Seq<Seq<char>>,
}

impl DeepView for DayAggregate {
    type V = DayAggregateView;

    open spec fn deep_view(&self) -> DayAggregateView {
        DayAggregateView {
            local_date: self.local_date@,
            metrics: self.metrics.deep_view(),
            first_official: self.first_official,
            last_official: self.last_official,
            rises: self.rises@,
            reset_count: self.reset_count,
            last_window_id: self.last_window_id.deep_view(),
            quality: self.quality.deep_view(),
        }
    }
}

/// The usage of a turn of a session, on a day and in a window.
#[derive(Debug)]
pub struct SessionAggregate {
    pub local_date: String,
    pub root_session_id: Option<String>,
    pub session_id: Option<String>,
    pub turn_id: Option<String>,
    pub title: Option<String>,
    pub relation: Option<String>,
    pub started_at_ms: Option<i64>,
    pub ended_at_ms: Option<i64>,
    pub window_id: Option<String>,
    pub account_key: Option<String>,
    pub plan_type: Option<String>,
    pub provider: Option<String>,
    pub metrics: MetricAggregate,
    pub models: OrderedMap<(String, String), MetricAggregate>,
    pub tiers: TextSet,
    pub official_start: Option<Float>,
    pub official_end: Option<Float>,
    pub quality: TextSet,
}

/// A `SessionAggregate` with its texts as sequences of characters.
#[verifier::ext_equal]
pub struct SessionAggregateView {
    pub local_date: Seq<char>,
    pub root_session_id: Option<Seq<char>>,
    pub session_id: Option<Seq<char>>,
    pub turn_id: Option<Seq<char>>,
    pub title: Option<Seq<char>>,
    pub relation: Option<Seq<char>>,
    pub started_at_ms: Option<i64>,
    pub ended_at_ms: Option<i64>,
    pub window_id: Option<Seq<char>>,
    pub account_key: Option<Seq<char>>,
    pub plan_type: Option<Seq<char>>,
    pub provider: Option<Seq<char>>,
    pub metrics: MetricAggregateView,
    pub models: Seq<((Seq<char>, Seq<char>), MetricAggregateView)>,
    pub tiers: Seq<Seq<char>>,
    pub official_start: Option<Float>,
    pub official_end: Option<Float>,
    pub quality: Seq<Seq<char>>,
}

impl DeepView for SessionAggregate {
    type V = SessionAggregateView;

    open spec fn deep_view(&self) -> SessionAggregateView {
        SessionAggregateView {
            local_date: self.local_date@,
            root_session_id: self.root_session_id.deep_view(),
            session_id: self.session_id.deep_view(),
            turn_id: self.turn_id.deep_view(),
            title: self.title.deep_view(),
            relation: self.relation.deep_view(),
            started_at_ms: self.started_at_ms,
            ended_at_ms: self.ended_at_ms,
            window_id: self.window_id.deep_view(),
            account_key: self.account_key.deep_view(),
            plan_type: self.plan_type.deep_view(),
            provider: self.provider.deep_view(),
            metrics: self.metrics.deep_view(),
            models: self.models.deep_view(),
            tiers: self.tiers.deep_view(),
            official_start: self.official_start,
            official_end: self.official_end,
            quality: self.quality.deep_view(),
        }
    }
}

/// How far clocks of a time zone are ahead of UTC, in milliseconds: nothing for UTC, eight hours
/// for every other.
pub open spec fn offset_of(timezone: Seq<char>) -> i64 {
    if ascii_lower(timezone) == "utc"@ {
        0
    } else {
        SHANGHAI_OFFSET_MS
    }
}

/// The date of an instant in a time zone, or why the calendar does not reach it.
pub open spec fn date_on(epoch_ms: i64, timezone: Seq<char>) -> Result<
    Seq<char>,
    RollupErrorView,
> {
    let offset = offset_of(timezone) as int;
    if !in_calendar(epoch_ms as int, 0) {
        Err(RollupErrorView::Timestamp(out_of_range()))
    } else if !in_calendar(epoch_ms as int, offset) {
        Err(RollupErrorView::Timestamp(no_local_time()))
    } else {
        Ok(date_at(epoch_ms as int, offset).text())
    }
}

/// The date of an instant in a time zone, or why the calendar does not reach it.
pub fn local_date(epoch_ms: i64, timezone: &str) -> (r: Result<String, RollupError>)
    ensures
        match date_on(epoch_ms, timezone@) {
            Ok(date) => r is Ok && r->Ok_0@ == date,
            Err(error) => r is Err && r->Err_0.deep_view() == error,
        },
{
    let utc = same(to_ascii_lowercase(timezone).as_str(), "utc");
    if !utc && !can_be_local(epoch_ms) {
        return Err(RollupError::Timestamp("local datetime out of valid range".to_owned()));
    }
    let offset: i64 = if utc {
        0
    } else {
        SHANGHAI_OFFSET_MS
    };
    match date_of_instant(epoch_ms, offset) {
        Ok(date) => Ok(date.to_text()),
        Err(reason) => Err(RollupError::Timestamp(reason)),
    }
}

/// The date of a minute, `unknown` where it cannot be told.
pub open spec fn date_or_unknown(epoch_ms: i64, timezone: Seq<char>) -> Seq<char> {
    match date_on(epoch_ms, timezone) {
        Ok(date) => date,
        Err(_) => "unknown"@,
    }
}

fn minute_date(epoch_ms: i64, timezone: &str) -> (r: String)
    ensures
        r@ == date_or_unknown(epoch_ms, timezone@),
{
    match local_date(epoch_ms, timezone) {
        Ok(date) => date,
        Err(_) => "unknown".to_owned(),
    }
}

/// What stands for a window in keys.
pub open spec fn window_key(window_id: Option<Seq<char>>) -> Seq<char> {
    text_or(window_id, "none"@)
}

fn key_of_window(window_id: &Option<String>) -> (r: String)
    ensures
        r@ == window_key(window_id.deep_view()),
{
    match window_id {
        Some(id) => id.clone(),
        None => "none".to_owned(),
    }
}

/// The name of a window.
pub open spec fn id_of(segment: Option<WindowSegmentView>) -> Option<Seq<char>> {
    match segment {
        Some(window) => Some(window.id),
        None => None,
    }
}

/// Whether a window that follows another starts at an instant.
pub open spec fn restarts_at(segment: Option<WindowSegmentView>, at: i64) -> bool {
    segment is Some && segment->0.ordinal > 0 && segment->0.start_at_ms == at
}

fn does_restart(segment: Option<&WindowSegment>, at: i64) -> (r: bool)
    ensures
        r == restarts_at(segment.deep_view(), at),
{
    match segment {
        Some(window) => window.ordinal > 0 && window.start_at_ms == at,
        None => false,
    }
}

/// A minute of a window in which nothing was used yet.
pub open spec fn new_bucket(
    minute: i64,
    segment: Option<WindowSegmentView>,
    timezone: Seq<char>,
    reset_marker: bool,
    account_key: Option<Seq<char>>,
    plan_type: Option<Seq<char>>,
    provider: Option<Seq<char>>,
) -> MinuteBucketView {
    MinuteBucketView {
        minute_start_ms: minute,
        local_date: date_or_unknown(minute, timezone),
        window_id: id_of(segment),
        window_start_ms: match segment {
            Some(window) => Some(window.start_at_ms),
            None => None,
        },
        resets_at_ms: match segment {
            Some(window) => window.reset_at_ms,
            None => None,
        },
        reset_marker,
        account_key,
        plan_type,
        provider,
        metrics: no_metric(),
        official: None,
    }
}

fn start_bucket(
    minute: i64,
    segment: Option<&WindowSegment>,
    timezone: &str,
    reset_marker: bool,
    account_key: Option<String>,
    plan_type: Option<String>,
    provider: Option<String>,
) -> (r: MinuteBucket)
    ensures
        r.deep_view() == new_bucket(
            minute,
            segment.deep_view(),
            timezone@,
            reset_marker,
            account_key.deep_view(),
            plan_type.deep_view(),
            provider.deep_view(),
        ),
{
    MinuteBucket {
        minute_start_ms: minute,
        local_date: minute_date(minute, timezone),
        window_id: match segment {
            Some(window) => Some(window.id.clone()),
            None => None,
        },
        window_start_ms: match segment {
            Some(window) => Some(window.start_at_ms),
            None => None,
        },
        resets_at_ms: match segment {
            Some(window) => window.reset_at_ms,
            None => None,
        },
        reset_marker,
        account_key,
        plan_type,
        provider,
        metrics: MetricAggregate::default(),
        official: None,
    }
}

/// What the tables are made with besides quotas and usages.
#[verifier::ext_equal]
pub struct SettingView {
    pub windows: Seq<WindowSegmentView>,
    pub sessions: Seq<(Seq<char>, SessionMetaView)>,
    pub turns: Seq<(Seq<char>, Seq<TurnRecordView>)>,
    pub account: AccountContextView,
    pub timezone: Seq<char>,
}

/// What the tables are made with besides quotas and usages.
pub struct Setting<'a> {
    pub windows: &'a Vec<WindowSegment>,
    pub sessions: &'a OrderedMap<String, SessionMeta>,
    pub turns: &'a OrderedMap<String, Vec<TurnRecord>>,
    pub account: &'a AccountContext,
    pub timezone: &'a str,
}

impl<'a> DeepView for Setting<'a> {
    type V = SettingView;

    open spec fn deep_view(&self) -> SettingView {
        SettingView {
            windows: self.windows.deep_view(),
            sessions: self.sessions.deep_view(),
            turns: self.turns.deep_view(),
            account: self.account.deep_view(),
            timezone: self.timezone@,
        }
    }
}

/// The key of a minute in a window.
pub open spec fn minute_key(minute: i64, segment: Option<WindowSegmentView>) -> (i64, Seq<char>) {
    (minute, window_key(id_of(segment)))
}

/// The official percentage of a minute once a quota was read: that of the better source, and of the
/// later one where both are alike.
pub open spec fn official_after(
    current: Option<OfficialPointView>,
    quota: QuotaObservationView,
) -> Option<OfficialPointView> {
    let better = match current {
        Some(point) => quota.priority > point.priority || (quota.priority == point.priority
            && quota.first_seen_at_ms >= point.observed_at_ms),
        None => true,
    };
    if better {
        Some(
            OfficialPointView {
                percent: quota.used_percent->0,
                source: quota.source,
                observed_at_ms: quota.first_seen_at_ms,
                priority: quota.priority,
            },
        )
    } else {
        current
    }
}

/// The minutes with a quota.
pub open spec fn with_quota(
    minutes: Seq<((i64, Seq<char>), MinuteBucketView)>,
    quota: QuotaObservationView,
    setting: SettingView,
) -> Seq<((i64, Seq<char>), MinuteBucketView)> {
    if quota.used_percent is None {
        minutes
    } else {
        let at = quota.first_seen_at_ms;
        let segment = window_of_usage(setting.windows, at);
        let key = minute_key(minute_of(at), segment);
        let bucket = match lookup::<(i64, String), MinuteBucketView>(minutes, key) {
            Some(bucket) => bucket,
            None => new_bucket(
                minute_of(at),
                segment,
                setting.timezone,
                restarts_at(segment, at),
                first_some(quota.account_key, setting.account.account_key),
                first_some(quota.plan_type, setting.account.plan_type),
                None,
            ),
        };
        put::<(i64, String), MinuteBucketView>(
            minutes,
            key,
            MinuteBucketView {
                official: official_after(bucket.official, quota),
                reset_marker: bucket.reset_marker || restarts_at(segment, at),
                ..bucket
            },
        )
    }
}

/// The minutes of quotas.
pub open spec fn quota_minutes(quotas: Seq<QuotaObservationView>, setting: SettingView) -> Seq<
    ((i64, Seq<char>), MinuteBucketView),
>
    decreases quotas.len(),
{
    if quotas.len() == 0 {
        Seq::empty()
    } else {
        with_quota(quota_minutes(quotas.drop_last(), setting), quotas.last(), setting)
    }
}

fn add_quota(
    minutes: &mut OrderedMap<(i64, String), MinuteBucket>,
    quota: &QuotaObservation,
    setting: &Setting,
)
    requires
        has_minute(quota.first_seen_at_ms),
    ensures
        final(minutes).deep_view() == with_quota(
            old(minutes).deep_view(),
            quota.deep_view(),
            setting.deep_view(),
        ),
{
    let percent = match quota.used_percent {
        Some(percent) => percent,
        None => return ,
    };
    let at: i64 = quota.first_seen_at_ms;
    let segment = find_usage_window(setting.windows, at);
    let minute = minute_start(at);
    let restarts = does_restart(segment, at);
    let fresh = start_bucket(
        minute,
        segment,
        setting.timezone,
        restarts,
        first_of(&quota.account_key, &setting.account.account_key),
        first_of(&quota.plan_type, &setting.account.plan_type),
        None,
    );
    let key = (minute, key_of_window(&fresh.window_id));
    assert(key.deep_view() == minute_key(minute, segment.deep_view()));
    let bucket = minutes.entry(key, fresh);
    let better = match &bucket.official {
        Some(point) => quota.priority > point.priority || (quota.priority == point.priority && at
            >= point.observed_at_ms),
        None => true,
    };
    if better {
        bucket.official = Some(
            OfficialPoint {
                percent,
                source: quota.source.clone(),
                observed_at_ms: at,
                priority: quota.priority,
            },
        );
    }
    if restarts {
        bucket.reset_marker = true;
    }
}

fn gather_quotas(quotas: &Vec<QuotaObservation>, setting: &Setting) -> (r: OrderedMap<
    (i64, String),
    MinuteBucket,
>)
    requires
        forall|i: int|
            0 <= i < quotas@.len() ==> has_minute((#[trigger] quotas@[i]).first_seen_at_ms),
    ensures
        r.deep_view() == quota_minutes(quotas.deep_view(), setting.deep_view()),
{
    let ghost all = quotas.deep_view();
    let mut minutes: OrderedMap<(i64, String), MinuteBucket> = OrderedMap::new();
    let mut i: usize = 0;
    while i < quotas.len()
        invariant
            i <= quotas@.len(),
            all == quotas.deep_view(),
            forall|i: int|
                0 <= i < quotas@.len() ==> has_minute((#[trigger] quotas@[i]).first_seen_at_ms),
            minutes.deep_view() == quota_minutes(all.take(i as int), setting.deep_view()),
        decreases quotas@.len() - i,
    {
        assert(all.take(i + 1).drop_last() =~= all.take(i as int));
        assert(all.take(i + 1).last() == quotas@[i as int].deep_view());
        add_quota(&mut minutes, &quotas[i], setting);
        i = i + 1;
    }
    assert(all.take(i as int) =~= all);
    minutes
}

/// The price of a usage.
pub open spec fn price_of_usage(usage: UsageRecordView) -> PriceView {
    price_of(usage.tokens, usage.model, usage.tier, usage.observed_at_ms)
}

/// The minute of a usage once it was added.
pub open spec fn bucket_with_usage(
    minutes: Seq<((i64, Seq<char>), MinuteBucketView)>,
    usage: UsageRecordView,
    setting: SettingView,
) -> MinuteBucketView {
    let minute = minute_of(usage.observed_at_ms);
    let segment = window_of_usage(setting.windows, usage.observed_at_ms);
    let bucket = match lookup::<(i64, String), MinuteBucketView>(
        minutes,
        minute_key(minute, segment),
    ) {
        Some(bucket) => bucket,
        None => new_bucket(
            minute,
            segment,
            setting.timezone,
            restarts_at(segment, minute),
            setting.account.account_key,
            first_some(usage.plan_type, setting.account.plan_type),
            usage.provider,
        ),
    };
    MinuteBucketView {
        account_key: first_some(bucket.account_key, setting.account.account_key),
        plan_type: first_some(
            first_some(bucket.plan_type, usage.plan_type),
            setting.account.plan_type,
        ),
        provider: first_some(bucket.provider, usage.provider),
        metrics: with_request(bucket.metrics, usage.tokens, price_of_usage(usage)),
        ..bucket
    }
}

/// The session of a usage.
pub open spec fn session_of(usage: UsageRecordView) -> Seq<char> {
    text_or(usage.session_id, "unknown-session"@)
}

/// The session that the session of a usage goes back to.
pub open spec fn root_of(usage: UsageRecordView, setting: SettingView) -> Seq<char> {
    match usage.root_session_id {
        Some(root) => root,
        None => root_above(setting.sessions, session_of(usage)),
    }
}

/// The turn in which a usage was made.
pub open spec fn turn_of(usage: UsageRecordView, setting: SettingView) -> Option<TurnRecordView> {
    turn_at(turns_of_session(setting.turns, session_of(usage)), usage.observed_at_ms)
}

/// The name of a turn.
pub open spec fn turn_id_of(turn: Option<TurnRecordView>) -> Option<Seq<char>> {
    match turn {
        Some(turn) => Some(turn.id),
        None => None,
    }
}

/// The title of a session.
pub open spec fn title_of(
    sessions: Seq<(Seq<char>, SessionMetaView)>,
    session: Seq<char>,
) -> Option<Seq<char>> {
    match lookup::<String, SessionMetaView>(sessions, session) {
        Some(meta) => meta.title,
        None => None,
    }
}

/// The key under which a usage is summed: its day, its sessions, its turn and its window.
pub open spec fn session_key(
    date: Seq<char>,
    root: Seq<char>,
    session: Seq<char>,
    turn: Seq<char>,
    window: Seq<char>,
) -> Seq<char> {
    date + "|"@ + root + "|"@ + session + "|"@ + turn + "|"@ + window
}

/// The sum of a usage before anything was added to it.
pub open spec fn new_session(
    usage: UsageRecordView,
    date: Seq<char>,
    setting: SettingView,
) -> SessionAggregateView {
    let root = root_of(usage, setting);
    let turn = turn_of(usage, setting);
    SessionAggregateView {
        local_date: date,
        root_session_id: Some(root),
        session_id: Some(session_of(usage)),
        turn_id: turn_id_of(turn),
        title: first_some(
            title_of(setting.sessions, root),
            title_of(setting.sessions, session_of(usage)),
        ),
        relation: Some(
            if root == session_of(usage) {
                "main"@
            } else {
                "fork"@
            },
        ),
        started_at_ms: match turn {
            Some(turn) => turn.started,
            None => None,
        },
        ended_at_ms: match turn {
            Some(turn) => turn.ended,
            None => None,
        },
        window_id: id_of(window_of_usage(setting.windows, usage.observed_at_ms)),
        account_key: setting.account.account_key,
        plan_type: first_some(usage.plan_type, setting.account.plan_type),
        provider: usage.provider,
        metrics: no_metric(),
        models: Seq::empty(),
        tiers: Seq::empty(),
        official_start: None,
        official_end: None,
        quality: Seq::empty(),
    }
}

/// The sums by model and tier with a usage.
pub open spec fn models_with(
    models: Seq<((Seq<char>, Seq<char>), MetricAggregateView)>,
    usage: UsageRecordView,
) -> Seq<((Seq<char>, Seq<char>), MetricAggregateView)> {
    match usage.model {
        Some(model) => {
            let key = (model, text_or(usage.tier, "unknown"@));
            let metric = match lookup::<(String, String), MetricAggregateView>(models, key) {
                Some(metric) => metric,
                None => no_metric(),
            };
            put::<(String, String), MetricAggregateView>(
                models,
                key,
                with_request(metric, usage.tokens, price_of_usage(usage)),
            )
        },
        None => models,
    }
}

/// What qualifies a sum with a usage: whether its turn and its model are known.
pub open spec fn flags_with(
    quality: Seq<Seq<char>>,
    usage: UsageRecordView,
    turn: Option<TurnRecordView>,
) -> Seq<Seq<char>> {
    let first = if turn is None {
        with_text(quality, "missing_turn_boundary"@)
    } else {
        quality
    };
    if usage.model is None {
        with_text(first, "missing_model"@)
    } else {
        first
    }
}

/// The percentage of a point.
pub open spec fn percent_of(official: Option<OfficialPointView>) -> Option<Float> {
    match official {
        Some(point) => Some(point.percent),
        None => None,
    }
}

/// A sum with a usage.
pub open spec fn session_with(
    session: SessionAggregateView,
    usage: UsageRecordView,
    turn: Option<TurnRecordView>,
    official: Option<Float>,
) -> SessionAggregateView {
    SessionAggregateView {
        metrics: with_request(session.metrics, usage.tokens, price_of_usage(usage)),
        models: models_with(session.models, usage),
        tiers: if usage.model is Some {
            with_text(session.tiers, text_or(usage.tier, "unknown"@))
        } else {
            session.tiers
        },
        quality: flags_with(session.quality, usage, turn),
        official_start: first_some(session.official_start, official),
        official_end: first_some(official, session.official_end),
        ..session
    }
}

/// The minutes and the sums by session.
#[verifier::ext_equal]
pub struct GatheredView {
    pub minutes: Seq<((i64, Seq<char>), MinuteBucketView)>,
    pub sessions: Seq<(Seq<char>, SessionAggregateView)>,
}

/// The minutes and the sums with a usage, whose date must be known.
pub open spec fn with_usage(
    gathered: GatheredView,
    usage: UsageRecordView,
    setting: SettingView,
) -> Result<GatheredView, RollupErrorView> {
    let at = usage.observed_at_ms;
    let segment = window_of_usage(setting.windows, at);
    let bucket = bucket_with_usage(gathered.minutes, usage, setting);
    let turn = turn_of(usage, setting);
    match date_on(at, setting.timezone) {
        Ok(date) => {
            let key = session_key(
                date,
                root_of(usage, setting),
                session_of(usage),
                text_or(turn_id_of(turn), usage.source_key),
                window_key(id_of(segment)),
            );
            let session = match lookup::<String, SessionAggregateView>(gathered.sessions, key) {
                Some(session) => session,
                None => new_session(usage, date, setting),
            };
            Ok(
                GatheredView {
                    minutes: put::<(i64, String), MinuteBucketView>(
                        gathered.minutes,
                        minute_key(minute_of(at), segment),
                        bucket,
                    ),
                    sessions: put::<String, SessionAggregateView>(
                        gathered.sessions,
                        key,
                        session_with(session, usage, turn, percent_of(bucket.official)),
                    ),
                },
            )
        },
        Err(error) => Err(error),
    }
}

/// The minutes and the sums of usages, beside the minutes of quotas.
pub open spec fn gathered(
    usages: Seq<UsageRecordView>,
    quotas: Seq<QuotaObservationView>,
    setting: SettingView,
) -> Result<GatheredView, RollupErrorView>
    decreases usages.len(),
{
    if usages.len() == 0 {
        Ok(GatheredView { minutes: quota_minutes(quotas, setting), sessions: Seq::empty() })
    } else {
        match gathered(usages.drop_last(), quotas, setting) {
            Ok(before) => with_usage(before, usages.last(), setting),
            Err(error) => Err(error),
        }
    }
}

/// What stops the sum of some usages stops the sum of all.
proof fn lemma_failure_stays(
    usages: Seq<UsageRecordView>,
    quotas: Seq<QuotaObservationView>,
    setting: SettingView,
    n: int,
)
    requires
        0 <= n <= usages.len(),
        gathered(usages.take(n), quotas, setting) is Err,
    ensures
        gathered(usages, quotas, setting) == gathered(usages.take(n), quotas, setting),
    decreases usages.len(),
{
    if n == usages.len() {
        assert(usages.take(n) =~= usages);
    } else {
        assert(usages.drop_last().take(n) =~= usages.take(n));
        lemma_failure_stays(usages.drop_last(), quotas, setting, n);
    }
}

fn add_to_minute(
    minutes: &mut OrderedMap<(i64, String), MinuteBucket>,
    usage: &UsageRecord,
    amount: &Price,
    setting: &Setting,
) -> (r: Option<Float>)
    requires
        has_minute(usage.observed_at_ms),
        amount.deep_view() == price_of_usage(usage.deep_view()),
    ensures
        final(minutes).deep_view() == put::<(i64, String), MinuteBucketView>(
            old(minutes).deep_view(),
            minute_key(
                minute_of(usage.observed_at_ms),
                window_of_usage(setting.deep_view().windows, usage.observed_at_ms),
            ),
            bucket_with_usage(
                old(minutes).deep_view(),
                usage.deep_view(),
                setting.deep_view(),
            ),
        ),
        r == percent_of(
            bucket_with_usage(
                old(minutes).deep_view(),
                usage.deep_view(),
                setting.deep_view(),
            ).official,
        ),
{
    let at: i64 = usage.observed_at_ms;
    let minute = minute_start(at);
    let segment = find_usage_window(setting.windows, at);
    let fresh = start_bucket(
        minute,
        segment,
        setting.timezone,
        does_restart(segment, minute),
        copy_option(&setting.account.account_key),
        first_of(&usage.plan_type, &setting.account.plan_type),
        copy_option(&usage.provider),
    );
    let key = (minute, key_of_window(&fresh.window_id));
    assert(key.deep_view() == minute_key(minute, segment.deep_view()));
    let bucket = minutes.entry(key, fresh);
    bucket.account_key = first_of(&bucket.account_key, &setting.account.account_key);
    bucket.plan_type = first_of(
        &first_of(&bucket.plan_type, &usage.plan_type),
        &setting.account.plan_type,
    );
    bucket.provider = first_of(&bucket.provider, &usage.provider);
    bucket.metrics.add(&usage.tokens, amount);
    match &bucket.official {
        Some(point) => Some(point.percent),
        None => None,
    }
}

fn find_title(sessions: &OrderedMap<String, SessionMeta>, session: &String) -> (r: Option<String>)
    ensures
        r.deep_view() == title_of(sessions.deep_view(), session@),
{
    match sessions.get(session) {
        Some(meta) => copy_option(&meta.title),
        None => None,
    }
}

fn start_session(
    usage: &UsageRecord,
    date: &String,
    root: &String,
    session_id: &String,
    turn: Option<&TurnRecord>,
    setting: &Setting,
) -> (r: SessionAggregate)
    requires
        root@ == root_of(usage.deep_view(), setting.deep_view()),
        session_id@ == session_of(usage.deep_view()),
        turn.deep_view() == turn_of(usage.deep_view(), setting.deep_view()),
    ensures
        r.deep_view() == new_session(usage.deep_view(), date@, setting.deep_view()),
{
    let segment = find_usage_window(setting.windows, usage.observed_at_ms);
    let first = find_title(setting.sessions, root);
    let second = find_title(setting.sessions, session_id);
    let relation = if same(root.as_str(), session_id.as_str()) {
        "main".to_owned()
    } else {
        "fork".to_owned()
    };
    SessionAggregate {
        local_date: date.clone(),
        root_session_id: Some(root.clone()),
        session_id: Some(session_id.clone()),
        turn_id: match turn {
            Some(turn) => Some(turn.id.clone()),
            None => None,
        },
        title: first_of(&first, &second),
        relation: Some(relation),
        started_at_ms: match turn {
            Some(turn) => turn.started,
            None => None,
        },
        ended_at_ms: match turn {
            Some(turn) => turn.ended,
            None => None,
        },
        window_id: match segment {
            Some(window) => Some(window.id.clone()),
            None => None,
        },
        account_key: copy_option(&setting.account.account_key),
        plan_type: first_of(&usage.plan_type, &setting.account.plan_type),
        provider: copy_option(&usage.provider),
        metrics: MetricAggregate::default(),
        models: OrderedMap::new(),
        tiers: TextSet::new(),
        official_start: None,
        official_end: None,
        quality: TextSet::new(),
    }
}

fn add_to_session(
    session: &mut SessionAggregate,
    usage: &UsageRecord,
    amount: &Price,
    turn: Option<&TurnRecord>,
    official: Option<Float>,
)
    requires
        amount.deep_view() == price_of_usage(usage.deep_view()),
    ensures
        final(session).deep_view() == session_with(
            old(session).deep_view(),
            usage.deep_view(),
            turn.deep_view(),
            official,
        ),
{
    session.metrics.add(&usage.tokens, amount);
    if turn.is_none() {
        session.quality.insert("missing_turn_boundary");
    }
    match &usage.model {
        Some(model) => {
            let tier = match &usage.tier {
                Some(tier) => tier.clone(),
                None => "unknown".to_owned(),
            };
            session.tiers.insert(tier.as_str());
            let key = (model.clone(), tier);
            assert(key.deep_view() == (model@, text_or(usage.tier.deep_view(), "unknown"@)));
            let metric = session.models.entry(key, MetricAggregate::default());
            metric.add(&usage.tokens, amount);
        },
        None => {
            session.quality.insert("missing_model");
        },
    }
    if let Some(percent) = official {
        if session.official_start.is_none() {
            session.official_start = Some(percent);
        }
        session.official_end = Some(percent);
    }
}

/// The minutes and the sums by session.
pub struct Gathered {
    pub minutes: OrderedMap<(i64, String), MinuteBucket>,
    pub sessions: OrderedMap<String, SessionAggregate>,
}

impl DeepView for Gathered {
    type V = GatheredView;

    open spec fn deep_view(&self) -> GatheredView {
        GatheredView {
            minutes: self.minutes.deep_view(),
            sessions: self.sessions.deep_view(),
        }
    }
}

fn add_usage(gathered: &mut Gathered, usage: &UsageRecord, setting: &Setting) -> (r: Result<
    (),
    RollupError,
>)
    requires
        has_minute(usage.observed_at_ms),
    ensures
        match with_usage(old(gathered).deep_view(), usage.deep_view(), setting.deep_view()) {
            Ok(after) => r is Ok && final(gathered).deep_view() == after,
            Err(error) => r is Err && r->Err_0.deep_view() == error,
        },
{
    let at: i64 = usage.observed_at_ms;
    let date = match local_date(at, setting.timezone) {
        Ok(date) => date,
        Err(error) => return Err(error),
    };
    let amount = price(&usage.tokens, borrowed(&usage.model), borrowed(&usage.tier), at);
    let official = add_to_minute(&mut gathered.minutes, usage, &amount, setting);
    let session_id = match &usage.session_id {
        Some(id) => id.clone(),
        None => "unknown-session".to_owned(),
    };
    let none: Vec<TurnRecord> = Vec::new();
    assert(none.deep_view() =~= Seq::empty());
    let turns = match setting.turns.get(&session_id) {
        Some(turns) => turns,
        None => &none,
    };
    let turn = find_turn(turns, at);
    let root = match &usage.root_session_id {
        Some(root) => root.clone(),
        None => resolve_root(session_id.as_str(), setting.sessions),
    };
    let fresh = start_session(usage, &date, &root, &session_id, turn, setting);
    let mut key = date;
    key.append("|");
    key.append(root.as_str());
    key.append("|");
    key.append(session_id.as_str());
    key.append("|");
    match turn {
        Some(turn) => key.append(turn.id.as_str()),
        None => key.append(usage.source_key.as_str()),
    }
    key.append("|");
    key.append(key_of_window(&fresh.window_id).as_str());
    let session = gathered.sessions.entry(key, fresh);
    add_to_session(session, usage, &amount, turn, official);
    Ok(())
}

/// A day in which nothing was used yet.
pub open spec fn new_day(date: Seq<char>) -> DayAggregateView {
    DayAggregateView {
        local_date: date,
        metrics: no_metric(),
        first_official: None,
        last_official: None,
        rises: Seq::empty(),
        reset_count: 0,
        last_window_id: None,
        quality: Seq::empty(),
    }
}

/// A day with one of its minutes.
pub open spec fn day_with(day: DayAggregateView, bucket: MinuteBucketView) -> DayAggregateView {
    let summed = DayAggregateView {
        metrics: merged(day.metrics, bucket.metrics),
        quality: with_texts(day.quality, bucket.metrics.quality),
        reset_count: if bucket.reset_marker {
            clamp_i64(day.reset_count + 1)
        } else {
            day.reset_count
        },
        ..day
    };
    match bucket.official {
        Some(point) => DayAggregateView {
            first_official: first_some(day.first_official, Some(point.percent)),
            rises: match day.last_official {
                Some(from) if day.last_window_id == bucket.window_id && !bucket.reset_marker
                    && from.rank <= point.percent.rank => day.rises.push(
                    Rise { from, to: point.percent },
                ),
                _ => day.rises,
            },
            last_window_id: bucket.window_id,
            last_official: Some(point.percent),
            ..summed
        },
        None => summed,
    }
}

/// The days of minutes.
pub open spec fn days_of_minutes(minutes: Seq<((i64, Seq<char>), MinuteBucketView)>) -> Seq<
    (Seq<char>, DayAggregateView),
>
    decreases minutes.len(),
{
    if minutes.len() == 0 {
        Seq::empty()
    } else {
        let before = days_of_minutes(minutes.drop_last());
        let bucket = minutes.last().1;
        let day = match lookup::<String, DayAggregateView>(before, bucket.local_date) {
            Some(day) => day,
            None => new_day(bucket.local_date),
        };
        put::<String, DayAggregateView>(before, bucket.local_date, day_with(day, bucket))
    }
}

fn start_day(date: &String) -> (r: DayAggregate)
    ensures
        r.deep_view() == new_day(date@),
{
    let day = DayAggregate {
        local_date: date.clone(),
        metrics: MetricAggregate::default(),
        first_official: None,
        last_official: None,
        rises: Vec::new(),
        reset_count: 0,
        last_window_id: None,
        quality: TextSet::new(),
    };
    assert(day.rises@ =~= Seq::empty());
    day
}

fn add_to_day(day: &mut DayAggregate, bucket: &MinuteBucket)
    ensures
        final(day).deep_view() == day_with(old(day).deep_view(), bucket.deep_view()),
{
    day.metrics.merge(&bucket.metrics);
    day.quality.extend(&bucket.metrics.quality.items);
    if bucket.reset_marker {
        day.reset_count = saturating_add(day.reset_count, 1);
    }
    if let Some(point) = &bucket.official {
        if day.first_official.is_none() {
            day.first_official = Some(point.percent);
        }
        if let Some(from) = day.last_official {
            if same_option(&day.last_window_id, &bucket.window_id) && !bucket.reset_marker
                && from.rank <= point.percent.rank {
                day.rises.push(Rise { from, to: point.percent });
            }
        }
        day.last_window_id = copy_option(&bucket.window_id);
        day.last_official = Some(point.percent);
    }
}

fn gather_days(minutes: &OrderedMap<(i64, String), MinuteBucket>) -> (r: OrderedMap<
    String,
    DayAggregate,
>)
    ensures
        r.deep_view() == days_of_minutes(minutes.deep_view()),
{
    let ghost all = minutes.deep_view();
    let mut days: OrderedMap<String, DayAggregate> = OrderedMap::new();
    let mut i: usize = 0;
    while i < minutes.entries.len()
        invariant
            i <= minutes.entries@.len(),
            all == minutes.deep_view(),
            days.deep_view() == days_of_minutes(all.take(i as int)),
        decreases minutes.entries@.len() - i,
    {
        assert(all.take(i + 1).drop_last() =~= all.take(i as int));
        assert(all.take(i + 1).last() == minutes.entries@[i as int].deep_view());
        let bucket = &minutes.entries[i].1;
        let day = days.entry(bucket.local_date.clone(), start_day(&bucket.local_date));
        add_to_day(day, bucket);
        i = i + 1;
    }
    assert(all.take(i as int) =~= all);
    days
}

/// The days, the minutes, the sums by session and the windows.
#[verifier::ext_equal]
pub struct RollupView {
    pub days: Seq<(Seq<char>, DayAggregateView)>,
    pub gathered: GatheredView,
    pub windows: Seq<WindowSegmentView>,
}

/// The days, the minutes, the sums by session and the windows.
pub struct Rollup {
    pub days: OrderedMap<String, DayAggregate>,
    pub gathered: Gathered,
    pub windows: Vec<WindowSegment>,
}

impl DeepView for Rollup {
    type V = RollupView;

    open spec fn deep_view(&self) -> RollupView {
        RollupView {
            days: self.days.deep_view(),
            gathered: self.gathered.deep_view(),
            windows: self.windows.deep_view(),
        }
    }
}

/// With what the tables are made of facts.
pub open spec fn setting_of(facts: FactsView, timezone: Seq<char>) -> SettingView {
    SettingView {
        windows: windows_of(facts.quotas),
        sessions: facts.sessions,
        turns: facts.turns,
        account: facts.account,
        timezone,
    }
}

/// The tables of facts; none where the date of a usage cannot be told.
pub open spec fn rolled_up(facts: FactsView, timezone: Seq<char>) -> Result<
    RollupView,
    RollupErrorView,
> {
    match gathered(facts.usages, facts.quotas, setting_of(facts, timezone)) {
        Ok(gathered) => Ok(
            RollupView {
                days: days_of_minutes(gathered.minutes),
                gathered,
                windows: windows_of(facts.quotas),
            },
        ),
        Err(error) => Err(error),
    }
}

/// Whether all instants have a minute.
pub open spec fn have_minutes(facts: FactsView) -> bool {
    (forall|i: int|
        0 <= i < facts.usages.len() ==> has_minute((#[trigger] facts.usages[i]).observed_at_ms))
        && (forall|i: int|
        0 <= i < facts.quotas.len() ==> has_minute((#[trigger] facts.quotas[i]).first_seen_at_ms))
}

/// Makes the tables of facts.
pub fn roll_up(facts: &Facts, timezone: &str) -> (r: Result<Rollup, RollupError>)
    requires
        have_minutes(facts.deep_view()),
    ensures
        match rolled_up(facts.deep_view(), timezone@) {
            Ok(rollup) => r is Ok && r->Ok_0.deep_view() == rollup,
            Err(error) => r is Err && r->Err_0.deep_view() == error,
        },
{
    let windows = build_windows(&facts.quotas);
    let setting = Setting {
        windows: &windows,
        sessions: &facts.sessions,
        turns: &facts.turns,
        account: &facts.account,
        timezone,
    };
    let ghost usages = facts.usages.deep_view();
    let ghost quotas = facts.quotas.deep_view();
    let ghost known = setting.deep_view();
    proof {
        assert(known == setting_of(facts.deep_view(), timezone@));
        assert forall|i: int| 0 <= i < facts.quotas@.len() implies has_minute(
            (#[trigger] facts.quotas@[i]).first_seen_at_ms,
        ) by {
            assert(quotas[i] == facts.quotas@[i].deep_view());
            assert(has_minute(facts.deep_view().quotas[i].first_seen_at_ms));
        }
    }
    let mut sums = Gathered {
        minutes: gather_quotas(&facts.quotas, &setting),
        sessions: OrderedMap::new(),
    };
    let mut i: usize = 0;
    while i < facts.usages.len()
        invariant
            i <= facts.usages@.len(),
            usages == facts.usages.deep_view(),
            quotas == facts.quotas.deep_view(),
            known == setting.deep_view(),
            known == setting_of(facts.deep_view(), timezone@),
            have_minutes(facts.deep_view()),
            gathered(usages.take(i as int), quotas, known) == Ok::<GatheredView, RollupErrorView>(
                sums.deep_view(),
            ),
        decreases facts.usages@.len() - i,
    {
        assert(usages.take(i + 1).drop_last() =~= usages.take(i as int));
        assert(usages.take(i + 1).last() == facts.usages@[i as int].deep_view());
        assert(has_minute(facts.deep_view().usages[i as int].observed_at_ms));
        match add_usage(&mut sums, &facts.usages[i], &setting) {
            Ok(()) => {},
            Err(error) => {
                proof {
                    lemma_failure_stays(usages, quotas, known, i + 1);
                }
                return Err(error);
            },
        }
        i = i + 1;
    }
    assert(usages.take(i as int) =~= usages);
    let days = gather_days(&sums.minutes);
    Ok(Rollup { days, gathered: sums, windows })
}

impl Rollup {
    /// How many rows the tables have.
    pub fn summary(&self) -> (r: RollupSummary)
        ensures
            r.days == self.days.entries@.len(),
            r.minutes == self.gathered.minutes.entries@.len(),
            r.sessions == self.gathered.sessions.entries@.len(),
            r.windows == self.windows@.len(),
    {
        RollupSummary {
            days: self.days.entries.len(),
            minutes: self.gathered.minutes.entries.len(),
            sessions: self.gathered.sessions.entries.len(),
            windows: self.windows.len(),
        }
    }
}

} // verus!
