//! What the rollups are made from, and what they are gathered in.
use crate::db::Rise;
use crate::json::Float;
use crate::ordered::{OrderedMap, TextSet};
use crate::pricing::{no_tokens, TokenCounts};
use crate::text::copy_option;
use vstd::prelude::*;

verus! {

/// A request that used tokens.
#[derive(Debug)]
pub struct UsageRecord {
    pub source_key: String,
    pub observed_at_ms: i64,
    pub session_id: Option<String>,
    pub root_session_id: Option<String>,
    pub turn_id: Option<String>,
    pub model: Option<String>,
    pub tier: Option<String>,
    pub reasoning_effort: Option<String>,
    pub relation: Option<String>,
    pub provider: Option<String>,
    pub plan_type: Option<String>,
    pub tokens: TokenCounts,
}

/// A `UsageRecord` with its texts as sequences of characters.
#[verifier::ext_equal]
pub struct UsageRecordView {
    pub source_key: Seq<char>,
    pub observed_at_ms: i64,
    pub session_id: Option<Seq<char>>,
    pub root_session_id: Option<Seq<char>>,
    pub turn_id: Option<Seq<char>>,
    pub model: Option<Seq<char>>,
    pub tier: Option<Seq<char>>,
    pub reasoning_effort: Option<Seq<char>>,
    pub relation: Option<Seq<char>>,
    pub provider: Option<Seq<char>>,
    pub plan_type: Option<Seq<char>>,
    pub tokens: TokenCounts,
}

impl DeepView for UsageRecord {
    type V = UsageRecordView;

    open spec fn deep_view(&self) -> UsageRecordView {
        UsageRecordView {
            source_key: self.source_key@,
            observed_at_ms: self.observed_at_ms,
            session_id: self.session_id.deep_view(),
            root_session_id: self.root_session_id.deep_view(),
            turn_id: self.turn_id.deep_view(),
            model: self.model.deep_view(),
            tier: self.tier.deep_view(),
            reasoning_effort: self.reasoning_effort.deep_view(),
            relation: self.relation.deep_view(),
            provider: self.provider.deep_view(),
            plan_type: self.plan_type.deep_view(),
            tokens: self.tokens,
        }
    }
}

impl UsageRecord {
    /// A copy of the record.
    pub fn copy(&self) -> (r: Self)
        ensures
            r.deep_view() == self.deep_view(),
    {
        UsageRecord {
            source_key: self.source_key.clone(),
            observed_at_ms: self.observed_at_ms,
            session_id: copy_option(&self.session_id),
            root_session_id: copy_option(&self.root_session_id),
            turn_id: copy_option(&self.turn_id),
            model: copy_option(&self.model),
            tier: copy_option(&self.tier),
            reasoning_effort: copy_option(&self.reasoning_effort),
            relation: copy_option(&self.relation),
            provider: copy_option(&self.provider),
            plan_type: copy_option(&self.plan_type),
            tokens: self.tokens,
        }
    }
}

/// The title of a session and how it is related to others.
#[derive(Debug)]
pub struct SessionMeta {
    pub title: Option<String>,
    pub relation: Option<String>,
}

/// A `SessionMeta` with its texts as sequences of characters.
#[verifier::ext_equal]
pub struct SessionMetaView {
    pub title: Option<Seq<char>>,
    pub relation: Option<Seq<char>>,
}

impl DeepView for SessionMeta {
    type V = SessionMetaView;

    open spec fn deep_view(&self) -> SessionMetaView {
        SessionMetaView {
            title: self.title.deep_view(),
            relation: self.relation.deep_view(),
        }
    }
}

/// When a turn started and ended.
#[derive(Debug)]
pub struct TurnRecord {
    pub id: String,
    pub started: Option<i64>,
    pub ended: Option<i64>,
}

/// A `TurnRecord` with its texts as sequences of characters.
#[verifier::ext_equal]
pub struct TurnRecordView {
    pub id: Seq<char>,
    pub started: Option<i64>,
    pub ended: Option<i64>,
}

impl DeepView for TurnRecord {
    type V = TurnRecordView;

    open spec fn deep_view(&self) -> TurnRecordView {
        TurnRecordView {
            id: self.id@,
            started: self.started,
            ended: self.ended,
        }
    }
}

/// A state of a quota, and when it was first and last seen.
#[derive(Debug)]
pub struct QuotaObservation {
    pub first_seen_at_ms: i64,
    pub last_seen_at_ms: i64,
    pub account_key: Option<String>,
    pub limit_id: Option<String>,
    pub window_kind: String,
    pub used_percent: Option<Float>,
    pub window_minutes: Option<i64>,
    pub resets_at_ms: Option<i64>,
    pub plan_type: Option<String>,
    pub source: String,
    pub priority: u8,
}

/// A `QuotaObservation` with its texts as sequences of characters.
#[verifier::ext_equal]
pub struct QuotaObservationView {
    pub first_seen_at_ms: i64,
    pub last_seen_at_ms: i64,
    pub account_key: Option<Seq<char>>,
    pub limit_id: Option<Seq<char>>,
    pub window_kind: Seq<char>,
    pub used_percent: Option<Float>,
    pub window_minutes: Option<i64>,
    pub resets_at_ms: Option<i64>,
    pub plan_type: Option<Seq<char>>,
    pub source: Seq<char>,
    pub priority: u8,
}

impl DeepView for QuotaObservation {
    type V = QuotaObservationView;

    open spec fn deep_view(&self) -> QuotaObservationView {
        QuotaObservationView {
            first_seen_at_ms: self.first_seen_at_ms,
            last_seen_at_ms: self.last_seen_at_ms,
            account_key: self.account_key.deep_view(),
            limit_id: self.limit_id.deep_view(),
            window_kind: self.window_kind@,
            used_percent: self.used_percent,
            window_minutes: self.window_minutes,
            resets_at_ms: self.resets_at_ms,
            plan_type: self.plan_type.deep_view(),
            source: self.source@,
            priority: self.priority,
        }
    }
}

impl QuotaObservation {
    /// A copy of the record.
    pub fn copy(&self) -> (r: Self)
        ensures
            r.deep_view() == self.deep_view(),
    {
        QuotaObservation {
            first_seen_at_ms: self.first_seen_at_ms,
            last_seen_at_ms: self.last_seen_at_ms,
            account_key: copy_option(&self.account_key),
            limit_id: copy_option(&self.limit_id),
            window_kind: self.window_kind.clone(),
            used_percent: self.used_percent,
            window_minutes: self.window_minutes,
            resets_at_ms: self.resets_at_ms,
            plan_type: copy_option(&self.plan_type),
            source: self.source.clone(),
            priority: self.priority,
        }
    }
}

/// A quota window from when it was first seen until it was reset.
#[derive(Debug)]
pub struct WindowSegment {
    pub id: String,
    pub account_key: Option<String>,
    pub limit_id: Option<String>,
    pub window_kind: String,
    pub start_at_ms: i64,
    pub reset_at_ms: Option<i64>,
    pub window_minutes: Option<i64>,
    pub plan_type: Option<String>,
    pub ordinal: usize,
}

/// A `WindowSegment` with its texts as sequences of characters.
#[verifier::ext_equal]
pub struct WindowSegmentView {
    pub id: Seq<char>,
    pub account_key: Option<Seq<char>>,
    pub limit_id: Option<Seq<char>>,
    pub window_kind: Seq<char>,
    pub start_at_ms: i64,
    pub reset_at_ms: Option<i64>,
    pub window_minutes: Option<i64>,
    pub plan_type: Option<Seq<char>>,
    pub ordinal: usize,
}

impl DeepView for WindowSegment {
    type V = WindowSegmentView;

    open spec fn deep_view(&self) -> WindowSegmentView {
        WindowSegmentView {
            id: self.id@,
            account_key: self.account_key.deep_view(),
            limit_id: self.limit_id.deep_view(),
            window_kind: self.window_kind@,
            start_at_ms: self.start_at_ms,
            reset_at_ms: self.reset_at_ms,
            window_minutes: self.window_minutes,
            plan_type: self.plan_type.deep_view(),
            ordinal: self.ordinal,
        }
    }
}

/// A `WindowSegment` of which nothing is known.
pub open spec fn empty_window_segment() -> WindowSegmentView {
    WindowSegmentView {
        id: Seq::empty(),
        account_key: None,
        limit_id: None,
        window_kind: Seq::empty(),
        start_at_ms: 0,
        reset_at_ms: None,
        window_minutes: None,
        plan_type: None,
        ordinal: 0,
    }
}

impl Default for WindowSegment {
    fn default() -> (r: Self)
        ensures
            r.deep_view() == empty_window_segment(),
    {
        let r = WindowSegment {
            id: String::new(),
            account_key: None,
            limit_id: None,
            window_kind: String::new(),
            start_at_ms: 0,
            reset_at_ms: None,
            window_minutes: None,
            plan_type: None,
            ordinal: 0,
        };
        assert(r.deep_view() =~= empty_window_segment());
        r
    }
}

impl WindowSegment {
    /// A copy of the record.
    pub fn copy(&self) -> (r: Self)
        ensures
            r.deep_view() == self.deep_view(),
    {
        WindowSegment {
            id: self.id.clone(),
            account_key: copy_option(&self.account_key),
            limit_id: copy_option(&self.limit_id),
            window_kind: self.window_kind.clone(),
            start_at_ms: self.start_at_ms,
            reset_at_ms: self.reset_at_ms,
            window_minutes: self.window_minutes,
            plan_type: copy_option(&self.plan_type),
            ordinal: self.ordinal,
        }
    }
}

/// The account, and the tokens that it counts by day.
#[derive(Debug)]
pub struct AccountContext {
    pub account_key: Option<String>,
    pub auth_kind: Option<String>,
    pub provider: Option<String>,
    pub plan_type: Option<String>,
    pub daily_tokens: OrderedMap<String, i64>,
}

/// A `AccountContext` with its texts as sequences of characters.
#[verifier::ext_equal]
pub struct AccountContextView {
    pub account_key: Option<Seq<char>>,
    pub auth_kind: Option<Seq<char>>,
    pub provider: Option<Seq<char>>,
    pub plan_type: Option<Seq<char>>,
    pub daily_tokens: Seq<(Seq<char>, i64)>,
}

impl DeepView for AccountContext {
    type V = AccountContextView;

    open spec fn deep_view(&self) -> AccountContextView {
        AccountContextView {
            account_key: self.account_key.deep_view(),
            auth_kind: self.auth_kind.deep_view(),
            provider: self.provider.deep_view(),
            plan_type: self.plan_type.deep_view(),
            daily_tokens: self.daily_tokens.deep_view(),
        }
    }
}

/// A `AccountContext` of which nothing is known.
pub open spec fn empty_account_context() -> AccountContextView {
    AccountContextView {
        account_key: None,
        auth_kind: None,
        provider: None,
        plan_type: None,
        daily_tokens: Seq::empty(),
    }
}

impl Default for AccountContext {
    fn default() -> (r: Self)
        ensures
            r.deep_view() == empty_account_context(),
    {
        let r = AccountContext {
            account_key: None,
            auth_kind: None,
            provider: None,
            plan_type: None,
            daily_tokens: OrderedMap::new(),
        };
        assert(r.deep_view() =~= empty_account_context());
        r
    }
}

/// Tokens and amounts, in millionths, and how far the amounts are known.
#[derive(Debug)]
pub struct Metric {
    pub tokens: TokenCounts,
    pub credit_micros: i64,
    pub api_usd_micros: i64,
    pub has_usage: bool,
    pub credit_known: bool,
    pub api_known: bool,
    pub credit_partial: bool,
    pub api_partial: bool,
    pub quality: TextSet,
}

/// A `Metric` with its texts as sequences of characters.
#[verifier::ext_equal]
pub struct MetricView {
    pub tokens: TokenCounts,
    pub credit_micros: i64,
    pub api_usd_micros: i64,
    pub has_usage: bool,
    pub credit_known: bool,
    pub api_known: bool,
    pub credit_partial: bool,
    pub api_partial: bool,
    pub quality: Seq<Seq<char>>,
}

impl DeepView for Metric {
    type V = MetricView;

    open spec fn deep_view(&self) -> MetricView {
        MetricView {
            tokens: self.tokens,
            credit_micros: self.credit_micros,
            api_usd_micros: self.api_usd_micros,
            has_usage: self.has_usage,
            credit_known: self.credit_known,
            api_known: self.api_known,
            credit_partial: self.credit_partial,
            api_partial: self.api_partial,
            quality: self.quality.deep_view(),
        }
    }
}

/// A `Metric` of which nothing is known.
pub open spec fn empty_metric() -> MetricView {
    MetricView {
        tokens: no_tokens(),
        credit_micros: 0,
        api_usd_micros: 0,
        has_usage: false,
        credit_known: false,
        api_known: false,
        credit_partial: false,
        api_partial: false,
        quality: Seq::empty(),
    }
}

impl Default for Metric {
    fn default() -> (r: Self)
        ensures
            r.deep_view() == empty_metric(),
    {
        let r = Metric {
            tokens: TokenCounts::default(),
            credit_micros: 0,
            api_usd_micros: 0,
            has_usage: false,
            credit_known: false,
            api_known: false,
            credit_partial: false,
            api_partial: false,
            quality: TextSet::new(),
        };
        assert(r.deep_view() =~= empty_metric());
        r
    }
}

/// A percentage that the service reported, and the rank of its source.
#[derive(Debug)]
pub struct OfficialPoint {
    pub percent: Float,
    pub source: String,
    pub priority: u8,
}

/// A `OfficialPoint` with its texts as sequences of characters.
#[verifier::ext_equal]
pub struct OfficialPointView {
    pub percent: Float,
    pub source: Seq<char>,
    pub priority: u8,
}

impl DeepView for OfficialPoint {
    type V = OfficialPointView;

    open spec fn deep_view(&self) -> OfficialPointView {
        OfficialPointView {
            percent: self.percent,
            source: self.source@,
            priority: self.priority,
        }
    }
}

/// What is known of a minute in a window.
#[derive(Debug)]
pub struct MinuteBucket {
    pub minute_start_ms: i64,
    pub local_date: String,
    pub window_id: Option<String>,
    pub window_kind: Option<String>,
    pub window_start_ms: Option<i64>,
    pub resets_at_ms: Option<i64>,
    pub reset_marker: bool,
    pub account_key: Option<String>,
    pub plan_type: Option<String>,
    pub provider: Option<String>,
    pub metric: Metric,
    pub official: Option<OfficialPoint>,
    pub quality: TextSet,
}

/// A `MinuteBucket` with its texts as sequences of characters.
#[verifier::ext_equal]
pub struct MinuteBucketView {
    pub minute_start_ms: i64,
    pub local_date: Seq<char>,
    pub window_id: Option<Seq<char>>,
    pub window_kind: Option<Seq<char>>,
    pub window_start_ms: Option<i64>,
    pub resets_at_ms: Option<i64>,
    pub reset_marker: bool,
    pub account_key: Option<Seq<char>>,
    pub plan_type: Option<Seq<char>>,
    pub provider: Option<Seq<char>>,
    pub metric: MetricView,
    pub official: Option<OfficialPointView>,
    pub quality: Seq<Seq<char>>,
}

impl DeepView for MinuteBucket {
    type V = MinuteBucketView;

    open spec fn deep_view(&self) -> MinuteBucketView {
        MinuteBucketView {
            minute_start_ms: self.minute_start_ms,
            local_date: self.local_date@,
            window_id: self.window_id.deep_view(),
            window_kind: self.window_kind.deep_view(),
            window_start_ms: self.window_start_ms,
            resets_at_ms: self.resets_at_ms,
            reset_marker: self.reset_marker,
            account_key: self.account_key.deep_view(),
            plan_type: self.plan_type.deep_view(),
            provider: self.provider.deep_view(),
            metric: self.metric.deep_view(),
            official: self.official.deep_view(),
            quality: self.quality.deep_view(),
        }
    }
}

/// A `MinuteBucket` of which nothing is known.
pub open spec fn empty_minute_bucket() -> MinuteBucketView {
    MinuteBucketView {
        minute_start_ms: 0,
        local_date: Seq::empty(),
        window_id: None,
        window_kind: None,
        window_start_ms: None,
        resets_at_ms: None,
        reset_marker: false,
        account_key: None,
        plan_type: None,
        provider: None,
        metric: empty_metric(),
        official: None,
        quality: Seq::empty(),
    }
}

impl Default for MinuteBucket {
    fn default() -> (r: Self)
        ensures
            r.deep_view() == empty_minute_bucket(),
    {
        let r = MinuteBucket {
            minute_start_ms: 0,
            local_date: String::new(),
            window_id: None,
            window_kind: None,
            window_start_ms: None,
            resets_at_ms: None,
            reset_marker: false,
            account_key: None,
            plan_type: None,
            provider: None,
            metric: Metric::default(),
            official: None,
            quality: TextSet::new(),
        };
        assert(r.deep_view() =~= empty_minute_bucket());
        r
    }
}

/// The usage under a plan.
#[derive(Debug)]
pub struct PlanAggregate {
    pub plan_type: Option<String>,
    pub capacity_profile: Option<String>,
    pub metric: Metric,
}

/// A `PlanAggregate` with its texts as sequences of characters.
#[verifier::ext_equal]
pub struct PlanAggregateView {
    pub plan_type: Option<Seq<char>>,
    pub capacity_profile: Option<Seq<char>>,
    pub metric: MetricView,
}

impl DeepView for PlanAggregate {
    type V = PlanAggregateView;

    open spec fn deep_view(&self) -> PlanAggregateView {
        PlanAggregateView {
            plan_type: self.plan_type.deep_view(),
            capacity_profile: self.capacity_profile.deep_view(),
            metric: self.metric.deep_view(),
        }
    }
}

/// A `PlanAggregate` of which nothing is known.
pub open spec fn empty_plan_aggregate() -> PlanAggregateView {
    PlanAggregateView {
        plan_type: None,
        capacity_profile: None,
        metric: empty_metric(),
    }
}

impl Default for PlanAggregate {
    fn default() -> (r: Self)
        ensures
            r.deep_view() == empty_plan_aggregate(),
    {
        let r = PlanAggregate {
            plan_type: None,
            capacity_profile: None,
            metric: Metric::default(),
        };
        assert(r.deep_view() =~= empty_plan_aggregate());
        r
    }
}

/// What is known of a day.
#[derive(Debug)]
pub struct DayAggregate {
    pub local_date: String,
    pub metric: Metric,
    pub official_start: Option<Float>,
    pub official_end: Option<Float>,
    pub rises: Vec<Rise>,
    pub reset_count: i64,
    pub plans: OrderedMap<String, PlanAggregate>,
    pub quality: TextSet,
}

/// A `DayAggregate` with its texts as sequences of characters.
#[verifier::ext_equal]
pub struct DayAggregateView {
    pub local_date: Seq<char>,
    pub metric: MetricView,
    pub official_start: Option<Float>,
    pub official_end: Option<Float>,
    pub rises: Seq<Rise>,
    pub reset_count: i64,
    pub plans: Seq<(Seq<char>, PlanAggregateView)>,
    pub quality: Seq<Seq<char>>,
}

impl DeepView for DayAggregate {
    type V = DayAggregateView;

    open spec fn deep_view(&self) -> DayAggregateView {
        DayAggregateView {
            local_date: self.local_date@,
            metric: self.metric.deep_view(),
            official_start: self.official_start,
            official_end: self.official_end,
            rises: self.rises@,
            reset_count: self.reset_count,
            plans: self.plans.deep_view(),
            quality: self.quality.deep_view(),
        }
    }
}

/// A `DayAggregate` of which nothing is known.
pub open spec fn empty_day_aggregate() -> DayAggregateView {
    DayAggregateView {
        local_date: Seq::empty(),
        metric: empty_metric(),
        official_start: None,
        official_end: None,
        rises: Seq::empty(),
        reset_count: 0,
        plans: Seq::empty(),
        quality: Seq::empty(),
    }
}

impl Default for DayAggregate {
    fn default() -> (r: Self)
        ensures
            r.deep_view() == empty_day_aggregate(),
    {
        let r = DayAggregate {
            local_date: String::new(),
            metric: Metric::default(),
            official_start: None,
            official_end: None,
            rises: Vec::new(),
            reset_count: 0,
            plans: OrderedMap::new(),
            quality: TextSet::new(),
        };
        assert(r.deep_view() =~= empty_day_aggregate());
        r
    }
}

/// What is known of a turn of a session, on one day and in one window.
#[derive(Debug)]
pub struct SessionAggregate {
    pub local_date: String,
    pub root_session_id: Option<String>,
    pub session_id: Option<String>,
    pub turn_id: Option<String>,
    pub title: Option<String>,
    pub relation: Option<String>,
    pub started_at_ms: Option<i64>,
    pub ended_at_ms: Option<i64>,
    pub window_id: Option<String>,
    pub account_key: Option<String>,
    pub plan_type: Option<String>,
    pub provider: Option<String>,
    pub metric: Metric,
    pub models: OrderedMap<(String, (String, String)), Metric>,
    pub tiers: TextSet,
    pub observed_start_ms: Option<i64>,
    pub observed_end_ms: Option<i64>,
    pub quality: TextSet,
}

/// A `SessionAggregate` with its texts as sequences of characters.
#[verifier::ext_equal]
pub struct SessionAggregateView {
    pub local_date: Seq<char>,
    pub root_session_id: Option<Seq<char>>,
    pub session_id: Option<Seq<char>>,
    pub turn_id: Option<Seq<char>>,
    pub title: Option<Seq<char>>,
    pub relation: Option<Seq<char>>,
    pub started_at_ms: Option<i64>,
    pub ended_at_ms: Option<i64>,
    pub window_id: Option<Seq<char>>,
    pub account_key: Option<Seq<char>>,
    pub plan_type: Option<Seq<char>>,
    pub provider: Option<Seq<char>>,
    pub metric: MetricView,
    pub models: Seq<((Seq<char>, (Seq<char>, Seq<char>)), MetricView)>,
    pub tiers: Seq<Seq<char>>,
    pub observed_start_ms: Option<i64>,
    pub observed_end_ms: Option<i64>,
    pub quality: Seq<Seq<char>>,
}

impl DeepView for SessionAggregate {
    type V = SessionAggregateView;

    open spec fn deep_view(&self) -> SessionAggregateView {
        SessionAggregateView {
            local_date: self.local_date@,
            root_session_id: self.root_session_id.deep_view(),
            session_id: self.session_id.deep_view(),
            turn_id: self.turn_id.deep_view(),
            title: self.title.deep_view(),
            relation: self.relation.deep_view(),
            started_at_ms: self.started_at_ms,
            ended_at_ms: self.ended_at_ms,
            window_id: self.window_id.deep_view(),
            account_key: self.account_key.deep_view(),
            plan_type: self.plan_type.deep_view(),
            provider: self.provider.deep_view(),
            metric: self.metric.deep_view(),
            models: self.models.deep_view(),
            tiers: self.tiers.deep_view(),
            observed_start_ms: self.observed_start_ms,
            observed_end_ms: self.observed_end_ms,
            quality: self.quality.deep_view(),
        }
    }
}

/// A `SessionAggregate` of which nothing is known.
pub open spec fn empty_session_aggregate() -> SessionAggregateView {
    SessionAggregateView {
        local_date: Seq::empty(),
        root_session_id: None,
        session_id: None,
        turn_id: None,
        title: None,
        relation: None,
        started_at_ms: None,
        ended_at_ms: None,
        window_id: None,
        account_key: None,
        plan_type: None,
        provider: None,
        metric: empty_metric(),
        models: Seq::empty(),
        tiers: Seq::empty(),
        observed_start_ms: None,
        observed_end_ms: None,
        quality: Seq::empty(),
    }
}

impl Default for SessionAggregate {
    fn default() -> (r: Self)
        ensures
            r.deep_view() == empty_session_aggregate(),
    {
        let r = SessionAggregate {
            local_date: String::new(),
            root_session_id: None,
            session_id: None,
            turn_id: None,
            title: None,
            relation: None,
            started_at_ms: None,
            ended_at_ms: None,
            window_id: None,
            account_key: None,
            plan_type: None,
            provider: None,
            metric: Metric::default(),
            models: OrderedMap::new(),
            tiers: TextSet::new(),
            observed_start_ms: None,
            observed_end_ms: None,
            quality: TextSet::new(),
        };
        assert(r.deep_view() =~= empty_session_aggregate());
        r
    }
}

/// What is known of a quota window.
#[derive(Debug)]
pub struct WindowAggregate {
    pub segment: WindowSegment,
    pub metric: Metric,
    pub plans: OrderedMap<String, PlanAggregate>,
    pub official_start: Option<Float>,
    pub official_end: Option<Float>,
    pub rises: Vec<Rise>,
    pub quality: TextSet,
}

/// A `WindowAggregate` with its texts as sequences of characters.
#[verifier::ext_equal]
pub struct WindowAggregateView {
    pub segment: WindowSegmentView,
    pub metric: MetricView,
    pub plans: Seq<(Seq<char>, PlanAggregateView)>,
    pub official_start: Option<Float>,
    pub official_end: Option<Float>,
    pub rises: Seq<Rise>,
    pub quality: Seq<Seq<char>>,
}

impl DeepView for WindowAggregate {
    type V = WindowAggregateView;

    open spec fn deep_view(&self) -> WindowAggregateView {
        WindowAggregateView {
            segment: self.segment.deep_view(),
            metric: self.metric.deep_view(),
            plans: self.plans.deep_view(),
            official_start: self.official_start,
            official_end: self.official_end,
            rises: self.rises@,
            quality: self.quality.deep_view(),
        }
    }
}

/// A `WindowAggregate` of which nothing is known.
pub open spec fn empty_window_aggregate() -> WindowAggregateView {
    WindowAggregateView {
        segment: empty_window_segment(),
        metric: empty_metric(),
        plans: Seq::empty(),
        official_start: None,
        official_end: None,
        rises: Seq::empty(),
        quality: Seq::empty(),
    }
}

impl Default for WindowAggregate {
    fn default() -> (r: Self)
        ensures
            r.deep_view() == empty_window_aggregate(),
    {
        let r = WindowAggregate {
            segment: WindowSegment::default(),
            metric: Metric::default(),
            plans: OrderedMap::new(),
            official_start: None,
            official_end: None,
            rises: Vec::new(),
            quality: TextSet::new(),
        };
        assert(r.deep_view() =~= empty_window_aggregate());
        r
    }
}

/// A weekly credit, given by its place among floating-point numbers, and for whom and when it
/// holds.
#[derive(Debug)]
pub struct Capacity {
    pub profile: String,
    pub account_key: Option<String>,
    pub plan_type: Option<String>,
    pub credit: i64,
    pub from: i64,
    pub to: Option<i64>,
}

/// A `Capacity` with its texts as sequences of characters.
#[verifier::ext_equal]
pub struct CapacityView {
    pub profile: Seq<char>,
    pub account_key: Option<Seq<char>>,
    pub plan_type: Option<Seq<char>>,
    pub credit: i64,
    pub from: i64,
    pub to: Option<i64>,
}

impl DeepView for Capacity {
    type V = CapacityView;

    open spec fn deep_view(&self) -> CapacityView {
        CapacityView {
            profile: self.profile@,
            account_key: self.account_key.deep_view(),
            plan_type: self.plan_type.deep_view(),
            credit: self.credit,
            from: self.from,
            to: self.to,
        }
    }
}

} // verus!
