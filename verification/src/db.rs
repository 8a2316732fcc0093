//! The records that are kept: facts collected from the sources, and what is derived from them.
use crate::json::Float;
use crate::text::{copy_option, first_some};
use vstd::prelude::*;
use vstd::string::*;

pub mod laws;
pub mod source_jsonl;

verus! {

/// A fact read from a session log: a session, a turn, a usage of tokens or a quota.
#[derive(Debug)]
pub struct SourceJsonlRecord {
    pub source_key: String,
    pub kind: String,
    pub observed_at_ms: i64,
    pub last_seen_at_ms: Option<i64>,
    pub session_id: Option<String>,
    pub parent_session_id: Option<String>,
    pub root_session_id: Option<String>,
    pub turn_id: Option<String>,
    pub relation: Option<String>,
    pub title: Option<String>,
    pub started_at_ms: Option<i64>,
    pub ended_at_ms: Option<i64>,
    pub model: Option<String>,
    pub service_tier: Option<String>,
    pub reasoning_effort: Option<String>,
    pub provider: Option<String>,
    pub plan_type: Option<String>,
    pub input_tokens: Option<i64>,
    pub cache_read_tokens: Option<i64>,
    pub cache_write_tokens: Option<i64>,
    pub output_tokens: Option<i64>,
    pub reasoning_tokens: Option<i64>,
    pub total_tokens: Option<i64>,
    pub limit_id: Option<String>,
    pub window_kind: Option<String>,
    pub used_percent: Option<Float>,
    pub window_minutes: Option<i64>,
    pub resets_at_ms: Option<i64>,
    pub quality: Option<String>,
}

/// A `SourceJsonlRecord` with its texts as sequences of characters.
#[verifier::ext_equal]
pub struct SourceJsonlRecordView {
    pub source_key: Seq<char>,
    pub kind: Seq<char>,
    pub observed_at_ms: i64,
    pub last_seen_at_ms: Option<i64>,
    pub session_id: Option<Seq<char>>,
    pub parent_session_id: Option<Seq<char>>,
    pub root_session_id: Option<Seq<char>>,
    pub turn_id: Option<Seq<char>>,
    pub relation: Option<Seq<char>>,
    pub title: Option<Seq<char>>,
    pub started_at_ms: Option<i64>,
    pub ended_at_ms: Option<i64>,
    pub model: Option<Seq<char>>,
    pub service_tier: Option<Seq<char>>,
    pub reasoning_effort: Option<Seq<char>>,
    pub provider: Option<Seq<char>>,
    pub plan_type: Option<Seq<char>>,
    pub input_tokens: Option<i64>,
    pub cache_read_tokens: Option<i64>,
    pub cache_write_tokens: Option<i64>,
    pub output_tokens: Option<i64>,
    pub reasoning_tokens: Option<i64>,
    pub total_tokens: Option<i64>,
    pub limit_id: Option<Seq<char>>,
    pub window_kind: Option<Seq<char>>,
    pub used_percent: Option<Float>,
    pub window_minutes: Option<i64>,
    pub resets_at_ms: Option<i64>,
    pub quality: Option<Seq<char>>,
}

impl DeepView for SourceJsonlRecord {
    type V = SourceJsonlRecordView;

    open spec fn deep_view(&self) -> SourceJsonlRecordView {
        SourceJsonlRecordView {
            source_key: self.source_key@,
            kind: self.kind@,
            observed_at_ms: self.observed_at_ms,
            last_seen_at_ms: self.last_seen_at_ms,
            session_id: self.session_id.deep_view(),
            parent_session_id: self.parent_session_id.deep_view(),
            root_session_id: self.root_session_id.deep_view(),
            turn_id: self.turn_id.deep_view(),
            relation: self.relation.deep_view(),
            title: self.title.deep_view(),
            started_at_ms: self.started_at_ms,
            ended_at_ms: self.ended_at_ms,
            model: self.model.deep_view(),
            service_tier: self.service_tier.deep_view(),
            reasoning_effort: self.reasoning_effort.deep_view(),
            provider: self.provider.deep_view(),
            plan_type: self.plan_type.deep_view(),
            input_tokens: self.input_tokens,
            cache_read_tokens: self.cache_read_tokens,
            cache_write_tokens: self.cache_write_tokens,
            output_tokens: self.output_tokens,
            reasoning_tokens: self.reasoning_tokens,
            total_tokens: self.total_tokens,
            limit_id: self.limit_id.deep_view(),
            window_kind: self.window_kind.deep_view(),
            used_percent: self.used_percent,
            window_minutes: self.window_minutes,
            resets_at_ms: self.resets_at_ms,
            quality: self.quality.deep_view(),
        }
    }
}

/// A `SourceJsonlRecord` of which nothing is known.
pub open spec fn empty_source_jsonl_record() -> SourceJsonlRecordView {
    SourceJsonlRecordView {
        source_key: Seq::empty(),
        kind: Seq::empty(),
        observed_at_ms: 0,
        last_seen_at_ms: None,
        session_id: None,
        parent_session_id: None,
        root_session_id: None,
        turn_id: None,
        relation: None,
        title: None,
        started_at_ms: None,
        ended_at_ms: None,
        model: None,
        service_tier: None,
        reasoning_effort: None,
        provider: None,
        plan_type: None,
        input_tokens: None,
        cache_read_tokens: None,
        cache_write_tokens: None,
        output_tokens: None,
        reasoning_tokens: None,
        total_tokens: None,
        limit_id: None,
        window_kind: None,
        used_percent: None,
        window_minutes: None,
        resets_at_ms: None,
        quality: None,
    }
}

impl Default for SourceJsonlRecord {
    fn default() -> (r: Self)
        ensures
            r.deep_view() == empty_source_jsonl_record(),
    {
        let r = SourceJsonlRecord {
            source_key: String::new(),
            kind: String::new(),
            observed_at_ms: 0,
            last_seen_at_ms: None,
            session_id: None,
            parent_session_id: None,
            root_session_id: None,
            turn_id: None,
            relation: None,
            title: None,
            started_at_ms: None,
            ended_at_ms: None,
            model: None,
            service_tier: None,
            reasoning_effort: None,
            provider: None,
            plan_type: None,
            input_tokens: None,
            cache_read_tokens: None,
            cache_write_tokens: None,
            output_tokens: None,
            reasoning_tokens: None,
            total_tokens: None,
            limit_id: None,
            window_kind: None,
            used_percent: None,
            window_minutes: None,
            resets_at_ms: None,
            quality: None,
        };
        assert(r.deep_view() =~= empty_source_jsonl_record());
        r
    }
}

impl SourceJsonlRecord {
    /// A copy of the record.
    pub fn copy(&self) -> (r: Self)
        ensures
            r.deep_view() == self.deep_view(),
    {
        SourceJsonlRecord {
            source_key: self.source_key.clone(),
            kind: self.kind.clone(),
            observed_at_ms: self.observed_at_ms,
            last_seen_at_ms: self.last_seen_at_ms,
            session_id: copy_option(&self.session_id),
            parent_session_id: copy_option(&self.parent_session_id),
            root_session_id: copy_option(&self.root_session_id),
            turn_id: copy_option(&self.turn_id),
            relation: copy_option(&self.relation),
            title: copy_option(&self.title),
            started_at_ms: self.started_at_ms,
            ended_at_ms: self.ended_at_ms,
            model: copy_option(&self.model),
            service_tier: copy_option(&self.service_tier),
            reasoning_effort: copy_option(&self.reasoning_effort),
            provider: copy_option(&self.provider),
            plan_type: copy_option(&self.plan_type),
            input_tokens: self.input_tokens,
            cache_read_tokens: self.cache_read_tokens,
            cache_write_tokens: self.cache_write_tokens,
            output_tokens: self.output_tokens,
            reasoning_tokens: self.reasoning_tokens,
            total_tokens: self.total_tokens,
            limit_id: copy_option(&self.limit_id),
            window_kind: copy_option(&self.window_kind),
            used_percent: self.used_percent,
            window_minutes: self.window_minutes,
            resets_at_ms: self.resets_at_ms,
            quality: copy_option(&self.quality),
        }
    }
}

/// A fact read from the app server: an account, a quota or the usage of an account.
#[derive(Debug)]
pub struct SourceAppServerRecord {
    pub source_key: String,
    pub kind: String,
    pub first_seen_at_ms: i64,
    pub last_seen_at_ms: i64,
    pub account_key: Option<String>,
    pub account_label: Option<String>,
    pub auth_kind: Option<String>,
    pub provider: Option<String>,
    pub plan_type: Option<String>,
    pub limit_id: Option<String>,
    pub window_kind: Option<String>,
    pub used_percent: Option<Float>,
    pub window_minutes: Option<i64>,
    pub resets_at_ms: Option<i64>,
    pub lifetime_tokens: Option<i64>,
    pub daily_tokens_json: Option<String>,
    pub freshness: Option<String>,
    pub status: String,
}

/// A `SourceAppServerRecord` with its texts as sequences of characters.
#[verifier::ext_equal]
pub struct SourceAppServerRecordView {
    pub source_key: Seq<char>,
    pub kind: Seq<char>,
    pub first_seen_at_ms: i64,
    pub last_seen_at_ms: i64,
    pub account_key: Option<Seq<char>>,
    pub account_label: Option<Seq<char>>,
    pub auth_kind: Option<Seq<char>>,
    pub provider: Option<Seq<char>>,
    pub plan_type: Option<Seq<char>>,
    pub limit_id: Option<Seq<char>>,
    pub window_kind: Option<Seq<char>>,
    pub used_percent: Option<Float>,
    pub window_minutes: Option<i64>,
    pub resets_at_ms: Option<i64>,
    pub lifetime_tokens: Option<i64>,
    pub daily_tokens_json: Option<Seq<char>>,
    pub freshness: Option<Seq<char>>,
    pub status: Seq<char>,
}

impl DeepView for SourceAppServerRecord {
    type V = SourceAppServerRecordView;

    open spec fn deep_view(&self) -> SourceAppServerRecordView {
        SourceAppServerRecordView {
            source_key: self.source_key@,
            kind: self.kind@,
            first_seen_at_ms: self.first_seen_at_ms,
            last_seen_at_ms: self.last_seen_at_ms,
            account_key: self.account_key.deep_view(),
            account_label: self.account_label.deep_view(),
            auth_kind: self.auth_kind.deep_view(),
            provider: self.provider.deep_view(),
            plan_type: self.plan_type.deep_view(),
            limit_id: self.limit_id.deep_view(),
            window_kind: self.window_kind.deep_view(),
            used_percent: self.used_percent,
            window_minutes: self.window_minutes,
            resets_at_ms: self.resets_at_ms,
            lifetime_tokens: self.lifetime_tokens,
            daily_tokens_json: self.daily_tokens_json.deep_view(),
            freshness: self.freshness.deep_view(),
            status: self.status@,
        }
    }
}

/// A `SourceAppServerRecord` of which nothing is known.
pub open spec fn empty_source_app_server_record() -> SourceAppServerRecordView {
    SourceAppServerRecordView {
        source_key: Seq::empty(),
        kind: Seq::empty(),
        first_seen_at_ms: 0,
        last_seen_at_ms: 0,
        account_key: None,
        account_label: None,
        auth_kind: None,
        provider: None,
        plan_type: None,
        limit_id: None,
        window_kind: None,
        used_percent: None,
        window_minutes: None,
        resets_at_ms: None,
        lifetime_tokens: None,
        daily_tokens_json: None,
        freshness: None,
        status: Seq::empty(),
    }
}

impl Default for SourceAppServerRecord {
    fn default() -> (r: Self)
        ensures
            r.deep_view() == empty_source_app_server_record(),
    {
        let r = SourceAppServerRecord {
            source_key: String::new(),
            kind: String::new(),
            first_seen_at_ms: 0,
            last_seen_at_ms: 0,
            account_key: None,
            account_label: None,
            auth_kind: None,
            provider: None,
            plan_type: None,
            limit_id: None,
            window_kind: None,
            used_percent: None,
            window_minutes: None,
            resets_at_ms: None,
            lifetime_tokens: None,
            daily_tokens_json: None,
            freshness: None,
            status: String::new(),
        };
        assert(r.deep_view() =~= empty_source_app_server_record());
        r
    }
}

impl SourceAppServerRecord {
    /// A copy of the record.
    pub fn copy(&self) -> (r: Self)
        ensures
            r.deep_view() == self.deep_view(),
    {
        SourceAppServerRecord {
            source_key: self.source_key.clone(),
            kind: self.kind.clone(),
            first_seen_at_ms: self.first_seen_at_ms,
            last_seen_at_ms: self.last_seen_at_ms,
            account_key: copy_option(&self.account_key),
            account_label: copy_option(&self.account_label),
            auth_kind: copy_option(&self.auth_kind),
            provider: copy_option(&self.provider),
            plan_type: copy_option(&self.plan_type),
            limit_id: copy_option(&self.limit_id),
            window_kind: copy_option(&self.window_kind),
            used_percent: self.used_percent,
            window_minutes: self.window_minutes,
            resets_at_ms: self.resets_at_ms,
            lifetime_tokens: self.lifetime_tokens,
            daily_tokens_json: copy_option(&self.daily_tokens_json),
            freshness: copy_option(&self.freshness),
            status: self.status.clone(),
        }
    }
}

/// A row of an independent calculation of usage.
#[derive(Debug)]
pub struct SourceCcusageRecord {
    pub source_key: String,
    pub run_at_ms: i64,
    pub range_start_ms: i64,
    pub range_end_ms: i64,
    pub scope: String,
    pub scope_key: String,
    pub pricing_scheme: String,
    pub speed: String,
    pub input_tokens: Option<i64>,
    pub cache_read_tokens: Option<i64>,
    pub cache_write_tokens: Option<i64>,
    pub output_tokens: Option<i64>,
    pub reasoning_tokens: Option<i64>,
    pub total_tokens: Option<i64>,
    pub amount: Option<Float>,
    pub model_breakdown_json: Option<String>,
    pub ccusage_version: Option<String>,
    pub pricing_version: Option<String>,
    pub status: String,
}

/// A `SourceCcusageRecord` with its texts as sequences of characters.
#[verifier::ext_equal]
pub struct SourceCcusageRecordView {
    pub source_key: Seq<char>,
    pub run_at_ms: i64,
    pub range_start_ms: i64,
    pub range_end_ms: i64,
    pub scope: Seq<char>,
    pub scope_key: Seq<char>,
    pub pricing_scheme: Seq<char>,
    pub speed: Seq<char>,
    pub input_tokens: Option<i64>,
    pub cache_read_tokens: Option<i64>,
    pub cache_write_tokens: Option<i64>,
    pub output_tokens: Option<i64>,
    pub reasoning_tokens: Option<i64>,
    pub total_tokens: Option<i64>,
    pub amount: Option<Float>,
    pub model_breakdown_json: Option<Seq<char>>,
    pub ccusage_version: Option<Seq<char>>,
    pub pricing_version: Option<Seq<char>>,
    pub status: Seq<char>,
}

impl DeepView for SourceCcusageRecord {
    type V = SourceCcusageRecordView;

    open spec fn deep_view(&self) -> SourceCcusageRecordView {
        SourceCcusageRecordView {
            source_key: self.source_key@,
            run_at_ms: self.run_at_ms,
            range_start_ms: self.range_start_ms,
            range_end_ms: self.range_end_ms,
            scope: self.scope@,
            scope_key: self.scope_key@,
            pricing_scheme: self.pricing_scheme@,
            speed: self.speed@,
            input_tokens: self.input_tokens,
            cache_read_tokens: self.cache_read_tokens,
            cache_write_tokens: self.cache_write_tokens,
            output_tokens: self.output_tokens,
            reasoning_tokens: self.reasoning_tokens,
            total_tokens: self.total_tokens,
            amount: self.amount,
            model_breakdown_json: self.model_breakdown_json.deep_view(),
            ccusage_version: self.ccusage_version.deep_view(),
            pricing_version: self.pricing_version.deep_view(),
            status: self.status@,
        }
    }
}

/// A `SourceCcusageRecord` of which nothing is known.
pub open spec fn empty_source_ccusage_record() -> SourceCcusageRecordView {
    SourceCcusageRecordView {
        source_key: Seq::empty(),
        run_at_ms: 0,
        range_start_ms: 0,
        range_end_ms: 0,
        scope: Seq::empty(),
        scope_key: Seq::empty(),
        pricing_scheme: Seq::empty(),
        speed: Seq::empty(),
        input_tokens: None,
        cache_read_tokens: None,
        cache_write_tokens: None,
        output_tokens: None,
        reasoning_tokens: None,
        total_tokens: None,
        amount: None,
        model_breakdown_json: None,
        ccusage_version: None,
        pricing_version: None,
        status: Seq::empty(),
    }
}

impl Default for SourceCcusageRecord {
    fn default() -> (r: Self)
        ensures
            r.deep_view() == empty_source_ccusage_record(),
    {
        let r = SourceCcusageRecord {
            source_key: String::new(),
            run_at_ms: 0,
            range_start_ms: 0,
            range_end_ms: 0,
            scope: String::new(),
            scope_key: String::new(),
            pricing_scheme: String::new(),
            speed: String::new(),
            input_tokens: None,
            cache_read_tokens: None,
            cache_write_tokens: None,
            output_tokens: None,
            reasoning_tokens: None,
            total_tokens: None,
            amount: None,
            model_breakdown_json: None,
            ccusage_version: None,
            pricing_version: None,
            status: String::new(),
        };
        assert(r.deep_view() =~= empty_source_ccusage_record());
        r
    }
}

/// Credit that was used, in millionths, of a weekly credit, which is given by its place among
/// floating-point numbers.
#[derive(Clone, Copy, Debug, PartialEq, Eq, Structural)]
pub struct Share {
    pub credit_micros: i64,
    pub weekly_credit: i64,
}

/// Tokens that were seen locally, of those that the account counts.
#[derive(Clone, Copy, Debug, PartialEq, Eq, Structural)]
pub struct Coverage {
    pub local: i64,
    pub remote: i64,
}

/// A rise of the official percentage.
#[derive(Clone, Copy, Debug, PartialEq, Eq, Structural)]
pub struct Rise {
    pub from: Float,
    pub to: Float,
}

/// The usage of a day.
#[derive(Debug)]
pub struct UsageDailyRecord {
    pub local_date: String,
    pub account_key: Option<String>,
    pub auth_kind: Option<String>,
    pub plan_type: Option<String>,
    pub capacity_profile: Option<String>,
    pub input_tokens: Option<i64>,
    pub cache_read_tokens: Option<i64>,
    pub cache_write_tokens: Option<i64>,
    pub output_tokens: Option<i64>,
    pub reasoning_tokens: Option<i64>,
    pub total_tokens: Option<i64>,
    pub credit_micros: Option<i64>,
    pub api_usd_micros: Option<i64>,
    pub local_share: Option<Share>,
    pub account_tokens: Option<i64>,
    pub unobserved_tokens: Option<i64>,
    pub coverage: Option<Coverage>,
    pub account_token_freshness: Option<String>,
    pub official_percent_start: Option<Float>,
    pub official_percent_end: Option<Float>,
    pub official_rises: Vec<Rise>,
    pub reset_count: i64,
    pub quality: Option<String>,
}

/// A `UsageDailyRecord` with its texts as sequences of characters.
#[verifier::ext_equal]
pub struct UsageDailyRecordView {
    pub local_date: Seq<char>,
    pub account_key: Option<Seq<char>>,
    pub auth_kind: Option<Seq<char>>,
    pub plan_type: Option<Seq<char>>,
    pub capacity_profile: Option<Seq<char>>,
    pub input_tokens: Option<i64>,
    pub cache_read_tokens: Option<i64>,
    pub cache_write_tokens: Option<i64>,
    pub output_tokens: Option<i64>,
    pub reasoning_tokens: Option<i64>,
    pub total_tokens: Option<i64>,
    pub credit_micros: Option<i64>,
    pub api_usd_micros: Option<i64>,
    pub local_share: Option<Share>,
    pub account_tokens: Option<i64>,
    pub unobserved_tokens: Option<i64>,
    pub coverage: Option<Coverage>,
    pub account_token_freshness: Option<Seq<char>>,
    pub official_percent_start: Option<Float>,
    pub official_percent_end: Option<Float>,
    pub official_rises: Seq<Rise>,
    pub reset_count: i64,
    pub quality: Option<Seq<char>>,
}

impl DeepView for UsageDailyRecord {
    type V = UsageDailyRecordView;

    open spec fn deep_view(&self) -> UsageDailyRecordView {
        UsageDailyRecordView {
            local_date: self.local_date@,
            account_key: self.account_key.deep_view(),
            auth_kind: self.auth_kind.deep_view(),
            plan_type: self.plan_type.deep_view(),
            capacity_profile: self.capacity_profile.deep_view(),
            input_tokens: self.input_tokens,
            cache_read_tokens: self.cache_read_tokens,
            cache_write_tokens: self.cache_write_tokens,
            output_tokens: self.output_tokens,
            reasoning_tokens: self.reasoning_tokens,
            total_tokens: self.total_tokens,
            credit_micros: self.credit_micros,
            api_usd_micros: self.api_usd_micros,
            local_share: self.local_share,
            account_tokens: self.account_tokens,
            unobserved_tokens: self.unobserved_tokens,
            coverage: self.coverage,
            account_token_freshness: self.account_token_freshness.deep_view(),
            official_percent_start: self.official_percent_start,
            official_percent_end: self.official_percent_end,
            official_rises: self.official_rises@,
            reset_count: self.reset_count,
            quality: self.quality.deep_view(),
        }
    }
}

/// The usage of a minute.
#[derive(Debug)]
pub struct UsageMinuteRecord {
    pub bucket_key: String,
    pub minute_start_ms: i64,
    pub local_date: String,
    pub account_key: Option<String>,
    pub auth_kind: Option<String>,
    pub plan_type: Option<String>,
    pub provider: Option<String>,
    pub capacity_profile: Option<String>,
    pub window_id: Option<String>,
    pub window_kind: Option<String>,
    pub window_start_ms: Option<i64>,
    pub resets_at_ms: Option<i64>,
    pub reset_marker: bool,
    pub input_tokens: Option<i64>,
    pub cache_read_tokens: Option<i64>,
    pub cache_write_tokens: Option<i64>,
    pub output_tokens: Option<i64>,
    pub reasoning_tokens: Option<i64>,
    pub total_tokens: Option<i64>,
    pub credit_micros: Option<i64>,
    pub api_usd_micros: Option<i64>,
    pub official_used_percent: Option<Float>,
    pub official_source: Option<String>,
    pub quality: Option<String>,
}

/// A `UsageMinuteRecord` with its texts as sequences of characters.
#[verifier::ext_equal]
pub struct UsageMinuteRecordView {
    pub bucket_key: Seq<char>,
    pub minute_start_ms: i64,
    pub local_date: Seq<char>,
    pub account_key: Option<Seq<char>>,
    pub auth_kind: Option<Seq<char>>,
    pub plan_type: Option<Seq<char>>,
    pub provider: Option<Seq<char>>,
    pub capacity_profile: Option<Seq<char>>,
    pub window_id: Option<Seq<char>>,
    pub window_kind: Option<Seq<char>>,
    pub window_start_ms: Option<i64>,
    pub resets_at_ms: Option<i64>,
    pub reset_marker: bool,
    pub input_tokens: Option<i64>,
    pub cache_read_tokens: Option<i64>,
    pub cache_write_tokens: Option<i64>,
    pub output_tokens: Option<i64>,
    pub reasoning_tokens: Option<i64>,
    pub total_tokens: Option<i64>,
    pub credit_micros: Option<i64>,
    pub api_usd_micros: Option<i64>,
    pub official_used_percent: Option<Float>,
    pub official_source: Option<Seq<char>>,
    pub quality: Option<Seq<char>>,
}

impl DeepView for UsageMinuteRecord {
    type V = UsageMinuteRecordView;

    open spec fn deep_view(&self) -> UsageMinuteRecordView {
        UsageMinuteRecordView {
            bucket_key: self.bucket_key@,
            minute_start_ms: self.minute_start_ms,
            local_date: self.local_date@,
            account_key: self.account_key.deep_view(),
            auth_kind: self.auth_kind.deep_view(),
            plan_type: self.plan_type.deep_view(),
            provider: self.provider.deep_view(),
            capacity_profile: self.capacity_profile.deep_view(),
            window_id: self.window_id.deep_view(),
            window_kind: self.window_kind.deep_view(),
            window_start_ms: self.window_start_ms,
            resets_at_ms: self.resets_at_ms,
            reset_marker: self.reset_marker,
            input_tokens: self.input_tokens,
            cache_read_tokens: self.cache_read_tokens,
            cache_write_tokens: self.cache_write_tokens,
            output_tokens: self.output_tokens,
            reasoning_tokens: self.reasoning_tokens,
            total_tokens: self.total_tokens,
            credit_micros: self.credit_micros,
            api_usd_micros: self.api_usd_micros,
            official_used_percent: self.official_used_percent,
            official_source: self.official_source.deep_view(),
            quality: self.quality.deep_view(),
        }
    }
}

/// The usage of a quota window.
#[derive(Debug)]
pub struct UsageWindowRecord {
    pub window_id: String,
    pub account_key: Option<String>,
    pub limit_id: Option<String>,
    pub window_kind: String,
    pub window_start_ms: Option<i64>,
    pub resets_at_ms: Option<i64>,
    pub window_minutes: Option<i64>,
    pub auth_kind: Option<String>,
    pub plan_type: Option<String>,
    pub provider: Option<String>,
    pub capacity_profile: Option<String>,
    pub input_tokens: Option<i64>,
    pub cache_read_tokens: Option<i64>,
    pub cache_write_tokens: Option<i64>,
    pub output_tokens: Option<i64>,
    pub reasoning_tokens: Option<i64>,
    pub total_tokens: Option<i64>,
    pub credit_micros: Option<i64>,
    pub api_usd_micros: Option<i64>,
    pub local_share: Option<Share>,
    pub account_tokens: Option<i64>,
    pub unobserved_tokens: Option<i64>,
    pub coverage: Option<Coverage>,
    pub official_percent_start: Option<Float>,
    pub official_percent_end: Option<Float>,
    pub official_rises: Vec<Rise>,
    pub quality: Option<String>,
}

/// A `UsageWindowRecord` with its texts as sequences of characters.
#[verifier::ext_equal]
pub struct UsageWindowRecordView {
    pub window_id: Seq<char>,
    pub account_key: Option<Seq<char>>,
    pub limit_id: Option<Seq<char>>,
    pub window_kind: Seq<char>,
    pub window_start_ms: Option<i64>,
    pub resets_at_ms: Option<i64>,
    pub window_minutes: Option<i64>,
    pub auth_kind: Option<Seq<char>>,
    pub plan_type: Option<Seq<char>>,
    pub provider: Option<Seq<char>>,
    pub capacity_profile: Option<Seq<char>>,
    pub input_tokens: Option<i64>,
    pub cache_read_tokens: Option<i64>,
    pub cache_write_tokens: Option<i64>,
    pub output_tokens: Option<i64>,
    pub reasoning_tokens: Option<i64>,
    pub total_tokens: Option<i64>,
    pub credit_micros: Option<i64>,
    pub api_usd_micros: Option<i64>,
    pub local_share: Option<Share>,
    pub account_tokens: Option<i64>,
    pub unobserved_tokens: Option<i64>,
    pub coverage: Option<Coverage>,
    pub official_percent_start: Option<Float>,
    pub official_percent_end: Option<Float>,
    pub official_rises: Seq<Rise>,
    pub quality: Option<Seq<char>>,
}

impl DeepView for UsageWindowRecord {
    type V = UsageWindowRecordView;

    open spec fn deep_view(&self) -> UsageWindowRecordView {
        UsageWindowRecordView {
            window_id: self.window_id@,
            account_key: self.account_key.deep_view(),
            limit_id: self.limit_id.deep_view(),
            window_kind: self.window_kind@,
            window_start_ms: self.window_start_ms,
            resets_at_ms: self.resets_at_ms,
            window_minutes: self.window_minutes,
            auth_kind: self.auth_kind.deep_view(),
            plan_type: self.plan_type.deep_view(),
            provider: self.provider.deep_view(),
            capacity_profile: self.capacity_profile.deep_view(),
            input_tokens: self.input_tokens,
            cache_read_tokens: self.cache_read_tokens,
            cache_write_tokens: self.cache_write_tokens,
            output_tokens: self.output_tokens,
            reasoning_tokens: self.reasoning_tokens,
            total_tokens: self.total_tokens,
            credit_micros: self.credit_micros,
            api_usd_micros: self.api_usd_micros,
            local_share: self.local_share,
            account_tokens: self.account_tokens,
            unobserved_tokens: self.unobserved_tokens,
            coverage: self.coverage,
            official_percent_start: self.official_percent_start,
            official_percent_end: self.official_percent_end,
            official_rises: self.official_rises@,
            quality: self.quality.deep_view(),
        }
    }
}

/// The usage of a model at a tier and a reasoning effort.
#[derive(Debug)]
pub struct ModelUsage {
    pub model: String,
    pub tier: String,
    pub reasoning_effort: String,
    pub tokens: i64,
    pub credit_micros: Option<i64>,
    pub api_usd_micros: Option<i64>,
}

/// A `ModelUsage` with its texts as sequences of characters.
#[verifier::ext_equal]
pub struct ModelUsageView {
    pub model: Seq<char>,
    pub tier: Seq<char>,
    pub reasoning_effort: Seq<char>,
    pub tokens: i64,
    pub credit_micros: Option<i64>,
    pub api_usd_micros: Option<i64>,
}

impl DeepView for ModelUsage {
    type V = ModelUsageView;

    open spec fn deep_view(&self) -> ModelUsageView {
        ModelUsageView {
            model: self.model@,
            tier: self.tier@,
            reasoning_effort: self.reasoning_effort@,
            tokens: self.tokens,
            credit_micros: self.credit_micros,
            api_usd_micros: self.api_usd_micros,
        }
    }
}

/// The usage of a turn of a session, on one day and in one window.
#[derive(Debug)]
pub struct UsageSessionRecord {
    pub row_key: String,
    pub local_date: String,
    pub root_session_id: Option<String>,
    pub session_id: Option<String>,
    pub turn_id: Option<String>,
    pub title: Option<String>,
    pub relation: Option<String>,
    pub started_at_ms: Option<i64>,
    pub ended_at_ms: Option<i64>,
    pub window_id: Option<String>,
    pub account_key: Option<String>,
    pub auth_kind: Option<String>,
    pub plan_type: Option<String>,
    pub provider: Option<String>,
    pub capacity_profile: Option<String>,
    pub primary_model: Option<String>,
    pub fast_state: Option<String>,
    pub models: Vec<ModelUsage>,
    pub input_tokens: Option<i64>,
    pub cache_read_tokens: Option<i64>,
    pub cache_write_tokens: Option<i64>,
    pub output_tokens: Option<i64>,
    pub reasoning_tokens: Option<i64>,
    pub total_tokens: Option<i64>,
    pub credit_micros: Option<i64>,
    pub api_usd_micros: Option<i64>,
    pub official_percent_start: Option<Float>,
    pub official_percent_end: Option<Float>,
    pub quality: Option<String>,
}

/// A `UsageSessionRecord` with its texts as sequences of characters.
#[verifier::ext_equal]
pub struct UsageSessionRecordView {
    pub row_key: Seq<char>,
    pub local_date: Seq<char>,
    pub root_session_id: Option<Seq<char>>,
    pub session_id: Option<Seq<char>>,
    pub turn_id: Option<Seq<char>>,
    pub title: Option<Seq<char>>,
    pub relation: Option<Seq<char>>,
    pub started_at_ms: Option<i64>,
    pub ended_at_ms: Option<i64>,
    pub window_id: Option<Seq<char>>,
    pub account_key: Option<Seq<char>>,
    pub auth_kind: Option<Seq<char>>,
    pub plan_type: Option<Seq<char>>,
    pub provider: Option<Seq<char>>,
    pub capacity_profile: Option<Seq<char>>,
    pub primary_model: Option<Seq<char>>,
    pub fast_state: Option<Seq<char>>,
    pub models: Seq<ModelUsageView>,
    pub input_tokens: Option<i64>,
    pub cache_read_tokens: Option<i64>,
    pub cache_write_tokens: Option<i64>,
    pub output_tokens: Option<i64>,
    pub reasoning_tokens: Option<i64>,
    pub total_tokens: Option<i64>,
    pub credit_micros: Option<i64>,
    pub api_usd_micros: Option<i64>,
    pub official_percent_start: Option<Float>,
    pub official_percent_end: Option<Float>,
    pub quality: Option<Seq<char>>,
}

impl DeepView for UsageSessionRecord {
    type V = UsageSessionRecordView;

    open spec fn deep_view(&self) -> UsageSessionRecordView {
        UsageSessionRecordView {
            row_key: self.row_key@,
            local_date: self.local_date@,
            root_session_id: self.root_session_id.deep_view(),
            session_id: self.session_id.deep_view(),
            turn_id: self.turn_id.deep_view(),
            title: self.title.deep_view(),
            relation: self.relation.deep_view(),
            started_at_ms: self.started_at_ms,
            ended_at_ms: self.ended_at_ms,
            window_id: self.window_id.deep_view(),
            account_key: self.account_key.deep_view(),
            auth_kind: self.auth_kind.deep_view(),
            plan_type: self.plan_type.deep_view(),
            provider: self.provider.deep_view(),
            capacity_profile: self.capacity_profile.deep_view(),
            primary_model: self.primary_model.deep_view(),
            fast_state: self.fast_state.deep_view(),
            models: self.models.deep_view(),
            input_tokens: self.input_tokens,
            cache_read_tokens: self.cache_read_tokens,
            cache_write_tokens: self.cache_write_tokens,
            output_tokens: self.output_tokens,
            reasoning_tokens: self.reasoning_tokens,
            total_tokens: self.total_tokens,
            credit_micros: self.credit_micros,
            api_usd_micros: self.api_usd_micros,
            official_percent_start: self.official_percent_start,
            official_percent_end: self.official_percent_end,
            quality: self.quality.deep_view(),
        }
    }
}

/// A weekly credit that was confirmed, given by its place among floating-point numbers.
#[derive(Debug)]
pub struct CapacityRecord {
    pub profile_code: String,
    pub account_key: Option<String>,
    pub plan_type: Option<String>,
    pub weekly_credit: i64,
    pub effective_from_ms: i64,
    pub effective_to_ms: Option<i64>,
    pub confirmed_at_ms: i64,
}

/// A `CapacityRecord` with its texts as sequences of characters.
#[verifier::ext_equal]
pub struct CapacityRecordView {
    pub profile_code: Seq<char>,
    pub account_key: Option<Seq<char>>,
    pub plan_type: Option<Seq<char>>,
    pub weekly_credit: i64,
    pub effective_from_ms: i64,
    pub effective_to_ms: Option<i64>,
    pub confirmed_at_ms: i64,
}

impl DeepView for CapacityRecord {
    type V = CapacityRecordView;

    open spec fn deep_view(&self) -> CapacityRecordView {
        CapacityRecordView {
            profile_code: self.profile_code@,
            account_key: self.account_key.deep_view(),
            plan_type: self.plan_type.deep_view(),
            weekly_credit: self.weekly_credit,
            effective_from_ms: self.effective_from_ms,
            effective_to_ms: self.effective_to_ms,
            confirmed_at_ms: self.confirmed_at_ms,
        }
    }
}

/// A `CapacityRecord` of which nothing is known.
pub open spec fn empty_capacity_record() -> CapacityRecordView {
    CapacityRecordView {
        profile_code: Seq::empty(),
        account_key: None,
        plan_type: None,
        weekly_credit: 0,
        effective_from_ms: 0,
        effective_to_ms: None,
        confirmed_at_ms: 0,
    }
}

impl Default for CapacityRecord {
    fn default() -> (r: Self)
        ensures
            r.deep_view() == empty_capacity_record(),
    {
        let r = CapacityRecord {
            profile_code: String::new(),
            account_key: None,
            plan_type: None,
            weekly_credit: 0,
            effective_from_ms: 0,
            effective_to_ms: None,
            confirmed_at_ms: 0,
        };
        assert(r.deep_view() =~= empty_capacity_record());
        r
    }
}

/// What becomes of the capacity of a profile when defaults are installed.
#[derive(Clone, Copy, Debug, PartialEq, Eq, Structural)]
pub enum SeedCapacity {
    /// The current capacity stays.
    Keep,
    /// The current capacity is replaced by one that was confirmed before.
    Promote { weekly_credit: i64, confirmed_at_ms: i64 },
    /// There is no current capacity yet; it is created.
    Create { weekly_credit: i64, confirmed_at_ms: i64 },
}

/// What becomes of a capacity: one that was never confirmed makes way for one that was; where there
/// is none, the latest confirmed one is created, else the default.
pub open spec fn seed_of(
    current: Option<(i64, i64)>,
    legacy: Option<(i64, i64)>,
    default_credit: i64,
) -> SeedCapacity {
    match (current, legacy) {
        (Some((_, confirmed)), Some((credit, at))) => if confirmed == 0 {
            SeedCapacity::Promote { weekly_credit: credit, confirmed_at_ms: at }
        } else {
            SeedCapacity::Keep
        },
        (Some(_), None) => SeedCapacity::Keep,
        (None, Some((credit, at))) => SeedCapacity::Create {
            weekly_credit: credit,
            confirmed_at_ms: at,
        },
        (None, None) => SeedCapacity::Create { weekly_credit: default_credit, confirmed_at_ms: 0 },
    }
}

/// The current capacity after an outcome: its credit and the time of its confirmation.
pub open spec fn after_seed(current: Option<(i64, i64)>, outcome: SeedCapacity) -> Option<
    (i64, i64),
> {
    match outcome {
        SeedCapacity::Keep => current,
        SeedCapacity::Promote { weekly_credit, confirmed_at_ms } => Some(
            (weekly_credit, confirmed_at_ms),
        ),
        SeedCapacity::Create { weekly_credit, confirmed_at_ms } => Some(
            (weekly_credit, confirmed_at_ms),
        ),
    }
}

/// Defaults that are installed again change nothing: there is a current capacity after the first
/// time, and the second time leaves it as it is. A capacity that was confirmed never changes.
pub proof fn lemma_seeding_twice_changes_nothing(
    current: Option<(i64, i64)>,
    legacy: Option<(i64, i64)>,
    default_credit: i64,
)
    ensures
        ({
            let once = after_seed(current, seed_of(current, legacy, default_credit));
            &&& once is Some
            &&& after_seed(once, seed_of(once, legacy, default_credit)) == once
            &&& current is Some && (current->0).1 != 0 ==> once == current
        }),
{
}

/// Decides what becomes of the capacity of a profile, each capacity given by its credit and the
/// time of its confirmation: the current one, the latest that was confirmed for an account or a
/// date, and the default credit.
pub fn seed_capacity(
    current: Option<(i64, i64)>,
    legacy: Option<(i64, i64)>,
    default_credit: i64,
) -> (r: SeedCapacity)
    ensures
        r == seed_of(current, legacy, default_credit),
{
    if let Some((_, confirmed_at_ms)) = current {
        if confirmed_at_ms == 0 {
            if let Some((legacy_credit, legacy_confirmed_at_ms)) = legacy {
                return SeedCapacity::Promote {
                    weekly_credit: legacy_credit,
                    confirmed_at_ms: legacy_confirmed_at_ms,
                };
            }
        }
        return SeedCapacity::Keep;
    }
    match legacy {
        Some((weekly_credit, confirmed_at_ms)) => SeedCapacity::Create {
            weekly_credit,
            confirmed_at_ms,
        },
        None => SeedCapacity::Create { weekly_credit: default_credit, confirmed_at_ms: 0 },
    }
}

/// A stored fact of the app server after it was seen again: what is seen now replaces what was
/// known, and what is not seen now stays.
pub open spec fn app_server_upserted(
    stored: SourceAppServerRecordView,
    seen: SourceAppServerRecordView,
) -> SourceAppServerRecordView {
    SourceAppServerRecordView {
        last_seen_at_ms: seen.last_seen_at_ms,
        account_key: first_some(seen.account_key, stored.account_key),
        account_label: first_some(seen.account_label, stored.account_label),
        auth_kind: first_some(seen.auth_kind, stored.auth_kind),
        provider: first_some(seen.provider, stored.provider),
        plan_type: first_some(seen.plan_type, stored.plan_type),
        limit_id: first_some(seen.limit_id, stored.limit_id),
        window_kind: first_some(seen.window_kind, stored.window_kind),
        used_percent: first_some(seen.used_percent, stored.used_percent),
        window_minutes: first_some(seen.window_minutes, stored.window_minutes),
        resets_at_ms: first_some(seen.resets_at_ms, stored.resets_at_ms),
        lifetime_tokens: first_some(seen.lifetime_tokens, stored.lifetime_tokens),
        daily_tokens_json: first_some(seen.daily_tokens_json, stored.daily_tokens_json),
        freshness: first_some(seen.freshness, stored.freshness),
        status: seen.status,
        ..stored
    }
}

/// The value seen now, else the one that was stored.
pub fn seen_or_stored(seen: &Option<String>, stored: &Option<String>) -> (r: Option<String>)
    ensures
        r.deep_view() == first_some(seen.deep_view(), stored.deep_view()),
{
    match seen {
        Some(text) => Some(text.clone()),
        None => copy_option(stored),
    }
}

/// The value seen now, else the one that was stored.
pub fn seen_or_stored_value<T: Copy>(seen: Option<T>, stored: Option<T>) -> (r: Option<T>)
    ensures
        r == first_some(seen, stored),
{
    match seen {
        Some(value) => Some(value),
        None => stored,
    }
}

/// A stored fact of the app server after it was seen again.
pub fn upsert_source_app_server(
    stored: &SourceAppServerRecord,
    seen: &SourceAppServerRecord,
) -> (r: SourceAppServerRecord)
    ensures
        r.deep_view() == app_server_upserted(stored.deep_view(), seen.deep_view()),
{
    SourceAppServerRecord {
        source_key: stored.source_key.clone(),
        kind: stored.kind.clone(),
        first_seen_at_ms: stored.first_seen_at_ms,
        last_seen_at_ms: seen.last_seen_at_ms,
        account_key: seen_or_stored(&seen.account_key, &stored.account_key),
        account_label: seen_or_stored(&seen.account_label, &stored.account_label),
        auth_kind: seen_or_stored(&seen.auth_kind, &stored.auth_kind),
        provider: seen_or_stored(&seen.provider, &stored.provider),
        plan_type: seen_or_stored(&seen.plan_type, &stored.plan_type),
        limit_id: seen_or_stored(&seen.limit_id, &stored.limit_id),
        window_kind: seen_or_stored(&seen.window_kind, &stored.window_kind),
        used_percent: seen_or_stored_value(seen.used_percent, stored.used_percent),
        window_minutes: seen_or_stored_value(seen.window_minutes, stored.window_minutes),
        resets_at_ms: seen_or_stored_value(seen.resets_at_ms, stored.resets_at_ms),
        lifetime_tokens: seen_or_stored_value(seen.lifetime_tokens, stored.lifetime_tokens),
        daily_tokens_json: seen_or_stored(&seen.daily_tokens_json, &stored.daily_tokens_json),
        freshness: seen_or_stored(&seen.freshness, &stored.freshness),
        status: seen.status.clone(),
    }
}

} // verus!
