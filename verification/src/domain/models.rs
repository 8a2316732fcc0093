//! Records of accounts, usage and prices.
use crate::json::{Float, Json};
use vstd::prelude::*;

verus! {

/// Milliseconds since the start of 1970 in UTC.
pub type EpochMillis = i64;

/// How an account was authenticated.
#[derive(Clone, Copy, Debug, PartialEq, Eq, Structural)]
pub enum AuthKind {
    Chatgpt,
    OfficialApi,
    CustomApi,
    Bedrock,
    Unknown,
}

impl AuthKind {
    /// The name under which it is stored.
    pub open spec fn text(self) -> Seq<char> {
        match self {
            AuthKind::Chatgpt => "chatgpt"@,
            AuthKind::OfficialApi => "official_api"@,
            AuthKind::CustomApi => "custom_api"@,
            AuthKind::Bedrock => "bedrock"@,
            AuthKind::Unknown => "unknown"@,
        }
    }

    /// The name under which it is stored.
    pub fn as_str(self) -> (r: &'static str)
        ensures
            r@ == self.text(),
    {
        match self {
            AuthKind::Chatgpt => "chatgpt",
            AuthKind::OfficialApi => "official_api",
            AuthKind::CustomApi => "custom_api",
            AuthKind::Bedrock => "bedrock",
            AuthKind::Unknown => "unknown",
        }
    }
}

/// How an account is shown. It does not follow from how it was authenticated.
#[derive(Clone, Copy, Debug, PartialEq, Eq, Structural)]
pub enum DisplayGroup {
    Plus,
    Pro,
    OtherApi,
    Other,
    Unknown,
}

impl DisplayGroup {
    /// The name under which it is stored.
    pub open spec fn text(self) -> Seq<char> {
        match self {
            DisplayGroup::Plus => "plus"@,
            DisplayGroup::Pro => "pro"@,
            DisplayGroup::OtherApi => "other_api"@,
            DisplayGroup::Other => "other"@,
            DisplayGroup::Unknown => "unknown"@,
        }
    }

    /// The name under which it is stored.
    pub fn as_str(self) -> (r: &'static str)
        ensures
            r@ == self.text(),
    {
        match self {
            DisplayGroup::Plus => "plus",
            DisplayGroup::Pro => "pro",
            DisplayGroup::OtherApi => "other_api",
            DisplayGroup::Other => "other",
            DisplayGroup::Unknown => "unknown",
        }
    }
}

/// Where a classification comes from.
#[derive(Clone, Copy, Debug, PartialEq, Eq, Structural)]
pub enum ClassificationSource {
    Observed,
    Inferred,
    Manual,
    Unknown,
}

impl ClassificationSource {
    /// The name under which it is stored.
    pub open spec fn text(self) -> Seq<char> {
        match self {
            ClassificationSource::Observed => "observed"@,
            ClassificationSource::Inferred => "inferred"@,
            ClassificationSource::Manual => "manual"@,
            ClassificationSource::Unknown => "unknown"@,
        }
    }

    /// The name under which it is stored.
    pub fn as_str(self) -> (r: &'static str)
        ensures
            r@ == self.text(),
    {
        match self {
            ClassificationSource::Observed => "observed",
            ClassificationSource::Inferred => "inferred",
            ClassificationSource::Manual => "manual",
            ClassificationSource::Unknown => "unknown",
        }
    }
}

/// How far a value can be relied on.
#[derive(Clone, Copy, Debug, PartialEq, Eq, Structural)]
pub enum Quality {
    Exact,
    Estimated,
    MixedAccount,
    UnknownProvider,
    FastUnknown,
    MissingSamples,
    BoundaryApproximate,
}

impl Quality {
    /// The name under which it is stored.
    pub open spec fn text(self) -> Seq<char> {
        match self {
            Quality::Exact => "exact"@,
            Quality::Estimated => "estimated"@,
            Quality::MixedAccount => "mixed_account"@,
            Quality::UnknownProvider => "unknown_provider"@,
            Quality::FastUnknown => "fast_unknown"@,
            Quality::MissingSamples => "missing_samples"@,
            Quality::BoundaryApproximate => "boundary_approximate"@,
        }
    }

    /// The name under which it is stored.
    pub fn as_str(self) -> (r: &'static str)
        ensures
            r@ == self.text(),
    {
        match self {
            Quality::Exact => "exact",
            Quality::Estimated => "estimated",
            Quality::MixedAccount => "mixed_account",
            Quality::UnknownProvider => "unknown_provider",
            Quality::FastUnknown => "fast_unknown",
            Quality::MissingSamples => "missing_samples",
            Quality::BoundaryApproximate => "boundary_approximate",
        }
    }
}

/// In what usage is priced.
#[derive(Clone, Copy, Debug, PartialEq, Eq, Structural)]
pub enum PricingScheme {
    SubscriptionCredit,
    ApiUsdEquivalent,
}

impl PricingScheme {
    /// The name under which it is stored.
    pub open spec fn text(self) -> Seq<char> {
        match self {
            PricingScheme::SubscriptionCredit => "subscription_credit"@,
            PricingScheme::ApiUsdEquivalent => "api_usd_equivalent"@,
        }
    }

    /// The name under which it is stored.
    pub fn as_str(self) -> (r: &'static str)
        ensures
            r@ == self.text(),
    {
        match self {
            PricingScheme::SubscriptionCredit => "subscription_credit",
            PricingScheme::ApiUsdEquivalent => "api_usd_equivalent",
        }
    }
}

/// Subscriptions by their monthly price.
#[derive(Clone, Copy, Debug, PartialEq, Eq, Structural)]
pub enum CapacityProfile {
    Usd20,
    Usd100,
    Usd200,
}

impl CapacityProfile {
    /// The name under which it is stored.
    pub open spec fn text(self) -> Seq<char> {
        match self {
            CapacityProfile::Usd20 => "usd20"@,
            CapacityProfile::Usd100 => "usd100"@,
            CapacityProfile::Usd200 => "usd200"@,
        }
    }

    /// The name under which it is stored.
    pub fn as_str(self) -> (r: &'static str)
        ensures
            r@ == self.text(),
    {
        match self {
            CapacityProfile::Usd20 => "usd20",
            CapacityProfile::Usd100 => "usd100",
            CapacityProfile::Usd200 => "usd200",
        }
    }
}

/// Whether a capacity is in use.
#[derive(Clone, Copy, Debug, PartialEq, Eq, Structural)]
pub enum CapacityStatus {
    Draft,
    Confirmed,
    Retired,
}

impl CapacityStatus {
    /// The name under which it is stored.
    pub open spec fn text(self) -> Seq<char> {
        match self {
            CapacityStatus::Draft => "draft"@,
            CapacityStatus::Confirmed => "confirmed"@,
            CapacityStatus::Retired => "retired"@,
        }
    }

    /// The name under which it is stored.
    pub fn as_str(self) -> (r: &'static str)
        ensures
            r@ == self.text(),
    {
        match self {
            CapacityStatus::Draft => "draft",
            CapacityStatus::Confirmed => "confirmed",
            CapacityStatus::Retired => "retired",
        }
    }
}

/// Where a record comes from.
#[derive(Debug)]
pub struct SourceMetadata {
    pub source: String,
    pub quality: Quality,
    pub pricing_version: Option<String>,
    pub collector_version: String,
}

impl SourceMetadata {
    /// Where a record comes from.
    pub fn new(
        source: String,
        quality: Quality,
        pricing_version: Option<String>,
        collector_version: String,
    ) -> (r: Self)
        ensures
            r == (SourceMetadata { source, quality, pricing_version, collector_version }),
    {
        SourceMetadata { source, quality, pricing_version, collector_version }
    }
}

/// The machine on which records are made.
#[derive(Debug)]
pub struct Machine {
    pub name: String,
    pub install_id: String,
    pub timezone: String,
    pub created_at_ms: EpochMillis,
}

/// Tokens by kind.
#[derive(Clone, Copy, Debug, PartialEq, Eq, Structural)]
pub struct TokenCounts {
    pub input_tokens: i64,
    pub cached_input_tokens: i64,
    pub cache_write_input_tokens: i64,
    pub output_tokens: i64,
    pub reasoning_output_tokens: i64,
    pub total_tokens: i64,
}

impl Default for TokenCounts {
    fn default() -> (r: Self)
        ensures
            r == (TokenCounts {
                input_tokens: 0,
                cached_input_tokens: 0,
                cache_write_input_tokens: 0,
                output_tokens: 0,
                reasoning_output_tokens: 0,
                total_tokens: 0,
            }),
    {
        TokenCounts {
            input_tokens: 0,
            cached_input_tokens: 0,
            cache_write_input_tokens: 0,
            output_tokens: 0,
            reasoning_output_tokens: 0,
            total_tokens: 0,
        }
    }
}

/// An account.
#[derive(Debug)]
pub struct AccountIdentity {
    pub machine_id: i64,
    pub kind: AuthKind,
    pub email_masked: Option<String>,
    pub identity_hmac: String,
    pub label: Option<String>,
    pub created_at_ms: EpochMillis,
}

/// A time during which an account was used in one way.
#[derive(Debug)]
pub struct AccountContextInterval {
    pub machine_id: i64,
    pub account_identity_id: i64,
    pub start_at_ms: EpochMillis,
    pub end_at_ms: Option<EpochMillis>,
    pub auth_kind: AuthKind,
    pub plan_type_raw: Option<String>,
    pub display_group: DisplayGroup,
    pub capacity_profile: Option<CapacityProfile>,
    pub provider_name: Option<String>,
    pub endpoint_hmac: Option<String>,
    pub classification_source: ClassificationSource,
    pub metadata: SourceMetadata,
}

/// Tokens that were seen.
#[derive(Debug)]
pub struct TokenObservation {
    pub machine_id: i64,
    pub context_interval_id: Option<i64>,
    pub session_id: String,
    pub turn_id: Option<String>,
    pub observed_at_ms: EpochMillis,
    pub tokens: TokenCounts,
    pub model: Option<String>,
    pub service_tier: Option<String>,
    pub source_digest: String,
    pub collector_version: String,
}

/// A quota at an instant.
#[derive(Debug)]
pub struct QuotaSnapshot {
    pub machine_id: i64,
    pub account_identity_id: i64,
    pub observed_at_ms: EpochMillis,
    pub limit_id: String,
    pub limit_name: Option<String>,
    pub used_percent: Option<Float>,
    pub window_minutes: Option<i64>,
    pub resets_at_ms: Option<EpochMillis>,
    pub plan_type_raw: Option<String>,
    pub credits_has_credits: Option<bool>,
    pub credits_unlimited: Option<bool>,
    pub credits_balance: Option<String>,
    pub metadata: SourceMetadata,
    pub source_digest: String,
}

/// The usage that an account reports.
#[derive(Debug)]
pub struct AccountUsageSnapshot {
    pub machine_id: i64,
    pub account_identity_id: i64,
    pub observed_at_ms: EpochMillis,
    pub lifetime_tokens: Option<i64>,
    pub daily_buckets: Json,
    pub metadata: SourceMetadata,
    pub source_digest: String,
}

/// The usage of a session as `ccusage` reports it.
#[derive(Debug)]
pub struct CcusageSessionSnapshot {
    pub machine_id: i64,
    pub session_id: String,
    pub observed_at_ms: EpochMillis,
    pub model_tokens: Json,
    pub pricing_scheme: PricingScheme,
    pub auto_amount: Float,
    pub standard_amount: Float,
    pub pricing_version: String,
    pub ccusage_version: String,
    pub command_duration_ms: i64,
    pub result_hash: String,
    pub source_digest: String,
    pub source: String,
    pub quality: Quality,
    pub collector_version: String,
}

/// Usage between two instants, with its amounts.
#[derive(Debug)]
pub struct UsageDelta {
    pub machine_id: i64,
    pub account_context_interval_id: Option<i64>,
    pub session_id: Option<String>,
    pub start_at_ms: EpochMillis,
    pub end_at_ms: EpochMillis,
    pub tokens: TokenCounts,
    pub subscription_base_credit: Option<Float>,
    pub subscription_fast_surcharge: Option<Float>,
    pub subscription_total_credit: Option<Float>,
    pub api_base_usd: Option<Float>,
    pub api_fast_surcharge_usd: Option<Float>,
    pub api_total_usd: Option<Float>,
    pub dedupe_key: String,
    pub metadata: SourceMetadata,
}

/// The usage of a day.
#[derive(Debug)]
pub struct DailyRollup {
    pub machine_id: i64,
    pub local_date: String,
    pub account_identity_id: Option<i64>,
    pub tokens: TokenCounts,
    pub subscription_credit: Option<Float>,
    pub api_usd: Option<Float>,
    pub metadata: SourceMetadata,
}

/// Prices from an instant on.
#[derive(Debug)]
pub struct PricingVersion {
    pub id: String,
    pub scheme: PricingScheme,
    pub effective_at_ms: EpochMillis,
    pub timezone: String,
    pub rates: Json,
    pub fast_multipliers: Json,
    pub source_url: Option<String>,
    pub source_precision: String,
    pub created_at_ms: EpochMillis,
}

/// The weekly credit of a subscription.
#[derive(Debug)]
pub struct PlanCapacity {
    pub id: String,
    pub machine_id: i64,
    pub plan_code: CapacityProfile,
    pub effective_from_ms: EpochMillis,
    pub effective_to_ms: Option<EpochMillis>,
    pub confirmed_credit: Option<Float>,
    pub status: CapacityStatus,
    pub note: Option<String>,
    pub created_at_ms: EpochMillis,
}

/// A time from which a capacity is estimated.
#[derive(Debug)]
pub struct CalibrationSegment {
    pub machine_id: i64,
    pub account_identity_id: i64,
    pub start_at_ms: EpochMillis,
    pub end_at_ms: EpochMillis,
    pub window_kind: String,
    pub used_percent_start: Option<Float>,
    pub used_percent_end: Option<Float>,
    pub local_credit: Float,
    pub candidate_capacity: Option<Float>,
    pub sample_count: i64,
    pub contamination: Option<String>,
    pub adopted: bool,
    pub metadata: SourceMetadata,
}

/// A change that was made by hand.
#[derive(Debug)]
pub struct ManualAnnotation {
    pub machine_id: i64,
    pub target_type: String,
    pub target_id: String,
    pub before_json: Json,
    pub after_json: Json,
    pub reason: String,
    pub created_at_ms: EpochMillis,
}

/// A run of a collector.
#[derive(Debug)]
pub struct CollectorRun {
    pub machine_id: i64,
    pub source: String,
    pub started_at_ms: EpochMillis,
    pub duration_ms: Option<i64>,
    pub status: String,
    pub stderr_summary: Option<String>,
    pub collector_version: String,
}

} // verus!
