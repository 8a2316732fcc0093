//! Sums of tokens and amounts.
use crate::num::{clamp_i64, saturating_add};
use crate::ordered::{with_text_if, with_texts};
use crate::pipelines::result::materialize::records::{
    Metric, MetricView, UsageRecord, UsageRecordView,
};
use crate::pricing::{tokens_sum, Price, PriceView, TokenCounts};
use crate::text::{ascii_lower, copy_option, same, to_ascii_lowercase};
use vstd::prelude::*;
use vstd::string::*;

verus! {

/// Under what a request was made.
#[derive(Clone, Copy, Debug, PartialEq, Eq, Structural)]
pub enum UsageContext {
    Subscription,
    Api,
    Unknown,
}

/// The plan under which a request was made. A request without a plan that went to the provider
/// `pro` was made through the API; it never takes on the plan of the present account.
pub open spec fn plan_of_usage(usage: UsageRecordView) -> Option<Seq<char>> {
    match usage.plan_type {
        Some(plan) => Some(plan),
        None => match usage.provider {
            Some(provider) if ascii_lower(provider) == "pro"@ => Some("api"@),
            _ => None,
        },
    }
}

/// Whether a plan is that of the API.
pub open spec fn plan_is_api(plan: Option<Seq<char>>) -> bool {
    plan is Some && ascii_lower(plan->0) == "api"@
}

/// Whether a plan is a known subscription.
pub open spec fn plan_is_subscription(plan: Option<Seq<char>>) -> bool {
    plan is Some && ascii_lower(plan->0) != "api"@ && ascii_lower(plan->0) != "unknown"@
}

/// Under what a request was made.
pub open spec fn context_of_usage(usage: UsageRecordView) -> UsageContext {
    match plan_of_usage(usage) {
        None => UsageContext::Unknown,
        Some(plan) => if plan_is_api(Some(plan)) {
            UsageContext::Api
        } else {
            UsageContext::Subscription
        },
    }
}

/// A sum with the amounts of one more request; its credit counts only where `include_credit`.
pub open spec fn with_price(
    metric: MetricView,
    price: PriceView,
    include_credit: bool,
) -> MetricView {
    MetricView {
        credit_known: metric.credit_known || (include_credit && price.credit_micros is Some),
        credit_micros: if include_credit && price.credit_micros is Some {
            clamp_i64(metric.credit_micros + price.credit_micros->0)
        } else {
            metric.credit_micros
        },
        credit_partial: metric.credit_partial || (include_credit && price.credit_micros is None),
        api_known: metric.api_known || price.api_usd_micros is Some,
        api_usd_micros: if price.api_usd_micros is Some {
            clamp_i64(metric.api_usd_micros + price.api_usd_micros->0)
        } else {
            metric.api_usd_micros
        },
        api_partial: metric.api_partial || price.api_usd_micros is None,
        quality: with_texts(metric.quality, price.quality),
        ..metric
    }
}

/// A sum with tokens and their price.
pub open spec fn with_tokens(
    metric: MetricView,
    tokens: TokenCounts,
    price: PriceView,
    include_credit: bool,
) -> MetricView {
    with_price(
        MetricView { has_usage: true, tokens: tokens_sum(metric.tokens, tokens), ..metric },
        price,
        include_credit,
    )
}

/// A sum with one more request. Credit is used only under a subscription; under what a request was
/// made that tells neither plan nor provider is not known, and neither is all the credit.
pub open spec fn with_usage(
    metric: MetricView,
    usage: UsageRecordView,
    price: PriceView,
) -> MetricView {
    let context = context_of_usage(usage);
    let added = with_tokens(metric, usage.tokens, price, context == UsageContext::Subscription);
    MetricView {
        credit_partial: added.credit_partial || context == UsageContext::Unknown,
        quality: with_text_if(
            added.quality,
            context == UsageContext::Unknown,
            "account_context_unavailable"@,
        ),
        ..added
    }
}

/// The credit of a sum, in millionths, as far as it is known.
pub open spec fn credit_of(metric: MetricView) -> Option<i64> {
    if metric.has_usage && metric.credit_known {
        Some(metric.credit_micros)
    } else {
        None
    }
}

/// The dollars of a sum, in millionths, as far as they are known.
pub open spec fn api_usd_of(metric: MetricView) -> Option<i64> {
    if metric.has_usage && metric.api_known {
        Some(metric.api_usd_micros)
    } else {
        None
    }
}

/// Whether some of the amounts of a sum are not known.
pub open spec fn is_partial(metric: MetricView) -> bool {
    metric.credit_partial || metric.api_partial
}

/// The value, where there was any usage.
pub open spec fn if_used(metric: MetricView, value: i64) -> Option<i64> {
    if metric.has_usage {
        Some(value)
    } else {
        None
    }
}

/// A request through the API adds its tokens and its dollars, and no credit.
pub proof fn lemma_api_usage_uses_no_credit(
    metric: MetricView,
    usage: UsageRecordView,
    price: PriceView,
)
    requires
        context_of_usage(usage) == UsageContext::Api,
    ensures
        with_usage(metric, usage, price).credit_micros == metric.credit_micros,
        with_usage(metric, usage, price).credit_known == metric.credit_known,
        with_usage(metric, usage, price).tokens == tokens_sum(metric.tokens, usage.tokens),
        price.api_usd_micros is Some ==> with_usage(metric, usage, price).api_usd_micros
            == clamp_i64(metric.api_usd_micros + price.api_usd_micros->0),
{
}

/// A request without a price leaves the amounts that are known, and marks the sum as partial.
pub proof fn lemma_unpriced_usage_marks_the_sum(
    metric: MetricView,
    usage: UsageRecordView,
    price: PriceView,
)
    requires
        price.credit_micros is None,
        price.api_usd_micros is None,
    ensures
        with_usage(metric, usage, price).credit_micros == metric.credit_micros,
        with_usage(metric, usage, price).api_usd_micros == metric.api_usd_micros,
        with_usage(metric, usage, price).credit_known == metric.credit_known,
        with_usage(metric, usage, price).api_known == metric.api_known,
        is_partial(with_usage(metric, usage, price)),
{
}

/// The plan under which a request was made.
pub fn effective_plan_type(usage: &UsageRecord) -> (r: Option<String>)
    ensures
        r.deep_view() == plan_of_usage(usage.deep_view()),
{
    if usage.plan_type.is_some() {
        return copy_option(&usage.plan_type);
    }
    match &usage.provider {
        Some(provider) => if same(to_ascii_lowercase(provider.as_str()).as_str(), "pro") {
            Some("api".to_owned())
        } else {
            None
        },
        None => None,
    }
}

/// Whether a plan is that of the API.
pub fn is_api_plan(plan: Option<&str>) -> (r: bool)
    ensures
        r == plan_is_api(plan.deep_view()),
{
    match plan {
        Some(plan) => same(to_ascii_lowercase(plan).as_str(), "api"),
        None => false,
    }
}

/// Whether a plan is a known subscription.
pub fn is_subscription_plan(plan: Option<&str>) -> (r: bool)
    ensures
        r == plan_is_subscription(plan.deep_view()),
{
    match plan {
        Some(plan) => {
            let lowered = to_ascii_lowercase(plan);
            !same(lowered.as_str(), "api") && !same(lowered.as_str(), "unknown")
        },
        None => false,
    }
}

/// Under what a request was made.
pub fn usage_context(usage: &UsageRecord) -> (r: UsageContext)
    ensures
        r == context_of_usage(usage.deep_view()),
{
    match effective_plan_type(usage) {
        None => UsageContext::Unknown,
        Some(plan) => if is_api_plan(Some(plan.as_str())) {
            UsageContext::Api
        } else {
            UsageContext::Subscription
        },
    }
}

impl Metric {
    fn add_priced(&mut self, price: &Price, include_credit: bool)
        ensures
            final(self).deep_view() == with_price(
                old(self).deep_view(),
                price.deep_view(),
                include_credit,
            ),
    {
        if include_credit {
            match price.credit_micros {
                Some(value) => {
                    self.credit_known = true;
                    self.credit_micros = saturating_add(self.credit_micros, value);
                },
                None => {
                    self.credit_partial = true;
                },
            }
        }
        match price.api_usd_micros {
            Some(value) => {
                self.api_known = true;
                self.api_usd_micros = saturating_add(self.api_usd_micros, value);
            },
            None => {
                self.api_partial = true;
            },
        }
        self.quality.extend(&price.quality);
    }

    /// Adds tokens that use credit, and their price.
    pub fn add(&mut self, tokens: &TokenCounts, price: &Price)
        ensures
            final(self).deep_view() == with_tokens(
                old(self).deep_view(),
                *tokens,
                price.deep_view(),
                true,
            ),
    {
        self.has_usage = true;
        self.tokens.add_assign(tokens);
        self.add_priced(price, true);
    }

    /// Adds a request and its price.
    pub fn add_usage(&mut self, usage: &UsageRecord, price: &Price)
        ensures
            final(self).deep_view() == with_usage(
                old(self).deep_view(),
                usage.deep_view(),
                price.deep_view(),
            ),
    {
        self.has_usage = true;
        self.tokens.add_assign(&usage.tokens);
        let context = usage_context(usage);
        self.add_priced(price, context == UsageContext::Subscription);
        if context == UsageContext::Unknown {
            self.credit_partial = true;
            self.quality.insert("account_context_unavailable");
        }
    }

    /// The credit, in millionths, as far as it is known.
    pub fn credit(&self) -> (r: Option<i64>)
        ensures
            r == credit_of(self.deep_view()),
    {
        if self.has_usage && self.credit_known {
            Some(self.credit_micros)
        } else {
            None
        }
    }

    /// The dollars, in millionths, as far as they are known.
    pub fn api_usd(&self) -> (r: Option<i64>)
        ensures
            r == api_usd_of(self.deep_view()),
    {
        if self.has_usage && self.api_known {
            Some(self.api_usd_micros)
        } else {
            None
        }
    }

    /// The mark of a sum some of whose amounts are not known.
    pub fn quality_flags(&self) -> (r: Option<&'static str>)
        ensures
            r.deep_view() == (if is_partial(self.deep_view()) {
                Some("pricing_partial"@)
            } else {
                None
            }),
    {
        if self.credit_partial || self.api_partial {
            Some("pricing_partial")
        } else {
            None
        }
    }

    /// The value, where there was any usage.
    pub fn used(&self, value: i64) -> (r: Option<i64>)
        ensures
            r == if_used(self.deep_view(), value),
    {
        if self.has_usage {
            Some(value)
        } else {
            None
        }
    }
}

} // verus!
