//! Sums of rows.
use crate::json::Float;
use crate::minimal::report::rows::RowMetric;
use crate::num::{clamp_i64, saturating_add};
use crate::pipelines::result::materialize::load::{or_zero, value_or_zero};
use crate::pricing::{no_tokens, TokenCounts};
use vstd::prelude::*;

verus! {

/// Tokens, the amounts that were added up, one after the other, whether anything was, and whether
/// all amounts were known.
#[derive(Debug)]
pub struct RollupMetric {
    pub tokens: TokenCounts,
    pub has_usage: bool,
    pub credits: Vec<Float>,
    pub api_usd: Vec<Float>,
    pub credit_known: bool,
    pub api_known: bool,
}

/// A `RollupMetric` with its texts as sequences of characters.
#[verifier::ext_equal]
pub struct RollupMetricView {
    pub tokens: TokenCounts,
    pub has_usage: bool,
    pub credits: Seq<Float>,
    pub api_usd: Seq<Float>,
    pub credit_known: bool,
    pub api_known: bool,
}

impl DeepView for RollupMetric {
    type V = RollupMetricView;

    open spec fn deep_view(&self) -> RollupMetricView {
        RollupMetricView {
            tokens: self.tokens,
            has_usage: self.has_usage,
            credits: self.credits@,
            api_usd: self.api_usd@,
            credit_known: self.credit_known,
            api_known: self.api_known,
        }
    }
}

/// The sum of nothing.
pub open spec fn no_sum() -> RollupMetricView {
    RollupMetricView {
        tokens: no_tokens(),
        has_usage: false,
        credits: Seq::empty(),
        api_usd: Seq::empty(),
        credit_known: false,
        api_known: false,
    }
}

impl Default for RollupMetric {
    fn default() -> (r: Self)
        ensures
            r.deep_view() == no_sum(),
    {
        let r = RollupMetric {
            tokens: TokenCounts::default(),
            has_usage: false,
            credits: Vec::new(),
            api_usd: Vec::new(),
            credit_known: false,
            api_known: false,
        };
        assert(r.deep_view() =~= no_sum());
        r
    }
}

/// Whether a row tells of any usage: an official percentage alone is none.
pub open spec fn is_observed(metric: RowMetric) -> bool {
    metric.input is Some || metric.cached is Some || metric.cache_write is Some || metric.output
        is Some || metric.reasoning is Some || metric.total is Some || metric.credit is Some
        || metric.api_usd is Some
}

/// Amounts with another one, where it is known.
pub open spec fn with_known(amounts: Seq<Float>, amount: Option<Float>) -> Seq<Float> {
    match amount {
        Some(amount) => amounts.push(amount),
        None => amounts,
    }
}

/// A sum with a row.
pub open spec fn sum_with(sum: RollupMetricView, row: RowMetric) -> RollupMetricView {
    if is_observed(row) {
        RollupMetricView {
            tokens: TokenCounts {
                input: clamp_i64(sum.tokens.input + or_zero(row.input)),
                cached: clamp_i64(sum.tokens.cached + or_zero(row.cached)),
                cache_write: clamp_i64(sum.tokens.cache_write + or_zero(row.cache_write)),
                output: clamp_i64(sum.tokens.output + or_zero(row.output)),
                reasoning: clamp_i64(sum.tokens.reasoning + or_zero(row.reasoning)),
                total: clamp_i64(sum.tokens.total + or_zero(row.total)),
            },
            has_usage: true,
            credits: with_known(sum.credits, row.credit),
            api_usd: with_known(sum.api_usd, row.api_usd),
            credit_known: (!sum.has_usage || sum.credit_known) && row.credit is Some,
            api_known: (!sum.has_usage || sum.api_known) && row.api_usd is Some,
        }
    } else {
        sum
    }
}

/// A row whose tokens that are not known are none.
pub open spec fn filled(row: RowMetric) -> RowMetric {
    RowMetric {
        input: Some(or_zero(row.input)),
        cached: Some(or_zero(row.cached)),
        cache_write: Some(or_zero(row.cache_write)),
        output: Some(or_zero(row.output)),
        reasoning: Some(or_zero(row.reasoning)),
        total: Some(or_zero(row.total)),
        credit: row.credit,
        api_usd: row.api_usd,
    }
}

/// A sum counts nothing as long as nothing was observed, whatever rows it has: no row makes a zero
/// of what is not known.
pub proof fn lemma_unknown_is_not_zero(sum: RollupMetricView, row: RowMetric)
    requires
        !is_observed(row),
    ensures
        sum_with(sum, row) == sum,
        sum_with(no_sum(), row).has_usage == false,
{
}

impl RowMetric {
    /// Whether the row tells of any usage.
    pub fn observed(&self) -> (r: bool)
        ensures
            r == is_observed(*self),
    {
        self.input.is_some() || self.cached.is_some() || self.cache_write.is_some()
            || self.output.is_some() || self.reasoning.is_some() || self.total.is_some()
            || self.credit.is_some() || self.api_usd.is_some()
    }

    /// The row with no tokens where they are not known.
    pub fn fill(&self) -> (r: RowMetric)
        ensures
            r == filled(*self),
    {
        RowMetric {
            input: Some(value_or_zero(self.input)),
            cached: Some(value_or_zero(self.cached)),
            cache_write: Some(value_or_zero(self.cache_write)),
            output: Some(value_or_zero(self.output)),
            reasoning: Some(value_or_zero(self.reasoning)),
            total: Some(value_or_zero(self.total)),
            credit: self.credit,
            api_usd: self.api_usd,
        }
    }
}

impl RollupMetric {
    /// Adds a row.
    pub fn add(&mut self, row: &RowMetric)
        ensures
            final(self).deep_view() == sum_with(old(self).deep_view(), *row),
    {
        if !row.observed() {
            return ;
        }
        if !self.has_usage {
            self.credit_known = true;
            self.api_known = true;
        }
        self.has_usage = true;
        self.tokens.input = saturating_add(self.tokens.input, value_or_zero(row.input));
        self.tokens.cached = saturating_add(self.tokens.cached, value_or_zero(row.cached));
        self.tokens.cache_write = saturating_add(
            self.tokens.cache_write,
            value_or_zero(row.cache_write),
        );
        self.tokens.output = saturating_add(self.tokens.output, value_or_zero(row.output));
        self.tokens.reasoning = saturating_add(self.tokens.reasoning, value_or_zero(row.reasoning));
        self.tokens.total = saturating_add(self.tokens.total, value_or_zero(row.total));
        match row.credit {
            Some(value) => self.credits.push(value),
            None => {
                self.credit_known = false;
            },
        }
        match row.api_usd {
            Some(value) => self.api_usd.push(value),
            None => {
                self.api_known = false;
            },
        }
    }

    /// The amounts of credit whose sum is known, where it is.
    pub fn credit(&self) -> (r: Option<&Vec<Float>>)
        ensures
            match r {
                Some(amounts) => self.has_usage && self.credit_known && amounts@ == self.credits@,
                None => !(self.has_usage && self.credit_known),
            },
    {
        if self.has_usage && self.credit_known {
            Some(&self.credits)
        } else {
            None
        }
    }

    /// The amounts of dollars whose sum is known, where it is.
    pub fn dollars(&self) -> (r: Option<&Vec<Float>>)
        ensures
            match r {
                Some(amounts) => self.has_usage && self.api_known && amounts@ == self.api_usd@,
                None => !(self.has_usage && self.api_known),
            },
    {
        if self.has_usage && self.api_known {
            Some(&self.api_usd)
        } else {
            None
        }
    }
}

} // verus!
