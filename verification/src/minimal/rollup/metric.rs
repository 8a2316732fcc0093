//! Sums of tokens and amounts.
use crate::num::{clamp_i64, saturating_add};
use crate::ordered::{
    lemma_texts_associate, lemma_with_texts, texts_increase, with_texts, TextSet,
};
use crate::pricing::{no_tokens, tokens_sum, Price, PriceView, TokenCounts};
use vstd::prelude::*;

verus! {

/// Tokens and amounts, in millionths, whether anything was summed, and whether all amounts were
/// known.
#[derive(Debug)]
pub struct MetricAggregate {
    pub tokens: TokenCounts,
    pub credit_micros: i64,
    pub api_usd_micros: i64,
    pub has_usage: bool,
    pub credit_known: bool,
    pub api_known: bool,
    pub quality: TextSet,
}

/// A `MetricAggregate` with its texts as sequences of characters.
#[verifier::ext_equal]
pub struct MetricAggregateView {
    pub tokens: TokenCounts,
    pub credit_micros: i64,
    pub api_usd_micros: i64,
    pub has_usage: bool,
    pub credit_known: bool,
    pub api_known: bool,
    pub quality: Seq<Seq<char>>,
}

impl DeepView for MetricAggregate {
    type V = MetricAggregateView;

    open spec fn deep_view(&self) -> MetricAggregateView {
        MetricAggregateView {
            tokens: self.tokens,
            credit_micros: self.credit_micros,
            api_usd_micros: self.api_usd_micros,
            has_usage: self.has_usage,
            credit_known: self.credit_known,
            api_known: self.api_known,
            quality: self.quality.deep_view(),
        }
    }
}

/// The sum of nothing.
pub open spec fn no_metric() -> MetricAggregateView {
    MetricAggregateView {
        tokens: no_tokens(),
        credit_micros: 0,
        api_usd_micros: 0,
        has_usage: false,
        credit_known: false,
        api_known: false,
        quality: Seq::empty(),
    }
}

impl Default for MetricAggregate {
    fn default() -> (r: Self)
        ensures
            r.deep_view() == no_metric(),
    {
        MetricAggregate {
            tokens: TokenCounts::default(),
            credit_micros: 0,
            api_usd_micros: 0,
            has_usage: false,
            credit_known: false,
            api_known: false,
            quality: TextSet::new(),
        }
    }
}

/// An amount with another added, where that is known.
pub open spec fn with_amount(sum: i64, amount: Option<i64>) -> i64 {
    match amount {
        Some(amount) => clamp_i64(sum + amount),
        None => sum,
    }
}

/// A sum with a request added.
pub open spec fn with_request(
    metric: MetricAggregateView,
    tokens: TokenCounts,
    price: PriceView,
) -> MetricAggregateView {
    MetricAggregateView {
        tokens: tokens_sum(metric.tokens, tokens),
        credit_micros: with_amount(metric.credit_micros, price.credit_micros),
        api_usd_micros: with_amount(metric.api_usd_micros, price.api_usd_micros),
        has_usage: true,
        credit_known: (!metric.has_usage || metric.credit_known) && price.credit_micros is Some,
        api_known: (!metric.has_usage || metric.api_known) && price.api_usd_micros is Some,
        quality: with_texts(metric.quality, price.quality),
    }
}

/// Two sums as one.
pub open spec fn merged(
    metric: MetricAggregateView,
    other: MetricAggregateView,
) -> MetricAggregateView {
    if other.has_usage {
        MetricAggregateView {
            tokens: tokens_sum(metric.tokens, other.tokens),
            credit_micros: clamp_i64(metric.credit_micros + other.credit_micros),
            api_usd_micros: clamp_i64(metric.api_usd_micros + other.api_usd_micros),
            has_usage: true,
            credit_known: (!metric.has_usage || metric.credit_known) && other.credit_known,
            api_known: (!metric.has_usage || metric.api_known) && other.api_known,
            quality: with_texts(metric.quality, other.quality),
        }
    } else {
        metric
    }
}

/// The credit of a sum, where all of it is known.
pub open spec fn credit_of(metric: MetricAggregateView) -> Option<i64> {
    if metric.has_usage && metric.credit_known {
        Some(metric.credit_micros)
    } else {
        None
    }
}

/// The dollars of a sum, where all of them are known.
pub open spec fn api_usd_of(metric: MetricAggregateView) -> Option<i64> {
    if metric.has_usage && metric.api_known {
        Some(metric.api_usd_micros)
    } else {
        None
    }
}

/// A count of a sum, where anything was summed.
pub open spec fn if_used(metric: MetricAggregateView, count: i64) -> Option<i64> {
    if metric.has_usage {
        Some(count)
    } else {
        None
    }
}

/// An amount of a sum is known only where each part is: one unknown part makes it unknown for good.
pub proof fn lemma_unknown_stays_unknown(
    metric: MetricAggregateView,
    tokens: TokenCounts,
    price: PriceView,
    later_tokens: TokenCounts,
    later: PriceView,
)
    requires
        price.credit_micros is None,
    ensures
        credit_of(with_request(metric, tokens, price)) is None,
        credit_of(with_request(with_request(metric, tokens, price), later_tokens, later)) is None,
{
}

/// The sum over requests, each with its price.
pub open spec fn summed(requests: Seq<(TokenCounts, PriceView)>) -> MetricAggregateView
    decreases requests.len(),
{
    if requests.len() == 0 {
        no_metric()
    } else {
        with_request(summed(requests.drop_last()), requests.last().0, requests.last().1)
    }
}

/// The eight numbers that a request adds.
pub open spec fn numbers_of(request: (TokenCounts, PriceView)) -> Seq<int> {
    seq![
        request.0.input as int,
        request.0.cached as int,
        request.0.cache_write as int,
        request.0.output as int,
        request.0.reasoning as int,
        request.0.total as int,
        with_amount(0, request.1.credit_micros) as int,
        with_amount(0, request.1.api_usd_micros) as int,
    ]
}

/// The exact sum of one of the numbers.
pub open spec fn exact_sum(requests: Seq<(TokenCounts, PriceView)>, number: int) -> int
    decreases requests.len(),
{
    if requests.len() == 0 {
        0
    } else {
        exact_sum(requests.drop_last(), number) + numbers_of(requests.last())[number]
    }
}

/// Whether nothing overflows when requests are summed in turn.
pub open spec fn sums_fit(requests: Seq<(TokenCounts, PriceView)>) -> bool {
    forall|n: int, number: int|
        0 <= n <= requests.len() && 0 <= number < 8 ==> i64::MIN <= #[trigger] exact_sum(
            requests.take(n),
            number,
        ) <= i64::MAX
}

proof fn lemma_prefix_fits(requests: Seq<(TokenCounts, PriceView)>)
    requires
        sums_fit(requests),
        requests.len() > 0,
    ensures
        sums_fit(requests.drop_last()),
{
    let shorter = requests.drop_last();
    assert forall|n: int, number: int|
        0 <= n <= shorter.len() && 0 <= number < 8 implies i64::MIN <= #[trigger] exact_sum(
        shorter.take(n),
        number,
    ) <= i64::MAX by {
        assert(shorter.take(n) =~= requests.take(n));
        assert(i64::MIN <= exact_sum(requests.take(n), number) <= i64::MAX);
    }
}

proof fn lemma_summed(requests: Seq<(TokenCounts, PriceView)>)
    requires
        sums_fit(requests),
    ensures
        summed(requests).tokens.input == exact_sum(requests, 0),
        summed(requests).tokens.cached == exact_sum(requests, 1),
        summed(requests).tokens.cache_write == exact_sum(requests, 2),
        summed(requests).tokens.output == exact_sum(requests, 3),
        summed(requests).tokens.reasoning == exact_sum(requests, 4),
        summed(requests).tokens.total == exact_sum(requests, 5),
        summed(requests).credit_micros == exact_sum(requests, 6),
        summed(requests).api_usd_micros == exact_sum(requests, 7),
        summed(requests).has_usage == (requests.len() > 0),
        texts_increase(summed(requests).quality),
    decreases requests.len(),
{
    assert forall|number: int| 0 <= number < 8 implies i64::MIN <= #[trigger] exact_sum(
        requests,
        number,
    ) <= i64::MAX by {
        assert(requests.take(requests.len() as int) =~= requests);
        assert(i64::MIN <= exact_sum(requests.take(requests.len() as int), number) <= i64::MAX);
    }
    if requests.len() > 0 {
        lemma_prefix_fits(requests);
        lemma_summed(requests.drop_last());
        lemma_with_texts(summed(requests.drop_last()).quality, requests.last().1.quality);
        assert(exact_sum(requests, 0) <= i64::MAX && exact_sum(requests, 1) <= i64::MAX
            && exact_sum(requests, 2) <= i64::MAX && exact_sum(requests, 3) <= i64::MAX);
        assert(exact_sum(requests, 4) <= i64::MAX && exact_sum(requests, 5) <= i64::MAX
            && exact_sum(requests, 6) <= i64::MAX && exact_sum(requests, 7) <= i64::MAX);
    }
}

proof fn lemma_exact_sum_splits(
    requests: Seq<(TokenCounts, PriceView)>,
    others: Seq<(TokenCounts, PriceView)>,
    number: int,
)
    ensures
        exact_sum(requests + others, number) == exact_sum(requests, number) + exact_sum(
            others,
            number,
        ),
    decreases others.len(),
{
    let all = requests + others;
    if others.len() == 0 {
        assert(all =~= requests);
    } else {
        assert(all.drop_last() =~= requests + others.drop_last());
        lemma_exact_sum_splits(requests, others.drop_last(), number);
    }
}

/// Two sums as one are the sum over the requests of both, where nothing overflows.
pub proof fn lemma_merge_is_the_sum_over_both(
    requests: Seq<(TokenCounts, PriceView)>,
    others: Seq<(TokenCounts, PriceView)>,
)
    requires
        sums_fit(requests + others),
        sums_fit(others),
    ensures
        merged(summed(requests), summed(others)) == summed(requests + others),
    decreases others.len(),
{
    let all = requests + others;
    if others.len() == 0 {
        assert(all =~= requests);
    } else {
        let shorter = others.drop_last();
        let last = others.last();
        assert(all.drop_last() =~= requests + shorter);
        assert(all.last() == last);
        lemma_prefix_fits(all);
        lemma_prefix_fits(others);
        lemma_merge_is_the_sum_over_both(requests, shorter);
        lemma_summed(all);
        lemma_summed(all.drop_last());
        lemma_summed(others);
        lemma_summed(shorter);
        assert(sums_fit(requests)) by {
            assert forall|n: int, number: int|
                0 <= n <= requests.len() && 0 <= number < 8 implies i64::MIN <= #[trigger] exact_sum(
                requests.take(n),
                number,
            ) <= i64::MAX by {
                assert(all.take(n) =~= requests.take(n));
                assert(i64::MIN <= exact_sum(all.take(n), number) <= i64::MAX);
            }
        }
        lemma_summed(requests);
        assert forall|number: int| 0 <= number < 8 implies #[trigger] exact_sum(all, number)
            == exact_sum(requests, number) + exact_sum(others, number) by {
            lemma_exact_sum_splits(requests, others, number);
        }
        assert(exact_sum(all, 0) == exact_sum(requests, 0) + exact_sum(others, 0));
        assert(exact_sum(all, 1) == exact_sum(requests, 1) + exact_sum(others, 1));
        assert(exact_sum(all, 2) == exact_sum(requests, 2) + exact_sum(others, 2));
        assert(exact_sum(all, 3) == exact_sum(requests, 3) + exact_sum(others, 3));
        assert(exact_sum(all, 4) == exact_sum(requests, 4) + exact_sum(others, 4));
        assert(exact_sum(all, 5) == exact_sum(requests, 5) + exact_sum(others, 5));
        assert(exact_sum(all, 6) == exact_sum(requests, 6) + exact_sum(others, 6));
        assert(exact_sum(all, 7) == exact_sum(requests, 7) + exact_sum(others, 7));
        lemma_texts_associate(
            summed(requests).quality,
            summed(shorter).quality,
            last.1.quality,
        );
        if shorter.len() == 0 {
            assert(shorter =~= Seq::empty());
        }
        assert(merged(summed(requests), summed(others)) =~= summed(all));
    }
}

impl MetricAggregate {
    /// Adds a request.
    pub fn add(&mut self, tokens: &TokenCounts, price: &Price)
        ensures
            final(self).deep_view() == with_request(
                old(self).deep_view(),
                *tokens,
                price.deep_view(),
            ),
    {
        if !self.has_usage {
            self.credit_known = true;
            self.api_known = true;
        }
        self.has_usage = true;
        self.tokens.add_assign(tokens);
        match price.credit_micros {
            Some(value) => {
                self.credit_micros = saturating_add(self.credit_micros, value);
            },
            None => {
                self.credit_known = false;
            },
        }
        match price.api_usd_micros {
            Some(value) => {
                self.api_usd_micros = saturating_add(self.api_usd_micros, value);
            },
            None => {
                self.api_known = false;
            },
        }
        self.quality.extend(&price.quality);
    }

    /// Adds another sum.
    pub fn merge(&mut self, other: &MetricAggregate)
        ensures
            final(self).deep_view() == merged(old(self).deep_view(), other.deep_view()),
    {
        if !other.has_usage {
            return ;
        }
        if !self.has_usage {
            self.credit_known = true;
            self.api_known = true;
        }
        self.has_usage = true;
        self.tokens.add_assign(&other.tokens);
        self.credit_micros = saturating_add(self.credit_micros, other.credit_micros);
        self.api_usd_micros = saturating_add(self.api_usd_micros, other.api_usd_micros);
        self.credit_known = self.credit_known && other.credit_known;
        self.api_known = self.api_known && other.api_known;
        self.quality.extend(&other.quality.items);
    }

    /// The credit, in millionths, where all of it is known.
    pub fn credit(&self) -> (r: Option<i64>)
        ensures
            r == credit_of(self.deep_view()),
    {
        if self.has_usage && self.credit_known {
            Some(self.credit_micros)
        } else {
            None
        }
    }

    /// The dollars, in millionths, where all of them are known.
    pub fn api_usd(&self) -> (r: Option<i64>)
        ensures
            r == api_usd_of(self.deep_view()),
    {
        if self.has_usage && self.api_known {
            Some(self.api_usd_micros)
        } else {
            None
        }
    }

    /// A count, where anything was summed.
    pub fn optional_metric(&self, count: i64) -> (r: Option<i64>)
        ensures
            r == if_used(self.deep_view(), count),
    {
        if self.has_usage {
            Some(count)
        } else {
            None
        }
    }
}

} // verus!
