//! Token accounting and the two price schemes.
//!
//! A model or a card that is not known leaves the amounts unknown; they are never taken for zero. An
//! event without a known service tier is priced at the configured tier and marked.
use crate::config::{
    embedded_api, embedded_subscription, last_start, lemma_last_start, newest_version,
    version_in_force, CapacityDefaults, LongContextRate, ModelRate, ModelRateView, PriceFile, PriceVersion, PriceVersionView,
    ProjectConfig,
};
use crate::double::{
    lemma_product_by_halves, product_of, Double, ONE, TWO, TWO_AND_A_HALF,
};
use crate::num::{
    clamp_i128, clamp_i64, larger, max_i64, min_i64, saturating_add, saturating_add_wide,
    saturating_sub, smaller, truncating_div,
};
use crate::text::{
    ascii_lower, begins_with, characters, cut, from_characters, pieces, same, split, split_once,
    starts_with, to_ascii_lowercase, trim, trimmed,
};
use vstd::prelude::*;
use vstd::string::*;
use vstd::utf8::encode_utf8;

verus! {

/// Token counts of a request, or of several.
#[derive(Clone, Copy, Debug, PartialEq, Eq, Structural)]
pub struct TokenCounts {
    pub input: i64,
    pub cached: i64,
    pub cache_write: i64,
    pub output: i64,
    pub reasoning: i64,
    pub total: i64,
}

impl DeepView for TokenCounts {
    type V = TokenCounts;

    open spec fn deep_view(&self) -> TokenCounts {
        *self
    }
}

impl Default for TokenCounts {
    fn default() -> (r: Self)
        ensures
            r == no_tokens(),
    {
        TokenCounts { input: 0, cached: 0, cache_write: 0, output: 0, reasoning: 0, total: 0 }
    }
}

/// No tokens at all.
pub open spec fn no_tokens() -> TokenCounts {
    TokenCounts { input: 0, cached: 0, cache_write: 0, output: 0, reasoning: 0, total: 0 }
}

/// The sum of two counts, held at the bounds of `i64` in each field.
pub open spec fn tokens_sum(a: TokenCounts, b: TokenCounts) -> TokenCounts {
    TokenCounts {
        input: clamp_i64(a.input + b.input),
        cached: clamp_i64(a.cached + b.cached),
        cache_write: clamp_i64(a.cache_write + b.cache_write),
        output: clamp_i64(a.output + b.output),
        reasoning: clamp_i64(a.reasoning + b.reasoning),
        total: clamp_i64(a.total + b.total),
    }
}

/// `a - b`, held between zero and the largest integer.
pub open spec fn excess(a: i64, b: i64) -> i64 {
    larger(clamp_i64(a - b) as int, 0) as i64
}

/// What `a` has more than `b`, field by field.
pub open spec fn tokens_excess(a: TokenCounts, b: TokenCounts) -> TokenCounts {
    TokenCounts {
        input: excess(a.input, b.input),
        cached: excess(a.cached, b.cached),
        cache_write: excess(a.cache_write, b.cache_write),
        output: excess(a.output, b.output),
        reasoning: excess(a.reasoning, b.reasoning),
        total: excess(a.total, b.total),
    }
}

/// Counts without negative fields, the cached part within the input and the reasoning part within
/// the output; a missing total is that of input and output.
pub open spec fn tokens_normalized(t: TokenCounts) -> TokenCounts {
    let input = larger(t.input as int, 0) as i64;
    let output = larger(t.output as int, 0) as i64;
    TokenCounts {
        input,
        cached: smaller(larger(t.cached as int, 0), input as int) as i64,
        cache_write: larger(t.cache_write as int, 0) as i64,
        output,
        reasoning: smaller(larger(t.reasoning as int, 0), output as int) as i64,
        total: if t.total <= 0 {
            clamp_i64(input + output)
        } else {
            t.total
        },
    }
}

/// Whether any field counts something.
pub open spec fn tokens_observed(t: TokenCounts) -> bool {
    t != no_tokens()
}

/// Whether counts are as `tokens_normalized` leaves them.
pub open spec fn tokens_are_normal(t: TokenCounts) -> bool {
    &&& 0 <= t.cached <= t.input
    &&& 0 <= t.cache_write
    &&& 0 <= t.reasoning <= t.output
    &&& 0 <= t.total
    &&& t.total == 0 ==> t.input == 0 && t.output == 0
}

/// Counts that are not negative, of which no part is larger than its whole, and whose total is told,
/// are in normal form already.
pub proof fn lemma_normal_form(t: TokenCounts)
    requires
        0 <= t.cached <= t.input,
        0 <= t.cache_write,
        0 <= t.reasoning <= t.output,
        0 <= t.total,
        t.total == 0 ==> t.input == 0 && t.output == 0,
    ensures
        tokens_normalized(t) == t,
{
}

fn surplus(a: i64, b: i64) -> (r: i64)
    ensures
        r == excess(a, b),
{
    max_i64(saturating_sub(a, b), 0)
}

impl TokenCounts {
    /// Adds `other` to the counts.
    pub fn add_assign(&mut self, other: &Self)
        ensures
            *final(self) == tokens_sum(*old(self), *other),
    {
        self.input = saturating_add(self.input, other.input);
        self.cached = saturating_add(self.cached, other.cached);
        self.cache_write = saturating_add(self.cache_write, other.cache_write);
        self.output = saturating_add(self.output, other.output);
        self.reasoning = saturating_add(self.reasoning, other.reasoning);
        self.total = saturating_add(self.total, other.total);
    }

    /// What the counts have more than `previous`.
    pub fn saturating_sub(&self, previous: &Self) -> (r: Self)
        ensures
            r == tokens_excess(*self, *previous),
    {
        TokenCounts {
            input: surplus(self.input, previous.input),
            cached: surplus(self.cached, previous.cached),
            cache_write: surplus(self.cache_write, previous.cache_write),
            output: surplus(self.output, previous.output),
            reasoning: surplus(self.reasoning, previous.reasoning),
            total: surplus(self.total, previous.total),
        }
    }

    /// The counts in their normal form.
    pub fn normalized(self) -> (r: Self)
        ensures
            r == tokens_normalized(self),
    {
        let input = max_i64(self.input, 0);
        let output = max_i64(self.output, 0);
        TokenCounts {
            input,
            cached: min_i64(max_i64(self.cached, 0), input),
            cache_write: max_i64(self.cache_write, 0),
            output,
            reasoning: min_i64(max_i64(self.reasoning, 0), output),
            total: if self.total <= 0 {
                saturating_add(input, output)
            } else {
                self.total
            },
        }
    }

    /// Whether any field counts something.
    pub fn observed(&self) -> (r: bool)
        ensures
            r == tokens_observed(*self),
    {
        self.input != 0 || self.cached != 0 || self.cache_write != 0 || self.output != 0
            || self.reasoning != 0 || self.total != 0
    }
}

/// Normal counts are in normal form, and taking the normal form again changes nothing.
pub proof fn lemma_normalized_is_normal(t: TokenCounts)
    ensures
        tokens_are_normal(tokens_normalized(t)),
        tokens_normalized(tokens_normalized(t)) == tokens_normalized(t),
{
}

/// A difference of counters, added to the earlier counter, gives the later one back, where no
/// field fell.
pub proof fn lemma_excess_restores(later: TokenCounts, earlier: TokenCounts)
    requires
        tokens_are_normal(earlier),
        tokens_are_normal(later),
        earlier.input <= later.input,
        earlier.cached <= later.cached,
        earlier.cache_write <= later.cache_write,
        earlier.output <= later.output,
        earlier.reasoning <= later.reasoning,
        earlier.total <= later.total,
    ensures
        tokens_sum(earlier, tokens_excess(later, earlier)) == later,
{
}

/// The amounts of a request, in millionths, as far as they are known, and what qualifies them.
#[derive(Debug, PartialEq)]
pub struct Price {
    pub credit_micros: Option<i64>,
    pub api_usd_micros: Option<i64>,
    pub quality: Vec<String>,
}

/// A `Price` with its texts as sequences of characters.
#[verifier::ext_equal]
pub struct PriceView {
    pub credit_micros: Option<i64>,
    pub api_usd_micros: Option<i64>,
    pub quality: Seq<Seq<char>>,
}

impl DeepView for Price {
    type V = PriceView;

    open spec fn deep_view(&self) -> PriceView {
        PriceView {
            credit_micros: self.credit_micros,
            api_usd_micros: self.api_usd_micros,
            quality: self.quality.deep_view(),
        }
    }
}

impl Default for Price {
    fn default() -> (r: Self)
        ensures
            r.deep_view() == (PriceView {
                credit_micros: None,
                api_usd_micros: None,
                quality: Seq::empty(),
            }),
    {
        let r = Price { credit_micros: None, api_usd_micros: None, quality: Vec::new() };
        assert(r.quality.deep_view() =~= Seq::empty());
        r
    }
}

/// The speed at which requests are served.
#[derive(Clone, Copy, Debug, PartialEq, Eq, Structural)]
pub enum ServiceTier {
    Standard,
    Fast,
}

impl ServiceTier {
    pub open spec fn text(self) -> Seq<char> {
        match self {
            ServiceTier::Standard => "standard"@,
            ServiceTier::Fast => "fast"@,
        }
    }

    /// The name of the tier.
    pub fn as_str(self) -> (s: &'static str)
        ensures
            s@ == self.text(),
    {
        match self {
            ServiceTier::Standard => "standard",
            ServiceTier::Fast => "fast",
        }
    }
}

/// An unknown price, for the reason `flag`.
pub open spec fn unknown_price(flag: Seq<char>) -> PriceView {
    PriceView { credit_micros: None, api_usd_micros: None, quality: seq![flag] }
}

/// How well a name of the catalog fits a model: the whole name above all, then the longest name
/// that the model continues after a hyphen.
pub open spec fn name_score(name: Seq<char>, model: Seq<char>) -> Option<int> {
    let name = ascii_lower(name);
    let length = encode_utf8(name).len() as int;
    if model == name {
        Some(1_000_000 + length)
    } else if begins_with(model, name + "-"@) {
        Some(length)
    } else {
        None
    }
}

/// The better of two scores.
pub open spec fn better_score(a: Option<int>, b: Option<int>) -> Option<int> {
    match (a, b) {
        (Some(x), Some(y)) => Some(larger(x, y)),
        (Some(x), None) => Some(x),
        (None, _) => b,
    }
}

/// The best score among `names`.
pub open spec fn names_score(names: Seq<Seq<char>>, model: Seq<char>) -> Option<int>
    decreases names.len(),
{
    if names.len() == 0 {
        None
    } else {
        better_score(names_score(names.drop_last(), model), name_score(names.last(), model))
    }
}

/// How well a rate fits a model, by its own name and its aliases.
pub open spec fn rate_score(rate: ModelRateView, model: Seq<char>) -> Option<int> {
    better_score(name_score(rate.model, model), names_score(rate.aliases, model))
}

/// The place of the rate that fits a model best; of several that fit alike, that of the last.
pub open spec fn best_rate(rates: Seq<ModelRateView>, model: Seq<char>) -> Option<int>
    decreases rates.len(),
{
    if rates.len() == 0 {
        None
    } else {
        let rest = best_rate(rates.drop_last(), model);
        match (rest, rate_score(rates.last(), model)) {
            (Some(i), Some(score)) => if rate_score(rates[i], model)->0 <= score {
                Some(rates.len() - 1)
            } else {
                rest
            },
            (None, Some(score)) => Some(rates.len() - 1),
            (_, None) => rest,
        }
    }
}

/// The rate for a model, whatever the case of its letters.
pub open spec fn rate_for(rates: Seq<ModelRateView>, model: Seq<char>) -> Option<ModelRateView> {
    match best_rate(rates, ascii_lower(model)) {
        Some(i) => Some(rates[i]),
        None => None,
    }
}

/// `best_rate` finds a rate wherever one fits, and none fits better.
pub proof fn lemma_best_rate(rates: Seq<ModelRateView>, model: Seq<char>)
    ensures
        match best_rate(rates, model) {
            Some(i) => {
                &&& 0 <= i < rates.len()
                &&& rate_score(rates[i], model) is Some
                &&& forall|j: int|
                    0 <= j < rates.len() && rate_score(#[trigger] rates[j], model) is Some
                        ==> rate_score(rates[j], model)->0 <= rate_score(rates[i], model)->0
            },
            None => forall|j: int|
                0 <= j < rates.len() ==> rate_score(#[trigger] rates[j], model) is None,
        },
    decreases rates.len(),
{
    if rates.len() > 0 {
        let shorter = rates.drop_last();
        lemma_best_rate(shorter, model);
        assert forall|j: int| 0 <= j < shorter.len() implies shorter[j] == #[trigger] rates[j] by {}
    }
}

/// The prices of input, cached input, cache writes and output that a rate sets for a request.
pub open spec fn prices_for(
    rate: ModelRateView,
    tokens: TokenCounts,
    threshold: Option<i64>,
) -> (i64, i64, i64, i64) {
    match (threshold, rate.long_context) {
        (Some(threshold), Some(long)) if tokens.input > threshold => (
            long.input_microusd_per_million,
            long.cache_read_microusd_per_million,
            long.cache_write_microusd_per_million,
            long.output_microusd_per_million,
        ),
        _ => (
            rate.input_microusd_per_million,
            rate.cache_read_microusd_per_million,
            rate.cache_write_microusd_per_million,
            rate.output_microusd_per_million,
        ),
    }
}

/// Tokens times prices: input that was not cached, cached input, cache writes and output.
pub open spec fn weighted_tokens(tokens: TokenCounts, prices: (i64, i64, i64, i64)) -> int {
    clamp_i128(
        clamp_i128(
            clamp_i128(excess(tokens.input, tokens.cached) * prices.0 + tokens.cached * prices.1)
                + tokens.cache_write * prices.2,
        ) + tokens.output * prices.3,
    ) as int
}

/// The amount of a request in millionths, rounded to the nearest; what no `i64` can hold is its
/// largest integer.
pub open spec fn amount(tokens: TokenCounts, prices: (i64, i64, i64, i64)) -> i64 {
    let rounded = truncating_div(
        clamp_i128(weighted_tokens(tokens, prices) + 500_000) as int,
        1_000_000,
    );
    if i64::MIN <= rounded <= i64::MAX {
        rounded as i64
    } else {
        i64::MAX
    }
}

/// The amount of a request without negative counts and prices is the exact sum, rounded to the
/// nearest millionth.
pub proof fn lemma_amount_is_rounded_sum(tokens: TokenCounts, prices: (i64, i64, i64, i64))
    requires
        tokens_are_normal(tokens),
        prices.0 >= 0 && prices.1 >= 0 && prices.2 >= 0 && prices.3 >= 0,
        (tokens.input - tokens.cached) * prices.0 + tokens.cached * prices.1 + tokens.cache_write
            * prices.2 + tokens.output * prices.3 + 500_000 < 1_000_000 * i64::MAX,
    ensures
        amount(tokens, prices) == ((tokens.input - tokens.cached) * prices.0 + tokens.cached
            * prices.1 + tokens.cache_write * prices.2 + tokens.output * prices.3 + 500_000)
            / 1_000_000,
{
    let fresh = tokens.input - tokens.cached;
    let (a, b, c, d) = (
        fresh * prices.0,
        tokens.cached * prices.1,
        tokens.cache_write * prices.2,
        tokens.output * prices.3,
    );
    assert(a >= 0) by (nonlinear_arith)
        requires
            a == fresh * prices.0,
            fresh >= 0,
            prices.0 >= 0,
    ;
    assert(b >= 0) by (nonlinear_arith)
        requires
            b == tokens.cached * prices.1,
            tokens.cached >= 0,
            prices.1 >= 0,
    ;
    assert(c >= 0) by (nonlinear_arith)
        requires
            c == tokens.cache_write * prices.2,
            tokens.cache_write >= 0,
            prices.2 >= 0,
    ;
    assert(d >= 0) by (nonlinear_arith)
        requires
            d == tokens.output * prices.3,
            tokens.output >= 0,
            prices.3 >= 0,
    ;
    assert(excess(tokens.input, tokens.cached) == fresh);
    assert(weighted_tokens(tokens, prices) == a + b + c + d);
}

/// An amount at a tier: the fast tier multiplies it by a finite factor that is not below zero.
pub open spec fn at_tier(base: i64, multiplier: Option<Double>, tier: ServiceTier) -> Option<i64> {
    match tier {
        ServiceTier::Standard => Some(base),
        ServiceTier::Fast => match multiplier {
            Some(factor) if factor.is_factor() => Some(
                if base <= 0 {
                    0
                } else {
                    smaller(product_of(base as int, factor), i64::MAX as int) as i64
                },
            ),
            _ => None,
        },
    }
}

/// The price of a request by the two cards that are in force.
pub open spec fn price_by_cards(
    tokens: TokenCounts,
    model: Seq<char>,
    tier: ServiceTier,
    quality: Seq<Seq<char>>,
    subscription: PriceVersionView,
    api: PriceVersionView,
) -> PriceView {
    match (rate_for(subscription.rates, model), rate_for(api.rates, model)) {
        (Some(credit_rate), Some(api_rate)) => {
            let unsupported = tier == ServiceTier::Fast && (credit_rate.fast_multiplier is None
                || api_rate.fast_multiplier is None);
            let charged = if unsupported {
                ServiceTier::Standard
            } else {
                tier
            };
            let credit = at_tier(
                amount(
                    tokens,
                    prices_for(credit_rate, tokens, subscription.long_context_threshold_tokens),
                ),
                credit_rate.fast_multiplier,
                charged,
            );
            let api_usd = at_tier(
                amount(tokens, prices_for(api_rate, tokens, api.long_context_threshold_tokens)),
                api_rate.fast_multiplier,
                charged,
            );
            if credit is None || api_usd is None {
                unknown_price("pricing_multiplier_invalid"@)
            } else {
                PriceView {
                    credit_micros: credit,
                    api_usd_micros: api_usd,
                    quality: if unsupported {
                        quality.push("fast_unsupported_fallback_standard"@)
                    } else {
                        quality
                    },
                }
            }
        },
        _ => unknown_price("missing_pricing"@),
    }
}

/// The tier at which an event is priced, and the marks that this leaves.
pub open spec fn tier_of_event(tier: Option<Seq<char>>, configured: ServiceTier) -> (
    ServiceTier,
    Seq<Seq<char>>,
) {
    if tier == Some("fast"@) {
        (ServiceTier::Fast, Seq::empty())
    } else if tier == Some("standard"@) {
        (ServiceTier::Standard, Seq::empty())
    } else {
        (configured, seq!["service_tier_unclassified"@])
    }
}

/// The price of a request by two catalogs.
pub open spec fn price_by_catalogs(
    tokens: TokenCounts,
    model: Option<Seq<char>>,
    tier: Option<Seq<char>>,
    at_ms: i64,
    configured: ServiceTier,
    subscription: Seq<PriceVersionView>,
    api: Seq<PriceVersionView>,
) -> PriceView {
    match model {
        None => unknown_price("missing_pricing"@),
        Some(model) => match version_in_force(subscription, at_ms) {
            None => unknown_price("missing_subscription_version"@),
            Some(credit_card) => match version_in_force(api, at_ms) {
                None => unknown_price("missing_api_version"@),
                Some(api_card) => price_by_cards(
                    tokens,
                    model,
                    tier_of_event(tier, configured).0,
                    tier_of_event(tier, configured).1,
                    credit_card,
                    api_card,
                ),
            },
        },
    }
}

/// The two amounts of a price are known together, and an unknown price says why.
pub proof fn lemma_unknown_is_marked(
    tokens: TokenCounts,
    model: Option<Seq<char>>,
    tier: Option<Seq<char>>,
    at_ms: i64,
    configured: ServiceTier,
    subscription: Seq<PriceVersionView>,
    api: Seq<PriceVersionView>,
)
    ensures
        ({
            let price = price_by_catalogs(
                tokens,
                model,
                tier,
                at_ms,
                configured,
                subscription,
                api,
            );
            &&& price.credit_micros is Some <==> price.api_usd_micros is Some
            &&& price.credit_micros is None ==> price.quality.len() == 1
        }),
{
}

/// The name of a tier in an event.
pub open spec fn tier_name(tier: ServiceTier) -> Seq<char> {
    match tier {
        ServiceTier::Standard => "standard"@,
        ServiceTier::Fast => "fast"@,
    }
}

/// An event whose tier is not classified costs what an event of the configured tier costs. Where
/// the cost is known, the price says that the tier was not classified.
pub proof fn lemma_unclassified_costs_the_configured_tier(
    tokens: TokenCounts,
    model: Option<Seq<char>>,
    tier: Option<Seq<char>>,
    at_ms: i64,
    configured: ServiceTier,
    subscription: Seq<PriceVersionView>,
    api: Seq<PriceVersionView>,
)
    requires
        tier != Some("fast"@),
        tier != Some("standard"@),
    ensures
        ({
            let price = price_by_catalogs(
                tokens,
                model,
                tier,
                at_ms,
                configured,
                subscription,
                api,
            );
            let named = price_by_catalogs(
                tokens,
                model,
                Some(tier_name(configured)),
                at_ms,
                configured,
                subscription,
                api,
            );
            &&& price.credit_micros == named.credit_micros
            &&& price.api_usd_micros == named.api_usd_micros
            &&& price.quality == if named.credit_micros is Some {
                seq!["service_tier_unclassified"@] + named.quality
            } else {
                named.quality
            }
        }),
{
    reveal_strlit("fast");
    reveal_strlit("standard");
    assert("standard"@.len() != "fast"@.len());
    let price = price_by_catalogs(tokens, model, tier, at_ms, configured, subscription, api);
    let named = price_by_catalogs(
        tokens,
        model,
        Some(tier_name(configured)),
        at_ms,
        configured,
        subscription,
        api,
    );
    assert(named.credit_micros is Some ==> price.quality =~= seq!["service_tier_unclassified"@]
        + named.quality);
}

/// A fast event for which either card has no multiplier costs what a standard event costs, and the
/// price says so.
pub proof fn lemma_fast_without_multiplier_costs_standard(
    tokens: TokenCounts,
    model: Seq<char>,
    at_ms: i64,
    configured: ServiceTier,
    subscription: Seq<PriceVersionView>,
    api: Seq<PriceVersionView>,
)
    requires
        version_in_force(subscription, at_ms) is Some,
        version_in_force(api, at_ms) is Some,
        rate_for((version_in_force(subscription, at_ms)->0).rates, model) is Some,
        rate_for((version_in_force(api, at_ms)->0).rates, model) is Some,
        (rate_for(
            (version_in_force(subscription, at_ms)->0).rates,
            model,
        )->0).fast_multiplier is None || (rate_for(
            (version_in_force(api, at_ms)->0).rates,
            model,
        )->0).fast_multiplier is None,
    ensures
        ({
            let fast = price_by_catalogs(
                tokens,
                Some(model),
                Some("fast"@),
                at_ms,
                configured,
                subscription,
                api,
            );
            let standard = price_by_catalogs(
                tokens,
                Some(model),
                Some("standard"@),
                at_ms,
                configured,
                subscription,
                api,
            );
            &&& fast.credit_micros is Some
            &&& fast.credit_micros == standard.credit_micros
            &&& fast.api_usd_micros == standard.api_usd_micros
            &&& fast.quality == seq!["fast_unsupported_fallback_standard"@]
            &&& standard.quality == Seq::<Seq<char>>::empty()
        }),
{
    reveal_strlit("fast");
    reveal_strlit("standard");
    assert("standard"@.len() != "fast"@.len());
    let fast = price_by_catalogs(
        tokens,
        Some(model),
        Some("fast"@),
        at_ms,
        configured,
        subscription,
        api,
    );
    assert(fast.quality =~= seq!["fast_unsupported_fallback_standard"@]);
}

/// The amount in millionths that tokens cost at prices per million tokens: input that was not
/// cached, cached input, cache writes and output each at its own price, together rounded to the
/// nearest.
pub open spec fn cost_at(
    tokens: TokenCounts,
    fresh: i64,
    cached: i64,
    written: i64,
    output: i64,
) -> int {
    ((tokens.input - tokens.cached) * fresh + tokens.cached * cached + tokens.cache_write * written
        + tokens.output * output + 500_000) / 1_000_000
}

/// What a request costs by a rate: by its prices for a long context where the card has a threshold,
/// the rate such prices, and the input is above the threshold; else by its ordinary prices.
pub open spec fn cost_by_rate(
    tokens: TokenCounts,
    rate: ModelRateView,
    threshold: Option<i64>,
) -> int {
    if threshold is Some && rate.long_context is Some && tokens.input > threshold->0 {
        cost_at(
            tokens,
            (rate.long_context->0).input_microusd_per_million,
            (rate.long_context->0).cache_read_microusd_per_million,
            (rate.long_context->0).cache_write_microusd_per_million,
            (rate.long_context->0).output_microusd_per_million,
        )
    } else {
        cost_at(
            tokens,
            rate.input_microusd_per_million,
            rate.cache_read_microusd_per_million,
            rate.cache_write_microusd_per_million,
            rate.output_microusd_per_million,
        )
    }
}

/// Whether no price of a rate is negative.
pub open spec fn has_valid_prices(rate: ModelRateView) -> bool {
    &&& rate.input_microusd_per_million >= 0
    &&& rate.cache_read_microusd_per_million >= 0
    &&& rate.cache_write_microusd_per_million >= 0
    &&& rate.output_microusd_per_million >= 0
    &&& rate.long_context is Some ==> (rate.long_context->0).input_microusd_per_million >= 0 && (
    rate.long_context->0).cache_read_microusd_per_million >= 0 && (
    rate.long_context->0).cache_write_microusd_per_million >= 0 && (
    rate.long_context->0).output_microusd_per_million >= 0
}

proof fn lemma_cost_by_rate(tokens: TokenCounts, rate: ModelRateView, threshold: Option<i64>)
    requires
        tokens_are_normal(tokens),
        has_valid_prices(rate),
        cost_by_rate(tokens, rate, threshold) < i64::MAX,
    ensures
        amount(tokens, prices_for(rate, tokens, threshold)) == cost_by_rate(
            tokens,
            rate,
            threshold,
        ),
{
    let prices = prices_for(rate, tokens, threshold);
    lemma_amount_is_rounded_sum(tokens, prices);
}

/// A request at the standard tier costs, in credit by the one card and in dollars by the other, what
/// its tokens cost at the prices of its model. Above the threshold of a card that has prices for a
/// long context all four prices are those; at or below it all four are the ordinary ones.
pub proof fn lemma_request_costs_its_tokens(
    tokens: TokenCounts,
    model: Seq<char>,
    at_ms: i64,
    configured: ServiceTier,
    subscription: Seq<PriceVersionView>,
    api: Seq<PriceVersionView>,
    credit_card: PriceVersionView,
    api_card: PriceVersionView,
    credit_rate: ModelRateView,
    api_rate: ModelRateView,
)
    requires
        version_in_force(subscription, at_ms) == Some(credit_card),
        version_in_force(api, at_ms) == Some(api_card),
        rate_for(credit_card.rates, model) == Some(credit_rate),
        rate_for(api_card.rates, model) == Some(api_rate),
        0 <= tokens.cached <= tokens.input,
        0 <= tokens.cache_write,
        0 <= tokens.reasoning <= tokens.output,
        0 < tokens.total,
        has_valid_prices(credit_rate),
        has_valid_prices(api_rate),
        cost_by_rate(tokens, credit_rate, credit_card.long_context_threshold_tokens) < i64::MAX,
        cost_by_rate(tokens, api_rate, api_card.long_context_threshold_tokens) < i64::MAX,
    ensures
        ({
            let price = price_by_catalogs(
                tokens,
                Some(model),
                Some("standard"@),
                at_ms,
                configured,
                subscription,
                api,
            );
            &&& price.credit_micros is Some
            &&& price.credit_micros->0 == cost_by_rate(
                tokens,
                credit_rate,
                credit_card.long_context_threshold_tokens,
            )
            &&& price.api_usd_micros is Some
            &&& price.api_usd_micros->0 == cost_by_rate(
                tokens,
                api_rate,
                api_card.long_context_threshold_tokens,
            )
            &&& price.quality.len() == 0
        }),
{
    reveal_strlit("fast");
    reveal_strlit("standard");
    assert("standard"@.len() != "fast"@.len());
    lemma_cost_by_rate(tokens, credit_rate, credit_card.long_context_threshold_tokens);
    lemma_cost_by_rate(tokens, api_rate, api_card.long_context_threshold_tokens);
}

/// A fast request with two multipliers of one, of two or of two and a half costs once, twice, or two
/// and a half times what a standard one costs, rounded to the nearest, and halves up.
pub proof fn lemma_fast_costs_a_multiple(
    tokens: TokenCounts,
    model: Seq<char>,
    at_ms: i64,
    configured: ServiceTier,
    subscription: Seq<PriceVersionView>,
    api: Seq<PriceVersionView>,
    credit_halves: int,
    api_halves: int,
)
    requires
        version_in_force(subscription, at_ms) is Some,
        version_in_force(api, at_ms) is Some,
        rate_for((version_in_force(subscription, at_ms)->0).rates, model) is Some,
        rate_for((version_in_force(api, at_ms)->0).rates, model) is Some,
        has_halves(
            (rate_for(
                (version_in_force(subscription, at_ms)->0).rates,
                model,
            )->0).fast_multiplier,
            credit_halves,
        ),
        has_halves(
            (rate_for((version_in_force(api, at_ms)->0).rates, model)->0).fast_multiplier,
            api_halves,
        ),
        ({
            let standard = price_by_catalogs(
                tokens,
                Some(model),
                Some("standard"@),
                at_ms,
                configured,
                subscription,
                api,
            );
            0 <= standard.credit_micros->0 < 0x4_0000_0000_0000 && 0
                <= standard.api_usd_micros->0 < 0x4_0000_0000_0000
        }),
    ensures
        ({
            let standard = price_by_catalogs(
                tokens,
                Some(model),
                Some("standard"@),
                at_ms,
                configured,
                subscription,
                api,
            );
            let fast = price_by_catalogs(
                tokens,
                Some(model),
                Some("fast"@),
                at_ms,
                configured,
                subscription,
                api,
            );
            &&& standard.credit_micros is Some && standard.api_usd_micros is Some
            &&& fast.credit_micros is Some && fast.api_usd_micros is Some
            &&& fast.credit_micros->0 == (credit_halves * standard.credit_micros->0 + 1) / 2
            &&& fast.api_usd_micros->0 == (api_halves * standard.api_usd_micros->0 + 1) / 2
            &&& fast.quality == standard.quality
        }),
{
    reveal_strlit("fast");
    reveal_strlit("standard");
    assert("standard"@.len() != "fast"@.len());
    let standard = price_by_catalogs(
        tokens,
        Some(model),
        Some("standard"@),
        at_ms,
        configured,
        subscription,
        api,
    );
    assert(standard.credit_micros is Some && standard.api_usd_micros is Some);
    lemma_product_by_halves(standard.credit_micros->0 as int, credit_halves);
    lemma_product_by_halves(standard.api_usd_micros->0 as int, api_halves);
}

/// Whether a multiplier is one, two, or two and a half, told in halves.
pub open spec fn has_halves(multiplier: Option<Double>, halves: int) -> bool {
    ||| halves == 2 && multiplier == Some(Double { bits: ONE })
    ||| halves == 4 && multiplier == Some(Double { bits: TWO })
    ||| halves == 5 && multiplier == Some(Double { bits: TWO_AND_A_HALF })
}

/// The card that is in force at an instant is one of the catalog that has started and not ended, and
/// no such card has started later.
pub proof fn lemma_card_in_force(versions: Seq<PriceVersionView>, at_ms: i64)
    ensures
        match version_in_force(versions, at_ms) {
            Some(card) => {
                &&& versions.contains(card)
                &&& card.effective_from_ms <= at_ms
                &&& card.effective_to_ms is Some ==> at_ms < card.effective_to_ms->0
                &&& forall|j: int|
                    0 <= j < versions.len() && (#[trigger] versions[j]).effective_from_ms <= at_ms
                        && (versions[j].effective_to_ms is Some ==> at_ms
                        < versions[j].effective_to_ms->0) ==> versions[j].effective_from_ms
                        <= card.effective_from_ms
            },
            None => forall|j: int|
                0 <= j < versions.len() ==> at_ms < (#[trigger] versions[j]).effective_from_ms || (
                versions[j].effective_to_ms is Some && versions[j].effective_to_ms->0 <= at_ms),
        },
{
    let wanted = |v: PriceVersionView| v.in_force(at_ms);
    lemma_last_start(versions, wanted);
    if let Some(i) = last_start(versions, wanted) {
        assert(wanted(versions[i]));
        assert forall|j: int|
            0 <= j < versions.len() && (#[trigger] versions[j]).effective_from_ms <= at_ms && (
            versions[j].effective_to_ms is Some ==> at_ms
                < versions[j].effective_to_ms->0) implies versions[j].effective_from_ms
            <= versions[i].effective_from_ms by {
            assert(wanted(versions[j]));
        }
    } else {
        assert forall|j: int| 0 <= j < versions.len() implies at_ms
            < (#[trigger] versions[j]).effective_from_ms || (versions[j].effective_to_ms is Some
            && versions[j].effective_to_ms->0 <= at_ms) by {
            assert(!wanted(versions[j]));
        }
    }
}

/// The newest card of a catalog is one of it, and none starts later.
pub proof fn lemma_newest_card(versions: Seq<PriceVersionView>)
    ensures
        match newest_version(versions) {
            Some(card) => versions.contains(card) && forall|j: int|
                0 <= j < versions.len() ==> (#[trigger] versions[j]).effective_from_ms
                    <= card.effective_from_ms,
            None => versions.len() == 0,
        },
{
    let wanted = |v: PriceVersionView| true;
    lemma_last_start(versions, wanted);
    if let Some(i) = last_start(versions, wanted) {
        assert forall|j: int| 0 <= j < versions.len() implies (
        #[trigger] versions[j]).effective_from_ms <= versions[i].effective_from_ms by {
            assert(wanted(versions[j]));
        }
    } else if versions.len() > 0 {
        assert(!wanted(versions[0]));
    }
}

/// Whether a name of a rate is the model, in whatever case.
pub open spec fn is_named(rate: ModelRateView, model: Seq<char>) -> bool {
    ascii_lower(rate.model) == ascii_lower(model) || exists|k: int|
        0 <= k < rate.aliases.len() && ascii_lower(#[trigger] rate.aliases[k]) == ascii_lower(model)
}

/// Whether the model goes on after a name with a hyphen.
pub open spec fn goes_on(name: Seq<char>, model: Seq<char>) -> bool {
    begins_with(ascii_lower(model), ascii_lower(name) + "-"@)
}

/// Whether the model goes on after a name of a rate with a hyphen.
pub open spec fn continues(rate: ModelRateView, model: Seq<char>) -> bool {
    goes_on(rate.model, model) || exists|k: int|
        0 <= k < rate.aliases.len() && goes_on(#[trigger] rate.aliases[k], model)
}

proof fn lemma_names_score(names: Seq<Seq<char>>, model: Seq<char>)
    ensures
        names_score(names, ascii_lower(model)) is Some <==> exists|k: int|
            0 <= k < names.len() && (ascii_lower(#[trigger] names[k]) == ascii_lower(model)
                || goes_on(names[k], model)),
        names_score(names, ascii_lower(model)) is Some ==> (names_score(
            names,
            ascii_lower(model),
        )->0 >= 1_000_000 <== exists|k: int|
            0 <= k < names.len() && ascii_lower(#[trigger] names[k]) == ascii_lower(model)),
        (forall|k: int| 0 <= k < names.len() ==> encode_utf8(ascii_lower(#[trigger] names[k])).len()
            < 1_000_000) && names_score(names, ascii_lower(model)) is Some && names_score(
            names,
            ascii_lower(model),
        )->0 >= 1_000_000 ==> exists|k: int|
            0 <= k < names.len() && ascii_lower(#[trigger] names[k]) == ascii_lower(model),
    decreases names.len(),
{
    if names.len() > 0 {
        let shorter = names.drop_last();
        lemma_names_score(shorter, model);
        assert forall|k: int| 0 <= k < shorter.len() implies shorter[k] == #[trigger] names[k] by {}
        assert(names[names.len() - 1] == names.last());
    }
}

/// Whether the names of a rate are of ordinary length.
pub open spec fn has_short_names(rate: ModelRateView) -> bool {
    encode_utf8(ascii_lower(rate.model)).len() < 1_000_000 && forall|k: int|
        0 <= k < rate.aliases.len() ==> encode_utf8(ascii_lower(#[trigger] rate.aliases[k])).len()
            < 1_000_000
}

/// A model is priced by a rate that has its name or an alias for it, where there is one; else by one
/// with a name after which the model goes on with a hyphen; else by none.
pub proof fn lemma_rate_is_for_the_model(rates: Seq<ModelRateView>, model: Seq<char>)
    requires
        forall|j: int| 0 <= j < rates.len() ==> has_short_names(#[trigger] rates[j]),
    ensures
        match rate_for(rates, model) {
            Some(rate) => {
                &&& rates.contains(rate)
                &&& (exists|j: int| 0 <= j < rates.len() && is_named(#[trigger] rates[j], model))
                    ==> is_named(rate, model)
                &&& is_named(rate, model) || continues(rate, model)
            },
            None => forall|j: int|
                0 <= j < rates.len() ==> !is_named(#[trigger] rates[j], model) && !continues(
                    rates[j],
                    model,
                ),
        },
{
    let lowered = ascii_lower(model);
    lemma_best_rate(rates, lowered);
    assert forall|j: int| 0 <= j < rates.len() implies (rate_score(#[trigger] rates[j], lowered)
        is Some <==> is_named(rates[j], model) || continues(rates[j], model)) && (rate_score(
        rates[j],
        lowered,
    ) is Some ==> (rate_score(rates[j], lowered)->0 >= 1_000_000 <==> is_named(
        rates[j],
        model,
    ))) by {
        lemma_names_score(rates[j].aliases, model);
    }
}

fn unknown(flag: &str) -> (r: Price)
    ensures
        r.deep_view() == unknown_price(flag@),
{
    let mut quality: Vec<String> = Vec::new();
    quality.push(flag.to_owned());
    assert(quality.deep_view() =~= seq![flag@]);
    Price { credit_micros: None, api_usd_micros: None, quality }
}

fn score_name(name: &str, model: &str) -> (r: Option<u128>)
    ensures
        r is Some <==> name_score(name@, model@) is Some,
        r is Some ==> r->0 == name_score(name@, model@)->0,
{
    let lowered = to_ascii_lowercase(name);
    let length: usize = lowered.as_str().as_bytes().len();
    if same(model, lowered.as_str()) {
        return Some(1_000_000 + length as u128);
    }
    let mut prefix = lowered;
    prefix.append("-");
    if starts_with(model, prefix.as_str()) {
        Some(length as u128)
    } else {
        None
    }
}

fn better(a: Option<u128>, b: Option<u128>) -> (r: Option<u128>)
    ensures
        r is Some <==> a is Some || b is Some,
        a is Some && b is Some ==> r->0 == larger(a->0 as int, b->0 as int),
        a is Some && b is None ==> r == a,
        a is None ==> r == b,
{
    match (a, b) {
        (Some(x), Some(y)) => if x >= y {
            Some(x)
        } else {
            Some(y)
        },
        (Some(x), None) => Some(x),
        (None, _) => b,
    }
}

/// How well a rate fits a model whose name is in lower case.
pub fn match_score(rate: &ModelRate, model: &str) -> (r: Option<u128>)
    ensures
        r is Some <==> rate_score(rate.deep_view(), model@) is Some,
        r is Some ==> r->0 == rate_score(rate.deep_view(), model@)->0,
{
    let ghost names = rate.aliases.deep_view();
    let mut best: Option<u128> = None;
    let mut i: usize = 0;
    while i < rate.aliases.len()
        invariant
            i <= rate.aliases@.len(),
            names == rate.aliases.deep_view(),
            best is Some <==> names_score(names.take(i as int), model@) is Some,
            best is Some ==> best->0 == names_score(names.take(i as int), model@)->0,
        decreases rate.aliases@.len() - i,
    {
        best = better(best, score_name(rate.aliases[i].as_str(), model));
        assert(names.take(i + 1).drop_last() =~= names.take(i as int));
        i = i + 1;
    }
    assert(names.take(i as int) =~= names);
    better(score_name(rate.model.as_str(), model), best)
}

/// The rate for a model.
pub fn find_rate<'a>(rates: &'a Vec<ModelRate>, model: &str) -> (r: Option<&'a ModelRate>)
    ensures
        r.deep_view() == rate_for(rates.deep_view(), model@),
{
    let lowered = to_ascii_lowercase(model);
    let ghost all = rates.deep_view();
    let mut best: Option<(usize, u128)> = None;
    let mut i: usize = 0;
    while i < rates.len()
        invariant
            i <= rates@.len(),
            all == rates.deep_view(),
            lowered@ == ascii_lower(model@),
            match best {
                Some((b, score)) => {
                    &&& b < i
                    &&& best_rate(all.take(i as int), lowered@) == Some(b as int)
                    &&& rate_score(all[b as int], lowered@) == Some(score as int)
                },
                None => best_rate(all.take(i as int), lowered@) is None,
            },
        decreases rates@.len() - i,
    {
        assert(all.take(i + 1).drop_last() =~= all.take(i as int));
        assert(all.take(i + 1).last() == rates@[i as int].deep_view());
        if let Some(score) = match_score(&rates[i], lowered.as_str()) {
            let improves = match best {
                Some((_, held)) => held <= score,
                None => true,
            };
            if improves {
                best = Some((i, score));
            }
        }
        i = i + 1;
    }
    assert(all.take(i as int) =~= all);
    match best {
        Some((b, _)) => Some(&rates[b]),
        None => None,
    }
}

fn rate_values(rate: &ModelRate, tokens: &TokenCounts, threshold: Option<i64>) -> (r: (
    i64,
    i64,
    i64,
    i64,
))
    ensures
        r == prices_for(rate.deep_view(), *tokens, threshold),
{
    if let (Some(threshold), Some(long)) = (threshold, rate.long_context) {
        if tokens.input > threshold {
            return (
                long.input_microusd_per_million,
                long.cache_read_microusd_per_million,
                long.cache_write_microusd_per_million,
                long.output_microusd_per_million,
            );
        }
    }
    (
        rate.input_microusd_per_million,
        rate.cache_read_microusd_per_million,
        rate.cache_write_microusd_per_million,
        rate.output_microusd_per_million,
    )
}

fn product(a: i64, b: i64) -> (r: i128)
    ensures
        r == a * b,
{
    proof {
        let (x, y) = (a as int, b as int);
        assert(-0x4000_0000_0000_0000_0000_0000_0000_0000 <= x * y
            <= 0x4000_0000_0000_0000_0000_0000_0000_0000) by (nonlinear_arith)
            requires
                -0x8000_0000_0000_0000 <= x < 0x8000_0000_0000_0000,
                -0x8000_0000_0000_0000 <= y < 0x8000_0000_0000_0000,
        ;
    }
    (a as i128) * (b as i128)
}

/// The amount of a request at the prices of input, cached input, cache writes and output.
pub fn calculate(tokens: &TokenCounts, rates: (i64, i64, i64, i64)) -> (r: i64)
    ensures
        r == amount(*tokens, rates),
{
    let fresh = surplus(tokens.input, tokens.cached);
    let first = saturating_add_wide(product(fresh, rates.0), product(tokens.cached, rates.1));
    let second = saturating_add_wide(first, product(tokens.cache_write, rates.2));
    let third = saturating_add_wide(second, product(tokens.output, rates.3));
    let shifted = saturating_add_wide(third, 500_000);
    let rounded: i128 = if shifted >= 0 {
        shifted / 1_000_000
    } else {
        -((-shifted) / 1_000_000)
    };
    if rounded < i64::MIN as i128 || rounded > i64::MAX as i128 {
        i64::MAX
    } else {
        rounded as i64
    }
}

fn apply_multiplier(base: i64, multiplier: Option<Double>, tier: ServiceTier) -> (r: Option<i64>)
    ensures
        r == at_tier(base, multiplier, tier),
{
    match tier {
        ServiceTier::Standard => Some(base),
        ServiceTier::Fast => match multiplier {
            Some(factor) => if !factor.can_multiply() {
                None
            } else if base <= 0 {
                Some(0)
            } else {
                Some(factor.multiply(base))
            },
            None => None,
        },
    }
}

/// The price of a request by the cards of two catalogs that are in force at `at_ms`, where
/// `configured` is the tier of events that name none.
pub fn price_with_config(
    tokens: &TokenCounts,
    model: Option<&str>,
    tier: Option<&str>,
    at_ms: i64,
    configured: ServiceTier,
    subscription: &PriceFile,
    api: &PriceFile,
) -> (r: Price)
    ensures
        r.deep_view() == price_by_catalogs(
            *tokens,
            model.deep_view(),
            tier.deep_view(),
            at_ms,
            configured,
            subscription.deep_view().versions,
            api.deep_view().versions,
        ),
{
    let model = match model {
        Some(model) => model,
        None => return unknown("missing_pricing"),
    };
    let mut quality: Vec<String> = Vec::new();
    let named = match tier {
        Some(tier) => if same(tier, "fast") {
            Some(ServiceTier::Fast)
        } else if same(tier, "standard") {
            Some(ServiceTier::Standard)
        } else {
            None
        },
        None => None,
    };
    let mut effective = match named {
        Some(tier) => tier,
        None => {
            quality.push("service_tier_unclassified".to_owned());
            configured
        },
    };
    let ghost expected = tier_of_event(tier.deep_view(), configured);
    assert(effective == expected.0 && quality.deep_view() =~= expected.1);
    let subscription_version = match subscription.version_at(at_ms) {
        Some(version) => version,
        None => return unknown("missing_subscription_version"),
    };
    let api_version = match api.version_at(at_ms) {
        Some(version) => version,
        None => return unknown("missing_api_version"),
    };
    let subscription_rate = match find_rate(&subscription_version.rates, model) {
        Some(rate) => rate,
        None => return unknown("missing_pricing"),
    };
    let api_rate = match find_rate(&api_version.rates, model) {
        Some(rate) => rate,
        None => return unknown("missing_pricing"),
    };
    if effective == ServiceTier::Fast && (subscription_rate.fast_multiplier.is_none()
        || api_rate.fast_multiplier.is_none()) {
        effective = ServiceTier::Standard;
        quality.push("fast_unsupported_fallback_standard".to_owned());
        assert(quality.deep_view() =~= expected.1.push("fast_unsupported_fallback_standard"@));
    }
    let credit = apply_multiplier(
        calculate(
            tokens,
            rate_values(
                subscription_rate,
                tokens,
                subscription_version.long_context_threshold_tokens,
            ),
        ),
        subscription_rate.fast_multiplier,
        effective,
    );
    let api_usd = apply_multiplier(
        calculate(
            tokens,
            rate_values(api_rate, tokens, api_version.long_context_threshold_tokens),
        ),
        api_rate.fast_multiplier,
        effective,
    );
    if credit.is_none() || api_usd.is_none() {
        return unknown("pricing_multiplier_invalid");
    }
    Price { credit_micros: credit, api_usd_micros: api_usd, quality }
}

/// The price of a request by the built-in catalogs.
pub fn price(
    tokens: &TokenCounts,
    model: Option<&str>,
    tier: Option<&str>,
    at_ms: i64,
    configured: ServiceTier,
) -> (r: Price)
    ensures
        r.deep_view() == price_by_catalogs(
            *tokens,
            model.deep_view(),
            tier.deep_view(),
            at_ms,
            configured,
            embedded_subscription(),
            embedded_api(),
        ),
{
    let config = ProjectConfig::embedded();
    price_with_config(
        tokens,
        model,
        tier,
        at_ms,
        configured,
        &config.subscription_credit,
        &config.api_usd,
    )
}

/// A text without the quotation marks at its start.
pub open spec fn unquoted_start(s: Seq<char>) -> Seq<char>
    decreases s.len(),
{
    if s.len() > 0 && (s[0] == '"' || s[0] == '\'') {
        unquoted_start(s.skip(1))
    } else {
        s
    }
}

/// A text without the quotation marks at its two ends.
pub open spec fn unquoted(s: Seq<char>) -> Seq<char> {
    unquoted_end(unquoted_start(s))
}

/// A text without the quotation marks at its end.
pub open spec fn unquoted_end(s: Seq<char>) -> Seq<char>
    decreases s.len(),
{
    if s.len() > 0 && (s.last() == '"' || s.last() == '\'') {
        unquoted_end(s.drop_last())
    } else {
        s
    }
}

/// Whether a line of `config.toml`, up to a comment, sets the service tier to a fast one.
pub open spec fn line_asks_for_fast(line: Seq<char>) -> bool {
    match cut(trimmed(pieces(line, '#')[0]), '=') {
        Some((key, value)) => trimmed(key) == "service_tier"@ && (unquoted(trimmed(value))
            == "fast"@ || unquoted(trimmed(value)) == "priority"@),
        None => false,
    }
}

/// A line without the carriage return that ends it.
pub open spec fn without_carriage_return(line: Seq<char>) -> Seq<char> {
    if line.len() > 0 && line.last() == '\r' {
        line.drop_last()
    } else {
        line
    }
}

/// The lines of a text: what its line feeds end, each without a carriage return at its end, and
/// what follows the last line feed.
pub open spec fn lines_of(content: Seq<char>) -> Seq<Seq<char>> {
    let parts = pieces(content, '\n');
    Seq::new(
        parts.len(),
        |i: int|
            if i + 1 < parts.len() {
                without_carriage_return(parts[i])
            } else {
                parts[i]
            },
    )
}

/// The tier that `config.toml` asks for.
pub open spec fn tier_in_config(content: Seq<char>) -> ServiceTier {
    if exists|i: int|
        0 <= i < lines_of(content).len() && line_asks_for_fast(#[trigger] lines_of(content)[i]) {
        ServiceTier::Fast
    } else {
        ServiceTier::Standard
    }
}

fn is_quotation_mark(c: char) -> (r: bool)
    ensures
        r == (c == '"' || c == '\''),
{
    c == '"' || c == '\''
}

fn strip_quotation_marks(s: &str) -> (r: String)
    ensures
        r@ == unquoted(s@),
{
    let v = characters(s);
    let mut from: usize = 0;
    assert(v@.skip(0) =~= v@);
    while from < v.len() && is_quotation_mark(v[from])
        invariant
            from <= v@.len(),
            v@ == s@,
            unquoted_start(v@.skip(from as int)) == unquoted_start(s@),
        decreases v@.len() - from,
    {
        assert(v@.skip(from as int).skip(1) =~= v@.skip(from + 1));
        from = from + 1;
    }
    let mut to: usize = v.len();
    assert(v@.subrange(from as int, to as int) =~= v@.skip(from as int));
    while from < to && is_quotation_mark(v[to - 1])
        invariant
            from <= to <= v@.len(),
            unquoted_end(v@.subrange(from as int, to as int)) == unquoted_end(
                v@.skip(from as int),
            ),
        decreases to,
    {
        assert(v@.subrange(from as int, to as int).drop_last() =~= v@.subrange(
            from as int,
            to - 1,
        ));
        to = to - 1;
    }
    from_characters(&v, from, to)
}

fn asks_for_fast(line: &str) -> (r: bool)
    ensures
        r == line_asks_for_fast(line@),
{
    let parts = split(line, '#');
    assert(parts.deep_view()[0] == parts@[0]@);
    let setting = trim(parts[0].as_str());
    match split_once(setting.as_str(), '=') {
        Some((key, value)) => {
            if !same(trim(key.as_str()).as_str(), "service_tier") {
                return false;
            }
            let chosen = strip_quotation_marks(trim(value.as_str()).as_str());
            same(chosen.as_str(), "fast") || same(chosen.as_str(), "priority")
        },
        None => false,
    }
}

fn strip_carriage_return(line: &str) -> (r: String)
    ensures
        r@ == without_carriage_return(line@),
{
    let v = characters(line);
    let len: usize = v.len();
    if len > 0 && v[len - 1] == '\r' {
        let r = from_characters(&v, 0, len - 1);
        assert(r@ =~= line@.drop_last());
        r
    } else {
        line.to_owned()
    }
}

/// The lines of a text.
pub fn lines(content: &str) -> (r: Vec<String>)
    ensures
        r.deep_view() == lines_of(content@),
{
    let parts = split(content, '\n');
    let mut r: Vec<String> = Vec::new();
    let mut i: usize = 0;
    while i < parts.len()
        invariant
            i <= parts@.len(),
            parts.deep_view() == pieces(content@, '\n'),
            r.deep_view() == lines_of(content@).take(i as int),
        decreases parts@.len() - i,
    {
        let ghost before = r.deep_view();
        let line = if i < parts.len() - 1 {
            strip_carriage_return(parts[i].as_str())
        } else {
            parts[i].clone()
        };
        assert(parts.deep_view()[i as int] == parts@[i as int]@);
        assert(line@ == lines_of(content@)[i as int]);
        r.push(line);
        i = i + 1;
        assert(r.deep_view() =~= before.push(line@));
        assert(r.deep_view() =~= lines_of(content@).take(i as int));
    }
    assert(lines_of(content@).take(i as int) =~= lines_of(content@));
    r
}

/// The tier that the text of a `config.toml` asks for.
pub fn config_service_tier(content: &str) -> (r: ServiceTier)
    ensures
        r == tier_in_config(content@),
{
    let all = lines(content);
    let mut i: usize = 0;
    while i < all.len()
        invariant
            i <= all@.len(),
            all.deep_view() == lines_of(content@),
            forall|k: int| 0 <= k < i ==> !line_asks_for_fast(#[trigger] lines_of(content@)[k]),
        decreases all@.len() - i,
    {
        assert(lines_of(content@)[i as int] == all@[i as int]@);
        if asks_for_fast(all[i].as_str()) {
            return ServiceTier::Fast;
        }
        i = i + 1;
    }
    ServiceTier::Standard
}

/// The tier that the first of several configuration files that can be read asks for; the standard
/// tier where none can be read.
pub open spec fn configured_tier(contents: Seq<Option<Seq<char>>>) -> ServiceTier
    decreases contents.len(),
{
    if contents.len() == 0 {
        ServiceTier::Standard
    } else {
        match contents[0] {
            Some(content) => tier_in_config(content),
            None => configured_tier(contents.skip(1)),
        }
    }
}

/// The tier that the configuration asks for, by the contents of the files where it may stand; a
/// file that could not be read has none.
pub fn configured_service_tier(contents: &Vec<Option<String>>) -> (r: ServiceTier)
    ensures
        r == configured_tier(contents.deep_view()),
{
    let ghost all = contents.deep_view();
    let mut i: usize = 0;
    assert(all.skip(0) =~= all);
    while i < contents.len()
        invariant
            i <= contents@.len(),
            all == contents.deep_view(),
            configured_tier(all) == configured_tier(all.skip(i as int)),
        decreases contents@.len() - i,
    {
        assert(all.skip(i as int)[0] == contents@[i as int].deep_view());
        if let Some(content) = &contents[i] {
            return config_service_tier(content.as_str());
        }
        assert(all.skip(i as int).skip(1) =~= all.skip(i + 1));
        i = i + 1;
    }
    ServiceTier::Standard
}

/// The name of a card, where there is one.
pub open spec fn version_name(version: Option<PriceVersionView>) -> Seq<char> {
    match version {
        Some(version) => version.version,
        None => "missing"@,
    }
}

fn name_of_version(version: Option<&PriceVersion>) -> (s: String)
    ensures
        s@ == version_name(version.deep_view()),
{
    match version {
        Some(version) => version.version.clone(),
        None => "missing".to_owned(),
    }
}

/// The newest cards of two catalogs, by their names.
pub fn catalogs_version(subscription: &PriceFile, api: &PriceFile) -> (s: String)
    ensures
        s@ == version_name(newest_version(subscription.deep_view().versions)) + "+"@ + version_name(
            newest_version(api.deep_view().versions),
        ),
{
    let mut s = name_of_version(subscription.latest_version());
    s.append("+");
    s.append(name_of_version(api.latest_version()).as_str());
    s
}

/// The newest cards of the built-in catalogs, by their names.
pub open spec fn embedded_pricing_version() -> Seq<char> {
    version_name(newest_version(embedded_subscription())) + "+"@ + version_name(
        newest_version(embedded_api()),
    )
}

/// The newest cards of the built-in catalogs, by their names.
pub fn pricing_version() -> (s: String)
    ensures
        s@ == embedded_pricing_version(),
{
    let config = ProjectConfig::embedded();
    catalogs_version(&config.subscription_credit, &config.api_usd)
}

/// What the price card shows of a rate.
#[derive(Clone, Copy, Debug, PartialEq, Eq, Structural)]
pub struct CardPrices {
    pub input: i64,
    pub cache_read: i64,
    pub cache_write: i64,
    pub output: i64,
    pub fast_multiplier: Option<Double>,
    pub long_context: Option<LongContextRate>,
}

/// A model on the price card.
#[derive(Debug)]
pub struct CardRow {
    pub model: String,
    pub subscription: CardPrices,
    pub api: Option<CardPrices>,
}

/// The price card from one instant until the next one at which a catalog changes.
#[derive(Debug)]
pub struct CardGroup {
    pub version: String,
    pub effective_from_ms: i64,
    pub effective_to_ms: Option<i64>,
    pub rows: Vec<CardRow>,
}

pub struct CardRowView {
    pub model: Seq<char>,
    pub subscription: CardPrices,
    pub api: Option<CardPrices>,
}

pub struct CardGroupView {
    pub version: Seq<char>,
    pub effective_from_ms: i64,
    pub effective_to_ms: Option<i64>,
    pub rows: Seq<CardRowView>,
}

impl DeepView for CardRow {
    type V = CardRowView;

    open spec fn deep_view(&self) -> CardRowView {
        CardRowView { model: self.model@, subscription: self.subscription, api: self.api }
    }
}

impl DeepView for CardGroup {
    type V = CardGroupView;

    open spec fn deep_view(&self) -> CardGroupView {
        CardGroupView {
            version: self.version@,
            effective_from_ms: self.effective_from_ms,
            effective_to_ms: self.effective_to_ms,
            rows: self.rows.deep_view(),
        }
    }
}

/// The prices of a rate.
pub open spec fn card_prices(rate: ModelRateView) -> CardPrices {
    CardPrices {
        input: rate.input_microusd_per_million,
        cache_read: rate.cache_read_microusd_per_million,
        cache_write: rate.cache_write_microusd_per_million,
        output: rate.output_microusd_per_million,
        fast_multiplier: rate.fast_multiplier,
        long_context: rate.long_context,
    }
}

/// One row for each rate of the subscription card, with the API prices of its model.
pub open spec fn card_rows(subscription: Seq<ModelRateView>, api: Seq<ModelRateView>) -> Seq<
    CardRowView,
> {
    Seq::new(
        subscription.len(),
        |i: int|
            CardRowView {
                model: subscription[i].model,
                subscription: card_prices(subscription[i]),
                api: match rate_for(api, subscription[i].model) {
                    Some(rate) => Some(card_prices(rate)),
                    None => None,
                },
            },
    )
}

/// Whether a card starts or ends at `at`.
pub open spec fn is_boundary(versions: Seq<PriceVersionView>, at: i64) -> bool {
    exists|i: int|
        0 <= i < versions.len() && (#[trigger] versions[i].effective_from_ms == at
            || versions[i].effective_to_ms == Some(at))
}

/// Whether integers stand in increasing order, none of them twice.
pub open spec fn increasing(s: Seq<i64>) -> bool {
    forall|i: int, j: int| 0 <= i < j < s.len() ==> s[i] < s[j]
}

/// The groups from the boundaries at or after place `from`, where both catalogs have a card in
/// force.
pub open spec fn card_groups(
    boundaries: Seq<i64>,
    from: int,
    subscription: Seq<PriceVersionView>,
    api: Seq<PriceVersionView>,
) -> Seq<CardGroupView>
    decreases boundaries.len() - from,
{
    if from < 0 || from >= boundaries.len() {
        Seq::empty()
    } else {
        let rest = card_groups(boundaries, from + 1, subscription, api);
        match (
            version_in_force(subscription, boundaries[from]),
            version_in_force(api, boundaries[from]),
        ) {
            (Some(credit), Some(dollars)) => seq![
                CardGroupView {
                    version: credit.version + " + "@ + dollars.version,
                    effective_from_ms: boundaries[from],
                    effective_to_ms: if from + 1 < boundaries.len() {
                        Some(boundaries[from + 1])
                    } else {
                        None
                    },
                    rows: card_rows(credit.rates, dollars.rates),
                },
            ] + rest,
            _ => rest,
        }
    }
}

fn prices_on_card(rate: &ModelRate) -> (r: CardPrices)
    ensures
        r == card_prices(rate.deep_view()),
{
    CardPrices {
        input: rate.input_microusd_per_million,
        cache_read: rate.cache_read_microusd_per_million,
        cache_write: rate.cache_write_microusd_per_million,
        output: rate.output_microusd_per_million,
        fast_multiplier: rate.fast_multiplier,
        long_context: rate.long_context,
    }
}

fn rows_of_card(subscription: &Vec<ModelRate>, api: &Vec<ModelRate>) -> (r: Vec<CardRow>)
    ensures
        r.deep_view() == card_rows(subscription.deep_view(), api.deep_view()),
{
    let ghost expected = card_rows(subscription.deep_view(), api.deep_view());
    let mut r: Vec<CardRow> = Vec::new();
    let mut i: usize = 0;
    while i < subscription.len()
        invariant
            i <= subscription@.len(),
            expected == card_rows(subscription.deep_view(), api.deep_view()),
            r.deep_view() == expected.take(i as int),
        decreases subscription@.len() - i,
    {
        let ghost before = r.deep_view();
        let rate = &subscription[i];
        assert(subscription.deep_view()[i as int] == rate.deep_view());
        let row = CardRow {
            model: rate.model.clone(),
            subscription: prices_on_card(rate),
            api: match find_rate(api, rate.model.as_str()) {
                Some(found) => Some(prices_on_card(found)),
                None => None,
            },
        };
        assert(row.deep_view() == expected[i as int]);
        r.push(row);
        i = i + 1;
        assert(r.deep_view() =~= before.push(expected[i - 1]));
        assert(r.deep_view() =~= expected.take(i as int));
    }
    assert(expected.take(i as int) =~= expected);
    r
}

/// Puts `x` at its place in an increasing sequence, unless it is there.
fn insert_boundary(v: &mut Vec<i64>, x: i64)
    requires
        increasing(old(v)@),
    ensures
        increasing(final(v)@),
        forall|y: i64| #[trigger] final(v)@.contains(y) <==> old(v)@.contains(y) || y == x,
{
    let mut i: usize = 0;
    while i < v.len() && v[i] < x
        invariant
            i <= v@.len(),
            v@ == old(v)@,
            increasing(v@),
            forall|k: int| 0 <= k < i ==> v@[k] < x,
        decreases v@.len() - i,
    {
        i = i + 1;
    }
    if i < v.len() && v[i] == x {
        assert(v@[i as int] == x);
        return;
    }
    let ghost before = v@;
    v.insert(i, x);
    proof {
        assert(v@ =~= before.take(i as int).push(x) + before.skip(i as int));
        assert forall|y: i64| #[trigger] v@.contains(y) <==> before.contains(y) || y == x by {
            if before.contains(y) {
                let k = before.index_of(y);
                if k < i {
                    assert(v@[k] == y);
                } else {
                    assert(v@[k + 1] == y);
                }
            }
            if y == x {
                assert(v@[i as int] == y);
            }
            if v@.contains(y) {
                let k = v@.index_of(y);
                if k < i {
                    assert(before[k] == y);
                } else if k > i {
                    assert(before[k - 1] == y);
                }
            }
        }
    }
}

fn insert_boundaries(v: &mut Vec<i64>, file: &PriceFile)
    requires
        increasing(old(v)@),
    ensures
        increasing(final(v)@),
        forall|y: i64| #[trigger]
            final(v)@.contains(y) <==> old(v)@.contains(y) || is_boundary(file.deep_view().versions, y),
{
    let ghost all = file.deep_view().versions;
    let mut i: usize = 0;
    proof {
        assert forall|y: i64| !is_boundary(all.take(0), y) by {}
    }
    while i < file.versions.len()
        invariant
            i <= file.versions@.len(),
            all == file.deep_view().versions,
            increasing(v@),
            forall|y: i64| #[trigger]
                v@.contains(y) <==> old(v)@.contains(y) || is_boundary(all.take(i as int), y),
        decreases file.versions@.len() - i,
    {
        let version = &file.versions[i];
        assert(all[i as int] == version.deep_view());
        insert_boundary(v, version.effective_from_ms);
        if let Some(to) = version.effective_to_ms {
            insert_boundary(v, to);
        }
        proof {
            let (short, long) = (all.take(i as int), all.take(i + 1));
            assert forall|y: i64|
                is_boundary(long, y) <==> is_boundary(short, y) || all[i as int].effective_from_ms
                    == y || all[i as int].effective_to_ms == Some(y) by {
                if is_boundary(short, y) {
                    let k = choose|k: int|
                        0 <= k < short.len() && (#[trigger] short[k].effective_from_ms == y
                            || short[k].effective_to_ms == Some(y));
                    assert(long[k].effective_from_ms == short[k].effective_from_ms);
                }
                assert(long[i as int].effective_from_ms == all[i as int].effective_from_ms);
                if is_boundary(long, y) {
                    let k = choose|k: int|
                        0 <= k < long.len() && (#[trigger] long[k].effective_from_ms == y
                            || long[k].effective_to_ms == Some(y));
                    if k < i {
                        assert(short[k].effective_from_ms == long[k].effective_from_ms);
                    }
                }
            }
        }
        i = i + 1;
    }
    assert(all.take(i as int) =~= all);
}

/// The price card of two catalogs: one group from each instant at which a card starts or ends.
pub fn catalogs_card(subscription: &PriceFile, api: &PriceFile) -> (r: Vec<CardGroup>)
    ensures
        exists|boundaries: Seq<i64>|
            {
                &&& increasing(boundaries)
                &&& forall|y: i64| #[trigger]
                    boundaries.contains(y) <==> is_boundary(subscription.deep_view().versions, y)
                        || is_boundary(api.deep_view().versions, y)
                &&& r.deep_view() == #[trigger] card_groups(
                    boundaries,
                    0,
                    subscription.deep_view().versions,
                    api.deep_view().versions,
                )
            },
{
    let mut boundaries: Vec<i64> = Vec::new();
    insert_boundaries(&mut boundaries, subscription);
    insert_boundaries(&mut boundaries, api);
    let ghost (credits, dollars) = (subscription.deep_view().versions, api.deep_view().versions);
    let mut r: Vec<CardGroup> = Vec::new();
    let mut i: usize = 0;
    assert(r.deep_view() + card_groups(boundaries@, 0, credits, dollars) =~= card_groups(
        boundaries@,
        0,
        credits,
        dollars,
    ));
    while i < boundaries.len()
        invariant
            i <= boundaries@.len(),
            credits == subscription.deep_view().versions,
            dollars == api.deep_view().versions,
            r.deep_view() + card_groups(boundaries@, i as int, credits, dollars) == card_groups(
                boundaries@,
                0,
                credits,
                dollars,
            ),
        decreases boundaries@.len() - i,
    {
        let ghost before = r.deep_view();
        let from = boundaries[i];
        let to: Option<i64> = if i < boundaries.len() - 1 {
            Some(boundaries[i + 1])
        } else {
            None
        };
        if let (Some(credit), Some(dollar)) = (subscription.version_at(from), api.version_at(from)) {
            let mut version = credit.version.clone();
            version.append(" + ");
            version.append(dollar.version.as_str());
            let group = CardGroup {
                version,
                effective_from_ms: from,
                effective_to_ms: to,
                rows: rows_of_card(&credit.rates, &dollar.rates),
            };
            r.push(group);
            assert(r.deep_view() =~= before.push(group.deep_view()));
        }
        i = i + 1;
        assert(r.deep_view() + card_groups(boundaries@, i as int, credits, dollars) =~= before
            + card_groups(boundaries@, i - 1, credits, dollars));
    }
    assert(r.deep_view() + Seq::<CardGroupView>::empty() =~= r.deep_view());
    r
}

/// The price card of the built-in catalogs.
pub fn price_card() -> (r: Vec<CardGroup>)
    ensures
        exists|boundaries: Seq<i64>|
            {
                &&& increasing(boundaries)
                &&& forall|y: i64| #[trigger]
                    boundaries.contains(y) <==> is_boundary(embedded_subscription(), y)
                        || is_boundary(embedded_api(), y)
                &&& r.deep_view() == #[trigger] card_groups(
                    boundaries,
                    0,
                    embedded_subscription(),
                    embedded_api(),
                )
            },
{
    let config = ProjectConfig::embedded();
    catalogs_card(&config.subscription_credit, &config.api_usd)
}

/// The prices that a check of the accounts uses for a model.
#[derive(Debug)]
pub struct ModelOverride {
    pub model: String,
    pub prices: CardPrices,
}

pub struct ModelOverrideView {
    pub model: Seq<char>,
    pub prices: CardPrices,
}

impl DeepView for ModelOverride {
    type V = ModelOverrideView;

    open spec fn deep_view(&self) -> ModelOverrideView {
        ModelOverrideView { model: self.model@, prices: self.prices }
    }
}

/// A rate under its own name and each of its aliases.
pub open spec fn overrides_of_rate(rate: ModelRateView) -> Seq<ModelOverrideView> {
    Seq::new(
        1 + rate.aliases.len(),
        |i: int|
            ModelOverrideView {
                model: if i == 0 {
                    rate.model
                } else {
                    rate.aliases[i - 1]
                },
                prices: card_prices(rate),
            },
    )
}

/// The rates of a card, one after the other, under all their names.
pub open spec fn overrides_of_rates(rates: Seq<ModelRateView>) -> Seq<ModelOverrideView>
    decreases rates.len(),
{
    if rates.len() == 0 {
        Seq::empty()
    } else {
        overrides_of_rates(rates.drop_last()) + overrides_of_rate(rates.last())
    }
}

/// The rates of a card under all their names.
pub fn ccusage_overrides_for_version(version: &PriceVersion) -> (r: Vec<ModelOverride>)
    ensures
        r.deep_view() == overrides_of_rates(version.deep_view().rates),
{
    let ghost all = version.rates.deep_view();
    let mut r: Vec<ModelOverride> = Vec::new();
    let mut i: usize = 0;
    assert(r.deep_view() =~= overrides_of_rates(all.take(0)));
    while i < version.rates.len()
        invariant
            i <= version.rates@.len(),
            all == version.rates.deep_view(),
            r.deep_view() == overrides_of_rates(all.take(i as int)),
        decreases version.rates@.len() - i,
    {
        let rate = &version.rates[i];
        let ghost done = r.deep_view();
        let ghost added = overrides_of_rate(rate.deep_view());
        assert(all.take(i + 1).drop_last() =~= all.take(i as int));
        assert(all.take(i + 1).last() == rate.deep_view());
        r.push(ModelOverride { model: rate.model.clone(), prices: prices_on_card(rate) });
        assert(r.deep_view() =~= done + added.take(1));
        let mut j: usize = 0;
        while j < rate.aliases.len()
            invariant
                j <= rate.aliases@.len(),
                added == overrides_of_rate(rate.deep_view()),
                r.deep_view() == done + added.take(1 + j),
            decreases rate.aliases@.len() - j,
        {
            let ghost before = r.deep_view();
            let named = ModelOverride {
                model: rate.aliases[j].clone(),
                prices: prices_on_card(rate),
            };
            assert(rate.deep_view().aliases[j as int] == rate.aliases@[j as int]@);
            assert(named.deep_view() == added[1 + j]);
            r.push(named);
            assert(r.deep_view() =~= before.push(added[1 + j]));
            j = j + 1;
            assert(r.deep_view() =~= done + added.take(1 + j));
        }
        assert(added.take(1 + j) =~= added);
        i = i + 1;
    }
    assert(all.take(i as int) =~= all);
    r
}

/// The catalog of a price scheme: that of subscriptions where the scheme is theirs, else the API's.
pub open spec fn catalog_of_scheme(
    scheme: Seq<char>,
    subscription: Seq<PriceVersionView>,
    api: Seq<PriceVersionView>,
) -> Seq<PriceVersionView> {
    if scheme == "subscription"@ {
        subscription
    } else {
        api
    }
}

/// The rates of a card under all their names; none where there is no card.
pub open spec fn overrides_of_version(version: Option<PriceVersionView>) -> Seq<
    ModelOverrideView,
> {
    match version {
        Some(version) => overrides_of_rates(version.rates),
        None => Seq::empty(),
    }
}

fn overrides_or_none(version: Option<&PriceVersion>) -> (r: Vec<ModelOverride>)
    ensures
        r.deep_view() == overrides_of_version(version.deep_view()),
{
    match version {
        Some(version) => ccusage_overrides_for_version(version),
        None => {
            let r: Vec<ModelOverride> = Vec::new();
            assert(r.deep_view() =~= Seq::empty());
            r
        },
    }
}

/// The newest built-in prices of a scheme under all names of the models.
pub fn ccusage_overrides(scheme: &str) -> (r: Vec<ModelOverride>)
    ensures
        r.deep_view() == overrides_of_version(
            newest_version(
                catalog_of_scheme(scheme@, embedded_subscription(), embedded_api()),
            ),
        ),
{
    let config = ProjectConfig::embedded();
    if same(scheme, "subscription") {
        overrides_or_none(config.subscription_credit.latest_version())
    } else {
        overrides_or_none(config.api_usd.latest_version())
    }
}

/// The built-in prices of a scheme that are in force at `at_ms`, under all names of the models.
pub fn ccusage_overrides_at(scheme: &str, at_ms: i64) -> (r: Vec<ModelOverride>)
    ensures
        r.deep_view() == overrides_of_version(
            version_in_force(
                catalog_of_scheme(scheme@, embedded_subscription(), embedded_api()),
                at_ms,
            ),
        ),
{
    let config = ProjectConfig::embedded();
    if same(scheme, "subscription") {
        overrides_or_none(config.subscription_credit.version_at(at_ms))
    } else {
        overrides_or_none(config.api_usd.version_at(at_ms))
    }
}

/// The weekly credit of the three subscriptions in a new configuration.
pub fn capacity_defaults() -> (r: CapacityDefaults)
    ensures
        r == (CapacityDefaults { usd20: 3200, usd100: 16000, usd200: 64000 }),
{
    ProjectConfig::embedded().app.capacity_defaults
}

} // verus!
