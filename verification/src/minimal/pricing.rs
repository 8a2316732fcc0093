//! A fixed card of prices.
use crate::num::{clamp_i64, saturating_add, saturating_mul, truncating_div};
use crate::pricing::{
    amount, calculate, cost_at, lemma_amount_is_rounded_sum, tokens_are_normal, unknown_price, Price,
    PriceView, TokenCounts,
};
use crate::text::{ascii_lower, begins_with, same, starts_with, to_ascii_lowercase};
use vstd::prelude::*;
use vstd::string::*;

verus! {

/// The instant from which on the prices of the card hold: 2026-08-01 00:00 in Shanghai, which is
/// 2026-07-31 16:00 UTC.
pub const CARD_BOUNDARY_MS: i64 = 1_785_513_600_000;

/// The name of the card.
pub const PRICING_VERSION: &'static str = "static-card-2026-08-01";

/// The prices of a model: millionths of a credit and of a dollar for a million tokens, and by how
/// many ten-thousandths they are multiplied at the fast tier.
#[derive(Clone, Copy, Debug)]
pub struct Rate {
    pub model: &'static str,
    pub subscription_input: i64,
    pub subscription_cached: i64,
    pub subscription_write: i64,
    pub subscription_output: i64,
    pub api_input: i64,
    pub api_cached: i64,
    pub api_write: i64,
    pub api_output: i64,
    pub subscription_fast_bps: i64,
    pub api_fast_bps: i64,
}

/// The prices of the card.
pub open spec fn card() -> Seq<Rate> {
    seq![
        Rate {
            model: "gpt-5.6-sol",
            subscription_input: 125_000_000,
            subscription_cached: 12_500_000,
            subscription_write: 125_000_000,
            subscription_output: 750_000_000,
            api_input: 5_000_000,
            api_cached: 500_000,
            api_write: 6_250_000,
            api_output: 30_000_000,
            subscription_fast_bps: 25_000,
            api_fast_bps: 20_000,
        },
        Rate {
            model: "gpt-5.6-terra",
            subscription_input: 50_000_000,
            subscription_cached: 5_000_000,
            subscription_write: 50_000_000,
            subscription_output: 300_000_000,
            api_input: 2_500_000,
            api_cached: 250_000,
            api_write: 3_125_000,
            api_output: 15_000_000,
            subscription_fast_bps: 25_000,
            api_fast_bps: 20_000,
        },
        Rate {
            model: "gpt-5.6-luna",
            subscription_input: 5_000_000,
            subscription_cached: 500_000,
            subscription_write: 5_000_000,
            subscription_output: 30_000_000,
            api_input: 1_000_000,
            api_cached: 100_000,
            api_write: 1_250_000,
            api_output: 6_000_000,
            subscription_fast_bps: 25_000,
            api_fast_bps: 20_000,
        },
        Rate {
            model: "gpt-5.5",
            subscription_input: 125_000_000,
            subscription_cached: 12_500_000,
            subscription_write: 125_000_000,
            subscription_output: 750_000_000,
            api_input: 10_000_000,
            api_cached: 1_000_000,
            api_write: 10_000_000,
            api_output: 45_000_000,
            subscription_fast_bps: 25_000,
            api_fast_bps: 25_000,
        },
        Rate {
            model: "gpt-5.4",
            subscription_input: 62_500_000,
            subscription_cached: 6_250_000,
            subscription_write: 62_500_000,
            subscription_output: 375_000_000,
            api_input: 2_500_000,
            api_cached: 250_000,
            api_write: 2_500_000,
            api_output: 15_000_000,
            subscription_fast_bps: 20_000,
            api_fast_bps: 20_000,
        },
        Rate {
            model: "gpt-5.4-mini",
            subscription_input: 18_750_000,
            subscription_cached: 1_875_000,
            subscription_write: 18_750_000,
            subscription_output: 113_000_000,
            api_input: 750_000,
            api_cached: 75_000,
            api_write: 750_000,
            api_output: 4_500_000,
            subscription_fast_bps: 20_000,
            api_fast_bps: 10_000,
        },
    ]
}

/// The prices of the card.
pub fn rates() -> (r: Vec<Rate>)
    ensures
        r@ == card(),
{
    let r = vec![
        Rate {
            model: "gpt-5.6-sol",
            subscription_input: 125_000_000,
            subscription_cached: 12_500_000,
            subscription_write: 125_000_000,
            subscription_output: 750_000_000,
            api_input: 5_000_000,
            api_cached: 500_000,
            api_write: 6_250_000,
            api_output: 30_000_000,
            subscription_fast_bps: 25_000,
            api_fast_bps: 20_000,
        },
        Rate {
            model: "gpt-5.6-terra",
            subscription_input: 50_000_000,
            subscription_cached: 5_000_000,
            subscription_write: 50_000_000,
            subscription_output: 300_000_000,
            api_input: 2_500_000,
            api_cached: 250_000,
            api_write: 3_125_000,
            api_output: 15_000_000,
            subscription_fast_bps: 25_000,
            api_fast_bps: 20_000,
        },
        Rate {
            model: "gpt-5.6-luna",
            subscription_input: 5_000_000,
            subscription_cached: 500_000,
            subscription_write: 5_000_000,
            subscription_output: 30_000_000,
            api_input: 1_000_000,
            api_cached: 100_000,
            api_write: 1_250_000,
            api_output: 6_000_000,
            subscription_fast_bps: 25_000,
            api_fast_bps: 20_000,
        },
        Rate {
            model: "gpt-5.5",
            subscription_input: 125_000_000,
            subscription_cached: 12_500_000,
            subscription_write: 125_000_000,
            subscription_output: 750_000_000,
            api_input: 10_000_000,
            api_cached: 1_000_000,
            api_write: 10_000_000,
            api_output: 45_000_000,
            subscription_fast_bps: 25_000,
            api_fast_bps: 25_000,
        },
        Rate {
            model: "gpt-5.4",
            subscription_input: 62_500_000,
            subscription_cached: 6_250_000,
            subscription_write: 62_500_000,
            subscription_output: 375_000_000,
            api_input: 2_500_000,
            api_cached: 250_000,
            api_write: 2_500_000,
            api_output: 15_000_000,
            subscription_fast_bps: 20_000,
            api_fast_bps: 20_000,
        },
        Rate {
            model: "gpt-5.4-mini",
            subscription_input: 18_750_000,
            subscription_cached: 1_875_000,
            subscription_write: 18_750_000,
            subscription_output: 113_000_000,
            api_input: 750_000,
            api_cached: 75_000,
            api_write: 750_000,
            api_output: 4_500_000,
            subscription_fast_bps: 20_000,
            api_fast_bps: 10_000,
        },
    ];
    assert(r@ =~= card());
    r
}

/// Whether a model, in lower case, is the one of a price, or one of its variants.
pub open spec fn is_of_model(model: Seq<char>, rate: Rate) -> bool {
    model == rate.model@ || begins_with(model, rate.model@ + "-"@)
}

/// The first price of a model.
pub open spec fn rate_of(rates: Seq<Rate>, model: Seq<char>) -> Option<Rate>
    decreases rates.len(),
{
    if rates.len() == 0 {
        None
    } else if is_of_model(model, rates[0]) {
        Some(rates[0])
    } else {
        rate_of(rates.skip(1), model)
    }
}

/// The prices in credit of input, cached input, cache writes and output at an instant.
pub open spec fn credit_prices(rate: Rate, at_ms: i64) -> (i64, i64, i64, i64) {
    if at_ms < CARD_BOUNDARY_MS && rate.model@ == "gpt-5.6-terra"@ {
        (62_500_000, 6_250_000, 62_500_000, 375_000_000)
    } else if at_ms < CARD_BOUNDARY_MS && rate.model@ == "gpt-5.6-luna"@ {
        (25_000_000, 2_500_000, 25_000_000, 150_000_000)
    } else {
        (
            rate.subscription_input,
            rate.subscription_cached,
            rate.subscription_write,
            rate.subscription_output,
        )
    }
}

/// The prices in dollars of input, cached input, cache writes and output.
pub open spec fn api_prices(rate: Rate) -> (i64, i64, i64, i64) {
    (rate.api_input, rate.api_cached, rate.api_write, rate.api_output)
}

/// An amount at a tier: the fast one multiplies it by ten-thousandths, rounded.
pub open spec fn tiered(base: i64, fast_bps: i64, tier: Seq<char>) -> i64 {
    if tier == "fast"@ {
        truncating_div(
            clamp_i64(clamp_i64(base * fast_bps) + 5_000) as int,
            10_000,
        ) as i64
    } else {
        base
    }
}

/// The price of a request: unknown where the model or the tier is not known.
pub open spec fn price_of(
    tokens: TokenCounts,
    model: Option<Seq<char>>,
    tier: Option<Seq<char>>,
    at_ms: i64,
) -> PriceView {
    match model {
        Some(model) => match rate_of(card(), ascii_lower(model)) {
            Some(rate) => match tier {
                Some(tier) => PriceView {
                    credit_micros: Some(
                        tiered(
                            amount(tokens, credit_prices(rate, at_ms)),
                            rate.subscription_fast_bps,
                            tier,
                        ),
                    ),
                    api_usd_micros: Some(
                        tiered(amount(tokens, api_prices(rate)), rate.api_fast_bps, tier),
                    ),
                    quality: Seq::empty(),
                },
                None => unknown_price("fast_unknown"@),
            },
            None => unknown_price("missing_pricing"@),
        },
        None => unknown_price("missing_pricing"@),
    }
}

/// What is not known is not priced, and says why; what is known is, and says nothing.
pub proof fn lemma_unknown_is_not_free(
    tokens: TokenCounts,
    model: Option<Seq<char>>,
    tier: Option<Seq<char>>,
    at_ms: i64,
)
    ensures
        ({
            let price = price_of(tokens, model, tier, at_ms);
            &&& price.credit_micros is None <==> price.quality.len() > 0
            &&& price.api_usd_micros is None <==> price.quality.len() > 0
            &&& price.credit_micros is None <==> model is None || tier is None || rate_of(
                card(),
                ascii_lower(model->0),
            ) is None
        }),
{
}

/// An amount is not less at the fast tier, as long as the product can be counted.
pub proof fn lemma_fast_costs_no_less(base: i64, fast_bps: i64)
    requires
        0 <= base,
        10_000 <= fast_bps,
        base * fast_bps + 5_000 <= i64::MAX,
    ensures
        base <= tiered(base, fast_bps, "fast"@),
{
    assert(base * 10_000 <= base * fast_bps) by (nonlinear_arith)
        requires
            0 <= base,
            10_000 <= fast_bps,
    ;
}

fn unpriced(flag: &str) -> (r: Price)
    ensures
        r.deep_view() == unknown_price(flag@),
{
    let mut quality: Vec<String> = Vec::new();
    quality.push(flag.to_owned());
    let r = Price { credit_micros: None, api_usd_micros: None, quality };
    assert(r.quality.deep_view() =~= seq![flag@]);
    r
}

fn find_rate(model: &str) -> (r: Option<Rate>)
    ensures
        r == rate_of(card(), model@),
{
    let all = rates();
    let mut i: usize = 0;
    assert(card().skip(0) =~= card());
    while i < all.len()
        invariant
            i <= all@.len(),
            all@ == card(),
            rate_of(card(), model@) == rate_of(card().skip(i as int), model@),
        decreases all@.len() - i,
    {
        let rate = all[i];
        let mut prefix = rate.model.to_owned();
        prefix.append("-");
        assert(card().skip(i as int)[0] == rate);
        assert(card().skip(i as int).skip(1) =~= card().skip(i + 1));
        if same(model, rate.model) || starts_with(model, prefix.as_str()) {
            return Some(rate);
        }
        i = i + 1;
    }
    None
}

fn apply_tier(base: i64, fast_bps: i64, tier: &str) -> (r: i64)
    ensures
        r == tiered(base, fast_bps, tier@),
{
    if same(tier, "fast") {
        let scaled = saturating_add(saturating_mul(base, fast_bps), 5_000);
        if scaled >= 0 {
            scaled / 10_000
        } else if scaled == i64::MIN {
            -922_337_203_685_477
        } else {
            -((-scaled) / 10_000)
        }
    } else {
        base
    }
}

/// The price of a request.
pub fn price(tokens: &TokenCounts, model: Option<&str>, tier: Option<&str>, at_ms: i64) -> (r:
    Price)
    ensures
        r.deep_view() == price_of(*tokens, model.deep_view(), tier.deep_view(), at_ms),
{
    let model = match model {
        Some(model) => model,
        None => return unpriced("missing_pricing"),
    };
    let lowered = to_ascii_lowercase(model);
    let rate = match find_rate(lowered.as_str()) {
        Some(rate) => rate,
        None => return unpriced("missing_pricing"),
    };
    let tier = match tier {
        Some(tier) => tier,
        None => return unpriced("fast_unknown"),
    };
    let mut credit_rate = (
        rate.subscription_input,
        rate.subscription_cached,
        rate.subscription_write,
        rate.subscription_output,
    );
    if at_ms < CARD_BOUNDARY_MS {
        if same(rate.model, "gpt-5.6-terra") {
            credit_rate = (62_500_000, 6_250_000, 62_500_000, 375_000_000);
        } else if same(rate.model, "gpt-5.6-luna") {
            credit_rate = (25_000_000, 2_500_000, 25_000_000, 150_000_000);
        }
    }
    let credit_base = calculate(tokens, credit_rate);
    let api_base = calculate(
        tokens,
        (rate.api_input, rate.api_cached, rate.api_write, rate.api_output),
    );
    let r = Price {
        credit_micros: Some(apply_tier(credit_base, rate.subscription_fast_bps, tier)),
        api_usd_micros: Some(apply_tier(api_base, rate.api_fast_bps, tier)),
        quality: Vec::new(),
    };
    assert(r.quality.deep_view() =~= Seq::empty());
    r
}

/// What the card shows of a model: millionths of a credit and of a dollar for a million tokens of
/// input, and ten-thousandths at the fast tier.
#[derive(Clone, Copy, Debug)]
pub struct CardRow {
    pub model: &'static str,
    pub effective_from_ms: i64,
    pub subscription_input: i64,
    pub api_input: i64,
    pub fast_bps: i64,
}

/// What the card shows of a price.
pub open spec fn card_row(rate: Rate) -> CardRow {
    CardRow {
        model: rate.model,
        effective_from_ms: CARD_BOUNDARY_MS,
        subscription_input: rate.subscription_input,
        api_input: rate.api_input,
        fast_bps: rate.subscription_fast_bps,
    }
}

/// What the card shows, model by model.
pub fn price_card() -> (r: Vec<CardRow>)
    ensures
        r@ == card().map_values(|rate: Rate| card_row(rate)),
{
    let all = rates();
    let ghost wanted = card().map_values(|rate: Rate| card_row(rate));
    let mut rows: Vec<CardRow> = Vec::new();
    let mut i: usize = 0;
    assert(rows@ =~= wanted.take(0));
    while i < all.len()
        invariant
            i <= all@.len(),
            all@ == card(),
            wanted == card().map_values(|rate: Rate| card_row(rate)),
            rows@ == wanted.take(i as int),
        decreases all@.len() - i,
    {
        let rate = all[i];
        rows.push(
            CardRow {
                model: rate.model,
                effective_from_ms: CARD_BOUNDARY_MS,
                subscription_input: rate.subscription_input,
                api_input: rate.api_input,
                fast_bps: rate.subscription_fast_bps,
            },
        );
        assert(wanted.take(i + 1) =~= wanted.take(i as int).push(wanted[i as int]));
        i = i + 1;
    }
    assert(wanted.take(i as int) =~= wanted);
    rows
}

/// The prices of a model for an independent check: millionths of a dollar, or of a credit, for a
/// million tokens, and ten-thousandths at the fast tier.
#[derive(Clone, Copy, Debug)]
pub struct Override {
    pub model: &'static str,
    pub input: i64,
    pub cached: i64,
    pub write: i64,
    pub output: i64,
    pub fast_bps: i64,
}

/// The prices of a model by a scheme: those in credit, or those in dollars.
pub open spec fn override_of(rate: Rate, scheme: Seq<char>) -> Override {
    if scheme == "subscription"@ {
        Override {
            model: rate.model,
            input: rate.subscription_input,
            cached: rate.subscription_cached,
            write: rate.subscription_write,
            output: rate.subscription_output,
            fast_bps: rate.subscription_fast_bps,
        }
    } else {
        Override {
            model: rate.model,
            input: rate.api_input,
            cached: rate.api_cached,
            write: rate.api_write,
            output: rate.api_output,
            fast_bps: rate.api_fast_bps,
        }
    }
}

/// The prices of all models by a scheme.
pub fn ccusage_overrides(scheme: &str) -> (r: Vec<Override>)
    ensures
        r@ == card().map_values(|rate: Rate| override_of(rate, scheme@)),
{
    let all = rates();
    let ghost wanted = card().map_values(|rate: Rate| override_of(rate, scheme@));
    let subscription = same(scheme, "subscription");
    let mut overrides: Vec<Override> = Vec::new();
    let mut i: usize = 0;
    assert(overrides@ =~= wanted.take(0));
    while i < all.len()
        invariant
            i <= all@.len(),
            all@ == card(),
            subscription == (scheme@ == "subscription"@),
            wanted == card().map_values(|rate: Rate| override_of(rate, scheme@)),
            overrides@ == wanted.take(i as int),
        decreases all@.len() - i,
    {
        let rate = all[i];
        let priced = if subscription {
            Override {
                model: rate.model,
                input: rate.subscription_input,
                cached: rate.subscription_cached,
                write: rate.subscription_write,
                output: rate.subscription_output,
                fast_bps: rate.subscription_fast_bps,
            }
        } else {
            Override {
                model: rate.model,
                input: rate.api_input,
                cached: rate.api_cached,
                write: rate.api_write,
                output: rate.api_output,
                fast_bps: rate.api_fast_bps,
            }
        };
        overrides.push(priced);
        assert(wanted.take(i + 1) =~= wanted.take(i as int).push(wanted[i as int]));
        i = i + 1;
    }
    assert(wanted.take(i as int) =~= wanted);
    overrides
}

proof fn lemma_rate_of(rates: Seq<Rate>, model: Seq<char>)
    ensures
        match rate_of(rates, model) {
            Some(rate) => rates.contains(rate) && (model == rate.model@ || begins_with(
                model,
                rate.model@ + "-"@,
            )),
            None => forall|i: int|
                0 <= i < rates.len() ==> model != (#[trigger] rates[i]).model@ && !begins_with(
                    model,
                    rates[i].model@ + "-"@,
                ),
        },
    decreases rates.len(),
{
    if rates.len() > 0 {
        let rest = rates.skip(1);
        lemma_rate_of(rest, model);
        if is_of_model(model, rates[0]) {
            assert(rates.contains(rates[0]));
        } else {
            match rate_of(rest, model) {
                Some(rate) => {
                    let i = choose|i: int| 0 <= i < rest.len() && rest[i] == rate;
                    assert(rates[i + 1] == rate);
                },
                None => {
                    assert forall|i: int| 0 <= i < rates.len() implies model != (
                    #[trigger] rates[i]).model@ && !begins_with(model, rates[i].model@ + "-"@) by {
                        if i > 0 {
                            assert(rest[i - 1] == rates[i]);
                        }
                    }
                },
            }
        }
    }
}

/// Whether the card has a rate for a model: one under its name, in letters of either case, or under
/// a name that it continues after a hyphen.
pub open spec fn is_on_card(model: Seq<char>) -> bool {
    exists|i: int|
        0 <= i < card().len() && (ascii_lower(model) == (#[trigger] card()[i]).model@
            || begins_with(ascii_lower(model), card()[i].model@ + "-"@))
}

/// A request has a price where the card has a rate for its model and its tier is known; without a
/// rate the price is missing, and without a tier it is not known whether it was fast.
pub proof fn lemma_price_is_known_on_the_card(
    tokens: TokenCounts,
    model: Option<Seq<char>>,
    tier: Option<Seq<char>>,
    at_ms: i64,
)
    ensures
        ({
            let price = price_of(tokens, model, tier, at_ms);
            let listed = model is Some && is_on_card(model->0);
            &&& price.credit_micros is Some <==> listed && tier is Some
            &&& price.api_usd_micros is Some <==> listed && tier is Some
            &&& listed && tier is Some ==> price.quality.len() == 0
            &&& !listed ==> price.quality == seq!["missing_pricing"@]
            &&& listed && tier is None ==> price.quality == seq!["fast_unknown"@]
        }),
{
    if let Some(name) = model {
        lemma_rate_of(card(), ascii_lower(name));
        if let Some(rate) = rate_of(card(), ascii_lower(name)) {
            let i = choose|i: int| 0 <= i < card().len() && card()[i] == rate;
            assert(card()[i].model@ == rate.model@);
        }
    }
}

/// Whether a request at an instant is charged the prices of a rate of the card: from the day of the
/// card on all are, and before it those of two models are not.
pub open spec fn is_charged_by_card(rate: Rate, at_ms: i64) -> bool {
    at_ms >= CARD_BOUNDARY_MS || (rate.model@ != "gpt-5.6-terra"@ && rate.model@ != "gpt-5.6-luna"@)
}

/// A request at the standard tier costs its fresh input, its cached input, what it wrote to the cache
/// and its output, each at its own price, rounded to the nearest millionth: in credit at the prices
/// of the subscription, and in dollars at those of the API. A fast request costs the multiple of the
/// rate, each of its own scheme.
pub proof fn lemma_request_costs_its_tokens(
    tokens: TokenCounts,
    model: Seq<char>,
    rate: Rate,
    at_ms: i64,
)
    requires
        tokens_are_normal(tokens),
        rate_of(card(), ascii_lower(model)) == Some(rate),
        is_charged_by_card(rate, at_ms),
        tokens.input <= 1_000_000_000_000 && tokens.cache_write <= 1_000_000_000_000
            && tokens.output <= 1_000_000_000_000,
    ensures
        ({
            let standard = price_of(tokens, Some(model), Some("standard"@), at_ms);
            let fast = price_of(tokens, Some(model), Some("fast"@), at_ms);
            let credit = cost_at(
                tokens,
                rate.subscription_input,
                rate.subscription_cached,
                rate.subscription_write,
                rate.subscription_output,
            );
            let dollars = cost_at(
                tokens,
                rate.api_input,
                rate.api_cached,
                rate.api_write,
                rate.api_output,
            );
            &&& standard.credit_micros is Some && standard.credit_micros->0 == credit
            &&& standard.api_usd_micros is Some && standard.api_usd_micros->0 == dollars
            &&& fast.credit_micros is Some && (credit * rate.subscription_fast_bps + 5_000
                <= i64::MAX ==> fast.credit_micros->0 == (credit * rate.subscription_fast_bps
                + 5_000) / 10_000)
            &&& fast.api_usd_micros is Some && (dollars * rate.api_fast_bps + 5_000 <= i64::MAX
                ==> fast.api_usd_micros->0 == (dollars * rate.api_fast_bps + 5_000) / 10_000)
        }),
{
    reveal_strlit("standard");
    reveal_strlit("fast");
    assert("standard"@.len() != "fast"@.len());
    lemma_rate_of(card(), ascii_lower(model));
    lemma_card_prices(rate);
    let s = (
        rate.subscription_input,
        rate.subscription_cached,
        rate.subscription_write,
        rate.subscription_output,
    );
    let a = (rate.api_input, rate.api_cached, rate.api_write, rate.api_output);
    assert(credit_prices(rate, at_ms) == s);
    assert(api_prices(rate) == a);
    lemma_cost_fits(tokens, s);
    lemma_cost_fits(tokens, a);
    lemma_amount_is_rounded_sum(tokens, s);
    lemma_amount_is_rounded_sum(tokens, a);
    lemma_multiple(amount(tokens, s), rate.subscription_fast_bps);
    lemma_multiple(amount(tokens, a), rate.api_fast_bps);
}

proof fn lemma_multiple(base: i64, bps: i64)
    requires
        base >= 0,
        bps >= 0,
    ensures
        base * bps + 5_000 <= i64::MAX ==> tiered(base, bps, "fast"@) == (base * bps + 5_000)
            / 10_000,
{
    assert(base * bps >= 0) by (nonlinear_arith)
        requires
            base >= 0,
            bps >= 0,
    ;
}

proof fn lemma_card_prices(rate: Rate)
    requires
        card().contains(rate),
    ensures
        0 <= rate.subscription_input <= 750_000_000,
        0 <= rate.subscription_cached <= 750_000_000,
        0 <= rate.subscription_write <= 750_000_000,
        0 <= rate.subscription_output <= 750_000_000,
        0 <= rate.api_input <= 750_000_000,
        0 <= rate.api_cached <= 750_000_000,
        0 <= rate.api_write <= 750_000_000,
        0 <= rate.api_output <= 750_000_000,
        rate.subscription_fast_bps >= 0,
        rate.api_fast_bps >= 0,
{
    let i = choose|i: int| 0 <= i < card().len() && card()[i] == rate;
    assert(i == 0 || i == 1 || i == 2 || i == 3 || i == 4 || i == 5);
}

proof fn lemma_cost_fits(tokens: TokenCounts, prices: (i64, i64, i64, i64))
    requires
        tokens_are_normal(tokens),
        tokens.input <= 1_000_000_000_000 && tokens.cache_write <= 1_000_000_000_000
            && tokens.output <= 1_000_000_000_000,
        0 <= prices.0 <= 750_000_000,
        0 <= prices.1 <= 750_000_000,
        0 <= prices.2 <= 750_000_000,
        0 <= prices.3 <= 750_000_000,
    ensures
        0 <= (tokens.input - tokens.cached) * prices.0 + tokens.cached * prices.1
            + tokens.cache_write * prices.2 + tokens.output * prices.3,
        (tokens.input - tokens.cached) * prices.0 + tokens.cached * prices.1 + tokens.cache_write
            * prices.2 + tokens.output * prices.3 + 500_000 < 1_000_000 * i64::MAX,
{
    let fresh = tokens.input - tokens.cached;
    lemma_product_fits(fresh, prices.0 as int);
    lemma_product_fits(tokens.cached as int, prices.1 as int);
    lemma_product_fits(tokens.cache_write as int, prices.2 as int);
    lemma_product_fits(tokens.output as int, prices.3 as int);
}

proof fn lemma_product_fits(count: int, price: int)
    requires
        0 <= count <= 1_000_000_000_000,
        0 <= price <= 750_000_000,
    ensures
        0 <= count * price <= 750_000_000_000_000_000_000,
{
    assert(0 <= count * price <= 750_000_000_000_000_000_000) by (nonlinear_arith)
        requires
            0 <= count <= 1_000_000_000_000,
            0 <= price <= 750_000_000,
    ;
}

} // verus!
