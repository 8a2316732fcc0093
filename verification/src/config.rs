//! Versioned price catalogs and the settings of the application.
use crate::double::{Double, ONE, TWO, TWO_AND_A_HALF};
use vstd::prelude::*;
use vstd::string::*;

verus! {

/// Weekly credit of the three subscriptions where no capacity has been confirmed.
#[derive(Clone, Copy, Debug, PartialEq, Eq, Structural)]
pub struct CapacityDefaults {
    pub usd20: i64,
    pub usd100: i64,
    pub usd200: i64,
}

/// Settings of the application.
#[derive(Debug)]
pub struct AppConfig {
    pub timezone: String,
    pub bind: String,
    pub codex_home: Option<String>,
    pub capacity_defaults: CapacityDefaults,
}

/// Prices of a request whose input is over the threshold for a long context, in millionths of a
/// unit per million tokens.
#[derive(Clone, Copy, Debug, PartialEq, Eq, Structural)]
pub struct LongContextRate {
    pub input_microusd_per_million: i64,
    pub cache_read_microusd_per_million: i64,
    pub cache_write_microusd_per_million: i64,
    pub output_microusd_per_million: i64,
}

/// Prices of a model, in millionths of a unit per million tokens. A model without a multiplier of the
/// fast tier has no published fast tier.
#[derive(Debug)]
pub struct ModelRate {
    pub model: String,
    pub aliases: Vec<String>,
    pub input_microusd_per_million: i64,
    pub cache_read_microusd_per_million: i64,
    pub cache_write_microusd_per_million: i64,
    pub output_microusd_per_million: i64,
    pub fast_multiplier: Option<Double>,
    pub long_context: Option<LongContextRate>,
}

/// One card of a catalog, in force from `effective_from_ms` until before `effective_to_ms`.
#[derive(Debug)]
pub struct PriceVersion {
    pub version: String,
    pub effective_from_ms: i64,
    pub effective_to_ms: Option<i64>,
    pub source: Option<String>,
    pub source_url: Option<String>,
    pub source_precision: Option<String>,
    pub long_context_threshold_tokens: Option<i64>,
    pub rates: Vec<ModelRate>,
}

/// A catalog of time-bounded cards.
#[derive(Debug)]
pub struct PriceFile {
    pub scheme: String,
    pub catalog_version: String,
    pub timezone: String,
    pub versions: Vec<PriceVersion>,
}

/// The settings and the two catalogs.
#[derive(Debug)]
pub struct ProjectConfig {
    pub app: AppConfig,
    pub api_usd: PriceFile,
    pub subscription_credit: PriceFile,
}

/// A `ModelRate` with its texts as sequences of characters.
pub struct ModelRateView {
    pub model: Seq<char>,
    pub aliases: Seq<Seq<char>>,
    pub input_microusd_per_million: i64,
    pub cache_read_microusd_per_million: i64,
    pub cache_write_microusd_per_million: i64,
    pub output_microusd_per_million: i64,
    pub fast_multiplier: Option<Double>,
    pub long_context: Option<LongContextRate>,
}

/// A `PriceVersion` with its texts as sequences of characters.
pub struct PriceVersionView {
    pub version: Seq<char>,
    pub effective_from_ms: i64,
    pub effective_to_ms: Option<i64>,
    pub source: Option<Seq<char>>,
    pub source_url: Option<Seq<char>>,
    pub source_precision: Option<Seq<char>>,
    pub long_context_threshold_tokens: Option<i64>,
    pub rates: Seq<ModelRateView>,
}

impl DeepView for ModelRate {
    type V = ModelRateView;

    open spec fn deep_view(&self) -> ModelRateView {
        ModelRateView {
            model: self.model@,
            aliases: self.aliases.deep_view(),
            input_microusd_per_million: self.input_microusd_per_million,
            cache_read_microusd_per_million: self.cache_read_microusd_per_million,
            cache_write_microusd_per_million: self.cache_write_microusd_per_million,
            output_microusd_per_million: self.output_microusd_per_million,
            fast_multiplier: self.fast_multiplier,
            long_context: self.long_context,
        }
    }
}

impl DeepView for PriceVersion {
    type V = PriceVersionView;

    open spec fn deep_view(&self) -> PriceVersionView {
        PriceVersionView {
            version: self.version@,
            effective_from_ms: self.effective_from_ms,
            effective_to_ms: self.effective_to_ms,
            source: self.source.deep_view(),
            source_url: self.source_url.deep_view(),
            source_precision: self.source_precision.deep_view(),
            long_context_threshold_tokens: self.long_context_threshold_tokens,
            rates: self.rates.deep_view(),
        }
    }
}

/// A `PriceFile` with its texts as sequences of characters.
pub struct PriceFileView {
    pub scheme: Seq<char>,
    pub catalog_version: Seq<char>,
    pub timezone: Seq<char>,
    pub versions: Seq<PriceVersionView>,
}

impl DeepView for PriceFile {
    type V = PriceFileView;

    open spec fn deep_view(&self) -> PriceFileView {
        PriceFileView {
            scheme: self.scheme@,
            catalog_version: self.catalog_version@,
            timezone: self.timezone@,
            versions: self.versions.deep_view(),
        }
    }
}

/// The time zone of a new configuration.
pub fn default_timezone() -> (s: String)
    ensures
        s@ == "Asia/Shanghai"@,
{
    "Asia/Shanghai".to_owned()
}

/// The address that a new configuration listens on.
pub fn default_bind() -> (s: String)
    ensures
        s@ == "127.0.0.1:18778"@,
{
    "127.0.0.1:18778".to_owned()
}

impl Default for CapacityDefaults {
    fn default() -> (r: Self)
        ensures
            r.usd20 == 3200,
            r.usd100 == 16000,
            r.usd200 == 64000,
    {
        CapacityDefaults { usd20: 3200, usd100: 16000, usd200: 64000 }
    }
}

impl Default for AppConfig {
    fn default() -> (r: Self)
        ensures
            r.timezone@ == "Asia/Shanghai"@,
            r.bind@ == "127.0.0.1:18778"@,
            r.codex_home is None,
            r.capacity_defaults == (CapacityDefaults { usd20: 3200, usd100: 16000, usd200: 64000 }),
    {
        AppConfig {
            timezone: default_timezone(),
            bind: default_bind(),
            codex_home: None,
            capacity_defaults: CapacityDefaults::default(),
        }
    }
}

impl PriceVersionView {
    /// Whether the card is in force at `at_ms`.
    pub open spec fn in_force(self, at_ms: i64) -> bool {
        &&& self.effective_from_ms <= at_ms
        &&& match self.effective_to_ms {
            Some(end) => at_ms < end,
            None => true,
        }
    }
}

/// The place of the card that starts last among those that `wanted` picks; of several that start
/// together, the place of the last one.
pub open spec fn last_start(versions: Seq<PriceVersionView>, wanted: spec_fn(
    PriceVersionView,
) -> bool) -> Option<int>
    decreases versions.len(),
{
    if versions.len() == 0 {
        None
    } else {
        let rest = last_start(versions.drop_last(), wanted);
        let better = match rest {
            Some(i) => versions[i].effective_from_ms <= versions.last().effective_from_ms,
            None => true,
        };
        if wanted(versions.last()) && better {
            Some(versions.len() - 1)
        } else {
            rest
        }
    }
}

/// The card of a catalog that is in force at `at_ms`.
pub open spec fn version_in_force(versions: Seq<PriceVersionView>, at_ms: i64) -> Option<
    PriceVersionView,
> {
    match last_start(versions, |v: PriceVersionView| v.in_force(at_ms)) {
        Some(i) => Some(versions[i]),
        None => None,
    }
}

/// The card of a catalog that starts last.
pub open spec fn newest_version(versions: Seq<PriceVersionView>) -> Option<PriceVersionView> {
    match last_start(versions, |v: PriceVersionView| true) {
        Some(i) => Some(versions[i]),
        None => None,
    }
}

/// `last_start` finds a picked card wherever there is one, and no picked card starts later, nor
/// together with it at a later place.
pub proof fn lemma_last_start(versions: Seq<PriceVersionView>, wanted: spec_fn(
    PriceVersionView,
) -> bool)
    ensures
        match last_start(versions, wanted) {
            Some(i) => {
                &&& 0 <= i < versions.len()
                &&& wanted(versions[i])
                &&& forall|j: int|
                    0 <= j < versions.len() && wanted(#[trigger] versions[j])
                        ==> versions[j].effective_from_ms <= versions[i].effective_from_ms && (j > i
                        ==> versions[j].effective_from_ms < versions[i].effective_from_ms)
            },
            None => forall|j: int| 0 <= j < versions.len() ==> !wanted(#[trigger] versions[j]),
        },
    decreases versions.len(),
{
    if versions.len() > 0 {
        let shorter = versions.drop_last();
        lemma_last_start(shorter, wanted);
        assert forall|j: int| 0 <= j < shorter.len() implies shorter[j] == #[trigger] versions[j] by {}
    }
}

impl PriceFile {
    /// The card in force at `at_ms`: of those that are, the last of the ones that start last.
    pub fn version_at(&self, at_ms: i64) -> (r: Option<&PriceVersion>)
        ensures
            match last_start(
                self.deep_view().versions,
                |v: PriceVersionView| v.in_force(at_ms),
            ) {
                Some(i) => 0 <= i < self.versions@.len() && r == Some(&self.versions@[i]),
                None => r is None,
            },
            r.deep_view() == version_in_force(self.deep_view().versions, at_ms),
    {
        let ghost wanted = |v: PriceVersionView| v.in_force(at_ms);
        let ghost all = self.deep_view().versions;
        let mut best: Option<usize> = None;
        let mut i: usize = 0;
        while i < self.versions.len()
            invariant
                i <= self.versions@.len(),
                all == self.deep_view().versions,
                wanted == (|v: PriceVersionView| v.in_force(at_ms)),
                match best {
                    Some(b) => b < i && last_start(all.take(i as int), wanted) == Some(b as int),
                    None => last_start(all.take(i as int), wanted) is None,
                },
            decreases self.versions@.len() - i,
        {
            let version = &self.versions[i];
            let ended = match version.effective_to_ms {
                Some(end) => at_ms >= end,
                None => false,
            };
            let later = match best {
                Some(b) => self.versions[b].effective_from_ms <= version.effective_from_ms,
                None => true,
            };
            assert(all.take(i + 1).drop_last() =~= all.take(i as int));
            assert(all.take(i + 1).last() == version.deep_view());
            if version.effective_from_ms <= at_ms && !ended && later {
                best = Some(i);
            }
            i = i + 1;
        }
        assert(all.take(i as int) =~= all);
        match best {
            Some(b) => Some(&self.versions[b]),
            None => None,
        }
    }

    /// The card that starts last; of several, the last one.
    pub fn latest_version(&self) -> (r: Option<&PriceVersion>)
        ensures
            match last_start(self.deep_view().versions, |v: PriceVersionView| true) {
                Some(i) => 0 <= i < self.versions@.len() && r == Some(&self.versions@[i]),
                None => r is None,
            },
            r.deep_view() == newest_version(self.deep_view().versions),
    {
        let ghost wanted = |v: PriceVersionView| true;
        let ghost all = self.deep_view().versions;
        let mut best: Option<usize> = None;
        let mut i: usize = 0;
        while i < self.versions.len()
            invariant
                i <= self.versions@.len(),
                all == self.deep_view().versions,
                wanted == (|v: PriceVersionView| true),
                match best {
                    Some(b) => b < i && last_start(all.take(i as int), wanted) == Some(b as int),
                    None => last_start(all.take(i as int), wanted) is None,
                },
            decreases self.versions@.len() - i,
        {
            let later = match best {
                Some(b) => self.versions[b].effective_from_ms
                    <= self.versions[i].effective_from_ms,
                None => true,
            };
            assert(all.take(i + 1).drop_last() =~= all.take(i as int));
            assert(all.take(i + 1).last() == self.versions@[i as int].deep_view());
            if later {
                best = Some(i);
            }
            i = i + 1;
        }
        assert(all.take(i as int) =~= all);
        match best {
            Some(b) => Some(&self.versions[b]),
            None => None,
        }
    }
}

/// A price of the first catalogs holds until this instant, 2026-07-30T00:00:00Z.
pub const PRICE_CHANGE_MS: i64 = 1_785_369_600_000;

/// Input tokens above which the prices for a long context apply.
pub const LONG_CONTEXT_TOKENS: i64 = 272_000;

/// Prices of input, cached input, cache writes and output.
pub open spec fn rate_view(
    model: Seq<char>,
    aliases: Seq<Seq<char>>,
    prices: (i64, i64, i64, i64),
    fast_multiplier: Option<Double>,
    long_context: Option<LongContextRate>,
) -> ModelRateView {
    ModelRateView {
        model,
        aliases,
        input_microusd_per_million: prices.0,
        cache_read_microusd_per_million: prices.1,
        cache_write_microusd_per_million: prices.2,
        output_microusd_per_million: prices.3,
        fast_multiplier,
        long_context,
    }
}

fn rate(
    model: &str,
    prices: (i64, i64, i64, i64),
    fast_multiplier: Option<Double>,
    long_context: Option<LongContextRate>,
) -> (r: ModelRate)
    ensures
        r.deep_view() == rate_view(model@, Seq::empty(), prices, fast_multiplier, long_context),
{
    let r = ModelRate {
        model: model.to_owned(),
        aliases: Vec::new(),
        input_microusd_per_million: prices.0,
        cache_read_microusd_per_million: prices.1,
        cache_write_microusd_per_million: prices.2,
        output_microusd_per_million: prices.3,
        fast_multiplier,
        long_context,
    };
    assert(r.deep_view().aliases =~= Seq::empty());
    r
}

fn aliased(rate: ModelRate, alias: &str) -> (r: ModelRate)
    ensures
        r.deep_view() == (ModelRateView {
            aliases: rate.deep_view().aliases.push(alias@),
            ..rate.deep_view()
        }),
{
    let mut r = rate;
    r.aliases.push(alias.to_owned());
    assert(r.aliases.deep_view() =~= rate.deep_view().aliases.push(alias@));
    r
}

/// The subscription prices of the models, before or after the change of prices.
pub open spec fn subscription_rates(changed: bool) -> Seq<ModelRateView> {
    let none = Seq::<Seq<char>>::empty();
    let fast = if changed {
        Some(Double { bits: TWO_AND_A_HALF })
    } else {
        None
    };
    seq![
        rate_view(
            "gpt-5.6-sol"@,
            none,
            (125_000_000, 12_500_000, 125_000_000, 750_000_000),
            fast,
            None,
        ),
        rate_view(
            "gpt-5.6-terra"@,
            none,
            if changed {
                (50_000_000, 5_000_000, 50_000_000, 300_000_000)
            } else {
                (62_500_000, 6_250_000, 62_500_000, 375_000_000)
            },
            fast,
            None,
        ),
        rate_view(
            "gpt-5.6-luna"@,
            none,
            if changed {
                (5_000_000, 500_000, 5_000_000, 30_000_000)
            } else {
                (25_000_000, 2_500_000, 25_000_000, 150_000_000)
            },
            fast,
            None,
        ),
        rate_view(
            "gpt-5.5"@,
            none.push("codex-auto-review"@),
            (125_000_000, 12_500_000, 125_000_000, 750_000_000),
            Some(Double { bits: TWO_AND_A_HALF }),
            None,
        ),
        rate_view(
            "gpt-5.4"@,
            none,
            (62_500_000, 6_250_000, 62_500_000, 375_000_000),
            Some(Double { bits: TWO }),
            None,
        ),
        rate_view(
            "gpt-5.4-mini"@,
            none,
            (18_750_000, 1_875_000, 18_750_000, 113_000_000),
            Some(Double { bits: TWO }),
            None,
        ),
    ]
}

fn make_subscription_rates(changed: bool) -> (r: Vec<ModelRate>)
    ensures
        r.deep_view() == subscription_rates(changed),
{
    let fast: Option<Double> = if changed {
        Some(Double { bits: TWO_AND_A_HALF })
    } else {
        None
    };
    let terra: (i64, i64, i64, i64) = if changed {
        (50_000_000, 5_000_000, 50_000_000, 300_000_000)
    } else {
        (62_500_000, 6_250_000, 62_500_000, 375_000_000)
    };
    let luna: (i64, i64, i64, i64) = if changed {
        (5_000_000, 500_000, 5_000_000, 30_000_000)
    } else {
        (25_000_000, 2_500_000, 25_000_000, 150_000_000)
    };
    let mut r: Vec<ModelRate> = Vec::new();
    r.push(rate("gpt-5.6-sol", (125_000_000, 12_500_000, 125_000_000, 750_000_000), fast, None));
    r.push(rate("gpt-5.6-terra", terra, fast, None));
    r.push(rate("gpt-5.6-luna", luna, fast, None));
    let base = rate(
        "gpt-5.5",
        (125_000_000, 12_500_000, 125_000_000, 750_000_000),
        Some(Double { bits: TWO_AND_A_HALF }),
        None,
    );
    r.push(aliased(base, "codex-auto-review"));
    r.push(
        rate(
            "gpt-5.4",
            (62_500_000, 6_250_000, 62_500_000, 375_000_000),
            Some(Double { bits: TWO }),
            None,
        ),
    );
    r.push(
        rate(
            "gpt-5.4-mini",
            (18_750_000, 1_875_000, 18_750_000, 113_000_000),
            Some(Double { bits: TWO }),
            None,
        ),
    );
    assert(r.deep_view() =~= subscription_rates(changed));
    r
}

/// The API prices of the models, before or after the change of prices.
pub open spec fn api_rates(changed: bool) -> Seq<ModelRateView> {
    let none = Seq::<Seq<char>>::empty();
    let fast = if changed {
        Some(Double { bits: TWO })
    } else {
        None
    };
    seq![
        rate_view(
            "gpt-5.6-sol"@,
            none,
            (5_000_000, 500_000, 6_250_000, 30_000_000),
            fast,
            Some(
                LongContextRate {
                    input_microusd_per_million: 10_000_000,
                    cache_read_microusd_per_million: 1_000_000,
                    cache_write_microusd_per_million: 12_500_000,
                    output_microusd_per_million: 45_000_000,
                },
            ),
        ),
        rate_view(
            "gpt-5.6-terra"@,
            none,
            if changed {
                (2_000_000, 200_000, 2_500_000, 12_000_000)
            } else {
                (2_500_000, 250_000, 3_125_000, 15_000_000)
            },
            fast,
            None,
        ),
        rate_view(
            "gpt-5.6-luna"@,
            none,
            if changed {
                (200_000, 20_000, 250_000, 1_200_000)
            } else {
                (1_000_000, 100_000, 1_250_000, 6_000_000)
            },
            fast,
            None,
        ),
        rate_view(
            "gpt-5.5"@,
            none.push("codex-auto-review"@),
            (5_000_000, 500_000, 5_000_000, 30_000_000),
            Some(Double { bits: TWO_AND_A_HALF }),
            None,
        ),
        rate_view(
            "gpt-5.4"@,
            none,
            (2_500_000, 250_000, 2_500_000, 15_000_000),
            Some(Double { bits: TWO }),
            None,
        ),
        rate_view(
            "gpt-5.4-mini"@,
            none,
            (750_000, 75_000, 750_000, 4_500_000),
            Some(Double { bits: ONE }),
            None,
        ),
    ]
}

fn make_api_rates(changed: bool) -> (r: Vec<ModelRate>)
    ensures
        r.deep_view() == api_rates(changed),
{
    let fast: Option<Double> = if changed {
        Some(Double { bits: TWO })
    } else {
        None
    };
    let terra: (i64, i64, i64, i64) = if changed {
        (2_000_000, 200_000, 2_500_000, 12_000_000)
    } else {
        (2_500_000, 250_000, 3_125_000, 15_000_000)
    };
    let luna: (i64, i64, i64, i64) = if changed {
        (200_000, 20_000, 250_000, 1_200_000)
    } else {
        (1_000_000, 100_000, 1_250_000, 6_000_000)
    };
    let long = LongContextRate {
        input_microusd_per_million: 10_000_000,
        cache_read_microusd_per_million: 1_000_000,
        cache_write_microusd_per_million: 12_500_000,
        output_microusd_per_million: 45_000_000,
    };
    let mut r: Vec<ModelRate> = Vec::new();
    r.push(rate("gpt-5.6-sol", (5_000_000, 500_000, 6_250_000, 30_000_000), fast, Some(long)));
    r.push(rate("gpt-5.6-terra", terra, fast, None));
    r.push(rate("gpt-5.6-luna", luna, fast, None));
    let base = rate(
        "gpt-5.5",
        (5_000_000, 500_000, 5_000_000, 30_000_000),
        Some(Double { bits: TWO_AND_A_HALF }),
        None,
    );
    r.push(aliased(base, "codex-auto-review"));
    r.push(
        rate(
            "gpt-5.4",
            (2_500_000, 250_000, 2_500_000, 15_000_000),
            Some(Double { bits: TWO }),
            None,
        ),
    );
    r.push(
        rate(
            "gpt-5.4-mini",
            (750_000, 75_000, 750_000, 4_500_000),
            Some(Double { bits: ONE }),
            None,
        ),
    );
    assert(r.deep_view() =~= api_rates(changed));
    r
}

/// A card that was in force until the change of prices, and the one in force since.
pub open spec fn two_cards(
    before: Seq<char>,
    after: Seq<char>,
    threshold: Option<i64>,
    rates: spec_fn(bool) -> Seq<ModelRateView>,
) -> Seq<PriceVersionView> {
    seq![
        PriceVersionView {
            version: before,
            effective_from_ms: 0,
            effective_to_ms: Some(PRICE_CHANGE_MS),
            source: None,
            source_url: None,
            source_precision: None,
            long_context_threshold_tokens: threshold,
            rates: rates(false),
        },
        PriceVersionView {
            version: after,
            effective_from_ms: PRICE_CHANGE_MS,
            effective_to_ms: None,
            source: None,
            source_url: None,
            source_precision: None,
            long_context_threshold_tokens: threshold,
            rates: rates(true),
        },
    ]
}

/// The built-in catalog of subscription credit.
pub open spec fn embedded_subscription() -> Seq<PriceVersionView> {
    two_cards(
        "subscription-credit-before-2026-07-30"@,
        "subscription-credit-2026-07-30"@,
        None,
        |changed: bool| subscription_rates(changed),
    )
}

/// The built-in catalog of API dollars.
pub open spec fn embedded_api() -> Seq<PriceVersionView> {
    two_cards(
        "api-usd-before-2026-07-30"@,
        "api-usd-2026-07-30"@,
        Some(LONG_CONTEXT_TOKENS),
        |changed: bool| api_rates(changed),
    )
}

fn card(
    version: &str,
    effective_from_ms: i64,
    effective_to_ms: Option<i64>,
    threshold: Option<i64>,
    rates: Vec<ModelRate>,
) -> (r: PriceVersion)
    ensures
        r.deep_view() == (PriceVersionView {
            version: version@,
            effective_from_ms,
            effective_to_ms,
            source: None,
            source_url: None,
            source_precision: None,
            long_context_threshold_tokens: threshold,
            rates: rates.deep_view(),
        }),
{
    PriceVersion {
        version: version.to_owned(),
        effective_from_ms,
        effective_to_ms,
        source: None,
        source_url: None,
        source_precision: None,
        long_context_threshold_tokens: threshold,
        rates,
    }
}

impl ProjectConfig {
    /// The built-in catalogs, with the settings of a new configuration.
    pub fn embedded() -> (r: Self)
        ensures
            r.subscription_credit.deep_view() == (PriceFileView {
                scheme: "subscription_credit"@,
                catalog_version: "subscription-credit-2026-07-30"@,
                timezone: "Asia/Shanghai"@,
                versions: embedded_subscription(),
            }),
            r.api_usd.deep_view() == (PriceFileView {
                scheme: "api_usd_equivalent"@,
                catalog_version: "api-usd-2026-07-30"@,
                timezone: "Asia/Shanghai"@,
                versions: embedded_api(),
            }),
            r.app.timezone@ == "Asia/Shanghai"@,
            r.app.bind@ == "127.0.0.1:18778"@,
            r.app.codex_home is None,
            r.app.capacity_defaults == (CapacityDefaults {
                usd20: 3200,
                usd100: 16000,
                usd200: 64000,
            }),
    {
        let mut subscription: Vec<PriceVersion> = Vec::new();
        subscription.push(
            card(
                "subscription-credit-before-2026-07-30",
                0,
                Some(PRICE_CHANGE_MS),
                None,
                make_subscription_rates(false),
            ),
        );
        subscription.push(
            card(
                "subscription-credit-2026-07-30",
                PRICE_CHANGE_MS,
                None,
                None,
                make_subscription_rates(true),
            ),
        );
        assert(subscription.deep_view() =~= embedded_subscription());
        let mut api: Vec<PriceVersion> = Vec::new();
        let threshold = Some(LONG_CONTEXT_TOKENS);
        api.push(
            card(
                "api-usd-before-2026-07-30",
                0,
                Some(PRICE_CHANGE_MS),
                threshold,
                make_api_rates(false),
            ),
        );
        api.push(
            card("api-usd-2026-07-30", PRICE_CHANGE_MS, None, threshold, make_api_rates(true)),
        );
        assert(api.deep_view() =~= embedded_api());
        ProjectConfig {
            app: AppConfig::default(),
            api_usd: PriceFile {
                scheme: "api_usd_equivalent".to_owned(),
                catalog_version: "api-usd-2026-07-30".to_owned(),
                timezone: default_timezone(),
                versions: api,
            },
            subscription_credit: PriceFile {
                scheme: "subscription_credit".to_owned(),
                catalog_version: "subscription-credit-2026-07-30".to_owned(),
                timezone: default_timezone(),
                versions: subscription,
            },
        }
    }
}

} // verus!
