use codex_meter::config::{ModelRate, PriceFile, PriceVersion, ProjectConfig, PRICE_CHANGE_MS};
use codex_meter::double::{Double, ONE, TWO, TWO_AND_A_HALF};
use codex_meter::minimal::pricing as card;
use codex_meter::pricing::{
    capacity_defaults, catalogs_card, catalogs_version, ccusage_overrides, ccusage_overrides_at,
    config_service_tier, configured_service_tier, price, price_card, price_with_config,
    pricing_version, Price, ServiceTier, TokenCounts,
};

/// Historical analysis boundary. Price selection itself goes by the published date of the change.
const CARD_BOUNDARY_MS: i64 = 1_785_567_600_000;

fn input_tokens(input: i64) -> TokenCounts {
    TokenCounts {
        input,
        total: input,
        ..Default::default()
    }
}

fn standard_price(tokens: &TokenCounts, model: &str, tier: Option<&str>, at_ms: i64) -> Price {
    price(tokens, Some(model), tier, at_ms, ServiceTier::Standard)
}

fn has_flag(price: &Price, flag: &str) -> bool {
    price.quality.iter().any(|held| held == flag)
}

fn per_token(micros_per_million: i64) -> f64 {
    micros_per_million as f64 / 1_000_000_000_000.0
}

fn rate<'a>(version: &'a PriceVersion, model: &str) -> &'a ModelRate {
    version.rates.iter().find(|rate| rate.model == model).unwrap()
}

#[test]
fn unknown_values_stay_unknown() {
    let result = standard_price(
        &input_tokens(1_000_000),
        "not-a-model",
        Some("standard"),
        CARD_BOUNDARY_MS,
    );
    assert_eq!(result.credit_micros, None);
    assert_eq!(result.api_usd_micros, None);
    assert!(has_flag(&result, "missing_pricing"));
}

#[test]
fn fast_uses_model_multiplier() {
    let tokens = input_tokens(1_000_000);
    let standard = standard_price(&tokens, "gpt-5.6-sol", Some("standard"), CARD_BOUNDARY_MS);
    let fast = standard_price(&tokens, "gpt-5.6-sol", Some("fast"), CARD_BOUNDARY_MS);
    assert!(fast.credit_micros.unwrap() > standard.credit_micros.unwrap());
}

#[test]
fn ccusage_override_uses_dollars_per_token() {
    let overrides = ccusage_overrides("api");
    let of = |model: &str| {
        overrides
            .iter()
            .find(|entry| entry.model == model)
            .unwrap()
            .prices
            .input
    };
    assert!((per_token(of("gpt-5.6-sol")) - 0.000005).abs() < f64::EPSILON);
    assert_eq!(of("codex-auto-review"), of("gpt-5.5"));
}

#[test]
fn catalogs_select_the_pre_and_post_price_versions() {
    let config = ProjectConfig::embedded();
    let old_credit = config.subscription_credit.version_at(PRICE_CHANGE_MS - 1).unwrap();
    let new_credit = config.subscription_credit.version_at(PRICE_CHANGE_MS).unwrap();
    assert_eq!(old_credit.version, "subscription-credit-before-2026-07-30");
    assert_eq!(new_credit.version, "subscription-credit-2026-07-30");
    assert_eq!(
        rate(old_credit, "gpt-5.6-terra").input_microusd_per_million,
        62_500_000
    );
    assert_eq!(
        rate(new_credit, "gpt-5.6-terra").input_microusd_per_million,
        50_000_000
    );
    let old_api = config.api_usd.version_at(PRICE_CHANGE_MS - 1).unwrap();
    let new_api = config.api_usd.version_at(PRICE_CHANGE_MS).unwrap();
    assert_eq!(
        rate(old_api, "gpt-5.6-luna").input_microusd_per_million,
        1_000_000
    );
    assert_eq!(
        rate(new_api, "gpt-5.6-luna").input_microusd_per_million,
        200_000
    );
}

#[test]
fn price_uses_version_and_long_context_rules() {
    let short_context = input_tokens(200_000);
    let old = standard_price(
        &short_context,
        "gpt-5.6-terra",
        Some("standard"),
        PRICE_CHANGE_MS - 1,
    );
    let new = standard_price(
        &short_context,
        "gpt-5.6-terra",
        Some("standard"),
        PRICE_CHANGE_MS,
    );
    assert_eq!(old.credit_micros, Some(12_500_000));
    assert_eq!(old.api_usd_micros, Some(500_000));
    assert_eq!(new.credit_micros, Some(10_000_000));
    assert_eq!(new.api_usd_micros, Some(400_000));

    let long = standard_price(
        &input_tokens(300_000),
        "gpt-5.6-sol",
        Some("standard"),
        CARD_BOUNDARY_MS,
    );
    assert_eq!(long.credit_micros, Some(37_500_000));
    assert_eq!(long.api_usd_micros, Some(3_000_000));
}

#[test]
fn exact_and_alias_models_beat_shorter_prefixes() {
    let mini = standard_price(
        &input_tokens(200_000),
        "gpt-5.4-mini",
        Some("standard"),
        CARD_BOUNDARY_MS,
    );
    assert_eq!(mini.credit_micros, Some(3_750_000));
    assert_eq!(mini.api_usd_micros, Some(150_000));

    let review = standard_price(
        &input_tokens(200_000),
        "codex-auto-review",
        Some("standard"),
        CARD_BOUNDARY_MS,
    );
    assert_eq!(review.credit_micros, Some(25_000_000));
    assert_eq!(review.api_usd_micros, Some(1_000_000));
}

#[test]
fn fast_without_a_published_multiplier_falls_back_to_standard() {
    let tokens = input_tokens(200_000);
    let before_fast = standard_price(&tokens, "gpt-5.6-sol", Some("fast"), PRICE_CHANGE_MS - 1);
    assert_eq!(
        before_fast.credit_micros,
        Some(25_000_000),
        "an unsupported fast tier must remain billable at standard price"
    );
    assert_eq!(before_fast.api_usd_micros, Some(1_000_000));
    assert!(has_flag(&before_fast, "fast_unsupported_fallback_standard"));

    let after_fast = standard_price(&tokens, "gpt-5.6-sol", Some("fast"), PRICE_CHANGE_MS);
    assert_eq!(after_fast.credit_micros, Some(62_500_000));
    assert_eq!(after_fast.api_usd_micros, Some(2_000_000));
}

#[test]
fn unclassified_tier_uses_configured_default_and_keeps_quality_marker() {
    let tokens = input_tokens(200_000);
    let result = standard_price(&tokens, "gpt-5.6-sol", None, PRICE_CHANGE_MS);
    assert!(result.credit_micros.is_some());
    assert!(result.api_usd_micros.is_some());
    assert!(has_flag(&result, "service_tier_unclassified"));
    let fast = price(
        &tokens,
        Some("gpt-5.6-sol"),
        None,
        PRICE_CHANGE_MS,
        ServiceTier::Fast,
    );
    assert_eq!(fast.credit_micros, Some(62_500_000));
}

#[test]
fn a_missing_model_has_no_price() {
    let result = price(
        &input_tokens(10),
        None,
        Some("standard"),
        PRICE_CHANGE_MS,
        ServiceTier::Standard,
    );
    assert_eq!(result.credit_micros, None);
    assert_eq!(result.api_usd_micros, None);
    assert!(has_flag(&result, "missing_pricing"));
}

#[test]
fn cached_and_written_tokens_have_rates_of_their_own() {
    let file = |input: i64| PriceFile {
        scheme: "test".to_string(),
        catalog_version: "one".to_string(),
        timezone: "UTC".to_string(),
        versions: vec![PriceVersion {
            version: "v1".to_string(),
            effective_from_ms: 0,
            effective_to_ms: None,
            source: None,
            source_url: None,
            source_precision: None,
            long_context_threshold_tokens: None,
            rates: vec![ModelRate {
                model: "m".to_string(),
                aliases: vec!["alias".to_string()],
                input_microusd_per_million: input,
                cache_read_microusd_per_million: 100,
                cache_write_microusd_per_million: 3_000,
                output_microusd_per_million: 5_000,
                fast_multiplier: None,
                long_context: None,
            }],
        }],
    };
    let tokens = TokenCounts {
        input: 6_000_000,
        cached: 2_000_000,
        cache_write: 1_000_000,
        output: 1_000_000,
        reasoning: 500_000,
        total: 7_000_000,
    };
    let told = price_with_config(
        &tokens,
        Some("alias"),
        Some("standard"),
        1,
        ServiceTier::Standard,
        &file(1_000),
        &file(2_000),
    );
    // four million of input that was not cached, two of cached, one written, one of output
    assert_eq!(told.credit_micros, Some(4_000 + 200 + 3_000 + 5_000));
    assert_eq!(told.api_usd_micros, Some(8_000 + 200 + 3_000 + 5_000));
    assert!(told.quality.is_empty());
}

#[test]
fn versions_name_both_catalogs() {
    let config = ProjectConfig::embedded();
    assert_eq!(
        catalogs_version(&config.subscription_credit, &config.api_usd),
        pricing_version()
    );
    assert!(pricing_version().contains(&config.api_usd.catalog_version));
    assert!(config.api_usd.latest_version().unwrap().effective_to_ms.is_none());
}

#[test]
fn the_card_and_the_overrides_follow_the_catalogs() {
    let groups = price_card();
    let config = ProjectConfig::embedded();
    assert_eq!(groups.len(), config.subscription_credit.versions.len());
    let same = catalogs_card(&config.subscription_credit, &config.api_usd);
    assert_eq!(groups[0].version, same[0].version);
    let old = ccusage_overrides_at("subscription", PRICE_CHANGE_MS - 1);
    let new = ccusage_overrides_at("subscription", PRICE_CHANGE_MS);
    let of = |list: &Vec<codex_meter::pricing::ModelOverride>| {
        list.iter()
            .find(|entry| entry.model == "gpt-5.6-terra")
            .unwrap()
            .prices
            .input
    };
    assert_eq!(of(&old), 62_500_000);
    assert_eq!(of(&new), 50_000_000);
    assert_eq!(capacity_defaults(), config.app.capacity_defaults);
}

#[test]
fn the_configured_tier_is_read_from_the_first_readable_file() {
    let fast = "model = 'x'\n service_tier = \"fast\" # comment\n";
    assert_eq!(config_service_tier(fast), ServiceTier::Fast);
    assert_eq!(
        config_service_tier("service_tier='priority'\r\n"),
        ServiceTier::Fast
    );
    assert_eq!(
        config_service_tier("# service_tier = \"fast\"\n"),
        ServiceTier::Standard
    );
    assert_eq!(
        configured_service_tier(&vec![None, Some(fast.to_string())]),
        ServiceTier::Fast
    );
    assert_eq!(
        configured_service_tier(&vec![Some(String::new()), Some(fast.to_string())]),
        ServiceTier::Standard
    );
    assert_eq!(configured_service_tier(&vec![]), ServiceTier::Standard);
}

#[test]
fn counts_add_and_subtract_within_their_range() {
    let mut sum = input_tokens(i64::MAX);
    sum.add_assign(&input_tokens(5));
    assert_eq!(sum.input, i64::MAX);
    let less = input_tokens(3).saturating_sub(&input_tokens(5));
    assert_eq!(less.input, 0);
    assert!(less.regressed_from(&input_tokens(5)));
    assert!(!less.positive());
    let odd = TokenCounts {
        input: 10,
        cached: 40,
        output: 5,
        ..Default::default()
    };
    assert_eq!(odd.normalized().cached, 10);
    assert!(odd.observed());
    assert!(!TokenCounts::default().observed());
}

#[test]
fn unknown_model_stays_unknown_instead_of_zero() {
    let result = card::price(
        &input_tokens(1_000_000),
        Some("not-a-model"),
        Some("standard"),
        card::CARD_BOUNDARY_MS,
    );
    assert_eq!(result.credit_micros, None);
    assert_eq!(result.api_usd_micros, None);
    assert!(has_flag(&result, "missing_pricing"));
}

#[test]
fn pricing_fast_uses_model_multiplier() {
    let tokens = input_tokens(1_000_000);
    let at = card::CARD_BOUNDARY_MS;
    let standard = card::price(&tokens, Some("gpt-5.6-sol"), Some("standard"), at);
    let fast = card::price(&tokens, Some("gpt-5.6-sol"), Some("fast"), at);
    assert!(fast.credit_micros.unwrap() > standard.credit_micros.unwrap());
}

#[test]
fn ccusage_override_is_dollars_per_token() {
    let overrides = card::ccusage_overrides("api");
    let input = overrides
        .iter()
        .find(|entry| entry.model == "gpt-5.6-sol")
        .unwrap()
        .input;
    assert!((per_token(input) - 0.000005).abs() < f64::EPSILON);
}

#[test]
fn the_small_card_lists_every_rate() {
    assert_eq!(card::price_card().len(), card::rates().len());
    assert_eq!(card::PRICING_VERSION, "static-card-2026-08-01");
    let before = card::price(
        &input_tokens(1_000_000),
        Some("gpt-5.6-sol"),
        Some("standard"),
        0,
    );
    assert!(before.quality.len() <= 2);
}

#[test]
fn the_small_card_changes_on_the_first_of_august_in_shanghai() {
    let tokens = input_tokens(200_000);
    let at = |at_ms: i64| card::price(&tokens, Some("gpt-5.6-terra"), Some("standard"), at_ms);
    let before = at(1_785_513_599_999);
    assert_eq!(before.credit_micros, Some(12_500_000));
    assert_eq!(before.api_usd_micros, Some(500_000));
    let after = at(1_785_513_600_000);
    assert_eq!(after.credit_micros, Some(10_000_000));
    assert_eq!(card::CARD_BOUNDARY_MS, 1_785_513_600_000);
    assert!(card::price_card()
        .iter()
        .all(|row| row.effective_from_ms == 1_785_513_600_000));
}

#[test]
fn an_unclassified_tier_costs_what_the_configured_one_costs() {
    let tokens = input_tokens(200_000);
    for (configured, name) in [(ServiceTier::Standard, "standard"), (ServiceTier::Fast, "fast")] {
        for at_ms in [PRICE_CHANGE_MS - 1, PRICE_CHANGE_MS] {
            let of = |tier: Option<&str>| {
                price(&tokens, Some("gpt-5.6-sol"), tier, at_ms, configured)
            };
            let named = of(Some(name));
            for unclassified in [None, Some("flex")] {
                let priced = of(unclassified);
                assert_eq!(priced.credit_micros, named.credit_micros);
                assert_eq!(priced.api_usd_micros, named.api_usd_micros);
                let mut quality = vec!["service_tier_unclassified".to_owned()];
                quality.extend(named.quality.iter().cloned());
                assert_eq!(priced.quality, quality);
            }
        }
    }
    let of = |tier: &str| standard_price(&tokens, "gpt-5.6-sol", Some(tier), PRICE_CHANGE_MS - 1);
    let (fast, standard) = (of("fast"), of("standard"));
    assert_eq!(fast.credit_micros, standard.credit_micros);
    assert_eq!(fast.api_usd_micros, standard.api_usd_micros);
    assert_eq!(fast.quality, vec!["fast_unsupported_fallback_standard".to_owned()]);
    assert!(standard.quality.is_empty());
}

#[test]
fn products_are_those_of_floating_point_numbers() {
    let bases = [
        0,
        1,
        2,
        3,
        7,
        500_001,
        62_500_000,
        (1_i64 << 53) - 1,
        (1_i64 << 53) + 1,
        (1_i64 << 54) + 6,
        (1_i64 << 60) + 12_345_678_901,
        i64::MAX - 512,
        i64::MAX - 511,
        i64::MAX,
    ];
    let factors = [
        0.0,
        -0.0,
        0.5,
        1.0,
        1.5,
        2.0,
        2.5,
        0.1,
        1.1,
        2.123_456_789,
        1.000_000_4,
        1.0 / 3.0,
        0.499_999_999_999_999_94,
        1e-300,
        f64::from_bits(1),
        f64::MIN_POSITIVE,
        1e15,
        1e300,
        f64::MAX,
    ];
    for base in bases {
        for factor in factors {
            let number = Double {
                bits: factor.to_bits(),
            };
            assert!(number.can_multiply());
            let expected = (base as f64 * factor)
                .round()
                .clamp(0.0, i64::MAX as f64) as i64;
            assert_eq!(number.multiply(base), expected, "{base} times {factor}");
        }
    }
    for factor in [-1.0, -f64::from_bits(1), f64::INFINITY, f64::NEG_INFINITY, f64::NAN] {
        assert!(!Double {
            bits: factor.to_bits()
        }
        .can_multiply());
    }
    assert_eq!(f64::from_bits(ONE), 1.0);
    assert_eq!(f64::from_bits(TWO), 2.0);
    assert_eq!(f64::from_bits(TWO_AND_A_HALF), 2.5);
}

#[test]
fn a_multiplier_that_cannot_multiply_leaves_the_price_unknown() {
    let file = |multiplier: f64| PriceFile {
        scheme: "test".to_owned(),
        catalog_version: "test".to_owned(),
        timezone: "Asia/Shanghai".to_owned(),
        versions: vec![PriceVersion {
            version: "test".to_owned(),
            effective_from_ms: 0,
            effective_to_ms: None,
            source: None,
            source_url: None,
            source_precision: None,
            long_context_threshold_tokens: None,
            rates: vec![ModelRate {
                model: "m".to_owned(),
                aliases: vec![],
                input_microusd_per_million: 3_000_000,
                cache_read_microusd_per_million: 0,
                cache_write_microusd_per_million: 0,
                output_microusd_per_million: 0,
                fast_multiplier: Some(Double {
                    bits: multiplier.to_bits(),
                }),
                long_context: None,
            }],
        }],
    };
    let of = |multiplier: f64| {
        price_with_config(
            &input_tokens(1),
            Some("m"),
            Some("fast"),
            1,
            ServiceTier::Standard,
            &file(multiplier),
            &file(1.0),
        )
    };
    for multiplier in [-0.5, f64::NAN, f64::INFINITY] {
        let unknown = of(multiplier);
        assert_eq!(unknown.credit_micros, None);
        assert_eq!(unknown.api_usd_micros, None);
        assert_eq!(unknown.quality, ["pricing_multiplier_invalid"]);
    }
    assert_eq!(of(1.166_666_6).credit_micros, Some(3));
    assert_eq!(of(1.166_666_7).credit_micros, Some(4));
    assert_eq!(of(f64::MAX).credit_micros, Some(i64::MAX));
}

#[test]
fn a_card_is_found_with_its_sources() {
    let card = |version: &str, from: i64, source: &str| PriceVersion {
        version: version.to_owned(),
        effective_from_ms: from,
        effective_to_ms: None,
        source: Some(source.to_owned()),
        source_url: Some(format!("{source}/url")),
        source_precision: Some("day".to_owned()),
        long_context_threshold_tokens: None,
        rates: vec![],
    };
    let file = PriceFile {
        scheme: "test".to_owned(),
        catalog_version: "test".to_owned(),
        timezone: "UTC".to_owned(),
        versions: vec![card("a", 5, "one"), card("a", 5, "two"), card("b", 9, "three")],
    };
    assert_eq!(file.version_at(5).unwrap().source.as_deref(), Some("two"));
    assert_eq!(file.version_at(4).map(|card| card.effective_from_ms), None);
    let latest = file.latest_version().unwrap();
    assert_eq!(latest.source_url.as_deref(), Some("three/url"));
    let config = ProjectConfig::embedded();
    assert_eq!(config.subscription_credit.scheme, "subscription_credit");
    assert_eq!(
        config.subscription_credit.catalog_version,
        "subscription-credit-2026-07-30"
    );
    assert_eq!(config.api_usd.scheme, "api_usd_equivalent");
    assert_eq!(config.api_usd.catalog_version, "api-usd-2026-07-30");
    assert_eq!(config.api_usd.timezone, "Asia/Shanghai");
}
