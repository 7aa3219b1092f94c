use codexhalo::pricing::{estimate, model_value, pricing_for, PRICING_VERSION};
use codexhalo::usage::{ModelBreakdown, ModelUsage, TokenUsage};

fn dollars(mills: u64) -> f64 {
    mills as f64 / 1000.0
}

fn value_in_dollars(value: Option<u128>) -> Option<f64> {
    value.map(|nanos| nanos as f64 / 1_000_000_000.0)
}

#[test]
fn prices_cached_input_separately() {
    let usage = ModelUsage { input: 1_000_000, cached_input: Some(500_000), output: 100_000, reasoning: None, total: 1_100_000 };
    let price = model_value(&usage, pricing_for("gpt-5.3-codex").unwrap());
    assert!((price as f64 / 1_000_000_000.0 - 2.3625).abs() < 0.00001);
    assert_eq!(price, 2_362_500_000);
}

#[test]
fn unknown_model_preserves_identity_and_is_excluded_from_the_value() {
    let mut by_model = ModelBreakdown::new();
    by_model.insert("gpt-5.7-example".to_owned(), ModelUsage { input: 500_000, total: 500_000, ..Default::default() });
    let result = estimate(&TokenUsage { input: 500_000, by_model, total: 500_000, ..Default::default() });
    assert_eq!(value_in_dollars(result.value), Some(0.0));
    assert_eq!(result.unavailable_models, vec!["gpt-5.7-example"]);
    assert!(result.estimated_models.is_empty());
}

#[test]
fn mixed_pricing_returns_only_the_published_price_subtotal() {
    let mut by_model = ModelBreakdown::new();
    by_model.insert("gpt-5.6-sol".to_owned(), ModelUsage { input: 1_000_000, total: 1_000_000, ..Default::default() });
    by_model.insert("codex-auto-review".to_owned(), ModelUsage { input: 500_000, total: 500_000, ..Default::default() });
    let result = estimate(&TokenUsage { input: 1_500_000, by_model, total: 1_500_000, ..Default::default() });
    assert_eq!(value_in_dollars(result.value), Some(4.0));
    assert_eq!(result.unavailable_models, vec!["codex-auto-review"]);
}

#[test]
fn zero_usage_has_a_zero_value_instead_of_being_unavailable() {
    let result = estimate(&TokenUsage::default());
    assert_eq!(value_in_dollars(result.value), Some(0.0));
    assert!(result.unavailable_models.is_empty());
}

#[test]
fn supports_current_and_legacy_codex_model_rates() {
    let sol = pricing_for("gpt-5.6-sol").unwrap();
    assert_eq!(dollars(sol.input_mills_per_million), 4.0);
    assert_eq!(sol.cached_input_mills_per_million.map(dollars), Some(0.4));
    assert_eq!(dollars(sol.output_mills_per_million), 20.0);
    assert_eq!(dollars(pricing_for("gpt-5.6-terra").unwrap().input_mills_per_million), 2.0);
    assert_eq!(pricing_for("gpt-5.6-luna").unwrap().cached_input_mills_per_million.map(dollars), Some(0.02));
    assert_eq!(dollars(pricing_for("gpt-5.4-mini").unwrap().output_mills_per_million), 4.5);
    assert_eq!(dollars(pricing_for("gpt-5.1-codex-mini").unwrap().input_mills_per_million), 0.25);
    assert_eq!(pricing_for("codex-mini-latest").unwrap().cached_input_mills_per_million.map(dollars), Some(0.375));
}

#[test]
fn model_ids_match_without_regard_to_ascii_case() {
    assert_eq!(pricing_for("GPT-5.6-SOL"), pricing_for("gpt-5.6-sol"));
    assert_eq!(dollars(pricing_for("GPT-5.6").unwrap().input_mills_per_million), 4.0);
    assert_eq!(pricing_for("gpt-5.6x"), None);
    assert_eq!(pricing_for("gpt-5.5-pro-2").unwrap().cached_input_mills_per_million, None);
    assert_eq!(dollars(pricing_for("gpt-5.5-mini").unwrap().input_mills_per_million), 5.0);
    assert_eq!(dollars(pricing_for("gpt-5.2").unwrap().output_mills_per_million), 14.0);
    assert_eq!(dollars(pricing_for("gpt-5-codex").unwrap().input_mills_per_million), 1.25);
    assert_eq!(pricing_for("unknown"), None);
}

#[test]
fn cached_input_above_the_input_is_capped_and_missing_cached_rate_uses_the_input_rate() {
    let pro = pricing_for("gpt-5.5-pro").unwrap();
    let usage = ModelUsage { input: 1_000, cached_input: Some(400), output: 10, reasoning: None, total: 1_010 };
    assert_eq!(model_value(&usage, pro), 1_000 * 30_000 + 10 * 180_000);
    let sol = pricing_for("gpt-5.6-sol").unwrap();
    let over = ModelUsage { input: 100, cached_input: Some(1_000), output: 0, reasoning: None, total: 100 };
    assert_eq!(model_value(&over, sol), 100 * 400);
}

#[test]
fn unused_unknown_models_are_not_listed_and_the_version_is_reported() {
    let mut by_model = ModelBreakdown::new();
    by_model.insert("zz-unused".to_owned(), ModelUsage::default());
    by_model.insert("aa-used".to_owned(), ModelUsage { input: 1, total: 1, ..Default::default() });
    by_model.insert("mm-used".to_owned(), ModelUsage { output: 1, total: 1, ..Default::default() });
    let result = estimate(&TokenUsage { by_model, ..Default::default() });
    assert_eq!(result.unavailable_models, vec!["aa-used", "mm-used"]);
    assert_eq!(result.version, PRICING_VERSION);
    assert_eq!(result.value, Some(0));
}
