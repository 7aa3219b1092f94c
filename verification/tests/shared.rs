use codexhalo::usage::{ModelBreakdown, ModelUsage, RateLimitWindow, TokenUsage};

#[test]
fn remaining_is_clamped() {
    let window = RateLimitWindow { used_percent: 140, ..Default::default() };
    assert_eq!(window.remaining_percent(), 0);
}

#[test]
fn aggregation_preserves_breakdown() {
    let mut total = TokenUsage::default();
    total.push("gpt-test", ModelUsage { input: 10, cached_input: Some(4), output: 3, reasoning: Some(1), total: 14 });
    assert_eq!(total.total, 14);
    assert_eq!(total.by_model.get("gpt-test").unwrap().cached_input, Some(4));
}

#[test]
fn aggregation_preserves_missing_optional_counters() {
    let mut total = TokenUsage::default();
    total.push("legacy", ModelUsage { input: 10, output: 2, total: 12, ..Default::default() });
    assert_eq!(total.cached_input, None);
    assert_eq!(total.reasoning, None);
    assert_eq!(total.by_model.get("legacy").unwrap().cached_input, None);
    assert_eq!(total.by_model.get("legacy").unwrap().reasoning, None);
}

#[test]
fn remaining_percent_of_partly_used_window() {
    let window = RateLimitWindow { used_percent: 28, ..Default::default() };
    assert_eq!(window.remaining_percent(), 72);
    let full = RateLimitWindow { used_percent: 100, ..Default::default() };
    assert_eq!(full.remaining_percent(), 0);
}

#[test]
fn pushes_add_up_per_model_and_in_total() {
    let mut total = TokenUsage::default();
    total.push("b-model", ModelUsage { input: 5, cached_input: None, output: 1, reasoning: None, total: 6 });
    total.push("a-model", ModelUsage { input: 7, cached_input: Some(2), output: 3, reasoning: None, total: 10 });
    total.push("b-model", ModelUsage { input: 1, cached_input: Some(1), output: 1, reasoning: Some(4), total: 2 });
    assert_eq!(total.input, 13);
    assert_eq!(total.cached_input, Some(3));
    assert_eq!(total.reasoning, Some(4));
    assert_eq!(total.total, 18);
    let b = total.by_model.get("b-model").unwrap();
    assert_eq!((b.input, b.cached_input, b.output, b.reasoning, b.total), (6, Some(1), 2, Some(4), 8));
    let names: Vec<&str> = total.by_model.entries().iter().map(|e| e.model.as_str()).collect();
    assert_eq!(names, vec!["a-model", "b-model"]);
    assert_eq!(total.by_model.len(), 2);
}

#[test]
fn breakdown_insert_replaces_and_reports_the_previous_usage() {
    let mut map = ModelBreakdown::new();
    assert!(map.is_empty());
    let first = ModelUsage { input: 1, total: 1, ..Default::default() };
    let second = ModelUsage { input: 2, total: 2, ..Default::default() };
    assert_eq!(map.insert("m".to_owned(), first), None);
    assert_eq!(map.insert("m".to_owned(), second), Some(first));
    assert_eq!(map.get("m"), Some(&second));
    assert_eq!(map.get("other"), None);
    assert_eq!(map.len(), 1);
}

#[test]
fn breakdown_orders_models_by_code_point() {
    let mut map = ModelBreakdown::new();
    for name in ["gpt-5.5", "Zeta", "gpt-5", "é-model", "a"] {
        map.insert(name.to_owned(), ModelUsage::default());
    }
    let names: Vec<&str> = map.entries().iter().map(|e| e.model.as_str()).collect();
    let mut expected = vec!["gpt-5.5", "Zeta", "gpt-5", "é-model", "a"];
    expected.sort();
    assert_eq!(names, expected);
}

#[test]
fn add_assign_sums_optional_counters() {
    let mut usage = ModelUsage { input: 1, cached_input: None, output: 2, reasoning: Some(3), total: 3 };
    usage.add_assign(&ModelUsage { input: 4, cached_input: Some(5), output: 6, reasoning: None, total: 10 });
    assert_eq!(usage, ModelUsage { input: 5, cached_input: Some(5), output: 8, reasoning: Some(3), total: 13 });
    assert_eq!(codexhalo::usage::sum_optional(None, None), None);
    assert_eq!(codexhalo::usage::sum_optional(Some(2), None), Some(2));
}
