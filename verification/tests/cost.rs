use seekcli::api::UsageInfo;
use seekcli::cost::{fixed4, CostTracker};

fn usage(prompt: u64, completion: u64, hit: u64, miss: u64) -> UsageInfo {
    UsageInfo {
        prompt_tokens: prompt,
        completion_tokens: completion,
        prompt_cache_hit_tokens: hit,
        prompt_cache_miss_tokens: miss,
    }
}

#[test]
fn accumulates_across_calls() {
    let mut t = CostTracker::new();
    assert!(t.is_empty());
    t.record(&usage(100, 50, 80, 20));
    t.record(&usage(200, 60, 150, 50));
    assert_eq!(t.api_calls, 2);
    assert_eq!(t.prompt_tokens, 300);
    assert_eq!(t.completion_tokens, 110);
    assert_eq!(t.cache_hit_tokens, 230);
    assert!(!t.is_empty());
}

#[test]
fn cache_hit_pct_computes() {
    let mut t = CostTracker::new();
    t.record(&usage(100, 0, 75, 25));
    assert_eq!(t.cache_hit_pct(), 75);
}

#[test]
fn estimated_cny_uses_hit_miss_split() {
    let mut t = CostTracker::new();
    t.record(&usage(1_000_000, 1_000_000, 0, 1_000_000));
    assert_eq!(t.estimated_cny_e4(), 50_000);
}

#[test]
fn estimated_cny_falls_back_to_prompt_as_miss() {
    let mut t = CostTracker::new();
    t.record(&usage(1_000_000, 0, 0, 0));
    assert_eq!(t.estimated_cny_e4(), 20_000);
}

#[test]
fn a_cache_hit_costs_a_quarter_of_a_miss() {
    let mut t = CostTracker::new();
    t.record(&usage(1_000_000, 0, 1_000_000, 0));
    assert_eq!(t.estimated_cny_e4(), 5_000);
}

#[test]
fn amounts_print_with_four_decimals() {
    assert_eq!(fixed4(50_000), "5.0000");
    assert_eq!(fixed4(1), "0.0001");
    assert_eq!(fixed4(0), "0.0000");
}

#[test]
fn the_summary_names_the_calls_and_the_bill() {
    let mut t = CostTracker::new();
    t.record(&usage(100, 50, 80, 20));
    assert_eq!(t.summary(), "[Cost] 1 calls · prompt=100 (cache 80%) · completion=50 · ≈¥0.0002");
}

#[test]
fn a_usage_that_would_overflow_does_not_fit() {
    let mut t = seekcli::cost::CostTracker::new();
    let u = seekcli::api::UsageInfo { prompt_tokens: 5, completion_tokens: 1, prompt_cache_hit_tokens: 2, prompt_cache_miss_tokens: 3 };
    assert!(t.fits(&u));
    t.record(&u);
    assert!(!t.is_empty());
    t.prompt_tokens = u64::MAX;
    assert!(!t.fits(&u));
    assert!(t.pct_fits());
    t.cache_hit_tokens = u64::MAX;
    assert!(!t.pct_fits());
}
