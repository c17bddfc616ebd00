use hft_core::risk::RiskEngine;

#[test]
fn gate_boundary_at_limit() {
    let gate = RiskEngine::new();
    // max_position = 1000: 950 + 50 = 1000 is still inside the limit.
    assert!(gate.check_pre_trade("AAPL", 50, 950));
    // 950 + 51 = 1001 breaches it.
    assert!(!gate.check_pre_trade("AAPL", 51, 950));
}

#[test]
fn gate_checks_absolute_exposure() {
    let gate = RiskEngine::new();
    assert!(gate.check_pre_trade("AAPL", -50, -950));
    assert!(!gate.check_pre_trade("AAPL", -51, -950));
    assert!(gate.check_pre_trade("AAPL", 2000, -1000));
    assert!(gate.check_pre_trade("AAPL", 0, 1000));
    assert!(!gate.check_pre_trade("AAPL", 1, 1000));
}

#[test]
fn var_fallback_below_sample_floor() {
    let gate = RiskEngine::new();
    let series: Vec<i64> = (1..=29).map(|i| -i).collect();
    assert_eq!(series.len(), 29);
    assert_eq!(gate.calculate_var(&series), 0);
    assert_eq!(gate.calculate_var(&Vec::new()), 0);
}

#[test]
fn var_index_on_sorted_input() {
    let gate = RiskEngine::new();
    // 100 ascending returns: index floor(100 * 0.05) = 5, zero-based.
    let series: Vec<i64> = (0..100).map(|i| i * 10 - 300).collect();
    assert_eq!(gate.calculate_var(&series), 5 * 10 - 300);
}

#[test]
fn var_sorts_before_indexing() {
    let gate = RiskEngine::new();
    // 30 descending values 30..1: ascending is 1..30, index 30/20 = 1.
    let series: Vec<i64> = (1..=30).rev().collect();
    assert_eq!(gate.calculate_var(&series), 2);
}

#[test]
fn var_with_duplicates() {
    let gate = RiskEngine::new();
    let mut series: Vec<i64> = vec![-5; 10];
    series.extend(vec![0; 10]);
    series.extend(vec![5; 20]);
    // 40 samples, index 40/20 = 2: still in the -5 block.
    assert_eq!(gate.calculate_var(&series), -5);
}
