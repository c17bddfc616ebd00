use hft_core::ledger::ExecutionEngine;
use hft_core::market::Side;

#[test]
fn zero_cross_realizes_pnl_and_resets_average() {
    let mut engine = ExecutionEngine::new();
    let opening = engine.execute("AAPL", Side::Buy, 100, 10);
    assert_eq!(opening.pnl, 0);
    assert_eq!(engine.get_position("AAPL"), 100);
    assert_eq!(engine.get_cost_basis("AAPL"), 1000);

    // Long 100 @ avg 10, sell 150 @ 12: crosses to short 50.
    let crossing = engine.execute("AAPL", Side::Sell, 150, 12);
    assert_eq!(crossing.pnl, 200); // (12 - 10) * 100
    assert_eq!(crossing.price, 12);
    assert_eq!(crossing.size, 150);
    assert_eq!(engine.get_position("AAPL"), -50);
    // Blended average price (100*10 + 150*12) / 50 = 56: cost basis 56 * -50.
    assert_eq!(engine.get_cost_basis("AAPL"), -2800);
    assert_eq!(engine.get_cost_basis("AAPL"), 56 * -50);
}

#[test]
fn same_direction_add_realizes_nothing() {
    let mut engine = ExecutionEngine::new();
    engine.execute("TSLA", Side::Buy, 50, 10);
    let add = engine.execute("TSLA", Side::Buy, 50, 14);
    assert_eq!(add.pnl, 0);
    assert_eq!(engine.get_position("TSLA"), 100);
    // New average (50*10 + 50*14) / 100 = 12: cost basis 12 * 100.
    assert_eq!(engine.get_cost_basis("TSLA"), 1200);
}

#[test]
fn all_buys_accumulate_size_and_notional() {
    let mut engine = ExecutionEngine::new();
    engine.execute("MSFT", Side::Buy, 10, 5);
    engine.execute("MSFT", Side::Buy, 20, 7);
    engine.execute("MSFT", Side::Buy, 30, 9);
    assert_eq!(engine.get_position("MSFT"), 60);
    assert_eq!(engine.get_cost_basis("MSFT"), 10 * 5 + 20 * 7 + 30 * 9);
}

#[test]
fn full_close_to_zero_realizes_nothing() {
    let mut engine = ExecutionEngine::new();
    engine.execute("NVDA", Side::Buy, 100, 10);
    let close = engine.execute("NVDA", Side::Sell, 100, 12);
    // The sign-crossing policy: a close to exactly zero does not cross.
    assert_eq!(close.pnl, 0);
    assert_eq!(engine.get_position("NVDA"), 0);
    assert_eq!(engine.get_cost_basis("NVDA"), 0);
}

#[test]
fn short_cross_to_long() {
    let mut engine = ExecutionEngine::new();
    engine.execute("AMD", Side::Sell, 50, 10);
    assert_eq!(engine.get_position("AMD"), -50);
    assert_eq!(engine.get_cost_basis("AMD"), -500);
    let crossing = engine.execute("AMD", Side::Buy, 80, 8);
    // (price - avg) * |pos| * sign(pos) = (8 - 10) * 50 * -1 = 100.
    assert_eq!(crossing.pnl, 100);
    assert_eq!(engine.get_position("AMD"), 30);
    // Blend: (-50*10 + 80*8) / 30 scaled by the new position: cost 140.
    assert_eq!(engine.get_cost_basis("AMD"), 140);
}

#[test]
fn unknown_symbol_is_flat() {
    let engine = ExecutionEngine::new();
    assert_eq!(engine.get_position("GOOG"), 0);
    assert_eq!(engine.get_cost_basis("GOOG"), 0);
}

#[test]
fn order_ids_are_fresh_uuids() {
    let mut engine = ExecutionEngine::new();
    let a = engine.execute("AAPL", Side::Buy, 1, 1);
    let b = engine.execute("AAPL", Side::Buy, 1, 1);
    assert_eq!(a.order_id.len(), 36);
    assert_eq!(b.order_id.len(), 36);
    assert_ne!(a.order_id, b.order_id);
}

#[test]
fn symbols_are_independent() {
    let mut engine = ExecutionEngine::new();
    engine.execute("AAPL", Side::Buy, 10, 100);
    engine.execute("TSLA", Side::Sell, 5, 200);
    assert_eq!(engine.get_position("AAPL"), 10);
    assert_eq!(engine.get_position("TSLA"), -5);
    assert_eq!(engine.get_cost_basis("AAPL"), 1000);
    assert_eq!(engine.get_cost_basis("TSLA"), -1000);
}

#[test]
fn fresh_ledger_snapshot_is_empty() {
    let engine = ExecutionEngine::new();
    assert!(engine.get_all_positions().is_empty());
}

#[test]
fn closed_symbol_stays_in_snapshot() {
    let mut engine = ExecutionEngine::new();
    engine.execute("AAPL", Side::Buy, 10, 100);
    engine.execute("AAPL", Side::Sell, 10, 110);
    assert_eq!(engine.get_position("AAPL"), 0);
    // Entries are never deleted: the flat symbol still appears.
    let all = engine.get_all_positions();
    assert_eq!(all.len(), 1);
    assert_eq!(all[0].0, "AAPL");
    assert_eq!(all[0].1, 0);
}

#[test]
fn all_positions_snapshot() {
    let mut engine = ExecutionEngine::new();
    engine.execute("AAPL", Side::Buy, 10, 100);
    engine.execute("TSLA", Side::Sell, 5, 200);
    let all = engine.get_all_positions();
    assert_eq!(all.len(), 2);
    let mut found_aapl = false;
    let mut found_tsla = false;
    for (symbol, position) in &all {
        match symbol.as_str() {
            "AAPL" => {
                assert_eq!(*position, 10);
                found_aapl = true;
            }
            "TSLA" => {
                assert_eq!(*position, -5);
                found_tsla = true;
            }
            other => panic!("unexpected symbol {}", other),
        }
    }
    assert!(found_aapl && found_tsla);
}

#[test]
fn fill_queue_collects_and_drains() {
    let mut engine = ExecutionEngine::new();
    let a = engine.execute("AAPL", Side::Buy, 3, 7);
    let b = engine.execute("AAPL", Side::Sell, 1, 9);
    let fills = engine.take_fills();
    assert_eq!(fills.len(), 2);
    assert_eq!(fills[0].order_id, a.order_id);
    assert_eq!(fills[0].price, 7);
    assert_eq!(fills[0].size, 3);
    assert_eq!(fills[1].order_id, b.order_id);
    assert_eq!(engine.take_fills().len(), 0);
    assert_eq!(engine.fills_dropped(), 0);
}

#[test]
fn fill_queue_overflow_drops_and_counts() {
    let mut engine = ExecutionEngine::new();
    for _ in 0..10_002u32 {
        engine.execute("AAPL", Side::Buy, 1, 1);
    }
    assert_eq!(engine.fills_dropped(), 2);
    let fills = engine.take_fills();
    assert_eq!(fills.len(), 10_000);
    assert_eq!(engine.get_position("AAPL"), 10_002);
}
