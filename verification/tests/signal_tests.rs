use hft_core::market::{Side, TradeSignal};

#[test]
fn buy_action_parses() {
    let signal = TradeSignal::from_action("BUY", 10, 25).expect("BUY must parse");
    assert!(matches!(signal.side, Side::Buy));
    assert_eq!(signal.size, 10);
    assert_eq!(signal.price, 25);
}

#[test]
fn sell_action_parses() {
    let signal = TradeSignal::from_action("SELL", 3, 7).expect("SELL must parse");
    assert!(matches!(signal.side, Side::Sell));
    assert_eq!(signal.size, 3);
    assert_eq!(signal.price, 7);
}

#[test]
fn unknown_actions_mean_no_signal() {
    assert!(TradeSignal::from_action("HOLD", 10, 25).is_none());
    assert!(TradeSignal::from_action("buy", 10, 25).is_none());
    assert!(TradeSignal::from_action("", 10, 25).is_none());
    assert!(TradeSignal::from_action("SELL ", 10, 25).is_none());
}
