//! Market-facing data types: ticks, orders, trade signals.

use vstd::prelude::*;

verus! {

/// Which way a trade goes.
#[derive(Clone, Copy, Debug, PartialEq, Eq, Structural)]
pub enum Side {
    Buy,
    Sell,
}

/// One market event: a trade print or quote update for a symbol.
///
/// `price` and `size` are in fixed scaled units and must be non-negative;
/// `timestamp` is a monotonically meaningful integer supplied by the feed.
#[derive(Debug, Clone)]
pub struct Tick {
    pub symbol: String,
    pub price: i64,
    pub size: i64,
    pub timestamp: u64,
    pub exchange: String,
}

impl Tick {
    /// A tick the core accepts: price and size are non-negative.
    pub open spec fn valid(&self) -> bool {
        self.price >= 0 && self.size >= 0
    }
}

/// An order as handed to the execution venue.
#[derive(Debug, Clone)]
pub struct Order {
    pub id: String,
    pub symbol: String,
    pub side: Side,
    pub size: i64,
    pub price: i64,
    pub timestamp: u64,
}

/// A trade proposal produced by the external strategy for one tick.
///
/// The strategy is opaque to the core; a signal is only acted on after the
/// risk gate approves it. A well-formed signal has a strictly positive size
/// and a non-negative price.
#[derive(Debug, Clone, Copy)]
pub struct TradeSignal {
    pub side: Side,
    pub size: i64,
    pub price: i64,
}

impl TradeSignal {
    /// A signal the core accepts: strictly positive size, non-negative price.
    pub open spec fn valid(&self) -> bool {
        self.size > 0 && self.price >= 0
    }

    /// Interprets the action string of a raw strategy payload.
    ///
    /// Only the exact action strings `"BUY"` and `"SELL"` yield a signal;
    /// any other payload counts as malformed and means "no signal", never
    /// an error.
    pub fn from_action(action: &str, size: i64, price: i64) -> (r: Option<TradeSignal>)
        ensures
            action@ == "BUY"@ ==> (r == Some(TradeSignal {
                side: Side::Buy,
                size: size,
                price: price,
            })),
            action@ == "SELL"@ ==> (r == Some(TradeSignal {
                side: Side::Sell,
                size: size,
                price: price,
            })),
            action@ != "BUY"@ && action@ != "SELL"@ ==> r is None,
    {
        proof {
            reveal_strlit("BUY");
            reveal_strlit("SELL");
            assert("BUY"@.len() == 3 && "SELL"@.len() == 4);
        }
        let owned = action.to_owned();
        if owned == "BUY".to_owned() {
            Some(TradeSignal { side: Side::Buy, size, price })
        } else if owned == "SELL".to_owned() {
            Some(TradeSignal { side: Side::Sell, size, price })
        } else {
            None
        }
    }
}

} // verus!
