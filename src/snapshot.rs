//! The market snapshot: one point-in-time reading for a symbol.

use vstd::prelude::*;

verus! {

/// One reading of a symbol.
///
/// The indicator values are carried through unchanged and never computed
/// with, so each is held as the bit pattern of its IEEE-754 double
/// (`f64::to_bits`), which keeps it exactly as the provider gave it.
#[derive(Debug)]
pub struct MarketSnapshot {
    pub symbol: String,
    pub price: u64,
    pub macd: u64,
    pub signal: u64,
    pub hist: u64,
    /// Seconds since the Unix epoch, taken when the reading was fetched.
    pub ts: i64,
}

impl MarketSnapshot {
    /// Builds a snapshot from its fields, each kept as given.
    pub fn new(symbol: String, price: u64, macd: u64, signal: u64, hist: u64, ts: i64) -> (r:
        MarketSnapshot)
        ensures
            r == (MarketSnapshot { symbol, price, macd, signal, hist, ts }),
    {
        MarketSnapshot { symbol, price, macd, signal, hist, ts }
    }
}

impl Clone for MarketSnapshot {
    fn clone(&self) -> (r: Self)
        ensures
            r == *self,
    {
        MarketSnapshot {
            symbol: self.symbol.clone(),
            price: self.price,
            macd: self.macd,
            signal: self.signal,
            hist: self.hist,
            ts: self.ts,
        }
    }
}

} // verus!
