//! Market data records.

use crate::decimal::Decimal;
use crate::timeframe::Timeframe;
use vstd::prelude::*;

verus! {

/// One OHLCV bar. `timestamp` is the bar's opening boundary in
/// milliseconds since the Unix epoch.
#[derive(Debug, Clone)]
pub struct Candle {
    pub timestamp: i64,
    pub exchange: String,
    pub symbol: String,
    pub timeframe: Timeframe,
    pub open: Decimal,
    pub high: Decimal,
    pub low: Decimal,
    pub close: Decimal,
    pub volume: Decimal,
}

/// Field-wise equality of candles (string fields compared by content).
pub open spec fn candle_eq(a: Candle, b: Candle) -> bool {
    a.timestamp == b.timestamp && a.exchange@ == b.exchange@ && a.symbol@ == b.symbol@
        && a.timeframe == b.timeframe && a.open == b.open && a.high == b.high && a.low == b.low
        && a.close == b.close && a.volume == b.volume
}

impl Candle {
    /// A copy of this candle.
    pub fn duplicate(&self) -> (r: Candle)
        ensures
            candle_eq(r, *self),
    {
        Candle {
            timestamp: self.timestamp,
            exchange: self.exchange.clone(),
            symbol: self.symbol.clone(),
            timeframe: self.timeframe,
            open: self.open,
            high: self.high,
            low: self.low,
            close: self.close,
            volume: self.volume,
        }
    }
}

} // verus!
