//! The backtest engine: deterministic replay of stored candles
//! through a strategy, with per-bar fills, the strategy tick, and
//! cancellation of every order left open at the end.

use crate::decimal::Decimal;
use crate::models::Candle;
use crate::decimal::DEC_UNIT;
use crate::strategy::context::{
    lemma_cancel_all_err_overflow, spec_cancel_all, spec_fill_init, spec_fill_loop, AccountModel,
    MarketPrecision, Order, StrategyContext, StrategyError, Trade, TradingFees,
};
use crate::strategy::Strategy;
use crate::timeframe::Timeframe;
use vstd::prelude::*;

verus! {

/// How many bars pass between two progress reports of a backtest
/// worker.
pub const BACKTEST_BROADCAST_INTERVAL: usize = 100;

/// Result of a completed backtest.
#[derive(Debug)]
pub struct BacktestResult {
    pub exchange: String,
    pub symbol: String,
    pub timeframe: Timeframe,
    pub candles_processed: usize,
    pub final_balance: Decimal,
    pub final_position: Decimal,
    pub trades: Vec<Trade>,
}

/// Content equality of backtest results.
pub open spec fn backtest_result_eq(a: BacktestResult, b: BacktestResult) -> bool {
    a.exchange@ == b.exchange@ && a.symbol@ == b.symbol@ && a.timeframe == b.timeframe
        && a.candles_processed == b.candles_processed && a.final_balance == b.final_balance
        && a.final_position == b.final_position && a.trades@ == b.trades@
}

impl BacktestResult {
    /// A content-equal copy.
    pub fn duplicate(&self) -> (r: BacktestResult)
        ensures
            backtest_result_eq(r, *self),
    {
        let mut trades: Vec<Trade> = Vec::new();
        let mut i: usize = 0;
        while i < self.trades.len()
            invariant
                i <= self.trades@.len(),
                trades@ =~= self.trades@.subrange(0, i as int),
            decreases self.trades@.len() - i,
        {
            trades.push(self.trades[i]);
            i = i + 1;
        }
        proof {
            assert(self.trades@.subrange(0, self.trades@.len() as int) =~= self.trades@);
        }
        BacktestResult {
            exchange: self.exchange.clone(),
            symbol: self.symbol.clone(),
            timeframe: self.timeframe,
            candles_processed: self.candles_processed,
            final_balance: self.final_balance,
            final_position: self.final_position,
            trades,
        }
    }
}

/// Lifecycle of a standalone backtest task.
#[derive(Debug, Clone, Copy, PartialEq, Eq, Structural)]
pub enum BacktestStatus {
    Pending,
    Running,
    Completed,
    Failed,
}

/// Why a backtest failed: an empty history, a rejection by the
/// engine's own validation or bookkeeping (`Account`), or an error
/// the strategy's tick returned (`Strategy`).
#[derive(Debug, Clone, Copy, PartialEq, Eq, Structural)]
pub enum BacktestError {
    NoCandles,
    Account(StrategyError),
    Strategy(StrategyError),
}

impl BacktestError {
    /// Human-readable description: the fixed text for an empty
    /// history, the carried error's own text otherwise.
    pub fn message(&self) -> (r: String)
        ensures
            *self is NoCandles ==> r@ == "No candles available for backtest"@,
            *self matches BacktestError::Account(e) ==> r@ == e.spec_message(),
            *self matches BacktestError::Strategy(e) ==> r@ == e.spec_message(),
    {
        match self {
            BacktestError::NoCandles => "No candles available for backtest".to_owned(),
            BacktestError::Account(e) => e.message(),
            BacktestError::Strategy(e) => e.message(),
        }
    }
}

/// One backtest in flight: the account, how many bars it has
/// replayed, and how many there are in all. A worker steps it one
/// bar at a time and may report progress between steps.
#[derive(Debug)]
pub struct BacktestRun {
    pub context: StrategyContext,
    pub processed: usize,
    pub total: usize,
}

impl BacktestRun {
    /// A run is sound while its account is well-formed and it has not
    /// replayed more bars than exist.
    pub open spec fn wf(self) -> bool {
        self.context.wf() && self.processed <= self.total
    }

    /// Begin a backtest over `total` bars with the spec's initial
    /// account: 10000 quote units, no base asset, no trades, no
    /// orders, an empty candle window. Zero bars, a non-positive
    /// precision and a negative fee rate are rejected.
    pub fn start(total: usize, fees: TradingFees, precision: MarketPrecision) -> (r: Result<
        BacktestRun,
        BacktestError,
    >)
        ensures
            (r == Err::<BacktestRun, BacktestError>(BacktestError::NoCandles)) <==> total == 0,
            match r {
                Ok(run) => {
                    &&& precision.price_precision.units > 0
                    &&& precision.amount_precision.units > 0
                    &&& fees.maker.units >= 0
                    &&& fees.taker.units >= 0
                    &&& run.wf()
                    &&& run.processed == 0
                    &&& run.total == total
                    &&& run.context.candles_view() == Seq::<Candle>::empty()
                    &&& run.context.am() == (AccountModel {
                        balance: 10000 * (DEC_UNIT as int),
                        position: 0,
                        trades: Seq::<Trade>::empty(),
                        orders: Seq::<Order>::empty(),
                        maker: fees.maker.units as int,
                        taker: fees.taker.units as int,
                        tick: precision.price_precision.units as int,
                        lot: precision.amount_precision.units as int,
                        last: None::<Candle>,
                    })
                },
                Err(e) => match e {
                    BacktestError::NoCandles => total == 0,
                    BacktestError::Account(e2) => {
                        &&& total > 0
                        &&& (e2 == StrategyError::NonPositivePrecision <==> (
                        precision.price_precision.units <= 0 || precision.amount_precision.units
                            <= 0))
                        &&& (e2 == StrategyError::NegativeFee <==> (
                        precision.price_precision.units > 0 && precision.amount_precision.units
                            > 0 && (fees.maker.units < 0 || fees.taker.units < 0)))
                        &&& (e2 is NonPositivePrecision || e2 is NegativeFee)
                    },
                    BacktestError::Strategy(_) => false,
                },
            },
    {
        if total == 0 {
            return Err(BacktestError::NoCandles);
        }
        match StrategyContext::new(fees, precision) {
            Ok(context) => Ok(BacktestRun { context, processed: 0, total }),
            Err(e) => Err(BacktestError::Account(e)),
        }
    }

    /// Replay one bar: append it to the window, fill the limit
    /// orders the bar crosses (exactly the fill phase `before`
    /// states, over the account with the bar appended), tick the
    /// strategy, and run the per-bar postlude. A fill-phase overflow
    /// is the engine's own failure and leaves the account as it was
    /// but for the appended bar; after a successful fill phase only
    /// the strategy's tick can fail.
    pub fn step<S: Strategy>(&mut self, candle: Candle, strategy: &mut S) -> (r: Result<
        (),
        BacktestError,
    >)
        requires
            old(self).wf(),
            old(self).processed < old(self).total,
        ensures
            final(self).wf(),
            final(self).total == old(self).total,
            r is Ok ==> final(self).processed == old(self).processed + 1,
            r matches Err(e) ==> (e is Account || e is Strategy) && final(self).processed == old(
                self,
            ).processed,
            r matches Err(BacktestError::Account(e2)) ==> e2 is Overflow,
            ({
                let pushed = (AccountModel { last: Some(candle), ..old(self).context.am() });
                let fin = spec_fill_loop(
                    old(self).context.am().orders,
                    candle,
                    spec_fill_init(pushed),
                );
                &&& (fin.err ==> r == Err::<(), BacktestError>(
                    BacktestError::Account(StrategyError::Overflow),
                ) && final(self).context.am() == pushed)
                &&& (r is Ok ==> !fin.err)
            }),
    {
        self.context.push_candle(candle);
        match self.context.before() {
            Ok(()) => {},
            Err(e) => {
                return Err(BacktestError::Account(e));
            },
        }
        match strategy.tick(&mut self.context) {
            Ok(()) => {},
            Err(e) => {
                return Err(BacktestError::Strategy(e));
            },
        }
        match self.context.after() {
            Ok(()) => {},
            Err(e) => {
                return Err(BacktestError::Account(e));
            },
        }
        self.processed = self.processed + 1;
        Ok(())
    }

    /// Progress of this run in whole percent.
    pub fn progress(&self) -> (p: u8)
        ensures
            p as int == crate::tasks::fetch_candles::spec_progress(
                self.processed as int,
                self.total as int,
            ),
            p <= 100,
    {
        crate::tasks::fetch_candles::progress_pct(self.processed as u64, self.total as u64)
    }

    /// End the backtest: cancel every order still open (refunding its
    /// reservation) and assemble the result. The result reports
    /// exactly the account state that cancelling the remaining orders
    /// leaves behind; the only possible failure is a refund that
    /// overflows the decimal range.
    pub fn finish(self, exchange: String, symbol: String, timeframe: Timeframe) -> (r: Result<
        BacktestResult,
        BacktestError,
    >)
        requires
            self.wf(),
        ensures
            ({
                let ended = spec_cancel_all(self.context.am());
                match r {
                    Ok(res) => {
                        &&& ended.1 is Ok
                        &&& res.exchange@ == exchange@
                        &&& res.symbol@ == symbol@
                        &&& res.timeframe == timeframe
                        &&& res.candles_processed == self.total
                        &&& res.final_balance.units == ended.0.balance
                        &&& res.final_position.units == ended.0.position
                        &&& res.trades@ == ended.0.trades
                    },
                    Err(e) => e == BacktestError::Account(StrategyError::Overflow) && ended.1
                        is Err,
                }
            }),
    {
        let mut context = self.context;
        match context.end() {
            Ok(()) => {},
            Err(e) => {
                proof {
                    lemma_cancel_all_err_overflow(self.context.am());
                }
                return Err(BacktestError::Account(e));
            },
        }
        let final_balance = context.balance();
        let final_position = context.position();
        let trades = context.take_trades();
        Ok(
            BacktestResult {
                exchange,
                symbol,
                timeframe,
                candles_processed: self.total,
                final_balance,
                final_position,
                trades,
            },
        )
    }
}

/// Replay every candle through the strategy: append the bar, fill
/// crossed limit orders, tick the strategy, and at the end cancel
/// every order still open. Fails exactly on an empty history or
/// invalid market rules before any bar is replayed; afterwards only
/// a decimal overflow of the engine's own bookkeeping (`Account`) or
/// an error returned by the strategy's tick (`Strategy`) can fail it.
pub fn run_backtest<S: Strategy>(
    exchange: String,
    symbol: String,
    timeframe: Timeframe,
    candles: &Vec<Candle>,
    fees: TradingFees,
    precision: MarketPrecision,
    strategy: &mut S,
) -> (r: Result<BacktestResult, BacktestError>)
    ensures
        (r == Err::<BacktestResult, BacktestError>(BacktestError::NoCandles)) <==> candles@.len()
            == 0,
        (r == Err::<BacktestResult, BacktestError>(
            BacktestError::Account(StrategyError::NonPositivePrecision),
        )) <==> (candles@.len() > 0 && (precision.price_precision.units <= 0
            || precision.amount_precision.units <= 0)),
        (r == Err::<BacktestResult, BacktestError>(
            BacktestError::Account(StrategyError::NegativeFee),
        )) <==> (candles@.len() > 0 && precision.price_precision.units > 0
            && precision.amount_precision.units > 0 && (fees.maker.units < 0 || fees.taker.units
            < 0)),
        r matches Err(BacktestError::Account(e2)) ==> (e2 is Overflow || e2 is NonPositivePrecision
            || e2 is NegativeFee),
        match r {
            Ok(res) => {
                &&& res.exchange@ == exchange@
                &&& res.symbol@ == symbol@
                &&& res.timeframe == timeframe
                &&& res.candles_processed == candles@.len()
            },
            Err(e) => true,
        },
{
    let mut run = match BacktestRun::start(candles.len(), fees, precision) {
        Ok(run) => run,
        Err(e) => {
            return Err(e);
        },
    };
    let mut i: usize = 0;
    while i < candles.len()
        invariant
            run.wf(),
            run.total == candles@.len(),
            run.processed == i,
            i <= candles@.len(),
            precision.price_precision.units > 0,
            precision.amount_precision.units > 0,
            fees.maker.units >= 0,
            fees.taker.units >= 0,
        decreases candles@.len() - i,
    {
        match run.step(candles[i].duplicate(), strategy) {
            Ok(()) => {},
            Err(e) => {
                return Err(e);
            },
        }
        i = i + 1;
    }
    run.finish(exchange, symbol, timeframe)
}

} // verus!
