use merco::decimal::Decimal;
use merco::models::Candle;
use merco::strategy::context::{
    MarketPrecision, StrategyContext, StrategyError, TradeType, TradingFees,
};
use merco::strategy::{HoldStrategy, Strategy};
use merco::tasks::backtest::{run_backtest, BacktestError, BacktestRun};
use merco::timeframe::Timeframe;

fn dec(mantissa: i64, places: u32) -> Decimal {
    Decimal::new(mantissa, places).unwrap()
}

fn fees_milli() -> TradingFees {
    TradingFees { maker: dec(1, 3), taker: dec(1, 3) }
}

fn precision_cent() -> MarketPrecision {
    MarketPrecision { price_precision: dec(1, 2), amount_precision: dec(1, 2) }
}

fn flat_bar(ts: i64, price: i32) -> Candle {
    Candle {
        timestamp: ts,
        exchange: "X".to_string(),
        symbol: "Y/Z".to_string(),
        timeframe: Timeframe::M1,
        open: Decimal::from_int(price),
        high: Decimal::from_int(price),
        low: Decimal::from_int(price),
        close: Decimal::from_int(price),
        volume: Decimal::from_int(1),
    }
}

/// Buys one unit on the first bar and sells it on the last of ten.
struct BuyThenSell;

impl Strategy for BuyThenSell {
    fn tick(&mut self, context: &mut StrategyContext) -> Result<(), StrategyError> {
        let n = context.candles().len();
        if n == 1 {
            context.market_buy(&Decimal::from_int(1))?;
        } else if n == 10 {
            context.market_sell(&Decimal::from_int(1))?;
        }
        Ok(())
    }
}

/// Places one limit buy below the market on the first bar.
struct OneLimitBuy {
    price: i32,
}

impl Strategy for OneLimitBuy {
    fn tick(&mut self, context: &mut StrategyContext) -> Result<(), StrategyError> {
        if context.candles().len() == 1 {
            context.limit_buy(&Decimal::from_int(self.price), &Decimal::from_int(1))?;
        }
        Ok(())
    }
}

#[test]
fn backtest_rejects_empty_history() {
    let mut strategy = HoldStrategy;
    let r = run_backtest(
        "X".to_string(),
        "Y/Z".to_string(),
        Timeframe::M1,
        &Vec::new(),
        fees_milli(),
        precision_cent(),
        &mut strategy,
    );
    let e = r.unwrap_err();
    assert_eq!(e, BacktestError::NoCandles);
    assert_eq!(e.message(), "No candles available for backtest");
}

#[test]
fn backtest_rejects_invalid_market_rules() {
    let candles: Vec<Candle> = (0..3).map(|i| flat_bar(i * 60_000, 100)).collect();
    let bad_precision =
        MarketPrecision { price_precision: dec(0, 2), amount_precision: dec(1, 2) };
    let mut strategy = HoldStrategy;
    assert_eq!(
        run_backtest(
            "X".to_string(),
            "Y/Z".to_string(),
            Timeframe::M1,
            &candles,
            fees_milli(),
            bad_precision,
            &mut strategy,
        )
        .unwrap_err(),
        BacktestError::Account(StrategyError::NonPositivePrecision)
    );
    let bad_fees = TradingFees { maker: dec(-1, 3), taker: dec(1, 3) };
    assert_eq!(
        run_backtest(
            "X".to_string(),
            "Y/Z".to_string(),
            Timeframe::M1,
            &candles,
            bad_fees,
            precision_cent(),
            &mut strategy,
        )
        .unwrap_err(),
        BacktestError::Account(StrategyError::NegativeFee)
    );
}

/// A strategy whose first tick demands more than the account holds.
struct OverbuyStrategy;

impl Strategy for OverbuyStrategy {
    fn tick(&mut self, context: &mut StrategyContext) -> Result<(), StrategyError> {
        context.market_buy(&Decimal::from_int(1000))?;
        Ok(())
    }
}

#[test]
fn strategy_error_fails_the_backtest() {
    // buying 1000 at 100 needs 100100 quote against a 10000 balance
    let candles: Vec<Candle> = (0..3).map(|i| flat_bar(i * 60_000, 100)).collect();
    let mut strategy = OverbuyStrategy;
    let e = run_backtest(
        "X".to_string(),
        "Y/Z".to_string(),
        Timeframe::M1,
        &candles,
        fees_milli(),
        precision_cent(),
        &mut strategy,
    )
    .unwrap_err();
    assert_eq!(e, BacktestError::Strategy(StrategyError::InsufficientFunds));
    assert_eq!(e.message(), "Insufficient funds");
}

#[test]
fn backtest_run_starts_with_the_initial_account() {
    let run = BacktestRun::start(5, fees_milli(), precision_cent()).unwrap();
    assert_eq!(run.processed, 0);
    assert_eq!(run.total, 5);
    assert_eq!(run.context.balance(), Decimal::from_int(10000));
    assert_eq!(run.context.position(), Decimal::from_int(0));
    assert!(run.context.trades().is_empty());
    assert!(run.context.orders().is_empty());
    assert!(run.context.candles().is_empty());
    assert_eq!(
        BacktestRun::start(0, fees_milli(), precision_cent()).unwrap_err(),
        BacktestError::NoCandles
    );
}

#[test]
fn backtest_hold_keeps_everything() {
    let candles: Vec<Candle> = (0..5).map(|i| flat_bar(i * 60_000, 100)).collect();
    let mut strategy = HoldStrategy;
    let res = run_backtest(
        "X".to_string(),
        "Y/Z".to_string(),
        Timeframe::M1,
        &candles,
        fees_milli(),
        precision_cent(),
        &mut strategy,
    )
    .unwrap();
    assert_eq!(res.candles_processed, 5);
    assert_eq!(res.final_balance, Decimal::from_int(10000));
    assert_eq!(res.final_position, Decimal::from_int(0));
    assert!(res.trades.is_empty());
}

#[test]
fn deterministic_backtest_round_trip() {
    // ten flat bars at 100; buy 1 on the first, sell 1 on the last
    let candles: Vec<Candle> = (0..10).map(|i| flat_bar(i * 60_000, 100)).collect();
    let mut strategy = BuyThenSell;
    let res = run_backtest(
        "X".to_string(),
        "Y/Z".to_string(),
        Timeframe::M1,
        &candles,
        fees_milli(),
        precision_cent(),
        &mut strategy,
    )
    .unwrap();
    assert_eq!(res.candles_processed, 10);
    assert_eq!(res.final_position, Decimal::from_int(0));
    // 10000 - 100 - 0.1 + 100 - 0.1 = 9999.80
    assert_eq!(res.final_balance, dec(99998, 1));
    assert_eq!(res.trades.len(), 2);
    assert_eq!(res.trades[0].trade_type, TradeType::MarketBuy);
    assert_eq!(res.trades[1].trade_type, TradeType::MarketSell);
}

#[test]
fn deterministic_backtest_is_repeatable() {
    let candles: Vec<Candle> = (0..10).map(|i| flat_bar(i * 60_000, 100)).collect();
    let mut s1 = BuyThenSell;
    let mut s2 = BuyThenSell;
    let r1 = run_backtest(
        "X".to_string(),
        "Y/Z".to_string(),
        Timeframe::M1,
        &candles,
        fees_milli(),
        precision_cent(),
        &mut s1,
    )
    .unwrap();
    let r2 = run_backtest(
        "X".to_string(),
        "Y/Z".to_string(),
        Timeframe::M1,
        &candles,
        fees_milli(),
        precision_cent(),
        &mut s2,
    )
    .unwrap();
    assert_eq!(r1.final_balance, r2.final_balance);
    assert_eq!(r1.final_position, r2.final_position);
    assert_eq!(r1.trades, r2.trades);
}

#[test]
fn limit_fill_scenario() {
    // bar 0 closes at 100; bar 1 ranges 95..101: a 96 limit buy fills
    let mut candles = vec![flat_bar(0, 100)];
    candles.push(Candle {
        timestamp: 60_000,
        exchange: "X".to_string(),
        symbol: "Y/Z".to_string(),
        timeframe: Timeframe::M1,
        open: Decimal::from_int(100),
        high: Decimal::from_int(101),
        low: Decimal::from_int(95),
        close: Decimal::from_int(99),
        volume: Decimal::from_int(1),
    });
    let mut strategy = OneLimitBuy { price: 96 };
    let res = run_backtest(
        "X".to_string(),
        "Y/Z".to_string(),
        Timeframe::M1,
        &candles,
        fees_milli(),
        precision_cent(),
        &mut strategy,
    )
    .unwrap();
    assert_eq!(res.final_position, Decimal::from_int(1));
    assert_eq!(res.trades.len(), 1);
    assert_eq!(res.trades[0].trade_type, TradeType::LimitBuy);
    assert_eq!(res.trades[0].price, Decimal::from_int(96));
    // the reservation (96 + 0.1 fee) was consumed by the fill
    assert_eq!(res.final_balance, dec(99039, 1));
}

#[test]
fn unfilled_order_cancelled_at_end() {
    // all bars trade at 100; a 50 limit buy never fills and is
    // refunded at the end of the backtest
    let candles: Vec<Candle> = (0..5).map(|i| flat_bar(i * 60_000, 100)).collect();
    let mut strategy = OneLimitBuy { price: 50 };
    let res = run_backtest(
        "X".to_string(),
        "Y/Z".to_string(),
        Timeframe::M1,
        &candles,
        fees_milli(),
        precision_cent(),
        &mut strategy,
    )
    .unwrap();
    assert_eq!(res.final_balance, Decimal::from_int(10000));
    assert_eq!(res.trades.len(), 0);
    assert_eq!(res.final_position, Decimal::from_int(0));
}
