use merco::decimal::Decimal;
use merco::models::Candle;
use merco::strategy::context::{
    MarketPrecision, StrategyContext, StrategyError, TradeType, TradingFees,
};
use merco::timeframe::Timeframe;

fn dec(mantissa: i64, places: u32) -> Decimal {
    Decimal::new(mantissa, places).unwrap()
}

fn fees_milli() -> TradingFees {
    TradingFees { maker: dec(1, 3), taker: dec(1, 3) }
}

fn precision_cent() -> MarketPrecision {
    MarketPrecision { price_precision: dec(1, 2), amount_precision: dec(1, 2) }
}

fn bar(ts: i64, open: i64, high: i64, low: i64, close: i64) -> Candle {
    Candle {
        timestamp: ts,
        exchange: "X".to_string(),
        symbol: "Y/Z".to_string(),
        timeframe: Timeframe::M1,
        open: Decimal::from_int(open as i32),
        high: Decimal::from_int(high as i32),
        low: Decimal::from_int(low as i32),
        close: Decimal::from_int(close as i32),
        volume: Decimal::from_int(1),
    }
}

fn fresh_account() -> StrategyContext {
    StrategyContext::new(fees_milli(), precision_cent()).unwrap()
}

#[test]
fn new_account_holds_ten_thousand() {
    let ctx = fresh_account();
    assert_eq!(ctx.balance(), Decimal::from_int(10000));
    assert_eq!(ctx.position(), Decimal::from_int(0));
    assert!(ctx.trades().is_empty());
    assert!(ctx.orders().is_empty());
}

#[test]
fn new_account_rejects_zero_precision() {
    let bad = MarketPrecision { price_precision: dec(0, 2), amount_precision: dec(1, 2) };
    assert_eq!(
        StrategyContext::new(fees_milli(), bad).unwrap_err(),
        StrategyError::NonPositivePrecision
    );
}

#[test]
fn new_account_rejects_negative_fee() {
    let bad = TradingFees { maker: dec(-1, 3), taker: dec(1, 3) };
    assert_eq!(
        StrategyContext::new(bad, precision_cent()).unwrap_err(),
        StrategyError::NegativeFee
    );
}

#[test]
fn market_buy_charges_cost_plus_fee() {
    let mut ctx = fresh_account();
    ctx.push_candle(bar(0, 100, 100, 100, 100));
    ctx.market_buy(&Decimal::from_int(1)).unwrap();
    // cost 100, taker fee 0.1
    assert_eq!(ctx.balance(), dec(98999, 1)); // 9899.9
    assert_eq!(ctx.position(), Decimal::from_int(1));
    assert_eq!(ctx.trades().len(), 1);
    let t = ctx.trades()[0];
    assert_eq!(t.trade_type, TradeType::MarketBuy);
    assert_eq!(t.price, Decimal::from_int(100));
    assert_eq!(t.amount, Decimal::from_int(1));
    assert_eq!(t.fee, dec(1, 1));
}

#[test]
fn market_buy_rejects_non_positive_amount() {
    let mut ctx = fresh_account();
    ctx.push_candle(bar(0, 100, 100, 100, 100));
    assert_eq!(
        ctx.market_buy(&Decimal::from_int(0)).unwrap_err(),
        StrategyError::NonPositiveAmount
    );
    // an amount below one lot rounds down to zero
    assert_eq!(
        ctx.market_buy(&dec(5, 3)).unwrap_err(),
        StrategyError::NonPositiveAmount
    );
}

#[test]
fn market_buy_rejects_insufficient_funds() {
    let mut ctx = fresh_account();
    ctx.push_candle(bar(0, 100, 100, 100, 100));
    assert_eq!(
        ctx.market_buy(&Decimal::from_int(200)).unwrap_err(),
        StrategyError::InsufficientFunds
    );
}

#[test]
fn market_ops_need_a_candle() {
    let mut ctx = fresh_account();
    assert_eq!(
        ctx.market_buy(&Decimal::from_int(1)).unwrap_err(),
        StrategyError::NoCandles
    );
    assert_eq!(ctx.candle().unwrap_err(), StrategyError::NoCandles);
}

#[test]
fn market_sell_rejects_insufficient_position() {
    let mut ctx = fresh_account();
    ctx.push_candle(bar(0, 100, 100, 100, 100));
    assert_eq!(
        ctx.market_sell(&Decimal::from_int(1)).unwrap_err(),
        StrategyError::InsufficientPosition
    );
}

#[test]
fn account_stays_non_negative_through_round_trip() {
    let mut ctx = fresh_account();
    ctx.push_candle(bar(0, 100, 100, 100, 100));
    ctx.market_buy(&Decimal::from_int(99)).unwrap();
    assert!(ctx.balance().units >= 0);
    assert!(ctx.position().units >= 0);
    ctx.market_sell(&Decimal::from_int(99)).unwrap();
    assert!(ctx.balance().units >= 0);
    assert!(ctx.position().units >= 0);
}

#[test]
fn limit_buy_reserves_and_cancel_restores_exactly() {
    let mut ctx = fresh_account();
    ctx.push_candle(bar(0, 100, 100, 100, 100));
    let id = ctx.limit_buy(&Decimal::from_int(96), &Decimal::from_int(1)).unwrap().unwrap();
    // reservation: 96 cost + 0.1 maker fee (0.096 rounded up to the tick)
    assert_eq!(ctx.balance(), dec(99039, 1)); // 9903.9
    assert_eq!(ctx.orders().len(), 1);
    ctx.cancel_order(id).unwrap();
    assert_eq!(ctx.balance(), Decimal::from_int(10000));
    assert_eq!(ctx.orders().len(), 0);
    assert_eq!(ctx.trades().len(), 0);
}

#[test]
fn limit_sell_reserves_and_cancel_restores_exactly() {
    let mut ctx = fresh_account();
    ctx.push_candle(bar(0, 100, 100, 100, 100));
    ctx.market_buy(&Decimal::from_int(2)).unwrap();
    let pos_before = ctx.position();
    let id = ctx.limit_sell(&Decimal::from_int(120), &Decimal::from_int(1)).unwrap().unwrap();
    assert_eq!(ctx.position(), Decimal::from_int(1));
    ctx.cancel_order(id).unwrap();
    assert_eq!(ctx.position(), pos_before);
}

#[test]
fn cancel_unknown_id_is_ignored() {
    let mut ctx = fresh_account();
    ctx.push_candle(bar(0, 100, 100, 100, 100));
    let balance = ctx.balance();
    ctx.cancel_order(12345).unwrap();
    assert_eq!(ctx.balance(), balance);
}

#[test]
fn limit_buy_at_or_above_close_downgrades_to_market_buy() {
    let mut a = fresh_account();
    a.push_candle(bar(0, 100, 100, 100, 100));
    let r = a.limit_buy(&Decimal::from_int(101), &Decimal::from_int(1)).unwrap();
    assert_eq!(r, None); // no order placed

    let mut b = fresh_account();
    b.push_candle(bar(0, 100, 100, 100, 100));
    b.market_buy(&Decimal::from_int(1)).unwrap();

    assert_eq!(a.balance(), b.balance());
    assert_eq!(a.position(), b.position());
    assert_eq!(a.trades().len(), b.trades().len());
    assert_eq!(a.trades()[0], b.trades()[0]);
    assert_eq!(a.orders().len(), 0);
}

#[test]
fn limit_sell_at_or_below_close_downgrades_to_market_sell() {
    let mut a = fresh_account();
    a.push_candle(bar(0, 100, 100, 100, 100));
    a.market_buy(&Decimal::from_int(1)).unwrap();
    let r = a.limit_sell(&Decimal::from_int(99), &Decimal::from_int(1)).unwrap();
    assert_eq!(r, None);
    assert_eq!(a.position(), Decimal::from_int(0));
    assert_eq!(a.trades().len(), 2);
    assert_eq!(a.trades()[1].trade_type, TradeType::MarketSell);
}

#[test]
fn limit_orders_reject_non_positive_price() {
    let mut ctx = fresh_account();
    ctx.push_candle(bar(0, 100, 100, 100, 100));
    assert_eq!(
        ctx.limit_buy(&Decimal::from_int(-5), &Decimal::from_int(1)).unwrap_err(),
        StrategyError::NonPositivePrice
    );
    // a limit sell at a non-positive price is rejected too
    ctx.market_buy(&Decimal::from_int(1)).unwrap();
    ctx.push_candle(bar(60_000, 100, 100, 100, -1));
    assert_eq!(
        ctx.limit_sell(&Decimal::from_int(0), &Decimal::from_int(1)).unwrap_err(),
        StrategyError::NonPositivePrice
    );
}

#[test]
fn sub_tick_limit_buy_places_at_price_zero() {
    // a positive price below one tick floors to zero; the order is
    // placed with a zero reservation, fills only at a zero low, and
    // cancelling refunds exactly nothing
    let mut ctx = fresh_account();
    ctx.push_candle(bar(0, 100, 100, 100, 100));
    let id = ctx.limit_buy(&dec(5, 3), &Decimal::from_int(1)).unwrap().unwrap();
    assert_eq!(ctx.orders().len(), 1);
    assert_eq!(ctx.orders()[0].price, Decimal::from_int(0));
    assert_eq!(ctx.orders()[0].fee, Decimal::from_int(0));
    assert_eq!(ctx.balance(), Decimal::from_int(10000));
    // a bar that stays above zero does not fill it
    ctx.push_candle(bar(60_000, 100, 101, 95, 99));
    ctx.before().unwrap();
    assert_eq!(ctx.orders().len(), 1);
    ctx.cancel_order(id).unwrap();
    assert_eq!(ctx.balance(), Decimal::from_int(10000));
    assert_eq!(ctx.orders().len(), 0);
}

#[test]
fn fill_phase_fills_crossed_buy_in_insertion_order() {
    let mut ctx = fresh_account();
    ctx.push_candle(bar(0, 100, 100, 100, 100));
    ctx.before().unwrap();
    let _id = ctx.limit_buy(&Decimal::from_int(96), &Decimal::from_int(1)).unwrap().unwrap();
    // next bar dips to 95: the buy fills at its limit price
    ctx.push_candle(bar(60_000, 100, 101, 95, 99));
    ctx.before().unwrap();
    assert_eq!(ctx.orders().len(), 0);
    assert_eq!(ctx.position(), Decimal::from_int(1));
    assert_eq!(ctx.trades().len(), 1);
    let t = ctx.trades()[0];
    assert_eq!(t.trade_type, TradeType::LimitBuy);
    assert_eq!(t.price, Decimal::from_int(96));
    assert_eq!(t.timestamp, 60_000);
}

#[test]
fn fill_phase_keeps_uncrossed_orders() {
    let mut ctx = fresh_account();
    ctx.push_candle(bar(0, 100, 100, 100, 100));
    let _id = ctx.limit_buy(&Decimal::from_int(50), &Decimal::from_int(1)).unwrap().unwrap();
    ctx.push_candle(bar(60_000, 100, 101, 95, 99));
    ctx.before().unwrap();
    assert_eq!(ctx.orders().len(), 1);
    assert_eq!(ctx.trades().len(), 0);
}

#[test]
fn dust_sale_cannot_drive_balance_below_zero() {
    // fees 0.001, tick 0.0001, lot 0.01; two buys leave the balance
    // at exactly 0; the rounded-up fee of a dust sale then exceeds
    // its proceeds, so the sale is rejected instead of overdrawing
    let fees = TradingFees { maker: dec(1, 3), taker: dec(1, 3) };
    let precision = MarketPrecision { price_precision: dec(1, 4), amount_precision: dec(1, 2) };
    let mut ctx = StrategyContext::new(fees, precision).unwrap();

    ctx.push_candle(bar(0, 999, 999, 999, 999));
    ctx.market_buy(&Decimal::from_int(10)).unwrap(); // 9990 + 9.99 fee
    assert_eq!(ctx.balance(), dec(1, 2)); // 0.01 left

    let mut b2 = bar(60_000, 1, 1, 1, 1);
    b2.close = dec(99, 2); // 0.99
    ctx.push_candle(b2);
    ctx.market_buy(&dec(1, 2)).unwrap(); // 0.0099 + 0.0001 fee
    assert_eq!(ctx.balance(), Decimal::from_int(0));

    let mut b3 = bar(120_000, 1, 1, 1, 1);
    b3.close = dec(1, 4); // 0.0001
    ctx.push_candle(b3);
    // proceeds 0.000001, fee rounds up to 0.0001: rejected
    assert_eq!(
        ctx.market_sell(&dec(1, 2)).unwrap_err(),
        StrategyError::InsufficientFunds
    );
    assert_eq!(ctx.balance(), Decimal::from_int(0));
    assert!(ctx.balance().units >= 0);
    assert_eq!(ctx.position(), dec(1001, 2)); // 10.01, untouched
}

#[test]
fn dust_limit_sell_cannot_be_placed() {
    // an order whose rounded-up maker fee exceeds its own proceeds
    // could overdraw the balance when filled, so placing it fails
    let fees = TradingFees { maker: dec(1, 3), taker: dec(1, 3) };
    let precision = MarketPrecision { price_precision: dec(1, 4), amount_precision: dec(1, 2) };
    let mut ctx = StrategyContext::new(fees, precision).unwrap();
    ctx.push_candle(bar(0, 100, 100, 100, 100));
    ctx.market_buy(&Decimal::from_int(1)).unwrap();

    let mut b2 = bar(60_000, 1, 1, 1, 1);
    b2.close = dec(1, 4); // 0.0001
    ctx.push_candle(b2);
    // price 0.0002 places (above the close); proceeds 0.000002, fee 0.0001
    assert_eq!(
        ctx.limit_sell(&dec(2, 4), &dec(1, 2)).unwrap_err(),
        StrategyError::InsufficientFunds
    );
    assert_eq!(ctx.orders().len(), 0);
}

#[test]
fn market_buy_reports_overflow_on_extreme_prices() {
    let mut ctx = fresh_account();
    let mut huge = bar(0, 1, 1, 1, 1);
    huge.close = Decimal::from_units(i64::MAX);
    ctx.push_candle(huge);
    // the cost plus fee of this trade exceeds what a decimal can hold
    assert_eq!(
        ctx.market_buy(&Decimal::from_int(1)).unwrap_err(),
        StrategyError::Overflow
    );
    // the rejected operation left the account untouched
    assert_eq!(ctx.balance(), Decimal::from_int(10000));
}

#[test]
fn limit_buy_rejects_a_reused_order_id() {
    let mut ctx = fresh_account();
    ctx.push_candle(bar(0, 100, 100, 100, 100));
    ctx.limit_buy_with_id(&Decimal::from_int(96), &Decimal::from_int(1), 42)
        .unwrap()
        .unwrap();
    assert_eq!(
        ctx.limit_buy_with_id(&Decimal::from_int(95), &Decimal::from_int(1), 42)
            .unwrap_err(),
        StrategyError::OrderIdCollision
    );
}

#[test]
fn end_cancels_all_open_orders() {
    let mut ctx = fresh_account();
    ctx.push_candle(bar(0, 100, 100, 100, 100));
    ctx.limit_buy(&Decimal::from_int(50), &Decimal::from_int(1)).unwrap().unwrap();
    ctx.limit_buy(&Decimal::from_int(40), &Decimal::from_int(2)).unwrap().unwrap();
    ctx.end().unwrap();
    assert_eq!(ctx.orders().len(), 0);
    assert_eq!(ctx.balance(), Decimal::from_int(10000));
}
