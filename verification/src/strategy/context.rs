//! The simulated trading account driven by a backtest: balance and
//! position bookkeeping, market and limit orders, fee and precision
//! rules.

use crate::decimal::{
    dec_fits, lemma_mul_units_comm, lemma_mul_units_nonneg, lemma_round_down_idempotent,
    lemma_round_down_props, spec_mul_units, spec_round_down, spec_round_up,
    Decimal, DEC_UNIT,
};
use crate::models::Candle;
use crate::utils::new_raw_id;
use vstd::prelude::*;

verus! {

/// Kind of an executed trade.
#[derive(Debug, Clone, Copy, PartialEq, Eq, Structural)]
pub enum TradeType {
    MarketBuy,
    MarketSell,
    LimitBuy,
    LimitSell,
}

/// An executed trade; the trade list is append-only.
#[derive(Debug, Clone, Copy, PartialEq, Eq, Structural)]
pub struct Trade {
    pub timestamp: i64,
    pub trade_type: TradeType,
    pub price: Decimal,
    pub amount: Decimal,
    pub fee: Decimal,
}

/// Kind of an open order.
#[derive(Debug, Clone, Copy, PartialEq, Eq, Structural)]
pub enum OrderType {
    LimitBuy,
    LimitSell,
}

/// An open limit order. Its reservation was taken when it was placed.
#[derive(Debug, Clone, Copy, PartialEq, Eq, Structural)]
pub struct Order {
    pub id: u128,
    pub order_type: OrderType,
    pub price: Decimal,
    pub amount: Decimal,
    pub fee: Decimal,
}

/// Maker and taker fee rates, as fractions of quote notional.
#[derive(Debug, Clone, Copy, PartialEq, Eq, Structural)]
pub struct TradingFees {
    pub maker: Decimal,
    pub taker: Decimal,
}

/// Price tick size and amount lot size of a market.
#[derive(Debug, Clone, Copy, PartialEq, Eq, Structural)]
pub struct MarketPrecision {
    pub price_precision: Decimal,
    pub amount_precision: Decimal,
}

/// Why an account operation was rejected.
#[derive(Debug, Clone, Copy, PartialEq, Eq, Structural)]
pub enum StrategyError {
    NonPositiveAmount,
    /// A negative limit-buy price, or a non-positive limit-sell
    /// price (a buy's sub-tick price is allowed and floors to zero).
    NonPositivePrice,
    InsufficientFunds,
    InsufficientPosition,
    NoCandles,
    Overflow,
    OrderIdCollision,
    NonPositivePrecision,
    NegativeFee,
}

impl StrategyError {
    /// The description `message` returns for each rejection.
    pub open spec fn spec_message(self) -> Seq<char> {
        match self {
            StrategyError::NonPositiveAmount => "Amount must be positive"@,
            StrategyError::NonPositivePrice => "Price must be positive"@,
            StrategyError::InsufficientFunds => "Insufficient funds"@,
            StrategyError::InsufficientPosition => "Insufficient base asset amount to sell"@,
            StrategyError::NoCandles => "No candles available"@,
            StrategyError::Overflow => "Decimal overflow"@,
            StrategyError::OrderIdCollision => "Order id collision"@,
            StrategyError::NonPositivePrecision => "Precision must be positive"@,
            StrategyError::NegativeFee => "Fee rate must not be negative"@,
        }
    }

    /// Human-readable description.
    pub fn message(&self) -> (r: String)
        ensures
            r@ == self.spec_message(),
    {
        match self {
            StrategyError::NonPositiveAmount => "Amount must be positive".to_owned(),
            StrategyError::NonPositivePrice => "Price must be positive".to_owned(),
            StrategyError::InsufficientFunds => "Insufficient funds".to_owned(),
            StrategyError::InsufficientPosition => {
                "Insufficient base asset amount to sell".to_owned()
            },
            StrategyError::NoCandles => "No candles available".to_owned(),
            StrategyError::Overflow => "Decimal overflow".to_owned(),
            StrategyError::OrderIdCollision => "Order id collision".to_owned(),
            StrategyError::NonPositivePrecision => "Precision must be positive".to_owned(),
            StrategyError::NegativeFee => "Fee rate must not be negative".to_owned(),
        }
    }
}

/// Mathematical view of an account: integer base units throughout.
#[verifier::ext_equal]
pub ghost struct AccountModel {
    pub balance: int,
    pub position: int,
    pub trades: Seq<Trade>,
    pub orders: Seq<Order>,
    pub maker: int,
    pub taker: int,
    pub tick: int,
    pub lot: int,
    pub last: Option<Candle>,
}

/// Every open order carries a non-negative price (a buy's sub-tick
/// price floors to zero), a positive amount and a non-negative fee;
/// an open limit sell's price is positive and its fee is covered by
/// its own proceeds, so that filling it can never reduce the balance.
pub open spec fn order_wf(o: Order) -> bool {
    &&& o.price.units >= 0
    &&& o.amount.units > 0
    &&& o.fee.units >= 0
    &&& (o.order_type is LimitSell ==> o.price.units > 0 && o.fee.units <= spec_mul_units(
        o.price.units as int,
        o.amount.units as int,
    ))
}

/// Well-formedness of an account model: valid market rules, a
/// non-negative balance and position, and well-formed orders with
/// distinct ids.
pub open spec fn model_wf(m: AccountModel) -> bool {
    &&& dec_fits(m.balance)
    &&& dec_fits(m.position)
    &&& m.balance >= 0
    &&& m.position >= 0
    &&& m.tick > 0
    &&& dec_fits(m.tick)
    &&& m.lot > 0
    &&& dec_fits(m.lot)
    &&& m.maker >= 0
    &&& dec_fits(m.maker)
    &&& m.taker >= 0
    &&& dec_fits(m.taker)
    &&& (forall|i: int| 0 <= i < m.orders.len() ==> order_wf(#[trigger] m.orders[i]))
    &&& (forall|i: int, j: int|
        0 <= i < j < m.orders.len() ==> m.orders[i].id != m.orders[j].id)
}

/// Outcome of a market buy: rounds the amount down to the lot size and
/// the current close down to the tick, charges cost plus taker fee
/// (fee rounded up to the tick), debits the balance and credits the
/// position.
pub open spec fn spec_market_buy(m: AccountModel, amount: int) -> (AccountModel, Result<
    (),
    StrategyError,
>) {
    let amt = spec_round_down(amount, m.lot);
    if !dec_fits(amt) || amt <= 0 {
        (m, Err(StrategyError::NonPositiveAmount))
    } else {
        match m.last {
            None => (m, Err(StrategyError::NoCandles)),
            Some(c) => {
                let price = spec_round_down(c.close.units as int, m.tick);
                if !dec_fits(price) {
                    (m, Err(StrategyError::Overflow))
                } else {
                    let cost = spec_mul_units(price, amt);
                    let feeraw = spec_mul_units(cost, m.taker);
                    let fee = spec_round_up(feeraw, m.tick);
                    let total = cost + fee;
                    if !dec_fits(cost) || !dec_fits(feeraw) || !dec_fits(fee) || !dec_fits(total) {
                        (m, Err(StrategyError::Overflow))
                    } else if total > m.balance {
                        (m, Err(StrategyError::InsufficientFunds))
                    } else if !dec_fits(m.balance - total) || !dec_fits(m.position + amt) {
                        (m, Err(StrategyError::Overflow))
                    } else {
                        (
                            AccountModel {
                                balance: m.balance - total,
                                position: m.position + amt,
                                trades: m.trades.push(
                                    Trade {
                                        timestamp: c.timestamp,
                                        trade_type: TradeType::MarketBuy,
                                        price: Decimal { units: price as i64 },
                                        amount: Decimal { units: amt as i64 },
                                        fee: Decimal { units: fee as i64 },
                                    },
                                ),
                                ..m
                            },
                            Ok(()),
                        )
                    }
                }
            },
        }
    }
}

/// Outcome of a market sell: rounds the amount down, requires it to be
/// covered by the position, credits proceeds minus taker fee and
/// debits the position. A sale whose rounded-up fee exceeds its
/// proceeds by more than the balance would drive the balance below
/// zero and is rejected as insufficient funds.
pub open spec fn spec_market_sell(m: AccountModel, amount: int) -> (AccountModel, Result<
    (),
    StrategyError,
>) {
    let amt = spec_round_down(amount, m.lot);
    if !dec_fits(amt) || amt <= 0 {
        (m, Err(StrategyError::NonPositiveAmount))
    } else if amt > m.position {
        (m, Err(StrategyError::InsufficientPosition))
    } else {
        match m.last {
            None => (m, Err(StrategyError::NoCandles)),
            Some(c) => {
                let price = spec_round_down(c.close.units as int, m.tick);
                if !dec_fits(price) {
                    (m, Err(StrategyError::Overflow))
                } else {
                    let proceeds = spec_mul_units(price, amt);
                    let feeraw = spec_mul_units(proceeds, m.taker);
                    let fee = spec_round_up(feeraw, m.tick);
                    if !dec_fits(proceeds) || !dec_fits(feeraw) || !dec_fits(fee) {
                        (m, Err(StrategyError::Overflow))
                    } else if m.balance + proceeds - fee < 0 {
                        (m, Err(StrategyError::InsufficientFunds))
                    } else if !dec_fits(proceeds - fee) || !dec_fits(
                        m.balance + proceeds - fee,
                    ) {
                        (m, Err(StrategyError::Overflow))
                    } else {
                        (
                            AccountModel {
                                balance: m.balance + proceeds - fee,
                                position: m.position - amt,
                                trades: m.trades.push(
                                    Trade {
                                        timestamp: c.timestamp,
                                        trade_type: TradeType::MarketSell,
                                        price: Decimal { units: price as i64 },
                                        amount: Decimal { units: amt as i64 },
                                        fee: Decimal { units: fee as i64 },
                                    },
                                ),
                                ..m
                            },
                            Ok(()),
                        )
                    }
                }
            },
        }
    }
}

/// The simulated account a strategy trades against.
#[derive(Debug)]
pub struct StrategyContext {
    pub(crate) candles: Vec<Candle>,
    pub(crate) balance: Decimal,
    pub(crate) position: Decimal,
    pub(crate) trades: Vec<Trade>,
    pub(crate) orders: Vec<Order>,
    pub(crate) fees: TradingFees,
    pub(crate) precision: MarketPrecision,
}

impl StrategyContext {
    /// Mathematical view of this account.
    pub closed spec fn am(self) -> AccountModel {
        AccountModel {
            balance: self.balance.units as int,
            position: self.position.units as int,
            trades: self.trades@,
            orders: self.orders@,
            maker: self.fees.maker.units as int,
            taker: self.fees.taker.units as int,
            tick: self.precision.price_precision.units as int,
            lot: self.precision.amount_precision.units as int,
            last: if self.candles@.len() > 0 {
                Some(self.candles@.last())
            } else {
                None
            },
        }
    }

    /// The whole candle window.
    pub closed spec fn candles_view(self) -> Seq<Candle> {
        self.candles@
    }

    /// A well-formed account.
    pub open spec fn wf(self) -> bool {
        model_wf(self.am())
    }

    /// A fresh account holding 10000 quote units and no base asset.
    /// Rejects a non-positive precision and a negative fee rate.
    pub fn new(fees: TradingFees, precision: MarketPrecision) -> (r: Result<
        StrategyContext,
        StrategyError,
    >)
        ensures
            match r {
                Ok(ctx) => {
                    &&& precision.price_precision.units > 0
                    &&& precision.amount_precision.units > 0
                    &&& fees.maker.units >= 0
                    &&& fees.taker.units >= 0
                    &&& ctx.wf()
                    &&& ctx.candles_view() == Seq::<Candle>::empty()
                    &&& ctx.am() == (AccountModel {
                        balance: 10000 * (DEC_UNIT as int),
                        position: 0,
                        trades: Seq::<Trade>::empty(),
                        orders: Seq::<Order>::empty(),
                        maker: fees.maker.units as int,
                        taker: fees.taker.units as int,
                        tick: precision.price_precision.units as int,
                        lot: precision.amount_precision.units as int,
                        last: None::<Candle>,
                    })
                },
                Err(e) => {
                    &&& (e == StrategyError::NonPositivePrecision <==> (
                    precision.price_precision.units <= 0 || precision.amount_precision.units
                        <= 0))
                    &&& (e == StrategyError::NegativeFee <==> (precision.price_precision.units > 0
                        && precision.amount_precision.units > 0 && (fees.maker.units < 0
                        || fees.taker.units < 0)))
                    &&& (e is NonPositivePrecision || e is NegativeFee)
                },
            },
    {
        if precision.price_precision.units <= 0 || precision.amount_precision.units <= 0 {
            return Err(StrategyError::NonPositivePrecision);
        }
        if fees.maker.units < 0 || fees.taker.units < 0 {
            return Err(StrategyError::NegativeFee);
        }
        let ctx = StrategyContext {
            candles: Vec::new(),
            balance: Decimal::from_int(10000),
            position: Decimal::zero(),
            trades: Vec::new(),
            orders: Vec::new(),
            fees,
            precision,
        };
        proof {
            assert(ctx.am() == (AccountModel {
                balance: 10000 * (DEC_UNIT as int),
                position: 0,
                trades: Seq::<Trade>::empty(),
                orders: Seq::<Order>::empty(),
                maker: fees.maker.units as int,
                taker: fees.taker.units as int,
                tick: precision.price_precision.units as int,
                lot: precision.amount_precision.units as int,
                last: None::<Candle>,
            }));
        }
        Ok(ctx)
    }

    /// Append the next bar to the account's candle window.
    pub fn push_candle(&mut self, c: Candle)
        requires
            old(self).wf(),
        ensures
            final(self).wf(),
            final(self).candles_view() == old(self).candles_view().push(c),
            final(self).am() == (AccountModel { last: Some(c), ..old(self).am() }),
    {
        self.candles.push(c);
    }

    /// The candle window.
    pub fn candles(&self) -> (r: &Vec<Candle>)
        ensures
            r@ == self.candles_view(),
    {
        &self.candles
    }

    /// The current (latest) candle.
    pub fn candle(&self) -> (r: Result<&Candle, StrategyError>)
        ensures
            match r {
                Ok(c) => self.am().last == Some(*c),
                Err(e) => self.am().last is None && e == StrategyError::NoCandles,
            },
    {
        let n = self.candles.len();
        if n == 0 {
            Err(StrategyError::NoCandles)
        } else {
            Ok(&self.candles[n - 1])
        }
    }

    /// Quote currency held.
    pub fn balance(&self) -> (r: Decimal)
        ensures
            r.units == self.am().balance,
    {
        self.balance
    }

    /// Base currency held.
    pub fn position(&self) -> (r: Decimal)
        ensures
            r.units == self.am().position,
    {
        self.position
    }

    /// All executed trades, oldest first.
    pub fn trades(&self) -> (r: &Vec<Trade>)
        ensures
            r@ == self.am().trades,
    {
        &self.trades
    }

    /// All open orders, in insertion order.
    pub fn orders(&self) -> (r: &Vec<Order>)
        ensures
            r@ == self.am().orders,
    {
        &self.orders
    }

    /// The market's precision rules.
    pub fn precision(&self) -> (r: MarketPrecision)
        ensures
            r.price_precision.units == self.am().tick,
            r.amount_precision.units == self.am().lot,
    {
        self.precision
    }

    /// Buy at the current close. See `spec_market_buy`.
    pub fn market_buy(&mut self, amount: &Decimal) -> (r: Result<(), StrategyError>)
        requires
            old(self).wf(),
        ensures
            final(self).wf(),
            final(self).am() == spec_market_buy(old(self).am(), amount.units as int).0,
            r == spec_market_buy(old(self).am(), amount.units as int).1,
            final(self).candles_view() == old(self).candles_view(),
    {
        let lot = self.precision.amount_precision;
        let tick = self.precision.price_precision;
        let amt = match amount.round_down_to(lot) {
            Some(a) => a,
            None => {
                proof {
                    lemma_round_down_props(amount.units as int, lot.units as int);
                }
                return Err(StrategyError::NonPositiveAmount);
            },
        };
        if amt.units <= 0 {
            return Err(StrategyError::NonPositiveAmount);
        }
        let n = self.candles.len();
        if n == 0 {
            return Err(StrategyError::NoCandles);
        }
        let ts = self.candles[n - 1].timestamp;
        let close = self.candles[n - 1].close;
        let price = match close.round_down_to(tick) {
            Some(p) => p,
            None => {
                return Err(StrategyError::Overflow);
            },
        };
        let cost = match price.try_mul(amt) {
            Some(c) => c,
            None => {
                return Err(StrategyError::Overflow);
            },
        };
        let feeraw = match cost.try_mul(self.fees.taker) {
            Some(f) => f,
            None => {
                return Err(StrategyError::Overflow);
            },
        };
        let fee = match feeraw.round_up_to(tick) {
            Some(f) => f,
            None => {
                return Err(StrategyError::Overflow);
            },
        };
        let total = match cost.try_add(fee) {
            Some(t) => t,
            None => {
                return Err(StrategyError::Overflow);
            },
        };
        if total.units > self.balance.units {
            return Err(StrategyError::InsufficientFunds);
        }
        let newbal = match self.balance.try_sub(total) {
            Some(b) => b,
            None => {
                return Err(StrategyError::Overflow);
            },
        };
        let newpos = match self.position.try_add(amt) {
            Some(p) => p,
            None => {
                return Err(StrategyError::Overflow);
            },
        };
        self.balance = newbal;
        self.position = newpos;
        self.trades.push(
            Trade {
                timestamp: ts,
                trade_type: TradeType::MarketBuy,
                price,
                amount: amt,
                fee,
            },
        );
        Ok(())
    }

    /// Sell at the current close. See `spec_market_sell`.
    pub fn market_sell(&mut self, amount: &Decimal) -> (r: Result<(), StrategyError>)
        requires
            old(self).wf(),
        ensures
            final(self).wf(),
            final(self).am() == spec_market_sell(old(self).am(), amount.units as int).0,
            r == spec_market_sell(old(self).am(), amount.units as int).1,
            final(self).candles_view() == old(self).candles_view(),
    {
        let lot = self.precision.amount_precision;
        let tick = self.precision.price_precision;
        let amt = match amount.round_down_to(lot) {
            Some(a) => a,
            None => {
                proof {
                    lemma_round_down_props(amount.units as int, lot.units as int);
                }
                return Err(StrategyError::NonPositiveAmount);
            },
        };
        if amt.units <= 0 {
            return Err(StrategyError::NonPositiveAmount);
        }
        if amt.units > self.position.units {
            return Err(StrategyError::InsufficientPosition);
        }
        let n = self.candles.len();
        if n == 0 {
            return Err(StrategyError::NoCandles);
        }
        let ts = self.candles[n - 1].timestamp;
        let close = self.candles[n - 1].close;
        let price = match close.round_down_to(tick) {
            Some(p) => p,
            None => {
                return Err(StrategyError::Overflow);
            },
        };
        let proceeds = match price.try_mul(amt) {
            Some(c) => c,
            None => {
                return Err(StrategyError::Overflow);
            },
        };
        let feeraw = match proceeds.try_mul(self.fees.taker) {
            Some(f) => f,
            None => {
                return Err(StrategyError::Overflow);
            },
        };
        let fee = match feeraw.round_up_to(tick) {
            Some(f) => f,
            None => {
                return Err(StrategyError::Overflow);
            },
        };
        if (self.balance.units as i128) + (proceeds.units as i128) - (fee.units as i128) < 0 {
            return Err(StrategyError::InsufficientFunds);
        }
        let credit = match proceeds.try_sub(fee) {
            Some(c) => c,
            None => {
                return Err(StrategyError::Overflow);
            },
        };
        let newbal = match self.balance.try_add(credit) {
            Some(b) => b,
            None => {
                return Err(StrategyError::Overflow);
            },
        };
        let newpos = match self.position.try_sub(amt) {
            Some(p) => p,
            None => {
                return Err(StrategyError::Overflow);
            },
        };
        self.balance = newbal;
        self.position = newpos;
        self.trades.push(
            Trade {
                timestamp: ts,
                trade_type: TradeType::MarketSell,
                price,
                amount: amt,
                fee,
            },
        );
        Ok(())
    }
}

/// Index of the first open order with the given id, if any.
pub open spec fn spec_order_index(orders: Seq<Order>, id: u128) -> Option<int>
    decreases orders.len(),
{
    if orders.len() == 0 {
        None
    } else if orders[0].id == id {
        Some(0int)
    } else {
        match spec_order_index(orders.drop_first(), id) {
            None => None,
            Some(i) => Some(i + 1),
        }
    }
}

pub proof fn lemma_order_index_first(orders: Seq<Order>, id: u128, k: int)
    requires
        0 <= k < orders.len(),
        orders[k].id == id,
        forall|j: int| 0 <= j < k ==> orders[j].id != id,
    ensures
        spec_order_index(orders, id) == Some(k),
    decreases k,
{
    if k > 0 {
        lemma_order_index_first(orders.drop_first(), id, k - 1);
    }
}

pub proof fn lemma_order_index_none(orders: Seq<Order>, id: u128)
    requires
        forall|j: int| 0 <= j < orders.len() ==> orders[j].id != id,
    ensures
        spec_order_index(orders, id) == None::<int>,
    decreases orders.len(),
{
    if orders.len() > 0 {
        lemma_order_index_none(orders.drop_first(), id);
    }
}

/// Outcome of cancelling an order: the first order with the given id
/// is removed and its reservation refunded exactly; an unknown id is
/// silently ignored.
pub open spec fn spec_cancel(m: AccountModel, id: u128) -> (AccountModel, Result<
    (),
    StrategyError,
>) {
    match spec_order_index(m.orders, id) {
        None => (m, Ok(())),
        Some(j) => {
            let o = m.orders[j];
            match o.order_type {
                OrderType::LimitBuy => {
                    let cost = spec_mul_units(o.price.units as int, o.amount.units as int);
                    let refund = cost + o.fee.units;
                    if !dec_fits(cost) || !dec_fits(refund) || !dec_fits(m.balance + refund) {
                        (m, Err(StrategyError::Overflow))
                    } else {
                        (
                            AccountModel {
                                balance: m.balance + refund,
                                orders: m.orders.remove(j),
                                ..m
                            },
                            Ok(()),
                        )
                    }
                },
                OrderType::LimitSell => {
                    if !dec_fits(m.position + o.amount.units) {
                        (m, Err(StrategyError::Overflow))
                    } else {
                        (
                            AccountModel {
                                position: m.position + o.amount.units,
                                orders: m.orders.remove(j),
                                ..m
                            },
                            Ok(()),
                        )
                    }
                },
            }
        },
    }
}

/// Outcome of placing a limit buy with the fresh id `id`. A price at
/// or above the current close downgrades to an immediate market buy.
/// Placing reserves cost plus maker fee from the balance. The price
/// is floored to the tick; a sub-tick price places the order at
/// price zero (with a zero reservation); only a negative price is
/// rejected.
pub open spec fn spec_limit_buy(m: AccountModel, price: int, amount: int, id: u128) -> (
    AccountModel,
    Result<Option<u128>, StrategyError>,
) {
    let p = spec_round_down(price, m.tick);
    let a = spec_round_down(amount, m.lot);
    if !dec_fits(a) || a <= 0 {
        (m, Err(StrategyError::NonPositiveAmount))
    } else {
        match m.last {
            None => (m, Err(StrategyError::NoCandles)),
            Some(c) => {
                if dec_fits(p) && p >= c.close.units {
                    let (m2, r) = spec_market_buy(m, a);
                    (
                        m2,
                        match r {
                            Ok(()) => Ok(None::<u128>),
                            Err(e) => Err(e),
                        },
                    )
                } else if !dec_fits(p) || p < 0 {
                    (m, Err(StrategyError::NonPositivePrice))
                } else {
                    let cost = spec_mul_units(a, p);
                    let feeraw = spec_mul_units(cost, m.maker);
                    let fee = spec_round_up(feeraw, m.tick);
                    let total = cost + fee;
                    if !dec_fits(cost) || !dec_fits(feeraw) || !dec_fits(fee) || !dec_fits(total) {
                        (m, Err(StrategyError::Overflow))
                    } else if total > m.balance {
                        (m, Err(StrategyError::InsufficientFunds))
                    } else if !dec_fits(m.balance - total) {
                        (m, Err(StrategyError::Overflow))
                    } else if spec_order_index(m.orders, id) is Some {
                        (m, Err(StrategyError::OrderIdCollision))
                    } else {
                        (
                            AccountModel {
                                balance: m.balance - total,
                                orders: m.orders.push(
                                    Order {
                                        id,
                                        order_type: OrderType::LimitBuy,
                                        price: Decimal { units: p as i64 },
                                        amount: Decimal { units: a as i64 },
                                        fee: Decimal { units: fee as i64 },
                                    },
                                ),
                                ..m
                            },
                            Ok(Some(id)),
                        )
                    }
                }
            },
        }
    }
}

/// Outcome of placing a limit sell with the fresh id `id`. A price at
/// or below the current close downgrades to an immediate market sell.
/// Placing reserves the amount from the position. An order so small
/// that its rounded-up maker fee would exceed its own proceeds could
/// drive the balance below zero when filled, and is rejected as
/// insufficient funds.
pub open spec fn spec_limit_sell(m: AccountModel, price: int, amount: int, id: u128) -> (
    AccountModel,
    Result<Option<u128>, StrategyError>,
) {
    let p = spec_round_down(price, m.tick);
    let a = spec_round_down(amount, m.lot);
    if !dec_fits(a) || a <= 0 {
        (m, Err(StrategyError::NonPositiveAmount))
    } else if a > m.position {
        (m, Err(StrategyError::InsufficientPosition))
    } else {
        match m.last {
            None => (m, Err(StrategyError::NoCandles)),
            Some(c) => {
                if dec_fits(p) && p <= c.close.units {
                    let (m2, r) = spec_market_sell(m, a);
                    (
                        m2,
                        match r {
                            Ok(()) => Ok(None::<u128>),
                            Err(e) => Err(e),
                        },
                    )
                } else if !dec_fits(p) || p <= 0 {
                    (m, Err(StrategyError::NonPositivePrice))
                } else {
                    let proceeds = spec_mul_units(p, a);
                    let feeraw = spec_mul_units(proceeds, m.maker);
                    let fee = spec_round_up(feeraw, m.tick);
                    if !dec_fits(proceeds) || !dec_fits(feeraw) || !dec_fits(fee) {
                        (m, Err(StrategyError::Overflow))
                    } else if fee > proceeds {
                        (m, Err(StrategyError::InsufficientFunds))
                    } else if spec_order_index(m.orders, id) is Some {
                        (m, Err(StrategyError::OrderIdCollision))
                    } else {
                        (
                            AccountModel {
                                position: m.position - a,
                                orders: m.orders.push(
                                    Order {
                                        id,
                                        order_type: OrderType::LimitSell,
                                        price: Decimal { units: p as i64 },
                                        amount: Decimal { units: a as i64 },
                                        fee: Decimal { units: fee as i64 },
                                    },
                                ),
                                ..m
                            },
                            Ok(Some(id)),
                        )
                    }
                }
            },
        }
    }
}

/// State carried through the fill phase of one bar.
#[verifier::ext_equal]
pub ghost struct FillState {
    pub balance: int,
    pub position: int,
    pub new_trades: Seq<Trade>,
    pub kept: Seq<Order>,
    pub err: bool,
}

/// Effect of one open order on the fill state: a limit buy fills when
/// its price reaches the bar's low, a limit sell when its price is
/// within the bar's high; an unfilled order is kept.
pub open spec fn spec_fill_step(st: FillState, o: Order, c: Candle) -> FillState {
    if st.err {
        st
    } else {
        match o.order_type {
            OrderType::LimitBuy => {
                if o.price.units >= c.low.units {
                    if !dec_fits(st.position + o.amount.units) {
                        FillState { err: true, ..st }
                    } else {
                        FillState {
                            position: st.position + o.amount.units,
                            new_trades: st.new_trades.push(
                                Trade {
                                    timestamp: c.timestamp,
                                    trade_type: TradeType::LimitBuy,
                                    price: o.price,
                                    amount: o.amount,
                                    fee: o.fee,
                                },
                            ),
                            ..st
                        }
                    }
                } else {
                    FillState { kept: st.kept.push(o), ..st }
                }
            },
            OrderType::LimitSell => {
                if o.price.units <= c.high.units {
                    let proceeds = spec_mul_units(o.price.units as int, o.amount.units as int);
                    let credit = proceeds - o.fee.units;
                    if !dec_fits(proceeds) || !dec_fits(credit) || !dec_fits(st.balance + credit) {
                        FillState { err: true, ..st }
                    } else {
                        FillState {
                            balance: st.balance + credit,
                            new_trades: st.new_trades.push(
                                Trade {
                                    timestamp: c.timestamp,
                                    trade_type: TradeType::LimitSell,
                                    price: o.price,
                                    amount: o.amount,
                                    fee: o.fee,
                                },
                            ),
                            ..st
                        }
                    }
                } else {
                    FillState { kept: st.kept.push(o), ..st }
                }
            },
        }
    }
}

/// The fill phase over a list of open orders, in insertion order.
pub open spec fn spec_fill_loop(orders: Seq<Order>, c: Candle, st: FillState) -> FillState
    decreases orders.len(),
{
    if orders.len() == 0 {
        st
    } else {
        spec_fill_loop(orders.drop_first(), c, spec_fill_step(st, orders[0], c))
    }
}

/// The initial fill state of an account model.
pub open spec fn spec_fill_init(m: AccountModel) -> FillState {
    FillState {
        balance: m.balance,
        position: m.position,
        new_trades: Seq::<Trade>::empty(),
        kept: Seq::<Order>::empty(),
        err: false,
    }
}

pub proof fn lemma_fill_loop_err(orders: Seq<Order>, c: Candle, st: FillState)
    requires
        st.err,
    ensures
        spec_fill_loop(orders, c, st) == st,
    decreases orders.len(),
{
    if orders.len() > 0 {
        lemma_fill_loop_err(orders.drop_first(), c, st);
    }
}

/// Outcome of cancelling every remaining open order, front to back.
pub open spec fn spec_cancel_all(m: AccountModel) -> (AccountModel, Result<(), StrategyError>)
    decreases m.orders.len(),
{
    if m.orders.len() == 0 {
        (m, Ok(()))
    } else {
        let (m2, r) = spec_cancel(m, m.orders[0].id);
        match r {
            Err(e) => (m, Err(e)),
            Ok(()) => {
                if m2.orders.len() < m.orders.len() {
                    spec_cancel_all(m2)
                } else {
                    (m2, Ok(()))
                }
            },
        }
    }
}

impl StrategyContext {
    /// Whether an open order carries the given id.
    fn find_order(&self, id: u128) -> (r: Option<usize>)
        ensures
            match r {
                Some(j) => j < self.am().orders.len() && spec_order_index(self.am().orders, id)
                    == Some(j as int),
                None => spec_order_index(self.am().orders, id) == None::<int>,
            },
    {
        let mut i: usize = 0;
        while i < self.orders.len()
            invariant
                i <= self.orders@.len(),
                forall|j: int| 0 <= j < i ==> self.orders@[j].id != id,
            decreases self.orders@.len() - i,
        {
            if self.orders[i].id == id {
                proof {
                    lemma_order_index_first(self.orders@, id, i as int);
                }
                return Some(i);
            }
            i = i + 1;
        }
        proof {
            lemma_order_index_none(self.orders@, id);
        }
        None
    }

    /// Cancel an open order, refunding its reservation exactly. See
    /// `spec_cancel`.
    pub fn cancel_order(&mut self, order_id: u128) -> (r: Result<(), StrategyError>)
        requires
            old(self).wf(),
        ensures
            final(self).wf(),
            final(self).am() == spec_cancel(old(self).am(), order_id).0,
            r == spec_cancel(old(self).am(), order_id).1,
            final(self).candles_view() == old(self).candles_view(),
    {
        let j = match self.find_order(order_id) {
            None => {
                return Ok(());
            },
            Some(j) => j,
        };
        let o = self.orders[j];
        match o.order_type {
            OrderType::LimitBuy => {
                let cost = match o.price.try_mul(o.amount) {
                    Some(c) => c,
                    None => {
                        return Err(StrategyError::Overflow);
                    },
                };
                let refund = match cost.try_add(o.fee) {
                    Some(x) => x,
                    None => {
                        return Err(StrategyError::Overflow);
                    },
                };
                let nb = match self.balance.try_add(refund) {
                    Some(b) => b,
                    None => {
                        return Err(StrategyError::Overflow);
                    },
                };
                self.balance = nb;
            },
            OrderType::LimitSell => {
                let np = match self.position.try_add(o.amount) {
                    Some(p) => p,
                    None => {
                        return Err(StrategyError::Overflow);
                    },
                };
                self.position = np;
            },
        }
        self.orders.remove(j);
        proof {
            old(self).am().orders.remove_ensures(j as int);
        }
        Ok(())
    }

    /// Place a limit buy under a caller-chosen fresh id. See
    /// `spec_limit_buy`.
    pub fn limit_buy_with_id(&mut self, price: &Decimal, amount: &Decimal, id: u128) -> (r: Result<
        Option<u128>,
        StrategyError,
    >)
        requires
            old(self).wf(),
        ensures
            final(self).wf(),
            final(self).am() == spec_limit_buy(
                old(self).am(),
                price.units as int,
                amount.units as int,
                id,
            ).0,
            r == spec_limit_buy(old(self).am(), price.units as int, amount.units as int, id).1,
            final(self).candles_view() == old(self).candles_view(),
    {
        let lot = self.precision.amount_precision;
        let tick = self.precision.price_precision;
        let a = match amount.round_down_to(lot) {
            Some(a) => a,
            None => {
                proof {
                    lemma_round_down_props(amount.units as int, lot.units as int);
                }
                return Err(StrategyError::NonPositiveAmount);
            },
        };
        if a.units <= 0 {
            return Err(StrategyError::NonPositiveAmount);
        }
        let n = self.candles.len();
        if n == 0 {
            return Err(StrategyError::NoCandles);
        }
        let close = self.candles[n - 1].close;
        let p = match price.round_down_to(tick) {
            Some(p) => p,
            None => {
                proof {
                    lemma_round_down_props(price.units as int, tick.units as int);
                }
                return Err(StrategyError::NonPositivePrice);
            },
        };
        if p.units >= close.units {
            return match self.market_buy(&a) {
                Ok(()) => Ok(None),
                Err(e) => Err(e),
            };
        }
        if p.units < 0 {
            return Err(StrategyError::NonPositivePrice);
        }
        let cost = match a.try_mul(p) {
            Some(c) => c,
            None => {
                return Err(StrategyError::Overflow);
            },
        };
        let feeraw = match cost.try_mul(self.fees.maker) {
            Some(f) => f,
            None => {
                return Err(StrategyError::Overflow);
            },
        };
        let fee = match feeraw.round_up_to(tick) {
            Some(f) => f,
            None => {
                return Err(StrategyError::Overflow);
            },
        };
        let total = match cost.try_add(fee) {
            Some(t) => t,
            None => {
                return Err(StrategyError::Overflow);
            },
        };
        if total.units > self.balance.units {
            return Err(StrategyError::InsufficientFunds);
        }
        let newbal = match self.balance.try_sub(total) {
            Some(b) => b,
            None => {
                return Err(StrategyError::Overflow);
            },
        };
        if let Some(_) = self.find_order(id) {
            return Err(StrategyError::OrderIdCollision);
        }
        self.balance = newbal;
        self.orders.push(
            Order { id, order_type: OrderType::LimitBuy, price: p, amount: a, fee },
        );
        proof {
            lemma_order_ids_absent(old(self).am().orders, id);
        }
        Ok(Some(id))
    }

    /// Place a limit buy; the order id is drawn fresh. See
    /// `spec_limit_buy`.
    pub fn limit_buy(&mut self, price: &Decimal, amount: &Decimal) -> (r: Result<
        Option<u128>,
        StrategyError,
    >)
        requires
            old(self).wf(),
        ensures
            final(self).wf(),
            final(self).candles_view() == old(self).candles_view(),
            exists|id: u128|
                final(self).am() == #[trigger] spec_limit_buy(
                    old(self).am(),
                    price.units as int,
                    amount.units as int,
                    id,
                ).0 && r == spec_limit_buy(
                    old(self).am(),
                    price.units as int,
                    amount.units as int,
                    id,
                ).1,
    {
        let id = new_raw_id();
        let r = self.limit_buy_with_id(price, amount, id);
        r
    }

    /// Place a limit sell under a caller-chosen fresh id. See
    /// `spec_limit_sell`.
    pub fn limit_sell_with_id(&mut self, price: &Decimal, amount: &Decimal, id: u128) -> (r:
        Result<Option<u128>, StrategyError>)
        requires
            old(self).wf(),
        ensures
            final(self).wf(),
            final(self).am() == spec_limit_sell(
                old(self).am(),
                price.units as int,
                amount.units as int,
                id,
            ).0,
            r == spec_limit_sell(old(self).am(), price.units as int, amount.units as int, id).1,
            final(self).candles_view() == old(self).candles_view(),
    {
        let lot = self.precision.amount_precision;
        let tick = self.precision.price_precision;
        let a = match amount.round_down_to(lot) {
            Some(a) => a,
            None => {
                proof {
                    lemma_round_down_props(amount.units as int, lot.units as int);
                }
                return Err(StrategyError::NonPositiveAmount);
            },
        };
        if a.units <= 0 {
            return Err(StrategyError::NonPositiveAmount);
        }
        if a.units > self.position.units {
            return Err(StrategyError::InsufficientPosition);
        }
        let n = self.candles.len();
        if n == 0 {
            return Err(StrategyError::NoCandles);
        }
        let close = self.candles[n - 1].close;
        let p = match price.round_down_to(tick) {
            Some(p) => p,
            None => {
                proof {
                    lemma_round_down_props(price.units as int, tick.units as int);
                }
                return Err(StrategyError::NonPositivePrice);
            },
        };
        if p.units <= close.units {
            return match self.market_sell(&a) {
                Ok(()) => Ok(None),
                Err(e) => Err(e),
            };
        }
        if p.units <= 0 {
            return Err(StrategyError::NonPositivePrice);
        }
        let proceeds = match p.try_mul(a) {
            Some(c) => c,
            None => {
                return Err(StrategyError::Overflow);
            },
        };
        let feeraw = match proceeds.try_mul(self.fees.maker) {
            Some(f) => f,
            None => {
                return Err(StrategyError::Overflow);
            },
        };
        let fee = match feeraw.round_up_to(tick) {
            Some(f) => f,
            None => {
                return Err(StrategyError::Overflow);
            },
        };
        if fee.units > proceeds.units {
            return Err(StrategyError::InsufficientFunds);
        }
        if let Some(_) = self.find_order(id) {
            return Err(StrategyError::OrderIdCollision);
        }
        let newpos = match self.position.try_sub(a) {
            Some(p2) => p2,
            None => {
                return Err(StrategyError::Overflow);
            },
        };
        self.position = newpos;
        self.orders.push(
            Order { id, order_type: OrderType::LimitSell, price: p, amount: a, fee },
        );
        proof {
            lemma_order_ids_absent(old(self).am().orders, id);
        }
        Ok(Some(id))
    }

    /// Place a limit sell; the order id is drawn fresh. See
    /// `spec_limit_sell`.
    pub fn limit_sell(&mut self, price: &Decimal, amount: &Decimal) -> (r: Result<
        Option<u128>,
        StrategyError,
    >)
        requires
            old(self).wf(),
        ensures
            final(self).wf(),
            final(self).candles_view() == old(self).candles_view(),
            exists|id: u128|
                final(self).am() == #[trigger] spec_limit_sell(
                    old(self).am(),
                    price.units as int,
                    amount.units as int,
                    id,
                ).0 && r == spec_limit_sell(
                    old(self).am(),
                    price.units as int,
                    amount.units as int,
                    id,
                ).1,
    {
        let id = new_raw_id();
        let r = self.limit_sell_with_id(price, amount, id);
        r
    }

    /// Fill phase of one bar: walk the open orders in insertion order
    /// and execute every order the bar's range crosses. See
    /// `spec_fill_loop`.
    pub fn before(&mut self) -> (r: Result<(), StrategyError>)
        requires
            old(self).wf(),
        ensures
            final(self).wf(),
            final(self).candles_view() == old(self).candles_view(),
            match old(self).am().last {
                None => r == Err::<(), StrategyError>(StrategyError::NoCandles)
                    && final(self).am() == old(self).am(),
                Some(c) => {
                    let fin = spec_fill_loop(
                        old(self).am().orders,
                        c,
                        spec_fill_init(old(self).am()),
                    );
                    if fin.err {
                        r == Err::<(), StrategyError>(StrategyError::Overflow) && final(self).am()
                            == old(self).am()
                    } else {
                        r == Ok::<(), StrategyError>(()) && final(self).am() == (AccountModel {
                            balance: fin.balance,
                            position: fin.position,
                            trades: old(self).am().trades + fin.new_trades,
                            orders: fin.kept,
                            ..old(self).am()
                        })
                    }
                },
            },
    {
        let n = self.candles.len();
        if n == 0 {
            return Err(StrategyError::NoCandles);
        }
        let c_ts = self.candles[n - 1].timestamp;
        let c_low = self.candles[n - 1].low;
        let c_high = self.candles[n - 1].high;
        let ghost c = self.am().last->Some_0;
        let ghost st0 = spec_fill_init(self.am());
        let mut bal = self.balance;
        let mut pos = self.position;
        let mut new_trades: Vec<Trade> = Vec::new();
        let mut kept: Vec<Order> = Vec::new();
        proof {
            assert(self.am().orders.subrange(0, self.am().orders.len() as int) =~= self
                .am().orders);
            assert((FillState {
                balance: bal.units as int,
                position: pos.units as int,
                new_trades: new_trades@,
                kept: kept@,
                err: false,
            }) =~= st0);
        }
        let mut i: usize = 0;
        while i < self.orders.len()
            invariant
                self == old(self),
                old(self).wf(),
                n == self.candles@.len(),
                n > 0,
                c == self.am().last->Some_0,
                c_ts == c.timestamp,
                c_low == c.low,
                c_high == c.high,
                st0 == spec_fill_init(self.am()),
                i <= self.orders@.len(),
                bal.units >= 0,
                pos.units >= 0,
                spec_fill_loop(
                    self.am().orders.subrange(i as int, self.am().orders.len() as int),
                    c,
                    (FillState {
                        balance: bal.units as int,
                        position: pos.units as int,
                        new_trades: new_trades@,
                        kept: kept@,
                        err: false,
                    }),
                ) == spec_fill_loop(self.am().orders, c, st0),
                forall|k: int| 0 <= k < kept@.len() ==> order_wf(#[trigger] kept@[k]),
                forall|k: int|
                    0 <= k < kept@.len() ==> exists|j: int|
                        0 <= j < i && #[trigger] kept@[k] == self.am().orders[j],
                forall|k1: int, k2: int|
                    0 <= k1 < k2 < kept@.len() ==> kept@[k1].id != kept@[k2].id,
            decreases self.orders@.len() - i,
        {
            let ghost orders = self.am().orders;
            let ghost cur = FillState {
                balance: bal.units as int,
                position: pos.units as int,
                new_trades: new_trades@,
                kept: kept@,
                err: false,
            };
            proof {
                assert(orders.subrange(i as int, orders.len() as int).drop_first() =~= orders
                    .subrange(i + 1, orders.len() as int));
                assert(orders.subrange(i as int, orders.len() as int)[0] == orders[i as int]);
            }
            let o = self.orders[i];
            match o.order_type {
                OrderType::LimitBuy => {
                    if o.price.units >= c_low.units {
                        let np = match pos.try_add(o.amount) {
                            Some(p) => p,
                            None => {
                                proof {
                                    lemma_fill_loop_err(
                                        orders.subrange(i + 1, orders.len() as int),
                                        c,
                                        spec_fill_step(cur, orders[i as int], c),
                                    );
                                }
                                return Err(StrategyError::Overflow);
                            },
                        };
                        pos = np;
                        new_trades.push(
                            Trade {
                                timestamp: c_ts,
                                trade_type: TradeType::LimitBuy,
                                price: o.price,
                                amount: o.amount,
                                fee: o.fee,
                            },
                        );
                    } else {
                        kept.push(o);
                        proof {
                            assert forall|k1: int, k2: int|
                                0 <= k1 < k2 < kept@.len() implies kept@[k1].id != kept@[k2].id by {
                                if k2 == kept@.len() - 1 {
                                    let j1 = choose|j: int|
                                        0 <= j < i && kept@[k1] == orders[j];
                                    assert(orders[j1].id != orders[i as int].id);
                                }
                            }
                        }
                    }
                },
                OrderType::LimitSell => {
                    if o.price.units <= c_high.units {
                        let proceeds = match o.price.try_mul(o.amount) {
                            Some(x) => x,
                            None => {
                                proof {
                                    lemma_fill_loop_err(
                                        orders.subrange(i + 1, orders.len() as int),
                                        c,
                                        spec_fill_step(cur, orders[i as int], c),
                                    );
                                }
                                return Err(StrategyError::Overflow);
                            },
                        };
                        let credit = match proceeds.try_sub(o.fee) {
                            Some(x) => x,
                            None => {
                                proof {
                                    lemma_fill_loop_err(
                                        orders.subrange(i + 1, orders.len() as int),
                                        c,
                                        spec_fill_step(cur, orders[i as int], c),
                                    );
                                }
                                return Err(StrategyError::Overflow);
                            },
                        };
                        let nb = match bal.try_add(credit) {
                            Some(x) => x,
                            None => {
                                proof {
                                    lemma_fill_loop_err(
                                        orders.subrange(i + 1, orders.len() as int),
                                        c,
                                        spec_fill_step(cur, orders[i as int], c),
                                    );
                                }
                                return Err(StrategyError::Overflow);
                            },
                        };
                        bal = nb;
                        new_trades.push(
                            Trade {
                                timestamp: c_ts,
                                trade_type: TradeType::LimitSell,
                                price: o.price,
                                amount: o.amount,
                                fee: o.fee,
                            },
                        );
                    } else {
                        kept.push(o);
                        proof {
                            assert forall|k1: int, k2: int|
                                0 <= k1 < k2 < kept@.len() implies kept@[k1].id != kept@[k2].id by {
                                if k2 == kept@.len() - 1 {
                                    let j1 = choose|j: int|
                                        0 <= j < i && kept@[k1] == orders[j];
                                    assert(orders[j1].id != orders[i as int].id);
                                }
                            }
                        }
                    }
                },
            }
            i = i + 1;
        }
        proof {
            assert(self.am().orders.subrange(i as int, self.am().orders.len() as int)
                =~= Seq::<Order>::empty());
        }
        self.balance = bal;
        self.position = pos;
        self.orders = kept;
        self.trades.append(&mut new_trades);
        Ok(())
    }

    /// Move the executed trades out of the account (used when a
    /// backtest assembles its result).
    pub fn take_trades(&mut self) -> (r: Vec<Trade>)
        ensures
            r@ == old(self).am().trades,
            final(self).am() == (AccountModel { trades: Seq::<Trade>::empty(), ..old(self).am() }),
            final(self).candles_view() == old(self).candles_view(),
            old(self).wf() ==> final(self).wf(),
    {
        let mut out: Vec<Trade> = Vec::new();
        core::mem::swap(&mut out, &mut self.trades);
        out
    }

    /// Per-bar housekeeping after the strategy tick; currently a no-op.
    pub fn after(&mut self) -> (r: Result<(), StrategyError>)
        ensures
            *final(self) == *old(self),
            r == Ok::<(), StrategyError>(()),
    {
        Ok(())
    }

    /// End of a backtest: cancel every remaining open order, refunding
    /// all reservations. See `spec_cancel_all`.
    pub fn end(&mut self) -> (r: Result<(), StrategyError>)
        requires
            old(self).wf(),
        ensures
            final(self).wf(),
            final(self).candles_view() == old(self).candles_view(),
            final(self).am() == spec_cancel_all(old(self).am()).0,
            r == spec_cancel_all(old(self).am()).1,
            r is Ok ==> final(self).am().orders.len() == 0,
    {
        while self.orders.len() > 0
            invariant
                self.wf(),
                self.candles_view() == old(self).candles_view(),
                spec_cancel_all(self.am()) == spec_cancel_all(old(self).am()),
            decreases self.orders@.len(),
        {
            let id = self.orders[0].id;
            let ghost m = self.am();
            proof {
                assert(spec_order_index(m.orders, id) == Some(0int));
            }
            match self.cancel_order(id) {
                Ok(()) => {},
                Err(e) => {
                    return Err(e);
                },
            }
        }
        Ok(())
    }
}

/// Account non-negativity: a market buy keeps the balance and the
/// position non-negative.
pub proof fn lemma_market_buy_nonneg(m: AccountModel, amount: int)
    requires
        model_wf(m),
    ensures
        spec_market_buy(m, amount).0.balance >= 0,
        spec_market_buy(m, amount).0.position >= 0,
{
}

/// Account non-negativity: a market sell keeps the balance and the
/// position non-negative (a sale whose fee would drive the balance
/// below zero is rejected, leaving the account unchanged).
pub proof fn lemma_market_sell_nonneg(m: AccountModel, amount: int)
    requires
        model_wf(m),
    ensures
        spec_market_sell(m, amount).0.balance >= 0,
        spec_market_sell(m, amount).0.position >= 0,
{
}

/// Account non-negativity: placing a limit buy keeps the balance and
/// the position non-negative (the reservation is bounded by the
/// balance).
pub proof fn lemma_limit_buy_nonneg(m: AccountModel, price: int, amount: int, id: u128)
    requires
        model_wf(m),
    ensures
        spec_limit_buy(m, price, amount, id).0.balance >= 0,
        spec_limit_buy(m, price, amount, id).0.position >= 0,
{
    lemma_market_buy_nonneg(m, spec_round_down(amount, m.lot));
}

/// Account non-negativity: placing a limit sell keeps the balance and
/// the position non-negative (the reservation is bounded by the
/// position; a downgraded sale inherits the market sell's guard).
pub proof fn lemma_limit_sell_nonneg(m: AccountModel, price: int, amount: int, id: u128)
    requires
        model_wf(m),
    ensures
        spec_limit_sell(m, price, amount, id).0.balance >= 0,
        spec_limit_sell(m, price, amount, id).0.position >= 0,
{
    lemma_market_sell_nonneg(m, spec_round_down(amount, m.lot));
}

/// Account non-negativity: cancelling an order refunds a non-negative
/// reservation, keeping the balance and the position non-negative.
pub proof fn lemma_cancel_nonneg(m: AccountModel, id: u128)
    requires
        model_wf(m),
    ensures
        spec_cancel(m, id).0.balance >= 0,
        spec_cancel(m, id).0.position >= 0,
{
    match spec_order_index(m.orders, id) {
        None => {},
        Some(j) => {
            lemma_order_index_in_range(m.orders, id);
            let o = m.orders[j];
            if o.order_type is LimitBuy {
                lemma_mul_units_nonneg(o.price.units as int, o.amount.units as int);
            }
        },
    }
}

/// Cancelling an order preserves account well-formedness.
pub proof fn lemma_cancel_preserves_wf(m: AccountModel, id: u128)
    requires
        model_wf(m),
    ensures
        model_wf(spec_cancel(m, id).0),
{
    match spec_order_index(m.orders, id) {
        None => {},
        Some(j) => {
            lemma_order_index_in_range(m.orders, id);
            m.orders.remove_ensures(j);
            let o = m.orders[j];
            if o.order_type is LimitBuy {
                lemma_mul_units_nonneg(o.price.units as int, o.amount.units as int);
            }
        },
    }
}

/// Account non-negativity: cancelling every remaining order (the end
/// of a backtest) keeps the balance and the position non-negative.
pub proof fn lemma_cancel_all_nonneg(m: AccountModel)
    requires
        model_wf(m),
    ensures
        spec_cancel_all(m).0.balance >= 0,
        spec_cancel_all(m).0.position >= 0,
    decreases m.orders.len(),
{
    if m.orders.len() > 0 {
        let id = m.orders[0].id;
        let (m2, r) = spec_cancel(m, id);
        if r is Ok {
            lemma_cancel_nonneg(m, id);
            lemma_cancel_preserves_wf(m, id);
            if m2.orders.len() < m.orders.len() {
                lemma_cancel_all_nonneg(m2);
            }
        }
    }
}

/// The only failure cancelling orders can report is a refund that
/// overflows the decimal range.
pub proof fn lemma_cancel_all_err_overflow(m: AccountModel)
    ensures
        spec_cancel_all(m).1 matches Err(e) ==> e is Overflow,
    decreases m.orders.len(),
{
    if m.orders.len() > 0 {
        let (m2, r) = spec_cancel(m, m.orders[0].id);
        match r {
            Err(_) => {},
            Ok(()) => {
                if m2.orders.len() < m.orders.len() {
                    lemma_cancel_all_err_overflow(m2);
                }
            },
        }
    }
}

/// Account non-negativity: the fill phase keeps the balance and the
/// position non-negative (every open limit sell's fee is covered by
/// its own proceeds, so a fill never reduces the balance).
pub proof fn lemma_fill_loop_nonneg(orders: Seq<Order>, c: Candle, st: FillState)
    requires
        st.balance >= 0,
        st.position >= 0,
        forall|i: int| 0 <= i < orders.len() ==> order_wf(#[trigger] orders[i]),
    ensures
        spec_fill_loop(orders, c, st).balance >= 0,
        spec_fill_loop(orders, c, st).position >= 0,
    decreases orders.len(),
{
    if orders.len() > 0 {
        let st2 = spec_fill_step(st, orders[0], c);
        assert(forall|i: int|
            0 <= i < orders.drop_first().len() ==> orders.drop_first()[i] == orders[i + 1]);
        lemma_fill_loop_nonneg(orders.drop_first(), c, st2);
    }
}

/// An order index returned by `spec_order_index` is in range and
/// names an order with the sought id.
pub proof fn lemma_order_index_in_range(orders: Seq<Order>, id: u128)
    requires
        spec_order_index(orders, id) is Some,
    ensures
        0 <= spec_order_index(orders, id)->Some_0 < orders.len(),
        orders[spec_order_index(orders, id)->Some_0].id == id,
    decreases orders.len(),
{
    if orders.len() > 0 && orders[0].id != id {
        lemma_order_index_in_range(orders.drop_first(), id);
    }
}

/// The order just pushed under a fresh id is the one its id finds.
pub proof fn lemma_order_index_push(orders: Seq<Order>, o: Order)
    requires
        spec_order_index(orders, o.id) == None::<int>,
    ensures
        spec_order_index(orders.push(o), o.id) == Some(orders.len() as int),
    decreases orders.len(),
{
    if orders.len() == 0 {
        assert(orders.push(o)[0] == o);
    } else {
        assert(orders.push(o)[0] == orders[0]);
        assert(orders.push(o).drop_first() =~= orders.drop_first().push(o));
        lemma_order_index_push(orders.drop_first(), o);
    }
}

/// Reservation correctness: placing a limit buy and then cancelling
/// it restores the balance and the order book exactly.
pub proof fn lemma_limit_buy_cancel_restores(m: AccountModel, price: int, amount: int, id: u128)
    requires
        model_wf(m),
        spec_limit_buy(m, price, amount, id).1 == Ok::<Option<u128>, StrategyError>(Some(id)),
    ensures
        spec_cancel(spec_limit_buy(m, price, amount, id).0, id) == (
            m,
            Ok::<(), StrategyError>(()),
        ),
{
    let m1 = spec_limit_buy(m, price, amount, id).0;
    let p = spec_round_down(price, m.tick);
    let a = spec_round_down(amount, m.lot);
    let o = Order {
        id,
        order_type: OrderType::LimitBuy,
        price: Decimal { units: p as i64 },
        amount: Decimal { units: a as i64 },
        fee: Decimal {
            units: spec_round_up(
                spec_mul_units(spec_mul_units(a, p), m.maker),
                m.tick,
            ) as i64,
        },
    };
    assert(m1.orders == m.orders.push(o));
    lemma_order_index_push(m.orders, o);
    lemma_mul_units_comm(p, a);
    assert(m1.orders.remove(m.orders.len() as int) =~= m.orders);
    assert(spec_cancel(m1, id).0 =~= m);
}

/// Reservation correctness: placing a limit sell and then cancelling
/// it restores the position and the order book exactly.
pub proof fn lemma_limit_sell_cancel_restores(m: AccountModel, price: int, amount: int, id: u128)
    requires
        model_wf(m),
        spec_limit_sell(m, price, amount, id).1 == Ok::<Option<u128>, StrategyError>(Some(id)),
    ensures
        spec_cancel(spec_limit_sell(m, price, amount, id).0, id) == (
            m,
            Ok::<(), StrategyError>(()),
        ),
{
    let m1 = spec_limit_sell(m, price, amount, id).0;
    let p = spec_round_down(price, m.tick);
    let a = spec_round_down(amount, m.lot);
    let o = Order {
        id,
        order_type: OrderType::LimitSell,
        price: Decimal { units: p as i64 },
        amount: Decimal { units: a as i64 },
        fee: Decimal {
            units: spec_round_up(
                spec_mul_units(spec_mul_units(p, a), m.maker),
                m.tick,
            ) as i64,
        },
    };
    assert(m1.orders == m.orders.push(o));
    lemma_order_index_push(m.orders, o);
    assert(m1.orders.remove(m.orders.len() as int) =~= m.orders);
    assert(spec_cancel(m1, id).0 =~= m);
}

/// Downgrade law: a limit buy whose price reaches the current close
/// produces the same trade and the same ending account as the market
/// buy of the same amount.
pub proof fn lemma_limit_buy_downgrade(m: AccountModel, price: int, amount: int, id: u128)
    requires
        model_wf(m),
        m.last is Some,
        dec_fits(spec_round_down(price, m.tick)),
        spec_round_down(price, m.tick) >= m.last->Some_0.close.units,
    ensures
        spec_limit_buy(m, price, amount, id).0 == spec_market_buy(m, amount).0,
        spec_limit_buy(m, price, amount, id).1 == (match spec_market_buy(m, amount).1 {
            Ok(()) => Ok::<Option<u128>, StrategyError>(None),
            Err(e) => Err::<Option<u128>, StrategyError>(e),
        }),
{
    lemma_round_down_idempotent(amount, m.lot);
}

/// A fresh id is distinct from every id in a list it does not occur in.
pub proof fn lemma_order_ids_absent(orders: Seq<Order>, id: u128)
    requires
        spec_order_index(orders, id) == None::<int>,
    ensures
        forall|j: int| 0 <= j < orders.len() ==> orders[j].id != id,
    decreases orders.len(),
{
    if orders.len() > 0 {
        if orders[0].id != id {
            lemma_order_ids_absent(orders.drop_first(), id);
            assert forall|j: int| 0 <= j < orders.len() implies orders[j].id != id by {
                if j > 0 {
                    assert(orders.drop_first()[j - 1] == orders[j]);
                }
            }
        }
    }
}

} // verus!
