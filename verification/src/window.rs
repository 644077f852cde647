//! Aggregation of the trades of one window: volume by side, delta, dominant
//! side and its volume-weighted price.

use vstd::prelude::*;
use crate::price::{valid_price, MAX_PRICE};
use crate::profile::MAX_SESSION_VOLUME;
use crate::types::{Side, Trade};

verus! {

/// Volume of the trades on `side`.
pub open spec fn volume_of(trades: Seq<Trade>, side: Side) -> nat
    decreases trades.len(),
{
    if trades.len() == 0 {
        0
    } else {
        volume_of(trades.drop_last(), side) + if trades.last().side == side {
            trades.last().size as nat
        } else {
            0
        }
    }
}

/// Sum of price times size over the trades on `side`.
pub open spec fn weight_of(trades: Seq<Trade>, side: Side) -> nat
    decreases trades.len(),
{
    if trades.len() == 0 {
        0
    } else {
        weight_of(trades.drop_last(), side) + if trades.last().side == side {
            (trades.last().price * trades.last().size) as nat
        } else {
            0
        }
    }
}

/// Sum of the prices of the trades.
pub open spec fn price_sum(trades: Seq<Trade>) -> nat
    decreases trades.len(),
{
    if trades.len() == 0 {
        0
    } else {
        price_sum(trades.drop_last()) + trades.last().price as nat
    }
}

/// Volume of the trades, both sides together.
pub open spec fn window_volume(trades: Seq<Trade>) -> nat {
    volume_of(trades, Side::Buy) + volume_of(trades, Side::Sell)
}

/// Net signed volume of the trades: buys count up, sells count down.
pub open spec fn net_volume(trades: Seq<Trade>) -> int {
    volume_of(trades, Side::Buy) - volume_of(trades, Side::Sell)
}

/// Every trade is at a price in range.
pub open spec fn prices_valid(trades: Seq<Trade>) -> bool {
    forall|i: int| 0 <= i < trades.len() ==> valid_price((#[trigger] trades[i]).price as int)
}

/// Every trade is well formed.
pub open spec fn all_well_formed(trades: Seq<Trade>) -> bool {
    forall|i: int| 0 <= i < trades.len() ==> (#[trigger] trades[i]).well_formed()
}

/// Is an imbalance of `delta` more than 15 % of `total`?
pub open spec fn significant(delta: int, total: int) -> bool {
    (if delta >= 0 { delta } else { -delta }) * 20 > total * 3
}

/// What one window's trades add up to.
#[derive(Clone, Copy, Debug, PartialEq, Eq)]
pub struct WindowSummary {
    pub buy_volume: u64,
    pub sell_volume: u64,
    pub total_volume: u64,
    pub delta: i64,
    pub dominant_side: Side,
    pub dominant_volume: u64,
    pub price: i64,
    pub first_price: i64,
    pub last_price: i64,
    pub price_change: i64,
    pub is_significant_imbalance: bool,
}

/// The dominant side of a window: buy on a positive delta, sell otherwise,
/// so also where the two sides are level.
pub open spec fn dominant_side(trades: Seq<Trade>) -> Side {
    if net_volume(trades) > 0 {
        Side::Buy
    } else {
        Side::Sell
    }
}

/// Volume-weighted average price of the dominant side, rounded down; where
/// that side has no volume, the mean of all the window's prices, rounded down.
pub open spec fn dominant_price(trades: Seq<Trade>) -> int {
    let side = dominant_side(trades);
    if volume_of(trades, side) > 0 {
        weight_of(trades, side) as int / volume_of(trades, side) as int
    } else {
        price_sum(trades) as int / trades.len() as int
    }
}

/// The summary of a window that holds `trades`.
pub open spec fn spec_summarize(trades: Seq<Trade>) -> WindowSummary {
    let side = dominant_side(trades);
    WindowSummary {
        buy_volume: volume_of(trades, Side::Buy) as u64,
        sell_volume: volume_of(trades, Side::Sell) as u64,
        total_volume: window_volume(trades) as u64,
        delta: net_volume(trades) as i64,
        dominant_side: side,
        dominant_volume: volume_of(trades, side) as u64,
        price: dominant_price(trades) as i64,
        first_price: trades.first().price,
        last_price: trades.last().price,
        price_change: (trades.last().price - trades.first().price) as i64,
        is_significant_imbalance: significant(net_volume(trades), window_volume(trades) as int),
    }
}

proof fn lemma_sums_of_prefix(trades: Seq<Trade>, i: int)
    requires
        0 <= i <= trades.len(),
        prices_valid(trades),
    ensures
        volume_of(trades.take(i), Side::Buy) <= volume_of(trades, Side::Buy),
        volume_of(trades.take(i), Side::Sell) <= volume_of(trades, Side::Sell),
        weight_of(trades.take(i), Side::Buy) <= MAX_PRICE * volume_of(trades.take(i), Side::Buy),
        weight_of(trades.take(i), Side::Sell) <= MAX_PRICE * volume_of(trades.take(i), Side::Sell),
        price_sum(trades.take(i)) <= MAX_PRICE * i,
    decreases trades.len() - i,
{
    if i == trades.len() {
        assert(trades.take(i) =~= trades);
        lemma_sums_bound(trades);
    } else {
        lemma_sums_of_prefix(trades, i + 1);
        assert(trades.take(i + 1).drop_last() =~= trades.take(i));
        lemma_sums_bound(trades.take(i));
    }
}

proof fn lemma_sums_bound(trades: Seq<Trade>)
    requires
        prices_valid(trades),
    ensures
        weight_of(trades, Side::Buy) <= MAX_PRICE * volume_of(trades, Side::Buy),
        weight_of(trades, Side::Sell) <= MAX_PRICE * volume_of(trades, Side::Sell),
        price_sum(trades) <= MAX_PRICE * trades.len(),
    decreases trades.len(),
{
    if trades.len() > 0 {
        let rest = trades.drop_last();
        let last = trades.last();
        assert(prices_valid(rest)) by {
            assert forall|i: int| 0 <= i < rest.len() implies valid_price(
                (#[trigger] rest[i]).price as int,
            ) by {
                assert(rest[i] == trades[i]);
            }
        }
        lemma_sums_bound(rest);
        assert(valid_price(trades[trades.len() - 1].price as int));
        assert(last.price * last.size <= MAX_PRICE * last.size) by (nonlinear_arith)
            requires
                0 <= last.price <= MAX_PRICE,
                0 <= last.size,
        ;
        assert(MAX_PRICE * (volume_of(rest, Side::Buy) + last.size) == MAX_PRICE * volume_of(
            rest,
            Side::Buy,
        ) + MAX_PRICE * last.size) by (nonlinear_arith);
        assert(MAX_PRICE * (volume_of(rest, Side::Sell) + last.size) == MAX_PRICE * volume_of(
            rest,
            Side::Sell,
        ) + MAX_PRICE * last.size) by (nonlinear_arith);
        assert(MAX_PRICE * trades.len() == MAX_PRICE * rest.len() + MAX_PRICE) by (nonlinear_arith)
            requires
                trades.len() == rest.len() + 1,
        ;
    }
}

proof fn lemma_quotient_in_range(weight: int, volume: int)
    requires
        0 <= weight <= MAX_PRICE * volume,
        volume > 0,
    ensures
        0 <= weight / volume <= MAX_PRICE,
{
    assert(0 <= weight / volume <= MAX_PRICE) by (nonlinear_arith)
        requires
            0 <= weight <= MAX_PRICE * volume,
            volume > 0,
    ;
}

/// In a window of well-formed trades that is not empty the dominant side has
/// volume, so its price is that side's volume-weighted average.
pub proof fn dominant_side_has_volume(trades: Seq<Trade>)
    requires
        all_well_formed(trades),
        trades.len() > 0,
    ensures
        window_volume(trades) >= 1,
        volume_of(trades, dominant_side(trades)) >= 1,
{
    assert(trades[trades.len() - 1].well_formed());
}

/// The dominant price of a window of trades at valid prices is a valid price.
pub proof fn dominant_price_is_valid(trades: Seq<Trade>)
    requires
        prices_valid(trades),
        trades.len() > 0,
    ensures
        valid_price(dominant_price(trades)),
{
    lemma_sums_bound(trades);
    let side = dominant_side(trades);
    if volume_of(trades, side) > 0 {
        lemma_quotient_in_range(weight_of(trades, side) as int, volume_of(trades, side) as int);
    } else {
        lemma_quotient_in_range(price_sum(trades) as int, trades.len() as int);
    }
}

/// Adds up one window's trades.
pub fn summarize(trades: &Vec<Trade>) -> (summary: WindowSummary)
    requires
        trades@.len() > 0,
        prices_valid(trades@),
        window_volume(trades@) <= MAX_SESSION_VOLUME,
    ensures
        summary == spec_summarize(trades@),
        valid_price(summary.price as int),
        summary.total_volume == summary.buy_volume + summary.sell_volume,
        summary.delta == summary.buy_volume - summary.sell_volume,
{
    let mut buy: u64 = 0;
    let mut sell: u64 = 0;
    let mut buy_weight: u128 = 0;
    let mut sell_weight: u128 = 0;
    let mut prices: u128 = 0;
    let mut i: usize = 0;
    proof {
        lemma_sums_of_prefix(trades@, 0);
    }
    while i < trades.len()
        invariant
            0 <= i <= trades.len(),
            prices_valid(trades@),
            window_volume(trades@) <= MAX_SESSION_VOLUME,
            buy == volume_of(trades@.take(i as int), Side::Buy),
            sell == volume_of(trades@.take(i as int), Side::Sell),
            buy_weight == weight_of(trades@.take(i as int), Side::Buy),
            sell_weight == weight_of(trades@.take(i as int), Side::Sell),
            prices == price_sum(trades@.take(i as int)),
        decreases trades.len() - i,
    {
        let price = trades[i].price;
        let size = trades[i].size;
        proof {
            assert(trades@.take(i + 1).drop_last() =~= trades@.take(i as int));
            lemma_sums_of_prefix(trades@, i + 1);
            assert(MAX_PRICE * volume_of(trades@.take(i + 1), Side::Buy) <= MAX_PRICE
                * MAX_SESSION_VOLUME) by (nonlinear_arith)
                requires
                    volume_of(trades@.take(i + 1), Side::Buy) <= MAX_SESSION_VOLUME,
            ;
            assert(MAX_PRICE * volume_of(trades@.take(i + 1), Side::Sell) <= MAX_PRICE
                * MAX_SESSION_VOLUME) by (nonlinear_arith)
                requires
                    volume_of(trades@.take(i + 1), Side::Sell) <= MAX_SESSION_VOLUME,
            ;
            assert(MAX_PRICE * (i + 1) <= MAX_PRICE * 0x1_0000_0000_0000_0000) by (nonlinear_arith)
                requires
                    i + 1 <= 0x1_0000_0000_0000_0000,
            ;
            assert(valid_price(trades@[i as int].price as int));
            assert(price * size <= MAX_PRICE * 0x1_0000_0000) by (nonlinear_arith)
                requires
                    0 <= price <= MAX_PRICE,
                    0 <= size < 0x1_0000_0000,
            ;
            assert(0 <= price * size) by (nonlinear_arith)
                requires
                    0 <= price,
                    0 <= size,
            ;
        }
        match trades[i].side {
            Side::Buy => {
                buy = buy + size as u64;
                buy_weight = buy_weight + price as u128 * size as u128;
            },
            Side::Sell => {
                sell = sell + size as u64;
                sell_weight = sell_weight + price as u128 * size as u128;
            },
        }
        prices = prices + price as u128;
        i += 1;
    }
    proof {
        assert(trades@.take(i as int) =~= trades@);
        dominant_price_is_valid(trades@);
    }
    let delta: i64 = (buy as i128 - sell as i128) as i64;
    let side = if delta > 0 {
        Side::Buy
    } else {
        Side::Sell
    };
    let dominant: u64 = if delta > 0 {
        buy
    } else {
        sell
    };
    let weight: u128 = if delta > 0 {
        buy_weight
    } else {
        sell_weight
    };
    let price: i64 = if dominant > 0 {
        (weight / dominant as u128) as i64
    } else {
        (prices / trades.len() as u128) as i64
    };
    let gap: u64 = if delta >= 0 {
        delta as u64
    } else {
        (-(delta as i128)) as u64
    };
    let first = trades[0].price;
    let last = trades[trades.len() - 1].price;
    assert(valid_price(trades@[0].price as int));
    assert(valid_price(trades@[trades@.len() - 1].price as int));
    WindowSummary {
        buy_volume: buy,
        sell_volume: sell,
        total_volume: buy + sell,
        delta,
        dominant_side: side,
        dominant_volume: dominant,
        price,
        first_price: first,
        last_price: last,
        price_change: last - first,
        is_significant_imbalance: gap as u128 * 20 > (buy + sell) as u128 * 3,
    }
}

/// A window whose two sides are level is sell dominant.
pub proof fn level_window_is_sell_dominant(trades: Seq<Trade>)
    requires
        volume_of(trades, Side::Buy) == volume_of(trades, Side::Sell),
    ensures
        dominant_side(trades) == Side::Sell,
        spec_summarize(trades).dominant_side == Side::Sell,
        spec_summarize(trades).dominant_volume == volume_of(trades, Side::Sell) as u64,
{
}

/// A window's imbalance is flagged as significant exactly where its net
/// volume, whatever its sign, is more than 15 % of its volume.
pub proof fn significance_is_fifteen_percent(trades: Seq<Trade>)
    ensures
        spec_summarize(trades).is_significant_imbalance <==> (if net_volume(trades) >= 0 {
            net_volume(trades)
        } else {
            -net_volume(trades)
        }) * 100 > 15 * window_volume(trades),
{
}

} // verus!
