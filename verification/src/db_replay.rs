//! Replay of stored one-second bars: each bar becomes one trade per side.

use vstd::prelude::*;
use crate::replay::unsigned_millis;
use crate::types::{Side, Trade};

verus! {

/// A stored one-second bar. Prices are in price units, the time is RFC 3339
/// text.
#[derive(Clone, Debug, PartialEq, Eq)]
pub struct BarRecord {
    pub timestamp: String,
    pub open: i64,
    pub high: i64,
    pub low: i64,
    pub close: i64,
    pub volume: i64,
    pub buy_volume: i64,
    pub sell_volume: i64,
    pub delta: i64,
    pub trade_count: i64,
    pub symbol: String,
}

/// The instant that an RFC 3339 date and time names, in milliseconds since
/// the epoch; absent where the text is no such date and time.
pub uninterp spec fn rfc3339_millis(text: Seq<char>) -> Option<i64>;

/// Reads an RFC 3339 date and time with `chrono::DateTime::parse_from_rfc3339`
/// and takes its `timestamp_millis`. Nothing is proved of the parsing: the
/// result is by definition what `rfc3339_millis` names.
#[verifier::external_body]
fn parse_rfc3339_millis(text: &str) -> (millis: Option<i64>)
    ensures
        millis == rfc3339_millis(text@),
{
    match chrono::DateTime::parse_from_rfc3339(text) {
        Ok(moment) => Some(moment.timestamp_millis()),
        Err(_) => None,
    }
}

/// The low 32 bits of a volume.
pub open spec fn low_volume(volume: i64) -> u32 {
    (volume % 0x1_0000_0000) as u32
}

/// The time that a bar's trades carry: the bar's time where its text names
/// one, zero where it does not.
pub open spec fn bar_time(millis: Option<i64>) -> u64 {
    match millis {
        Some(m) => unsigned_millis(m),
        None => 0,
    }
}

/// Is `trade` the trade that stands for one side of `bar` at time `ts`? It is
/// at the bar's close, of the low 32 bits of that side's volume.
pub open spec fn stands_for(trade: Trade, bar: BarRecord, side: Side, ts: u64) -> bool {
    &&& trade.symbol@ == bar.symbol@
    &&& trade.price == bar.close
    &&& trade.side == side
    &&& trade.timestamp == ts
    &&& trade.size == low_volume(
        if side == Side::Buy {
            bar.buy_volume
        } else {
            bar.sell_volume
        },
    )
}

/// Are `trades` the trades that stand for `bar` at time `ts`? One for the buy
/// side where it has volume, then one for the sell side where it has.
pub open spec fn stand_for(trades: Seq<Trade>, bar: BarRecord, ts: u64) -> bool {
    if bar.buy_volume > 0 && bar.sell_volume > 0 {
        &&& trades.len() == 2
        &&& stands_for(trades[0], bar, Side::Buy, ts)
        &&& stands_for(trades[1], bar, Side::Sell, ts)
    } else if bar.buy_volume > 0 {
        trades.len() == 1 && stands_for(trades[0], bar, Side::Buy, ts)
    } else if bar.sell_volume > 0 {
        trades.len() == 1 && stands_for(trades[0], bar, Side::Sell, ts)
    } else {
        trades.len() == 0
    }
}

fn low_bits(volume: i64) -> (low: u32)
    ensures
        low == low_volume(volume),
{
    assert(volume as u32 == (volume % 0x1_0000_0000) as u32) by (bit_vector);
    #[verifier::truncate]
    (volume as u32)
}

/// The trades that stand for a bar whose time is `ts`.
pub fn bar_trades_at(bar: &BarRecord, ts: u64) -> (trades: Vec<Trade>)
    ensures
        stand_for(trades@, *bar, ts),
{
    let mut trades: Vec<Trade> = Vec::new();
    if bar.buy_volume > 0 {
        trades.push(
            Trade {
                symbol: bar.symbol.clone(),
                price: bar.close,
                size: low_bits(bar.buy_volume),
                side: Side::Buy,
                timestamp: ts,
            },
        );
    }
    if bar.sell_volume > 0 {
        trades.push(
            Trade {
                symbol: bar.symbol.clone(),
                price: bar.close,
                size: low_bits(bar.sell_volume),
                side: Side::Sell,
                timestamp: ts,
            },
        );
    }
    trades
}

/// The time that a bar's trades carry when its text was read as `millis`.
pub fn bar_time_of(millis: Option<i64>) -> (ts: u64)
    ensures
        ts == bar_time(millis),
{
    match millis {
        Some(m) => {
            assert(m >= 0 ==> m as u64 == m) by (bit_vector);
            assert(m < 0 ==> m as u64 == m + 0x1_0000_0000_0000_0000) by (bit_vector);
            #[verifier::truncate]
            (m as u64)
        },
        None => 0,
    }
}

/// The time that a bar's trades carry.
pub fn bar_timestamp(bar: &BarRecord) -> (ts: u64)
    ensures
        ts == bar_time(rfc3339_millis(bar.timestamp@)),
{
    bar_time_of(parse_rfc3339_millis(bar.timestamp.as_str()))
}

/// The trades that stand for a bar, at the time that its text names.
pub fn bar_to_trades(bar: &BarRecord) -> (trades: Vec<Trade>)
    ensures
        stand_for(trades@, *bar, bar_time(rfc3339_millis(bar.timestamp@))),
{
    bar_trades_at(bar, bar_timestamp(bar))
}

} // verus!
