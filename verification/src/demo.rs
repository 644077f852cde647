//! The generator behind the demonstration feed.

use vstd::prelude::*;
use crate::price::{valid_price, TICK};
use crate::types::Side;

verus! {

/// One step of the xorshift generator with shifts 13, 7 and 17.
pub open spec fn spec_xorshift(x: u64) -> u64 {
    let a = x ^ (x << 13);
    let b = a ^ (a >> 7);
    b ^ (b << 17)
}

/// Steps the generator and hands out its new state.
pub fn xorshift(state: &mut u64) -> (x: u64)
    ensures
        x == spec_xorshift(*old(state)),
        *final(state) == x,
{
    let mut x = *state;
    x ^= x << 13;
    x ^= x >> 7;
    x ^= x << 17;
    *state = x;
    x
}

/// The generator never leaves zero and never reaches it.
pub proof fn xorshift_keeps_zero_apart(x: u64)
    ensures
        spec_xorshift(x) == 0 <==> x == 0,
{
    assert((x ^ (x << 13)) == 0 <==> x == 0) by (bit_vector);
    let a = x ^ (x << 13);
    assert((a ^ (a >> 7)) == 0 <==> a == 0) by (bit_vector);
    let b = a ^ (a >> 7);
    assert((b ^ (b << 17)) == 0 <==> b == 0) by (bit_vector);
}

/// Lowest price of the demonstration feed: 20 000 points.
pub const DEMO_FLOOR: i64 = 20_000_000_000_000;

/// Highest price of the demonstration feed: 20 300 points.
pub const DEMO_CEILING: i64 = 20_300_000_000_000;

/// Where the demonstration feed starts: 20 100 points.
pub const DEMO_START: i64 = 20_100_000_000_000;

/// One trade of the demonstration feed, and the pause before it.
#[derive(Clone, Copy, Debug, PartialEq, Eq)]
pub struct DemoTrade {
    pub pause_ms: u64,
    pub price: i64,
    pub size: u32,
    pub side: Side,
}

/// The pause before a trade, from one draw: ten to forty-nine milliseconds.
pub open spec fn spec_demo_pause(draw: u64) -> u64 {
    (draw % 40 + 10) as u64
}

/// The price after a step of the walk, from one draw: up to two ticks either
/// way, kept between the floor and the ceiling.
pub open spec fn spec_demo_price(base: i64, draw: u64) -> i64 {
    let moved = base + (draw % 5 - 2) * TICK;
    if moved < DEMO_FLOOR {
        DEMO_FLOOR
    } else if moved > DEMO_CEILING {
        DEMO_CEILING
    } else {
        moved as i64
    }
}

/// The size of a trade, from two draws: in half the cases one to five
/// contracts, in three of ten five to nineteen, in three of twenty twenty to
/// forty-nine, else fifty to a hundred and forty-nine.
pub open spec fn spec_demo_size(class: u64, draw: u64) -> u32 {
    if class % 100 < 50 {
        (draw % 5 + 1) as u32
    } else if class % 100 < 80 {
        (draw % 15 + 5) as u32
    } else if class % 100 < 95 {
        (draw % 30 + 20) as u32
    } else {
        (draw % 100 + 50) as u32
    }
}

/// The side of a trade, from one draw: a buy in 52 cases of a hundred.
pub open spec fn spec_demo_side(draw: u64) -> Side {
    if draw % 100 < 52 {
        Side::Buy
    } else {
        Side::Sell
    }
}

/// The next trade of the demonstration feed when the generator stands at
/// `state` and the price at `base`: five draws in a row give the pause, the
/// step of the price, the class of the size, the size and the side.
pub open spec fn spec_demo_trade(state: u64, base: i64) -> DemoTrade {
    let d1 = spec_xorshift(state);
    let d2 = spec_xorshift(d1);
    let d3 = spec_xorshift(d2);
    let d4 = spec_xorshift(d3);
    let d5 = spec_xorshift(d4);
    DemoTrade {
        pause_ms: spec_demo_pause(d1),
        price: spec_demo_price(base, d2),
        size: spec_demo_size(d3, d4),
        side: spec_demo_side(d5),
    }
}

/// The generator after the five draws of one trade.
pub open spec fn spec_demo_state(state: u64) -> u64 {
    spec_xorshift(spec_xorshift(spec_xorshift(spec_xorshift(spec_xorshift(state)))))
}

/// Draws the next trade of the demonstration feed and moves the price on.
pub fn next_demo_trade(state: &mut u64, base: &mut i64) -> (trade: DemoTrade)
    requires
        valid_price(*old(base) as int),
    ensures
        trade == spec_demo_trade(*old(state), *old(base)),
        *final(state) == spec_demo_state(*old(state)),
        *final(base) == trade.price,
        DEMO_FLOOR <= trade.price <= DEMO_CEILING,
        1 <= trade.size < 150,
        10 <= trade.pause_ms < 50,
{
    let pause_ms = xorshift(state) % 40 + 10;
    let step = (xorshift(state) % 5) as i64 - 2;
    let moved = *base + step * TICK;
    let price = if moved < DEMO_FLOOR {
        DEMO_FLOOR
    } else if moved > DEMO_CEILING {
        DEMO_CEILING
    } else {
        moved
    };
    *base = price;
    let class = xorshift(state) % 100;
    let draw = xorshift(state);
    let size: u32 = if class < 50 {
        (draw % 5 + 1) as u32
    } else if class < 80 {
        (draw % 15 + 5) as u32
    } else if class < 95 {
        (draw % 30 + 20) as u32
    } else {
        (draw % 100 + 50) as u32
    };
    let side = if xorshift(state) % 100 < 52 {
        Side::Buy
    } else {
        Side::Sell
    };
    DemoTrade { pause_ms, price, size, side }
}

} // verus!
