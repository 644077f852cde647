//! Fixed-point prices and their quantization to quarter-point and one-point
//! buckets.

use vstd::prelude::*;

verus! {

/// Price units in one point.
pub const PRICE_SCALE: i64 = 1_000_000_000;

/// Price units in one quarter-point tick.
pub const TICK: i64 = 250_000_000;

/// Half a tick: the rounding threshold of the quarter-point buckets.
pub const HALF_TICK: i64 = 125_000_000;

/// Half a point: the tolerance of the key-level tests.
pub const HALF_POINT: i64 = 500_000_000;

/// Largest price the engine accepts: one billion points.
pub const MAX_PRICE: i64 = 1_000_000_000_000_000_000;

/// A price the engine accepts.
pub open spec fn valid_price(price: int) -> bool {
    0 <= price <= MAX_PRICE
}

/// A price that is the lower edge of a quarter-point bucket.
pub open spec fn on_tick(price: int) -> bool {
    valid_price(price) && price % (TICK as int) == 0
}

/// Quarter-point bucket key of a price: the price in ticks, rounded to the
/// nearest tick, halves up.
pub open spec fn spec_quarter_key(price: int) -> int {
    (price + HALF_TICK) / (TICK as int)
}

/// The price of the quarter-point bucket that a price falls into.
pub open spec fn spec_bucket_price(price: int) -> int {
    spec_quarter_key(price) * TICK
}

/// One-point bucket of a price: the price in whole points, rounded down.
pub open spec fn spec_point_floor(price: int) -> int {
    price / (PRICE_SCALE as int)
}

/// Quarter-point bucket key of a price.
pub fn quarter_key(price: i64) -> (key: i64)
    requires
        valid_price(price as int),
    ensures
        key == spec_quarter_key(price as int),
        0 <= key <= 4_000_000_000,
{
    (price + HALF_TICK) / TICK
}

/// The price of the quarter-point bucket that a price falls into.
pub fn bucket_price(price: i64) -> (bucket: i64)
    requires
        valid_price(price as int),
    ensures
        bucket == spec_bucket_price(price as int),
        on_tick(bucket as int),
        price - HALF_TICK < bucket <= price + HALF_TICK,
{
    quarter_key(price) * TICK
}

/// One-point bucket of a price.
pub fn point_floor(price: i64) -> (point: i64)
    requires
        valid_price(price as int),
    ensures
        point == spec_point_floor(price as int),
        0 <= point <= 1_000_000_000,
{
    price / PRICE_SCALE
}

/// A bucket price is its own bucket.
pub proof fn bucket_price_is_fixed_point(price: int)
    requires
        on_tick(price),
    ensures
        spec_bucket_price(price) == price,
{
}

} // verus!
