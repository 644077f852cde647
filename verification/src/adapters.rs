//! What the feed adapters decide before a trade reaches the engine: its
//! side, its time, and the pace of a replay.

use vstd::prelude::*;
use vstd::string::StringSliceAdditionalSpecFns;
use crate::types::Side;

verus! {

/// Nanoseconds in a millisecond.
pub const NANOS_PER_MILLI: u64 = 1_000_000;

/// A replay pauses for less than this between two trades, in milliseconds;
/// a longer gap is skipped.
pub const LONGEST_PAUSE_MS: u64 = 5_000;

/// The letter `A` of a feed's codes.
pub const CODE_A: u8 = 65;

/// The letter `B` of a feed's codes.
pub const CODE_B: u8 = 66;

/// The letter `S` of a feed's codes.
pub const CODE_S: u8 = 83;

/// The letter `a` of a feed's codes.
pub const CODE_LOWER_A: u8 = 97;

/// The letter `b` of a feed's codes.
pub const CODE_LOWER_B: u8 = 98;

/// Slowest replay speed.
pub const MIN_SPEED: u32 = 1;

/// Fastest replay speed.
pub const MAX_SPEED: u32 = 100;

/// Side of a live trade by its aggressor code: `A` or `a` is a buy, `B` or
/// `b` a sell, anything else a buy.
pub open spec fn spec_live_side(code: u8) -> Side {
    if code == CODE_B || code == CODE_LOWER_B {
        Side::Sell
    } else {
        Side::Buy
    }
}

/// Side of a live trade by its aggressor code.
pub fn live_side(code: u8) -> (side: Side)
    ensures
        side == spec_live_side(code),
{
    if code == CODE_A || code == CODE_LOWER_A {
        Side::Buy
    } else if code == CODE_B || code == CODE_LOWER_B {
        Side::Sell
    } else {
        Side::Buy
    }
}

/// Side of a trade fetched from history, by its action code and its side
/// code: action `B` is a buy, action `S` or `A` a sell; with any other action
/// side `B` is a buy and any other side a sell.
pub open spec fn spec_historical_side(action: u8, side: u8) -> Side {
    if action == CODE_B {
        Side::Buy
    } else if action == CODE_S || action == CODE_A {
        Side::Sell
    } else if side == CODE_B {
        Side::Buy
    } else {
        Side::Sell
    }
}

/// Side of a trade fetched from history.
pub fn historical_side(action: u8, side: u8) -> (result: Side)
    ensures
        result == spec_historical_side(action, side),
{
    if action == CODE_B {
        Side::Buy
    } else if action == CODE_S || action == CODE_A {
        Side::Sell
    } else if side == CODE_B {
        Side::Buy
    } else {
        Side::Sell
    }
}

/// Side of a trade in a recorded file, by its side text: `B` is a buy, `A` a
/// sell, and a row with any other text is no trade to take.
pub open spec fn spec_recorded_side(code: Seq<char>) -> Option<Side> {
    if code == "B"@ {
        Some(Side::Buy)
    } else if code == "A"@ {
        Some(Side::Sell)
    } else {
        None
    }
}

/// Side of a trade in a recorded file, if its row is one to take.
pub fn recorded_side(code: &String) -> (side: Option<Side>)
    ensures
        side == spec_recorded_side(code@),
{
    if *code == "B".to_owned() {
        Some(Side::Buy)
    } else if *code == "A".to_owned() {
        Some(Side::Sell)
    } else {
        None
    }
}

/// Is a row of a recorded file a trade? It is where its action is `T`.
pub fn is_trade_action(action: &String) -> (yes: bool)
    ensures
        yes == (action@ == "T"@),
{
    *action == "T".to_owned()
}

/// An event time in nanoseconds as milliseconds, rounded down.
pub fn millis_of_nanos(nanos: u64) -> (millis: u64)
    ensures
        millis == nanos / NANOS_PER_MILLI,
{
    nanos / NANOS_PER_MILLI
}

/// How long a replay at `speed` pauses before a trade at `ts` that follows
/// one at `last`: the time between them divided by the speed, where that is
/// more than nothing and less than the longest pause.
pub open spec fn spec_pacing_delay(last: Option<u64>, ts: u64, speed: u32) -> Option<u64> {
    match last {
        Some(before) => if ts > before && 0 < (ts - before) / (speed as int) < LONGEST_PAUSE_MS {
            Some(((ts - before) / (speed as int)) as u64)
        } else {
            None
        },
        None => None,
    }
}

/// How long a replay pauses before a trade, if it pauses.
pub fn pacing_delay(last: Option<u64>, ts: u64, speed: u32) -> (delay: Option<u64>)
    requires
        speed >= 1,
    ensures
        delay == spec_pacing_delay(last, ts, speed),
{
    match last {
        Some(before) => {
            if ts > before {
                let delay = (ts - before) / speed as u64;
                if delay > 0 && delay < LONGEST_PAUSE_MS {
                    Some(delay)
                } else {
                    None
                }
            } else {
                None
            }
        },
        None => None,
    }
}

/// A replay speed brought into the range that a replay can run at.
pub fn clamp_speed(speed: u32) -> (clamped: u32)
    ensures
        MIN_SPEED <= clamped <= MAX_SPEED,
        MIN_SPEED <= speed <= MAX_SPEED ==> clamped == speed,
        speed < MIN_SPEED ==> clamped == MIN_SPEED,
        speed > MAX_SPEED ==> clamped == MAX_SPEED,
{
    if speed < MIN_SPEED {
        MIN_SPEED
    } else if speed > MAX_SPEED {
        MAX_SPEED
    } else {
        speed
    }
}

/// The symbol that a live trade is filed under: the first of the symbols
/// subscribed to, `UNKNOWN` where there are none.
pub fn symbol_for(symbols: &Vec<String>) -> (symbol: String)
    ensures
        symbol@ == (if symbols@.len() > 0 {
            symbols@[0]@
        } else {
            "UNKNOWN"@
        }),
{
    if symbols.len() > 0 {
        symbols[0].clone()
    } else {
        "UNKNOWN".to_owned()
    }
}

/// The bytes of `.zst`, the ending of a recorded file's name.
pub open spec fn zst_ending() -> Seq<u8> {
    seq![46u8, 122u8, 115u8, 116u8]
}

/// Does the name end in `.zst`, with something before the dot?
pub open spec fn has_zst_extension(name: Seq<u8>) -> bool {
    name.len() >= 5 && name.subrange(name.len() - 4, name.len() as int) == zst_ending()
}

/// Does `pattern` occur in `text`?
pub open spec fn occurs_in(text: Seq<u8>, pattern: Seq<u8>) -> bool {
    exists|k: int|
        0 <= k <= text.len() - pattern.len() && #[trigger] text.subrange(k, k + pattern.len())
            == pattern
}

/// Is a file of this name a file of recorded trades to read? Its name ends
/// in `.zst`, and holds the date where one is asked for.
pub open spec fn spec_is_trade_file(name: Seq<u8>, date: Option<Seq<u8>>) -> bool {
    has_zst_extension(name) && match date {
        Some(d) => occurs_in(name, d),
        None => true,
    }
}

/// Does `pattern` stand in `text` at index `k`?
fn stands_at(text: &[u8], pattern: &[u8], k: usize) -> (yes: bool)
    requires
        k + pattern@.len() <= text@.len(),
    ensures
        yes == (text@.subrange(k as int, k + pattern@.len()) == pattern@),
{
    let n = text.len();
    let mut i: usize = 0;
    while i < pattern.len()
        invariant
            0 <= i <= pattern@.len(),
            n == text@.len(),
            k + pattern@.len() <= text@.len(),
            forall|j: int| 0 <= j < i ==> text@[k + j] == pattern@[j],
        decreases pattern@.len() - i,
    {
        if text[k + i] != pattern[i] {
            proof {
                assert(text@.subrange(k as int, k + pattern@.len())[i as int] == text@[k + i]);
            }
            return false;
        }
        i += 1;
    }
    proof {
        assert(text@.subrange(k as int, k + pattern@.len()) =~= pattern@);
    }
    true
}

/// Does `pattern` occur in `text`?
pub fn contains_bytes(text: &[u8], pattern: &[u8]) -> (yes: bool)
    ensures
        yes == occurs_in(text@, pattern@),
{
    if pattern.len() > text.len() {
        return false;
    }
    let last = text.len() - pattern.len();
    let mut k: usize = 0;
    loop
        invariant
            0 <= k <= last,
            last == text@.len() - pattern@.len(),
            forall|j: int| 0 <= j < k ==> #[trigger] text@.subrange(j, j + pattern@.len()) != pattern@,
        decreases last - k,
    {
        if stands_at(text, pattern, k) {
            return true;
        }
        if k == last {
            return false;
        }
        k += 1;
    }
}

/// Is a file of this name a file of recorded trades to read?
pub fn is_trade_file(name: &str, date: Option<&str>) -> (yes: bool)
    ensures
        yes == spec_is_trade_file(
            name.spec_bytes(),
            match date {
                Some(d) => Some(d.spec_bytes()),
                None => None,
            },
        ),
{
    let bytes = name.as_bytes();
    let n = bytes.len();
    if n < 5 {
        return false;
    }
    if !(bytes[n - 4] == 46 && bytes[n - 3] == 122 && bytes[n - 2] == 115 && bytes[n - 1] == 116) {
        proof {
            let tail = bytes@.subrange(n - 4, n as int);
            assert(tail[0] == bytes@[n - 4] && tail[1] == bytes@[n - 3] && tail[2] == bytes@[n - 2]
                && tail[3] == bytes@[n - 1]);
        }
        return false;
    }
    proof {
        assert(bytes@.subrange(n - 4, n as int) =~= zst_ending());
    }
    match date {
        Some(d) => contains_bytes(bytes, d.as_bytes()),
        None => true,
    }
}

} // verus!
