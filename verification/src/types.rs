//! Trades, the artifacts derived from them, and the tagged union that carries
//! the artifacts to subscribers.

use vstd::prelude::*;

verus! {

/// Aggressor side of a trade.
#[derive(Clone, Copy, Debug, PartialEq, Eq, Structural)]
pub enum Side {
    Buy,
    Sell,
}

/// Direction that a signal points to.
#[derive(Clone, Copy, Debug, PartialEq, Eq, Structural)]
pub enum Direction {
    Bullish,
    Bearish,
}

/// Kind of a recorded signal.
#[derive(Clone, Copy, Debug, PartialEq, Eq, Structural)]
pub enum SignalKind {
    DeltaFlip,
    Absorption,
    StackedImbalance,
    Confluence,
}

/// Which side's pressure an absorption swallowed.
#[derive(Clone, Copy, Debug, PartialEq, Eq, Structural)]
pub enum AbsorptionType {
    Buying,
    Selling,
}

/// Strength of an absorption, weakest first.
#[derive(Clone, Copy, Debug, PartialEq, Eq, Structural)]
pub enum Strength {
    Weak,
    Medium,
    Strong,
    Defended,
}

/// How a delta flip came about.
#[derive(Clone, Copy, Debug, PartialEq, Eq, Structural)]
pub enum FlipType {
    ZeroCross,
    Reversal,
}

/// How a signal fared five minutes on.
#[derive(Clone, Copy, Debug, PartialEq, Eq, Structural)]
pub enum Outcome {
    Win,
    Loss,
    Breakeven,
}

impl Side {
    /// The name at the serialization edge.
    pub fn as_str(&self) -> (name: &'static str)
        ensures
            name@ == (match *self {
                Side::Buy => "buy"@,
                Side::Sell => "sell"@,
            }),
    {
        match self {
            Side::Buy => "buy",
            Side::Sell => "sell",
        }
    }

    /// Direction of a run of levels dominated by this side.
    pub open spec fn spec_direction(self) -> Direction {
        match self {
            Side::Buy => Direction::Bullish,
            Side::Sell => Direction::Bearish,
        }
    }

    /// The direction that it points to.
    pub fn direction(&self) -> (direction: Direction)
        ensures
            direction == self.spec_direction(),
    {
        match self {
            Side::Buy => Direction::Bullish,
            Side::Sell => Direction::Bearish,
        }
    }
}

impl Direction {
    /// The name at the serialization edge.
    pub fn as_str(&self) -> (name: &'static str)
        ensures
            name@ == (match *self {
                Direction::Bullish => "bullish"@,
                Direction::Bearish => "bearish"@,
            }),
    {
        match self {
            Direction::Bullish => "bullish",
            Direction::Bearish => "bearish",
        }
    }
}

impl SignalKind {
    /// The name at the serialization edge.
    pub fn as_str(&self) -> (name: &'static str)
        ensures
            name@ == (match *self {
                SignalKind::DeltaFlip => "delta_flip"@,
                SignalKind::Absorption => "absorption"@,
                SignalKind::StackedImbalance => "stacked_imbalance"@,
                SignalKind::Confluence => "confluence"@,
            }),
    {
        match self {
            SignalKind::DeltaFlip => "delta_flip",
            SignalKind::Absorption => "absorption",
            SignalKind::StackedImbalance => "stacked_imbalance",
            SignalKind::Confluence => "confluence",
        }
    }
}

impl AbsorptionType {
    /// The name at the serialization edge.
    pub fn as_str(&self) -> (name: &'static str)
        ensures
            name@ == (match *self {
                AbsorptionType::Buying => "buying"@,
                AbsorptionType::Selling => "selling"@,
            }),
    {
        match self {
            AbsorptionType::Buying => "buying",
            AbsorptionType::Selling => "selling",
        }
    }

    /// Sellers swallowing buying pressure is bearish, and the reverse.
    pub open spec fn spec_direction(self) -> Direction {
        match self {
            AbsorptionType::Buying => Direction::Bearish,
            AbsorptionType::Selling => Direction::Bullish,
        }
    }

    /// The direction that it points to.
    pub fn direction(&self) -> (direction: Direction)
        ensures
            direction == self.spec_direction(),
    {
        match self {
            AbsorptionType::Buying => Direction::Bearish,
            AbsorptionType::Selling => Direction::Bullish,
        }
    }
}

impl Strength {
    /// Ordinal of a strength: 0 for weak up to 3 for defended.
    pub open spec fn spec_ordinal(self) -> u8 {
        match self {
            Strength::Weak => 0,
            Strength::Medium => 1,
            Strength::Strong => 2,
            Strength::Defended => 3,
        }
    }

    /// Strength of an ordinal; every ordinal from 3 on is defended.
    pub open spec fn spec_from_ordinal(ordinal: int) -> Strength {
        if ordinal <= 0 {
            Strength::Weak
        } else if ordinal == 1 {
            Strength::Medium
        } else if ordinal == 2 {
            Strength::Strong
        } else {
            Strength::Defended
        }
    }

    /// Ordinal of the strength.
    pub fn ordinal(&self) -> (ordinal: u8)
        ensures
            ordinal == self.spec_ordinal(),
            ordinal <= 3,
    {
        match self {
            Strength::Weak => 0,
            Strength::Medium => 1,
            Strength::Strong => 2,
            Strength::Defended => 3,
        }
    }

    /// Strength of an ordinal.
    pub fn from_ordinal(ordinal: u8) -> (strength: Strength)
        ensures
            strength == Strength::spec_from_ordinal(ordinal as int),
    {
        if ordinal == 0 {
            Strength::Weak
        } else if ordinal == 1 {
            Strength::Medium
        } else if ordinal == 2 {
            Strength::Strong
        } else {
            Strength::Defended
        }
    }

    /// The name at the serialization edge.
    pub fn as_str(&self) -> (name: &'static str)
        ensures
            name@ == (match *self {
                Strength::Weak => "weak"@,
                Strength::Medium => "medium"@,
                Strength::Strong => "strong"@,
                Strength::Defended => "defended"@,
            }),
    {
        match self {
            Strength::Weak => "weak",
            Strength::Medium => "medium",
            Strength::Strong => "strong",
            Strength::Defended => "defended",
        }
    }
}

impl FlipType {
    /// The name at the serialization edge.
    pub fn as_str(&self) -> (name: &'static str)
        ensures
            name@ == (match *self {
                FlipType::ZeroCross => "zero_cross"@,
                FlipType::Reversal => "reversal"@,
            }),
    {
        match self {
            FlipType::ZeroCross => "zero_cross",
            FlipType::Reversal => "reversal",
        }
    }
}

impl Outcome {
    /// The name at the serialization edge.
    pub fn as_str(&self) -> (name: &'static str)
        ensures
            name@ == (match *self {
                Outcome::Win => "win"@,
                Outcome::Loss => "loss"@,
                Outcome::Breakeven => "breakeven"@,
            }),
    {
        match self {
            Outcome::Win => "win",
            Outcome::Loss => "loss",
            Outcome::Breakeven => "breakeven",
        }
    }
}

/// Name of a strength ordinal.
pub fn strength_num_to_str(num: u8) -> (name: &'static str)
    ensures
        name@ == (match Strength::spec_from_ordinal(num as int) {
            Strength::Weak => "weak"@,
            Strength::Medium => "medium"@,
            Strength::Strong => "strong"@,
            Strength::Defended => "defended"@,
        }),
{
    Strength::from_ordinal(num).as_str()
}

/// One trade as the adapters hand it in.
#[derive(Clone, Debug, PartialEq, Eq)]
pub struct Trade {
    pub symbol: String,
    pub price: i64,
    pub size: u32,
    pub side: Side,
    pub timestamp: u64,
}

/// One window's pressure bubble.
#[derive(Clone, Copy, Debug, PartialEq, Eq)]
pub struct Bubble {
    pub id: u64,
    pub price: i64,
    pub size: u64,
    pub side: Side,
    pub timestamp: u64,
    pub is_significant_imbalance: bool,
}

/// One point of the cumulative volume delta curve.
#[derive(Clone, Copy, Debug, PartialEq, Eq)]
pub struct CVDPoint {
    pub timestamp: u64,
    pub value: i64,
}

/// One quarter-point bucket of the volume profile.
#[derive(Clone, Copy, Debug, PartialEq, Eq)]
pub struct VolumeProfileLevel {
    pub price: i64,
    pub buy_volume: u64,
    pub sell_volume: u64,
    pub total_volume: u64,
}

/// An absorption zone as subscribers see it.
#[derive(Clone, Copy, Debug, PartialEq, Eq)]
pub struct AbsorptionZone {
    pub price: i64,
    pub absorption_type: AbsorptionType,
    pub total_absorbed: u64,
    pub event_count: u64,
    pub first_seen: u64,
    pub last_seen: u64,
    pub strength: Strength,
    pub at_poc: bool,
    pub at_vah: bool,
    pub at_val: bool,
    pub against_trend: bool,
}

/// One absorption of a window's pressure.
#[derive(Clone, Copy, Debug, PartialEq, Eq)]
pub struct AbsorptionEvent {
    pub timestamp: u64,
    pub price: i64,
    pub absorption_type: AbsorptionType,
    pub delta: i64,
    pub price_change: i64,
    pub strength: Strength,
    pub event_count: u64,
    pub total_absorbed: u64,
    pub at_key_level: bool,
    pub against_trend: bool,
}

/// The cumulative delta changing sign.
#[derive(Clone, Copy, Debug, PartialEq, Eq)]
pub struct DeltaFlip {
    pub timestamp: u64,
    pub flip_type: FlipType,
    pub direction: Direction,
    pub cvd_before: i64,
    pub cvd_after: i64,
}

/// A run of consecutive one-point levels dominated by one side.
#[derive(Clone, Copy, Debug, PartialEq, Eq)]
pub struct StackedImbalance {
    pub timestamp: u64,
    pub side: Side,
    pub level_count: u64,
    pub price_high: i64,
    pub price_low: i64,
    pub total_imbalance: u64,
}

/// Several kinds of signal agreeing on a direction.
#[derive(Clone, Debug, PartialEq, Eq)]
pub struct ConfluenceEvent {
    pub timestamp: u64,
    pub price: i64,
    pub direction: Direction,
    pub score: u8,
    pub signals: Vec<SignalKind>,
    pub price_after_1m: Option<i64>,
    pub price_after_5m: Option<i64>,
}

/// A signal on record, with what the price did afterwards.
#[derive(Clone, Copy, Debug, PartialEq, Eq)]
pub struct SignalRecord {
    pub timestamp: u64,
    pub price: i64,
    pub signal_type: SignalKind,
    pub direction: Direction,
    pub price_after_1m: Option<i64>,
    pub price_after_5m: Option<i64>,
    pub outcome: Option<Outcome>,
}

/// Statistics of the records of one kind of signal.
///
/// The mean moves are in price units, rounded towards zero. The win rate is
/// in hundredths of a percent of the decided outcomes, rounded down.
#[derive(Clone, Copy, Debug, PartialEq, Eq)]
pub struct SignalStats {
    pub count: u64,
    pub bullish_count: u64,
    pub bearish_count: u64,
    pub wins: u64,
    pub losses: u64,
    pub avg_move_1m: i64,
    pub avg_move_5m: i64,
    pub win_rate: u64,
}

/// Statistics of the session.
#[derive(Clone, Copy, Debug, PartialEq, Eq)]
pub struct SessionStats {
    pub session_start: u64,
    pub delta_flips: SignalStats,
    pub absorptions: SignalStats,
    pub stacked_imbalances: SignalStats,
    pub confluences: SignalStats,
    pub current_price: i64,
    pub session_high: i64,
    pub session_low: i64,
    pub total_volume: u64,
}

/// What the engine and its transports tell subscribers.
#[derive(Clone, Debug, PartialEq, Eq)]
pub enum WsMessage {
    Bubble(Bubble),
    CVDPoint(CVDPoint),
    VolumeProfile { levels: Vec<VolumeProfileLevel> },
    Absorption(AbsorptionEvent),
    AbsorptionZones { zones: Vec<AbsorptionZone> },
    DeltaFlip(DeltaFlip),
    StackedImbalance(StackedImbalance),
    Confluence(ConfluenceEvent),
    SessionStats(SessionStats),
    Connected { symbols: Vec<String> },
    Error { message: String },
}

/// What a subscriber tells the server.
#[derive(Clone, Debug, PartialEq, Eq)]
pub struct ClientMessage {
    pub action: String,
    pub symbol: Option<String>,
    pub min_size: Option<u32>,
    pub speed: Option<u32>,
}

/// What the server does on a subscriber's message.
#[derive(Clone, Copy, Debug, PartialEq, Eq)]
pub enum ClientAction {
    /// Let only trades of this size or more through.
    SetMinSize(u32),
    /// Hold the replay.
    PauseReplay,
    /// Let the replay run on.
    ResumeReplay,
    /// Run the replay at this speed.
    SetReplaySpeed(u32),
    /// Nothing.
    Ignore,
}

impl ClientMessage {
    /// What the message asks for: `set_min_size` with a size sets the filter,
    /// `replay_pause` and `replay_resume` hold the replay and let it run,
    /// `set_replay_speed` with a speed sets the speed, brought into the range
    /// from 1 to 100; anything else asks for nothing.
    pub open spec fn spec_action(self) -> ClientAction {
        if self.action@ == "set_min_size"@ {
            match self.min_size {
                Some(size) => ClientAction::SetMinSize(size),
                None => ClientAction::Ignore,
            }
        } else if self.action@ == "replay_pause"@ {
            ClientAction::PauseReplay
        } else if self.action@ == "replay_resume"@ {
            ClientAction::ResumeReplay
        } else if self.action@ == "set_replay_speed"@ {
            match self.speed {
                Some(speed) => ClientAction::SetReplaySpeed(
                    if speed < 1 {
                        1
                    } else if speed > 100 {
                        100
                    } else {
                        speed
                    },
                ),
                None => ClientAction::Ignore,
            }
        } else {
            ClientAction::Ignore
        }
    }

    /// What the message asks for.
    pub fn action(&self) -> (action: ClientAction)
        ensures
            action == self.spec_action(),
    {
        if self.action == "set_min_size".to_owned() {
            match self.min_size {
                Some(size) => ClientAction::SetMinSize(size),
                None => ClientAction::Ignore,
            }
        } else if self.action == "replay_pause".to_owned() {
            ClientAction::PauseReplay
        } else if self.action == "replay_resume".to_owned() {
            ClientAction::ResumeReplay
        } else if self.action == "set_replay_speed".to_owned() {
            match self.speed {
                Some(speed) => ClientAction::SetReplaySpeed(crate::adapters::clamp_speed(speed)),
                None => ClientAction::Ignore,
            }
        } else {
            ClientAction::Ignore
        }
    }
}

/// A confluence as a value.
pub struct ConfluenceView {
    pub timestamp: u64,
    pub price: i64,
    pub direction: Direction,
    pub score: u8,
    pub signals: Seq<SignalKind>,
    pub price_after_1m: Option<i64>,
    pub price_after_5m: Option<i64>,
}

impl View for ConfluenceEvent {
    type V = ConfluenceView;

    open spec fn view(&self) -> ConfluenceView {
        ConfluenceView {
            timestamp: self.timestamp,
            price: self.price,
            direction: self.direction,
            score: self.score,
            signals: self.signals@,
            price_after_1m: self.price_after_1m,
            price_after_5m: self.price_after_5m,
        }
    }
}

/// A confluence that may be absent, as a value.
pub open spec fn confluence_view(event: Option<ConfluenceEvent>) -> Option<ConfluenceView> {
    match event {
        Some(e) => Some(e@),
        None => None,
    }
}

/// A message as a value.
pub enum MessageView {
    Bubble(Bubble),
    CVDPoint(CVDPoint),
    VolumeProfile { levels: Seq<VolumeProfileLevel> },
    Absorption(AbsorptionEvent),
    AbsorptionZones { zones: Seq<AbsorptionZone> },
    DeltaFlip(DeltaFlip),
    StackedImbalance(StackedImbalance),
    Confluence(ConfluenceView),
    SessionStats(SessionStats),
    Connected { symbols: Seq<Seq<char>> },
    Error { message: Seq<char> },
}

impl View for WsMessage {
    type V = MessageView;

    open spec fn view(&self) -> MessageView {
        match *self {
            WsMessage::Bubble(bubble) => MessageView::Bubble(bubble),
            WsMessage::CVDPoint(point) => MessageView::CVDPoint(point),
            WsMessage::VolumeProfile { levels } => MessageView::VolumeProfile { levels: levels@ },
            WsMessage::Absorption(event) => MessageView::Absorption(event),
            WsMessage::AbsorptionZones { zones } => MessageView::AbsorptionZones { zones: zones@ },
            WsMessage::DeltaFlip(flip) => MessageView::DeltaFlip(flip),
            WsMessage::StackedImbalance(stacked) => MessageView::StackedImbalance(stacked),
            WsMessage::Confluence(event) => MessageView::Confluence(event@),
            WsMessage::SessionStats(stats) => MessageView::SessionStats(stats),
            WsMessage::Connected { symbols } => MessageView::Connected {
                symbols: Seq::new(symbols@.len(), |i: int| symbols@[i]@),
            },
            WsMessage::Error { message } => MessageView::Error { message: message@ },
        }
    }
}

/// Messages as values, in their order.
pub open spec fn message_views(messages: Seq<WsMessage>) -> Seq<MessageView> {
    Seq::new(messages.len(), |i: int| messages[i]@)
}

impl Trade {
    /// A trade the engine ingests: at least one contract, at a price in range.
    pub open spec fn well_formed(&self) -> bool {
        self.size >= 1 && crate::price::valid_price(self.price as int)
    }

    /// What the trade adds to the delta: its size for a buy, its size
    /// taken away for a sell.
    pub open spec fn signed_size(&self) -> int {
        if self.side == Side::Buy {
            self.size as int
        } else {
            -(self.size as int)
        }
    }

    /// Does the engine ingest the trade?
    pub fn is_well_formed(&self) -> (ok: bool)
        ensures
            ok == self.well_formed(),
    {
        self.size >= 1 && 0 <= self.price && self.price <= crate::price::MAX_PRICE
    }
}

} // verus!
