//! What a user can set, and what holds where nothing is set.

use vstd::prelude::*;

verus! {

/// A user's settings.
#[derive(Clone, Debug, PartialEq, Eq)]
pub struct UserConfig {
    pub min_size: u32,
    pub sound_enabled: bool,
    pub symbols: Vec<String>,
}

/// The least trade size where none is set.
pub fn default_min_size() -> (size: u32)
    ensures
        size == 1,
{
    1
}

/// Sound is on where nothing is set.
pub fn default_sound_enabled() -> (enabled: bool)
    ensures
        enabled,
{
    true
}

/// The symbols followed where none are set.
pub fn default_symbols() -> (symbols: Vec<String>)
    ensures
        symbols@.len() == 2,
        symbols@[0]@ == "NQ.c.0"@,
        symbols@[1]@ == "ES.c.0"@,
{
    let mut symbols: Vec<String> = Vec::new();
    symbols.push("NQ.c.0".to_owned());
    symbols.push("ES.c.0".to_owned());
    symbols
}

impl Default for UserConfig {
    /// The settings before any field is read: everything off and empty.
    fn default() -> (config: UserConfig)
        ensures
            config.min_size == 0,
            !config.sound_enabled,
            config.symbols@.len() == 0,
    {
        UserConfig { min_size: 0, sound_enabled: false, symbols: Vec::new() }
    }
}

impl UserConfig {
    /// The settings that hold where a stored configuration names no field.
    pub fn with_defaults() -> (config: UserConfig)
        ensures
            config.min_size == 1,
            config.sound_enabled,
            config.symbols@.len() == 2,
            config.symbols@[0]@ == "NQ.c.0"@,
            config.symbols@[1]@ == "ES.c.0"@,
    {
        UserConfig {
            min_size: default_min_size(),
            sound_enabled: default_sound_enabled(),
            symbols: default_symbols(),
        }
    }

    /// Does the filter let a trade of `size` through?
    pub fn admits(&self, size: u32) -> (yes: bool)
        ensures
            yes == (size >= self.min_size),
    {
        size >= self.min_size
    }
}

/// Milliseconds between two ticks at a replay speed of `speed`: a second
/// divided by the speed, rounded down, and no less than fifty.
pub open spec fn spec_tick_period_ms(speed: u32) -> u64 {
    if 1000int / (speed as int) < 50 {
        50
    } else {
        (1000int / (speed as int)) as u64
    }
}

/// Milliseconds between two ticks at a replay speed of `speed`.
pub fn tick_period_ms(speed: u32) -> (period: u64)
    requires
        speed >= 1,
    ensures
        period == spec_tick_period_ms(speed),
        50 <= period <= 1000,
{
    let period: u64 = 1000 / speed as u64;
    if period < 50 {
        50
    } else {
        period
    }
}

/// Where the trades come from.
#[derive(Clone, Copy, Debug, PartialEq, Eq, Structural)]
pub enum Mode {
    DbReplay,
    LocalReplay,
    ApiReplay,
    Demo,
    Live,
}

impl Mode {
    /// The mode that the flags ask for: a replay from the store goes before a
    /// replay from files, that before a replay from the provider, that before
    /// the demonstration; with no flag the feed is live.
    pub open spec fn spec_select(db_replay: bool, local_replay: bool, replay: bool, demo: bool) -> Mode {
        if db_replay {
            Mode::DbReplay
        } else if local_replay {
            Mode::LocalReplay
        } else if replay {
            Mode::ApiReplay
        } else if demo {
            Mode::Demo
        } else {
            Mode::Live
        }
    }

    /// The mode that the flags ask for.
    pub fn select(db_replay: bool, local_replay: bool, replay: bool, demo: bool) -> (mode: Mode)
        ensures
            mode == Mode::spec_select(db_replay, local_replay, replay, demo),
    {
        if db_replay {
            Mode::DbReplay
        } else if local_replay {
            Mode::LocalReplay
        } else if replay {
            Mode::ApiReplay
        } else if demo {
            Mode::Demo
        } else {
            Mode::Live
        }
    }

    /// The mode's name as the log shows it.
    pub fn name(&self) -> (name: &'static str)
        ensures
            name@ == (match *self {
                Mode::DbReplay => "DB_REPLAY"@,
                Mode::LocalReplay => "LOCAL_REPLAY"@,
                Mode::ApiReplay => "API_REPLAY"@,
                Mode::Demo => "DEMO"@,
                Mode::Live => "LIVE"@,
            }),
    {
        match self {
            Mode::DbReplay => "DB_REPLAY",
            Mode::LocalReplay => "LOCAL_REPLAY",
            Mode::ApiReplay => "API_REPLAY",
            Mode::Demo => "DEMO",
            Mode::Live => "LIVE",
        }
    }

    /// The mode's name as subscribers and the store see it.
    pub fn label(&self) -> (name: &'static str)
        ensures
            name@ == (match *self {
                Mode::DbReplay => "db_replay"@,
                Mode::LocalReplay => "local_replay"@,
                Mode::ApiReplay => "api_replay"@,
                Mode::Demo => "demo"@,
                Mode::Live => "live"@,
            }),
    {
        match self {
            Mode::DbReplay => "db_replay",
            Mode::LocalReplay => "local_replay",
            Mode::ApiReplay => "api_replay",
            Mode::Demo => "demo",
            Mode::Live => "live",
        }
    }

    /// Does the mode replay trades of a given date?
    pub fn is_replay(&self) -> (yes: bool)
        ensures
            yes == (*self == Mode::DbReplay || *self == Mode::LocalReplay || *self == Mode::ApiReplay),
    {
        match self {
            Mode::DbReplay => true,
            Mode::LocalReplay => true,
            Mode::ApiReplay => true,
            Mode::Demo => false,
            Mode::Live => false,
        }
    }
}

/// The least trade size in force: the one given on the command line where it
/// is not the default of one, the stored one otherwise.
pub fn effective_min_size(given: u32, stored: u32) -> (size: u32)
    ensures
        size == (if given != 1 {
            given
        } else {
            stored
        }),
{
    if given != 1 {
        given
    } else {
        stored
    }
}

} // verus!
