//! What the user configures.
use vstd::prelude::*;

use crate::store::DEFAULT_SCROLLBACK;

verus! {

/// How long the countdown runs where nothing else is configured.
pub const DEFAULT_AUTO_EXIT_SECONDS: u64 = 3;

/// Whether, and how long after the stack went down, the application closes.
#[derive(Clone, Copy, Debug, PartialEq, Eq, Structural)]
pub enum AutoExit {
    /// After the usual time, or not at all.
    Enabled(bool),
    /// After that many seconds.
    Seconds(u64),
}

impl AutoExit {
    /// How many seconds the countdown runs; `None` where there is none.
    pub open spec fn delay(self) -> Option<u64> {
        match self {
            AutoExit::Enabled(true) => Some(DEFAULT_AUTO_EXIT_SECONDS),
            AutoExit::Enabled(false) => None,
            AutoExit::Seconds(seconds) => Some(seconds),
        }
    }

    /// How many seconds the countdown runs; `None` where there is none.
    pub fn seconds(self) -> (seconds: Option<u64>)
        ensures
            seconds == self.delay(),
    {
        match self {
            AutoExit::Enabled(true) => Some(DEFAULT_AUTO_EXIT_SECONDS),
            AutoExit::Enabled(false) => None,
            AutoExit::Seconds(seconds) => Some(seconds),
        }
    }
}

/// The configuration.
pub struct Config {
    /// Rows of scrollback per service.
    pub scrollback: usize,
    pub auto_exit: AutoExit,
    /// Names of the services to pin at the start.
    pub pinned: Vec<String>,
}

impl Default for Config {
    fn default() -> (config: Config)
        ensures
            config.scrollback == DEFAULT_SCROLLBACK,
            config.auto_exit == AutoExit::Enabled(true),
            config.pinned@.len() == 0,
    {
        Config {
            scrollback: DEFAULT_SCROLLBACK,
            auto_exit: AutoExit::Enabled(true),
            pinned: Vec::new(),
        }
    }
}

} // verus!
