//! The configured schedule: how long a work interval and a rest interval
//! last, and how many pomodoros make up a set.

use vstd::prelude::*;

verus! {

/// Default work interval, in seconds (25 minutes).
pub const DEFAULT_WORK_SECS: u64 = 1500;

/// Default rest interval, in seconds (5 minutes).
pub const DEFAULT_REST_SECS: u64 = 300;

/// Default number of pomodoros per set.
pub const DEFAULT_REPEAT_COUNT: u64 = 8;

/// The user-tunable schedule. Durations are whole seconds; the persisted
/// record stores them as whole minutes (see the codec module).
#[derive(Clone, Copy, Debug, PartialEq, Eq, Structural)]
pub struct Config {
    /// Length of the work interval, in seconds.
    pub work_duration: u64,
    /// Length of the rest interval, in seconds.
    pub rest_duration: u64,
    /// Pomodoros per session set. Carried in the data but not consulted by
    /// the phase engine.
    pub repeat_count: u64,
}

/// The schedule used when no configuration record exists: 25 minutes of
/// work, 5 minutes of rest, 8 pomodoros per set.
pub open spec fn default_config() -> Config {
    Config {
        work_duration: DEFAULT_WORK_SECS,
        rest_duration: DEFAULT_REST_SECS,
        repeat_count: DEFAULT_REPEAT_COUNT,
    }
}

impl Config {
    /// The length of a whole pomodoro, work and rest together, as a
    /// mathematical integer.
    pub open spec fn spec_total(self) -> int {
        self.work_duration + self.rest_duration
    }

    /// The length of a whole pomodoro, work and rest together. This is the
    /// boundary at which the rest phase gives way to the done phase.
    pub fn total(&self) -> (t: u64)
        requires
            self.work_duration + self.rest_duration <= u64::MAX,
        ensures
            t == self.spec_total(),
    {
        self.work_duration + self.rest_duration
    }
}

impl Default for Config {
    /// The default schedule: 25 minutes of work, 5 minutes of rest, 8
    /// pomodoros per set.
    fn default() -> (c: Config)
        ensures
            c == default_config(),
    {
        Config {
            work_duration: DEFAULT_WORK_SECS,
            rest_duration: DEFAULT_REST_SECS,
            repeat_count: DEFAULT_REPEAT_COUNT,
        }
    }
}

} // verus!
