//! The phase engine: a pure function from the recorded start time, the
//! current time and the schedule to the current phase of the session.
//!
//! A phase is never stored; it is recomputed from scratch on every query, so
//! it can never drift out of step with the clock. Elapsed time is clamped at
//! zero if the clock appears to have gone backwards, which keeps the engine
//! total. The boundary between work and rest is inclusive: an elapsed time of
//! exactly the work duration still counts as work, with zero seconds
//! remaining. The done phase is sticky: once reached, no later query leaves
//! it.

use vstd::prelude::*;

use crate::config::Config;

verus! {

/// The state of a session at one moment, derived from the clock.
#[derive(Clone, Copy, Debug, PartialEq, Eq, Structural)]
pub enum Phase {
    /// No pomodoro is running.
    Idle,
    /// In the work interval, with `remaining` seconds of work left.
    Work { remaining: u64 },
    /// In the rest interval, with `remaining` seconds of rest left.
    Rest { remaining: u64 },
    /// Work and rest are both over; waiting for an explicit stop or restart.
    Done,
}

/// Seconds elapsed since `started_at`, clamped at zero when the clock ran
/// backwards.
pub open spec fn spec_elapsed(started_at: u64, now: u64) -> int {
    if now >= started_at {
        now - started_at
    } else {
        0
    }
}

/// The phase of a session: idle when no start is recorded; work while the
/// elapsed time is within the work interval, boundary included; rest while it
/// is strictly within the whole pomodoro; done from then on.
pub open spec fn spec_phase(started_at: Option<u64>, now: u64, config: Config) -> Phase {
    match started_at {
        None => Phase::Idle,
        Some(t) => {
            let elapsed = spec_elapsed(t, now);
            if elapsed <= config.work_duration {
                Phase::Work { remaining: (config.work_duration - elapsed) as u64 }
            } else if elapsed < config.spec_total() {
                Phase::Rest { remaining: (config.spec_total() - elapsed) as u64 }
            } else {
                Phase::Done
            }
        },
    }
}

/// Decide the current phase of a session and how many seconds remain in it.
pub fn compute_phase(started_at: Option<u64>, now: u64, config: &Config) -> (p: Phase)
    ensures
        p == spec_phase(started_at, now, *config),
        started_at is None ==> p is Idle,
        started_at matches Some(t) ==> (spec_elapsed(t, now) <= config.work_duration ==> p == (
        Phase::Work { remaining: (config.work_duration - spec_elapsed(t, now)) as u64 })),
        started_at matches Some(t) ==> (config.work_duration < spec_elapsed(t, now)
            < config.spec_total() ==> p == (Phase::Rest {
            remaining: (config.spec_total() - spec_elapsed(t, now)) as u64,
        })),
        started_at matches Some(t) ==> (config.work_duration < spec_elapsed(t, now)
            && spec_elapsed(t, now) >= config.spec_total() ==> p is Done),
{
    match started_at {
        None => Phase::Idle,
        Some(t) => {
            let elapsed: u64 = if now >= t {
                now - t
            } else {
                0
            };
            if elapsed <= config.work_duration {
                Phase::Work { remaining: config.work_duration - elapsed }
            } else {
                let into_rest: u64 = elapsed - config.work_duration;
                if into_rest < config.rest_duration {
                    Phase::Rest { remaining: config.rest_duration - into_rest }
                } else {
                    Phase::Done
                }
            }
        },
    }
}

/// While a session stays in its work interval, the remaining work time never
/// grows as the clock advances.
pub proof fn lemma_work_remaining_monotonic(started_at: u64, now1: u64, now2: u64, config: Config)
    requires
        now1 <= now2,
        spec_phase(Some(started_at), now1, config) is Work,
        spec_phase(Some(started_at), now2, config) is Work,
    ensures
        spec_phase(Some(started_at), now2, config)->Work_remaining <= spec_phase(
            Some(started_at),
            now1,
            config,
        )->Work_remaining,
{
}

/// The done phase is a terminal state: once a session is done, every later
/// query finds it done as well.
pub proof fn lemma_done_is_sticky(started_at: u64, now1: u64, now2: u64, config: Config)
    requires
        now1 <= now2,
        spec_phase(Some(started_at), now1, config) is Done,
    ensures
        spec_phase(Some(started_at), now2, config) is Done,
{
}

/// Without a recorded start there is no session: the phase is idle whatever
/// the clock says.
pub proof fn lemma_no_start_is_idle(now: u64, config: Config)
    ensures
        spec_phase(None, now, config) is Idle,
{
}

} // verus!
