//! The durable session record and the lifecycle operations around it:
//! starting and stopping a pomodoro, and answering a status query. The
//! record itself is a single optional start time; persistence of the record
//! is the caller's business.

use vstd::prelude::*;

use crate::codec::{load_config, load_state, spec_load_config, spec_parse_state};
use crate::config::{default_config, Config};
use crate::display::{compact_chars, format_phase};
use crate::phase::{compute_phase, spec_phase, Phase};

verus! {

/// The session record together with the schedule used to interpret it. The
/// schedule is re-supplied from the current configuration whenever the record
/// is loaded; it is never persisted with the record.
#[derive(Clone, Copy, Debug)]
pub struct SessionState {
    /// When the running pomodoro began, in seconds since the epoch; `None`
    /// when no pomodoro is running.
    pub started_at: Option<u64>,
    /// The schedule the session is interpreted under.
    pub config: Config,
}

impl Default for SessionState {
    /// An empty session: nothing running, default schedule.
    fn default() -> (s: SessionState)
        ensures
            s.started_at is None,
            s.config == default_config(),
    {
        SessionState { started_at: None, config: Config::default() }
    }
}

impl SessionState {
    /// Begin a pomodoro now, overwriting any session already in progress.
    pub fn start(&mut self, now: u64)
        ensures
            final(self).started_at == Some(now),
            final(self).config == old(self).config,
    {
        self.started_at = Some(now);
    }

    /// Clear the session. Stopping when nothing runs is a no-op.
    pub fn stop(&mut self)
        ensures
            final(self).started_at is None,
            final(self).config == old(self).config,
    {
        self.started_at = None;
    }

    /// The phase this session is in at time `now`.
    pub fn phase(&self, now: u64) -> (p: Phase)
        ensures
            p == spec_phase(self.started_at, now, self.config),
    {
        compute_phase(self.started_at, now, &self.config)
    }
}

/// Answer one status query from the raw persisted records: interpret the
/// configuration record (falling back to the defaults when it does not
/// parse), read the session record, compute the phase at `now`, and render
/// it in the compact form. Nothing is mutated.
pub fn status_line(config_text: &str, state_text: &str, now: u64) -> (r: String)
    ensures
        r@ == compact_chars(
            spec_phase(spec_parse_state(state_text@), now, spec_load_config(config_text@)),
        ),
{
    let config = load_config(config_text);
    let state = load_state(state_text, config);
    let p = state.phase(now);
    format_phase(&p)
}

} // verus!
