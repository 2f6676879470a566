//! Rendering a phase as its status string.
//!
//! Two modes exist. The compact mode is meant for a status bar: idle is
//! `>----` and done is `>DONE`. The verbose mode spells idle out as
//! `no pomodoro running` and done as `READY`. Both render a running interval
//! the same way: the phase letter, a colon, and the remaining time — whole
//! truncated minutes padded to two columns when at least a minute remains
//! (`W:15m`, `R: 3m`), remaining seconds otherwise (`W:45s`). The compact
//! mode is the default.

use vstd::prelude::*;

use crate::digits::dec_digits;
use crate::phase::Phase;

verus! {

/// The numeral of `n`, space-padded on the left to at least two columns.
pub open spec fn padded2(n: int) -> Seq<char> {
    if n < 10 {
        " "@ + dec_digits(n)
    } else {
        dec_digits(n)
    }
}

/// The remaining-time part of a running phase: whole truncated minutes when
/// at least one minute remains, seconds otherwise.
pub open spec fn timed_suffix(remaining: u64) -> Seq<char> {
    if remaining >= 60 {
        padded2(remaining as int / 60) + "m"@
    } else {
        padded2(remaining as int) + "s"@
    }
}

/// The compact rendering of a phase.
pub open spec fn compact_chars(p: Phase) -> Seq<char> {
    match p {
        Phase::Idle => ">----"@,
        Phase::Work { remaining } => "W:"@ + timed_suffix(remaining),
        Phase::Rest { remaining } => "R:"@ + timed_suffix(remaining),
        Phase::Done => ">DONE"@,
    }
}

/// The verbose rendering of a phase.
pub open spec fn verbose_chars(p: Phase) -> Seq<char> {
    match p {
        Phase::Idle => "no pomodoro running"@,
        Phase::Work { remaining } => "W:"@ + timed_suffix(remaining),
        Phase::Rest { remaining } => "R:"@ + timed_suffix(remaining),
        Phase::Done => "READY"@,
    }
}

impl Phase {
    /// The letter that opens the rendering of this phase.
    pub fn prefix(&self) -> (r: &'static str)
        ensures
            *self is Work ==> r@ == "W"@,
            *self is Rest ==> r@ == "R"@,
            *self is Idle || *self is Done ==> r@ == ">"@,
    {
        match self {
            Phase::Work { .. } => "W",
            Phase::Rest { .. } => "R",
            _ => ">",
        }
    }
}

/// Render the remaining time of a running phase after its prefix.
fn render_timed(prefix: &'static str, remaining: u64) -> (r: String)
    ensures
        r@ == prefix@ + timed_suffix(remaining),
{
    let mut s = String::from_str(prefix);
    let shown: u64 = if remaining >= 60 {
        remaining / 60
    } else {
        remaining
    };
    if shown < 10 {
        s.append(" ");
    }
    let digits = crate::digits::u64_decimal(shown);
    s.append(digits.as_str());
    if remaining >= 60 {
        s.append("m");
    } else {
        s.append("s");
    }
    proof {
        assert(s@ =~= prefix@ + timed_suffix(remaining));
    }
    s
}

/// Render a phase in the compact, status-bar form. This is the default
/// rendering.
pub fn format_phase(p: &Phase) -> (r: String)
    ensures
        r@ == compact_chars(*p),
{
    match p {
        Phase::Idle => String::from_str(">----"),
        Phase::Work { remaining } => render_timed("W:", *remaining),
        Phase::Rest { remaining } => render_timed("R:", *remaining),
        Phase::Done => String::from_str(">DONE"),
    }
}

/// Render a phase in the verbose, human-readable form.
pub fn format_phase_text(p: &Phase) -> (r: String)
    ensures
        r@ == verbose_chars(*p),
{
    match p {
        Phase::Idle => String::from_str("no pomodoro running"),
        Phase::Work { remaining } => render_timed("W:", *remaining),
        Phase::Rest { remaining } => render_timed("R:", *remaining),
        Phase::Done => String::from_str("READY"),
    }
}

} // verus!
