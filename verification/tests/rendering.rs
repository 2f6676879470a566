use marinara::phase::Phase;
use marinara::display::{format_phase, format_phase_text};

#[test]
fn test_pomodoro_display() {
    assert_eq!(format_phase(&Phase::Work { remaining: 15 * 60 }), "W:15m");
    assert_eq!(format_phase(&Phase::Work { remaining: 3 * 60 }), "W: 3m");
    assert_eq!(format_phase(&Phase::Work { remaining: 45 }), "W:45s");
    assert_eq!(format_phase(&Phase::Rest { remaining: 3 * 60 }), "R: 3m");
    assert_eq!(format_phase(&Phase::Done), ">DONE");
}

#[test]
fn compact_idle_placeholder() {
    assert_eq!(format_phase(&Phase::Idle), ">----");
}

#[test]
fn verbose_idle_and_done() {
    assert_eq!(format_phase_text(&Phase::Idle), "no pomodoro running");
    assert_eq!(format_phase_text(&Phase::Done), "READY");
}

#[test]
fn verbose_running_matches_compact() {
    assert_eq!(format_phase_text(&Phase::Work { remaining: 900 }), "W:15m");
    assert_eq!(format_phase_text(&Phase::Rest { remaining: 200 }), "R: 3m");
}

#[test]
fn minutes_are_truncated_not_rounded() {
    // 200 seconds is 3 minutes and 20 seconds; the rendering keeps 3.
    assert_eq!(format_phase(&Phase::Rest { remaining: 200 }), "R: 3m");
    // 119 seconds is 1 minute and 59 seconds; still 1.
    assert_eq!(format_phase(&Phase::Work { remaining: 119 }), "W: 1m");
}

#[test]
fn seconds_shown_under_one_minute() {
    assert_eq!(format_phase(&Phase::Work { remaining: 59 }), "W:59s");
    assert_eq!(format_phase(&Phase::Work { remaining: 60 }), "W: 1m");
    assert_eq!(format_phase(&Phase::Work { remaining: 9 }), "W: 9s");
    assert_eq!(format_phase(&Phase::Work { remaining: 0 }), "W: 0s");
}

#[test]
fn wide_minute_counts_are_not_padded() {
    assert_eq!(format_phase(&Phase::Work { remaining: 100 * 60 }), "W:100m");
}

#[test]
fn phase_prefix_letters() {
    assert_eq!(Phase::Work { remaining: 1 }.prefix(), "W");
    assert_eq!(Phase::Rest { remaining: 1 }.prefix(), "R");
    assert_eq!(Phase::Done.prefix(), ">");
    assert_eq!(Phase::Idle.prefix(), ">");
}
