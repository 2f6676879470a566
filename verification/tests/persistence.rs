use marinara::codec::{load_config, load_state, parse_state, save_config, save_state};
use marinara::config::Config;
use marinara::session::{status_line, SessionState};

#[test]
fn state_record_is_one_line() {
    let state = SessionState { started_at: Some(123), config: Config::default() };
    assert_eq!(save_state(&state), "started_at = 123\n");
}

#[test]
fn empty_state_record_when_nothing_runs() {
    let state = SessionState { started_at: None, config: Config::default() };
    assert_eq!(save_state(&state), "");
}

#[test]
fn state_round_trip_running() {
    let before = SessionState { started_at: Some(1_700_000_000), config: Config::default() };
    let text = save_state(&before);
    let after = load_state(&text, before.config);
    assert_eq!(after.started_at, Some(1_700_000_000));
}

#[test]
fn state_round_trip_idle() {
    let before = SessionState { started_at: None, config: Config::default() };
    let text = save_state(&before);
    let after = load_state(&text, before.config);
    assert_eq!(after.started_at, None);
}

#[test]
fn state_round_trip_extremes() {
    for v in [0u64, 1, 9, 10, 99, 100, u64::MAX] {
        let state = SessionState { started_at: Some(v), config: Config::default() };
        assert_eq!(parse_state(&save_state(&state)), Some(v));
    }
}

#[test]
fn malformed_state_means_idle() {
    for text in [
        "garbage",
        "started_at = \n",
        "started_at = 12x\n",
        "started_at = 5",
        "started_at = 5\nextra",
        "started_at=5\n",
        "STARTED_AT = 5\n",
        " started_at = 5\n",
    ] {
        assert_eq!(parse_state(text), None, "{:?}", text);
    }
}

#[test]
fn overlong_start_time_means_idle() {
    // One past the largest 64-bit value must not wrap around.
    assert_eq!(parse_state("started_at = 18446744073709551616\n"), None);
    assert_eq!(parse_state("started_at = 18446744073709551615\n"), Some(u64::MAX));
    assert_eq!(parse_state("started_at = 99999999999999999999999999\n"), None);
}

#[test]
fn leading_zeros_carry_no_value() {
    assert_eq!(parse_state("started_at = 007\n"), Some(7));
    assert_eq!(parse_state("started_at = 000000000000000000000000042\n"), Some(42));
}

#[test]
fn config_record_text() {
    assert_eq!(save_config(&Config::default()), "count = 8\nduration = 25\nrest = 5\n");
}

#[test]
fn config_round_trip() {
    let c = Config { work_duration: 3000, rest_duration: 600, repeat_count: 4 };
    assert_eq!(load_config(&save_config(&c)), c);
}

#[test]
fn config_loads_minutes_as_seconds() {
    let c = load_config("count = 4\nduration = 50\nrest = 10\n");
    assert_eq!(c, Config { work_duration: 3000, rest_duration: 600, repeat_count: 4 });
}

#[test]
fn malformed_config_falls_back_to_default() {
    for text in [
        "",
        "junk",
        "count = 4\n",
        "duration = 50\ncount = 4\nrest = 10\n",
        "count = 4\nduration = 50\nrest = 10\nextra = 1\n",
        "count = 4\nduration = x\nrest = 10\n",
    ] {
        assert_eq!(load_config(text), Config::default(), "{:?}", text);
    }
}

#[test]
fn overlong_minutes_fall_back_to_default() {
    // More minutes than 64 bits of seconds can hold.
    let text = "count = 1\nduration = 400000000000000000\nrest = 5\n";
    assert_eq!(load_config(text), Config::default());
}

#[test]
fn session_start_overwrites_and_stop_clears() {
    let mut s = SessionState::default();
    assert_eq!(s.started_at, None);
    s.start(100);
    assert_eq!(s.started_at, Some(100));
    s.start(200);
    assert_eq!(s.started_at, Some(200));
    s.stop();
    assert_eq!(s.started_at, None);
    s.stop();
    assert_eq!(s.started_at, None);
}

#[test]
fn status_composes_records_clock_and_rendering() {
    let config_text = "count = 8\nduration = 25\nrest = 5\n";
    assert_eq!(status_line(config_text, "started_at = 0\n", 600), "W:15m");
    assert_eq!(status_line(config_text, "started_at = 0\n", 1600), "R: 3m");
    assert_eq!(status_line(config_text, "started_at = 0\n", 1801), ">DONE");
    assert_eq!(status_line(config_text, "", 600), ">----");
}

#[test]
fn status_with_missing_config_uses_defaults() {
    assert_eq!(status_line("", "started_at = 0\n", 600), "W:15m");
    assert_eq!(status_line("nonsense", "started_at = 0\n", 1799), "R: 1s");
}

#[test]
fn status_with_custom_schedule() {
    // Ten minutes of work, two of rest.
    let config_text = "count = 1\nduration = 10\nrest = 2\n";
    assert_eq!(status_line(config_text, "started_at = 0\n", 60), "W: 9m");
    assert_eq!(status_line(config_text, "started_at = 0\n", 630), "R: 1m");
    assert_eq!(status_line(config_text, "started_at = 0\n", 720), ">DONE");
}
