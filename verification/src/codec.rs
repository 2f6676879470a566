//! The codec for the persisted records.
//!
//! Both records are plain text, one `key = value\n` line per field. The
//! configuration record holds `count` (pomodoros per set), `duration` (work
//! minutes) and `rest` (rest minutes), in that order; the session record
//! holds a single optional `started_at` line (seconds since the epoch), and
//! an empty record means no pomodoro is running. Reading is total: a record
//! that does not have the expected shape falls back to the default value, so
//! a missing or hand-mangled file never aborts a command.

use vstd::prelude::*;

use crate::config::{default_config, Config};
use crate::digits::{
    all_digits, dec_digits, digit_val, digits_value, is_digit, lemma_dec_digits,
    lemma_digits_value_prefix_le, lemma_digits_value_step, u64_decimal,
};
use crate::session::SessionState;

verus! {

/// The first position at or after `i` in `t` that does not hold a decimal
/// digit; the end of `t` if digits run to the end.
pub open spec fn digits_end(t: Seq<char>, i: int) -> int
    recommends
        0 <= i <= t.len(),
    decreases t.len() - i,
{
    if i < t.len() && is_digit(t[i]) {
        digits_end(t, i + 1)
    } else {
        i
    }
}

/// One persisted field read at position `i` of `t`: the characters of `key`,
/// then at least one decimal digit, then a newline. Yields the value the digits
/// denote and the position just past the newline; nothing if the text does
/// not have that shape there or the value does not fit in 64 bits.
pub open spec fn spec_parse_field(t: Seq<char>, i: int, key: Seq<char>) -> Option<(int, int)>
    recommends
        0 <= i <= t.len(),
{
    let ds = i + key.len();
    if ds <= t.len() && t.subrange(i, ds) == key {
        let de = digits_end(t, ds);
        if ds < de && de < t.len() && t[de] == '\n' && digits_value(t.subrange(ds, de))
            <= u64::MAX {
            Some((digits_value(t.subrange(ds, de)), de + 1))
        } else {
            None
        }
    } else {
        None
    }
}

/// The session record for a given start time: empty when nothing is running,
/// a single `started_at` line otherwise.
pub open spec fn state_chars(started_at: Option<u64>) -> Seq<char> {
    match started_at {
        None => Seq::<char>::empty(),
        Some(n) => "started_at = "@ + dec_digits(n as int) + "\n"@,
    }
}

/// The start time a session record denotes: the value of its single
/// `started_at` line, or nothing when the record is anything else — an
/// absent, empty or malformed record all mean that no pomodoro is running.
pub open spec fn spec_parse_state(t: Seq<char>) -> Option<u64> {
    match spec_parse_field(t, 0, "started_at = "@) {
        Some((v, next)) => if next == t.len() {
            Some(v as u64)
        } else {
            None
        },
        None => None,
    }
}

/// The configuration record for a schedule: `count`, `duration` and `rest`
/// lines, the durations written as whole truncated minutes.
pub open spec fn config_chars(c: Config) -> Seq<char> {
    "count = "@ + dec_digits(c.repeat_count as int) + "\n"@ + "duration = "@ + dec_digits(
        c.work_duration as int / 60,
    ) + "\n"@ + "rest = "@ + dec_digits(c.rest_duration as int / 60) + "\n"@
}

/// The schedule a configuration record denotes, if it has exactly the three
/// expected lines and both durations, read as minutes, fit in 64 bits of
/// seconds.
pub open spec fn spec_parse_config(t: Seq<char>) -> Option<Config> {
    match spec_parse_field(t, 0, "count = "@) {
        Some((count, i1)) => match spec_parse_field(t, i1, "duration = "@) {
            Some((dur, i2)) => match spec_parse_field(t, i2, "rest = "@) {
                Some((rest, i3)) => if i3 == t.len() && dur * 60 <= u64::MAX && rest * 60
                    <= u64::MAX {
                    Some(
                        Config {
                            work_duration: (dur * 60) as u64,
                            rest_duration: (rest * 60) as u64,
                            repeat_count: count as u64,
                        },
                    )
                } else {
                    None
                },
                None => None,
            },
            None => None,
        },
        None => None,
    }
}

/// The schedule a configuration record denotes, with the fallback applied:
/// a record that does not parse means the default schedule.
pub open spec fn spec_load_config(t: Seq<char>) -> Config {
    match spec_parse_config(t) {
        Some(c) => c,
        None => default_config(),
    }
}

/// Whether `key` stands letter for letter at position `i` of `t`.
#[verifier::loop_isolation(false)]
fn match_key(t: &str, i: usize, key: &str) -> (r: bool)
    requires
        i + key@.len() <= t@.len(),
        t@.len() <= usize::MAX,
    ensures
        r == (t@.subrange(i as int, i as int + key@.len()) == key@),
{
    let klen = key.unicode_len();
    let mut j: usize = 0;
    while j < klen
        invariant
            j <= klen,
            klen == key@.len(),
            i + klen <= t@.len(),
            forall|k: int| 0 <= k < j ==> t@[i + k] == key@[k],
        decreases klen - j,
    {
        if t.get_char(i + j) != key.get_char(j) {
            proof {
                let sub = t@.subrange(i as int, i as int + key@.len());
                assert(sub[j as int] == t@[i + j]);
            }
            return false;
        }
        j += 1;
    }
    proof {
        assert(t@.subrange(i as int, i as int + key@.len()) =~= key@);
    }
    true
}

/// Scanning past one digit does not move the end of the digit run.
proof fn lemma_digits_end_step(t: Seq<char>, i: int)
    requires
        0 <= i < t.len(),
        is_digit(t[i]),
    ensures
        digits_end(t, i) == digits_end(t, i + 1),
{
}

/// The end of the digit run lies between its start and the end of the text,
/// and everything before it is a digit.
proof fn lemma_digits_end_bounds(t: Seq<char>, i: int)
    requires
        0 <= i <= t.len(),
    ensures
        i <= digits_end(t, i) <= t.len(),
        forall|k: int| i <= k < digits_end(t, i) ==> is_digit(#[trigger] t[k]),
    decreases t.len() - i,
{
    if i < t.len() && is_digit(t[i]) {
        lemma_digits_end_bounds(t, i + 1);
    }
}

/// A run of digits that stops at a non-digit or at the end of the text is
/// exactly what `digits_end` finds.
proof fn lemma_digits_end_run(t: Seq<char>, i: int, e: int)
    requires
        0 <= i <= e <= t.len(),
        forall|k: int| i <= k < e ==> is_digit(#[trigger] t[k]),
        e == t.len() || !is_digit(t[e]),
    ensures
        digits_end(t, i) == e,
    decreases e - i,
{
    if i < e {
        lemma_digits_end_run(t, i + 1, e);
    }
}

/// Read one persisted field at position `i` of `t`: `key`, digits, newline.
/// Returns exactly what the field denotes, or nothing when the text does not
/// have the field's shape there.
fn parse_field(t: &str, i: usize, key: &str) -> (r: Option<(u64, usize)>)
    requires
        i <= t@.len(),
    ensures
        spec_parse_field(t@, i as int, key@) matches Some(vn) ==> (r matches Some(p) && p.0 as int
            == vn.0 && p.1 as int == vn.1),
        spec_parse_field(t@, i as int, key@) is None ==> r is None,
{
    let n = t.unicode_len();
    let klen = key.unicode_len();
    if klen > n - i {
        return None;
    }
    if !match_key(t, i, key) {
        return None;
    }
    let ds = i + klen;
    let ghost dsi = ds as int;
    let mut j = ds;
    let mut acc: u64 = 0;
    while j < n
        invariant
            ds <= j <= n,
            n == t@.len(),
            dsi == ds as int,
            dsi == i + key@.len(),
            t@.subrange(i as int, dsi) == key@,
            digits_end(t@, dsi) == digits_end(t@, j as int),
            forall|k: int| dsi <= k < j ==> is_digit(#[trigger] t@[k]),
            acc as int == digits_value(t@.subrange(dsi, j as int)),
        ensures
            ds <= j <= n,
            n == t@.len(),
            digits_end(t@, dsi) == digits_end(t@, j as int),
            forall|k: int| dsi <= k < j ==> is_digit(#[trigger] t@[k]),
            acc as int == digits_value(t@.subrange(dsi, j as int)),
            j == n || !is_digit(t@[j as int]),
        decreases n - j,
    {
        let c = t.get_char(j);
        let cv = c as u32;
        if cv < 48 || cv > 57 {
            break ;
        }
        let d: u64 = (cv - 48) as u64;
        proof {
            lemma_digits_end_step(t@, j as int);
            lemma_digits_value_step(t@.subrange(dsi, j as int + 1), j as int - dsi);
            assert(t@.subrange(dsi, j as int + 1).subrange(0, j as int - dsi) =~= t@.subrange(
                dsi,
                j as int,
            ));
            assert(t@.subrange(dsi, j as int + 1).subrange(0, j as int + 1 - dsi) =~= t@.subrange(
                dsi,
                j as int + 1,
            ));
        }
        let limit: u64 = (u64::MAX - d) / 10;
        if acc > limit {
            proof {
                lemma_digits_end_bounds(t@, dsi);
                let de = digits_end(t@, dsi);
                let run = t@.subrange(dsi, de);
                assert(de >= j + 1) by {
                    lemma_digits_end_bounds(t@, j as int + 1);
                }
                assert(digits_value(t@.subrange(dsi, j as int + 1)) == acc as int * 10 + d);
                assert(acc as int * 10 + d > u64::MAX) by {
                    assert(u64::MAX - d == 10 * ((u64::MAX - d) as int / 10) + (u64::MAX
                        - d) as int % 10);
                };
                assert(run.subrange(0, j as int + 1 - dsi) =~= t@.subrange(dsi, j as int + 1));
                assert(run.subrange(0, run.len() as int) =~= run);
                assert(all_digits(run));
                lemma_digits_value_prefix_le(run, j as int + 1 - dsi, run.len() as int);
                assert(digits_value(t@.subrange(dsi, de)) > u64::MAX);
            }
            return None;
        }
        proof {
            assert(acc as int * 10 + d <= u64::MAX) by {
                assert(u64::MAX - d == 10 * ((u64::MAX - d) as int / 10) + (u64::MAX - d) as int
                    % 10);
                assert(acc as int * 10 <= 10 * ((u64::MAX - d) as int / 10));
            };
        }
        acc = acc * 10 + d;
        j += 1;
    }
    if j == ds || j == n {
        return None;
    }
    let c = t.get_char(j);
    if c != '\n' {
        return None;
    }
    proof {
        lemma_digits_end_run(t@, dsi, j as int);
    }
    Some((acc, j + 1))
}

/// Render the session record for a start time: empty when nothing runs, one
/// `started_at` line otherwise.
pub fn save_state(state: &SessionState) -> (r: String)
    ensures
        r@ == state_chars(state.started_at),
{
    match state.started_at {
        None => String::new(),
        Some(n) => {
            let mut s = String::from_str("started_at = ");
            let digits = u64_decimal(n);
            s.append(digits.as_str());
            s.append("\n");
            s
        },
    }
}

/// Read the start time out of a session record. Anything that is not a
/// well-formed record means that no pomodoro is running.
pub fn parse_state(text: &str) -> (r: Option<u64>)
    ensures
        r == spec_parse_state(text@),
{
    match parse_field(text, 0, "started_at = ") {
        Some((v, next)) => {
            if next == text.unicode_len() {
                Some(v)
            } else {
                None
            }
        },
        None => None,
    }
}

/// Interpret a session record under the given schedule: the parsed start
/// time, or no session when the record does not parse.
pub fn load_state(text: &str, config: Config) -> (s: SessionState)
    ensures
        s.started_at == spec_parse_state(text@),
        s.config == config,
{
    SessionState { started_at: parse_state(text), config }
}

/// Render the configuration record for a schedule, durations as whole
/// truncated minutes.
pub fn save_config(config: &Config) -> (r: String)
    ensures
        r@ == config_chars(*config),
{
    let mut s = String::from_str("count = ");
    let count = u64_decimal(config.repeat_count);
    s.append(count.as_str());
    s.append("\n");
    s.append("duration = ");
    let dur = u64_decimal(config.work_duration / 60);
    s.append(dur.as_str());
    s.append("\n");
    s.append("rest = ");
    let rest = u64_decimal(config.rest_duration / 60);
    s.append(rest.as_str());
    s.append("\n");
    proof {
        assert(s@ =~= config_chars(*config));
    }
    s
}

/// Read a schedule out of a configuration record, falling back to the
/// default schedule when the record does not parse.
pub fn load_config(text: &str) -> (c: Config)
    ensures
        c == spec_load_config(text@),
{
    let n = text.unicode_len();
    let count = match parse_field(text, 0, "count = ") {
        Some(p) => p,
        None => {
            return Config::default();
        },
    };
    let dur = match parse_field(text, count.1, "duration = ") {
        Some(p) => p,
        None => {
            return Config::default();
        },
    };
    let rest = match parse_field(text, dur.1, "rest = ") {
        Some(p) => p,
        None => {
            return Config::default();
        },
    };
    if rest.1 != n {
        return Config::default();
    }
    if dur.0 > u64::MAX / 60 || rest.0 > u64::MAX / 60 {
        proof {
            lemma_minutes_overflow(dur.0 as int, rest.0 as int);
        }
        return Config::default();
    }
    proof {
        lemma_minutes_fit(dur.0 as int);
        lemma_minutes_fit(rest.0 as int);
    }
    Config { work_duration: dur.0 * 60, rest_duration: rest.0 * 60, repeat_count: count.0 }
}

/// A rendered field reads back as itself: where the text holds `key`, the
/// numeral of `v` and a newline, parsing at that spot yields `v` and stops
/// just past the newline.
proof fn lemma_parse_field_render(t: Seq<char>, i: int, key: Seq<char>, v: u64)
    requires
        0 <= i,
        i + key.len() + dec_digits(v as int).len() + 1 <= t.len(),
        t.subrange(i, i + key.len() + dec_digits(v as int).len() + 1) =~= key + dec_digits(
            v as int,
        ) + "\n"@,
    ensures
        spec_parse_field(t, i, key) == Some(
            (v as int, i + key.len() + dec_digits(v as int).len() + 1),
        ),
{
    reveal_strlit("\n");
    lemma_dec_digits(v as int);
    let dd = dec_digits(v as int);
    let ds = i + key.len();
    let de = ds + dd.len();
    assert forall|x: int| i <= x < de + 1 implies t[x] == (key + dd + "\n"@)[x - i] by {
        assert(t.subrange(i, de + 1)[x - i] == t[x]);
    }
    assert(t.subrange(i, ds) =~= key);
    assert(t.subrange(ds, de) =~= dd);
    assert(t[de] == '\n');
    assert(!is_digit('\n'));
    lemma_digits_end_run(t, ds, de);
    assert(digits_value(t.subrange(ds, de)) == v as int);
}

/// The session record is faithful: rendering a start time and reading the
/// record back yields the same start time, whether or not a pomodoro was
/// running.
pub proof fn lemma_state_round_trip(started_at: Option<u64>)
    ensures
        spec_parse_state(state_chars(started_at)) == started_at,
{
    let t = state_chars(started_at);
    let key = "started_at = "@;
    reveal_strlit("started_at = ");
    reveal_strlit("\n");
    match started_at {
        None => {
            assert(spec_parse_field(t, 0, key) is None);
        },
        Some(n) => {
            lemma_dec_digits(n as int);
            let dd = dec_digits(n as int);
            assert(t.subrange(0, key.len() + dd.len() + 1 as int) =~= key + dd + "\n"@);
            lemma_parse_field_render(t, 0, key, n);
        },
    }
}

/// The configuration record is faithful to whole-minute schedules: rendering
/// a schedule whose durations are whole minutes and reading the record back
/// yields the same schedule. (The record keeps only whole truncated minutes,
/// so nothing finer can survive it.)
pub proof fn lemma_config_round_trip(c: Config)
    requires
        c.work_duration as int % 60 == 0,
        c.rest_duration as int % 60 == 0,
    ensures
        spec_parse_config(config_chars(c)) == Some(c),
{
    let t = config_chars(c);
    let k1 = "count = "@;
    let k2 = "duration = "@;
    let k3 = "rest = "@;
    let v1 = c.repeat_count;
    let wm = c.work_duration as int / 60;
    let rm = c.rest_duration as int / 60;
    assert(c.work_duration as int == 60 * wm + c.work_duration as int % 60);
    assert(c.rest_duration as int == 60 * rm + c.rest_duration as int % 60);
    assert(0 <= wm <= u64::MAX && 0 <= rm <= u64::MAX);
    let v2 = wm as u64;
    let v3 = rm as u64;
    let d1 = dec_digits(v1 as int);
    let d2 = dec_digits(wm);
    let d3 = dec_digits(rm);
    let nl = "\n"@;
    let i1 = k1.len() + d1.len() + 1;
    let i2 = i1 + k2.len() + d2.len() + 1;
    let i3 = i2 + k3.len() + d3.len() + 1;
    reveal_strlit("\n");
    assert(t =~= (k1 + d1 + nl) + (k2 + d2 + nl) + (k3 + d3 + nl));
    assert(t.len() == i3);
    assert(t.subrange(0, i1 as int) =~= k1 + d1 + nl);
    lemma_parse_field_render(t, 0, k1, v1);
    assert(t.subrange(i1 as int, i2 as int) =~= k2 + d2 + nl);
    lemma_parse_field_render(t, i1 as int, k2, v2);
    assert(t.subrange(i2 as int, i3 as int) =~= k3 + d3 + nl);
    lemma_parse_field_render(t, i2 as int, k3, v3);
    assert(wm * 60 == c.work_duration && rm * 60 == c.rest_duration);
}

/// Minutes no greater than the largest whole number of minutes fit in 64
/// bits of seconds.
proof fn lemma_minutes_fit(m: int)
    requires
        0 <= m <= u64::MAX as int / 60,
    ensures
        m * 60 <= u64::MAX,
{
    assert(u64::MAX as int == 60 * (u64::MAX as int / 60) + u64::MAX as int % 60);
    assert(m * 60 <= 60 * (u64::MAX as int / 60));
}

/// Minutes beyond the largest whole number of minutes overflow 64 bits of
/// seconds.
proof fn lemma_minutes_overflow(dur: int, rest: int)
    requires
        0 <= dur,
        0 <= rest,
        dur > u64::MAX as int / 60 || rest > u64::MAX as int / 60,
    ensures
        dur * 60 > u64::MAX || rest * 60 > u64::MAX,
{
    assert(u64::MAX as int == 60 * (u64::MAX as int / 60) + u64::MAX as int % 60);
    if dur > u64::MAX as int / 60 {
        assert(dur * 60 >= 60 * (u64::MAX as int / 60) + 60);
    } else {
        assert(rest * 60 >= 60 * (u64::MAX as int / 60) + 60);
    }
}

} // verus!
