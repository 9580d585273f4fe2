//! Server restart schedules: cron fields, fixed times of day, fixed
//! intervals, and the decision taken when a schedule falls due.

use crate::text::{
    chars_of, contains_char, lemma_split_nonempty, parse_u32, parse_u32_spec, split_char,
    split_spec, split_whitespace, split_ws_spec, trim, trim_spec,
};
use crate::text::chars_eq;
use crate::time::{cal_fields, later, minutes_between, minutes_since, plus_minutes, utc_calendar, UtcTime};
use chrono::Timelike;
use vstd::prelude::*;

verus! {

// ---------------------------------------------------------------------------
// Cron fields
// ---------------------------------------------------------------------------

/// What a single field decides without looking at `,`: `*`, a number, or a
/// step `x/n`. `None` means that none of these forms applies.
pub open spec fn field_head(e: Seq<char>, val: u32) -> Option<bool> {
    if e == seq!['*'] {
        Some(true)
    } else if parse_u32_spec(e) is Some {
        Some(parse_u32_spec(e)->0 == val)
    } else if e.contains('/') && split_spec(e, '/').len() == 2 && parse_u32_spec(
        split_spec(e, '/')[1],
    ) is Some {
        let step = parse_u32_spec(split_spec(e, '/')[1])->0;
        Some(step > 0 && val % step == 0)
    } else {
        None
    }
}

/// Whether the cron field `e` admits `val`: `*` admits everything, a number
/// admits itself, `x/n` admits the multiples of a non-zero `n` (whatever `x`
/// is), and a `,`-separated list admits what one of its items admits.
pub open spec fn field_matches_spec(e: Seq<char>, val: u32) -> bool {
    match field_head(e, val) {
        Some(b) => b,
        None => e.contains(',') && exists|k: int|
            0 <= k < split_spec(e, ',').len() && field_head(#[trigger] split_spec(e, ',')[k], val)
                == Some(true),
    }
}

proof fn lemma_split_pieces_lack(s: Seq<char>, c: char)
    ensures
        forall|k: int| 0 <= k < split_spec(s, c).len() ==> !(#[trigger] split_spec(s, c)[k]).contains(c),
    decreases s.len(),
{
    if s.len() > 0 {
        lemma_split_pieces_lack(s.drop_last(), c);
        lemma_split_nonempty(s.drop_last(), c);
        let r = split_spec(s.drop_last(), c);
        if s.last() != c {
            let p = r.last().push(s.last());
            assert forall|i: int| 0 <= i < p.len() implies p[i] != c by {
                if i < r.last().len() {
                    assert(r.last()[i] == p[i]);
                    assert(!r[r.len() - 1].contains(c));
                }
            }
            assert(!p.contains(c));
        }
        assert(!Seq::<char>::empty().contains(c));
    } else {
        assert(!Seq::<char>::empty().contains(c));
    }
}

/// A list field admits a value exactly when one of its items, read as a
/// field of its own, admits it.
pub proof fn lemma_list_field_is_any_item(e: Seq<char>, val: u32)
    requires
        field_head(e, val) is None,
        e.contains(','),
    ensures
        field_matches_spec(e, val) <==> exists|k: int|
            0 <= k < split_spec(e, ',').len() && field_matches_spec(
                #[trigger] split_spec(e, ',')[k],
                val,
            ),
{
    lemma_split_pieces_lack(e, ',');
}

/// The decision of `field_head`, computed.
fn field_head_exec(e: &[char], val: u32) -> (r: Option<bool>)
    ensures
        r == field_head(e@, val),
{
    if e.len() == 1 && e[0] == '*' {
        assert(e@ =~= seq!['*']);
        return Some(true);
    }
    assert(e@ != seq!['*']) by {
        if e@ == seq!['*'] {
            assert(e@.len() == 1 && e@[0] == '*');
        }
    }
    if let Some(num) = parse_u32(e) {
        return Some(num == val);
    }
    if contains_char(e, '/') {
        let parts = split_char(e, '/');
        if parts.len() == 2 {
            if let Some(step) = parse_u32(parts[1].as_slice()) {
                return Some(step > 0 && val % step == 0);
            }
        }
    }
    None
}

/// Whether the cron field `expr` admits `val`.
pub fn field_matches(expr: &str, val: u32) -> (r: bool)
    ensures
        r == field_matches_spec(expr@, val),
{
    let e = chars_of(expr);
    field_matches_chars(e.as_slice(), val)
}

fn field_matches_chars(e: &[char], val: u32) -> (r: bool)
    ensures
        r == field_matches_spec(e@, val),
{
    if let Some(b) = field_head_exec(e, val) {
        return b;
    }
    if contains_char(e, ',') {
        let parts = split_char(e, ',');
        let mut i: usize = 0;
        while i < parts.len()
            invariant
                i <= parts@.len(),
                field_head(e@, val) is None,
                e@.contains(','),
                parts@.len() == split_spec(e@, ',').len(),
                forall|k: int| 0 <= k < parts@.len() ==> #[trigger] parts@[k]@ == split_spec(e@, ',')[k],
                forall|k: int| 0 <= k < i ==> field_head(#[trigger] split_spec(e@, ',')[k], val) != Some(true),
            decreases parts.len() - i,
        {
            let h = field_head_exec(parts[i].as_slice(), val);
            assert(parts@[i as int]@ == split_spec(e@, ',')[i as int]);
            if h == Some(true) {
                assert(field_head(split_spec(e@, ',')[i as int], val) == Some(true));
                return true;
            }
            i = i + 1;
        }
    }
    false
}

// ---------------------------------------------------------------------------
// Cron expressions
// ---------------------------------------------------------------------------

/// How far ahead a cron expression is searched: one week, minute by minute.
pub const CRON_HORIZON_MINUTES: i64 = 7 * 24 * 60;

/// Whether the five fields `parts` admit the minute of the instant `secs`.
pub open spec fn cron_admits(parts: Seq<Seq<char>>, secs: i64) -> bool {
    let f = cal_fields(secs);
    &&& field_matches_spec(parts[0], f.0)
    &&& field_matches_spec(parts[1], f.1)
    &&& field_matches_spec(parts[2], f.2)
    &&& field_matches_spec(parts[3], f.3)
    &&& field_matches_spec(parts[4], f.4)
}

/// The first offset `k` in `from..=CRON_HORIZON_MINUTES` whose minute
/// `secs + 60 k` the fields admit.
pub open spec fn cron_first_from(parts: Seq<Seq<char>>, secs: i64, from: int) -> Option<int>
    decreases CRON_HORIZON_MINUTES + 1 - from,
{
    if from > CRON_HORIZON_MINUTES || from < 1 {
        None
    } else if cron_admits(parts, (secs + 60 * from) as i64) {
        Some(from)
    } else {
        cron_first_from(parts, secs, from + 1)
    }
}

/// The next instant after `now`, whole minutes ahead and at most a week
/// ahead, whose minute the first five whitespace-separated fields of `expr`
/// admit (minute, hour, day of month, month, day of week). Fewer than five
/// fields admit nothing; fields past the fifth are ignored.
pub open spec fn cron_next_spec(expr: Seq<char>, now: UtcTime) -> Option<UtcTime> {
    let parts = split_ws_spec(expr);
    if parts.len() < 5 {
        None
    } else {
        match cron_first_from(parts, now.secs, 1) {
            Some(k) => Some(plus_minutes(now, k)),
            None => None,
        }
    }
}

proof fn lemma_cron_first_bounds(parts: Seq<Seq<char>>, secs: i64, from: int)
    ensures
        cron_first_from(parts, secs, from) matches Some(k) ==> from <= k <= CRON_HORIZON_MINUTES
            && k >= 1,
    decreases CRON_HORIZON_MINUTES + 1 - from,
{
    if from <= CRON_HORIZON_MINUTES && from >= 1 && !cron_admits(parts, (secs + 60 * from) as i64) {
        lemma_cron_first_bounds(parts, secs, from + 1);
    }
}

/// Evaluates a cron expression from `now`.
pub fn parse_cron(expr: &[char], now: UtcTime) -> (r: Option<UtcTime>)
    requires
        now.wf(),
    ensures
        r == cron_next_spec(expr@, now),
{
    let parts = split_whitespace(expr);
    let ghost ps = split_ws_spec(expr@);
    if parts.len() < 5 {
        return None;
    }
    let mut k: i64 = 1;
    while k <= CRON_HORIZON_MINUTES
        invariant
            1 <= k <= CRON_HORIZON_MINUTES + 1,
            now.wf(),
            ps == split_ws_spec(expr@),
            ps.len() >= 5,
            parts@.len() == ps.len(),
            forall|i: int| 0 <= i < parts@.len() ==> #[trigger] parts@[i]@ == ps[i],
            cron_first_from(ps, now.secs, 1) == cron_first_from(ps, now.secs, k as int),
        decreases CRON_HORIZON_MINUTES + 1 - k,
    {
        let secs = now.secs + k * 60;
        let f = utc_calendar(secs);
        assert(parts@[0]@ == ps[0] && parts@[1]@ == ps[1] && parts@[2]@ == ps[2] && parts@[3]@
            == ps[3] && parts@[4]@ == ps[4]);
        if field_matches_chars(parts[0].as_slice(), f.0) && field_matches_chars(
            parts[1].as_slice(),
            f.1,
        ) && field_matches_chars(parts[2].as_slice(), f.2) && field_matches_chars(
            parts[3].as_slice(),
            f.3,
        ) && field_matches_chars(parts[4].as_slice(), f.4) {
            return Some(UtcTime { secs, nanos: now.nanos });
        }
        k = k + 1;
    }
    None
}

// ---------------------------------------------------------------------------
// Times of day
// ---------------------------------------------------------------------------

/// The `(hour, minute)` that `chrono::NaiveTime::parse_from_str(s, "%H:%M")`
/// reads from `s`, if it accepts it.
pub uninterp spec fn chrono_parse_hm(s: Seq<char>) -> Option<(u32, u32)>;

/// `NaiveTime::parse_from_str(s, "%H:%M")`, reduced to hour and minute.
///
/// The contract claims only that the result is chrono's (named
/// `chrono_parse_hm`) and that an accepted time has an hour below 24 and a
/// minute below 60; which strings chrono accepts is left unsaid.
#[verifier::external_body]
fn parse_hour_minute(s: &[char]) -> (r: Option<(u32, u32)>)
    ensures
        r == chrono_parse_hm(s@),
        r matches Some(hm) ==> hm.0 < 24 && hm.1 < 60,
{
    let text: String = s.iter().collect();
    match chrono::NaiveTime::parse_from_str(&text, "%H:%M") {
        Ok(t) => Some((t.hour(), t.minute())),
        Err(_) => None,
    }
}

/// The next occurrence of the time of day `hm` strictly after `now`: today
/// if it is still ahead, tomorrow otherwise.
pub open spec fn at_candidate(now: UtcTime, hm: (u32, u32)) -> int {
    let day = now.secs / 86400;
    let sod = now.secs % 86400;
    let t = hm.0 * 3600 + hm.1 * 60;
    if t > sod {
        day * 86400 + t
    } else {
        (day + 1) * 86400 + t
    }
}

/// The earliest next occurrence among the times in `times` that parse (each
/// trimmed first) to a valid time of day; `None` when none does.
pub open spec fn earliest_at(times: Seq<Seq<char>>, now: UtcTime) -> Option<int>
    decreases times.len(),
{
    if times.len() == 0 {
        None
    } else {
        let rest = earliest_at(times.drop_last(), now);
        match chrono_parse_hm(trim_spec(times.last())) {
            Some(hm) if hm.0 < 24 && hm.1 < 60 => {
                let c = at_candidate(now, hm);
                match rest {
                    None => Some(c),
                    Some(r) => Some(
                        if c < r {
                            c
                        } else {
                            r
                        },
                    ),
                }
            },
            _ => rest,
        }
    }
}

/// The views of a sequence of strings.
pub open spec fn strings_view(s: Seq<String>) -> Seq<Seq<char>> {
    Seq::new(s.len(), |i: int| s[i]@)
}

proof fn lemma_earliest_bounds(times: Seq<Seq<char>>, now: UtcTime)
    requires
        now.wf(),
    ensures
        earliest_at(times, now) matches Some(c) ==> now.secs < c <= now.secs + 86400,
    decreases times.len(),
{
    if times.len() > 0 {
        lemma_earliest_bounds(times.drop_last(), now);
        match chrono_parse_hm(trim_spec(times.last())) {
            Some(hm) => {
                if hm.0 < 24 && hm.1 < 60 {
                    let day = now.secs / 86400;
                    let sod = now.secs % 86400;
                    assert(now.secs == day * 86400 + sod);
                    assert(0 <= sod < 86400);
                }
            },
            None => {},
        }
    }
}

/// The next occurrence among fixed times of day `"HH:MM"`.
pub fn parse_at_times(times: &[String], now: UtcTime) -> (r: Option<UtcTime>)
    requires
        now.wf(),
    ensures
        r == (match earliest_at(strings_view(times@), now) {
            Some(c) => Some(UtcTime { secs: c as i64, nanos: 0 }),
            None => None,
        }),
{
    let ghost tv = strings_view(times@);
    let mut day: i64 = now.secs / 86400;
    let mut sod: i64 = now.secs % 86400;
    if sod < 0 {
        sod = sod + 86400;
        day = day - 1;
    }
    assert(day == now.secs / 86400 && sod == now.secs % 86400);
    let mut best: Option<i64> = None;
    let mut i: usize = 0;
    while i < times.len()
        invariant
            i <= times@.len(),
            now.wf(),
            tv == strings_view(times@),
            day == now.secs / 86400,
            sod == now.secs % 86400,
            match earliest_at(tv.take(i as int), now) {
                Some(c) => best == Some(c as i64),
                None => best is None,
            },
        decreases times.len() - i,
    {
        proof {
            assert(tv.take(i + 1).drop_last() =~= tv.take(i as int));
            assert(tv.take(i + 1).last() == times@[i as int]@);
            lemma_earliest_bounds(tv.take(i as int), now);
        }
        let t = chars_of(times[i].as_str());
        let trimmed = trim(t.as_slice());
        match parse_hour_minute(trimmed.as_slice()) {
            None => {},
            Some(hm) => {
                let tsec: i64 = (hm.0 as i64) * 3600 + (hm.1 as i64) * 60;
                let c: i64 = if tsec > sod {
                    day * 86400 + tsec
                } else {
                    (day + 1) * 86400 + tsec
                };
                assert(c == at_candidate(now, hm));
                best =
                match best {
                    None => Some(c),
                    Some(b) => Some(
                        if c < b {
                            c
                        } else {
                            b
                        },
                    ),
                };
            },
        }
        i = i + 1;
    }
    assert(tv.take(times@.len() as int) =~= tv);
    match best {
        Some(c) => Some(UtcTime { secs: c, nanos: 0 }),
        None => None,
    }
}

// ---------------------------------------------------------------------------
// Next run
// ---------------------------------------------------------------------------

/// The view of an optional string slice.
pub open spec fn opt_str_view(o: Option<&str>) -> Option<Seq<char>> {
    match o {
        Some(s) => Some(s@),
        None => None,
    }
}

/// When a schedule runs next, after `now`. A positive interval wins; then
/// times of day, if any parse; then a non-blank cron expression, if it
/// admits a minute within a week; otherwise there is no next run.
pub open spec fn next_run_spec(
    cron_expr: Option<Seq<char>>,
    at_times: Option<Seq<Seq<char>>>,
    interval_minutes: Option<i32>,
    now: UtcTime,
) -> Option<UtcTime> {
    if interval_minutes is Some && interval_minutes->0 > 0 {
        Some(plus_minutes(now, interval_minutes->0 as int))
    } else if at_times is Some && at_times->0.len() > 0 && earliest_at(at_times->0, now) is Some {
        Some(UtcTime { secs: earliest_at(at_times->0, now)->0 as i64, nanos: 0 })
    } else if cron_expr is Some && trim_spec(cron_expr->0).len() > 0 && cron_next_spec(
        trim_spec(cron_expr->0),
        now,
    ) is Some {
        cron_next_spec(trim_spec(cron_expr->0), now)
    } else {
        None
    }
}

/// A time of day that reads, once trimmed, as a valid `HH:MM`.
pub open spec fn time_parses(t: Seq<char>) -> bool {
    chrono_parse_hm(trim_spec(t)) matches Some(hm) && hm.0 < 24 && hm.1 < 60
}

/// The times of day give a next run exactly when one of them parses.
pub proof fn lemma_earliest_exists_iff_some_parses(times: Seq<Seq<char>>, now: UtcTime)
    ensures
        earliest_at(times, now) is Some <==> exists|i: int| 0 <= i < times.len() && time_parses(#[trigger] times[i]),
    decreases times.len(),
{
    if times.len() > 0 {
        let rest = times.drop_last();
        lemma_earliest_exists_iff_some_parses(rest, now);
        if exists|i: int| 0 <= i < rest.len() && time_parses(#[trigger] rest[i]) {
            let i = choose|i: int| 0 <= i < rest.len() && time_parses(#[trigger] rest[i]);
            assert(times[i] == rest[i]);
        }
        if exists|i: int| 0 <= i < times.len() && time_parses(#[trigger] times[i]) {
            let i = choose|i: int| 0 <= i < times.len() && time_parses(#[trigger] times[i]);
            if i < times.len() - 1 {
                assert(rest[i] == times[i]);
            }
        }
    }
}

/// Times of day of which none parses are passed over: the next run is what
/// it would be without them, from the interval or else the cron
/// expression. Where one parses (and no interval is set), it decides.
pub proof fn lemma_unparsed_times_fall_through(
    cron_expr: Option<Seq<char>>,
    at_times: Seq<Seq<char>>,
    interval_minutes: Option<i32>,
    now: UtcTime,
)
    ensures
        (forall|i: int| 0 <= i < at_times.len() ==> !time_parses(#[trigger] at_times[i]))
            ==> next_run_spec(cron_expr, Some(at_times), interval_minutes, now) == next_run_spec(
            cron_expr,
            None,
            interval_minutes,
            now,
        ),
        !(interval_minutes matches Some(m) && m > 0) && (exists|i: int|
            0 <= i < at_times.len() && time_parses(#[trigger] at_times[i])) ==> next_run_spec(
            cron_expr,
            Some(at_times),
            interval_minutes,
            now,
        ) is Some,
{
    lemma_earliest_exists_iff_some_parses(at_times, now);
}

/// Without an interval or times of day, the next run is the cron
/// expression's, trimmed, if it is not blank.
pub proof fn lemma_cron_decides_alone(cron: Seq<char>, interval_minutes: Option<i32>, now: UtcTime)
    requires
        !(interval_minutes matches Some(m) && m > 0),
        trim_spec(cron).len() > 0,
    ensures
        next_run_spec(Some(cron), None, interval_minutes, now) == cron_next_spec(trim_spec(cron), now),
{
}

/// The next run of a schedule. Whatever it returns lies strictly after
/// `now`, and no further ahead than the interval, one day for times of day,
/// or one week for a cron expression.
pub fn compute_next_run(
    cron_expr: Option<&str>,
    at_times: Option<&[String]>,
    interval_minutes: Option<i32>,
    now: UtcTime,
) -> (r: Option<UtcTime>)
    requires
        now.wf(),
    ensures
        r == next_run_spec(
            opt_str_view(cron_expr),
            match at_times {
                Some(t) => Some(strings_view(t@)),
                None => None,
            },
            interval_minutes,
            now,
        ),
        r matches Some(t) ==> later(t, now) && t.secs <= now.secs + (if interval_minutes
            is Some && interval_minutes->0 > 0 {
            interval_minutes->0 * 60
        } else {
            CRON_HORIZON_MINUTES * 60
        }),
{
    if let Some(mins) = interval_minutes {
        if mins > 0 {
            return Some(UtcTime { secs: now.secs + (mins as i64) * 60, nanos: now.nanos });
        }
    }
    if let Some(times) = at_times {
        if times.len() > 0 {
            proof {
                lemma_earliest_bounds(strings_view(times@), now);
            }
            if let Some(next) = parse_at_times(times, now) {
                return Some(next);
            }
        }
    }
    if let Some(expr) = cron_expr {
        let e = chars_of(expr);
        let t = trim(e.as_slice());
        if t.len() > 0 {
            proof {
                lemma_cron_first_bounds(split_ws_spec(t@), now.secs, 1);
            }
            if let Some(next) = parse_cron(t.as_slice(), now) {
                return Some(next);
            }
        }
    }
    None
}

// ---------------------------------------------------------------------------
// Falling due
// ---------------------------------------------------------------------------

/// A row of `restart_schedules`. Identifiers are the 128-bit values of the
/// row's UUIDs.
#[derive(Clone, Debug)]
pub struct RestartScheduleRow {
    pub id: u128,
    pub game_server_id: u128,
    pub cron_expr: Option<String>,
    pub at_times: Option<Vec<String>>,
    pub interval_minutes: Option<i32>,
    pub notice_minutes: i32,
    pub online_policy: String,
    pub max_defer_minutes: i32,
    pub active: bool,
    pub last_run_at: Option<UtcTime>,
    pub next_run_at: Option<UtcTime>,
    pub created_at: UtcTime,
}

/// A schedule falls due once it is active and its next run is not after
/// `now`.
pub open spec fn is_due_spec(s: RestartScheduleRow, now: UtcTime) -> bool {
    s.active && (s.next_run_at matches Some(t) && !later(t, now))
}

/// Whether the scheduler acts on a schedule at `now`.
pub fn is_due(s: &RestartScheduleRow, now: UtcTime) -> (r: bool)
    ensures
        r == is_due_spec(*s, now),
{
    s.active && match s.next_run_at {
        Some(t) => !(t.secs > now.secs || (t.secs == now.secs && t.nanos > now.nanos)),
        None => false,
    }
}

/// What to do with a schedule that has fallen due.
#[derive(Clone, Debug, PartialEq, Eq)]
pub enum RestartStep {
    /// Players are online and the policy lets the restart wait: move the
    /// next run this far and do nothing else.
    Defer { next_run_at: UtcTime },
    /// Record the run, set the next one, warn the players and restart the
    /// server once `notice_secs` have passed.
    Restart { last_run_at: UtcTime, next_run_at: Option<UtcTime>, notice_secs: u32 },
}

/// The longest notice, in minutes, whose seconds still fit the `i32`
/// arithmetic the notice is computed with.
pub const MAX_NOTICE_MINUTES: i32 = 35_791_394;

/// Whether an online policy asks to wait for players to leave.
pub open spec fn policy_defers(p: Seq<char>) -> bool {
    p == seq!['d', 'e', 'f', 'e', 'r']
}

/// The decision for a due schedule: with the `defer` policy and players
/// online, a restart that has not yet waited `max_defer_minutes` past its
/// planned time is put off by five minutes. Otherwise it runs now, the next
/// run is computed from now, and players get `notice_minutes` of warning
/// (none when negative).
pub open spec fn plan_restart_spec(s: RestartScheduleRow, now: UtcTime, online: nat) -> RestartStep {
    let planned = match s.next_run_at {
        Some(t) => t,
        None => now,
    };
    if policy_defers(s.online_policy@) && online > 0 && minutes_between(now, planned)
        < s.max_defer_minutes {
        RestartStep::Defer { next_run_at: plus_minutes(now, 5) }
    } else {
        RestartStep::Restart {
            last_run_at: now,
            next_run_at: next_run_spec(
                match s.cron_expr {
                    Some(e) => Some(e@),
                    None => None,
                },
                match s.at_times {
                    Some(t) => Some(strings_view(t@)),
                    None => None,
                },
                s.interval_minutes,
                now,
            ),
            notice_secs: (if s.notice_minutes < 0 {
                0
            } else {
                s.notice_minutes * 60
            }) as u32,
        }
    }
}

/// With the `defer` policy, a restart that has not yet waited
/// `max_defer_minutes` past its planned time is put off five minutes as
/// soon as one player is online, and however many are: only whether anyone
/// is online counts.
pub proof fn lemma_players_online_defer(s: RestartScheduleRow, now: UtcTime, online: nat, more: nat)
    requires
        policy_defers(s.online_policy@),
        online > 0,
        more > 0,
        minutes_between(
            now,
            match s.next_run_at {
                Some(t) => t,
                None => now,
            },
        ) < s.max_defer_minutes,
    ensures
        plan_restart_spec(s, now, online) == (RestartStep::Defer { next_run_at: plus_minutes(now, 5) }),
        plan_restart_spec(s, now, online) == plan_restart_spec(s, now, more),
{
}

/// With nobody online, with any other policy, or once the restart has
/// waited `max_defer_minutes` past its planned time, a due restart runs
/// now: the run is recorded at `now`, players get `notice_minutes` of
/// warning (none when negative) and the next run is computed from `now`.
pub proof fn lemma_restart_runs_when_not_deferred(s: RestartScheduleRow, now: UtcTime, online: nat)
    requires
        online == 0 || !policy_defers(s.online_policy@) || minutes_between(
            now,
            match s.next_run_at {
                Some(t) => t,
                None => now,
            },
        ) >= s.max_defer_minutes,
        s.notice_minutes <= MAX_NOTICE_MINUTES,
    ensures
        plan_restart_spec(s, now, online) matches RestartStep::Restart {
            last_run_at,
            next_run_at,
            notice_secs,
        } && last_run_at == now && notice_secs == (if s.notice_minutes < 0 {
            0
        } else {
            s.notice_minutes * 60
        }) && next_run_at == next_run_spec(
            match s.cron_expr {
                Some(e) => Some(e@),
                None => None,
            },
            match s.at_times {
                Some(t) => Some(strings_view(t@)),
                None => None,
            },
            s.interval_minutes,
            now,
        ),
{
}

/// Decides what a due schedule does, given how many players its server has
/// online.
pub fn plan_restart(s: &RestartScheduleRow, now: UtcTime, online_count: usize) -> (r: RestartStep)
    requires
        now.wf(),
        s.next_run_at matches Some(t) ==> t.wf(),
        s.notice_minutes <= MAX_NOTICE_MINUTES,
    ensures
        r == plan_restart_spec(*s, now, online_count as nat),
{
    let planned = match s.next_run_at {
        Some(t) => t,
        None => now,
    };
    let policy = chars_of(s.online_policy.as_str());
    let defer_word = vec!['d', 'e', 'f', 'e', 'r'];
    assert(defer_word@ =~= seq!['d', 'e', 'f', 'e', 'r']);
    if chars_eq(policy.as_slice(), defer_word.as_slice()) && online_count > 0 {
        let waited = minutes_since(now, planned);
        if waited < s.max_defer_minutes as i64 {
            return RestartStep::Defer { next_run_at: UtcTime { secs: now.secs + 5 * 60, nanos: now.nanos } };
        }
    }
    let cron: Option<&str> = match &s.cron_expr {
        Some(e) => Some(e.as_str()),
        None => None,
    };
    let at: Option<&[String]> = match &s.at_times {
        Some(t) => Some(t.as_slice()),
        None => None,
    };
    let next_run_at = compute_next_run(cron, at, s.interval_minutes, now);
    let notice_minutes: i32 = if s.notice_minutes < 0 {
        0
    } else {
        s.notice_minutes
    };
    RestartStep::Restart { last_run_at: now, next_run_at, notice_secs: (notice_minutes * 60) as u32 }
}

} // verus!
