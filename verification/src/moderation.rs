//! Moderation state: punishments and whether they hold, impersonation grants,
//! the file blocklist, freezes, the verdict of a case and the counts kept
//! about reporters.
//!
//! Identifiers are the 128-bit values of the rows' UUIDs.

use crate::text::str_eq;
use crate::time::{later, utc_now, UtcTime};
use vstd::prelude::*;

verus! {

/// A punishment as stored.
#[derive(Clone, Debug)]
pub struct PunishmentRow {
    pub id: u128,
    pub user_id: u128,
    pub kind: String,
    pub reason: String,
    pub actor_id: Option<u128>,
    pub actor_label: String,
    pub server_id: Option<u128>,
    pub created_at: UtcTime,
    /// `None`: forever.
    pub expires_at: Option<UtcTime>,
    pub revoked_at: Option<UtcTime>,
    pub revoked_by: Option<u128>,
    pub acknowledged_at: Option<UtcTime>,
    /// The rule it was given under; `None`: none was named.
    pub rule_id: Option<u128>,
    /// The rule's code when it was given.
    pub rule_code: Option<String>,
}

/// In force at `now`: not revoked, and forever or expiring after `now`.
pub open spec fn punishment_active(p: PunishmentRow, now: UtcTime) -> bool {
    p.revoked_at is None && match p.expires_at {
        None => true,
        Some(e) => later(e, now),
    }
}

/// A revoked punishment is not in force at any instant, whatever its
/// expiry.
pub proof fn lemma_revoked_never_active(p: PunishmentRow, now: UtcTime)
    requires
        p.revoked_at is Some,
    ensures
        !punishment_active(p, now),
{
}

/// A punishment in force is unrevoked and, if it expires, expires after
/// the instant; an unrevoked one without expiry is in force at every
/// instant.
pub proof fn lemma_active_means_unrevoked_unexpired(p: PunishmentRow, now: UtcTime)
    ensures
        punishment_active(p, now) ==> p.revoked_at is None && (p.expires_at matches Some(e) ==> later(
            e,
            now,
        )),
        p.revoked_at is None && p.expires_at is None ==> punishment_active(p, now),
        p.revoked_at is None && (p.expires_at matches Some(e) && later(e, now)) ==> punishment_active(
            p,
            now,
        ),
{
}

/// A punishment out of force stays out of force: no later instant brings
/// it back.
pub proof fn lemma_inactive_stays_inactive(p: PunishmentRow, t1: UtcTime, t2: UtcTime)
    requires
        !punishment_active(p, t1),
        !later(t1, t2),
    ensures
        !punishment_active(p, t2),
{
}

fn is_later(a: UtcTime, b: UtcTime) -> (r: bool)
    ensures
        r == later(a, b),
{
    a.secs > b.secs || (a.secs == b.secs && a.nanos > b.nanos)
}

impl PunishmentRow {
    /// Whether the punishment is in force at `now`.
    pub fn active_at(&self, now: UtcTime) -> (r: bool)
        ensures
            r == punishment_active(*self, now),
    {
        self.revoked_at.is_none() && match self.expires_at {
            None => true,
            Some(e) => is_later(e, now),
        }
    }

    /// Whether the punishment is in force now; "now" comes from the clock.
    pub fn active(&self) -> (r: bool)
        ensures
            exists|now: UtcTime| #[trigger] now.valid() && r == punishment_active(*self, now),
    {
        let now = utc_now();
        let r = self.active_at(now);
        assert(now.valid() && r == punishment_active(*self, now));
        r
    }
}

/// How long a one-time impersonation grant lives, in seconds: just long
/// enough for the launcher to pick it up.
pub const GRANT_TTL_SECS: i64 = 60;

/// How long a step-up confirmation holds, in minutes: within it no second
/// confirmation is asked, or ten recovery codes would burn in ten sign-ins
/// where no passkey is at hand.
pub const STEP_UP_WINDOW_MINS: i64 = 15;

/// How long a request for a player's logs waits for an answer, in minutes.
pub const REQUEST_TTL_MINS: i64 = 1440;

/// How long an uploaded support bundle is kept, in days.
pub const RETENTION_DAYS: i64 = 30;

/// An impersonation grant as stored.
#[derive(Clone, Debug)]
pub struct GrantRow {
    pub id: u128,
    pub actor_id: u128,
    pub target_id: u128,
    pub reason: String,
    pub created_at: UtcTime,
    pub expires_at: UtcTime,
    pub consumed_at: Option<UtcTime>,
    pub revoked_at: Option<UtcTime>,
    pub accepted: Option<bool>,
}

/// Where a grant stands at `now`, as the web page polls it: used, then
/// declined (revoked or refused), then expired, then accepted, else pending.
pub open spec fn grant_status_spec(g: GrantRow, now: UtcTime) -> Seq<char> {
    if g.consumed_at is Some {
        "consumed"@
    } else if g.revoked_at is Some || g.accepted == Some(false) {
        "declined"@
    } else if later(now, g.expires_at) {
        "expired"@
    } else if g.accepted == Some(true) {
        "accepted"@
    } else {
        "pending"@
    }
}

impl GrantRow {
    /// Where the grant stands at `now`.
    pub fn status_at(&self, now: UtcTime) -> (r: &'static str)
        ensures
            r@ == grant_status_spec(*self, now),
    {
        if self.consumed_at.is_some() {
            "consumed"
        } else if self.revoked_at.is_some() || self.accepted == Some(false) {
            "declined"
        } else if is_later(now, self.expires_at) {
            "expired"
        } else if self.accepted == Some(true) {
            "accepted"
        } else {
            "pending"
        }
    }

    /// Where the grant stands now; "now" comes from the clock.
    pub fn status(&self) -> (r: &'static str)
        ensures
            exists|now: UtcTime| #[trigger] now.valid() && r@ == grant_status_spec(*self, now),
    {
        let now = utc_now();
        let r = self.status_at(now);
        assert(now.valid() && r@ == grant_status_spec(*self, now));
        r
    }
}

/// What the launcher does with a blocked file.
#[derive(Clone, Copy, Debug, PartialEq, Eq, Structural)]
pub enum BlockAction {
    Flag,
    BlockLaunch,
    Delete,
}

/// The action a stored name stands for: `flag`, `block_launch`, and any
/// other name deletes.
pub open spec fn action_of_name(s: Seq<char>) -> BlockAction {
    if s == "flag"@ {
        BlockAction::Flag
    } else if s == "block_launch"@ {
        BlockAction::BlockLaunch
    } else {
        BlockAction::Delete
    }
}

/// The action a stored name stands for.
pub fn action_from(s: &str) -> (r: BlockAction)
    ensures
        r == action_of_name(s@),
{
    if str_eq(s, "flag") {
        BlockAction::Flag
    } else if str_eq(s, "block_launch") {
        BlockAction::BlockLaunch
    } else {
        BlockAction::Delete
    }
}

/// A blocklist rule as stored.
#[derive(Clone, Debug)]
pub struct BlockedFileRow {
    pub id: u128,
    pub pattern: Option<String>,
    pub sha1: Option<String>,
    pub reason: String,
    pub action: String,
    pub server_id: Option<u128>,
    pub sort_order: i32,
    pub created_at: UtcTime,
    pub created_by: Option<u128>,
}

/// A blocklist rule as a manifest carries it.
#[derive(Clone, Debug)]
pub struct BlockedFile {
    pub pattern: Option<String>,
    pub sha1: Option<String>,
    pub reason: String,
    pub action: BlockAction,
}

fn clone_opt(o: &Option<String>) -> (r: Option<String>)
    ensures
        r == *o,
{
    match o {
        Some(v) => Some(v.clone()),
        None => None,
    }
}

/// The rules a manifest carries for a server, in the order given (the rows
/// that apply to it, global ones included, by sort order and age).
pub fn blocked_files(rows: &[BlockedFileRow]) -> (r: Vec<BlockedFile>)
    ensures
        r@.len() == rows@.len(),
        forall|i: int|
            0 <= i < rows@.len() ==> {
                let b = #[trigger] r@[i];
                &&& b.pattern == rows@[i].pattern
                &&& b.sha1 == rows@[i].sha1
                &&& b.reason == rows@[i].reason
                &&& b.action == action_of_name(rows@[i].action@)
            },
{
    let mut out: Vec<BlockedFile> = Vec::new();
    let n = rows.len();
    for i in 0..n
        invariant
            n == rows@.len(),
            out@.len() == i,
            forall|k: int|
                0 <= k < i ==> {
                    let b = #[trigger] out@[k];
                    &&& b.pattern == rows@[k].pattern
                    &&& b.sha1 == rows@[k].sha1
                    &&& b.reason == rows@[k].reason
                    &&& b.action == action_of_name(rows@[k].action@)
                },
    {
        let r = &rows[i];
        out.push(
            BlockedFile {
                pattern: clone_opt(&r.pattern),
                sha1: clone_opt(&r.sha1),
                reason: r.reason.clone(),
                action: action_from(r.action.as_str()),
            },
        );
    }
    out
}

/// A freeze that holds, with who set it.
#[derive(Clone, Debug)]
pub struct FreezeInfo {
    pub reason: String,
    pub frozen_by: String,
    pub frozen_at: UtcTime,
}

/// The freeze a player is under, from its row: reason, when, and the name of
/// who set it, or `Console` where no player did.
pub fn freeze_info(reason: &String, frozen_at: UtcTime, frozen_by: &Option<String>) -> (r: FreezeInfo)
    ensures
        r.reason == *reason,
        r.frozen_at == frozen_at,
        r.frozen_by@ == (match frozen_by {
            Some(name) => name@,
            None => "Console"@,
        }),
{
    let by = match frozen_by {
        Some(name) => name.clone(),
        None => String::from_str("Console"),
    };
    FreezeInfo { reason: reason.clone(), frozen_by: by, frozen_at }
}

/// The status a case gets when it is closed: `confirmed` resolves it, any
/// other verdict rejects it.
pub fn case_status_for(verdict: &str) -> (r: &'static str)
    ensures
        r@ == (if verdict@ == "confirmed"@ {
            "resolved"@
        } else {
            "rejected"@
        }),
{
    if str_eq(verdict, "confirmed") {
        "resolved"
    } else {
        "rejected"
    }
}

/// The status a player's answer gives a log request.
pub fn answer_status(accepted: bool) -> (r: &'static str)
    ensures
        r@ == (if accepted {
            "accepted"@
        } else {
            "declined"@
        }),
{
    if accepted {
        "accepted"
    } else {
        "declined"
    }
}

/// The page size a listing uses: the one asked for, brought into `1..=200`.
pub fn page_limit(limit: i64) -> (r: i64)
    ensures
        r == (if limit < 1 {
            1
        } else if limit > 200 {
            200
        } else {
            limit
        }),
{
    if limit < 1 {
        1
    } else if limit > 200 {
        200
    } else {
        limit
    }
}

/// How many of a player's reports there are, and how many of their cases
/// were confirmed or rejected.
#[derive(Clone, Copy, Debug, PartialEq, Eq, Structural)]
pub struct ReporterStats {
    pub total: i64,
    pub confirmed: i64,
    pub rejected: i64,
}

/// Reports with the given verdict among `verdicts` (each report's case
/// verdict, `None` while it has none).
pub open spec fn verdict_count(verdicts: Seq<Option<String>>, v: Seq<char>) -> nat
    decreases verdicts.len(),
{
    if verdicts.len() == 0 {
        0
    } else {
        verdict_count(verdicts.drop_last(), v) + match verdicts.last() {
            Some(s) => if s@ == v {
                1nat
            } else {
                0nat
            },
            None => 0nat,
        }
    }
}

proof fn lemma_verdict_count_bound(verdicts: Seq<Option<String>>, v: Seq<char>)
    ensures
        verdict_count(verdicts, v) <= verdicts.len(),
    decreases verdicts.len(),
{
    if verdicts.len() > 0 {
        lemma_verdict_count_bound(verdicts.drop_last(), v);
    }
}

/// No report counts as both confirmed and rejected: the two counts never
/// add up to more than the reports there are.
pub proof fn lemma_verdicts_within_total(verdicts: Seq<Option<String>>)
    ensures
        verdict_count(verdicts, "confirmed"@) + verdict_count(verdicts, "rejected"@) <= verdicts.len(),
    decreases verdicts.len(),
{
    reveal_strlit("confirmed");
    reveal_strlit("rejected");
    assert("confirmed"@ != "rejected"@) by {
        assert("confirmed"@[0] != "rejected"@[0]);
    }
    if verdicts.len() > 0 {
        lemma_verdicts_within_total(verdicts.drop_last());
    }
}

fn is_verdict(o: &Option<String>, v: &str) -> (r: bool)
    ensures
        r == (match o {
            Some(s) => s@ == v@,
            None => false,
        }),
{
    match o {
        Some(s) => str_eq(s.as_str(), v),
        None => false,
    }
}

/// The counts kept about a reporter (or a reported player), from the verdict
/// of the case behind each of their reports.
pub fn reporter_stats(verdicts: &[Option<String>]) -> (r: ReporterStats)
    requires
        verdicts@.len() <= i64::MAX,
    ensures
        r.total == verdicts@.len(),
        r.confirmed == verdict_count(verdicts@, "confirmed"@),
        r.rejected == verdict_count(verdicts@, "rejected"@),
        r.confirmed + r.rejected <= r.total,
{
    proof {
        lemma_verdicts_within_total(verdicts@);
    }
    let n = verdicts.len();
    let mut confirmed: i64 = 0;
    let mut rejected: i64 = 0;
    for i in 0..n
        invariant
            n == verdicts@.len(),
            n <= i64::MAX,
            confirmed == verdict_count(verdicts@.take(i as int), "confirmed"@),
            rejected == verdict_count(verdicts@.take(i as int), "rejected"@),
    {
        proof {
            assert(verdicts@.take(i as int + 1).drop_last() =~= verdicts@.take(i as int));
            lemma_verdict_count_bound(verdicts@.take(i as int), "confirmed"@);
            lemma_verdict_count_bound(verdicts@.take(i as int), "rejected"@);
        }
        if is_verdict(&verdicts[i], "confirmed") {
            confirmed = confirmed + 1;
        }
        if is_verdict(&verdicts[i], "rejected") {
            rejected = rejected + 1;
        }
    }
    assert(verdicts@.take(n as int) =~= verdicts@);
    ReporterStats { total: n as i64, confirmed, rejected }
}

/// What a reporter is told once their report is dealt with.
#[derive(Clone, Debug)]
pub struct ReportFeedback {
    pub target_username: String,
    pub resolution: String,
}

} // verus!
