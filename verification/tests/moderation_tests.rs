use master::moderation::{
    action_from, answer_status, blocked_files, case_status_for, freeze_info, page_limit,
    reporter_stats, BlockAction, BlockedFileRow, GrantRow, PunishmentRow, ReporterStats,
};
use master::time::UtcTime;

fn at(secs: i64) -> UtcTime {
    UtcTime { secs, nanos: 0 }
}

fn punishment(expires: Option<i64>, revoked: Option<i64>) -> PunishmentRow {
    PunishmentRow {
        id: 1,
        user_id: 2,
        kind: "ban".into(),
        reason: "r".into(),
        actor_id: None,
        actor_label: "Console".into(),
        server_id: None,
        created_at: at(0),
        expires_at: expires.map(at),
        revoked_at: revoked.map(at),
        revoked_by: None,
        acknowledged_at: None,
        rule_id: None,
        rule_code: None,
    }
}

#[test]
fn a_punishment_holds_until_it_expires_or_is_revoked() {
    let now = at(1_000);
    assert!(punishment(None, None).active_at(now));
    assert!(punishment(Some(1_001), None).active_at(now));
    assert!(!punishment(Some(1_000), None).active_at(now));
    assert!(!punishment(None, Some(10)).active_at(now));
    assert!(punishment(None, None).active());
    assert!(!punishment(Some(1), None).active());
}

fn grant(consumed: bool, revoked: bool, accepted: Option<bool>, expires: i64) -> GrantRow {
    GrantRow {
        id: 1,
        actor_id: 2,
        target_id: 3,
        reason: "support".into(),
        created_at: at(0),
        expires_at: at(expires),
        consumed_at: if consumed { Some(at(5)) } else { None },
        revoked_at: if revoked { Some(at(5)) } else { None },
        accepted,
    }
}

#[test]
fn a_grant_reports_where_it_stands() {
    let now = at(100);
    assert_eq!(grant(true, true, Some(false), 0).status_at(now), "consumed");
    assert_eq!(grant(false, true, Some(true), 200).status_at(now), "declined");
    assert_eq!(grant(false, false, Some(false), 200).status_at(now), "declined");
    assert_eq!(grant(false, false, Some(true), 99).status_at(now), "expired");
    assert_eq!(grant(false, false, Some(true), 100).status_at(now), "accepted");
    assert_eq!(grant(false, false, None, 200).status_at(now), "pending");
    assert_eq!(grant(false, false, None, 1).status(), "expired");
}

#[test]
fn unknown_block_actions_delete() {
    assert_eq!(action_from("flag"), BlockAction::Flag);
    assert_eq!(action_from("block_launch"), BlockAction::BlockLaunch);
    assert_eq!(action_from("delete"), BlockAction::Delete);
    assert_eq!(action_from("Flag"), BlockAction::Delete);
    let rows = vec![BlockedFileRow {
        id: 1,
        pattern: Some("*.dll".into()),
        sha1: None,
        reason: "cheat".into(),
        action: "flag".into(),
        server_id: None,
        sort_order: 0,
        created_at: at(0),
        created_by: None,
    }];
    let out = blocked_files(&rows);
    assert_eq!(out.len(), 1);
    assert_eq!(out[0].pattern.as_deref(), Some("*.dll"));
    assert_eq!(out[0].action, BlockAction::Flag);
    assert_eq!(out[0].reason, "cheat");
}

#[test]
fn a_freeze_by_nobody_is_by_the_console() {
    let f = freeze_info(&"afk".to_string(), at(7), &None);
    assert_eq!(f.frozen_by, "Console");
    assert_eq!(f.reason, "afk");
    let f = freeze_info(&"x".to_string(), at(7), &Some("Admin".into()));
    assert_eq!(f.frozen_by, "Admin");
}

#[test]
fn verdicts_and_answers_map_to_statuses() {
    assert_eq!(case_status_for("confirmed"), "resolved");
    assert_eq!(case_status_for("rejected"), "rejected");
    assert_eq!(case_status_for("duplicate"), "rejected");
    assert_eq!(answer_status(true), "accepted");
    assert_eq!(answer_status(false), "declined");
}

#[test]
fn page_sizes_stay_within_bounds() {
    assert_eq!(page_limit(0), 1);
    assert_eq!(page_limit(-7), 1);
    assert_eq!(page_limit(50), 50);
    assert_eq!(page_limit(1_000), 200);
}

#[test]
fn reporter_counts_follow_the_verdicts() {
    let v = vec![Some("confirmed".to_string()), None, Some("rejected".to_string()), Some("confirmed".to_string()), Some("other".to_string())];
    assert_eq!(reporter_stats(&v), ReporterStats { total: 5, confirmed: 2, rejected: 1 });
    assert_eq!(reporter_stats(&[]), ReporterStats { total: 0, confirmed: 0, rejected: 0 });
}
