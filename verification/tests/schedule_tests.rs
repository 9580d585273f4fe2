use master::schedule::{
    compute_next_run, is_due, field_matches, parse_at_times, parse_cron, plan_restart, RestartScheduleRow,
    RestartStep,
};
use master::time::UtcTime;

/// 2024-01-01T12:00:30Z, a Monday.
const NOW: UtcTime = UtcTime { secs: 1_704_110_430, nanos: 500 };

fn chars(s: &str) -> Vec<char> {
    s.chars().collect()
}

#[test]
fn cron_fields_match_numbers_steps_and_lists() {
    assert!(field_matches("*", 17));
    assert!(field_matches("5", 5));
    assert!(!field_matches("5", 6));
    assert!(field_matches("*/15", 30));
    assert!(!field_matches("*/15", 31));
    assert!(!field_matches("*/0", 0));
    assert!(field_matches("1,2,30", 30));
    assert!(field_matches("1,*/7,3", 14));
    assert!(!field_matches("1,2", 3));
    assert!(!field_matches("x", 0));
    assert!(field_matches("+5", 5));
}

#[test]
fn cron_runs_at_the_next_matching_minute() {
    let next = parse_cron(&chars("0 * * * *"), NOW).unwrap();
    assert_eq!(next, UtcTime { secs: 1_704_114_030, nanos: 500 });
    let monday_noon = parse_cron(&chars("30 12 * * 1"), NOW).unwrap();
    assert_eq!(monday_noon.secs, 1_704_110_430 + 30 * 60);
    let next_monday = parse_cron(&chars("0 12 * * 1"), NOW).unwrap();
    assert_eq!(next_monday.secs, 1_704_110_430 + 7 * 24 * 3600);
    assert_eq!(parse_cron(&chars("0 12 * *"), NOW), None);
    assert_eq!(parse_cron(&chars("0 12 31 2 *"), NOW), None);
}

#[test]
fn times_of_day_pick_the_earliest_ahead() {
    let times = vec!["13:00".to_string(), " 11:00 ".to_string(), "bad".to_string()];
    assert_eq!(parse_at_times(&times, NOW), Some(UtcTime { secs: 1_704_114_000, nanos: 0 }));
    let tomorrow = vec!["11:00".to_string()];
    assert_eq!(parse_at_times(&tomorrow, NOW), Some(UtcTime { secs: 1_704_193_200, nanos: 0 }));
    let none = vec!["25:00".to_string()];
    assert_eq!(parse_at_times(&none, NOW), None);
}

#[test]
fn an_interval_wins_over_everything_else() {
    let times = vec!["13:00".to_string()];
    let next = compute_next_run(Some("0 * * * *"), Some(&times), Some(30), NOW).unwrap();
    assert_eq!(next, UtcTime { secs: 1_704_110_430 + 1800, nanos: 500 });
    let next = compute_next_run(Some("0 * * * *"), Some(&times), Some(0), NOW).unwrap();
    assert_eq!(next.secs, 1_704_114_000);
    let next = compute_next_run(Some("  0 * * * *  "), Some(&[]), None, NOW).unwrap();
    assert_eq!(next.secs, 1_704_114_030);
    assert_eq!(compute_next_run(Some("   "), None, Some(-5), NOW), None);
    assert_eq!(compute_next_run(None, None, None, NOW), None);
}

fn schedule(policy: &str, next_run: Option<UtcTime>) -> RestartScheduleRow {
    RestartScheduleRow {
        id: 1,
        game_server_id: 2,
        cron_expr: None,
        at_times: None,
        interval_minutes: Some(60),
        notice_minutes: 5,
        online_policy: policy.into(),
        max_defer_minutes: 30,
        active: true,
        last_run_at: None,
        next_run_at: next_run,
        created_at: UtcTime { secs: 0, nanos: 0 },
    }
}

#[test]
fn a_restart_waits_for_players_only_so_long() {
    let planned = UtcTime { secs: NOW.secs - 10 * 60, nanos: 0 };
    match plan_restart(&schedule("defer", Some(planned)), NOW, 3) {
        RestartStep::Defer { next_run_at } => assert_eq!(next_run_at.secs, NOW.secs + 300),
        other => panic!("expected a deferral, got {other:?}"),
    }
    let long_ago = UtcTime { secs: NOW.secs - 31 * 60, nanos: 0 };
    match plan_restart(&schedule("defer", Some(long_ago)), NOW, 3) {
        RestartStep::Restart { last_run_at, next_run_at, notice_secs } => {
            assert_eq!(last_run_at, NOW);
            assert_eq!(next_run_at, Some(UtcTime { secs: NOW.secs + 3600, nanos: 500 }));
            assert_eq!(notice_secs, 300);
        }
        other => panic!("expected a restart, got {other:?}"),
    }
}

#[test]
fn an_empty_server_or_a_forcing_policy_restarts_now() {
    let planned = Some(UtcTime { secs: NOW.secs - 60, nanos: 0 });
    assert!(matches!(plan_restart(&schedule("defer", planned), NOW, 0), RestartStep::Restart { .. }));
    assert!(matches!(plan_restart(&schedule("force", planned), NOW, 10), RestartStep::Restart { .. }));
    let mut s = schedule("force", planned);
    s.notice_minutes = -1;
    match plan_restart(&s, NOW, 0) {
        RestartStep::Restart { notice_secs, .. } => assert_eq!(notice_secs, 0),
        other => panic!("expected a restart, got {other:?}"),
    }
}

#[test]
fn only_active_schedules_whose_time_has_come_are_due() {
    assert!(is_due(&schedule("force", Some(NOW)), NOW));
    assert!(is_due(&schedule("force", Some(UtcTime { secs: NOW.secs - 1, nanos: 999 })), NOW));
    assert!(!is_due(&schedule("force", Some(UtcTime { secs: NOW.secs, nanos: 501 })), NOW));
    assert!(!is_due(&schedule("force", None), NOW));
    let mut off = schedule("force", Some(NOW));
    off.active = false;
    assert!(!is_due(&off, NOW));
}
