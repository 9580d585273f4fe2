use master::accounts::{
    generate_code, method_enabled, non_blank, session_minutes, unlink_outcome, username_candidate,
    AuthMethodRow, UnlinkResult, UsernameStep, MAX_USERNAME_ATTEMPTS, RECOVERY_CODE_COUNT,
    username_step, code_from_draws,
};
use master::time::UtcTime;

#[test]
fn a_method_without_a_row_is_on() {
    assert!(method_enabled(None));
    let off = AuthMethodRow { method: "discord".into(), client_id: "id".into(), client_secret: String::new(), enabled: false };
    assert!(!method_enabled(Some(&off)));
}

#[test]
fn the_primary_platform_is_never_unlinked() {
    assert_eq!(unlink_outcome(None), UnlinkResult::NotLinked);
    assert_eq!(unlink_outcome(Some(true)), UnlinkResult::Primary);
    assert_eq!(unlink_outcome(Some(false)), UnlinkResult::Removed);
}

#[test]
fn a_discord_name_is_sanitised_and_cut() {
    assert_eq!(username_candidate("Cool Player!", 0), "CoolPlayer");
    assert_eq!(username_candidate("a_very_long_discord_name", 0), "a_very_long_di");
    assert_eq!(username_candidate("Игрок", 0), "player");
    assert_eq!(username_candidate("", 0), "player");
}

#[test]
fn a_taken_name_gets_a_number_within_sixteen_characters() {
    assert_eq!(username_candidate("steve", 1), "steve1");
    assert_eq!(username_candidate("a_very_long_discord_name", 7), "a_very_long_di7");
    assert_eq!(username_candidate("a_very_long_discord_name", 42), "a_very_long_di42");
    assert_eq!(username_candidate("a_very_long_discord_name", 999), "a_very_long_d999");
    assert_eq!(username_candidate("x", MAX_USERNAME_ATTEMPTS - 1), "x999");
    let big = username_candidate("abcdefghijklmn", u32::MAX);
    assert_eq!(big, "abcdef4294967295");
    assert!(big.len() <= 16);
}

#[test]
fn recovery_codes_read_as_three_groups_of_four() {
    let alphabet = "ABCDEFGHJKMNPQRSTUVWXYZ23456789";
    for _ in 0..RECOVERY_CODE_COUNT {
        let code = generate_code();
        assert_eq!(code.len(), 14);
        for (i, c) in code.chars().enumerate() {
            if i == 4 || i == 9 {
                assert_eq!(c, '-');
            } else {
                assert!(alphabet.contains(c), "{code}");
            }
        }
    }
}

#[test]
fn blank_values_are_dropped() {
    assert_eq!(non_blank(Some("  ")), None);
    assert_eq!(non_blank(Some("")), None);
    assert_eq!(non_blank(None), None);
    assert_eq!(non_blank(Some(" admin ")), Some(" admin "));
}

#[test]
fn a_session_counts_at_least_one_minute() {
    let start = UtcTime { secs: 1_000, nanos: 0 };
    assert_eq!(session_minutes(UtcTime { secs: 1_010, nanos: 0 }, start), 1);
    assert_eq!(session_minutes(UtcTime { secs: 1_000 + 125 * 60 + 59, nanos: 0 }, start), 125);
    assert_eq!(session_minutes(UtcTime { secs: 500, nanos: 0 }, start), 1);
}

#[test]
fn grants_keep_their_order_and_scope() {
    let rows = vec![("noro.admin".to_string(), None), ("noro.fly".to_string(), Some(7u128))];
    let (names, grants) = master::accounts::grants_of(&rows);
    assert_eq!(names, vec!["noro.admin".to_string(), "noro.fly".to_string()]);
    assert_eq!(grants.len(), 2);
    assert_eq!(grants[1].permission, "noro.fly");
    assert_eq!(grants[1].server_id, Some(7));
    assert_eq!(grants[0].server_id, None);
}

#[test]
fn a_free_candidate_is_used() {
    match username_step("steve", 0, false) {
        UsernameStep::Use(c) => assert_eq!(c, "steve"),
        other => panic!("unexpected {:?}", other),
    }
    match username_step("steve", 4, false) {
        UsernameStep::Use(c) => assert_eq!(c, "steve4"),
        other => panic!("unexpected {:?}", other),
    }
}

#[test]
fn a_taken_candidate_hands_on_to_the_next() {
    match username_step("steve", 0, true) {
        UsernameStep::Check(c) => assert_eq!(c, "steve1"),
        other => panic!("unexpected {:?}", other),
    }
    match username_step("a_very_long_discord_name", 998, true) {
        UsernameStep::Check(c) => assert_eq!(c, "a_very_long_d999"),
        other => panic!("unexpected {:?}", other),
    }
}

#[test]
fn the_search_gives_up_after_the_last_attempt() {
    assert!(matches!(username_step("steve", MAX_USERNAME_ATTEMPTS - 1, true), UsernameStep::Exhausted));
    match username_step("steve", MAX_USERNAME_ATTEMPTS - 1, false) {
        UsernameStep::Use(c) => assert_eq!(c, "steve999"),
        other => panic!("unexpected {:?}", other),
    }
}

#[test]
fn following_the_steps_finds_the_first_free_name() {
    let taken = ["steve", "steve1", "steve2"];
    let mut attempt = 0u32;
    let mut candidate = username_candidate("steve", 0);
    let found = loop {
        let is_taken = taken.contains(&candidate.as_str());
        match username_step("steve", attempt, is_taken) {
            UsernameStep::Use(c) => break Some(c),
            UsernameStep::Check(c) => {
                candidate = c;
                attempt += 1;
            }
            UsernameStep::Exhausted => break None,
        }
    };
    assert_eq!(found.as_deref(), Some("steve3"));
}

#[test]
fn drawn_indices_spell_the_code() {
    let first: Vec<usize> = (0..12).collect();
    assert_eq!(code_from_draws(&first), "ABCD-EFGH-JKMN");
    assert_eq!(code_from_draws(&[30; 12]), "9999-9999-9999");
    assert_eq!(code_from_draws(&[0, 30, 22, 23, 1, 2, 3, 4, 5, 6, 7, 8]), "A9Z2-BCDE-FGHJ");
}
