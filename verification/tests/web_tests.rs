use master::web::{cors_policy, CorsPolicy, PUBLIC_BODY_LIMIT};

#[test]
fn no_configured_origin_means_any_origin() {
    assert!(matches!(cors_policy(&[]), CorsPolicy::Permissive));
}

#[test]
fn origins_that_cannot_be_header_values_are_skipped() {
    let origins = vec![
        "https://noro.example".to_string(),
        "https://bad\nexample".to_string(),
        "https://пример.рф".to_string(),
        "x\u{7f}".to_string(),
    ];
    match cors_policy(&origins) {
        CorsPolicy::AllowList(list) => assert_eq!(list, vec!["https://noro.example".to_string(), "https://пример.рф".to_string()]),
        CorsPolicy::Permissive => panic!("a list was configured"),
    }
}

#[test]
fn a_list_of_only_bad_origins_admits_nobody() {
    match cors_policy(&["\u{1}".to_string()]) {
        CorsPolicy::AllowList(list) => assert!(list.is_empty()),
        CorsPolicy::Permissive => panic!("a list was configured"),
    }
    assert_eq!(PUBLIC_BODY_LIMIT, 8 * 1024 * 1024);
}
