use master::oauth::{
    loopback_allowed, note_after_edit, status_after_edit, OAuthApp, UrlParts, STATUS_APPROVED,
    STATUS_PENDING, STATUS_SUSPENDED,
};
use master::time::UtcTime;

fn app(status: &str, owner: Option<u128>, uris: &str, public: bool) -> OAuthApp {
    OAuthApp {
        id: 1,
        client_id: "c".into(),
        client_secret_hash: "h".into(),
        name: "App".into(),
        icon_url: None,
        description: None,
        redirect_uris: uris.into(),
        is_official: false,
        is_public: public,
        owner_id: owner,
        status: status.into(),
        allowed_scopes: "profile".into(),
        review_note: None,
        reviewed_by: None,
        reviewed_at: None,
        created_at: UtcTime { secs: 0, nanos: 0 },
        updated_at: UtcTime { secs: 0, nanos: 0 },
    }
}

#[test]
fn a_pending_app_serves_only_its_author() {
    assert!(app(STATUS_APPROVED, None, "", false).usable_by(5));
    assert!(app(STATUS_PENDING, Some(5), "", false).usable_by(5));
    assert!(!app(STATUS_PENDING, Some(5), "", false).usable_by(6));
    assert!(!app(STATUS_SUSPENDED, Some(5), "", false).usable_by(5));
    assert!(!app("rejected", Some(5), "", false).usable_by(5));
}

#[test]
fn redirect_lines_are_trimmed_and_blank_ones_dropped() {
    let a = app(STATUS_APPROVED, None, " https://app.example/cb \r\n\n  \nhttp://127.0.0.1/\n", false);
    assert_eq!(a.redirect_list(), vec!["https://app.example/cb".to_string(), "http://127.0.0.1/".to_string()]);
}

#[test]
fn redirects_match_exactly() {
    let a = app(STATUS_APPROVED, None, "https://app.example/cb", false);
    assert!(a.allows_redirect("https://app.example/cb"));
    assert!(!a.allows_redirect("https://app.example/cb.evil.tld"));
    assert!(!a.allows_redirect("https://app.example/"));
}

#[test]
fn a_public_client_may_use_any_loopback_port() {
    let a = app(STATUS_APPROVED, None, "http://127.0.0.1/\nhttp://localhost/callback", true);
    assert!(a.allows_redirect("http://127.0.0.1:53124/anything"));
    assert!(a.allows_redirect("http://localhost:8080/callback"));
    assert!(!a.allows_redirect("http://localhost:8080/other"));
    assert!(!a.allows_redirect("https://127.0.0.1:53124/"));
    assert!(!a.allows_redirect("http://example.com:53124/"));
    assert!(!a.allows_redirect("not a url"));
    let confidential = app(STATUS_APPROVED, None, "http://127.0.0.1/", false);
    assert!(!confidential.allows_redirect("http://127.0.0.1:53124/x"));
}

#[test]
fn ipv6_loopback_is_a_loopback() {
    let a = app(STATUS_APPROVED, None, "http://[::1]/", true);
    assert!(a.allows_redirect("http://[::1]:4000/cb"));
}

fn parts(scheme: &str, host: Option<&str>, path: &str) -> Option<UrlParts> {
    Some(UrlParts { scheme: scheme.into(), host: host.map(String::from), path: path.into() })
}

#[test]
fn loopback_matching_compares_scheme_host_and_path() {
    let asked = parts("http", Some("localhost"), "/cb");
    assert!(loopback_allowed(&asked, &[None, parts("http", Some("localhost"), "/")]));
    assert!(loopback_allowed(&asked, &[parts("http", Some("localhost"), "/cb")]));
    assert!(!loopback_allowed(&asked, &[parts("https", Some("localhost"), "/cb")]));
    assert!(!loopback_allowed(&asked, &[parts("http", Some("127.0.0.1"), "/cb")]));
    assert!(!loopback_allowed(&parts("http", Some("example.com"), "/cb"), &[parts("http", Some("example.com"), "/")]));
    assert!(!loopback_allowed(&None, &[parts("http", Some("localhost"), "/")]));
}

#[test]
fn an_edit_sends_the_app_back_to_approval() {
    assert_eq!(status_after_edit(false, STATUS_APPROVED), STATUS_PENDING);
    assert_eq!(status_after_edit(false, "rejected"), STATUS_PENDING);
    assert_eq!(status_after_edit(false, STATUS_SUSPENDED), STATUS_SUSPENDED);
    assert_eq!(status_after_edit(true, STATUS_APPROVED), STATUS_APPROVED);
    assert_eq!(note_after_edit(false, Some("fix the icon".into())), None);
    assert_eq!(note_after_edit(true, Some("ok".into())).as_deref(), Some("ok"));
}
