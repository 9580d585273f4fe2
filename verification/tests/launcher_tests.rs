use master::launcher::{
    api, binary_name, branch, command_line, dispatch_body, dispatch_path, dispatch_request, find_run, is_new_tag, release_path,
    release_ready, run_marker, runs_path, token, wait_step, GithubSettings, RunInfo, WaitAction,
};

fn settings(repo: Option<&str>, token: Option<&str>, git_ref: Option<&str>) -> GithubSettings {
    GithubSettings {
        repo: repo.map(String::from),
        token: token.map(String::from),
        git_ref: git_ref.map(String::from),
    }
}

#[test]
fn api_addresses_fall_back_to_the_project_repository() {
    let none = settings(None, None, None);
    assert_eq!(api(&none, "releases/tags/v1"), "https://api.github.com/repos/NexBitstd/NoroLauncher/releases/tags/v1");
    let own = settings(Some("me/fork"), Some("t0k"), Some("dev"));
    assert_eq!(api(&own, dispatch_path()), "https://api.github.com/repos/me/fork/actions/workflows/release-launcher.yml/dispatches");
    assert_eq!(token(&own), Some("t0k"));
    assert_eq!(token(&none), None);
    assert_eq!(branch(&own), "dev");
    assert_eq!(branch(&none), "master");
    assert_eq!(release_path("v2.0"), "releases/tags/v2.0");
    assert!(runs_path().ends_with("per_page=30"));
}

fn run(name: Option<&str>, status: Option<&str>, conclusion: Option<&str>, url: Option<&str>) -> RunInfo {
    RunInfo {
        name: name.map(String::from),
        status: status.map(String::from),
        conclusion: conclusion.map(String::from),
        html_url: url.map(String::from),
    }
}

#[test]
fn a_run_is_found_by_the_job_mark_not_by_the_tag() {
    let marker = run_marker("1234-abcd");
    assert_eq!(marker, "[1234-abcd]");
    let runs = vec![
        run(Some("release v1.0"), None, None, None),
        run(None, None, None, None),
        run(Some("release v1.0 [1234-abcd]"), None, None, None),
        run(Some("[1234-abcd] again"), None, None, None),
    ];
    assert_eq!(find_run(&runs, &marker), Some(2));
    assert_eq!(find_run(&runs[..2], &marker), None);
}

#[test]
fn the_wait_logs_once_while_no_run_has_appeared() {
    let (announced, action) = wait_step(false, false, None);
    assert!(announced);
    assert!(matches!(action, WaitAction::Log(ref l) if l == "ожидание запуска сборки в GitHub Actions...\n"));
    let (announced, action) = wait_step(true, false, None);
    assert!(announced);
    assert!(matches!(action, WaitAction::Sleep));
    assert!(matches!(wait_step(true, true, None).1, WaitAction::TimedOut));
}

#[test]
fn the_wait_ends_with_the_conclusion_of_the_run() {
    let busy = run(Some("x"), Some("in_progress"), None, Some("https://gh/run/1"));
    assert!(matches!(wait_step(false, false, Some(&busy)), (false, WaitAction::Log(ref l)) if l == "сборка in_progress: https://gh/run/1\n"));
    let ok = run(Some("x"), Some("completed"), Some("success"), Some("https://gh/run/1"));
    assert!(matches!(wait_step(true, false, Some(&ok)).1, WaitAction::Succeeded(ref u) if u == "https://gh/run/1"));
    let failed = run(Some("x"), Some("completed"), None, None);
    match wait_step(true, false, Some(&failed)).1 {
        WaitAction::Failed { conclusion, url } => {
            assert_eq!(conclusion, "unknown");
            assert_eq!(url, "");
        }
        other => panic!("expected a failure, got {other:?}"),
    }
    let no_status = run(Some("x"), None, None, None);
    assert!(matches!(wait_step(true, false, Some(&no_status)).1, WaitAction::Log(ref l) if l == "сборка : \n"));
}

#[test]
fn a_release_without_assets_is_not_ready() {
    assert!(release_ready(true, Some(3)));
    assert!(!release_ready(true, Some(0)));
    assert!(!release_ready(true, None));
    assert!(!release_ready(false, Some(3)));
}

#[test]
fn build_steps_are_logged_as_shell_lines() {
    let args = vec!["build".to_string(), "--release".to_string(), "--bin".to_string(), "noro-launcher".to_string()];
    assert_eq!(command_line("cargo", &args), "$ cargo build --release --bin noro-launcher\n");
    assert_eq!(command_line("git", &[]), "$ git \n");
    assert_eq!(binary_name(true), "noro-launcher.exe");
    assert_eq!(binary_name(false), "noro-launcher");
}

#[test]
fn only_a_different_tag_is_news() {
    assert!(is_new_tag(None, "v1"));
    assert!(!is_new_tag(Some("v1"), "v1"));
    assert!(is_new_tag(Some("v1"), "v2"));
}

#[test]
fn without_a_token_nothing_is_dispatched() {
    assert!(dispatch_request(&settings(None, None, None), "v1.0", "42").is_none());
}

#[test]
fn the_dispatch_carries_tag_job_and_branch() {
    let d = dispatch_request(&settings(None, Some("t0k"), None), "v1.0", "42").unwrap();
    assert_eq!(d.url, "https://api.github.com/repos/NexBitstd/NoroLauncher/actions/workflows/release-launcher.yml/dispatches");
    assert_eq!(d.token, "t0k");
    assert_eq!(d.body, r#"{"inputs":{"job_id":"42","tag":"v1.0"},"ref":"master"}"#);
    let own = dispatch_request(&settings(Some("me/fork"), Some("t"), Some("dev")), "v2", "7").unwrap();
    assert_eq!(own.body, r#"{"inputs":{"job_id":"7","tag":"v2"},"ref":"dev"}"#);
}

#[test]
fn the_dispatch_body_escapes_its_strings() {
    let d = dispatch_request(&settings(None, Some("t"), None), "a\"b\\c\nd\u{1}", "1").unwrap();
    assert_eq!(d.body, r#"{"inputs":{"job_id":"1","tag":"a\"b\\c\nd\u0001"},"ref":"master"}"#);
}

#[test]
fn the_dispatch_body_puts_the_literals_in_place() {
    assert_eq!(dispatch_body("\"7\"", "\"v2\"", "\"dev\""), r#"{"inputs":{"job_id":"7","tag":"v2"},"ref":"dev"}"#);
}
