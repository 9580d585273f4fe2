//! Building the launcher on GitHub Actions: the API addresses, finding the
//! run that belongs to a build job, and the decisions taken while waiting for
//! it. The HTTP calls themselves are made by the caller.
//!
//! A dispatched workflow does not return the id of its run, so the job id is
//! put into the run's name, and the master looks for its own run by that
//! mark among the latest runs. Matching by tag alone is not enough: two
//! builds of one tag and the master would wait for someone else's.

use crate::text::{
    chars_eq, chars_of, contains_str, has_infix, push_chars, push_str, str_eq, string_from_chars,
};
use vstd::prelude::*;

verus! {

/// Where the launcher's sources and releases live, and how to reach them.
#[derive(Clone, Debug)]
pub struct GithubSettings {
    /// `owner/name`; `None`: the project's own repository.
    pub repo: Option<String>,
    pub token: Option<String>,
    /// The branch workflows run on; `None`: `master`.
    pub git_ref: Option<String>,
}

/// The repository used where none is configured.
pub open spec fn default_repo() -> Seq<char> {
    "NexBitstd/NoroLauncher"@
}

/// The repository the settings name.
pub open spec fn repo_of(cfg: GithubSettings) -> Seq<char> {
    match cfg.repo {
        Some(r) => r@,
        None => default_repo(),
    }
}

/// The address of `path` under the repository in the GitHub API.
pub open spec fn api_spec(cfg: GithubSettings, path: Seq<char>) -> Seq<char> {
    "https://api.github.com/repos/"@ + repo_of(cfg) + "/"@ + path
}

/// The address of `path` under the launcher's repository in the GitHub API.
pub fn api(cfg: &GithubSettings, path: &str) -> (r: String)
    ensures
        r@ == api_spec(*cfg, path@),
{
    let mut out: Vec<char> = Vec::new();
    push_str(&mut out, "https://api.github.com/repos/");
    match &cfg.repo {
        Some(repo) => push_str(&mut out, repo.as_str()),
        None => push_str(&mut out, "NexBitstd/NoroLauncher"),
    }
    push_str(&mut out, "/");
    push_str(&mut out, path);
    string_from_chars(out.as_slice())
}

/// The token to send, if one is configured.
pub fn token(cfg: &GithubSettings) -> (r: Option<&str>)
    ensures
        match r {
            Some(t) => cfg.token matches Some(c) && t@ == c@,
            None => cfg.token is None,
        },
{
    match &cfg.token {
        Some(t) => Some(t.as_str()),
        None => None,
    }
}

/// The branch a dispatched workflow runs on: the configured one, else
/// `master`, the default branch of the launcher's repository.
pub fn branch(cfg: &GithubSettings) -> (r: &str)
    ensures
        r@ == match cfg.git_ref {
            Some(b) => b@,
            None => "master"@,
        },
{
    match &cfg.git_ref {
        Some(b) => b.as_str(),
        None => "master",
    }
}

/// Path of the endpoint that starts the release workflow.
pub fn dispatch_path() -> (r: &'static str)
    ensures
        r@ == "actions/workflows/release-launcher.yml/dispatches"@,
{
    "actions/workflows/release-launcher.yml/dispatches"
}

/// The JSON string literal `serde_json` writes for a string.
pub uninterp spec fn json_string_literal(s: Seq<char>) -> Seq<char>;

/// `serde_json::to_string(s)` on a `&str`: the string as a JSON string
/// literal, quoted and escaped as `serde_json` does it. Writing a string
/// into memory does not fail. The contract claims only that the literal is
/// a function of the string; how it escapes is left to `serde_json`.
#[verifier::external_body]
fn json_string(s: &str) -> (r: String)
    ensures
        r@ == json_string_literal(s@),
{
    serde_json::to_string(s).unwrap()
}

/// The branch a configuration names.
pub open spec fn branch_of(cfg: GithubSettings) -> Seq<char> {
    match cfg.git_ref {
        Some(b) => b@,
        None => "master"@,
    }
}

/// The body of a dispatch, `{"ref": branch, "inputs": {"tag", "job_id"}}`,
/// from the three values written as JSON string literals: keys in order
/// and without spaces, as `serde_json` writes an object.
pub open spec fn body_of_literals(job_id_json: Seq<char>, tag_json: Seq<char>, ref_json: Seq<char>) -> Seq<char> {
    "{\"inputs\":{\"job_id\":"@ + job_id_json + ",\"tag\":"@ + tag_json + "},\"ref\":"@ + ref_json + "}"@
}

/// The body of the dispatch of `tag` on `branch`, marked with `job_id`.
pub open spec fn dispatch_body_spec(branch: Seq<char>, tag: Seq<char>, job_id: Seq<char>) -> Seq<char> {
    body_of_literals(json_string_literal(job_id), json_string_literal(tag), json_string_literal(branch))
}

/// The body of a dispatch from the job id, tag and branch, each already
/// written as a JSON string literal.
pub fn dispatch_body(job_id_json: &str, tag_json: &str, ref_json: &str) -> (r: String)
    ensures
        r@ == body_of_literals(job_id_json@, tag_json@, ref_json@),
{
    let mut body: Vec<char> = Vec::new();
    push_str(&mut body, "{\"inputs\":{\"job_id\":");
    push_str(&mut body, job_id_json);
    push_str(&mut body, ",\"tag\":");
    push_str(&mut body, tag_json);
    push_str(&mut body, "},\"ref\":");
    push_str(&mut body, ref_json);
    push_str(&mut body, "}");
    string_from_chars(body.as_slice())
}

/// A request that starts the release workflow for a tag, marked with the
/// build job's id.
#[derive(Clone, Debug)]
pub struct DispatchRequest {
    /// Where to `POST` it.
    pub url: String,
    /// The bearer token.
    pub token: String,
    /// The JSON body.
    pub body: String,
}

/// The dispatch of the release workflow for `tag`, marked with `job_id`,
/// or `None` when no token is configured: then nothing can be started, and
/// the caller works from a release that is already there.
pub fn dispatch_request(cfg: &GithubSettings, tag: &str, job_id: &str) -> (r: Option<DispatchRequest>)
    ensures
        r is None <==> cfg.token is None,
        r matches Some(d) ==> {
            &&& d.url@ == api_spec(*cfg, "actions/workflows/release-launcher.yml/dispatches"@)
            &&& cfg.token matches Some(t) && d.token@ == t@
            &&& d.body@ == dispatch_body_spec(branch_of(*cfg), tag@, job_id@)
        },
{
    let tok = match &cfg.token {
        Some(t) => t,
        None => {
            return None;
        },
    };
    let job_json = json_string(job_id);
    let tag_json = json_string(tag);
    let ref_json = json_string(branch(cfg));
    let body = dispatch_body(job_json.as_str(), tag_json.as_str(), ref_json.as_str());
    Some(
        DispatchRequest {
            url: api(cfg, dispatch_path()),
            token: string_from_chars(chars_of(tok.as_str()).as_slice()),
            body,
        },
    )
}

/// Path of the endpoint that lists the latest dispatched runs.
pub fn runs_path() -> (r: &'static str)
    ensures
        r@ == "actions/workflows/release-launcher.yml/runs?event=workflow_dispatch&per_page=30"@,
{
    "actions/workflows/release-launcher.yml/runs?event=workflow_dispatch&per_page=30"
}

/// Path of the release with a tag.
pub fn release_path(tag: &str) -> (r: String)
    ensures
        r@ == "releases/tags/"@ + tag@,
{
    let mut out: Vec<char> = Vec::new();
    push_str(&mut out, "releases/tags/");
    push_str(&mut out, tag);
    string_from_chars(out.as_slice())
}

/// The mark a run of a job carries in its name: the job id in brackets.
pub fn run_marker(job_id: &str) -> (r: String)
    ensures
        r@ == "["@ + job_id@ + "]"@,
{
    let mut out: Vec<char> = Vec::new();
    push_str(&mut out, "[");
    push_str(&mut out, job_id);
    push_str(&mut out, "]");
    string_from_chars(out.as_slice())
}

/// The fields of a workflow run that the wait looks at; each is `None` where
/// the run does not carry it as a string.
#[derive(Clone, Debug)]
pub struct RunInfo {
    pub name: Option<String>,
    pub status: Option<String>,
    pub conclusion: Option<String>,
    pub html_url: Option<String>,
}

/// The run's name carries the mark.
pub open spec fn run_matches(r: RunInfo, marker: Seq<char>) -> bool {
    r.name matches Some(n) && has_infix(n@, marker)
}

/// The first run whose name carries the mark.
pub fn find_run(runs: &[RunInfo], marker: &str) -> (r: Option<usize>)
    ensures
        match r {
            Some(i) => i < runs@.len() && run_matches(runs@[i as int], marker@) && forall|j: int|
                0 <= j < i ==> !run_matches(#[trigger] runs@[j], marker@),
            None => forall|j: int| 0 <= j < runs@.len() ==> !run_matches(#[trigger] runs@[j], marker@),
        },
{
    let m = chars_of(marker);
    let n = runs.len();
    let mut i: usize = 0;
    while i < n
        invariant
            n == runs@.len(),
            m@ == marker@,
            i <= n,
            forall|j: int| 0 <= j < i ==> !run_matches(#[trigger] runs@[j], marker@),
        decreases n - i,
    {
        let hit = match &runs[i].name {
            Some(name) => {
                let cs = chars_of(name.as_str());
                contains_str(cs.as_slice(), m.as_slice())
            },
            None => false,
        };
        if hit {
            return Some(i);
        }
        i = i + 1;
    }
    None
}

/// The next thing to do while waiting for a run.
#[derive(Clone, Debug)]
pub enum WaitAction {
    /// Write the line to the job's log, then sleep and look again.
    Log(String),
    /// Sleep and look again.
    Sleep,
    /// The run succeeded; its address.
    Succeeded(String),
    /// The run finished otherwise: its conclusion and address.
    Failed { conclusion: String, url: String },
    /// The run did not finish within the allowed hour.
    TimedOut,
}

/// The minutes a build may take before the wait gives up.
pub const MAX_WAIT_MINUTES: u64 = 60;

/// Seconds between two looks at the list of runs.
pub const POLL_EVERY_SECS: u64 = 15;

/// The string a field carries, or `dflt` where it carries none.
pub open spec fn or_default(o: Option<String>, dflt: Seq<char>) -> Seq<char> {
    match o {
        Some(s) => s@,
        None => dflt,
    }
}

fn opt_or(o: &Option<String>, dflt: &str) -> (r: Vec<char>)
    ensures
        r@ == or_default(*o, dflt@),
{
    match o {
        Some(s) => chars_of(s.as_str()),
        None => chars_of(dflt),
    }
}

/// The line written once while no run carries the mark yet: between the
/// dispatch and the run's appearance some seconds pass.
pub open spec fn waiting_line() -> Seq<char> {
    "ожидание запуска сборки в GitHub Actions...\n"@
}

/// The line written while the run is not finished.
pub open spec fn progress_line(status: Seq<char>, url: Seq<char>) -> Seq<char> {
    "сборка "@ + status + ": "@ + url + "\n"@
}

/// One round of the wait for a build's run: give up past the deadline;
/// while no run carries the mark, say so once and look again; while the run
/// is not `completed`, log its status and look again; then succeed when its
/// conclusion is `success` and fail with the conclusion (`unknown` where it
/// carries none) otherwise. Beside the action comes whether the wait has
/// said that it is waiting for the run.
pub fn wait_step(announced: bool, past_deadline: bool, run: Option<&RunInfo>) -> (r: (bool, WaitAction))
    ensures
        past_deadline ==> r.0 == announced && r.1 is TimedOut,
        !past_deadline && run is None && !announced ==> r.0 && (r.1 matches WaitAction::Log(l)
            && l@ == waiting_line()),
        !past_deadline && run is None && announced ==> r.0 && r.1 is Sleep,
        !past_deadline && run is Some ==> {
            let x = run->0;
            let status = or_default(x.status, ""@);
            let url = or_default(x.html_url, ""@);
            let conclusion = or_default(x.conclusion, "unknown"@);
            &&& r.0 == announced
            &&& status != "completed"@ ==> (r.1 matches WaitAction::Log(l) && l@ == progress_line(
                status,
                url,
            ))
            &&& status == "completed"@ && conclusion == "success"@ ==> (r.1 matches WaitAction::Succeeded(
                u,
            ) && u@ == url)
            &&& status == "completed"@ && conclusion != "success"@ ==> (r.1 matches WaitAction::Failed {
                conclusion: c,
                url: u,
            } && c@ == conclusion && u@ == url)
        },
{
    if past_deadline {
        return (announced, WaitAction::TimedOut);
    }
    match run {
        None => {
            if !announced {
                let line = string_from_chars(
                    chars_of("ожидание запуска сборки в GitHub Actions...\n").as_slice(),
                );
                (true, WaitAction::Log(line))
            } else {
                (true, WaitAction::Sleep)
            }
        },
        Some(x) => {
            let status = opt_or(&x.status, "");
            let url = opt_or(&x.html_url, "");
            let completed = chars_of("completed");
            if !chars_eq(status.as_slice(), completed.as_slice()) {
                let mut line: Vec<char> = Vec::new();
                push_str(&mut line, "сборка ");
                push_chars(&mut line, status.as_slice());
                push_str(&mut line, ": ");
                push_chars(&mut line, url.as_slice());
                push_str(&mut line, "\n");
                return (announced, WaitAction::Log(string_from_chars(line.as_slice())));
            }
            let conclusion = opt_or(&x.conclusion, "unknown");
            let success = chars_of("success");
            if chars_eq(conclusion.as_slice(), success.as_slice()) {
                (announced, WaitAction::Succeeded(string_from_chars(url.as_slice())))
            } else {
                (
                    announced,
                    WaitAction::Failed {
                        conclusion: string_from_chars(conclusion.as_slice()),
                        url: string_from_chars(url.as_slice()),
                    },
                )
            }
        },
    }
}

/// Whether a release can be taken as it is: the request succeeded and the
/// release lists at least one asset. A draft without assets has nothing to
/// take, so it counts as no release yet.
pub fn release_ready(request_ok: bool, asset_count: Option<usize>) -> (r: bool)
    ensures
        r == (request_ok && (asset_count matches Some(n) && n > 0)),
{
    request_ok && match asset_count {
        Some(n) => n > 0,
        None => false,
    }
}

/// The name of the launcher binary a build produces.
pub fn binary_name(windows: bool) -> (r: &'static str)
    ensures
        r@ == (if windows {
            "noro-launcher.exe"@
        } else {
            "noro-launcher"@
        }),
{
    if windows {
        "noro-launcher.exe"
    } else {
        "noro-launcher"
    }
}

/// The line a build job's log gets before a command runs: `$`, the command
/// and its arguments separated by spaces.
pub open spec fn command_line_spec(cmd: Seq<char>, args: Seq<Seq<char>>) -> Seq<char> {
    "$ "@ + cmd + " "@ + joined(args) + "\n"@
}

/// The arguments separated by single spaces.
pub open spec fn joined(args: Seq<Seq<char>>) -> Seq<char>
    decreases args.len(),
{
    if args.len() == 0 {
        Seq::empty()
    } else if args.len() == 1 {
        args[0]
    } else {
        joined(args.drop_last()) + " "@ + args.last()
    }
}

/// The views of the strings.
pub open spec fn views(v: Seq<String>) -> Seq<Seq<char>> {
    v.map_values(|s: String| s@)
}

/// The log line for a command of a build job.
pub fn command_line(cmd: &str, args: &[String]) -> (r: String)
    ensures
        r@ == command_line_spec(cmd@, views(args@)),
{
    let mut out: Vec<char> = Vec::new();
    push_str(&mut out, "$ ");
    push_str(&mut out, cmd);
    push_str(&mut out, " ");
    let ghost head = out@;
    let n = args.len();
    for i in 0..n
        invariant
            n == args@.len(),
            out@ == head + joined(views(args@.take(i as int))),
    {
        proof {
            let t = views(args@.take(i as int + 1));
            assert(t.drop_last() =~= views(args@.take(i as int)));
            assert(t.last() == args@[i as int]@);
        }
        if i > 0 {
            push_str(&mut out, " ");
        }
        push_str(&mut out, args[i].as_str());
        proof {
            if i == 0 {
                assert(views(args@.take(1)) =~= seq![args@[0]@]);
            }
            assert(out@ =~= head + joined(views(args@.take(i as int + 1))));
        }
    }
    assert(args@.take(n as int) =~= args@);
    push_str(&mut out, "\n");
    assert(out@ =~= command_line_spec(cmd@, views(args@)));
    string_from_chars(out.as_slice())
}

/// Whether a tag seen on GitHub is news: it differs from the last one seen.
pub fn is_new_tag(last_seen: Option<&str>, tag: &str) -> (r: bool)
    ensures
        r == match last_seen {
            Some(l) => l@ != tag@,
            None => true,
        },
{
    match last_seen {
        Some(l) => !str_eq(l, tag),
        None => true,
    }
}

} // verus!
