//! OAuth2 applications that players register and the operator approves:
//! who an application may sign in, and which addresses it may send a player
//! back to.
//!
//! Identifiers are the 128-bit values of the rows' UUIDs.

use crate::text::{chars_eq, chars_of, split_char, split_spec, str_eq, string_from_chars, trim, trim_spec};
use crate::time::UtcTime;
use vstd::prelude::*;

verus! {

/// A new application: it works for its author alone until approved, so an
/// integration can be tried out whole before moderation.
pub const STATUS_PENDING: &'static str = "pending";

pub const STATUS_APPROVED: &'static str = "approved";

pub const STATUS_REJECTED: &'static str = "rejected";

pub const STATUS_SUSPENDED: &'static str = "suspended";

/// An application as stored.
#[derive(Clone, Debug)]
pub struct OAuthApp {
    pub id: u128,
    pub client_id: String,
    pub client_secret_hash: String,
    pub name: String,
    pub icon_url: Option<String>,
    pub description: Option<String>,
    /// Return addresses, one per line.
    pub redirect_uris: String,
    /// One of the project's own: never pending, and not switched off with the
    /// third-party ones.
    pub is_official: bool,
    /// Runs on the player's machine and has nowhere to keep a secret; it is
    /// trusted through PKCE rather than a client secret.
    pub is_public: bool,
    pub owner_id: Option<u128>,
    pub status: String,
    pub allowed_scopes: String,
    pub review_note: Option<String>,
    pub reviewed_by: Option<u128>,
    pub reviewed_at: Option<UtcTime>,
    pub created_at: UtcTime,
    pub updated_at: UtcTime,
}

/// An approved application serves everyone; a pending one only its author.
pub open spec fn usable_by_spec(app: OAuthApp, user_id: u128) -> bool {
    if app.status@ == "approved"@ {
        true
    } else if app.status@ == "pending"@ {
        app.owner_id == Some(user_id)
    } else {
        false
    }
}

/// The status an application has after its author edits it: a changed
/// name or return address has not been seen by the operator, so the
/// application goes back to `pending`; an official one keeps its status,
/// and a suspended one stays suspended.
pub open spec fn status_after_edit_spec(is_official: bool, status: Seq<char>) -> Seq<char> {
    if is_official || status == "suspended"@ {
        status
    } else {
        "pending"@
    }
}

/// The status an application has after its author edits it.
pub fn status_after_edit(is_official: bool, status: &str) -> (r: String)
    ensures
        r@ == status_after_edit_spec(is_official, status@),
{
    if is_official || str_eq(status, STATUS_SUSPENDED) {
        string_from_chars(chars_of(status).as_slice())
    } else {
        string_from_chars(chars_of(STATUS_PENDING).as_slice())
    }
}

/// The operator's note after an author's edit: kept on an official
/// application, dropped on any other, which awaits approval again.
pub fn note_after_edit(is_official: bool, note: Option<String>) -> (r: Option<String>)
    ensures
        r == (if is_official {
            note
        } else {
            None
        }),
{
    if is_official {
        note
    } else {
        None
    }
}

/// An author's edit never lifts a suspension, and never approves.
pub proof fn lemma_edit_never_approves(is_official: bool, status: Seq<char>)
    ensures
        status == "suspended"@ ==> status_after_edit_spec(is_official, status) == "suspended"@,
        !is_official ==> status_after_edit_spec(is_official, status) != "approved"@,
{
    reveal_strlit("pending");
    reveal_strlit("approved");
    reveal_strlit("suspended");
    assert("pending"@[0] != "approved"@[0]);
    assert("suspended"@[0] != "approved"@[0]);
}

/// The non-empty lines of a list, trimmed.
pub open spec fn listed_entries(lines: Seq<Seq<char>>) -> Seq<Seq<char>>
    decreases lines.len(),
{
    if lines.len() == 0 {
        Seq::empty()
    } else {
        let r = listed_entries(lines.drop_last());
        let t = trim_spec(lines.last());
        if t.len() == 0 {
            r
        } else {
            r.push(t)
        }
    }
}

/// The registered return addresses: each line trimmed, blank ones left out.
pub open spec fn redirect_list_spec(uris: Seq<char>) -> Seq<Seq<char>> {
    listed_entries(split_spec(uris, '\n'))
}

/// Scheme, host (as `Url::host_str` gives it) and path of an address that
/// `url::Url::parse` accepts; `None` for one it refuses.
pub uninterp spec fn url_parts(s: Seq<char>) -> Option<(Seq<char>, Option<Seq<char>>, Seq<char>)>;

/// The parts of an address that loopback matching compares.
#[derive(Clone, Debug)]
pub struct UrlParts {
    pub scheme: String,
    pub host: Option<String>,
    pub path: String,
}

pub open spec fn opt_view(o: Option<String>) -> Option<Seq<char>> {
    match o {
        Some(s) => Some(s@),
        None => None,
    }
}

pub open spec fn parts_view(p: UrlParts) -> (Seq<char>, Option<Seq<char>>, Seq<char>) {
    (p.scheme@, opt_view(p.host), p.path@)
}

pub open spec fn parsed_view(o: Option<UrlParts>) -> Option<(Seq<char>, Option<Seq<char>>, Seq<char>)> {
    match o {
        Some(p) => Some(parts_view(p)),
        None => None,
    }
}

/// Parses an address with `url::Url::parse`.
///
/// The contract claims only that the result is the one `url_parts` names
/// for the address: `url` parses by the WHATWG URL standard, which is not
/// restated here.
#[verifier::external_body]
fn parse_url(s: &str) -> (r: Option<UrlParts>)
    ensures
        parsed_view(r) == url_parts(s@),
{
    match url::Url::parse(s) {
        Ok(u) => Some(
            UrlParts {
                scheme: u.scheme().to_string(),
                host: u.host_str().map(|h| h.to_string()),
                path: u.path().to_string(),
            },
        ),
        Err(_) => None,
    }
}

/// The host is the player's own machine.
pub open spec fn is_loopback_host(h: Option<Seq<char>>) -> bool {
    ||| h == Some("127.0.0.1"@)
    ||| h == Some("localhost"@)
    ||| h == Some("[::1]"@)
}

/// A registered address admits a loopback one: same scheme and host, and the
/// same path, or any path where a bare host was registered. Ports are not
/// compared (RFC 8252 §7.3): the launcher listens on whatever port is free.
pub open spec fn loopback_match(
    known: Option<(Seq<char>, Option<Seq<char>>, Seq<char>)>,
    asked: (Seq<char>, Option<Seq<char>>, Seq<char>),
) -> bool {
    known matches Some(k) && k.0 == asked.0 && k.1 == asked.1 && (k.2 == "/"@ || k.2 == asked.2)
}

/// The parsed address is a loopback one that some parsed registered address
/// admits.
pub open spec fn loopback_allowed_spec(
    asked: Option<(Seq<char>, Option<Seq<char>>, Seq<char>)>,
    known: Seq<Option<(Seq<char>, Option<Seq<char>>, Seq<char>)>>,
) -> bool {
    asked matches Some(a) && is_loopback_host(a.1) && exists|i: int|
        0 <= i < known.len() && #[trigger] loopback_match(known[i], a)
}

fn opt_str_eq(a: &Option<String>, b: &Option<String>) -> (r: bool)
    ensures
        r == (opt_view(*a) == opt_view(*b)),
{
    match (a, b) {
        (Some(x), Some(y)) => str_eq(x.as_str(), y.as_str()),
        (None, None) => true,
        _ => false,
    }
}

fn is_loopback_host_exec(h: &Option<String>) -> (r: bool)
    ensures
        r == is_loopback_host(opt_view(*h)),
{
    match h {
        Some(x) => str_eq(x.as_str(), "127.0.0.1") || str_eq(x.as_str(), "localhost") || str_eq(
            x.as_str(),
            "[::1]",
        ),
        None => false,
    }
}

/// Whether a parsed loopback address is admitted by one of the parsed
/// registered addresses (`None` where an address did not parse).
pub fn loopback_allowed(asked: &Option<UrlParts>, known: &[Option<UrlParts>]) -> (r: bool)
    ensures
        r == loopback_allowed_spec(parsed_view(*asked), known@.map_values(|k: Option<UrlParts>| parsed_view(k))),
{
    let ghost kv = known@.map_values(|k: Option<UrlParts>| parsed_view(k));
    let a = match asked {
        Some(a) => a,
        None => {
            return false;
        },
    };
    if !is_loopback_host_exec(&a.host) {
        return false;
    }
    let n = known.len();
    let mut i: usize = 0;
    while i < n
        invariant
            n == known@.len(),
            kv == known@.map_values(|k: Option<UrlParts>| parsed_view(k)),
            *asked == Some(*a),
            is_loopback_host(opt_view(a.host)),
            i <= n,
            forall|j: int| 0 <= j < i ==> !loopback_match(#[trigger] kv[j], parts_view(*a)),
        decreases n - i,
    {
        assert(kv[i as int] == parsed_view(known@[i as int]));
        if let Some(k) = &known[i] {
            if str_eq(k.scheme.as_str(), a.scheme.as_str()) && opt_str_eq(&k.host, &a.host) && (str_eq(
                k.path.as_str(),
                "/",
            ) || str_eq(k.path.as_str(), a.path.as_str())) {
                assert(loopback_match(kv[i as int], parts_view(*a)));
                assert(parsed_view(*asked) == Some(parts_view(*a)));
                assert(exists|j: int| 0 <= j < kv.len() && #[trigger] loopback_match(kv[j], parts_view(*a)));
                return true;
            }
        }
        i = i + 1;
    }
    false
}

impl OAuthApp {
    /// Whether the application may sign this player in now.
    pub fn usable_by(&self, user_id: u128) -> (r: bool)
        ensures
            r == usable_by_spec(*self, user_id),
    {
        if str_eq(self.status.as_str(), STATUS_APPROVED) {
            true
        } else if str_eq(self.status.as_str(), STATUS_PENDING) {
            self.owner_id == Some(user_id)
        } else {
            false
        }
    }

    /// The registered return addresses.
    pub fn redirect_list(&self) -> (r: Vec<String>)
        ensures
            r@.map_values(|s: String| s@) == redirect_list_spec(self.redirect_uris@),
    {
        let cs = chars_of(self.redirect_uris.as_str());
        let lines = split_char(cs.as_slice(), '\n');
        let ghost pieces = split_spec(cs@, '\n');
        let mut out: Vec<String> = Vec::new();
        let n = lines.len();
        for i in 0..n
            invariant
                n == lines@.len(),
                n == pieces.len(),
                pieces == split_spec(self.redirect_uris@, '\n'),
                forall|k: int| 0 <= k < n ==> #[trigger] lines@[k]@ == pieces[k],
                out@.map_values(|s: String| s@) == listed_entries(pieces.take(i as int)),
        {
            proof {
                assert(pieces.take(i as int + 1).drop_last() =~= pieces.take(i as int));
            }
            let t = trim(lines[i].as_slice());
            if t.len() > 0 {
                out.push(string_from_chars(t.as_slice()));
            }
            assert(out@.map_values(|s: String| s@) =~= listed_entries(pieces.take(i as int + 1)));
        }
        assert(pieces.take(n as int) =~= pieces);
        out
    }

    /// Whether a player may be sent back to `uri`: it is one of the
    /// registered addresses exactly (no prefixes: `https://app.example/cb`
    /// must not admit `https://app.example/cb.evil.tld`), or the application
    /// is public and the address is a loopback one it registered.
    pub fn allows_redirect(&self, uri: &str) -> (r: bool)
        ensures
            r == (redirect_list_spec(self.redirect_uris@).contains(uri@) || (self.is_public
                && loopback_allowed_spec(
                url_parts(uri@),
                redirect_list_spec(self.redirect_uris@).map_values(|k: Seq<char>| url_parts(k)),
            ))),
    {
        let list = self.redirect_list();
        let ghost lv = list@.map_values(|s: String| s@);
        let u = chars_of(uri);
        let n = list.len();
        let mut i: usize = 0;
        while i < n
            invariant
                n == list@.len(),
                lv == list@.map_values(|s: String| s@),
                lv == redirect_list_spec(self.redirect_uris@),
                u@ == uri@,
                i <= n,
                forall|j: int| 0 <= j < i ==> #[trigger] lv[j] != uri@,
            decreases n - i,
        {
            let c = chars_of(list[i].as_str());
            if chars_eq(c.as_slice(), u.as_slice()) {
                assert(lv[i as int] == uri@);
                return true;
            }
            i = i + 1;
        }
        assert(!lv.contains(uri@));
        self.is_public && self.allows_loopback(uri, &list)
    }

    fn allows_loopback(&self, uri: &str, list: &Vec<String>) -> (r: bool)
        requires
            list@.map_values(|s: String| s@) == redirect_list_spec(self.redirect_uris@),
        ensures
            r == loopback_allowed_spec(
                url_parts(uri@),
                redirect_list_spec(self.redirect_uris@).map_values(|k: Seq<char>| url_parts(k)),
            ),
    {
        let asked = parse_url(uri);
        let mut known: Vec<Option<UrlParts>> = Vec::new();
        let n = list.len();
        let ghost names = list@.map_values(|s: String| s@);
        for i in 0..n
            invariant
                n == list@.len(),
                names == list@.map_values(|s: String| s@),
                known@.len() == i,
                forall|k: int| 0 <= k < i ==> #[trigger] parsed_view(known@[k]) == url_parts(names[k]),
        {
            known.push(parse_url(list[i].as_str()));
        }
        let r = loopback_allowed(&asked, known.as_slice());
        proof {
            assert(known@.map_values(|k: Option<UrlParts>| parsed_view(k)) =~= names.map_values(
                |k: Seq<char>| url_parts(k),
            ));
        }
        r
    }
}

} // verus!
