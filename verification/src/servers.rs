//! Game servers behind a build, and the entry the launcher shows for a
//! server: where to connect, with which loader, and how many are playing.
//!
//! Identifiers are the 128-bit values of the rows' UUIDs.

use crate::manifest::{loader_of_name, modloader_from_str, Modloader};
use crate::text::{ascii_lower, str_eq, string_from_chars, to_ascii_lowercase};
use crate::time::{seconds_between, seconds_since, utc_now, UtcTime};
use vstd::prelude::*;

verus! {

/// A game server is live while its last heartbeat is younger than this many
/// seconds: the agent sends one every 30, so three misses in a row are no
/// longer a network hiccup.
pub const LIVE_WINDOW_SECS: i64 = 90;

/// A game server as stored.
#[derive(Clone, Debug)]
pub struct GameServerRow {
    pub id: u128,
    pub server_id: u128,
    pub name: String,
    pub mc_host: String,
    pub mc_port: i32,
    pub token_hash: String,
    pub sort_order: i32,
    pub online: i32,
    pub max_online: i32,
    pub version: Option<String>,
    pub last_seen_at: Option<UtcTime>,
    pub created_at: UtcTime,
    /// `proxy`: the entry point; `server`: a backend with an agent.
    pub kind: String,
}

/// A game server as the launcher sees it.
#[derive(Clone, Debug)]
pub struct GameServerEntry {
    pub id: u128,
    pub name: String,
    pub mc_host: String,
    pub mc_port: u16,
    pub proxy: bool,
    pub online: u32,
    pub max_online: u32,
    pub live: bool,
}

/// Heard from within the live window before `now`.
pub open spec fn live_spec(last_seen: Option<UtcTime>, now: UtcTime) -> bool {
    match last_seen {
        Some(t) => seconds_between(now, t) < LIVE_WINDOW_SECS,
        None => false,
    }
}

/// The stored heartbeat, if any, is a valid instant.
pub open spec fn seen_valid(g: GameServerRow) -> bool {
    g.last_seen_at matches Some(t) ==> t.valid()
}

/// A count that cannot be negative: negative stored values read as zero.
pub open spec fn non_negative(v: i32) -> u32 {
    if v >= 0 {
        v as u32
    } else {
        0
    }
}

/// How the launcher sees a game server at `now`. A dead server shows no
/// players: its last count is what it said before it fell.
pub open spec fn entry_spec(g: GameServerRow, now: UtcTime) -> GameServerEntry {
    let live = live_spec(g.last_seen_at, now);
    GameServerEntry {
        id: g.id,
        name: g.name,
        mc_host: g.mc_host,
        mc_port: g.mc_port as u16,
        proxy: g.kind@ == "proxy"@,
        online: if live {
            non_negative(g.online)
        } else {
            0
        },
        max_online: non_negative(g.max_online),
        live,
    }
}

impl GameServerRow {
    /// Whether the server was heard from within the live window before `now`.
    pub fn live_at(&self, now: UtcTime) -> (r: bool)
        requires
            now.valid(),
            seen_valid(*self),
        ensures
            r == live_spec(self.last_seen_at, now),
    {
        match self.last_seen_at {
            Some(t) => seconds_since(now, t) < LIVE_WINDOW_SECS,
            None => false,
        }
    }

    /// Whether the server is live now. Which instant "now" is comes from the
    /// clock; the answer is the one `live_at` gives for it.
    pub fn live(&self) -> (r: bool)
        requires
            seen_valid(*self),
        ensures
            exists|now: UtcTime| #[trigger] now.valid() && r == live_spec(self.last_seen_at, now),
    {
        let now = utc_now();
        let r = self.live_at(now);
        assert(now.valid() && r == live_spec(self.last_seen_at, now));
        r
    }

    /// Whether the server is the entry point of its build.
    pub fn is_proxy(&self) -> (r: bool)
        ensures
            r == (self.kind@ == "proxy"@),
    {
        str_eq(self.kind.as_str(), "proxy")
    }

    /// How the launcher sees the server at `now`.
    pub fn to_entry_at(&self, now: UtcTime) -> (r: GameServerEntry)
        requires
            now.valid(),
            seen_valid(*self),
        ensures
            r == entry_spec(*self, now),
    {
        let live = self.live_at(now);
        GameServerEntry {
            id: self.id,
            name: self.name.clone(),
            mc_host: self.mc_host.clone(),
            mc_port: self.mc_port as u16,
            proxy: self.is_proxy(),
            online: if live && self.online >= 0 {
                self.online as u32
            } else {
                0
            },
            max_online: if self.max_online >= 0 {
                self.max_online as u32
            } else {
                0
            },
            live,
        }
    }

    /// How the launcher sees the server now.
    pub fn to_entry(&self) -> (r: GameServerEntry)
        requires
            seen_valid(*self),
        ensures
            exists|now: UtcTime| #[trigger] now.valid() && r == entry_spec(*self, now),
    {
        let now = utc_now();
        let r = self.to_entry_at(now);
        assert(now.valid() && r == entry_spec(*self, now));
        r
    }
}

/// `e` is how the launcher saw the game server at some valid instant.
pub open spec fn entry_at_some_instant(g: GameServerRow, e: GameServerEntry) -> bool {
    exists|now: UtcTime| #[trigger] now.valid() && e == entry_spec(g, now)
}

/// How the launcher sees each of a build's game servers now, in order; each
/// is read against the clock when its turn comes.
pub fn game_server_entries(rows: &[GameServerRow]) -> (r: Vec<GameServerEntry>)
    requires
        forall|i: int| 0 <= i < rows@.len() ==> seen_valid(#[trigger] rows@[i]),
    ensures
        r@.len() == rows@.len(),
        forall|i: int| 0 <= i < rows@.len() ==> entry_at_some_instant(rows@[i], #[trigger] r@[i]),
{
    let mut out: Vec<GameServerEntry> = Vec::new();
    let n = rows.len();
    for i in 0..n
        invariant
            n == rows@.len(),
            forall|k: int| 0 <= k < n ==> seen_valid(#[trigger] rows@[k]),
            out@.len() == i,
            forall|k: int| 0 <= k < i ==> entry_at_some_instant(rows@[k], #[trigger] out@[k]),
    {
        let e = rows[i].to_entry();
        assert(entry_at_some_instant(rows@[i as int], e));
        out.push(e);
    }
    out
}

/// Whether a game server's players count: a live one, and when
/// `backends_only`, not a proxy.
pub open spec fn counts(g: GameServerEntry, backends_only: bool) -> bool {
    g.live && (!backends_only || !g.proxy)
}

/// How many servers count, and the sums of their online and maximum counts.
pub open spec fn tally(s: Seq<GameServerEntry>, backends_only: bool) -> (nat, nat, nat)
    decreases s.len(),
{
    if s.len() == 0 {
        (0, 0, 0)
    } else {
        let t = tally(s.drop_last(), backends_only);
        let g = s.last();
        if counts(g, backends_only) {
            (t.0 + 1, t.1 + g.online as nat, t.2 + g.max_online as nat)
        } else {
            t
        }
    }
}

/// The build has a backend set up: a game server that is not a proxy,
/// live or not.
pub open spec fn has_backend(s: Seq<GameServerEntry>) -> bool {
    exists|i: int| 0 <= i < s.len() && !(#[trigger] s[i]).proxy
}

/// The online and maximum counts of a build. Proxies and backends see the
/// same players, so adding them all up would count everyone twice: the
/// backends count, and the proxies only where no backend is set up at all.
/// Of those, the live ones are summed. `None`: none of them is live, which
/// is "unknown" rather than "nobody".
pub open spec fn sum_online_spec(s: Seq<GameServerEntry>) -> Option<(nat, nat)> {
    let t = tally(s, has_backend(s));
    if t.0 > 0 {
        Some((t.1, t.2))
    } else {
        None
    }
}

proof fn lemma_tally_prefix(s: Seq<GameServerEntry>, k: int, b: bool)
    requires
        0 <= k <= s.len(),
    ensures
        tally(s.take(k), b).1 <= tally(s, b).1,
        tally(s.take(k), b).2 <= tally(s, b).2,
    decreases s.len() - k,
{
    if k < s.len() {
        lemma_tally_prefix(s, k + 1, b);
        assert(s.take(k + 1).drop_last() =~= s.take(k));
    } else {
        assert(s.take(k) =~= s);
    }
}

proof fn lemma_tally_counts_none(s: Seq<GameServerEntry>, b: bool)
    ensures
        tally(s, b).0 == 0 <==> forall|i: int| 0 <= i < s.len() ==> !counts(#[trigger] s[i], b),
    decreases s.len(),
{
    if s.len() > 0 {
        lemma_tally_counts_none(s.drop_last(), b);
        if tally(s, b).0 == 0 {
            assert forall|i: int| 0 <= i < s.len() implies !counts(#[trigger] s[i], b) by {
                if i < s.len() - 1 {
                    assert(s[i] == s.drop_last()[i]);
                }
            }
        } else if forall|i: int| 0 <= i < s.len() ==> !counts(#[trigger] s[i], b) {
            assert(!counts(s[s.len() - 1], b));
            assert forall|i: int| 0 <= i < s.drop_last().len() implies !counts(
                #[trigger] s.drop_last()[i],
                b,
            ) by {
                assert(s.drop_last()[i] == s[i]);
            }
        }
    }
}

/// The online count of a build is unknown exactly when none of the servers
/// that count is live: none of its backends when it has any, none of its
/// servers otherwise. A build with a backend set up but down is unknown even
/// while its proxy is up; "nobody online" is a known count of zero.
pub proof fn lemma_unknown_iff_nothing_live(s: Seq<GameServerEntry>)
    ensures
        has_backend(s) ==> (sum_online_spec(s) is None <==> forall|i: int|
            0 <= i < s.len() && !(#[trigger] s[i]).proxy ==> !s[i].live),
        !has_backend(s) ==> (sum_online_spec(s) is None <==> forall|i: int|
            0 <= i < s.len() ==> !(#[trigger] s[i]).live),
{
    lemma_tally_counts_none(s, has_backend(s));
}

/// The servers that count, and the sums of their online and maximum
/// counts: the backends when one is set up, else every server.
pub open spec fn counted_tally(s: Seq<GameServerEntry>) -> (nat, nat, nat) {
    tally(s, has_backend(s))
}

/// Whether a build has a backend set up.
fn any_backend(servers: &[GameServerEntry]) -> (r: bool)
    ensures
        r == has_backend(servers@),
{
    let n = servers.len();
    let mut found = false;
    for i in 0..n
        invariant
            n == servers@.len(),
            found == has_backend(servers@.take(i as int)),
    {
        proof {
            let pre = servers@.take(i as int);
            let next = servers@.take(i as int + 1);
            assert(has_backend(next) == (has_backend(pre) || !servers@[i as int].proxy)) by {
                if has_backend(pre) {
                    let j = choose|j: int| 0 <= j < pre.len() && !(#[trigger] pre[j]).proxy;
                    assert(next[j] == pre[j]);
                }
                if has_backend(next) && !has_backend(pre) {
                    let j = choose|j: int| 0 <= j < next.len() && !(#[trigger] next[j]).proxy;
                    if j < i {
                        assert(pre[j] == next[j]);
                    }
                }
                if !servers@[i as int].proxy {
                    assert(next[i as int] == servers@[i as int]);
                }
            }
        }
        if !servers[i].proxy {
            found = true;
        }
    }
    assert(servers@.take(n as int) =~= servers@);
    found
}

/// The online and maximum counts of a build's game servers, as
/// `sum_online_spec` gives them, where the sums of the servers that count
/// fit in a `u32`.
pub fn sum_online(servers: &[GameServerEntry]) -> (r: (Option<u32>, Option<u32>))
    requires
        counted_tally(servers@).1 <= u32::MAX,
        counted_tally(servers@).2 <= u32::MAX,
    ensures
        match sum_online_spec(servers@) {
            Some(t) => r.0 == Some(t.0 as u32) && r.1 == Some(t.1 as u32) && t.0 <= u32::MAX && t.1
                <= u32::MAX,
            None => r.0 is None && r.1 is None,
        },
{
    let backends_only = any_backend(servers);
    let ghost b = backends_only;
    let n = servers.len();
    let mut count: usize = 0;
    let mut online: u32 = 0;
    let mut max_online: u32 = 0;
    for i in 0..n
        invariant
            n == servers@.len(),
            b == backends_only,
            b == has_backend(servers@),
            tally(servers@, b).1 <= u32::MAX,
            tally(servers@, b).2 <= u32::MAX,
            (count as nat, online as nat, max_online as nat) == tally(servers@.take(i as int), b),
            count <= i,
    {
        proof {
            lemma_tally_prefix(servers@, i as int + 1, b);
            assert(servers@.take(i as int + 1).drop_last() =~= servers@.take(i as int));
        }
        let g = &servers[i];
        if g.live && (!backends_only || !g.proxy) {
            count = count + 1;
            online = online + g.online;
            max_online = max_online + g.max_online;
        }
    }
    assert(servers@.take(n as int) =~= servers@);
    if count > 0 {
        (Some(online), Some(max_online))
    } else {
        (None, None)
    }
}

/// The first proxy among the game servers, if there is one.
pub open spec fn first_proxy(s: Seq<GameServerEntry>) -> Option<int>
    decreases s.len(),
{
    if s.len() == 0 {
        None
    } else if s[0].proxy {
        Some(0)
    } else {
        match first_proxy(s.drop_first()) {
            Some(i) => Some(i + 1),
            None => None,
        }
    }
}

/// Where players connect: the proxy if one is set up, else the first server.
pub open spec fn entry_point_spec(s: Seq<GameServerEntry>) -> Option<int> {
    match first_proxy(s) {
        Some(i) => Some(i),
        None => if s.len() > 0 {
            Some(0)
        } else {
            None
        },
    }
}

proof fn lemma_first_proxy(s: Seq<GameServerEntry>, i: int)
    requires
        0 <= i <= s.len(),
        forall|j: int| 0 <= j < i ==> !(#[trigger] s[j]).proxy,
    ensures
        i < s.len() && s[i].proxy ==> first_proxy(s) == Some(i),
        i == s.len() ==> first_proxy(s) is None,
    decreases i,
{
    if i > 0 {
        assert forall|j: int| 0 <= j < i - 1 implies !(#[trigger] s.drop_first()[j]).proxy by {
            assert(s.drop_first()[j] == s[j + 1]);
        }
        lemma_first_proxy(s.drop_first(), i - 1);
    }
}

/// The index of the game server players connect to.
pub fn entry_point(servers: &[GameServerEntry]) -> (r: Option<usize>)
    ensures
        match r {
            Some(i) => i < servers@.len() && entry_point_spec(servers@) == Some(i as int),
            None => entry_point_spec(servers@) is None,
        },
{
    let n = servers.len();
    let mut i: usize = 0;
    while i < n
        invariant
            n == servers@.len(),
            i <= n,
            forall|j: int| 0 <= j < i ==> !(#[trigger] servers@[j]).proxy,
        decreases n - i,
    {
        if servers[i].proxy {
            proof {
                lemma_first_proxy(servers@, i as int);
            }
            return Some(i);
        }
        i = i + 1;
    }
    proof {
        lemma_first_proxy(servers@, n as int);
    }
    if n > 0 {
        Some(0)
    } else {
        None
    }
}

/// Server software whose players run a vanilla client.
pub open spec fn is_server_software(s: Seq<char>) -> bool {
    ||| s == "paper"@
    ||| s == "bukkit"@
    ||| s == "spigot"@
    ||| s == "purpur"@
    ||| s == "folia"@
    ||| s == "velocity"@
    ||| s == "bungeecord"@
}

/// ASCII lowercase of a string.
pub open spec fn lower(s: Seq<char>) -> Seq<char> {
    s.map_values(|c: char| ascii_lower(c))
}

/// The client loader for a server's stored loader, compared without ASCII
/// case: server software means a vanilla client; a loader's name means that
/// loader; anything else is unknown.
pub open spec fn client_modloader_spec(raw: Seq<char>) -> Option<Modloader> {
    let l = lower(raw);
    if is_server_software(l) {
        Some(Modloader::Vanilla)
    } else {
        loader_of_name(l)
    }
}

/// A stored loader that is neither a client loader nor known server
/// software; `value` is the name in lowercase.
#[derive(Clone, Debug)]
pub struct UnknownModloader {
    pub value: String,
}

fn is_server_software_exec(s: &str) -> (r: bool)
    ensures
        r == is_server_software(s@),
{
    str_eq(s, "paper") || str_eq(s, "bukkit") || str_eq(s, "spigot") || str_eq(s, "purpur")
        || str_eq(s, "folia") || str_eq(s, "velocity") || str_eq(s, "bungeecord")
}

/// The loader a player's client needs for a server. A typo is an error, not
/// a silent vanilla: a Fabric build would reach players without its loader.
pub fn client_modloader(raw: &str) -> (r: Result<Modloader, UnknownModloader>)
    ensures
        match r {
            Ok(m) => client_modloader_spec(raw@) == Some(m),
            Err(e) => client_modloader_spec(raw@) is None && e.value@ == lower(raw@),
        },
{
    let l = to_ascii_lowercase(raw);
    let name = string_from_chars(l.as_slice());
    if is_server_software_exec(name.as_str()) {
        Ok(Modloader::Vanilla)
    } else {
        match modloader_from_str(name.as_str()) {
            Some(m) => Ok(m),
            None => Err(UnknownModloader { value: name }),
        }
    }
}

/// A server as stored.
#[derive(Clone, Debug)]
pub struct ServerRow {
    pub id: u128,
    pub name: String,
    pub description: String,
    pub icon_url: Option<String>,
    pub background_url: Option<String>,
    pub modloader: String,
    pub mc_version: String,
    pub active: bool,
    pub limited: bool,
    pub sort_order: i32,
    pub created_at: UtcTime,
}

/// A build a player may pick for a server.
#[derive(Clone, Debug)]
pub struct BuildOption {
    pub id: u128,
    pub version: String,
    pub published: bool,
}

/// A server as the launcher lists it.
#[derive(Clone, Debug)]
pub struct ServerEntry {
    pub id: u128,
    pub name: String,
    pub description: String,
    pub icon_url: Option<String>,
    pub background_url: Option<String>,
    pub mc_host: Option<String>,
    pub mc_port: Option<u16>,
    pub modloader: Modloader,
    pub mc_version: String,
    pub current_build_id: Option<u128>,
    pub current_version: Option<String>,
    pub limited: bool,
    pub sort_order: i32,
    pub game_servers: Vec<GameServerEntry>,
    pub available_builds: Vec<BuildOption>,
    pub online: Option<u32>,
    pub max_online: Option<u32>,
}

/// The launcher's entry for a server, from the server, its newest published
/// build (id and version) if any, its game servers and the builds a player
/// may pick. Fails exactly when the stored loader is unknown.
pub fn server_entry(
    s: &ServerRow,
    current_build: Option<(u128, String)>,
    game_servers: Vec<GameServerEntry>,
    available_builds: Vec<BuildOption>,
) -> (r: Result<ServerEntry, UnknownModloader>)
    requires
        counted_tally(game_servers@).1 <= u32::MAX,
        counted_tally(game_servers@).2 <= u32::MAX,
    ensures
        r is Ok <==> client_modloader_spec(s.modloader@) is Some,
        match r {
            Ok(e) => {
                &&& e.id == s.id
                &&& e.name == s.name
                &&& e.description == s.description
                &&& e.icon_url == s.icon_url
                &&& e.background_url == s.background_url
                &&& e.mc_version == s.mc_version
                &&& e.limited == s.limited
                &&& e.sort_order == s.sort_order
                &&& client_modloader_spec(s.modloader@) == Some(e.modloader)
                &&& e.current_build_id == (match current_build {
                    Some(b) => Some(b.0),
                    None => None,
                })
                &&& e.current_version == (match current_build {
                    Some(b) => Some(b.1),
                    None => None,
                })
                &&& e.game_servers@ == game_servers@
                &&& e.available_builds@ == available_builds@
                &&& e.mc_host == (match entry_point_spec(game_servers@) {
                    Some(i) => Some(game_servers@[i].mc_host),
                    None => None,
                })
                &&& e.mc_port == (match entry_point_spec(game_servers@) {
                    Some(i) => Some(game_servers@[i].mc_port),
                    None => None,
                })
                &&& match sum_online_spec(game_servers@) {
                    Some(t) => e.online == Some(t.0 as u32) && e.max_online == Some(t.1 as u32),
                    None => e.online is None && e.max_online is None,
                }
            },
            Err(x) => x.value@ == lower(s.modloader@),
        },
{
    let modloader = match client_modloader(s.modloader.as_str()) {
        Ok(m) => m,
        Err(e) => {
            return Err(e);
        },
    };
    let (online, max_online) = sum_online(game_servers.as_slice());
    let (mc_host, mc_port) = match entry_point(game_servers.as_slice()) {
        Some(i) => (Some(game_servers[i].mc_host.clone()), Some(game_servers[i].mc_port)),
        None => (None, None),
    };
    let (current_build_id, current_version) = match current_build {
        Some(b) => (Some(b.0), Some(b.1)),
        None => (None, None),
    };
    Ok(
        ServerEntry {
            id: s.id,
            name: s.name.clone(),
            description: s.description.clone(),
            icon_url: clone_opt(&s.icon_url),
            background_url: clone_opt(&s.background_url),
            mc_host,
            mc_port,
            modloader,
            mc_version: s.mc_version.clone(),
            current_build_id,
            current_version,
            limited: s.limited,
            sort_order: s.sort_order,
            game_servers,
            available_builds,
            online,
            max_online,
        },
    )
}

fn clone_opt(o: &Option<String>) -> (r: Option<String>)
    ensures
        r == *o,
{
    match o {
        Some(v) => Some(v.clone()),
        None => None,
    }
}

} // verus!
