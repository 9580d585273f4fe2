use master::manifest::Modloader;
use master::servers::{
    client_modloader, entry_point, server_entry, sum_online, BuildOption, GameServerEntry,
    GameServerRow, ServerRow, LIVE_WINDOW_SECS,
};
use master::time::UtcTime;

#[test]
fn server_software_means_a_vanilla_client() {
    for raw in ["paper", "Spigot", "purpur", "velocity", "bungeecord"] {
        assert_eq!(client_modloader(raw).unwrap(), Modloader::Vanilla, "{raw}");
    }
}

#[test]
fn client_loaders_pass_through() {
    assert_eq!(client_modloader("fabric").unwrap(), Modloader::Fabric);
    assert_eq!(client_modloader("neoforge").unwrap(), Modloader::NeoForge);
    assert_eq!(client_modloader("vanilla").unwrap(), Modloader::Vanilla);
}

#[test]
fn an_unknown_value_is_an_error() {
    assert!(client_modloader("fabrci").is_err());
    assert!(client_modloader("").is_err());
}

#[test]
fn loader_names_are_compared_without_case() {
    assert_eq!(client_modloader("FABRIC").unwrap(), Modloader::Fabric);
    assert_eq!(client_modloader("Folia").unwrap(), Modloader::Vanilla);
    assert_eq!(client_modloader("Fabrci").unwrap_err().value, "fabrci");
}

fn gs(name: &str, proxy: bool, live: bool, online: u32, max: u32) -> GameServerEntry {
    GameServerEntry {
        id: 1,
        name: name.into(),
        mc_host: format!("{name}.example"),
        mc_port: 25565,
        proxy,
        online,
        max_online: max,
        live,
    }
}

#[test]
fn only_live_backends_are_counted() {
    let servers = vec![
        gs("proxy", true, true, 10, 100),
        gs("lobby", false, true, 4, 50),
        gs("survival", false, true, 6, 50),
        gs("dead", false, false, 0, 50),
    ];
    assert_eq!(sum_online(&servers), (Some(10), Some(100)));
}

#[test]
fn a_down_backend_leaves_the_count_unknown() {
    let servers = vec![gs("proxy", true, true, 5, 10), gs("dead", false, false, 0, 50)];
    assert_eq!(sum_online(&servers), (None, None));
}

#[test]
fn proxies_count_where_no_backend_is_set_up() {
    let servers = vec![gs("proxy", true, true, 7, 200), gs("spare", true, false, 3, 30)];
    assert_eq!(sum_online(&servers), (Some(7), Some(200)));
}

#[test]
fn nothing_live_is_unknown_not_zero() {
    let servers = vec![gs("dead", false, false, 0, 50)];
    assert_eq!(sum_online(&servers), (None, None));
    assert_eq!(sum_online(&[]), (None, None));
}

#[test]
fn the_entry_point_is_the_proxy_else_the_first_server() {
    let with_proxy = vec![gs("a", false, true, 0, 0), gs("p", true, true, 0, 0), gs("q", true, true, 0, 0)];
    assert_eq!(entry_point(&with_proxy), Some(1));
    let without = vec![gs("a", false, true, 0, 0), gs("b", false, true, 0, 0)];
    assert_eq!(entry_point(&without), Some(0));
    assert_eq!(entry_point(&[]), None);
}

fn row(kind: &str, last_seen: Option<i64>, online: i32) -> GameServerRow {
    GameServerRow {
        id: 9,
        server_id: 1,
        name: "survival".into(),
        mc_host: "mc.example".into(),
        mc_port: 25566,
        token_hash: "h".into(),
        sort_order: 0,
        online,
        max_online: -3,
        version: None,
        last_seen_at: last_seen.map(|s| UtcTime { secs: s, nanos: 0 }),
        created_at: UtcTime { secs: 0, nanos: 0 },
        kind: kind.into(),
    }
}

#[test]
fn a_server_is_live_within_the_window() {
    let now = UtcTime { secs: 1_000_000, nanos: 0 };
    assert!(row("server", Some(1_000_000 - LIVE_WINDOW_SECS + 1), 0).live_at(now));
    assert!(!row("server", Some(1_000_000 - LIVE_WINDOW_SECS), 0).live_at(now));
    assert!(!row("server", None, 0).live_at(now));
}

#[test]
fn a_dead_server_shows_no_players() {
    let now = UtcTime { secs: 1_000_000, nanos: 0 };
    let live = row("proxy", Some(999_990), 12).to_entry_at(now);
    assert!(live.live && live.proxy);
    assert_eq!(live.online, 12);
    assert_eq!(live.max_online, 0);
    assert_eq!(live.mc_port, 25566);
    let dead = row("server", Some(1), 12).to_entry_at(now);
    assert!(!dead.live && !dead.proxy);
    assert_eq!(dead.online, 0);
    let never = row("server", None, 5);
    assert!(!never.live());
    assert_eq!(never.to_entry().online, 0);
}

fn server(modloader: &str) -> ServerRow {
    ServerRow {
        id: 42,
        name: "Main".into(),
        description: "d".into(),
        icon_url: Some("i".into()),
        background_url: None,
        modloader: modloader.into(),
        mc_version: "1.20.1".into(),
        active: true,
        limited: false,
        sort_order: 3,
        created_at: UtcTime { secs: 0, nanos: 0 },
    }
}

#[test]
fn a_server_entry_joins_its_parts() {
    let servers = vec![gs("lobby", false, true, 2, 20), gs("proxy", true, true, 9, 99)];
    let builds = vec![BuildOption { id: 5, version: "1.0".into(), published: true }];
    let e = server_entry(&server("Paper"), Some((5, "1.0".into())), servers, builds).unwrap();
    assert_eq!(e.id, 42);
    assert_eq!(e.modloader, Modloader::Vanilla);
    assert_eq!(e.mc_host.as_deref(), Some("proxy.example"));
    assert_eq!(e.mc_port, Some(25565));
    assert_eq!(e.current_build_id, Some(5));
    assert_eq!(e.current_version.as_deref(), Some("1.0"));
    assert_eq!((e.online, e.max_online), (Some(2), Some(20)));
    assert_eq!(e.game_servers.len(), 2);
    assert_eq!(e.available_builds.len(), 1);
    assert_eq!(e.icon_url.as_deref(), Some("i"));
}

#[test]
fn a_server_with_an_unknown_loader_has_no_entry() {
    let err = server_entry(&server("Fabrik"), None, vec![], vec![]).unwrap_err();
    assert_eq!(err.value, "fabrik");
    let e = server_entry(&server("quilt"), None, vec![], vec![]).unwrap();
    assert_eq!(e.mc_host, None);
    assert_eq!(e.online, None);
    assert_eq!(e.current_build_id, None);
}

#[test]
fn every_row_becomes_an_entry_in_order() {
    let rows = vec![row("proxy", None, 1), row("server", None, 2)];
    let entries = master::servers::game_server_entries(&rows);
    assert_eq!(entries.len(), 2);
    assert!(entries[0].proxy && !entries[1].proxy);
    assert!(!entries[0].live);
}
