use dayz_community_hub_core::api::{Endpoint, Mod, Root, Server, ServerListCache};
use dayz_community_hub_core::dayzavr::{mod_files, ModFile};
use dayz_community_hub_core::steamcmd::SteamCmd;

fn s(ip: &str, port: i64, game_port: i64, name: &str) -> Server {
    Server { name: name.into(), endpoint: Endpoint { ip: ip.into(), port }, game_port, ..Default::default() }
}

fn list() -> Root {
    Root {
        status: 0,
        result: vec![
            s("1.1.1.1", 27016, 2302, "A"),
            s("1.1.1.1", 27017, 2402, "B"),
            s("2.2.2.2", 27016, 2302, "C"),
        ],
    }
}

#[test]
fn server_lookups() {
    let l = list();
    assert_eq!(l.count(), 3);
    assert_eq!(l.find_server("1.1.1.1", 27017).map(|x| x.name.as_str()), Some("B"));
    assert!(l.find_server("1.1.1.1", 2402).is_none());
    assert_eq!(l.find_server_by_game_port("1.1.1.1", 2402).map(|x| x.name.as_str()), Some("B"));
    assert_eq!(l.find_server_flexible("1.1.1.1", 2402).map(|x| x.name.as_str()), Some("B"));
    assert_eq!(l.find_server_flexible("2.2.2.2", 27016).map(|x| x.name.as_str()), Some("C"));
    assert!(l.find_server_flexible("3.3.3.3", 2302).is_none());
    let by_ip: Vec<&str> = l.find_servers_by_ip(" 1.1.1.1 ").iter().map(|x| x.name.as_str()).collect();
    assert_eq!(by_ip, ["A", "B"]);
}

#[test]
fn server_mod_ids_and_cache_age() {
    let mut a = s("1.1.1.1", 1, 2, "A");
    a.mods = vec![Mod { name: "CF".into(), steam_workshop_id: 1559212036 }];
    assert_eq!(a.mod_ids(), vec![1559212036]);
    let c = ServerListCache { fetched_at: 1000, list: list() };
    assert!(c.is_fresh_at(1100, 300));
    assert!(!c.is_fresh_at(1400, 300));
    assert!(c.is_fresh_at(900, 1));
    assert!(!c.is_fresh(0));
}

#[test]
fn requested_manifest_files() {
    let f = |p: &str| ModFile { path: p.into(), crc32: 0, size: 1 };
    let manifest = vec![f("@A/addons/a.pbo"), f("@B/addons/b.pbo"), f("@A/meta.cpp")];
    let picked: Vec<&str> = mod_files(&manifest, &vec!["@A".to_string()]).iter().map(|m| m.path.as_str()).collect();
    assert_eq!(picked, ["@A/addons/a.pbo", "@A/meta.cpp"]);
}

#[test]
fn steamcmd_game_id() {
    let c = SteamCmd::new("/s", "/r", None).with_game_id(221100);
    assert_eq!(c.game_id(), 221100);
    assert_eq!(c.steamcmd_path(), "/s");
}
