use dayz_community_hub_core::api::{Endpoint, Mod, Server};
use dayz_community_hub_core::direct::{
    find_direct_server, found_plan, not_found_plan, placeholder_server, resolve_direct_target,
    DirectAction,
};
use dayz_community_hub_core::error::Error;

fn server(ip: &str, port: i64, game_port: i64, name: &str, mods: Vec<Mod>) -> Server {
    Server { name: name.into(), endpoint: Endpoint { ip: ip.into(), port }, game_port, mods, ..Default::default() }
}

#[test]
fn address_with_port_wins() {
    let t = resolve_direct_target(" 1.2.3.4:2402 ", "2302");
    assert_eq!((t.ip.as_str(), t.port_text.as_str(), t.port, t.fields_updated), ("1.2.3.4", "2402", 2402, true));
    let t = resolve_direct_target("1.2.3.4", " 2500 ");
    assert_eq!((t.ip.as_str(), t.port, t.fields_updated), ("1.2.3.4", 2500, false));
    let t = resolve_direct_target("host:notaport", "x");
    assert_eq!((t.ip.as_str(), t.port, t.fields_updated), ("host:notaport", 2302, false));
}

#[test]
fn servers_found_by_ip_and_port() {
    let list = vec![
        server("9.9.9.9", 27016, 2302, "other", vec![]),
        server("1.2.3.4", 27016, 2302, "A", vec![]),
        server(" 1.2.3.4 ", 27017, 2402, "B", vec![]),
    ];
    assert_eq!(find_direct_server(&list, "1.2.3.4", 2402), Some((2, false)));
    assert_eq!(find_direct_server(&list, "1.2.3.4", 27016), Some((1, false)));
    assert_eq!(find_direct_server(&list, "1.2.3.4", 9999), Some((1, true)));
    assert_eq!(find_direct_server(&list, "5.5.5.5", 2302), None);
}

#[test]
fn missing_mods_are_listed() {
    let mods = vec![Mod { name: "CF".into(), steam_workshop_id: 1 }];
    let s = server("1.2.3.4", 27016, 2302, "Alpha", mods);
    let ids: Vec<u64> = (1..=12).collect();
    let p = found_plan(&s, Ok(ids.clone()));
    assert_eq!(p.status, "Found: Alpha (1.2.3.4:2302)");
    assert_eq!(p.title, "Missing 12 Mods");
    assert!(p.message.starts_with("Server: Alpha\nInstall missing mods?\n  CF (1)\n  2\n"));
    assert!(p.message.ends_with("  10\n  ...and 2 more"));
    assert_eq!(p.action, DirectAction::InstallMods(ids));
}

#[test]
fn other_plans() {
    let s = server("1.2.3.4", 27016, 2302, "Alpha", vec![Mod::default()]);
    let p = found_plan(&s, Ok(vec![]));
    assert_eq!(p.title, "Update mods?");
    assert_eq!(p.message, "Server: Alpha\n1 mods installed. Update before launching?");
    assert_eq!(p.action, DirectAction::UpdateThenLaunch);
    let bare = server("1.2.3.4", 27016, 2302, "Bare", vec![]);
    assert_eq!(found_plan(&bare, Ok(vec![])).message, "Connect to Bare?");
    let e = found_plan(&bare, Err(Error::Io("denied".into())));
    assert!(e.warn);
    assert_eq!(e.status, "Could not check mods: IO error: denied");
    assert_eq!(e.action, DirectAction::LaunchDirect);
    let n = not_found_plan("5.5.5.5", 2302);
    assert_eq!(n.status, "Not found in server list: 5.5.5.5:2302");
    assert_eq!(n.message, "5.5.5.5:2302 not found in server list.\nMod info unavailable.\nConnect anyway?");
    let ph = placeholder_server("5.5.5.5", 2302);
    assert_eq!((ph.name.as_str(), ph.game_port, ph.endpoint.port), ("5.5.5.5:2302", 2302, 2302));
}
