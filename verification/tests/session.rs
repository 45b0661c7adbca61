use dayz_community_hub_core::api::{Endpoint, Mod, Server};
use dayz_community_hub_core::config::{Favorite, History, LaunchOptions};
use dayz_community_hub_core::error::Error;
use dayz_community_hub_core::mods::InstalledMod;
use dayz_community_hub_core::session::{
    apply_option_edit_at, connect_step, list_len, option_edit_start, selected_server,
    toggle_option_at, ConnectStep, ListCounts,
};
use dayz_community_hub_core::tui::Tab;
use dayz_community_hub_core::workshop::{
    chunk_ids, default_steamapps, details_query, mods_with_updates, steam_root_candidates,
    steamcmd_candidates, dayz_search_roots,
};

fn server(ip: &str, port: i64, game_port: i64, name: &str) -> Server {
    Server { name: name.into(), endpoint: Endpoint { ip: ip.into(), port }, game_port, ..Default::default() }
}

#[test]
fn selection_per_tab() {
    let servers = vec![server("1.1.1.1", 27016, 2302, "A"), server("2.2.2.2", 27016, 2302, "B")];
    let favs = vec![Favorite { name: "b".into(), ip: "2.2.2.2".into(), port: 2302, password: None }];
    let hist = vec![History { name: "x".into(), ip: "9.9.9.9".into(), port: 1, ts: 0, extra: None }];
    assert_eq!(selected_server(Tab::Servers, 1, &None, &servers, &favs, &hist), Some(1));
    assert_eq!(selected_server(Tab::Servers, 0, &Some(vec![1]), &servers, &favs, &hist), Some(1));
    assert_eq!(selected_server(Tab::Servers, 1, &Some(vec![1]), &servers, &favs, &hist), None);
    assert_eq!(selected_server(Tab::Favorites, 0, &None, &servers, &favs, &hist), Some(1));
    assert_eq!(selected_server(Tab::History, 0, &None, &servers, &favs, &hist), None);
    assert_eq!(selected_server(Tab::Mods, 0, &None, &servers, &favs, &hist), None);
}

#[test]
fn list_lengths() {
    let c = ListCounts { filtered: Some(2), servers: 10, favorites: 3, history: 4, mods: None, news: Some(7), missions: None };
    assert_eq!(list_len(Tab::Servers, &c), 2);
    assert_eq!(list_len(Tab::Options, &c), 19);
    assert_eq!(list_len(Tab::DirectConnect, &c), 5);
    assert_eq!(list_len(Tab::Mods, &c), 0);
    assert_eq!(list_len(Tab::News, &c), 7);
}

#[test]
fn connecting_asks_first() {
    let mut s = server("1.1.1.1", 27016, 2302, "A");
    s.mods = vec![Mod { name: "CF".into(), steam_workshop_id: 5 }];
    match connect_step(&s, Ok(vec![5, 6])) {
        ConnectStep::AskInstall { title, message, missing } => {
            assert_eq!(title, "Missing 2 Mods");
            assert_eq!(message, "Install these mods?\nCF (5)\n6");
            assert_eq!(missing, [5, 6]);
        }
        other => panic!("unexpected {:?}", other),
    }
    assert!(matches!(connect_step(&s, Ok(vec![])), ConnectStep::AskUpdate { .. }));
    match connect_step(&server("1.1.1.1", 1, 2, "B"), Err(Error::Mod("x".into()))) {
        ConnectStep::Launch { warning: Some(w) } => assert_eq!(w, "Could not check mods: Mod error: x. Launching anyway."),
        other => panic!("unexpected {:?}", other),
    }
    assert!(matches!(connect_step(&server("1.1.1.1", 1, 2, "B"), Ok(vec![])), ConnectStep::Launch { warning: None }));
}

#[test]
fn editing_options() {
    let mut o = LaunchOptions::defaults();
    assert_eq!(toggle_option_at(&mut o, 0).as_deref(), Some("window: enabled"));
    assert!(o.window.enabled);
    assert_eq!(toggle_option_at(&mut o, 19), None);
    assert_eq!(option_edit_start(&o, 10), "empty");
    let (s, set) = apply_option_edit_at(&mut o, 12, "  8192 ").unwrap();
    assert_eq!((s.as_str(), set), ("max_mem = 8192", true));
    assert!(o.max_mem.enabled);
    let (s, set) = apply_option_edit_at(&mut o, 10, "   ").unwrap();
    assert_eq!((s.as_str(), set), ("world: value cleared", false));
    assert!(o.world.value.is_none() && o.world.enabled);
    assert!(o.to_args().contains(&"-maxMem=8192".to_string()));
}

#[test]
fn workshop_requests() {
    let ids: Vec<u64> = (1..=250).collect();
    let chunks = chunk_ids(&ids, 100);
    assert_eq!(chunks.iter().map(|c| c.len()).collect::<Vec<_>>(), [100, 100, 50]);
    assert_eq!(chunks[2][0], 201);
    assert!(chunk_ids(&vec![], 100).is_empty());
    let q = details_query(&Some("K".into()), &vec![7, 8]);
    let q: Vec<(&str, &str)> = q.iter().map(|(a, b)| (a.as_str(), b.as_str())).collect();
    assert_eq!(
        q,
        [
            ("key", "K"),
            ("includetags", "0"),
            ("includeadditionalpreviews", "0"),
            ("includechildren", "0"),
            ("includesummary", "0"),
            ("includevotes", "0"),
            ("publishedfileids[0]", "7"),
            ("publishedfileids[1]", "8"),
        ]
    );
    assert_eq!(details_query(&Some(String::new()), &vec![]).len(), 5);
}

#[test]
fn update_state_of_mods() {
    let m = |id: u64| InstalledMod { name: format!("m{}", id), id, local_updated: 100, size: 0, managed: false };
    let out = mods_with_updates(&vec![m(1), m(2), m(3)], &vec![(1, 50), (2, 150), (1, 200)]);
    assert_eq!(out.iter().map(|d| d.update_available).collect::<Vec<_>>(), [true, true, false]);
    assert_eq!(out[0].remote_updated, Some(200));
    assert_eq!(out[2].remote_updated, None);
}

#[test]
fn search_locations() {
    let roots = steam_root_candidates("/home/u");
    assert_eq!(roots[0], "/home/u/.steam/steam/steamapps");
    assert_eq!(roots.len(), 7);
    let cmds = steamcmd_candidates("/home/u");
    assert_eq!(cmds[0], "/home/u/.steam/steamcmd/steamcmd.sh");
    assert_eq!(cmds[4], "/usr/games/steamcmd");
    assert_eq!(cmds.len(), 13);
    assert_eq!(dayz_search_roots("/h")[4], "/h/snap/steam/common/.local/share/Steam");
    assert_eq!(default_steamapps("/h"), "/h/.steam/steam/steamapps");
}
