use dayz_community_hub_core::dto::{app_stats, profile_to_dto};
use dayz_community_hub_core::session::{set_option_value, toggle_option_by_key};
use dayz_community_hub_core::api::{Endpoint, Server};
use dayz_community_hub_core::config::{
    default_data_dir, default_profile_path, launch_options_from_entries, LaunchOption,
    LaunchOptions, Profile, ProfileSettings, option_from_stored, StoredValue,
};

fn fresh() -> Profile {
    Profile::default_with_version("1.2.3")
}

#[test]
fn fresh_profile_is_empty() {
    let p = fresh();
    assert!(p.steamcmd_enabled);
    assert!(p.steam_login.is_none());
    assert!(p.favorites.is_empty() && p.history.is_empty() && p.excluded_ips.is_empty());
    assert_eq!(p.version, "1.2.3");
    assert_eq!(p.path, "");
}

#[test]
fn default_options_give_default_args() {
    let o = LaunchOptions::defaults();
    assert_eq!(o.to_args(), ["-nosplash", "-skipIntro", "-nolauncher", "-high", "-world=empty"]);
    let all = o.all_options();
    assert_eq!(all.len(), 19);
    assert_eq!(all[0].0, "window");
    assert_eq!(all[0].1.description, "Run in windowed mode");
    assert_eq!(all[18].0, "profiles");
}

#[test]
fn enabled_option_with_value_becomes_flag_with_value() {
    let mut o = LaunchOptions::defaults();
    o.max_mem.enabled = true;
    o.max_mem.value = Some("8192".to_string());
    o.window.enabled = true;
    o.world.enabled = false;
    assert_eq!(o.to_args(), ["-window", "-nosplash", "-skipIntro", "-nolauncher", "-high", "-maxMem=8192"]);
}

#[test]
fn options_from_entries_accept_old_names() {
    let on = |v: Option<&str>| LaunchOption {
        enabled: true,
        value: v.map(|s| s.to_string()),
        description: "x".to_string(),
    };
    let entries = vec![("window".to_string(), on(None)), ("maxMem".to_string(), on(Some("4096")))];
    let o = launch_options_from_entries(&entries);
    assert!(o.window.enabled);
    assert!(o.max_mem.enabled);
    assert_eq!(o.max_mem.value.as_deref(), Some("4096"));
    assert!(o.nosplash.enabled);
    assert_eq!(o.nosplash.description, "Skip splash screen");
}

#[test]
fn data_paths_under_home() {
    assert_eq!(default_data_dir("/home/u"), "/home/u/.local/share/dayz-community-hub");
    assert_eq!(
        default_profile_path("/home/u"),
        "/home/u/.local/share/dayz-community-hub/profile.json"
    );
}

#[test]
fn add_favorite_updates_existing() {
    let mut p = fresh();
    p.add_favorite("A".into(), "1.1.1.1".into(), 2302, None);
    p.add_favorite("B".into(), "2.2.2.2".into(), 2302, None);
    p.add_favorite("A2".into(), "1.1.1.1".into(), 2302, Some("pw".into()));
    assert_eq!(p.favorites.len(), 2);
    assert_eq!(p.favorites[0].name, "A2");
    assert_eq!(p.favorites[0].password.as_deref(), Some("pw"));
    assert!(p.is_favorite("1.1.1.1", 2302));
    assert!(!p.is_favorite("1.1.1.1", 2303));
}

#[test]
fn add_then_remove_favorite() {
    let mut p = fresh();
    p.add_favorite("A".into(), "1.1.1.1".into(), 2302, None);
    p.add_favorite("B".into(), "2.2.2.2".into(), 2302, None);
    p.remove_favorite("1.1.1.1", 2302);
    assert!(!p.is_favorite("1.1.1.1", 2302));
    assert_eq!(p.favorites.len(), 1);
    assert_eq!(p.favorites[0].name, "B");
    p.remove_favorite_by_name("B");
    assert!(p.favorites.is_empty());
}

#[test]
fn history_is_most_recent_first_without_duplicates() {
    let mut p = fresh();
    p.add_history_at("A".into(), "1.1.1.1".into(), 1, 10);
    p.add_history_at("B".into(), "2.2.2.2".into(), 1, 20);
    p.add_history_at("A again".into(), "1.1.1.1".into(), 1, 30);
    assert_eq!(p.history.len(), 2);
    assert_eq!(p.history[0].name, "A again");
    assert_eq!(p.history[0].ts, 30);
    assert_eq!(p.history[1].name, "B");
    p.add_history("C".into(), "3.3.3.3".into(), 1);
    assert_eq!(p.history[0].ip, "3.3.3.3");
    assert!(p.history[0].extra.is_none());
}

#[test]
fn excluded_ips_have_no_duplicates() {
    let mut p = fresh();
    p.add_excluded_ip("1.1.1.1".into());
    p.add_excluded_ip("1.1.1.1".into());
    assert_eq!(p.excluded_ips.len(), 1);
    assert!(p.is_excluded("1.1.1.1"));
    p.remove_excluded_ip("1.1.1.1");
    assert!(!p.is_excluded("1.1.1.1"));
}

fn server(ip: &str, port: i64, game_port: i64, name: &str) -> Server {
    Server {
        endpoint: Endpoint { ip: ip.to_string(), port },
        game_port,
        name: name.to_string(),
        ..Default::default()
    }
}

#[test]
fn favorites_find_their_servers() {
    let mut p = fresh();
    p.add_favorite("q".into(), "1.1.1.1".into(), 27016, None);
    p.add_favorite("g".into(), "1.1.1.1".into(), 2302, None);
    p.add_favorite("none".into(), "9.9.9.9".into(), 2302, None);
    let servers = vec![
        server("1.1.1.1", 27016, 2302, "first"),
        server("1.1.1.1", 27016, 2402, "second"),
    ];
    let st = p.get_favorites_with_status(&servers);
    assert_eq!(st.len(), 3);
    assert_eq!(st[0].server.map(|s| s.name.as_str()), Some("second"));
    assert_eq!(st[1].server.map(|s| s.name.as_str()), Some("first"));
    assert!(st[2].server.is_none());
    assert_eq!(st[2].favorite.name, "none");
}

#[test]
fn history_entry_removal() {
    let mut p = fresh();
    p.add_history_at("A".to_string(), "1.1.1.1".to_string(), 2302, 10);
    p.add_history_at("B".to_string(), "2.2.2.2".to_string(), 2302, 20);
    p.add_history_at("C".to_string(), "1.1.1.1".to_string(), 2402, 30);
    p.remove_history_entry("1.1.1.1", 2302);
    let left: Vec<(&str, u16)> = p.history.iter().map(|h| (h.name.as_str(), h.port)).collect();
    assert_eq!(left, [("C", 2402), ("B", 2302)]);
    p.remove_history_entry("9.9.9.9", 1);
    assert_eq!(p.history.len(), 2);
    p.clear_history();
    assert!(p.history.is_empty());
}

#[test]
fn settings_application() {
    let mut p = fresh();
    p.add_favorite("F".to_string(), "1.1.1.1".to_string(), 2302, None);
    let s = ProfileSettings {
        player: Some("Survivor".to_string()),
        steam_login: Some("me".to_string()),
        steam_password: None,
        steam_root: Some("/steam".to_string()),
        steamcmd_enabled: false,
        steamcmd_path: None,
        steam_api_key: None,
        steam_id: None,
        battlemetrics_api_key: Some("bm".to_string()),
    };
    assert!(!p.apply_settings(s));
    assert_eq!(p.player.as_deref(), Some("Survivor"));
    assert!(!p.steamcmd_enabled);
    assert_eq!(p.favorites.len(), 1);
    let s2 = ProfileSettings {
        player: None,
        steam_login: None,
        steam_password: None,
        steam_root: None,
        steamcmd_enabled: true,
        steamcmd_path: None,
        steam_api_key: Some("key".to_string()),
        steam_id: None,
        battlemetrics_api_key: None,
    };
    assert!(p.apply_settings(s2));
    assert_eq!(p.steam_api_key.as_deref(), Some("key"));
}

#[test]
fn profile_for_display() {
    let mut p = fresh();
    p.player = Some("Survivor".to_string());
    p.add_favorite("F".to_string(), "1.1.1.1".to_string(), 2302, Some("pw".to_string()));
    p.add_history_at("H".to_string(), "2.2.2.2".to_string(), 2402, 77);
    p.add_excluded_ip("3.3.3.3".to_string());
    let d = profile_to_dto(&p, &vec!["5m ago".to_string()]);
    assert_eq!(d.player.as_deref(), Some("Survivor"));
    assert_eq!(d.favorites.len(), 1);
    assert_eq!((d.favorites[0].name.as_str(), d.favorites[0].password.as_deref()), ("F", Some("pw")));
    assert_eq!((d.history[0].ts, d.history[0].relative_time.as_str()), (77, "5m ago"));
    assert_eq!(d.options.len(), 19);
    assert_eq!(d.options[10].key, "world");
    assert_eq!(d.options[10].value.as_deref(), Some("empty"));
    assert_eq!(d.excluded_ips, ["3.3.3.3"]);
}

#[test]
fn title_figures() {
    let s = |players: i64| Server { players, endpoint: Endpoint { ip: "1.1.1.1".into(), port: 1 }, ..Default::default() };
    let st = app_stats(&vec![s(10), s(32)], &Some("Bob".to_string()), None, false);
    assert_eq!((st.server_count, st.total_players), (2, 42));
    assert_eq!(st.player_name.as_deref(), Some("Bob"));
    assert!(st.steam_login.is_none() && !st.has_steamcmd);
}

#[test]
fn options_by_key() {
    let mut o = LaunchOptions::defaults();
    assert_eq!(toggle_option_by_key(&mut o, "window"), Ok(true));
    assert!(o.window.enabled);
    assert_eq!(toggle_option_by_key(&mut o, "nosplash"), Ok(false));
    assert_eq!(toggle_option_by_key(&mut o, "bogus"), Err("Unknown option: bogus".to_string()));
    assert_eq!(set_option_value(&mut o, "cpu_count", Some("4".to_string())), Ok(()));
    assert!(o.cpu_count.enabled);
    assert_eq!(o.cpu_count.value.as_deref(), Some("4"));
    assert_eq!(set_option_value(&mut o, "cpu_count", None), Ok(()));
    assert!(o.cpu_count.enabled && o.cpu_count.value.is_none());
    assert_eq!(set_option_value(&mut o, "nope", None), Err("Unknown option: nope".to_string()));
}

#[test]
fn stored_option_values() {
    let o = option_from_stored(true, Some(StoredValue::Number("2048".to_string())), None);
    assert_eq!((o.enabled, o.value.as_deref(), o.description.as_str()), (true, Some("2048"), ""));
    let b = option_from_stored(false, Some(StoredValue::Bool(true)), Some("d".to_string()));
    assert_eq!((b.value.as_deref(), b.description.as_str()), (Some("true"), "d"));
    assert!(option_from_stored(true, Some(StoredValue::Null), None).value.is_none());
    assert!(option_from_stored(true, None, None).value.is_none());
    let t = option_from_stored(true, Some(StoredValue::Text("x".to_string())), None);
    assert_eq!(t.value.as_deref(), Some("x"));
    let other = option_from_stored(true, Some(StoredValue::Other("[1,2]".to_string())), None);
    assert_eq!(other.value.as_deref(), Some("[1,2]"));
}

#[test]
fn history_keeps_extra_fields() {
    let mut p = fresh();
    p.history.push(dayz_community_hub_core::config::History {
        name: "Old".to_string(),
        ip: "9.9.9.9".to_string(),
        port: 1,
        ts: 3,
        extra: Some(serde_json::Value::String("kept".to_string())),
    });
    p.add_history_at("New".to_string(), "1.1.1.1".to_string(), 2, 5);
    assert_eq!(p.history[1].extra, Some(serde_json::Value::String("kept".to_string())));
    p.remove_history_entry("1.1.1.1", 2);
    assert_eq!(p.history.len(), 1);
    assert_eq!(p.history[0].extra, Some(serde_json::Value::String("kept".to_string())));
}
