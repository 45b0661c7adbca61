use dayz_community_hub_core::a2s::{
    a2s_address, duration_to_ms_floor1, extract_mods_from_rules, server_details, A2sInfo,
    A2sPlayer, A2sRule,
};
use dayz_community_hub_core::api::{Endpoint, Server};
use dayz_community_hub_core::keys::{handle_key, Command, Key, KeyContext, PopupKind};
use dayz_community_hub_core::steamcmd::ModProgress;
use dayz_community_hub_core::tui::{
    finish_outcome, jump_to_end, move_field, move_selection, progress_step, update_search_filter,
    visible_items, DirectConnectField, ListCursors, ProgressPhase, StatusLevel, Tab,
};
use dayz_community_hub_core::widgets::{keybinds_for_tab, player_color, wrap_text, PlayerColor};

fn server(name: &str, ip: &str, map: &str) -> Server {
    Server {
        name: name.into(),
        endpoint: Endpoint { ip: ip.into(), port: 27016 },
        map: map.into(),
        ..Default::default()
    }
}

#[test]
fn durations_round_up_to_one_millisecond() {
    assert_eq!(duration_to_ms_floor1(0), 0);
    assert_eq!(duration_to_ms_floor1(500), 1);
    assert_eq!(duration_to_ms_floor1(300_000), 1);
    assert_eq!(duration_to_ms_floor1(42_500_000), 42);
    assert_eq!(duration_to_ms_floor1(std::time::Duration::from_millis(7).as_nanos()), 7);
}

#[test]
fn a2s_address_and_mods() {
    assert_eq!(a2s_address(&server("a", "1.2.3.4", "m")), "1.2.3.4:27016");
    let rules = vec![
        A2sRule { name: "mod".into(), value: "CF".into() },
        A2sRule { name: "other".into(), value: "x".into() },
        A2sRule { name: "mod".into(), value: "Expansion".into() },
    ];
    assert_eq!(extract_mods_from_rules(&rules), ["CF", "Expansion"]);
}

#[test]
fn details_text() {
    let info = A2sInfo {
        name: "S".into(),
        map: "chernarusplus".into(),
        game: "DayZ".into(),
        players: 3,
        max_players: 60,
        version: "1.27".into(),
    };
    let d = server_details(
        info,
        12,
        Some(vec![A2sPlayer { name: "Bob".into(), score: -1 }]),
        Some(vec![A2sRule { name: "mod".into(), value: "CF".into() }]),
    );
    assert_eq!(d.ping_ms, Some(12));
    assert_eq!(d.mods_from_rules, ["CF"]);
    assert_eq!(
        d.format(),
        "Server: S\nMap: chernarusplus\nGame: DayZ\nPlayers: 3/60\nVersion: 1.27\nOnline players:\n  Bob (-1 score)\nRules:\n  mod = CF"
    );
}

#[test]
fn tabs_cycle() {
    assert_eq!(Tab::Offline.next(), Tab::Servers);
    assert_eq!(Tab::Servers.prev(), Tab::Offline);
    assert_eq!(Tab::all().len(), 8);
    assert_eq!(Tab::News.index(), 4);
    for t in Tab::all() {
        assert_eq!(t.next().prev(), t);
    }
}

#[test]
fn direct_connect_fields_wrap() {
    assert_eq!(move_field(DirectConnectField::Address, -1), DirectConnectField::Connect);
    assert_eq!(move_field(DirectConnectField::Connect, 1), DirectConnectField::Address);
    assert_eq!(move_field(DirectConnectField::Port, 2), DirectConnectField::ServerInfo);
}

#[test]
fn list_scrolling() {
    assert_eq!(visible_items(Tab::Servers, 40), 15);
    assert_eq!(visible_items(Tab::News, 40), 31);
    assert_eq!(visible_items(Tab::News, 5), 3);
    assert_eq!(move_selection(10, 0, 0, -1, 3), (0, 0));
    assert_eq!(move_selection(10, 2, 0, 1, 3), (3, 1));
    assert_eq!(move_selection(10, 5, 5, 20, 3), (9, 7));
    assert_eq!(move_selection(0, 4, 2, 1, 3), (4, 2));
    assert_eq!(jump_to_end(10, 0, 0, 3), (9, 7));
    assert_eq!(jump_to_end(2, 0, 0, 3), (1, 0));
}

#[test]
fn search_filter() {
    let servers = vec![
        server("Alpha PvE", "1.1.1.1", "chernarusplus"),
        server("Beta", "2.2.2.2", "Livonia"),
        server("Gamma", "3.3.3.3", "namalsk"),
    ];
    assert_eq!(update_search_filter(&servers, ""), None);
    assert_eq!(update_search_filter(&servers, "ALPHA"), Some(vec![0]));
    assert_eq!(update_search_filter(&servers, "liv"), Some(vec![1]));
    assert_eq!(update_search_filter(&servers, "3.3"), Some(vec![2]));
    assert_eq!(update_search_filter(&servers, "a"), Some(vec![0, 1, 2]));
}

#[test]
fn progress_events() {
    let p = progress_step(None, ModProgress::ShuttingDownSteam).unwrap();
    assert!(matches!(p.phase, ProgressPhase::ShuttingDownSteam));
    let p = progress_step(
        Some(p),
        ModProgress::Starting { current: 1, total: 2, mod_id: 5, name: "CF".into() },
    )
    .unwrap();
    assert!(matches!(p.phase, ProgressPhase::Downloading));
    assert_eq!((p.current, p.total, p.current_mod_id), (1, 2, 5));
    let p = progress_step(Some(p), ModProgress::Done { current: 1, total: 2, mod_id: 5, name: "CF".into() })
        .unwrap();
    assert_eq!(p.completed, vec![(5, "CF".to_string(), true)]);
    assert!(progress_step(None, ModProgress::Done { current: 1, total: 2, mod_id: 5, name: "CF".into() }).is_none());
}

#[test]
fn finishing_an_operation() {
    let o = finish_outcome(3, 0, 3, &None);
    assert_eq!(o.status, "Completed: 3 mods OK");
    assert_eq!(o.level, StatusLevel::Success);
    assert!(o.run_pending);
    assert_eq!(finish_outcome(0, 0, 0, &None).status, "All mods already up to date");
    let w = finish_outcome(1, 2, 3, &None);
    assert_eq!(w.status, "Completed: 1 OK, 2 failed");
    assert_eq!(w.level, StatusLevel::Warn);
    let hint = Some("Cached credentials not found.\nRun:\n  steamcmd +login bob +quit  \n".to_string());
    let h = finish_outcome(0, 1, 1, &hint);
    assert_eq!(h.level, StatusLevel::Error);
    assert!(!h.run_pending);
    let (title, text) = h.popup.unwrap();
    assert_eq!(title, "SteamCMD Login Required");
    assert!(text.contains("\n\nsteamcmd +login bob +quit\n\nPress any key to dismiss."));
    assert!(finish_outcome(0, 1, 1, &Some("other".to_string())).popup.is_none());
}

fn ctx(tab: Tab) -> KeyContext {
    KeyContext {
        popup: PopupKind::NoPopup,
        option_edit_active: false,
        search_active: false,
        tab,
        direct_cursor: DirectConnectField::Address,
        show_server_details: false,
    }
}

#[test]
fn keys_map_to_commands() {
    assert_eq!(handle_key(&ctx(Tab::Servers), Key::Char('q')), Command::Quit);
    assert_eq!(handle_key(&ctx(Tab::Servers), Key::Char('/')), Command::StartSearch);
    assert_eq!(handle_key(&ctx(Tab::News), Key::Char('\n')), Command::OpenNews);
    assert_eq!(handle_key(&ctx(Tab::DirectConnect), Key::Char('q')), Command::DirectInput('q'));
    let mut c = ctx(Tab::Servers);
    c.search_active = true;
    assert_eq!(handle_key(&c, Key::Char('q')), Command::SearchPush('q'));
    let mut c = ctx(Tab::Servers);
    c.popup = PopupKind::ConfirmUpdateThenLaunch;
    assert_eq!(handle_key(&c, Key::Char('n')), Command::SkipUpdateAndLaunch);
    c.popup = PopupKind::Info;
    assert_eq!(handle_key(&c, Key::Char('x')), Command::CloseInfoPopup);
}

#[test]
fn widget_helpers() {
    assert!(keybinds_for_tab(Tab::Mods).starts_with("j/k:Nav | u:Update"));
    assert_eq!(player_color(0, 60), PlayerColor::DarkGray);
    assert_eq!(player_color(60, 60), PlayerColor::Red);
    assert_eq!(player_color(31, 60), PlayerColor::Yellow);
    assert_eq!(player_color(30, 60), PlayerColor::Green);
    assert_eq!(wrap_text("the quick brown fox", 10), ["the quick", "brown fox"]);
    assert_eq!(wrap_text("a\n\nsupercalifragilistic b", 5), ["a", "super", "calif", "ragil", "istic", "b"]);
    assert_eq!(wrap_text("héllo wörld", 5), ["héllo", "wörld"]);
    assert_eq!(wrap_text("ab cdefgh", 3), ["ab", "cde", "fgh"]);
}

#[test]
fn list_cursors_move_one_tab_only() {
    let mut c = ListCursors::new();
    c.move_selection(Tab::History, 10, 7, 3);
    assert_eq!(c.selected[2], 7);
    assert_eq!(c.offsets[2], 5);
    assert_eq!(c.selected.iter().sum::<usize>(), 7);
    assert_eq!(c.offsets.iter().sum::<usize>(), 5);
    c.move_selection(Tab::History, 10, -20, 3);
    assert_eq!((c.selected[2], c.offsets[2]), (0, 0));
    c.move_selection(Tab::Servers, 4, 9, 3);
    assert_eq!((c.selected[0], c.offsets[0]), (3, 1));
    c.move_selection(Tab::Mods, 0, 2, 3);
    assert_eq!((c.selected[3], c.offsets[3]), (0, 0));
    c.move_selection(Tab::DirectConnect, 5, -1, 3);
    assert_eq!(c.direct, DirectConnectField::Connect);
    assert_eq!(c.selected[0], 3);
}
