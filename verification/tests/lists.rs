use dayz_community_hub_core::api::{Endpoint, Mod, Server};
use dayz_community_hub_core::bars::{popup_text, status_bar, tab_bar, title_bar, TabCounts};
use dayz_community_hub_core::config::{History, LaunchOption, LaunchOptions};
use dayz_community_hub_core::direct::DirectForm;
use dayz_community_hub_core::lists::{
    direct_form_view, history_placeholder, history_row, history_title, option_row, options_title,
    servers_title, visible_window,
};
use dayz_community_hub_core::screens::{Color, Span};
use dayz_community_hub_core::tui::{ConfirmAction, DirectConnectField, Popup, StatusLevel, Tab};

fn text(line: &[Span]) -> String {
    line.iter().map(|s| s.text.as_str()).collect()
}

fn server(name: &str, players: i64) -> Server {
    Server {
        endpoint: Endpoint { ip: "1.2.3.4".into(), port: 27016 },
        game_port: 2302,
        name: name.into(),
        players,
        max_players: 60,
        mods: vec![Mod::default()],
        ..Default::default()
    }
}

fn entry() -> History {
    History { name: "Gone".to_string(), ip: "5.6.7.8".to_string(), port: 2402, ts: 1, extra: None }
}

#[test]
fn history_screen() {
    assert_eq!(history_placeholder(), "No history yet.\nConnect to a server to see it here.");
    assert_eq!(history_title(4), "Recently Played [4]");
    let off = history_row(2, &entry(), None, true, true, None, "3h ago");
    assert_eq!(text(&off[0]), "    3.  OFF * Gone");
    assert_eq!(text(&off[1]), "        5.6.7.8:2402  3h ago");
    assert!(off[0].iter().chain(off[1].iter()).all(|s| s.bold));
    assert_eq!(off[0][1].fg, Color::Red);
    assert_eq!(off[1][3].fg, Color::Magenta);
    let s = server("Alpha", 40);
    let on = history_row(0, &entry(), Some(&s), false, false, Some(42), "3h ago");
    assert!(on[0].iter().any(|x| x.text == " ON  " && x.fg == Color::Green));
    assert!(on[0].iter().any(|x| x.text == "3h ago" && x.fg == Color::DarkGray));
    assert!(text(&on[0]).contains("Alpha"));
}

#[test]
fn option_rows() {
    let opt = LaunchOption { enabled: true, value: Some("empty".to_string()), description: "World".to_string() };
    let r = option_row(9, "world", &opt, false, None);
    assert_eq!(text(&r[0]), " 10. [x] -world = empty");
    assert_eq!(text(&r[1]), "         World");
    assert_eq!(r[0][2].fg, Color::White);
    let sel = option_row(9, "world", &opt, true, None);
    assert_eq!(sel[0][2].fg, Color::Yellow);
    assert!(sel[0][0].bold);
    let editing = option_row(9, "world", &opt, true, Some("chern"));
    assert_eq!(text(&editing[0]), " 10. [x] -world = chern|");
    assert_eq!(editing[0][3].fg, Color::Green);
    let not_selected = option_row(9, "world", &opt, false, Some("chern"));
    assert_eq!(text(&not_selected[0]), " 10. [x] -world = empty");
    let off = LaunchOption { enabled: false, value: None, description: "Window".to_string() };
    assert_eq!(text(&option_row(0, "window", &off, false, None)[0]), "  1. [ ] -window");
    assert_eq!(
        options_title(&LaunchOptions::defaults()),
        "Launch Options [-nosplash -skipIntro -nolauncher -high -world=empty]"
    );
}

#[test]
fn server_list_window() {
    assert_eq!(servers_title(0, 12, false), "Servers [1/12]");
    assert_eq!(servers_title(2, 5, true), "Servers [3/5] (filtered)");
    assert_eq!(visible_window(10, &None, 8, 5), vec![(8, 8), (9, 9)]);
    assert_eq!(visible_window(10, &Some(vec![7, 3, 1]), 1, 5), vec![(1, 3), (2, 1)]);
    assert_eq!(visible_window(10, &None, 12, 5), vec![]);
}

#[test]
fn direct_form_display() {
    let f = DirectForm { address: "1.2.3.4".into(), port: "".into(), password: "pé".into() };
    let v = direct_form_view(&f, DirectConnectField::Address);
    let texts: Vec<&str> = v.iter().map(|s| s.text.as_str()).collect();
    assert_eq!(texts, ["1.2.3.4|", "", "***", "[ SERVER INFO ]", "[ CONNECT ]"]);
    assert_eq!((v[0].fg, v[0].bold), (Color::Yellow, true));
    assert_eq!(v[4].fg, Color::DarkGray);
    let empty = DirectForm { address: "".into(), port: "2302".into(), password: "".into() };
    let w = direct_form_view(&empty, DirectConnectField::Connect);
    assert_eq!(w[2].text, "(optional)");
    assert_eq!((w[4].fg, w[4].bold), (Color::Green, true));
}

#[test]
fn title_and_tab_bars() {
    let servers = vec![server("A", 10), server("B", 5)];
    let t = title_bar(&servers, Some(1), None, None, Some("steamuser"));
    assert_eq!(
        text(&t),
        " DayZ-SA Multi Launcher  | Steam: \u{2026} | DzSA: 15 | Servers: 1/2 | unnamed | steamuser "
    );
    let t2 = title_bar(&servers, None, Some(22000), Some("Bob"), None);
    assert_eq!(text(&t2), " DayZ-SA Multi Launcher  | Steam: 22000 | DzSA: 15 | Servers: 2 | Bob | no steamcmd ");
    let counts = TabCounts { favorites: 2, history: 3, mods: 0 };
    let bar = tab_bar(Tab::History, counts, None);
    assert_eq!(
        text(&bar),
        " Servers  |  Favorites(2)  |  History(3)  |  Mods(0)  |  News  |  Connect  |  Options  |  Offline  "
    );
    assert_eq!((bar[4].fg, bar[4].bold), (Color::Yellow, true));
    let searching = tab_bar(Tab::Servers, counts, Some("dz"));
    assert!(text(&searching).ends_with("  Search: dz_"));
}

#[test]
fn status_and_popups() {
    let s = status_bar(Tab::Options, Some(("Saved", StatusLevel::Success)));
    assert_eq!(text(&s), "Saved | j/k:Nav | Enter:Toggle | e:Edit Value | Tab/S-Tab:Tabs | q:Quit");
    assert_eq!(s[0].fg, Color::Green);
    let plain = status_bar(Tab::DirectConnect, None);
    assert_eq!(text(&plain), "Up/Down:Fields | Enter:Activate | Tab/S-Tab:Tabs | Esc:Back");
    let p = Popup::Confirm {
        title: "Clear History".into(),
        message: "Clear all 3\nhistory entries?".into(),
        action: ConfirmAction::ClearHistory,
    };
    let (title, frame, lines) = popup_text(&p);
    assert_eq!((title.as_str(), frame), ("Clear History", Color::Yellow));
    let texts: Vec<String> = lines.iter().map(|l| text(l)).collect();
    assert_eq!(texts, ["Clear all 3", "history entries?", "", "[y] Yes  [n] No"]);
    let info = Popup::Info { title: "Login".into(), message: "Run steamcmd".into() };
    let (_, frame, lines) = popup_text(&info);
    assert_eq!(frame, Color::Red);
    assert_eq!(text(&lines[2]), "[Press any key to dismiss]");
}
