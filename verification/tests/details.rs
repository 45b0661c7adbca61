use dayz_community_hub_core::a2s::{server_details, A2sInfo, A2sPlayer};
use dayz_community_hub_core::api::{Endpoint, Mod, Server};
use dayz_community_hub_core::details::{details_title, direct_info, field_text, server_details_lines};
use dayz_community_hub_core::screens::{Color, Span};
use dayz_community_hub_core::tui::DirectConnectField;

fn text(line: &[Span]) -> String {
    line.iter().map(|s| s.text.as_str()).collect()
}

fn sample() -> Server {
    Server {
        name: "Alpha".into(),
        endpoint: Endpoint { ip: "1.2.3.4".into(), port: 27016 },
        game_port: 2302,
        players: 5,
        max_players: 60,
        map: "enoch".into(),
        version: "1.27".into(),
        time: "08:00".into(),
        environment: "l".into(),
        first_person_only: true,
        mods: vec![
            Mod { name: "CF".into(), steam_workshop_id: 1 },
            Mod { name: "VPP".into(), steam_workshop_id: 2 },
        ],
        ..Default::default()
    }
}

#[test]
fn details_panel_lines() {
    let info = A2sInfo { name: "Alpha".into(), map: "enoch".into(), game: "DayZ".into(), players: 4, max_players: 60, version: "1.27".into() };
    let live = server_details(
        info,
        30,
        Some(vec![A2sPlayer { name: "Bob".into(), score: 3 }, A2sPlayer { name: "".into(), score: 0 }]),
        None,
    );
    let lines = server_details_lines(&sample(), &vec![2], Some(&live));
    let texts: Vec<String> = lines.iter().map(|l| text(l)).collect();
    assert_eq!(
        texts,
        vec![
            "Name: Alpha",
            "IP: 1.2.3.4:2302 (query:27016)",
            "Players: 5/60  Map: enoch  Version: 1.27",
            "Time: 08:00  1PP: Yes  Password: No  Platform: Linux",
            "Mods (2):",
            "  - CF (1)",
            "  + VPP (2)",
            "--- A2S Live Info ---",
            "  Players: 4/60  Game: DayZ",
            "    Bob (score: 3)",
        ]
    );
    assert_eq!(lines[5][0].fg, Color::Red);
    assert_eq!(lines[6][0].fg, Color::Green);
    assert_eq!(server_details_lines(&sample(), &vec![], None).len(), 7);
}

#[test]
fn details_titles() {
    assert_eq!(details_title(0, 5, 10), "Server Details [Esc to close]");
    assert_eq!(details_title(3, 20, 10), "Server Details [Esc to close] [4-13/20] [Ctrl+d/Ctrl+u:Scroll]");
    assert_eq!(details_title(15, 20, 10), "Server Details [Esc to close] [16-20/20] [Ctrl+d/Ctrl+u:Scroll]");
}

#[test]
fn form_fields() {
    assert_eq!(field_text(DirectConnectField::Address, "1.2.3.4", DirectConnectField::Address), "1.2.3.4|");
    assert_eq!(field_text(DirectConnectField::Port, "2302", DirectConnectField::Address), "2302");
    assert_eq!(field_text(DirectConnectField::Password, "", DirectConnectField::Password), "(optional)|");
    assert_eq!(field_text(DirectConnectField::Password, "p\u{e9}", DirectConnectField::Port), "***");
}

#[test]
fn form_information() {
    assert_eq!(text(&direct_info(None)[0]), "Enter server address above. Use Up/Down to navigate fields.");
    let mut s = sample();
    s.mods = (0..17).map(|i| Mod { name: format!("m{}", i), steam_workshop_id: i }).collect();
    let lines = direct_info(Some(&s));
    assert_eq!(lines.len(), 2 + 1 + 15 + 1);
    assert_eq!(text(&lines[0]), "Found: Alpha");
    assert_eq!(text(&lines[1]), "Players: 5/60");
    assert_eq!(text(&lines[3]), "  - m0 (0)");
    assert_eq!(text(&lines[18]), "  ... and 2 more");
}
