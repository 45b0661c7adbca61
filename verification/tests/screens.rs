use dayz_community_hub_core::api::{Endpoint, Mod, Server};
use dayz_community_hub_core::mods::InstalledMod;
use dayz_community_hub_core::news::{Article, ArticleAuthor, ArticleCategory};
use dayz_community_hub_core::overlay::{
    border_color, completed_lines, gauge_label, hint_lines, lines_of, overlay_height,
    progress_status, progress_title, server_row, RowStyle,
};
use dayz_community_hub_core::panels::{
    mission_item, missions_title, mod_detail, mod_item, mods_title, offline_info,
};
use dayz_community_hub_core::screens::{
    news_detail, news_item, news_placeholder, news_title, pad_left_chars, Color, Span,
};
use dayz_community_hub_core::tui::{ProgressPhase, ProgressState};

fn text(line: &[Span]) -> String {
    line.iter().map(|s| s.text.as_str()).collect()
}

fn article() -> Article {
    Article {
        id: 1,
        title: "Update 1.27".to_string(),
        slug: "update 127".to_string(),
        excerpt: None,
        content: Some("<p>Hello world</p>".to_string()),
        version: Some("1.27".to_string()),
        image: None,
        published_at: Some("2025-03-01T10:00:00Z".to_string()),
        category: Some(ArticleCategory { name: "Updates".to_string(), slug: "updates".to_string() }),
        author: Some(ArticleAuthor { name: "Eugen".to_string(), role: Some("Creative Director".to_string()) }),
    }
}

#[test]
fn padding() {
    let v: Vec<char> = "7".chars().collect();
    assert_eq!(pad_left_chars(&v, 3).iter().collect::<String>(), "  7");
    assert_eq!(pad_left_chars(&v, 0).iter().collect::<String>(), "7");
}

#[test]
fn news_list_rows_and_title() {
    let a = article();
    let rows = news_item(0, &a, true);
    assert_eq!(text(&rows[0]), "   1. Update 1.27  2025-03-01");
    assert!(rows[0][1].bold);
    assert_eq!(rows[0][2].fg, Color::Yellow);
    assert_eq!(text(&rows[1]), "       [updates]");
    assert_eq!(news_title(2, 10, Some(59)), "DayZ News [3/10] (cached 59s ago)");
    assert_eq!(news_title(0, 1, Some(125)), "DayZ News [1/1] (cached 2m ago)");
    assert_eq!(news_title(0, 1, None), "DayZ News [1/1] (cached ?)");
    assert_eq!(news_placeholder(false), "Fetching DayZ news\u{2026}");
}

#[test]
fn news_detail_lines() {
    let a = article();
    let lines = news_detail(&a, 30);
    let texts: Vec<String> = lines.iter().map(|l| text(l)).collect();
    assert_eq!(
        texts,
        vec![
            "Update 1.27",
            "",
            "[Updates]  2025-03-01",
            "Version: 1.27",
            "",
            "By: Eugen  (Creative Director)",
            "",
            "\u{2500}\u{2500}\u{2500} Content \u{2500}\u{2500}\u{2500}",
            "Hello world",
            "",
            "https://dayz.com/article/updates/update%20127",
        ]
    );
}

fn installed(managed: bool) -> InstalledMod {
    InstalledMod { name: "CF".to_string(), id: 1559212036, local_updated: 0, size: 1536 * 1024, managed }
}

#[test]
fn mod_rows_and_details() {
    let m = installed(true);
    let row = mod_item(4, &m, false);
    assert_eq!(text(&row), "   5 \u{25cf} CF  1.5 MB");
    assert_eq!(row[1].fg, Color::Green);
    let sel = mod_item(4, &installed(false), true);
    assert_eq!(sel[1].text, "\u{25cb}");
    assert_eq!(sel[4].bg, Color::Cyan);
    let mods = vec![installed(true), installed(false)];
    assert_eq!(mods_title(0, &mods), " Mods  1/2  total 3.0 MB  managed 1 ");
    let d = mod_detail(&m, "3 days ago");
    assert_eq!(text(&d[4]), "Updated  unknown");
    assert_eq!(text(&d[5]), "Managed  yes  (owned by launcher)");
    assert_eq!(text(&d[15]), "https://steamcommunity.com/sharedfiles/filedetails/?id=1559212036");
    let mut old = installed(false);
    old.local_updated = 5;
    assert_eq!(text(&mod_detail(&old, "3 days ago")[4]), "Updated  3 days ago");
}

#[test]
fn offline_panel() {
    assert_eq!(text(&mission_item(0, "DayZCommunityOfflineMode.ChernarusPlus", false)), "  1. DayZCommunityOfflineMode.ChernarusPlus");
    assert_eq!(missions_title(0, 0), " Offline Missions  (none installed) ");
    assert_eq!(missions_title(1, 3), " Offline Missions  [2/3] ");
    let info = offline_info(&Some(("Updated".to_string(), Color::Green)), &None);
    assert_eq!(text(&info[5]), "Updated");
    assert_eq!(info[5][0].fg, Color::Green);
    assert_eq!(text(&info[7]), "No missions installed.");
    assert_eq!(text(info.last().unwrap()), "r     refresh mission list");
}

fn progress(phase: ProgressPhase, completed: Vec<(u64, String, bool)>) -> ProgressState {
    ProgressState { current: 2, total: 3, current_mod_name: "CF".into(), current_mod_id: 7, phase, completed }
}

#[test]
fn progress_overlay_texts() {
    let p = progress(ProgressPhase::Downloading, vec![(1, "A".into(), true), (2, "B".into(), false)]);
    assert_eq!(progress_title(&p), " Mod Operation [2/3] ");
    assert_eq!(progress_status(&p), ("Downloading: CF (7)".to_string(), Color::Yellow));
    assert_eq!(gauge_label(&p), "2/3");
    assert_eq!(border_color(&p), Color::Cyan);
    let done = completed_lines(&p, 1);
    assert_eq!(done.len(), 1);
    assert_eq!(text(&done[0]), " x B (2)");
    assert_eq!(overlay_height(&p, 40), 8);
    let f = progress(ProgressPhase::Finished { ok: 1, failed: 0, hint: None }, vec![]);
    assert_eq!(progress_status(&f), ("Done! 1 mods completed successfully".to_string(), Color::Green));
    let h = progress(
        ProgressPhase::Finished { ok: 0, failed: 1, hint: Some("Login expired.\r\nRun: steamcmd +login bob\n".into()) },
        vec![],
    );
    assert_eq!(border_color(&h), Color::Red);
    let hl = hint_lines(&h);
    assert_eq!(hl.len(), 2);
    assert_eq!(text(&hl[0]), "Login expired.");
    assert_eq!(overlay_height(&h, 7), 3);
    assert_eq!(overlay_height(&h, 40), 9);
}

#[test]
fn lines_like_std() {
    for s in ["", "a", "a\n", "a\r\nb", "\n", "a\n\nb\r", "x\r"] {
        let want: Vec<String> = s.lines().map(|l| l.to_string()).collect();
        assert_eq!(lines_of(s), want, "{:?}", s);
    }
}

#[test]
fn server_rows() {
    let s = Server {
        endpoint: Endpoint { ip: "1.2.3.4".into(), port: 27016 },
        game_port: 2302,
        name: "Alpha".into(),
        map: "chernarusplus".into(),
        players: 40,
        max_players: 60,
        environment: "w".into(),
        version: "1.27".into(),
        time: "12:00".into(),
        password: true,
        mods: vec![Mod::default(), Mod::default()],
        ..Default::default()
    };
    let st = RowStyle { selected: false, favorite: true, ping_ms: Some(42) };
    let rows = server_row(0, &s, &st, None, None);
    assert_eq!(text(&rows[0]), "    1   42ms   40/60  Alpha        ");
    assert_eq!(rows[0][2].fg, Color::Green);
    assert_eq!(rows[0][3].fg, Color::Yellow);
    assert_eq!(text(&rows[1]), "       1.2.3.4:2302         chernarusplus 2 mods  1.27      12:00");
    let sel = RowStyle { selected: true, favorite: false, ping_ms: None };
    let pre = Span { text: "[F]".into(), fg: Color::Yellow, bg: Color::Reset, bold: true };
    let rows = server_row(9, &s, &sel, Some(pre), None);
    assert_eq!(rows[0][4].text, "[F]");
    assert_eq!(rows[0][4].bg, Color::Cyan);
    assert_eq!(rows[0][2].text, "   -   ");
    assert_eq!(rows[0][0].fg, Color::Black);
}
