use dayz_community_hub_core::config::{Favorite, History};
use dayz_community_hub_core::confirm::{
    background_status, cleanup_message, cleanup_prompt, clear_history_prompt, delete_mod_prompt,
    managed_message, missions_status, remove_favorite_prompt, remove_history_prompt,
    selection_after_removal, tab_switch, update_mod_request, ClearHistoryPrompt, TabSwitch,
};
use dayz_community_hub_core::ctl::ModOperation;
use dayz_community_hub_core::mods::InstalledMod;
use dayz_community_hub_core::screens::Color;
use dayz_community_hub_core::direct::{direct_backspace, direct_input, DirectForm};
use dayz_community_hub_core::tui::{
    BackgroundResult, ConfirmAction, DirectConnectField, Popup, StatusLevel, Tab,
};

fn fav(name: &str, ip: &str, port: u16) -> Favorite {
    Favorite { name: name.to_string(), ip: ip.to_string(), port, password: None }
}

#[test]
fn favorite_removal_prompt() {
    let favs = vec![fav("Alpha", "1.2.3.4", 2302), fav("Beta", "5.6.7.8", 2402)];
    match remove_favorite_prompt(Tab::Favorites, &favs, 1) {
        Some(Popup::Confirm { title, message, action: ConfirmAction::RemoveFavorite(ip, port) }) => {
            assert_eq!(title, "Remove Favorite");
            assert_eq!(message, "Remove 'Beta' (5.6.7.8:2402) from favorites?");
            assert_eq!((ip.as_str(), port), ("5.6.7.8", 2402));
        }
        other => panic!("unexpected {:?}", other),
    }
    assert!(remove_favorite_prompt(Tab::Favorites, &favs, 2).is_none());
    assert!(remove_favorite_prompt(Tab::Servers, &favs, 0).is_none());
}

#[test]
fn history_prompts() {
    let hist = vec![History {
        name: "Gamma".to_string(),
        ip: "9.9.9.9".to_string(),
        port: 2302,
        ts: 5,
        extra: None,
    }];
    match remove_history_prompt(Tab::History, &hist, 0) {
        Some(Popup::Confirm { title, message, action: ConfirmAction::RemoveHistoryEntry(ip, port) }) => {
            assert_eq!(title, "Remove History Entry");
            assert_eq!(message, "Remove 'Gamma' (9.9.9.9:2302) from history?");
            assert_eq!((ip.as_str(), port), ("9.9.9.9", 2302));
        }
        other => panic!("unexpected {:?}", other),
    }
    assert!(remove_history_prompt(Tab::Favorites, &hist, 0).is_none());
    match clear_history_prompt(Tab::History, 3) {
        ClearHistoryPrompt::Ask(Popup::Confirm { title, message, action: ConfirmAction::ClearHistory }) => {
            assert_eq!(title, "Clear History");
            assert_eq!(message, "Clear all 3 history entries?");
        }
        other => panic!("unexpected {:?}", other),
    }
    match clear_history_prompt(Tab::History, 0) {
        ClearHistoryPrompt::AlreadyEmpty(m) => assert_eq!(m, "History is already empty"),
        other => panic!("unexpected {:?}", other),
    }
    assert!(matches!(clear_history_prompt(Tab::Mods, 3), ClearHistoryPrompt::Ignored));
}

#[test]
fn selection_clamped_after_removal() {
    assert_eq!(selection_after_removal(3, 3), 2);
    assert_eq!(selection_after_removal(3, 1), 1);
    assert_eq!(selection_after_removal(0, 4), 4);
}

#[test]
fn cleanup_report() {
    assert_eq!(cleanup_message(3, 1536 * 1024, 2), "Cleanup: 3 mods (1.5 MB) + 2 symlinks removed");
}

#[test]
fn background_reports() {
    let s = |r: BackgroundResult| background_status(&r);
    assert!(matches!(s(BackgroundResult::SteamPlayerCount(5)), None));
    assert!(matches!(s(BackgroundResult::NewsRefreshed(vec![])), None));
    match s(BackgroundResult::LaunchDone("Srv".to_string())) {
        Some((StatusLevel::Success, m)) => assert_eq!(m, "Launched DayZ -> Srv"),
        other => panic!("unexpected {:?}", other),
    }
    match s(BackgroundResult::A2sError("timeout".to_string())) {
        Some((StatusLevel::Error, m)) => assert_eq!(m, "A2S query failed: timeout"),
        other => panic!("unexpected {:?}", other),
    }
    match s(BackgroundResult::OfflineModeUpdated) {
        Some((StatusLevel::Success, m)) => assert_eq!(m, "Offline mode installed/updated successfully"),
        other => panic!("unexpected {:?}", other),
    }
    match s(BackgroundResult::LaunchError("no exe".to_string())) {
        Some((StatusLevel::Error, m)) => assert_eq!(m, "Launch failed: no exe"),
        other => panic!("unexpected {:?}", other),
    }
}

#[test]
fn tab_switch_loads() {
    assert_eq!(
        tab_switch(Tab::Mods, false, false),
        TabSwitch { refresh_mods: true, fetch_news: false, refresh_missions: false }
    );
    assert_eq!(
        tab_switch(Tab::Mods, true, false),
        TabSwitch { refresh_mods: false, fetch_news: false, refresh_missions: false }
    );
    assert_eq!(
        tab_switch(Tab::News, true, true),
        TabSwitch { refresh_mods: false, fetch_news: true, refresh_missions: false }
    );
    assert_eq!(
        tab_switch(Tab::Offline, false, false),
        TabSwitch { refresh_mods: false, fetch_news: false, refresh_missions: true }
    );
}

#[test]
fn direct_form_typing() {
    let mut f = DirectForm { address: String::new(), port: String::new(), password: String::new() };
    for c in "1.2.3.4".chars() {
        direct_input(&mut f, DirectConnectField::Address, c);
    }
    for c in "23a02".chars() {
        direct_input(&mut f, DirectConnectField::Port, c);
    }
    direct_input(&mut f, DirectConnectField::Password, 'x');
    direct_input(&mut f, DirectConnectField::Connect, 'y');
    assert_eq!((f.address.as_str(), f.port.as_str(), f.password.as_str()), ("1.2.3.4", "2302", "x"));
    direct_backspace(&mut f, DirectConnectField::Port);
    direct_backspace(&mut f, DirectConnectField::Password);
    direct_backspace(&mut f, DirectConnectField::Password);
    direct_backspace(&mut f, DirectConnectField::ServerInfo);
    assert_eq!((f.address.as_str(), f.port.as_str(), f.password.as_str()), ("1.2.3.4", "230", ""));
}

fn installed(name: &str, id: u64) -> InstalledMod {
    InstalledMod { name: name.to_string(), id, local_updated: 0, size: 512 * 1024, managed: true }
}

#[test]
fn mod_prompts() {
    let mods = vec![installed("CF", 1559212036), installed("VPP", 1828439124)];
    match delete_mod_prompt(Tab::Mods, &mods, 0) {
        Some(Popup::Confirm { title, message, action: ConfirmAction::DeleteMod(id) }) => {
            assert_eq!(title, "Delete Mod");
            assert_eq!(message, "Delete 'CF' (1559212036)?\nSize: 512 KB");
            assert_eq!(id, 1559212036);
        }
        other => panic!("unexpected {:?}", other),
    }
    assert!(delete_mod_prompt(Tab::Mods, &mods, 2).is_none());
    assert!(delete_mod_prompt(Tab::News, &mods, 0).is_none());
    match cleanup_prompt() {
        Popup::Confirm { title, message, action: ConfirmAction::CleanupMods } => {
            assert_eq!(title, "Cleanup Mods");
            assert_eq!(message, "Remove all managed mods and symlinks?");
        }
        other => panic!("unexpected {:?}", other),
    }
    match update_mod_request(Tab::Mods, false, &mods, 1) {
        Some((m, ModOperation::UpdateOne { mod_id, name })) => {
            assert_eq!(m, "Updating VPP...");
            assert_eq!((mod_id, name.as_str()), (1828439124, "VPP"));
        }
        other => panic!("unexpected {:?}", other.map(|p| p.0)),
    }
    assert!(update_mod_request(Tab::Mods, true, &mods, 1).is_none());
    assert_eq!(managed_message("CF", true), "CF marked as managed");
    assert_eq!(managed_message("CF", false), "CF marked as unmanaged");
}

#[test]
fn offline_missions_status() {
    assert_eq!(missions_status(&None), ("SteamCMD / DayZ path not configured".to_string(), Color::Red));
    assert_eq!(
        missions_status(&Some(Ok(0))),
        ("No missions found. Press 'u' to install.".to_string(), Color::Yellow)
    );
    assert_eq!(missions_status(&Some(Ok(3))), ("3 mission(s) available".to_string(), Color::Green));
    assert_eq!(
        missions_status(&Some(Err("denied".to_string()))),
        ("Error reading missions: denied".to_string(), Color::Red)
    );
}
