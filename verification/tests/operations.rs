use dayz_community_hub_core::api::{Endpoint, Mod, Server};
use dayz_community_hub_core::ctl::{finish_operation, plan_mod_operation, InstallResult, ModOpPlan, ModOpResult, ModOperation};
use dayz_community_hub_core::error::Error;
use dayz_community_hub_core::mods::InstalledMod;
use dayz_community_hub_core::monitor::{download_preflight, spawn_failure, DownloadMonitor};
use dayz_community_hub_core::steamcmd::{
    configured_steamcmd, extract_mod_id_from_line, is_password_prompt, is_steam_guard_prompt,
    steam_root_choice, steamcmd_for_profile, strip_ansi, update_failed, ModProgress, SteamCmd,
};

fn chars(s: &str) -> Vec<char> {
    s.chars().collect()
}

#[test]
fn steamcmd_lines() {
    assert_eq!(strip_ansi(&chars("\x1b[1;32mSuccess\x1b[0m done")).iter().collect::<String>(), "Success done");
    assert!(is_steam_guard_prompt(&chars("Please confirm the login in the Steam Mobile app")));
    assert!(is_steam_guard_prompt(&chars("Steam Guard code:")));
    assert!(!is_steam_guard_prompt(&chars("Logging in user 'bob'")));
    assert!(is_password_prompt(&chars("Logging in user 'bob' to Steam Public...\npassword: ")));
    assert!(!is_password_prompt(&chars("password: ok\n")));
    assert_eq!(extract_mod_id_from_line(&chars("Success. Downloaded item 1559212036 to \"/x\"")), Some(1559212036));
    assert_eq!(extract_mod_id_from_line(&chars("no id here")), None);
}

#[test]
fn steamcmd_arguments() {
    let sc = SteamCmd::new("/usr/bin/steamcmd", "/s/steamapps", Some("bob".into()));
    assert!(sc.has_real_login());
    assert_eq!(sc.workshop_path(), "/s/steamapps/workshop/content/221100");
    assert_eq!(sc.dayz_path(), "/s/steamapps/common/DayZ");
    assert_eq!(sc.login_args(), ["+login", "bob"]);
    let sc = sc.with_password(Some("pw".into()));
    assert_eq!(sc.login_args(), ["+login", "bob", "pw"]);
    assert!(!SteamCmd::new("x", "y", None).has_real_login());
    let args = sc.download_args(&vec![(1, "A".into())]);
    assert!(args.iter().any(|a| a == "+workshop_download_item"));
    assert_eq!(args.last().map(|s| s.as_str()), Some("+quit"));
}

#[test]
fn preflight_and_spawn_failure() {
    let anon = SteamCmd::new("x", "y", None);
    let (res, ev) = download_preflight(&anon, &vec![(1, "A".into())]).unwrap();
    assert_eq!(res.len(), 1);
    assert!(matches!(&res[0].1, Err(Error::SteamCmd(m)) if m == "Workshop downloads require a non-anonymous Steam login"));
    assert!(matches!(ev, ModProgress::Finished { ok: 0, failed: 1, total: 1, hint: Some(_) }));
    let (res, ev) = download_preflight(&anon, &vec![]).unwrap();
    assert!(res.is_empty());
    assert!(matches!(ev, ModProgress::Finished { ok: 0, failed: 0, total: 0, hint: None }));
    let real = SteamCmd::new("x", "y", Some("bob".into()));
    assert!(download_preflight(&real, &vec![(1, "A".into())]).is_none());
    let (res, ev) = spawn_failure(&vec![(1, "A".into()), (2, "B".into())], "boom");
    assert_eq!(res.len(), 2);
    assert!(matches!(ev, ModProgress::Finished { ok: 0, failed: 2, total: 2, hint: None }));
}

#[test]
fn monitor_follows_a_download() {
    let mut m = DownloadMonitor::new(vec![(11, "A".into()), (22, "B".into())], "bob");
    assert!(matches!(m.start_event(), ModProgress::Starting { current: 1, total: 2, mod_id: 11, .. }));
    let (ev, pw) = m.feed("Logging in user 'bob'\npassword: ");
    assert!(pw);
    assert!(ev.iter().any(|e| matches!(e, ModProgress::PasswordRequired)));
    m.password_sent();
    let (ev, pw) = m.feed("Downloading item 11 ...\nSuccess. Downloaded item 11 to \"/w/11\" (100 bytes)\nDownloading item 22 ...\n");
    assert!(!pw);
    assert!(ev.iter().any(|e| matches!(e, ModProgress::Done { mod_id: 11, current: 1, .. })));
    assert!(ev.iter().any(|e| matches!(e, ModProgress::Starting { mod_id: 22, current: 2, .. })));
    let (results, closing) = m.finish();
    assert_eq!(results.len(), 2);
    assert!(results[0].1.is_ok());
    assert!(matches!(&results[1].1, Err(Error::SteamCmd(msg)) if msg == "Download failed"));
    assert!(matches!(closing.last(), Some(ModProgress::Finished { ok: 1, failed: 1, total: 2, .. })));
}

fn server_with(ids: &[i64]) -> Server {
    Server {
        endpoint: Endpoint { ip: "1.1.1.1".into(), port: 27016 },
        mods: ids.iter().map(|&i| Mod { name: format!("m{}", i), steam_workshop_id: i }).collect(),
        ..Default::default()
    }
}

fn installed(id: u64) -> InstalledMod {
    InstalledMod { name: format!("m{}", id), id, local_updated: 0, size: 0, managed: true }
}

#[test]
fn planning_operations() {
    let op = ModOperation::InstallOnly { server: server_with(&[1, 2]) };
    match plan_mod_operation(&op, &vec![installed(1)]) {
        ModOpPlan::Download { download, install, link_ids, total } => {
            assert_eq!(download, vec![(2, "m2".to_string())]);
            assert!(install);
            assert_eq!(link_ids, Some(vec![1, 2]));
            assert_eq!(total, 2);
        }
        _ => panic!("expected a download"),
    }
    match plan_mod_operation(&op, &vec![installed(1), installed(2)]) {
        ModOpPlan::Done { link_ids, result: ModOpResult::InstallDone(r) } => {
            assert_eq!(link_ids, Some(vec![1, 2]));
            assert_eq!(r.total_server_mods, 2);
            assert!(r.installed.is_empty());
        }
        _ => panic!("expected nothing to do"),
    }
    match plan_mod_operation(&ModOperation::UpdateSelected { mods: vec![] }, &vec![]) {
        ModOpPlan::Done { link_ids: None, result: ModOpResult::UpdateDone(v) } => assert!(v.is_empty()),
        _ => panic!("expected nothing to do"),
    }
}

#[test]
fn finishing_installs() {
    let (r, managed) = finish_operation(
        true,
        3,
        vec![(1, Ok(())), (2, Err(Error::SteamCmd("Download failed".into())))],
    );
    assert_eq!(managed, [1]);
    match r {
        ModOpResult::InstallDone(ir) => {
            assert_eq!(ir.installed, [1]);
            assert_eq!(ir.failed, vec![(2, "SteamCMD error: Download failed".to_string())]);
            assert_eq!(ir.summary(), "Installed 1 mods, 1 failed");
        }
        _ => panic!("expected an install result"),
    }
    let ok = InstallResult { installed: vec![], failed: vec![], total_server_mods: 0 };
    assert_eq!(ok.summary(), "All mods already installed");
    assert!(ok.all_success());
}

#[test]
fn batched_download_arguments() {
    let sc = SteamCmd::new("/usr/bin/steamcmd", "/s/steamapps", Some("bob".into()));
    assert_eq!(
        sc.download_args(&vec![(1, "A".into()), (2, "B".into())]),
        [
            "+@ShutdownOnFailedCommand",
            "0",
            "+force_install_dir",
            "/s",
            "+login",
            "bob",
            "+workshop_download_item",
            "221100",
            "1",
            "validate",
            "+workshop_download_item",
            "221100",
            "2",
            "validate",
            "+quit",
        ]
    );
}

#[test]
fn game_update_and_login_runs() {
    let sc = SteamCmd::new("x", "/s/steamapps", Some("bob".into())).with_password(Some("pw".into()));
    assert_eq!(
        sc.update_game_args(),
        ["+@ShutdownOnFailedCommand", "1", "+login", "bob", "pw", "+app_update", "221100", "+quit"]
    );
    assert_eq!(sc.cache_login_args(), ["+login", "bob", "pw", "+quit"]);
    assert_eq!(sc.login_failed().message(), "SteamCMD error: steamcmd login failed. Try running: steamcmd +login bob +quit");
    assert!(matches!(update_failed("boom"), Error::SteamCmd(m) if m == "Failed to update game: boom"));
}

#[test]
fn steamcmd_from_profile() {
    assert_eq!(configured_steamcmd(&Some("/opt/steamcmd.sh".to_string())).as_deref(), Some("/opt/steamcmd.sh"));
    assert!(configured_steamcmd(&Some(String::new())).is_none());
    assert!(configured_steamcmd(&None).is_none());
    assert_eq!(
        steam_root_choice(&Some("/steam".to_string()), Some("/found".to_string()), "/fb".to_string()),
        "/steam"
    );
    assert_eq!(steam_root_choice(&Some(String::new()), Some("/found".to_string()), "/fb".to_string()), "/found");
    assert_eq!(steam_root_choice(&None, None, "/fb".to_string()), "/fb");
    assert!(steamcmd_for_profile(false, Some("/s".to_string()), "/r", &None, &None).is_none());
    assert!(steamcmd_for_profile(true, None, "/r", &None, &None).is_none());
    let c = steamcmd_for_profile(true, Some("/s".to_string()), "/r", &None, &Some("pw".to_string())).unwrap();
    assert_eq!((c.steamcmd_path(), c.steam_root(), c.login(), c.password()), ("/s", "/r", "anonymous", Some("pw")));
    let d = steamcmd_for_profile(true, Some("/s".to_string()), "/r", &Some("me".to_string()), &None).unwrap();
    assert_eq!((d.login(), d.password()), ("me", None));
}
