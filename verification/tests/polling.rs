use dayz_community_hub_core::api::{Endpoint, Server};
use dayz_community_hub_core::config::LaunchOptions;
use dayz_community_hub_core::ctl::{plan_events, plan_mod_operation, ModOpPlan, ModOperation};
use dayz_community_hub_core::direct::{
    direct_confirmation, direct_password, not_found_plan, placeholder_server,
};
use dayz_community_hub_core::session::option_at_mut;
use dayz_community_hub_core::steamcmd::ModProgress;
use dayz_community_hub_core::tui::{
    apply_search_filter, poll_progress, progress_event, progress_lost, ConfirmAction, PendingAfterOp,
    Popup, ProgressSession, StatusLevel,
};

fn server(name: &str) -> Server {
    Server { name: name.into(), endpoint: Endpoint { ip: "1.1.1.1".into(), port: 1 }, ..Default::default() }
}

fn session() -> ProgressSession {
    ProgressSession {
        progress: None,
        receiving: true,
        loading: true,
        pending: Some(PendingAfterOp::LaunchServer(server("S"), None)),
    }
}

#[test]
fn nothing_to_download_reports_finished() {
    let op = ModOperation::InstallOnly { server: server("S") };
    let plan = plan_mod_operation(&op, &vec![]);
    assert!(matches!(plan, ModOpPlan::Done { .. }));
    match plan_events(&plan).as_slice() {
        [ModProgress::Finished { ok: 0, failed: 0, total: 0, hint: None }] => {}
        other => panic!("unexpected {:?}", other),
    }
    let mut s = server("S");
    s.mods = vec![dayz_community_hub_core::api::Mod { name: "CF".into(), steam_workshop_id: 7 }];
    let download = plan_mod_operation(&ModOperation::InstallOnly { server: s }, &vec![]);
    assert!(plan_events(&download).is_empty());
}

#[test]
fn polling_stops_at_finished() {
    let mut s = session();
    let mut queue = vec![
        ModProgress::Starting { current: 1, total: 1, mod_id: 7, name: "CF".into() },
        ModProgress::Done { current: 1, total: 1, mod_id: 7, name: "CF".into() },
        ModProgress::Finished { ok: 1, failed: 0, total: 1, hint: None },
        ModProgress::ShuttingDownSteam,
    ];
    let (more, report) = poll_progress(&mut s, &mut queue);
    assert!(!more);
    assert_eq!(queue.len(), 1);
    assert!(matches!(queue[0], ModProgress::ShuttingDownSteam));
    assert!(s.progress.is_none() && !s.receiving && !s.loading && s.pending.is_none());
    let report = report.unwrap();
    assert_eq!(report.outcome.level, StatusLevel::Success);
    assert_eq!(report.outcome.status, "Completed: 1 mods OK");
    assert!(matches!(report.follow_up, Some(PendingAfterOp::LaunchServer(..))));
}

#[test]
fn polling_goes_on_without_finished() {
    let mut s = session();
    let mut queue = vec![ModProgress::Starting { current: 1, total: 2, mod_id: 7, name: "CF".into() }];
    let (more, report) = poll_progress(&mut s, &mut queue);
    assert!(more && report.is_none() && queue.is_empty());
    let p = s.progress.as_ref().unwrap();
    assert_eq!((p.current, p.total, p.current_mod_id), (1, 2, 7));
    assert!(s.receiving && s.loading && s.pending.is_some());
}

#[test]
fn hint_withholds_follow_up() {
    let mut s = session();
    let r = progress_event(
        &mut s,
        ModProgress::Finished { ok: 0, failed: 1, total: 1, hint: Some("log in".into()) },
    )
    .unwrap();
    assert!(r.follow_up.is_none() && s.pending.is_none());
    assert_eq!(r.outcome.level, StatusLevel::Error);
    let mut t = session();
    assert_eq!(progress_lost(&mut t), "Operation ended unexpectedly");
    assert!(!t.receiving && !t.loading && t.progress.is_none());
}

#[test]
fn search_resets_selection() {
    let servers = vec![server("Alpha"), server("Beta")];
    let (mut sel, mut off) = (5usize, 3usize);
    let r = apply_search_filter(&servers, "bet", &mut sel, &mut off);
    assert_eq!(r, Some(vec![1]));
    assert_eq!((sel, off), (0, 0));
    let (mut sel, mut off) = (5usize, 3usize);
    assert_eq!(apply_search_filter(&servers, "", &mut sel, &mut off), None);
    assert_eq!((sel, off), (5, 3));
}

#[test]
fn direct_launch_without_password() {
    assert!(direct_password("").is_none());
    assert_eq!(direct_password("pw").as_deref(), Some("pw"));
    let plan = not_found_plan("1.2.3.4", 2402);
    let s = placeholder_server("1.2.3.4", 2402);
    match direct_confirmation(plan, s, direct_password("")) {
        Popup::Confirm { title, action: ConfirmAction::LaunchDirect(s, None), .. } => {
            assert_eq!(title, "Server not in list");
            assert_eq!((s.name.as_str(), s.endpoint.port, s.game_port), ("1.2.3.4:2402", 2402, 2402));
        }
        other => panic!("unexpected {:?}", other),
    }
}

#[test]
fn option_changed_in_place() {
    let mut o = LaunchOptions::defaults();
    option_at_mut(&mut o, 0).enabled = true;
    assert!(o.window.enabled);
    option_at_mut(&mut o, 18).value = Some("p".into());
    assert_eq!(o.profiles.value.as_deref(), Some("p"));
}
