use dayz_community_hub_core::api::{Endpoint, Server};
use dayz_community_hub_core::dto::{initial_servers, steamcmd_status};

fn s(ip: &str, port: i64, name: &str) -> Server {
    Server { name: name.into(), endpoint: Endpoint { ip: ip.into(), port }, ..Default::default() }
}

#[test]
fn startup_server_list() {
    let cached = vec![s("1.1.1.1", 1, "A"), s("1.1.1.1", 1, "A again"), s("2.2.2.2", 1, "B")];
    let (list, init) = initial_servers(Some(cached), Some(vec![s("9.9.9.9", 9, "Z")]), false);
    let names: Vec<&str> = list.iter().map(|x| x.name.as_str()).collect();
    assert_eq!(names, ["A", "B"]);
    assert_eq!((init.server_count, init.from_cache, init.is_first_launch), (2, true, false));
    let (list, init) = initial_servers(None, Some(vec![s("9.9.9.9", 9, "Z")]), true);
    assert_eq!(list.len(), 1);
    assert_eq!((init.server_count, init.from_cache, init.is_first_launch), (1, false, true));
    let (list, init) = initial_servers(None, None, false);
    assert!(list.is_empty());
    assert_eq!((init.server_count, init.from_cache), (0, false));
}

#[test]
fn steamcmd_detection() {
    let st = steamcmd_status("linux", Some("/opt/s".into()), Some("/usr/bin/steamcmd".into()), None);
    assert_eq!((st.found, st.path.as_deref(), st.platform.as_str()), (true, Some("/opt/s"), "linux"));
    let st = steamcmd_status("linux", None, Some("/usr/bin/steamcmd".into()), None);
    assert_eq!(st.path.as_deref(), Some("/usr/bin/steamcmd"));
    let st = steamcmd_status("windows", None, None, Some("C:/x/steamcmd.exe".into()));
    assert_eq!(st.path.as_deref(), Some("C:/x/steamcmd.exe"));
    let st = steamcmd_status("macos", None, None, None);
    assert!(!st.found && st.path.is_none());
}
