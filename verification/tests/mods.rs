use dayz_community_hub_core::api::{Endpoint, Server};
use dayz_community_hub_core::dto::{installed_mod_to_dto, mod_progress_to_event, server_to_dto};
use dayz_community_hub_core::helpers::{cache_filename, dedup_servers, parse_target, url_to_cache_filename};
use dayz_community_hub_core::mods::{
    format_size, get_missing_mods, sort_mods_by_name, link_name, marker_path, mod_dir, parse_mod_meta, verify_mods,
    InstalledMod,
};
use dayz_community_hub_core::paths::{join, path_to_forward_slashes};
use dayz_community_hub_core::steamcmd::ModProgress;

fn float_format(bytes: u64) -> String {
    let mb = bytes as f64 / 1024.0 / 1024.0;
    if mb >= 1024.0 {
        format!("{:.1} GB", mb / 1024.0)
    } else if mb >= 1.0 {
        format!("{:.1} MB", mb)
    } else {
        format!("{} KB", bytes / 1024)
    }
}

#[test]
fn sizes_match_float_formatting() {
    assert_eq!(format_size(512 * 1024), "512 KB");
    assert_eq!(format_size(1536 * 1024), "1.5 MB");
    assert_eq!(format_size(3 * 1024 * 1024 * 1024), "3.0 GB");
    let mut samples: Vec<u64> = vec![0, 1023, 1024, 1048575, 1048576, 1073741823, 1073741824, u64::MAX];
    for k in 0..2000u64 {
        samples.push(k * 52_429 + 1_048_576);
        samples.push(k * 53_687_091 + 1_073_741_824);
        samples.push((k + 1) * 104_857 * 5);
        samples.push(u64::MAX - k * 987_654_321_123);
    }
    for b in samples {
        assert_eq!(format_size(b), float_format(b), "bytes {}", b);
    }
}

fn installed(id: u64) -> InstalledMod {
    InstalledMod { name: format!("m{}", id), id, local_updated: 100, size: 2048, managed: false }
}

#[test]
fn missing_and_paths() {
    assert_eq!(get_missing_mods(&vec![1, 2, 3], &vec![installed(2)]), [1, 3]);
    assert_eq!(mod_dir("/w", 42), "/w/42");
    assert_eq!(marker_path("/w", 42), "/w/42/.dayz-community-hub");
    assert_eq!(link_name(42), "@42");
    assert_eq!(verify_mods(&vec![1, 2, 3], &vec![true, false, false]), [2, 3]);
}

#[test]
fn mod_meta() {
    assert_eq!(
        parse_mod_meta("protocol = 1;\npublishedid = 1559212036;\nname = \"Community Framework\";", "x"),
        Some(("Community Framework".to_string(), 1559212036))
    );
    assert_eq!(parse_mod_meta("nothing", "777"), Some(("Unknown".to_string(), 777)));
    assert_eq!(parse_mod_meta("nothing", "abc"), None);
}

#[test]
fn dto_conversions() {
    let d = installed_mod_to_dto(&installed(9), Some(200));
    assert!(d.update_available);
    assert_eq!(d.size_human, "2 KB");
    assert!(!installed_mod_to_dto(&installed(9), Some(100)).update_available);
    assert!(!installed_mod_to_dto(&installed(9), None).update_available);
    let s = Server {
        name: "S".into(),
        endpoint: Endpoint { ip: "1.1.1.1".into(), port: 27016 },
        game_port: 2302,
        ..Default::default()
    };
    let dto = server_to_dto(&s);
    assert_eq!((dto.ip.as_str(), dto.query_port, dto.game_port, dto.mods_count), ("1.1.1.1", 27016, 2302, 0));
    let e = mod_progress_to_event(&ModProgress::ShuttingDownSteam);
    assert_eq!(e.kind, "shutting_down_steam");
    assert_eq!(e.name, "Closing Steam...");
}

#[test]
fn ping_targets() {
    assert_eq!(parse_target("1.2.3.4:2302"), Some(("1.2.3.4".to_string(), 2302)));
    assert_eq!(parse_target("[::1]:5"), Some(("[::1]".to_string(), 5)));
    assert_eq!(parse_target("nohost"), None);
    assert_eq!(parse_target("h:x"), None);
}

#[test]
fn cache_names() {
    assert_eq!(cache_filename(0xabc, "https://x/y/Pic.PNG?v=2"), "0000000000000abc.png");
    assert_eq!(cache_filename(u64::MAX, "https://x/y/file"), "ffffffffffffffff.jpg");
    let a = url_to_cache_filename("https://dayz.com/a.webp");
    assert_eq!(a, url_to_cache_filename("https://dayz.com/a.webp"));
    assert!(a.ends_with(".webp") && a.len() == 21);
}

#[test]
fn dedup_keeps_first_endpoint() {
    let mk = |ip: &str, port: i64, name: &str| Server {
        name: name.into(),
        endpoint: Endpoint { ip: ip.into(), port },
        ..Default::default()
    };
    let out = dedup_servers(vec![mk("1.1.1.1", 1, "a"), mk("1.1.1.1", 2, "b"), mk("1.1.1.1", 1, "c")]);
    let names: Vec<&str> = out.iter().map(|s| s.name.as_str()).collect();
    assert_eq!(names, ["a", "b"]);
}

#[test]
fn path_joining() {
    assert_eq!(join("/a", "b"), "/a/b");
    assert_eq!(join("/a/", "b"), "/a/b");
    assert_eq!(join("/a", "/abs"), "/abs");
    assert_eq!(path_to_forward_slashes("C:\\x\\y"), "C:/x/y");
}

#[test]
fn installed_mods_listing_order() {
    let m = |name: &str, id: u64| InstalledMod { name: name.into(), id, local_updated: 0, size: 0, managed: false };
    let sorted = sort_mods_by_name(vec![m("zeta", 1), m("Alpha", 2), m("beta", 3), m("alpha", 4), m("Ärger", 5)]);
    let ids: Vec<u64> = sorted.iter().map(|x| x.id).collect();
    assert_eq!(ids, vec![2, 4, 3, 1, 5]);
    assert!(sort_mods_by_name(vec![]).is_empty());
}
