use dayz_community_hub_core::error::Error;
use dayz_community_hub_core::offline::{
    archive_target, available_missions, build_launch_args, offline_save_dirs, check_gzip, check_mission_removable, is_offline_mission,
    latest_release_url, mission_config_path, missions_path, needs_update, tarball_http_error,
    tarball_url, toggle_spawn, version_file_path,
};
use dayz_community_hub_core::system::{
    check_max_map_count, dayz_dir_of, parse_library_folders, push_steamapps, steamapps_of,
    MAX_MAP_COUNT_MIN,
};

#[test]
fn map_count_check() {
    let c = check_max_map_count("65530\n").unwrap();
    assert_eq!(c.current, 65530);
    assert_eq!(c.required, MAX_MAP_COUNT_MIN);
    assert!(!c.ok);
    assert!(c.recommendation().starts_with("vm.max_map_count needs adjustment: 65530 < 1048576\nRun: echo 'vm.max_map_count=1048576'"));
    let ok = check_max_map_count(" 2147483642 ").unwrap();
    assert!(ok.ok);
    assert_eq!(ok.recommendation(), "vm.max_map_count is sufficient (2147483642 >= 1048576)");
}

#[test]
fn map_count_parse_errors() {
    match check_max_map_count("abc") {
        Err(Error::Other(m)) => assert_eq!(m, "Failed to parse max_map_count: invalid digit found in string"),
        other => panic!("unexpected {:?}", other),
    }
    match check_max_map_count("") {
        Err(Error::Other(m)) => assert_eq!(m, "Failed to parse max_map_count: cannot parse integer from empty string"),
        other => panic!("unexpected {:?}", other),
    }
}

#[test]
fn steam_paths() {
    assert_eq!(steamapps_of("/home/u/.steam/steam"), "/home/u/.steam/steam/steamapps");
    assert_eq!(steamapps_of("/games/steamapps"), "/games/steamapps");
    assert_eq!(dayz_dir_of("/games/steamapps"), "/games/steamapps/common/DayZ");
    let mut out = vec!["/a/steamapps".to_string()];
    push_steamapps(&mut out, "/a/steamapps", true);
    push_steamapps(&mut out, "/b/steamapps", false);
    push_steamapps(&mut out, "/c/steamapps", true);
    assert_eq!(out, ["/a/steamapps", "/c/steamapps"]);
}

#[test]
fn library_folders() {
    let vdf = "\"libraryfolders\"\n{\n\t\"0\"\n\t{\n\t\t\"path\"\t\t\"/home/u/.local/share/Steam\"\n\t}\n\t\"1\"\n\t{\n\t\t\"path\"\t\t\"D:\\\\SteamLibrary\"\n\t}\n}";
    assert_eq!(parse_library_folders(vdf), ["/home/u/.local/share/Steam", "D:\\SteamLibrary"]);
    assert!(parse_library_folders("nothing here").is_empty());
}

#[test]
fn offline_paths_and_names() {
    assert_eq!(missions_path("/g/DayZ"), "/g/DayZ/Missions");
    assert_eq!(
        mission_config_path("/g/DayZ", "DayZCommunityOfflineMode.ChernarusPlus"),
        "/g/DayZ/Missions/DayZCommunityOfflineMode.ChernarusPlus/core/CommunityOfflineClient.c"
    );
    assert!(is_offline_mission("DayZCommunityOfflineMode.Enoch"));
    assert!(!is_offline_mission("dayzOffline.chernarusplus"));
}

#[test]
fn spawn_toggle_rewrites_the_flag() {
    let c = "static bool HIVE_ENABLED = false;\nint X = 0; HIVE_ENABLED = 0;";
    let on = toggle_spawn(c, true);
    assert_eq!(on, "static bool HIVE_ENABLED = true;\nint X = 0; HIVE_ENABLED = 1;");
    assert_eq!(toggle_spawn(&on, false), c);
}

#[test]
fn offline_launch_args() {
    assert_eq!(
        build_launch_args("DayZCommunityOfflineMode.ChernarusPlus", &vec![1, 22]),
        [
            "-mission=.\\Missions\\DayZCommunityOfflineMode.ChernarusPlus",
            "-nosplash",
            "-noPause",
            "-noBenchmark",
            "-nolauncher",
            "-filePatching",
            "-doLogs",
            "-scriptDebug=true",
            "-mod=@1;@22",
        ]
    );
    assert_eq!(build_launch_args("M", &vec![]).len(), 8);
}

#[test]
fn mission_removal_checks() {
    assert!(check_mission_removable("M", true, true).is_ok());
    match check_mission_removable("M", false, false) {
        Err(Error::Other(m)) => assert_eq!(m, "Mission not found: M"),
        other => panic!("unexpected {:?}", other),
    }
    match check_mission_removable("M", true, false) {
        Err(Error::Other(m)) => assert_eq!(m, "Not a directory: M"),
        other => panic!("unexpected {:?}", other),
    }
}

#[test]
fn offline_update_requests() {
    assert_eq!(
        latest_release_url(),
        "https://api.github.com/repos/Arkensor/DayZCommunityOfflineMode/releases/latest"
    );
    assert_eq!(
        tarball_url("v1.2"),
        "https://api.github.com/repos/Arkensor/DayZCommunityOfflineMode/tarball/v1.2"
    );
    assert_eq!(
        tarball_url(""),
        "https://api.github.com/repos/Arkensor/DayZCommunityOfflineMode/tarball"
    );
    assert_eq!(
        version_file_path("/games/dayz"),
        "/games/dayz/Missions/DayZCommunityOfflineMode.ChernarusPlus/.version"
    );
}

#[test]
fn offline_update_decision() {
    assert!(needs_update(&None, "v2"));
    assert!(needs_update(&Some("v1".to_string()), "v2"));
    assert!(!needs_update(&Some("v2".to_string()), "v2"));
}

#[test]
fn gzip_check() {
    assert!(check_gzip(&[0x1f, 0x8b, 0x08]).is_ok());
    match check_gzip(b"ab") {
        Err(Error::Other(m)) => assert_eq!(
            m,
            "Downloaded data is not a gzip stream (got 2 bytes, first bytes: [97, 98]). The GitHub API may have returned an error page."
        ),
        other => panic!("unexpected {:?}", other),
    }
    match check_gzip(&[]) {
        Err(Error::Other(m)) => assert_eq!(
            m,
            "Downloaded data is not a gzip stream (got 0 bytes, first bytes: []). The GitHub API may have returned an error page."
        ),
        other => panic!("unexpected {:?}", other),
    }
    let long = vec![7u8; 100];
    match check_gzip(&long) {
        Err(Error::Other(m)) => {
            assert!(m.starts_with("Downloaded data is not a gzip stream (got 100 bytes, first bytes: [7, 7"));
            assert_eq!(m.matches(", ").count(), 64);
        }
        other => panic!("unexpected {:?}", other),
    }
}

#[test]
fn tarball_entries() {
    let v = |xs: &[&str]| xs.iter().map(|s| s.to_string()).collect::<Vec<String>>();
    assert_eq!(
        archive_target(&v(&["root", "Missions", "M", "f.c"])),
        Some(v(&["M", "f.c"]))
    );
    assert_eq!(archive_target(&v(&["root", "Missions"])), None);
    assert_eq!(archive_target(&v(&["root", "Other", "M"])), None);
    match tarball_http_error("404 Not Found") {
        Error::Other(m) => assert_eq!(m, "GitHub returned HTTP 404 Not Found for tarball download"),
        other => panic!("unexpected {:?}", other),
    }
}

#[test]
fn missions_on_disk() {
    let e = vec![
        ("DayZCommunityOfflineMode.ChernarusPlus".to_string(), true),
        ("readme.txt".to_string(), false),
        ("dayzOffline.enoch".to_string(), true),
        ("DayZCommunityOfflineMode.Enoch".to_string(), true),
    ];
    assert_eq!(
        available_missions(&e),
        ["DayZCommunityOfflineMode.ChernarusPlus", "dayzOffline.enoch", "DayZCommunityOfflineMode.Enoch"]
    );
    assert_eq!(
        offline_save_dirs("/g/dayz", &e),
        [
            "/g/dayz/Missions/DayZCommunityOfflineMode.ChernarusPlus/storage_-1",
            "/g/dayz/Missions/DayZCommunityOfflineMode.Enoch/storage_-1"
        ]
    );
}
