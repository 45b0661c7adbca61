use dayz_community_hub_core::dayzavr::{
    mod_is_complete, mods_needing_download, mods_only_regex, mods_total_size, parse_manifest,
    parse_mod_list, parse_servers, linked_mods, ModFile, ModLinkCheck,
};

#[test]
fn parses_mod_list() {
    let f = "\"-mod=@Cl0ud's Military Gear;@DayZavrCore;;@CF\"";
    assert_eq!(parse_mod_list(f), ["@Cl0ud's Military Gear", "@DayZavrCore", "@CF"]);
}

#[test]
fn parses_manifest_line() {
    let m = parse_manifest("\\@CF\\Addons\\cf.pbo|4b7c80a0|43215275\n\\@CF\\v.txt|a1064c88|6");
    assert_eq!(m.len(), 2);
    assert_eq!(m[0].path, "@CF/Addons/cf.pbo");
    assert_eq!(m[0].crc32, 0x4b7c80a0);
    assert_eq!(m[0].size, 43215275);
    assert_eq!(m[0].mod_folder(), "@CF");
}

#[test]
fn parses_servers() {
    let xml = r#"<server><load id="3"><name>Test</name><ip>a.ru|b.ru</ip><port>2372</port><pass></pass><portUDP>15019</portUDP><play_host>12</play_host><MaxPlayers>45</MaxPlayers><mods>"-mod=@A;@B"</mods><time>14:30</time><TimeRestart>x</TimeRestart><Diskord>https://d</Diskord></load></server>"#;
    let s = parse_servers(xml).unwrap();
    assert_eq!(s.len(), 1);
    assert_eq!(s[0].id, 3);
    assert_eq!(s[0].host, "a.ru");
    assert_eq!(s[0].query_port, 15019);
    assert_eq!(s[0].players, 12);
    assert_eq!(s[0].mods, ["@A", "@B"]);
}

#[test]
fn parses_servers_fields_in_full() {
    let xml = r#"<server><load id="3"><name>Test</name><ip>a.ru|b.ru</ip><port>2372</port><pass></pass><portUDP>15019</portUDP><play_host>12</play_host><MaxPlayers>45</MaxPlayers><mods>"-mod=@A;@B"</mods><time>14:30</time><TimeRestart>x</TimeRestart><Diskord>https://d</Diskord></load></server>"#;
    let s = parse_servers(xml).unwrap();
    assert_eq!(s[0].name, "Test");
    assert_eq!(s[0].all_hosts, ["a.ru", "b.ru"]);
    assert_eq!(s[0].game_port, 2372);
    assert!(!s[0].password);
    assert_eq!(s[0].max_players, 45);
    assert_eq!(s[0].time, "14:30");
    assert_eq!(s[0].restart, "x");
    assert_eq!(s[0].discord.as_deref(), Some("https://d"));
}

#[test]
fn parse_servers_rejects_broken_xml() {
    assert!(parse_servers("<server><load").is_err());
}

#[test]
fn parse_mod_list_of_empty_field() {
    assert!(parse_mod_list("").is_empty());
    assert!(parse_mod_list("\"-mod=\"").is_empty());
    assert_eq!(parse_mod_list("@A"), ["@A"]);
}

#[test]
fn parse_manifest_skips_bad_lines() {
    let m = parse_manifest("garbage\n\\@A\\x.pbo|zz|5\n\\@A\\y.pbo|0000000f|7\n");
    assert_eq!(m.len(), 1);
    assert_eq!(m[0].path, "@A/y.pbo");
    assert_eq!(m[0].crc32, 15);
    assert_eq!(m[0].size, 7);
}

fn sample_manifest() -> Vec<ModFile> {
    parse_manifest("\\@CF\\Addons\\cf.pbo|4b7c80a0|100\n\\@CF\\v.txt|a1064c88|6\n\\@Core\\c.pbo|00000001|50")
}

#[test]
fn total_size_of_requested_mods() {
    let m = sample_manifest();
    assert_eq!(mods_total_size(&m, &vec!["@CF".to_string()]), 106);
    assert_eq!(mods_total_size(&m, &vec!["@CF".to_string(), "@Core".to_string()]), 156);
    assert_eq!(mods_total_size(&m, &vec![]), 0);
}

#[test]
fn regex_of_requested_mods() {
    assert_eq!(mods_only_regex(&vec![]), None);
    assert_eq!(
        mods_only_regex(&vec!["@CF".to_string(), "@A.B".to_string()]).as_deref(),
        Some(r"^(@CF|@A\.B)/")
    );
}

#[test]
fn completeness_compares_sizes() {
    let m = sample_manifest();
    let all = vec![Some(100), Some(6), Some(50)];
    assert!(mod_is_complete(&m, &all, "@CF"));
    let short = vec![Some(100), Some(5), Some(50)];
    assert!(!mod_is_complete(&m, &short, "@CF"));
    let missing = vec![Some(100), Some(6), None];
    assert!(!mod_is_complete(&m, &missing, "@Core"));
    assert!(mod_is_complete(&m, &missing, "@CF"));
    let req = vec!["@CF".to_string(), "@Core".to_string()];
    assert_eq!(mods_needing_download(&m, &missing, &req), ["@Core"]);
    assert!(mods_needing_download(&m, &all, &req).is_empty());
}

#[test]
fn linked_mods_keeps_installed_and_linked() {
    let mods = vec!["@A".to_string(), "@B".to_string(), "@C".to_string(), "@D".to_string()];
    let c = |w: bool, r: bool, l: bool| ModLinkCheck { in_workshop: w, in_root: r, link_made: l };
    let checks = vec![c(true, true, false), c(false, true, true), c(true, false, true), c(true, false, false)];
    assert_eq!(linked_mods(&mods, &checks), vec!["@A".to_string(), "@C".to_string()]);
    assert!(linked_mods(&[], &[]).is_empty());
}
