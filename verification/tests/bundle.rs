use dayz_community_hub_core::bundle::{
    bundle_layout, bundle_version, check_export, export_includes, import_replaces, BundleLayout,
};

#[test]
fn export_selection() {
    assert!(export_includes("profile.json", false));
    assert!(!export_includes("mods.json", false));
    assert!(export_includes("mods.json", true));
    assert!(!export_includes("server_list_cache.json", true));
    assert!(!export_includes("notes.txt", true));
    assert!(import_replaces("mods.json"));
    assert!(!import_replaces("server_list_cache.json"));
    assert!(!import_replaces("profile.bak"));
}

#[test]
fn export_needs_profile() {
    assert!(check_export(&vec!["mods.json".to_string(), "profile.json".to_string()]).is_ok());
    assert_eq!(
        check_export(&vec!["mods.json".to_string()]),
        Err("profile.json not found in data directory".to_string())
    );
}

#[test]
fn bundle_versions() {
    assert_eq!(bundle_version(None), 1);
    assert_eq!(bundle_version(Some(2)), 2);
    assert_eq!(bundle_version(Some(258)), 2);
    assert_eq!(bundle_layout(1), Ok(BundleLayout::ProfileAndMods));
    assert_eq!(bundle_layout(2), Ok(BundleLayout::Files));
    assert_eq!(bundle_layout(3), Err("Unsupported bundle version 3".to_string()));
}
