//! The DayZ Community Offline Mode missions.
//!
//! Downloading, unpacking and deleting missions is left to the application;
//! the launch arguments, the spawn switch and which folders belong to the
//! offline mode are decided here.

use vstd::prelude::*;
use crate::error::Error;
use crate::paths::{join, join_path};
use crate::text::{
    dec, from_chars, join as join_texts, join_chars, push_all, push_str, replace_text,
    replace_text_chars, starts_with, starts_with_chars, string_views, to_chars, u64_to_dec, views,
};

verus! {

/// GitHub repository of the Community Offline Mode.
pub const COMMUNITY_OFFLINE_REPO: &'static str = "Arkensor/DayZCommunityOfflineMode";

/// The missions directory inside the DayZ directory.
pub const MISSIONS_DIR: &'static str = "Missions";

/// The missions directory of a DayZ installation.
pub fn missions_path(dayz_path: &str) -> (r: String)
    ensures
        r@ == join_path(dayz_path@, "Missions"@),
{
    join(dayz_path, MISSIONS_DIR)
}

/// Whether a mission folder belongs to the Community Offline Mode.
pub fn is_offline_mission(name: &str) -> (r: bool)
    ensures
        r == starts_with(name@, "DayZCommunityOfflineMode."@),
{
    starts_with_chars(&to_chars(name), &to_chars("DayZCommunityOfflineMode."))
}

/// The mission's client configuration file:
/// `<missions>/<mission>/core/CommunityOfflineClient.c`.
pub fn mission_config_path(dayz_path: &str, mission: &str) -> (r: String)
    ensures
        r@ == join_path(
            join_path(join_path(join_path(dayz_path@, "Missions"@), mission@), "core"@),
            "CommunityOfflineClient.c"@,
        ),
{
    let m = missions_path(dayz_path);
    let a = join(m.as_str(), mission);
    let b = join(a.as_str(), "core");
    join(b.as_str(), "CommunityOfflineClient.c")
}

/// The configuration text with the hive switched on or off.
pub open spec fn spawn_toggled_spec(content: Seq<char>, enable: bool) -> Seq<char> {
    if enable {
        replace_text(
            replace_text(content, "HIVE_ENABLED = false;"@, "HIVE_ENABLED = true;"@),
            "HIVE_ENABLED = 0;"@,
            "HIVE_ENABLED = 1;"@,
        )
    } else {
        replace_text(
            replace_text(content, "HIVE_ENABLED = true;"@, "HIVE_ENABLED = false;"@),
            "HIVE_ENABLED = 1;"@,
            "HIVE_ENABLED = 0;"@,
        )
    }
}

fn replace_in(s: &Vec<char>, from: &str, to: &str) -> (r: Vec<char>)
    requires
        from@.len() > 0,
    ensures
        r@ == replace_text(s@, from@, to@),
{
    replace_text_chars(s, &to_chars(from), &to_chars(to))
}

/// Switches the hive (persistent spawns) of a mission's client
/// configuration on or off.
pub fn toggle_spawn(content: &str, enable: bool) -> (r: String)
    ensures
        r@ == spawn_toggled_spec(content@, enable),
{
    proof {
        reveal_strlit("HIVE_ENABLED = false;");
        reveal_strlit("HIVE_ENABLED = true;");
        reveal_strlit("HIVE_ENABLED = 0;");
        reveal_strlit("HIVE_ENABLED = 1;");
    }
    let c = to_chars(content);
    let r = if enable {
        let a = replace_in(&c, "HIVE_ENABLED = false;", "HIVE_ENABLED = true;");
        replace_in(&a, "HIVE_ENABLED = 0;", "HIVE_ENABLED = 1;")
    } else {
        let a = replace_in(&c, "HIVE_ENABLED = true;", "HIVE_ENABLED = false;");
        replace_in(&a, "HIVE_ENABLED = 1;", "HIVE_ENABLED = 0;")
    };
    from_chars(&r)
}

/// The fixed arguments of an offline launch after the mission.
pub open spec fn offline_flags() -> Seq<Seq<char>> {
    seq![
        "-nosplash"@,
        "-noPause"@,
        "-noBenchmark"@,
        "-nolauncher"@,
        "-filePatching"@,
        "-doLogs"@,
        "-scriptDebug=true"@,
    ]
}

/// `@<id>` for each mod id.
pub open spec fn mod_folders(ids: Seq<u64>) -> Seq<Seq<char>> {
    ids.map_values(|id: u64| seq!['@'] + dec(id as nat))
}

/// The arguments of an offline launch: the mission, the flags of the
/// official launcher script, and `-mod=@id;@id...` when there are mods.
pub open spec fn offline_args_spec(mission: Seq<char>, mod_ids: Seq<u64>) -> Seq<Seq<char>> {
    let base = seq!["-mission=.\\Missions\\"@ + mission] + offline_flags();
    if mod_ids.len() == 0 {
        base
    } else {
        base.push("-mod="@ + join_texts(mod_folders(mod_ids), ';'))
    }
}

/// The game's arguments for starting an offline mission (as the official
/// `DayZCommunityOfflineMode.bat` does, plus `-nolauncher`).
pub fn build_launch_args(mission: &str, mod_ids: &Vec<u64>) -> (r: Vec<String>)
    ensures
        string_views(r@) == offline_args_spec(mission@, mod_ids@),
{
    let mut first = to_chars("-mission=.\\Missions\\");
    push_str(&mut first, mission);
    let mut args: Vec<String> = vec![
        from_chars(&first),
        from_chars(&to_chars("-nosplash")),
        from_chars(&to_chars("-noPause")),
        from_chars(&to_chars("-noBenchmark")),
        from_chars(&to_chars("-nolauncher")),
        from_chars(&to_chars("-filePatching")),
        from_chars(&to_chars("-doLogs")),
        from_chars(&to_chars("-scriptDebug=true")),
    ];
    assert(string_views(args@) =~= seq!["-mission=.\\Missions\\"@ + mission@] + offline_flags());
    if mod_ids.len() > 0 {
        let mut parts: Vec<Vec<char>> = Vec::new();
        let mut i: usize = 0;
        while i < mod_ids.len()
            invariant
                i <= mod_ids.len(),
                views(parts@) == mod_folders(mod_ids@.subrange(0, i as int)),
            decreases mod_ids.len() - i,
        {
            let ghost before = parts@;
            let mut p: Vec<char> = Vec::new();
            p.push('@');
            push_all(&mut p, &u64_to_dec(mod_ids[i]));
            parts.push(p);
            proof {
                assert(views(before.push(p)) =~= views(before).push(p@));
                assert(mod_folders(mod_ids@.subrange(0, i + 1)) =~= mod_folders(
                    mod_ids@.subrange(0, i as int),
                ).push(seq!['@'] + dec(mod_ids@[i as int] as nat)));
            }
            i = i + 1;
        }
        assert(mod_ids@.subrange(0, mod_ids@.len() as int) =~= mod_ids@);
        let mut m = to_chars("-mod=");
        push_all(&mut m, &join_chars(&parts, ';'));
        let ghost before = args@;
        let s = from_chars(&m);
        args.push(s);
        assert(string_views(args@) =~= string_views(before).push(s@));
    }
    args
}

/// Whether a mission can be removed: it must exist and be a directory.
pub fn check_mission_removable(mission: &str, exists: bool, is_dir: bool) -> (r: Result<(), Error>)
    ensures
        !exists ==> (r matches Err(e) && e matches Error::Other(m) && m@ == "Mission not found: "@
            + mission@),
        exists && !is_dir ==> (r matches Err(e) && e matches Error::Other(m) && m@
            == "Not a directory: "@ + mission@),
        exists && is_dir ==> r is Ok,
{
    if !exists {
        let mut v = to_chars("Mission not found: ");
        push_str(&mut v, mission);
        return Err(Error::Other(from_chars(&v)));
    }
    if !is_dir {
        let mut v = to_chars("Not a directory: ");
        push_str(&mut v, mission);
        return Err(Error::Other(from_chars(&v)));
    }
    Ok(())
}

// ------------------------------------------------------------ updates

/// The GitHub request for the latest release of the offline mode.
pub fn latest_release_url() -> (r: String)
    ensures
        r@ == "https://api.github.com/repos/Arkensor/DayZCommunityOfflineMode/releases/latest"@,
{
    from_chars(&to_chars("https://api.github.com/repos/Arkensor/DayZCommunityOfflineMode/releases/latest"))
}

/// The tarball of a release tag, or of the default branch for an empty tag.
pub open spec fn tarball_url_spec(tag: Seq<char>) -> Seq<char> {
    if tag.len() == 0 {
        "https://api.github.com/repos/Arkensor/DayZCommunityOfflineMode/tarball"@
    } else {
        "https://api.github.com/repos/Arkensor/DayZCommunityOfflineMode/tarball/"@ + tag
    }
}

/// The tarball to download for a release tag.
pub fn tarball_url(tag: &str) -> (r: String)
    ensures
        r@ == tarball_url_spec(tag@),
{
    if to_chars(tag).len() == 0 {
        from_chars(&to_chars("https://api.github.com/repos/Arkensor/DayZCommunityOfflineMode/tarball"))
    } else {
        let mut v = to_chars("https://api.github.com/repos/Arkensor/DayZCommunityOfflineMode/tarball/");
        push_str(&mut v, tag);
        from_chars(&v)
    }
}

/// The file recording the installed release:
/// `<missions>/DayZCommunityOfflineMode.ChernarusPlus/.version`.
pub fn version_file_path(dayz_path: &str) -> (r: String)
    ensures
        r@ == join_path(
            join_path(join_path(dayz_path@, "Missions"@), "DayZCommunityOfflineMode.ChernarusPlus"@),
            ".version"@,
        ),
{
    let m = missions_path(dayz_path);
    let c = join(m.as_str(), "DayZCommunityOfflineMode.ChernarusPlus");
    join(c.as_str(), ".version")
}

/// Whether the offline mode must be downloaded: the installed release (the
/// version file's text, when there is one) is not the latest tag.
pub fn needs_update(current: &Option<String>, latest: &str) -> (r: bool)
    ensures
        r == !(current matches Some(c) && c@ == latest@),
{
    match current {
        Some(c) => !crate::text::str_eq(c.as_str(), latest),
        None => true,
    }
}

/// Items as `Debug` lists them: separated by `, `.
pub open spec fn debug_list(items: Seq<Seq<char>>) -> Seq<char>
    decreases items.len(),
{
    if items.len() == 0 {
        Seq::empty()
    } else if items.len() == 1 {
        items[0]
    } else {
        debug_list(items.drop_last()) + ", "@ + items.last()
    }
}

/// The decimal texts of bytes.
pub open spec fn byte_texts(b: Seq<u8>) -> Seq<Seq<char>>
    decreases b.len(),
{
    if b.len() == 0 {
        Seq::empty()
    } else {
        byte_texts(b.drop_last()).push(dec(b.last() as nat))
    }
}

proof fn lemma_byte_texts_len(b: Seq<u8>)
    ensures
        byte_texts(b).len() == b.len(),
    decreases b.len(),
{
    if b.len() > 0 {
        lemma_byte_texts_len(b.drop_last());
    }
}

/// The first bytes (at most 64) of a download that is not gzip data.
pub open spec fn head_bytes(b: Seq<u8>) -> Seq<u8> {
    if b.len() > 64 {
        b.subrange(0, 64)
    } else {
        b
    }
}

/// Checks that a downloaded tarball is gzip data (it starts with the gzip
/// magic number); the error otherwise names its size and first bytes.
pub fn check_gzip(bytes: &[u8]) -> (r: Result<(), Error>)
    ensures
        bytes@.len() >= 2 && bytes@[0] == 0x1f && bytes@[1] == 0x8b ==> r is Ok,
        !(bytes@.len() >= 2 && bytes@[0] == 0x1f && bytes@[1] == 0x8b) ==> (r matches Err(e)
            && e matches Error::Other(m) && m@ == "Downloaded data is not a gzip stream (got "@
            + dec(bytes@.len()) + " bytes, first bytes: ["@ + debug_list(byte_texts(head_bytes(bytes@)))
            + "]). The GitHub API may have returned an error page."@),
{
    if bytes.len() >= 2 && bytes[0] == 0x1f && bytes[1] == 0x8b {
        return Ok(());
    }
    let n: usize = if bytes.len() > 64 {
        64
    } else {
        bytes.len()
    };
    let ghost head = head_bytes(bytes@);
    assert(head.len() == n);
    let mut list: Vec<char> = Vec::new();
    let mut i: usize = 0;
    while i < n
        invariant
            i <= n,
            n <= bytes@.len(),
            head == head_bytes(bytes@),
            head.len() == n,
            forall|k: int| 0 <= k < n ==> #[trigger] head[k] == bytes@[k],
            list@ == debug_list(byte_texts(head.subrange(0, i as int))),
        decreases n - i,
    {
        proof {
            let pre = head.subrange(0, i as int);
            let t = head.subrange(0, i + 1);
            assert(t.drop_last() =~= pre);
            lemma_byte_texts_len(pre);
            let bt = byte_texts(t);
            assert(bt == byte_texts(pre).push(dec(bytes@[i as int] as nat)));
            assert(bt.drop_last() =~= byte_texts(pre));
            if i > 0 {
                assert(debug_list(bt) == debug_list(byte_texts(pre)) + ", "@ + dec(bytes@[i as int] as nat));
            } else {
                assert(debug_list(bt) == dec(bytes@[i as int] as nat));
            }
        }
        if i > 0 {
            push_str(&mut list, ", ");
        }
        push_all(&mut list, &u64_to_dec(bytes[i] as u64));
        i = i + 1;
    }
    assert(head.subrange(0, n as int) =~= head);
    let mut m = to_chars("Downloaded data is not a gzip stream (got ");
    push_all(&mut m, &u64_to_dec(bytes.len() as u64));
    push_str(&mut m, " bytes, first bytes: [");
    push_all(&mut m, &list);
    push_str(&mut m, "]). The GitHub API may have returned an error page.");
    Err(Error::Other(from_chars(&m)))
}

/// Where an entry of the release tarball goes: the entries under the
/// archive's `Missions` folder (its second path component), at their path
/// below it; other entries are skipped.
pub open spec fn archive_target_spec(components: Seq<Seq<char>>) -> Option<Seq<Seq<char>>> {
    if components.len() > 2 && components[1] == "Missions"@ {
        Some(components.subrange(2, components.len() as int))
    } else {
        None
    }
}

/// Where an entry of the release tarball goes, below the missions directory.
pub fn archive_target(components: &Vec<String>) -> (r: Option<Vec<String>>)
    ensures
        match archive_target_spec(string_views(components@)) {
            Some(rest) => r matches Some(v) && string_views(v@) == rest,
            None => r is None,
        },
{
    if components.len() <= 2 || !crate::text::str_eq(components[1].as_str(), "Missions") {
        proof {
            if components@.len() > 2 {
                assert(string_views(components@)[1] == components@[1]@);
            }
        }
        return None;
    }
    assert(string_views(components@)[1] == components@[1]@);
    let mut out: Vec<String> = Vec::new();
    let mut i: usize = 2;
    while i < components.len()
        invariant
            2 <= i <= components@.len(),
            string_views(out@) == string_views(components@).subrange(2, i as int),
        decreases components.len() - i,
    {
        let ghost before = string_views(out@);
        let c = from_chars(&to_chars(components[i].as_str()));
        assert(string_views(components@)[i as int] == components@[i as int]@);
        out.push(c);
        assert(string_views(out@) =~= before.push(c@));
        assert(string_views(out@) =~= string_views(components@).subrange(2, i + 1));
        i = i + 1;
    }
    Some(out)
}

/// The error for a tarball request that did not succeed; `status` is the
/// HTTP status as it is displayed (`404 Not Found`).
pub fn tarball_http_error(status: &str) -> (r: Error)
    ensures
        r matches Error::Other(m) && m@ == "GitHub returned HTTP "@ + status@ + " for tarball download"@,
{
    let mut m = to_chars("GitHub returned HTTP ");
    push_str(&mut m, status);
    push_str(&mut m, " for tarball download");
    Error::Other(from_chars(&m))
}

// ------------------------------------------------------------ missions on disk

/// The entries of a directory as values: name and whether it is a folder.
pub open spec fn entry_views(entries: Seq<(String, bool)>) -> Seq<(Seq<char>, bool)> {
    entries.map_values(|e: (String, bool)| (e.0@, e.1))
}

/// The folder names among the entries, in order.
pub open spec fn folder_names(entries: Seq<(Seq<char>, bool)>) -> Seq<Seq<char>>
    decreases entries.len(),
{
    if entries.len() == 0 {
        Seq::empty()
    } else {
        let p = folder_names(entries.drop_last());
        if entries.last().1 {
            p.push(entries.last().0)
        } else {
            p
        }
    }
}

/// The available missions: the folders of the missions directory, in the
/// order it lists them.
pub fn available_missions(entries: &Vec<(String, bool)>) -> (r: Vec<String>)
    ensures
        string_views(r@) == folder_names(entry_views(entries@)),
{
    let ghost ev = entry_views(entries@);
    let mut out: Vec<String> = Vec::new();
    let mut i: usize = 0;
    while i < entries.len()
        invariant
            i <= entries.len(),
            ev == entry_views(entries@),
            string_views(out@) == folder_names(ev.subrange(0, i as int)),
        decreases entries.len() - i,
    {
        proof {
            let t = ev.subrange(0, i + 1);
            assert(t.drop_last() =~= ev.subrange(0, i as int));
            assert(t.last() == (entries@[i as int].0@, entries@[i as int].1));
        }
        if entries[i].1 {
            let ghost before = out@;
            let n = from_chars(&to_chars(entries[i].0.as_str()));
            out.push(n);
            assert(string_views(out@) =~= string_views(before).push(n@));
        }
        i = i + 1;
    }
    assert(ev.subrange(0, entries@.len() as int) =~= ev);
    out
}

/// The save folders of the offline missions: `storage_-1` inside every
/// `DayZCommunityOfflineMode.*` folder of the missions directory.
pub open spec fn save_dirs_spec(missions: Seq<char>, entries: Seq<(Seq<char>, bool)>) -> Seq<Seq<char>>
    decreases entries.len(),
{
    if entries.len() == 0 {
        Seq::empty()
    } else {
        let p = save_dirs_spec(missions, entries.drop_last());
        let e = entries.last();
        if e.1 && starts_with(e.0, "DayZCommunityOfflineMode."@) {
            p.push(join_path(join_path(missions, e.0), "storage_-1"@))
        } else {
            p
        }
    }
}

/// The folders that clearing the offline saves deletes (those that exist;
/// their number is reported), for the entries of the missions directory.
pub fn offline_save_dirs(dayz_path: &str, entries: &Vec<(String, bool)>) -> (r: Vec<String>)
    ensures
        string_views(r@) == save_dirs_spec(join_path(dayz_path@, "Missions"@), entry_views(entries@)),
{
    let missions = missions_path(dayz_path);
    let ghost ev = entry_views(entries@);
    let prefix = to_chars("DayZCommunityOfflineMode.");
    let mut out: Vec<String> = Vec::new();
    let mut i: usize = 0;
    while i < entries.len()
        invariant
            i <= entries.len(),
            ev == entry_views(entries@),
            prefix@ == "DayZCommunityOfflineMode."@,
            missions@ == join_path(dayz_path@, "Missions"@),
            string_views(out@) == save_dirs_spec(missions@, ev.subrange(0, i as int)),
        decreases entries.len() - i,
    {
        proof {
            let t = ev.subrange(0, i + 1);
            assert(t.drop_last() =~= ev.subrange(0, i as int));
            assert(t.last() == (entries@[i as int].0@, entries@[i as int].1));
        }
        if entries[i].1 && starts_with_chars(&to_chars(entries[i].0.as_str()), &prefix) {
            let ghost before = out@;
            let m = join(missions.as_str(), entries[i].0.as_str());
            let d = join(m.as_str(), "storage_-1");
            out.push(d);
            assert(string_views(out@) =~= string_views(before).push(d@));
        }
        i = i + 1;
    }
    assert(ev.subrange(0, entries@.len() as int) =~= ev);
    out
}

} // verus!
