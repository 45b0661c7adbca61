//! Exporting and importing the settings: which files of the data directory
//! a bundle carries, which an import replaces, and how a bundle of each
//! format version is read.

use vstd::prelude::*;
use crate::text::{dec, ends_with, ends_with_chars, from_chars, push_all, str_eq, to_chars, u64_to_dec};

verus! {

/// The format version of the bundles that are written.
pub const BUNDLE_VERSION: u8 = 2;

/// A settings file: a `.json` file of the data directory that is no cache
/// (`server_list_cache.json` is one).
pub open spec fn is_settings_file(name: Seq<char>) -> bool {
    ends_with(name, ".json"@) && name != "server_list_cache.json"@
}

fn settings_file(name: &str) -> (r: bool)
    ensures
        r == is_settings_file(name@),
{
    ends_with_chars(&to_chars(name), &to_chars(".json")) && !str_eq(name, "server_list_cache.json")
}

/// Whether an export carries the file `name`: every settings file, the
/// installed-mods list `mods.json` only when asked for.
pub fn export_includes(name: &str, include_mods: bool) -> (r: bool)
    ensures
        r == (is_settings_file(name@) && (include_mods || name@ != "mods.json"@)),
{
    settings_file(name) && (include_mods || !str_eq(name, "mods.json"))
}

/// Whether an import removes the file `name` before writing the bundle's
/// files: every settings file.
pub fn import_replaces(name: &str) -> (r: bool)
    ensures
        r == is_settings_file(name@),
{
    settings_file(name)
}

/// An export must carry the profile: the error when the files collected
/// hold no `profile.json`.
pub fn check_export(names: &Vec<String>) -> (r: Result<(), String>)
    ensures
        r is Ok <==> exists|i: int| 0 <= i < names@.len() && names@[i]@ == "profile.json"@,
        r matches Err(m) ==> m@ == "profile.json not found in data directory"@,
{
    let mut i: usize = 0;
    while i < names.len()
        invariant
            i <= names.len(),
            forall|j: int| 0 <= j < i ==> names@[j]@ != "profile.json"@,
        decreases names.len() - i,
    {
        if str_eq(names[i].as_str(), "profile.json") {
            return Ok(());
        }
        i = i + 1;
    }
    Err(from_chars(&to_chars("profile.json not found in data directory")))
}

/// The format version of a bundle: its `version` number, taken as a byte
/// (the low eight bits), or 1 when it has none.
pub fn bundle_version(version: Option<u64>) -> (r: u8)
    ensures
        r == match version {
            Some(v) => (v % 256) as u8,
            None => 1u8,
        },
{
    match version {
        Some(v) => (v % 256) as u8,
        None => 1,
    }
}

/// How a bundle holds the settings.
#[derive(Debug, Clone, Copy, PartialEq, Eq)]
pub enum BundleLayout {
    /// Version 1: a `profile` value and an optional `mods` value.
    ProfileAndMods,
    /// Version 2: a map from file name to contents.
    Files,
}

/// The layout of a bundle of a given version; other versions are refused.
pub fn bundle_layout(version: u8) -> (r: Result<BundleLayout, String>)
    ensures
        version == 1 ==> r == Ok::<BundleLayout, String>(BundleLayout::ProfileAndMods),
        version == 2 ==> r == Ok::<BundleLayout, String>(BundleLayout::Files),
        version != 1 && version != 2 ==> (r matches Err(m)
            && m@ == "Unsupported bundle version "@ + dec(version as nat)),
{
    if version == 1 {
        Ok(BundleLayout::ProfileAndMods)
    } else if version == 2 {
        Ok(BundleLayout::Files)
    } else {
        let mut m = to_chars("Unsupported bundle version ");
        push_all(&mut m, &u64_to_dec(version as u64));
        Err(from_chars(&m))
    }
}

/// Importing a bundle replaces every file that an export carries, and no
/// bundle carries the server-list cache.
pub proof fn lemma_exported_files_replaced(name: Seq<char>, include_mods: bool)
    ensures
        (is_settings_file(name) && (include_mods || name != "mods.json"@)) ==> is_settings_file(name),
        name == "server_list_cache.json"@ ==> !is_settings_file(name),
{
}

} // verus!
