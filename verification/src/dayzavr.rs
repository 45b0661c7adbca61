//! DayZavr community integration: server list and mod manifest.
//!
//! DayZavr is a third-party DayZ community that runs custom-modded servers.
//! Its launcher publishes a public server list (`servers.xml`) and a mod
//! manifest (`MODS/FILE.log`).  This module reads that public data and
//! decides which mods need downloading; fetching and file access are left to
//! the application.  Only the mods distribution is ever touched.

use vstd::prelude::*;
use crate::error::Error;
use crate::paths::{replace_char, replace_char_chars};
use crate::regexp::{regex_escape, regex_escaped};
use crate::text::{
    lemma_split_nonempty,
    first_index, first_index_of, from_chars, join, join_chars, parse_unsigned,
    parse_unsigned_chars, parse_u64, push_all, slice_chars, split, split_chars, split_str,
    starts_with, starts_with_chars, string_views, to_chars, trim, trim_chars, trim_end_char,
    trim_end_char_chars, trim_start_char, trim_start_char_chars, trim_str, views,
    opt_string_view, parse_u16, parse_u32, str_eq,
};

verus! {

/// Base launcher path on the DayZavr stats host.
pub const DAYZAVR_BASE: &'static str = "http://region1.stats.dayzavr.ru:22480/LAUNCHER";

/// Public server list.
pub const SERVERS_URL: &'static str = "http://region1.stats.dayzavr.ru:22480/LAUNCHER/servers.xml";

/// Mods directory (manifests and the mods-only torrent).
pub const MODS_BASE: &'static str = "http://region1.stats.dayzavr.ru:22480/LAUNCHER/UPLOADGAME/MODS";

// ------------------------------------------------------------ mod lists

/// `str::trim_matches` with a char pattern: stripped from both ends.
pub open spec fn trim_char(s: Seq<char>, c: char) -> Seq<char> {
    trim_end_char(trim_start_char(s, c), c)
}

/// The mod folder names among `;`-separated pieces: each trimmed, kept when
/// it starts with `@`.
pub open spec fn kept_mods(pieces: Seq<Seq<char>>) -> Seq<Seq<char>>
    decreases pieces.len(),
{
    if pieces.len() == 0 {
        Seq::empty()
    } else {
        let p = kept_mods(pieces.drop_last());
        let t = trim(pieces.last());
        if t.len() > 0 && t[0] == '@' {
            p.push(t)
        } else {
            p
        }
    }
}

/// The mod folder names of a `"-mod=@A;@B;..."` field.
pub open spec fn mod_list_spec(field: Seq<char>) -> Seq<Seq<char>> {
    let cleaned = trim_char(trim(field), '"');
    let prefix = "-mod="@;
    let rest = if starts_with(cleaned, prefix) {
        cleaned.subrange(prefix.len() as int, cleaned.len() as int)
    } else {
        cleaned
    };
    kept_mods(split(rest, ';'))
}

/// Parses DayZavr's `-mod=@A;@B;...` field into a list of mod folder names.
/// The field is wrapped in quotes and prefixed with `-mod=`.
pub fn parse_mod_list(field: &str) -> (r: Vec<String>)
    ensures
        string_views(r@) == mod_list_spec(field@),
{
    let t = trim_str(field);
    let a = trim_start_char_chars(&t, '"');
    let cleaned = trim_end_char_chars(&a, '"');
    let prefix = to_chars("-mod=");
    let rest = if starts_with_chars(&cleaned, &prefix) {
        slice_chars(&cleaned, prefix.len(), cleaned.len())
    } else {
        slice_chars(&cleaned, 0, cleaned.len())
    };
    assert(cleaned@.subrange(0, cleaned@.len() as int) =~= cleaned@);
    assert(rest@ == ({
        let c = trim_char(trim(field@), '"');
        if starts_with(c, "-mod="@) {
            c.subrange("-mod="@.len() as int, c.len() as int)
        } else {
            c
        }
    }));
    let pieces = split_chars(&rest, ';');
    assert(views(pieces@) =~= split(rest@, ';'));
    let mut out: Vec<String> = Vec::new();
    let mut k: usize = 0;
    while k < pieces.len()
        invariant
            k <= pieces.len(),
            views(pieces@) == split(rest@, ';'),
            string_views(out@) == kept_mods(views(pieces@).subrange(0, k as int)),
        decreases pieces.len() - k,
    {
        proof {
            let s = views(pieces@).subrange(0, k + 1);
            assert(s.drop_last() =~= views(pieces@).subrange(0, k as int));
            assert(s.last() == pieces@[k as int]@);
        }
        let p = trim_chars(&pieces[k]);
        if p.len() > 0 && p[0] == '@' {
            let ghost before = out@;
            let s = from_chars(&p);
            out.push(s);
            assert(string_views(before.push(s)) =~= string_views(before).push(s@));
        }
        k = k + 1;
    }
    assert(views(pieces@).subrange(0, pieces@.len() as int) =~= views(pieces@));
    out
}

// ------------------------------------------------------------ manifest

/// One file of the mod manifest (`MODS/FILE.log`):
/// `\@Mod\Addons\x.pbo|crc32|size`.
#[derive(Debug)]
pub struct ModFile {
    /// Forward-slash relative path, e.g. `@DayZavrCore/Addons/x.pbo`.
    pub path: String,
    /// CRC32 checksum (hex in the manifest).
    pub crc32: u32,
    /// Size in bytes.
    pub size: u64,
}

/// The first segment of a forward-slash path.
pub open spec fn folder_of(path: Seq<char>) -> Seq<char> {
    match first_index_of(path, '/') {
        Some(i) => path.subrange(0, i),
        None => path,
    }
}

impl ModFile {
    /// The mod folder this file belongs to (first path segment, e.g.
    /// `@DayZavrCore`).
    pub fn mod_folder(&self) -> (r: &str)
        ensures
            r@ == folder_of(self.path@),
    {
        let v = to_chars(self.path.as_str());
        match first_index(&v, '/') {
            Some(i) => self.path.as_str().substring_char(0, i),
            None => self.path.as_str(),
        }
    }
}

/// What a manifest line describes: path, checksum and size, or nothing for
/// a line that is not `path|hex|decimal` with a non-empty path.  The path
/// loses its leading backslashes and the rest become slashes.
pub open spec fn manifest_entry(line: Seq<char>) -> Option<(Seq<char>, u32, u64)> {
    let parts = split(trim(line), '|');
    if parts.len() < 3 {
        None
    } else {
        match (
            parse_unsigned(trim(parts[1]), 16, u32::MAX as nat),
            parse_unsigned(trim(parts[2]), 10, u64::MAX as nat),
        ) {
            (Some(c), Some(z)) => {
                let p = replace_char(trim_start_char(parts[0], '\\'), '\\', '/');
                if p.len() == 0 {
                    None
                } else {
                    Some((p, c as u32, z as u64))
                }
            },
            _ => None,
        }
    }
}

/// The files that the lines describe, in order.
pub open spec fn manifest_spec(lines: Seq<Seq<char>>) -> Seq<(Seq<char>, u32, u64)>
    decreases lines.len(),
{
    if lines.len() == 0 {
        Seq::empty()
    } else {
        let p = manifest_spec(lines.drop_last());
        match manifest_entry(lines.last()) {
            Some(e) => p.push(e),
            None => p,
        }
    }
}

/// Files as values.
pub open spec fn file_views(v: Seq<ModFile>) -> Seq<(Seq<char>, u32, u64)> {
    v.map_values(|f: ModFile| (f.path@, f.crc32, f.size))
}

fn manifest_line(line: &Vec<char>) -> (r: Option<ModFile>)
    ensures
        match r {
            Some(f) => manifest_entry(line@) == Some((f.path@, f.crc32, f.size)),
            None => manifest_entry(line@) is None,
        },
{
    let l = trim_chars(line);
    let parts = split_chars(&l, '|');
    if parts.len() < 3 {
        return None;
    }
    let crc = parse_unsigned_chars(&trim_chars(&parts[1]), 16, 0xffff_ffffu64);
    let size = parse_u64(&trim_chars(&parts[2]));
    match (crc, size) {
        (Some(c), Some(z)) => {
            let p = replace_char_chars(&trim_start_char_chars(&parts[0], '\\'), '\\', '/');
            if p.len() == 0 {
                None
            } else {
                Some(ModFile { path: from_chars(&p), crc32: c as u32, size: z })
            }
        },
        _ => None,
    }
}

/// Parses `MODS/FILE.log` into a manifest of files.  Lines are taken
/// between `\n`s; each is trimmed, so `\r\n` endings and a final newline
/// change nothing.
pub fn parse_manifest(text: &str) -> (r: Vec<ModFile>)
    ensures
        file_views(r@) == manifest_spec(split(text@, '\n')),
{
    let lines = split_str(text, '\n');
    assert(views(lines@) =~= split(text@, '\n'));
    let mut out: Vec<ModFile> = Vec::new();
    let mut k: usize = 0;
    while k < lines.len()
        invariant
            k <= lines.len(),
            views(lines@) == split(text@, '\n'),
            file_views(out@) == manifest_spec(views(lines@).subrange(0, k as int)),
        decreases lines.len() - k,
    {
        proof {
            let s = views(lines@).subrange(0, k + 1);
            assert(s.drop_last() =~= views(lines@).subrange(0, k as int));
            assert(s.last() == lines@[k as int]@);
        }
        match manifest_line(&lines[k]) {
            Some(f) => {
                let ghost before = out@;
                out.push(f);
                assert(file_views(before.push(f)) =~= file_views(before).push(
                    (f.path@, f.crc32, f.size),
                ));
            },
            None => {},
        }
        k = k + 1;
    }
    assert(views(lines@).subrange(0, lines@.len() as int) =~= views(lines@));
    out
}

/// Whether `name` is among `mods`.
pub open spec fn is_requested(mods: Seq<String>, name: Seq<char>) -> bool {
    string_views(mods).contains(name)
}

fn requested(mods: &Vec<String>, name: &str) -> (r: bool)
    ensures
        r == is_requested(mods@, name@),
{
    let mut i: usize = 0;
    while i < mods.len()
        invariant
            i <= mods.len(),
            forall|j: int| 0 <= j < i ==> mods@[j]@ != name@,
        decreases mods.len() - i,
    {
        if crate::text::str_eq(mods[i].as_str(), name) {
            assert(string_views(mods@)[i as int] == name@);
            return true;
        }
        i = i + 1;
    }
    assert forall|j: int| 0 <= j < string_views(mods@).len() implies string_views(mods@)[j]
        != name@ by {
        assert(string_views(mods@)[j] == mods@[j]@);
    }
    false
}

/// Total size of the manifest files of the requested mods.
pub open spec fn total_size(files: Seq<ModFile>, mods: Seq<String>) -> int
    decreases files.len(),
{
    if files.len() == 0 {
        0
    } else {
        total_size(files.drop_last(), mods) + if is_requested(mods, folder_of(files.last().path@)) {
            files.last().size as int
        } else {
            0
        }
    }
}

proof fn lemma_total_size_prefix(files: Seq<ModFile>, mods: Seq<String>, k: int)
    requires
        0 <= k <= files.len(),
    ensures
        total_size(files.subrange(0, k), mods) <= total_size(files, mods),
    decreases files.len() - k,
{
    if k < files.len() {
        lemma_total_size_prefix(files.drop_last(), mods, k);
        assert(files.drop_last().subrange(0, k) =~= files.subrange(0, k));
    } else {
        assert(files.subrange(0, k) =~= files);
    }
}

/// Total download size (bytes) for the given set of mod folders.
pub fn mods_total_size(manifest: &Vec<ModFile>, mods: &Vec<String>) -> (r: u64)
    requires
        total_size(manifest@, mods@) <= u64::MAX,
    ensures
        r == total_size(manifest@, mods@),
{
    let mut sum: u64 = 0;
    let mut i: usize = 0;
    while i < manifest.len()
        invariant
            i <= manifest.len(),
            total_size(manifest@, mods@) <= u64::MAX,
            sum == total_size(manifest@.subrange(0, i as int), mods@),
        decreases manifest.len() - i,
    {
        proof {
            let s = manifest@.subrange(0, i + 1);
            assert(s.drop_last() =~= manifest@.subrange(0, i as int));
            lemma_total_size_prefix(manifest@, mods@, i + 1);
        }
        if requested(mods, manifest[i].mod_folder()) {
            sum = sum + manifest[i].size;
        }
        i = i + 1;
    }
    assert(manifest@.subrange(0, manifest@.len() as int) =~= manifest@);
    sum
}

/// The text of a `^(@ModA|@ModB)/` pattern over the escaped mod names.
pub open spec fn mods_regex_spec(mods: Seq<String>) -> Seq<char> {
    "^("@ + join(string_views(mods).map_values(|m: Seq<char>| regex_escaped(m)), '|') + ")/"@
}

/// Builds a `^(@ModA|@ModB)/` regex that matches only the requested mod
/// folders in the torrent, mod names escaped; `None` when there are none.
pub fn mods_only_regex(mods: &Vec<String>) -> (r: Option<String>)
    ensures
        match r {
            Some(s) => mods@.len() > 0 && s@ == mods_regex_spec(mods@),
            None => mods@.len() == 0,
        },
{
    if mods.len() == 0 {
        return None;
    }
    let mut alts: Vec<Vec<char>> = Vec::new();
    let mut i: usize = 0;
    while i < mods.len()
        invariant
            i <= mods.len(),
            views(alts@) == string_views(mods@.subrange(0, i as int)).map_values(
                |m: Seq<char>| regex_escaped(m),
            ),
        decreases mods.len() - i,
    {
        let ghost before = alts@;
        let e = to_chars(regex_escape(mods[i].as_str()).as_str());
        alts.push(e);
        proof {
            assert(views(before.push(e)) =~= views(before).push(e@));
            assert(string_views(mods@.subrange(0, i + 1)).map_values(|m: Seq<char>| regex_escaped(m))
                =~= string_views(mods@.subrange(0, i as int)).map_values(
                |m: Seq<char>| regex_escaped(m),
            ).push(regex_escaped(mods@[i as int]@)));
        }
        i = i + 1;
    }
    assert(mods@.subrange(0, mods@.len() as int) =~= mods@);
    let mut v = to_chars("^(");
    push_all(&mut v, &join_chars(&alts, '|'));
    crate::text::push_str(&mut v, ")/");
    Some(from_chars(&v))
}

/// The manifest files of the requested mods, in order.
pub open spec fn selected_files(files: Seq<ModFile>, mods: Seq<String>) -> Seq<ModFile>
    decreases files.len(),
{
    if files.len() == 0 {
        Seq::empty()
    } else {
        let p = selected_files(files.drop_last(), mods);
        if is_requested(mods, folder_of(files.last().path@)) {
            p.push(files.last())
        } else {
            p
        }
    }
}

/// Manifest entries belonging to the requested mods (the files to
/// download).
pub fn mod_files<'a>(manifest: &'a Vec<ModFile>, mods: &Vec<String>) -> (r: Vec<&'a ModFile>)
    ensures
        r@.len() == selected_files(manifest@, mods@).len(),
        forall|i: int| 0 <= i < r@.len() ==> *r@[i] == selected_files(manifest@, mods@)[i],
{
    let mut out: Vec<&'a ModFile> = Vec::new();
    let mut i: usize = 0;
    while i < manifest.len()
        invariant
            i <= manifest.len(),
            out@.len() == selected_files(manifest@.subrange(0, i as int), mods@).len(),
            forall|k: int|
                0 <= k < out@.len() ==> *out@[k] == selected_files(
                    manifest@.subrange(0, i as int),
                    mods@,
                )[k],
        decreases manifest.len() - i,
    {
        proof {
            let s = manifest@.subrange(0, i + 1);
            assert(s.drop_last() =~= manifest@.subrange(0, i as int));
        }
        if requested(mods, manifest[i].mod_folder()) {
            out.push(&manifest[i]);
        }
        i = i + 1;
    }
    assert(manifest@.subrange(0, manifest@.len() as int) =~= manifest@);
    out
}

// ------------------------------------------------------------ completeness

/// A mod is complete when the manifest lists files for it and each of them
/// exists locally with the listed size.  `local_sizes[i]` is the size of the
/// local copy of manifest file `i`, `None` when it cannot be read.
pub open spec fn mod_complete_spec(files: Seq<ModFile>, local_sizes: Seq<Option<u64>>, folder: Seq<char>) -> bool {
    &&& exists|i: int| 0 <= i < files.len() && folder_of(#[trigger] files[i].path@) == folder
    &&& forall|i: int|
        0 <= i < files.len() && folder_of(#[trigger] files[i].path@) == folder ==> local_sizes[i]
            == Some(files[i].size)
}

/// Whether every manifest file of `mod_folder` exists locally with the
/// listed size (and there is at least one).
pub fn mod_is_complete(manifest: &Vec<ModFile>, local_sizes: &Vec<Option<u64>>, mod_folder: &str) -> (r: bool)
    requires
        local_sizes@.len() == manifest@.len(),
    ensures
        r == mod_complete_spec(manifest@, local_sizes@, mod_folder@),
{
    let mut any = false;
    let mut i: usize = 0;
    while i < manifest.len()
        invariant
            i <= manifest.len(),
            local_sizes@.len() == manifest@.len(),
            any == exists|j: int| 0 <= j < i && folder_of(#[trigger] manifest@[j].path@) == mod_folder@,
            forall|j: int|
                0 <= j < i && folder_of(#[trigger] manifest@[j].path@) == mod_folder@ ==> local_sizes@[j]
                    == Some(manifest@[j].size),
        decreases manifest.len() - i,
    {
        if crate::text::str_eq(manifest[i].mod_folder(), mod_folder) {
            any = true;
            match local_sizes[i] {
                Some(len) => {
                    if len != manifest[i].size {
                        return false;
                    }
                },
                None => {
                    return false;
                },
            }
        }
        i = i + 1;
    }
    any
}

/// The requested mods that are not complete, in order.
pub open spec fn needing_download(files: Seq<ModFile>, local_sizes: Seq<Option<u64>>, requested: Seq<String>) -> Seq<Seq<char>>
    decreases requested.len(),
{
    if requested.len() == 0 {
        Seq::empty()
    } else {
        let p = needing_download(files, local_sizes, requested.drop_last());
        if mod_complete_spec(files, local_sizes, requested.last()@) {
            p
        } else {
            p.push(requested.last()@)
        }
    }
}

/// Every name that a mod list yields starts with `@` and has no white
/// space around it.
pub proof fn lemma_mod_list_entries(field: Seq<char>)
    ensures
        forall|i: int|
            0 <= i < mod_list_spec(field).len() ==> (#[trigger] mod_list_spec(field)[i]).len() > 0
                && mod_list_spec(field)[i][0] == '@' && trim(mod_list_spec(field)[i]) == mod_list_spec(field)[i],
{
    let cleaned = trim_char(trim(field), '"');
    let prefix = "-mod="@;
    let rest = if starts_with(cleaned, prefix) {
        cleaned.subrange(prefix.len() as int, cleaned.len() as int)
    } else {
        cleaned
    };
    lemma_kept_mods_entries(split(rest, ';'));
}

proof fn lemma_kept_mods_entries(pieces: Seq<Seq<char>>)
    ensures
        forall|i: int|
            0 <= i < kept_mods(pieces).len() ==> (#[trigger] kept_mods(pieces)[i]).len() > 0
                && kept_mods(pieces)[i][0] == '@' && trim(kept_mods(pieces)[i]) == kept_mods(pieces)[i],
    decreases pieces.len(),
{
    if pieces.len() > 0 {
        let pre = pieces.drop_last();
        lemma_kept_mods_entries(pre);
        crate::text::lemma_trim_idempotent(pieces.last());
        let p = kept_mods(pre);
        let r = kept_mods(pieces);
        let t = trim(pieces.last());
        if t.len() > 0 && t[0] == '@' {
            assert(r == p.push(t));
            assert forall|i: int| 0 <= i < r.len() implies (#[trigger] r[i]).len() > 0 && r[i][0] == '@'
                && trim(r[i]) == r[i] by {
                if i < p.len() {
                    assert(r[i] == p[i]);
                }
            }
        } else {
            assert(r == p);
        }
    }
}

/// The mods that need downloading are requested ones, in the order they
/// were requested.
pub proof fn lemma_needing_is_requested(files: Seq<ModFile>, local_sizes: Seq<Option<u64>>, requested: Seq<String>)
    ensures
        needing_download(files, local_sizes, requested).len() <= requested.len(),
        forall|i: int|
            0 <= i < needing_download(files, local_sizes, requested).len() ==> exists|k: int|
                0 <= k < requested.len() && (#[trigger] requested[k])@ == #[trigger] needing_download(
                    files,
                    local_sizes,
                    requested,
                )[i],
    decreases requested.len(),
{
    if requested.len() > 0 {
        let pre = requested.drop_last();
        lemma_needing_is_requested(files, local_sizes, pre);
        let p = needing_download(files, local_sizes, pre);
        let r = needing_download(files, local_sizes, requested);
        assert forall|i: int| 0 <= i < r.len() implies exists|k: int|
            0 <= k < requested.len() && (#[trigger] requested[k])@ == #[trigger] r[i] by {
            if i < p.len() {
                assert(r[i] == p[i]);
                let k = choose|k: int| 0 <= k < pre.len() && (#[trigger] pre[k])@ == p[i];
                assert(requested[k] == pre[k]);
            } else {
                assert(r[i] == requested.last()@);
                assert(requested[requested.len() - 1] == requested.last());
            }
        }
    }
}

/// Every requested mod that the manifest does not show complete is to be
/// downloaded, whatever comes before it; and only such mods are: a
/// requested mod is left out exactly when it is complete.
pub proof fn lemma_needing_download_members(
    files: Seq<ModFile>,
    local_sizes: Seq<Option<u64>>,
    requested: Seq<String>,
)
    ensures
        forall|i: int|
            0 <= i < requested.len() && !mod_complete_spec(files, local_sizes, #[trigger] requested[i]@)
                ==> needing_download(files, local_sizes, requested).contains(requested[i]@),
        forall|x: Seq<char>|
            #[trigger] needing_download(files, local_sizes, requested).contains(x) ==> exists|i: int|
                0 <= i < requested.len() && #[trigger] requested[i]@ == x && !mod_complete_spec(
                    files,
                    local_sizes,
                    x,
                ),
    decreases requested.len(),
{
    if requested.len() > 0 {
        let pre = requested.drop_last();
        lemma_needing_download_members(files, local_sizes, pre);
        let p = needing_download(files, local_sizes, pre);
        let r = needing_download(files, local_sizes, requested);
        let last = requested.len() - 1;
        assert forall|i: int|
            0 <= i < requested.len() && !mod_complete_spec(files, local_sizes, #[trigger] requested[i]@)
                implies r.contains(requested[i]@) by {
            if i < last {
                assert(pre[i] == requested[i]);
                assert(p.contains(pre[i]@));
                let j = choose|j: int| 0 <= j < p.len() && p[j] == pre[i]@;
                assert(r[j] == p[j]);
            } else {
                assert(r[r.len() - 1] == requested[i]@);
            }
        }
        assert forall|x: Seq<char>| #[trigger] r.contains(x) implies exists|i: int|
            0 <= i < requested.len() && #[trigger] requested[i]@ == x && !mod_complete_spec(files, local_sizes, x) by {
            let j = choose|j: int| 0 <= j < r.len() && r[j] == x;
            if j < p.len() {
                assert(p[j] == x);
                assert(p.contains(x));
                let i = choose|i: int| 0 <= i < pre.len() && #[trigger] pre[i]@ == x && !mod_complete_spec(files, local_sizes, x);
                assert(requested[i] == pre[i]);
            } else {
                assert(requested[last]@ == x);
            }
        }
    }
}

/// Of `requested`, the mods that are missing or incomplete and must be
/// fetched.
pub fn mods_needing_download(manifest: &Vec<ModFile>, local_sizes: &Vec<Option<u64>>, requested: &Vec<String>) -> (r: Vec<String>)
    requires
        local_sizes@.len() == manifest@.len(),
    ensures
        string_views(r@) == needing_download(manifest@, local_sizes@, requested@),
{
    let mut out: Vec<String> = Vec::new();
    let mut i: usize = 0;
    while i < requested.len()
        invariant
            i <= requested.len(),
            local_sizes@.len() == manifest@.len(),
            string_views(out@) == needing_download(
                manifest@,
                local_sizes@,
                requested@.subrange(0, i as int),
            ),
        decreases requested.len() - i,
    {
        proof {
            let s = requested@.subrange(0, i + 1);
            assert(s.drop_last() =~= requested@.subrange(0, i as int));
        }
        if !mod_is_complete(manifest, local_sizes, requested[i].as_str()) {
            let ghost before = out@;
            let s = from_chars(&to_chars(requested[i].as_str()));
            out.push(s);
            assert(string_views(before.push(s)) =~= string_views(before).push(s@));
        }
        i = i + 1;
    }
    assert(requested@.subrange(0, requested@.len() as int) =~= requested@);
    out
}

// ------------------------------------------------------------ mods linked into the game root

/// What the file system showed of one requested mod while it was being
/// linked into the game root: whether its folder is under `!Workshop`,
/// whether the root already holds an entry of its name (a folder or an
/// earlier link, which is reused), and whether making the link worked
/// (looked at only where the link had to be made).
#[derive(Clone, Copy, Debug)]
pub struct ModLinkCheck {
    pub in_workshop: bool,
    pub in_root: bool,
    pub link_made: bool,
}

/// A mod can be loaded from the root: it is installed, and the root held
/// it already or the link to it was made.
pub open spec fn mod_available(c: ModLinkCheck) -> bool {
    c.in_workshop && (c.in_root || c.link_made)
}

/// The requested mods that can be loaded from the root, in order.
pub open spec fn available_spec(mods: Seq<String>, checks: Seq<ModLinkCheck>) -> Seq<Seq<char>>
    decreases mods.len(),
{
    if mods.len() == 0 {
        Seq::empty()
    } else {
        let p = available_spec(mods.drop_last(), checks);
        if mod_available(checks[mods.len() - 1]) {
            p.push(mods.last()@)
        } else {
            p
        }
    }
}

/// Of the requested mods, those available in the game root once the links
/// were made, given what was found for each (`checks[i]` for `mods[i]`).
pub fn linked_mods(mods: &[String], checks: &[ModLinkCheck]) -> (r: Vec<String>)
    requires
        checks@.len() == mods@.len(),
    ensures
        string_views(r@) == available_spec(mods@, checks@),
{
    let mut out: Vec<String> = Vec::new();
    let mut i: usize = 0;
    while i < mods.len()
        invariant
            i <= mods@.len(),
            checks@.len() == mods@.len(),
            string_views(out@) == available_spec(mods@.subrange(0, i as int), checks@),
        decreases mods@.len() - i,
    {
        proof {
            let s = mods@.subrange(0, i + 1);
            assert(s.drop_last() =~= mods@.subrange(0, i as int));
        }
        let c = checks[i];
        if c.in_workshop && (c.in_root || c.link_made) {
            let ghost before = out@;
            let s = from_chars(&to_chars(mods[i].as_str()));
            out.push(s);
            assert(string_views(before.push(s)) =~= string_views(before).push(s@));
        }
        i = i + 1;
    }
    assert(mods@.subrange(0, mods@.len() as int) =~= mods@);
    out
}

// ------------------------------------------------------------ servers.xml

/// A DayZavr community server as advertised in `servers.xml`.
#[derive(Debug)]
pub struct DayzavrServer {
    /// `load id` attribute.
    pub id: u32,
    pub name: String,
    /// Primary connect host (first region).
    pub host: String,
    /// All regional hosts for the same server.
    pub all_hosts: Vec<String>,
    /// Game (connect) port.
    pub game_port: u16,
    /// Steam query port (A2S), DayZavr's `portUDP`.
    pub query_port: u16,
    pub password: bool,
    pub players: u32,
    pub max_players: u32,
    /// Mod folder names this server requires (e.g. `@DayZavrCore`).
    pub mods: Vec<String>,
    /// In-game time string.
    pub time: String,
    /// Restart schedule string.
    pub restart: String,
    /// Discord invite, if advertised.
    pub discord: Option<String>,
    /// Banner image URL (first region), if advertised.
    pub image: Option<String>,
}

/// A child node of a `<load>` entry: its local tag name (empty for text
/// and comments) and its text.
#[derive(Debug)]
pub struct XmlChild {
    pub tag: String,
    pub text: Option<String>,
}

/// A child node of the document's root element: its local tag name (empty
/// for text and comments), its `id` attribute and its child nodes.
#[derive(Debug)]
pub struct XmlNode {
    pub tag: String,
    pub id: Option<String>,
    pub children: Vec<XmlChild>,
}

/// A child node as values.
pub open spec fn child_view(c: XmlChild) -> (Seq<char>, Option<Seq<char>>) {
    (c.tag@, opt_string_view(c.text))
}

/// Child nodes as values.
pub open spec fn child_views(v: Seq<XmlChild>) -> Seq<(Seq<char>, Option<Seq<char>>)> {
    v.map_values(|c: XmlChild| child_view(c))
}

/// A node as values.
pub open spec fn node_view(n: XmlNode) -> (Seq<char>, Option<Seq<char>>, Seq<(Seq<char>, Option<Seq<char>>)>) {
    (n.tag@, opt_string_view(n.id), child_views(n.children@))
}

/// Nodes as values.
pub open spec fn node_views(v: Seq<XmlNode>) -> Seq<(Seq<char>, Option<Seq<char>>, Seq<(Seq<char>, Option<Seq<char>>)>)> {
    v.map_values(|n: XmlNode| node_view(n))
}

/// What roxmltree reads from a document: the root element's child nodes,
/// or the message of the parse error.
pub uninterp spec fn xml_root_children_result(xml: Seq<char>) -> Result<
    Seq<(Seq<char>, Option<Seq<char>>, Seq<(Seq<char>, Option<Seq<char>>)>)>,
    Seq<char>,
>;

/// `roxmltree::Document::parse`, then for each child node of the root
/// element its local tag name (`tag_name().name()`, empty for non-elements),
/// its `id` attribute, and for each of its child nodes the local tag name
/// and `Node::text` (an element's first child when that is text).  The
/// result is named, and so is the error's message.
#[verifier::external_body]
fn xml_root_children(xml: &str) -> (r: Result<Vec<XmlNode>, String>)
    ensures
        match r {
            Ok(v) => xml_root_children_result(xml@) == Ok::<_, Seq<char>>(
                node_views(v@),
            ),
            Err(m) => xml_root_children_result(xml@) == Err::<
                Seq<(Seq<char>, Option<Seq<char>>, Seq<(Seq<char>, Option<Seq<char>>)>)>,
                _,
            >(m@),
        },
{
    match roxmltree::Document::parse(xml) {
        Ok(doc) => Ok(doc.root_element().children().map(|n| XmlNode {
            tag: n.tag_name().name().to_string(),
            id: n.attribute("id").map(|a| a.to_string()),
            children: n.children().map(|c| XmlChild {
                tag: c.tag_name().name().to_string(),
                text: c.text().map(|t| t.to_string()),
            }).collect(),
        }).collect()),
        Err(e) => Err(e.to_string()),
    }
}

/// The trimmed text of the first child with tag `tag` (`None` when there is
/// no such child or it has no text).
pub open spec fn child_text(children: Seq<(Seq<char>, Option<Seq<char>>)>, tag: Seq<char>) -> Option<Seq<char>>
    decreases children.len(),
{
    if children.len() == 0 {
        None
    } else if children[0].0 == tag {
        match children[0].1 {
            Some(t) => Some(trim(t)),
            None => None,
        }
    } else {
        child_text(children.drop_first(), tag)
    }
}

/// The text, or empty text.
pub open spec fn or_empty(o: Option<Seq<char>>) -> Seq<char> {
    match o {
        Some(t) => t,
        None => Seq::empty(),
    }
}

/// The number a text holds, or 0.
pub open spec fn number_or_zero(o: Option<Seq<char>>, max: nat) -> nat {
    match o {
        Some(t) => match parse_unsigned(t, 10, max) {
            Some(v) => v,
            None => 0,
        },
        None => 0,
    }
}

/// Non-empty text, or nothing.
pub open spec fn non_empty(o: Option<Seq<char>>) -> Option<Seq<char>> {
    match o {
        Some(t) => if t.len() > 0 {
            Some(t)
        } else {
            None
        },
        None => None,
    }
}

/// The pieces, trimmed, without the empty ones.
pub open spec fn nonempty_trimmed(pieces: Seq<Seq<char>>) -> Seq<Seq<char>>
    decreases pieces.len(),
{
    if pieces.len() == 0 {
        Seq::empty()
    } else {
        let p = nonempty_trimmed(pieces.drop_last());
        let t = trim(pieces.last());
        if t.len() > 0 {
            p.push(t)
        } else {
            p
        }
    }
}

/// `s` is the server that the `<load>` node with id `id` and children `ch`
/// advertises.
pub open spec fn describes(s: DayzavrServer, id: Option<Seq<char>>, ch: Seq<(Seq<char>, Option<Seq<char>>)>) -> bool {
    let hosts = nonempty_trimmed(split(or_empty(child_text(ch, "ip"@)), '|'));
    &&& s.id as nat == number_or_zero(id, u32::MAX as nat)
    &&& s.name@ == or_empty(child_text(ch, "name"@))
    &&& string_views(s.all_hosts@) == hosts
    &&& s.host@ == (if hosts.len() > 0 {
        hosts[0]
    } else {
        Seq::empty()
    })
    &&& s.game_port as nat == number_or_zero(child_text(ch, "port"@), u16::MAX as nat)
    &&& s.query_port as nat == number_or_zero(child_text(ch, "portUDP"@), u16::MAX as nat)
    &&& s.password == (match child_text(ch, "pass"@) {
        Some(t) => trim(t).len() > 0,
        None => false,
    })
    &&& s.players as nat == number_or_zero(child_text(ch, "play_host"@), u32::MAX as nat)
    &&& s.max_players as nat == number_or_zero(child_text(ch, "MaxPlayers"@), u32::MAX as nat)
    &&& string_views(s.mods@) == mod_list_spec(or_empty(child_text(ch, "mods"@)))
    &&& s.time@ == or_empty(child_text(ch, "time"@))
    &&& s.restart@ == or_empty(child_text(ch, "TimeRestart"@))
    &&& opt_string_view(s.discord) == non_empty(child_text(ch, "Diskord"@))
    &&& opt_string_view(s.image) == (match child_text(ch, "Image"@) {
        Some(t) => non_empty(Some(trim(split(t, '|')[0]))),
        None => None,
    })
}

/// The `<load>` nodes with a non-empty name, in order.
pub open spec fn server_nodes(nodes: Seq<(Seq<char>, Option<Seq<char>>, Seq<(Seq<char>, Option<Seq<char>>)>)>) -> Seq<
    (Seq<char>, Option<Seq<char>>, Seq<(Seq<char>, Option<Seq<char>>)>),
>
    decreases nodes.len(),
{
    if nodes.len() == 0 {
        Seq::empty()
    } else {
        let p = server_nodes(nodes.drop_last());
        let n = nodes.last();
        if n.0 == "load"@ && or_empty(child_text(n.2, "name"@)).len() > 0 {
            p.push(n)
        } else {
            p
        }
    }
}

fn child_text_of(children: &Vec<XmlChild>, tag: &str) -> (r: Option<Vec<char>>)
    ensures
        match r {
            Some(t) => child_text(child_views(children@), tag@) == Some(
                t@,
            ),
            None => child_text(child_views(children@), tag@) is None,
        },
{
    let ghost all = child_views(children@);
    let mut i: usize = 0;
    assert(all.subrange(0, all.len() as int) =~= all);
    while i < children.len()
        invariant
            i <= children.len(),
            all == child_views(children@),
            child_text(all, tag@) == child_text(all.subrange(i as int, all.len() as int), tag@),
        decreases children.len() - i,
    {
        proof {
            let t = all.subrange(i as int, all.len() as int);
            assert(t.drop_first() =~= all.subrange(i + 1, all.len() as int));
            assert(t[0] == child_view(children@[i as int]));
        }
        if str_eq(children[i].tag.as_str(), tag) {
            return match &children[i].text {
                Some(t) => Some(trim_str(t.as_str())),
                None => None,
            };
        }
        i = i + 1;
    }
    None
}

fn text_or_empty(o: Option<Vec<char>>) -> (r: Vec<char>)
    ensures
        r@ == or_empty(match o {
            Some(t) => Some(t@),
            None => None,
        }),
{
    match o {
        Some(t) => t,
        None => Vec::new(),
    }
}

fn number_or_zero_of(o: &Option<Vec<char>>, max: u64) -> (r: u64)
    ensures
        r == number_or_zero(
            match o {
                Some(t) => Some(t@),
                None => None,
            },
            max as nat,
        ),
        r <= max,
{
    match o {
        Some(t) => match parse_unsigned_chars(t, 10, max) {
            Some(v) => v,
            None => 0,
        },
        None => 0,
    }
}

/// Optional characters as values.
pub open spec fn chars_opt(o: Option<Vec<char>>) -> Option<Seq<char>> {
    match o {
        Some(t) => Some(t@),
        None => None,
    }
}

fn hosts_of(text: &Vec<char>) -> (r: Vec<String>)
    ensures
        string_views(r@) == nonempty_trimmed(split(text@, '|')),
{
    let pieces = split_chars(text, '|');
    assert(views(pieces@) =~= split(text@, '|'));
    let mut out: Vec<String> = Vec::new();
    let mut k: usize = 0;
    while k < pieces.len()
        invariant
            k <= pieces.len(),
            views(pieces@) == split(text@, '|'),
            string_views(out@) == nonempty_trimmed(views(pieces@).subrange(0, k as int)),
        decreases pieces.len() - k,
    {
        proof {
            let s = views(pieces@).subrange(0, k + 1);
            assert(s.drop_last() =~= views(pieces@).subrange(0, k as int));
            assert(s.last() == pieces@[k as int]@);
        }
        let p = trim_chars(&pieces[k]);
        if p.len() > 0 {
            let ghost before = out@;
            let s = from_chars(&p);
            out.push(s);
            assert(string_views(before.push(s)) =~= string_views(before).push(s@));
        }
        k = k + 1;
    }
    assert(views(pieces@).subrange(0, pieces@.len() as int) =~= views(pieces@));
    out
}

fn copy_string(s: &String) -> (r: String)
    ensures
        r@ == s@,
{
    from_chars(&to_chars(s.as_str()))
}

fn server_of(id: &Option<String>, children: &Vec<XmlChild>) -> (r: DayzavrServer)
    ensures
        describes(r, opt_string_view(*id), child_views(children@)),
{
    let ghost ch = child_views(children@);
    let name = text_or_empty(child_text_of(children, "name"));
    let ip_text = text_or_empty(child_text_of(children, "ip"));
    let all_hosts = hosts_of(&ip_text);
    let host = if all_hosts.len() > 0 {
        copy_string(&all_hosts[0])
    } else {
        from_chars(&Vec::new())
    };
    proof {
        if all_hosts@.len() > 0 {
            assert(string_views(all_hosts@)[0] == all_hosts@[0]@);
        }
    }
    let image = match child_text_of(children, "Image") {
        Some(t) => {
            let pieces = split_chars(&t, '|');
            proof {
                crate::text::lemma_split_nonempty(t@, '|');
            }
            let first = trim_chars(&pieces[0]);
            if first.len() > 0 {
                Some(from_chars(&first))
            } else {
                None
            }
        },
        None => None,
    };
    let id_num = match id {
        Some(t) => number_or_zero_of(&Some(to_chars(t.as_str())), 0xffff_ffffu64),
        None => 0,
    };
    let game_port = number_or_zero_of(&child_text_of(children, "port"), 0xffffu64);
    let query_port = number_or_zero_of(&child_text_of(children, "portUDP"), 0xffffu64);
    let password = match child_text_of(children, "pass") {
        Some(t) => trim_chars(&t).len() > 0,
        None => false,
    };
    let players = number_or_zero_of(&child_text_of(children, "play_host"), 0xffff_ffffu64);
    let max_players = number_or_zero_of(&child_text_of(children, "MaxPlayers"), 0xffff_ffffu64);
    let mods_text = text_or_empty(child_text_of(children, "mods"));
    let mods = parse_mod_list(from_chars(&mods_text).as_str());
    let time = text_or_empty(child_text_of(children, "time"));
    let restart = text_or_empty(child_text_of(children, "TimeRestart"));
    let discord = match child_text_of(children, "Diskord") {
        Some(t) => if t.len() > 0 {
            Some(from_chars(&t))
        } else {
            None
        },
        None => None,
    };
    DayzavrServer {
        id: id_num as u32,
        name: from_chars(&name),
        host,
        all_hosts,
        game_port: game_port as u16,
        query_port: query_port as u16,
        password,
        players: players as u32,
        max_players: max_players as u32,
        mods,
        time: from_chars(&time),
        restart: from_chars(&restart),
        discord,
        image,
    }
}

/// The servers that the root's child nodes advertise: each `<load>` node
/// with a non-empty name, in order.
pub fn servers_from_nodes(nodes: &Vec<XmlNode>) -> (r: Vec<DayzavrServer>)
    ensures
        r@.len() == server_nodes(node_views(nodes@)).len(),
        forall|i: int|
            0 <= i < r@.len() ==> #[trigger] describes(
                r@[i],
                server_nodes(node_views(nodes@))[i].1,
                server_nodes(node_views(nodes@))[i].2,
            ),
{
    let ghost all = node_views(nodes@);
    let mut out: Vec<DayzavrServer> = Vec::new();
    let mut k: usize = 0;
    while k < nodes.len()
        invariant
            k <= nodes.len(),
            all == node_views(nodes@),
            out@.len() == server_nodes(all.subrange(0, k as int)).len(),
            forall|i: int|
                0 <= i < out@.len() ==> #[trigger] describes(
                    out@[i],
                    server_nodes(all.subrange(0, k as int))[i].1,
                    server_nodes(all.subrange(0, k as int))[i].2,
                ),
        decreases nodes.len() - k,
    {
        proof {
            let s = all.subrange(0, k + 1);
            assert(s.drop_last() =~= all.subrange(0, k as int));
            assert(s.last() == node_view(nodes@[k as int]));
        }
        if str_eq(nodes[k].tag.as_str(), "load") {
            let name = text_or_empty(child_text_of(&nodes[k].children, "name"));
            if name.len() > 0 {
                let srv = server_of(&nodes[k].id, &nodes[k].children);
                out.push(srv);
            }
        }
        k = k + 1;
    }
    assert(all.subrange(0, all.len() as int) =~= all);
    out
}

/// Parses the `servers.xml` body into a list of servers.
pub fn parse_servers(xml: &str) -> (r: Result<Vec<DayzavrServer>, Error>)
    ensures
        match xml_root_children_result(xml@) {
            Ok(nodes) => r matches Ok(v) && v@.len() == server_nodes(nodes).len() && forall|i: int|
                0 <= i < v@.len() ==> #[trigger] describes(
                    v@[i],
                    server_nodes(nodes)[i].1,
                    server_nodes(nodes)[i].2,
                ),
            Err(m) => r matches Err(e) && e matches Error::Other(t) && t@
                == "DayZavr servers.xml parse error: "@ + m,
        },
{
    match xml_root_children(xml) {
        Ok(nodes) => Ok(servers_from_nodes(&nodes)),
        Err(m) => {
            let mut v = to_chars("DayZavr servers.xml parse error: ");
            crate::text::push_str(&mut v, m.as_str());
            Err(Error::Other(from_chars(&v)))
        },
    }
}

} // verus!
