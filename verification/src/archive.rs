//! Reading zip packages from memory (the `zip` crate): the executable of a
//! self-update and the files of the steamcmd download.
//!
//! What the crate reads out of a package (its entries, their names and
//! contents, and its errors) is named here; the order in which the library
//! takes the entries, and the messages it reports, are stated and proved.

use vstd::prelude::*;
use std::io::Read;
use crate::text::{from_chars, push_str, to_chars};

verus! {

#[verifier::external_type_specification]
#[verifier::external_body]
#[verifier::reject_recursive_types(T)]
pub struct ExCursor<T>(std::io::Cursor<T>);

#[verifier::external_type_specification]
#[verifier::external_body]
#[verifier::reject_recursive_types(R)]
pub struct ExZipArchive<R>(zip::ZipArchive<R>);

/// An opened zip package, with the bytes it was read from.
struct ZipPackage {
    archive: zip::ZipArchive<std::io::Cursor<Vec<u8>>>,
    bytes: Vec<u8>,
}

/// A file or folder of a zip package: its name as stored, whether it is a
/// folder, and its contents.
#[derive(Debug)]
pub struct ZipEntry {
    pub name: String,
    pub is_dir: bool,
    pub data: Vec<u8>,
}

/// How reading an entry out failed: finding it (`by_index`), or reading
/// its contents.
#[derive(Debug)]
pub enum ZipEntryError {
    Entry(String),
    Read(String),
}

/// What `ZipArchive::new` reports for a package: `None` when it opens,
/// else the error's text.
pub uninterp spec fn zip_open_error(package: Seq<u8>) -> Option<Seq<char>>;

/// The number of entries of a package that opens (`ZipArchive::len`).
pub uninterp spec fn zip_entry_count(package: Seq<u8>) -> nat;

/// What `by_index` gives for entry `index` of a package that opens: the
/// entry's name and whether it is a folder, or the error's text (of
/// `by_index`, or of `name`).
pub uninterp spec fn zip_entry_info_result(package: Seq<u8>, index: int) -> Result<(Seq<char>, bool), Seq<char>>;

/// What reading entry `index` of a package out gives: its contents, or the
/// error's text with `true` where the reading failed and `false` where
/// `by_index` did.
pub uninterp spec fn zip_entry_data_result(package: Seq<u8>, index: int) -> Result<Seq<u8>, (bool, Seq<char>)>;

/// `zip::ZipArchive::new` over a copy of the bytes in memory; the outcome
/// is the one named by `zip_open_error`.
#[verifier::external_body]
fn zip_open(package: &[u8]) -> (r: Result<ZipPackage, String>)
    ensures
        match zip_open_error(package@) {
            None => r matches Ok(p) && p.bytes@ == package@,
            Some(e) => r matches Err(m) && m@ == e,
        },
{
    match zip::ZipArchive::new(std::io::Cursor::new(package.to_vec())) {
        Ok(archive) => Ok(ZipPackage { archive, bytes: package.to_vec() }),
        Err(e) => Err(e.to_string()),
    }
}

/// `zip::ZipArchive::len`: the number of entries named by
/// `zip_entry_count` for the bytes the package was opened from.
#[verifier::external_body]
fn zip_len(p: &ZipPackage) -> (r: usize)
    ensures
        r == zip_entry_count(p.bytes@),
{
    p.archive.len()
}

/// `zip::ZipArchive::by_index`, then the entry's `name` and `is_dir`; the
/// outcome is the one named by `zip_entry_info_result`.
#[verifier::external_body]
fn zip_entry_info(p: &mut ZipPackage, index: usize) -> (r: Result<(String, bool), String>)
    ensures
        final(p).bytes@ == old(p).bytes@,
        match zip_entry_info_result(old(p).bytes@, index as int) {
            Ok((name, is_dir)) => r matches Ok(v) && v.0@ == name && v.1 == is_dir,
            Err(e) => r matches Err(m) && m@ == e,
        },
{
    match p.archive.by_index(index) {
        Ok(f) => match f.name() {
            Ok(n) => Ok((n.to_string(), f.is_dir())),
            Err(e) => Err(e.to_string()),
        },
        Err(e) => Err(e.to_string()),
    }
}

/// `zip::ZipArchive::by_index`, then the entry read to its end; the outcome
/// is the one named by `zip_entry_data_result`.
#[verifier::external_body]
fn zip_entry_data(p: &mut ZipPackage, index: usize) -> (r: Result<Vec<u8>, ZipEntryError>)
    ensures
        final(p).bytes@ == old(p).bytes@,
        match zip_entry_data_result(old(p).bytes@, index as int) {
            Ok(d) => r matches Ok(v) && v@ == d,
            Err((at_read, e)) => match r {
                Err(ZipEntryError::Read(m)) => at_read && m@ == e,
                Err(ZipEntryError::Entry(m)) => !at_read && m@ == e,
                Ok(_) => false,
            },
        },
{
    let mut f = match p.archive.by_index(index) {
        Ok(f) => f,
        Err(e) => return Err(ZipEntryError::Entry(e.to_string())),
    };
    let mut data: Vec<u8> = Vec::new();
    match f.read_to_end(&mut data) {
        Ok(_) => Ok(data),
        Err(e) => Err(ZipEntryError::Read(e.to_string())),
    }
}

fn prefixed(prefix: &str, s: &String) -> (r: String)
    ensures
        r@ == prefix@ + s@,
{
    let mut m = to_chars(prefix);
    push_str(&mut m, s.as_str());
    from_chars(&m)
}

// ------------------------------------------------------------ the update's executable

/// The executable in an update package: the contents of its first entry;
/// the error says which step failed (`zip open`, `zip entry`, `zip read`).
pub open spec fn first_entry_spec(package: Seq<u8>) -> Result<Seq<u8>, Seq<char>> {
    match zip_open_error(package) {
        Some(e) => Err("zip open: "@ + e),
        None => match zip_entry_data_result(package, 0) {
            Ok(data) => Ok(data),
            Err((at_read, e)) => Err(
                if at_read {
                    "zip read: "@
                } else {
                    "zip entry: "@
                } + e,
            ),
        },
    }
}

/// The executable in an update package.
pub fn first_entry(package: &[u8]) -> (r: Result<Vec<u8>, String>)
    ensures
        match first_entry_spec(package@) {
            Ok(b) => r matches Ok(v) && v@ == b,
            Err(e) => r matches Err(m) && m@ == e,
        },
{
    let mut p = match zip_open(package) {
        Ok(p) => p,
        Err(e) => {
            return Err(prefixed("zip open: ", &e));
        },
    };
    match zip_entry_data(&mut p, 0) {
        Ok(data) => Ok(data),
        Err(ZipEntryError::Entry(e)) => Err(prefixed("zip entry: ", &e)),
        Err(ZipEntryError::Read(e)) => Err(prefixed("zip read: ", &e)),
    }
}

// ------------------------------------------------------------ the steamcmd download

/// The entries of a package as values, in order.
pub open spec fn entry_values(v: Seq<ZipEntry>) -> Seq<(Seq<char>, bool, Seq<u8>)> {
    v.map_values(|e: ZipEntry| (e.name@, e.is_dir, e.data@))
}

/// Entry `i` of a package as a value: a folder with no contents, or a file
/// with what it holds; else the message of the step that failed
/// (`ZIP entry error` for finding it, `File write failed` for reading it
/// out, as the copy to disk reports it).
pub open spec fn entry_spec(package: Seq<u8>, i: int) -> Result<(Seq<char>, bool, Seq<u8>), Seq<char>> {
    match zip_entry_info_result(package, i) {
        Err(e) => Err("ZIP entry error: "@ + e),
        Ok((name, true)) => Ok((name, true, Seq::empty())),
        Ok((name, false)) => match zip_entry_data_result(package, i) {
            Ok(d) => Ok((name, false, d)),
            Err((at_read, e)) => Err(
                if at_read {
                    "File write failed: "@
                } else {
                    "ZIP entry error: "@
                } + e,
            ),
        },
    }
}

/// The first `n` entries of a package, or the message of the first one
/// that cannot be read.
pub open spec fn entries_spec(package: Seq<u8>, n: nat) -> Result<Seq<(Seq<char>, bool, Seq<u8>)>, Seq<char>>
    decreases n,
{
    if n == 0 {
        Ok(Seq::empty())
    } else {
        match entries_spec(package, (n - 1) as nat) {
            Err(e) => Err(e),
            Ok(v) => match entry_spec(package, n - 1) {
                Ok(e) => Ok(v.push(e)),
                Err(m) => Err(m),
            },
        }
    }
}

/// The files and folders of the steamcmd download, in the order of the
/// package, for the caller to write out; the error of the package that
/// does not open, or of the first entry that cannot be read.
pub open spec fn package_entries_spec(package: Seq<u8>) -> Result<Seq<(Seq<char>, bool, Seq<u8>)>, Seq<char>> {
    match zip_open_error(package) {
        Some(e) => Err("ZIP open failed: "@ + e),
        None => entries_spec(package, zip_entry_count(package)),
    }
}

/// Once an entry cannot be read, the entries after it change nothing: the
/// error stands.
proof fn lemma_entries_error_stands(package: Seq<u8>, k: nat, n: nat)
    requires
        k <= n,
        entries_spec(package, k) is Err,
    ensures
        entries_spec(package, n) == entries_spec(package, k),
    decreases n - k,
{
    if k < n {
        lemma_entries_error_stands(package, k, (n - 1) as nat);
    }
}

fn read_entry(p: &mut ZipPackage, i: usize) -> (r: Result<ZipEntry, String>)
    ensures
        final(p).bytes@ == old(p).bytes@,
        match entry_spec(old(p).bytes@, i as int) {
            Ok(v) => r matches Ok(e) && (e.name@, e.is_dir, e.data@) == v,
            Err(m) => r matches Err(s) && s@ == m,
        },
{
    let (name, is_dir) = match zip_entry_info(p, i) {
        Ok(v) => v,
        Err(e) => {
            return Err(prefixed("ZIP entry error: ", &e));
        },
    };
    if is_dir {
        return Ok(ZipEntry { name, is_dir, data: Vec::new() });
    }
    match zip_entry_data(p, i) {
        Ok(data) => Ok(ZipEntry { name, is_dir, data }),
        Err(ZipEntryError::Entry(e)) => Err(prefixed("ZIP entry error: ", &e)),
        Err(ZipEntryError::Read(e)) => Err(prefixed("File write failed: ", &e)),
    }
}

/// The files and folders of a downloaded package.
pub fn package_entries(package: &[u8]) -> (r: Result<Vec<ZipEntry>, String>)
    ensures
        match package_entries_spec(package@) {
            Ok(v) => r matches Ok(es) && entry_values(es@) == v,
            Err(e) => r matches Err(m) && m@ == e,
        },
{
    let mut p = match zip_open(package) {
        Ok(p) => p,
        Err(e) => {
            return Err(prefixed("ZIP open failed: ", &e));
        },
    };
    let n = zip_len(&p);
    let ghost bytes = p.bytes@;
    let mut out: Vec<ZipEntry> = Vec::new();
    assert(entry_values(out@) =~= Seq::empty());
    let mut i: usize = 0;
    while i < n
        invariant
            i <= n,
            p.bytes@ == bytes,
            bytes == package@,
            zip_open_error(bytes) is None,
            n == zip_entry_count(bytes),
            entries_spec(bytes, i as nat) == Ok::<Seq<(Seq<char>, bool, Seq<u8>)>, Seq<char>>(entry_values(out@)),
        decreases n - i,
    {
        match read_entry(&mut p, i) {
            Ok(e) => {
                let ghost before = out@;
                let ghost ev = (e.name@, e.is_dir, e.data@);
                out.push(e);
                assert(entry_values(out@) =~= entry_values(before).push(ev));
            },
            Err(m) => {
                proof {
                    lemma_entries_error_stands(bytes, (i + 1) as nat, n as nat);
                }
                return Err(m);
            },
        }
        i = i + 1;
    }
    Ok(out)
}

} // verus!
