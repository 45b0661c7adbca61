//! Paths as text, joined the way `Path::join` does on Unix.

use vstd::prelude::*;
use crate::text::{from_chars, push_str, to_chars};

verus! {

/// `Path::join(base, comp)` on Unix: an absolute component replaces the
/// path; a relative one is appended after a `/` unless `base` is empty or
/// already ends in `/`.
pub open spec fn join_path(base: Seq<char>, comp: Seq<char>) -> Seq<char> {
    if comp.len() > 0 && comp[0] == '/' {
        comp
    } else if base.len() == 0 || base.last() == '/' {
        base + comp
    } else {
        base + seq!['/'] + comp
    }
}

/// Joins a component onto a path.
pub fn join(base: &str, comp: &str) -> (r: String)
    ensures
        r@ == join_path(base@, comp@),
{
    let c = to_chars(comp);
    if c.len() > 0 && c[0] == '/' {
        return from_chars(&c);
    }
    let mut v = to_chars(base);
    if v.len() > 0 && v[v.len() - 1] != '/' {
        v.push('/');
    }
    push_str(&mut v, comp);
    from_chars(&v)
}

/// What `Path::parent` gives for a path written as text.
pub uninterp spec fn path_parent_result(p: Seq<char>) -> Option<Seq<char>>;

/// `std::path::Path::parent`.  Only the name of the result is stated: the
/// parent is a function of the path text (trailing separators and `.`
/// components are normalised by `Path::components`).
#[verifier::external_body]
pub(crate) fn path_parent(p: &str) -> (r: Option<String>)
    ensures
        match r {
            Some(s) => path_parent_result(p@) == Some(s@),
            None => path_parent_result(p@) is None,
        },
{
    std::path::Path::new(p).parent().map(|q| q.to_string_lossy().into_owned())
}

/// `str::replace(from, to)` for single characters: every `from` becomes `to`.
pub open spec fn replace_char(s: Seq<char>, from: char, to: char) -> Seq<char> {
    s.map_values(|c: char| if c == from { to } else { c })
}

/// Replaces every `from` character by `to`.
pub fn replace_char_chars(s: &Vec<char>, from: char, to: char) -> (r: Vec<char>)
    ensures
        r@ == replace_char(s@, from, to),
{
    let mut r: Vec<char> = Vec::new();
    let mut i: usize = 0;
    while i < s.len()
        invariant
            i <= s.len(),
            r@ == replace_char(s@.subrange(0, i as int), from, to),
        decreases s.len() - i,
    {
        let c = s[i];
        r.push(if c == from { to } else { c });
        i = i + 1;
        assert(r@ =~= replace_char(s@.subrange(0, i as int), from, to));
    }
    assert(s@.subrange(0, s@.len() as int) =~= s@);
    r
}

/// A path written with forward slashes only (`\` becomes `/`).
pub fn path_to_forward_slashes(path: &str) -> (r: String)
    ensures
        r@ == replace_char(path@, '\\', '/'),
{
    let v = to_chars(path);
    let w = replace_char_chars(&v, '\\', '/');
    from_chars(&w)
}

/// What `Path::file_name` gives for a path written as text.
pub uninterp spec fn path_file_name_result(p: Seq<char>) -> Option<Seq<char>>;

/// `std::path::Path::file_name` (lossily as text).  Only the name of the
/// result is stated: the last normal component of the path, a function of
/// the path text.
#[verifier::external_body]
pub(crate) fn path_file_name(p: &str) -> (r: Option<String>)
    ensures
        match r {
            Some(s) => path_file_name_result(p@) == Some(s@),
            None => path_file_name_result(p@) is None,
        },
{
    std::path::Path::new(p).file_name().map(|n| n.to_string_lossy().into_owned())
}

} // verus!
