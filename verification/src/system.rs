//! System checks and Steam library paths.
//!
//! Reading `/proc` and the file system is left to the application; what the
//! values mean is decided here.

use vstd::prelude::*;
use crate::error::Error;
use crate::paths::{join, join_path, path_file_name, path_file_name_result};
use crate::regexp::{regex_all_captures, regex_all_captures_result};
use crate::text::{
    dec, from_chars, opt_string_view, parse_unsigned, push_all, push_str, replace_text,
    replace_text_chars, str_eq, string_views, to_chars, trim, trim_str, u64_to_dec,
};

verus! {

/// The smallest `vm.max_map_count` that DayZ runs with.
pub const MAX_MAP_COUNT_MIN: u64 = 1048576;

/// The outcome of a system check.
#[derive(Debug)]
pub struct CheckResult {
    pub current: u64,
    pub required: u64,
    pub ok: bool,
}

/// The advice for a check's outcome.
pub open spec fn recommendation_spec(c: CheckResult) -> Seq<char> {
    if c.ok {
        "vm.max_map_count is sufficient ("@ + dec(c.current as nat) + " >= "@ + dec(
            c.required as nat,
        ) + ")"@
    } else {
        "vm.max_map_count needs adjustment: "@ + dec(c.current as nat) + " < "@ + dec(
            c.required as nat,
        ) + "\nRun: echo 'vm.max_map_count="@ + dec(c.required as nat)
            + "' | sudo tee /etc/sysctl.d/50-dayz.conf && sudo sysctl -w vm.max_map_count="@ + dec(
            c.required as nat,
        )
    }
}

impl CheckResult {
    /// What to tell the user about the check.
    pub fn recommendation(&self) -> (r: String)
        ensures
            r@ == recommendation_spec(*self),
    {
        let cur = u64_to_dec(self.current);
        let req = u64_to_dec(self.required);
        let mut v: Vec<char>;
        if self.ok {
            v = to_chars("vm.max_map_count is sufficient (");
            push_all(&mut v, &cur);
            push_str(&mut v, " >= ");
            push_all(&mut v, &req);
            push_str(&mut v, ")");
        } else {
            v = to_chars("vm.max_map_count needs adjustment: ");
            push_all(&mut v, &cur);
            push_str(&mut v, " < ");
            push_all(&mut v, &req);
            push_str(&mut v, "\nRun: echo 'vm.max_map_count=");
            push_all(&mut v, &req);
            push_str(&mut v, "' | sudo tee /etc/sysctl.d/50-dayz.conf && sudo sysctl -w vm.max_map_count=");
            push_all(&mut v, &req);
        }
        from_chars(&v)
    }
}

/// What `ParseIntError` displays as for a text that `u64::from_str`
/// rejects.
pub uninterp spec fn u64_parse_error_result(s: Seq<char>) -> Seq<char>;

/// `u64::from_str`: an optional `+` and decimal digits, at most
/// `u64::MAX` (as its documentation gives it); on failure the error's text,
/// which is named.
#[verifier::external_body]
fn u64_from_str(s: &str) -> (r: Result<u64, String>)
    ensures
        match r {
            Ok(v) => parse_unsigned(s@, 10, u64::MAX as nat) == Some(v as nat),
            Err(m) => parse_unsigned(s@, 10, u64::MAX as nat) is None && m@
                == u64_parse_error_result(s@),
        },
{
    s.parse::<u64>().map_err(|e| e.to_string())
}

/// The check of `vm.max_map_count` for the content of
/// `/proc/sys/vm/max_map_count`.
pub fn check_max_map_count(content: &str) -> (r: Result<CheckResult, Error>)
    ensures
        match parse_unsigned(trim(content@), 10, u64::MAX as nat) {
            Some(v) => r matches Ok(c) && c.current == v && c.required == MAX_MAP_COUNT_MIN && c.ok
                == (v >= MAX_MAP_COUNT_MIN),
            None => r matches Err(e) && e matches Error::Other(m) && m@
                == "Failed to parse max_map_count: "@ + u64_parse_error_result(trim(content@)),
        },
{
    let t = from_chars(&trim_str(content));
    match u64_from_str(t.as_str()) {
        Ok(current) => Ok(
            CheckResult {
                current,
                required: MAX_MAP_COUNT_MIN,
                ok: current >= MAX_MAP_COUNT_MIN,
            },
        ),
        Err(m) => {
            let mut v = to_chars("Failed to parse max_map_count: ");
            push_str(&mut v, m.as_str());
            Err(Error::Other(from_chars(&v)))
        },
    }
}

/// The `steamapps` directory of a Steam root or library: the path itself
/// when its last component is `steamapps`, else `<p>/steamapps`.
pub open spec fn steamapps_spec(p: Seq<char>) -> Seq<char> {
    if path_file_name_result(p) == Some("steamapps"@) {
        p
    } else {
        join_path(p, "steamapps"@)
    }
}

/// The `steamapps` directory of a Steam root or library.
pub fn steamapps_of(p: &str) -> (r: String)
    ensures
        r@ == steamapps_spec(p@),
{
    match path_file_name(p) {
        Some(n) => {
            if str_eq(n.as_str(), "steamapps") {
                return from_chars(&to_chars(p));
            }
        },
        None => {},
    }
    join(p, "steamapps")
}

/// Adds a `steamapps` directory that exists to the candidates, unless it is
/// there already.
pub fn push_steamapps(out: &mut Vec<String>, sa: &str, exists: bool)
    ensures
        string_views(final(out)@) == if exists && !string_views(old(out)@).contains(sa@) {
            string_views(old(out)@).push(sa@)
        } else {
            string_views(old(out)@)
        },
{
    if !exists {
        return ;
    }
    let mut i: usize = 0;
    while i < out.len()
        invariant
            i <= out.len(),
            out@ == old(out)@,
            forall|j: int| 0 <= j < i ==> out@[j]@ != sa@,
        decreases out.len() - i,
    {
        if str_eq(out[i].as_str(), sa) {
            assert(string_views(out@)[i as int] == sa@);
            return ;
        }
        i = i + 1;
    }
    assert forall|j: int| 0 <= j < string_views(out@).len() implies string_views(out@)[j]
        != sa@ by {
        assert(string_views(out@)[j] == out@[j]@);
    }
    let ghost before = out@;
    let s = from_chars(&to_chars(sa));
    out.push(s);
    assert(string_views(out@) =~= string_views(before).push(sa@));
}

/// The pattern of a library path entry in `libraryfolders.vdf`.
pub open spec fn library_path_pattern() -> Seq<char> {
    "\"path\"\\s*\"([^\"]+)\""@
}

/// The library paths of a `libraryfolders.vdf` text, with the VDF's
/// doubled backslashes undone.
pub open spec fn library_paths(groups: Seq<Option<Seq<char>>>) -> Seq<Seq<char>>
    decreases groups.len(),
{
    if groups.len() == 0 {
        Seq::empty()
    } else {
        let p = library_paths(groups.drop_last());
        match groups.last() {
            Some(g) => p.push(replace_text(g, "\\\\"@, "\\"@)),
            None => p,
        }
    }
}

/// Extracts the library `path` values from a `libraryfolders.vdf` text.
pub fn parse_library_folders(vdf: &str) -> (r: Vec<String>)
    ensures
        match regex_all_captures_result(library_path_pattern(), vdf@) {
            Some(groups) => string_views(r@) == library_paths(groups),
            None => r@.len() == 0,
        },
{
    let pattern = "\"path\"\\s*\"([^\"]+)\"";
    assert(pattern@ == library_path_pattern());
    let groups = match regex_all_captures(pattern, vdf) {
        Some(g) => g,
        None => return Vec::new(),
    };
    let ghost gs = groups@.map_values(|o: Option<String>| opt_string_view(o));
    let from = to_chars("\\\\");
    let to = to_chars("\\");
    proof {
        reveal_strlit("\\\\");
    }
    let mut out: Vec<String> = Vec::new();
    let mut i: usize = 0;
    while i < groups.len()
        invariant
            i <= groups.len(),
            gs == groups@.map_values(|o: Option<String>| opt_string_view(o)),
            from@ == "\\\\"@,
            to@ == "\\"@,
            from@.len() > 0,
            string_views(out@) == library_paths(gs.subrange(0, i as int)),
        decreases groups.len() - i,
    {
        proof {
            let s = gs.subrange(0, i + 1);
            assert(s.drop_last() =~= gs.subrange(0, i as int));
            assert(s.last() == opt_string_view(groups@[i as int]));
        }
        match &groups[i] {
            Some(g) => {
                let ghost before = out@;
                let t = from_chars(&replace_text_chars(&to_chars(g.as_str()), &from, &to));
                out.push(t);
                assert(string_views(out@) =~= string_views(before).push(t@));
            },
            None => {},
        }
        i = i + 1;
    }
    assert(gs.subrange(0, gs.len() as int) =~= gs);
    out
}

/// The DayZ directory of a `steamapps` directory: `<sa>/common/DayZ`.
pub fn dayz_dir_of(steamapps: &str) -> (r: String)
    ensures
        r@ == join_path(join_path(steamapps@, "common"@), "DayZ"@),
{
    let c = join(steamapps, "common");
    join(c.as_str(), "DayZ")
}

} // verus!
