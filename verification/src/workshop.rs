//! Checking installed mods against the Steam Workshop, and where Steam and
//! steamcmd are looked for.

use vstd::prelude::*;
use crate::dto::{installed_mod_to_dto, InstalledModDto};
use crate::mods::{format_size_spec, InstalledMod};
use crate::paths::{join, join_path};
use crate::text::{dec, from_chars, push_all, push_str, string_views, to_chars, u64_to_dec};

verus! {

/// The Workshop API that gives the details of published files.
pub const WORKSHOP_DETAILS_URL: &'static str =
    "https://api.steampowered.com/IPublishedFileService/GetDetails/v1/";

/// How many ids one Workshop request asks about.
pub const WORKSHOP_CHUNK: usize = 100;

/// The ids cut into runs of `n` (the last one shorter), as `slice::chunks`.
pub open spec fn chunks_spec(ids: Seq<u64>, n: nat) -> Seq<Seq<u64>>
    recommends
        n > 0,
    decreases ids.len(),
{
    if ids.len() == 0 || n == 0 {
        Seq::empty()
    } else if ids.len() <= n {
        seq![ids]
    } else {
        seq![ids.subrange(0, n as int)] + chunks_spec(ids.subrange(n as int, ids.len() as int), n)
    }
}

/// Cuts the ids into runs of `n`.
pub fn chunk_ids(ids: &Vec<u64>, n: usize) -> (r: Vec<Vec<u64>>)
    requires
        n > 0,
    ensures
        r@.map_values(|c: Vec<u64>| c@) == chunks_spec(ids@, n as nat),
{
    let mut out: Vec<Vec<u64>> = Vec::new();
    let mut start: usize = 0;
    proof {
        assert(ids@.subrange(0, ids@.len() as int) =~= ids@);
        assert(out@.map_values(|c: Vec<u64>| c@) =~= Seq::<Seq<u64>>::empty());
    }
    while start < ids.len()
        invariant
            n > 0,
            start <= ids@.len(),
            out@.map_values(|c: Vec<u64>| c@) + chunks_spec(ids@.subrange(start as int, ids@.len() as int), n as nat)
                == chunks_spec(ids@, n as nat),
        decreases ids.len() - start,
    {
        let rest = ids.len() - start;
        let take = if rest < n {
            rest
        } else {
            n
        };
        let mut c: Vec<u64> = Vec::new();
        let mut k: usize = 0;
        let len = ids.len();
        while k < take
            invariant
                k <= take,
                len == ids@.len(),
                start + take <= len,
                c@ == ids@.subrange(start as int, start + k),
            decreases take - k,
        {
            c.push(ids[start + k]);
            k = k + 1;
            assert(c@ =~= ids@.subrange(start as int, start + k));
        }
        proof {
            let tail = ids@.subrange(start as int, ids@.len() as int);
            if tail.len() <= n {
                assert(c@ =~= tail);
                assert(ids@.subrange(start + take, ids@.len() as int) =~= Seq::<u64>::empty());
            } else {
                assert(c@ =~= tail.subrange(0, n as int));
                assert(tail.subrange(n as int, tail.len() as int) =~= ids@.subrange(
                    start + take,
                    ids@.len() as int,
                ));
            }
        }
        let ghost before = out@.map_values(|x: Vec<u64>| x@);
        out.push(c);
        assert(out@.map_values(|x: Vec<u64>| x@) =~= before.push(c@));
        start = start + take;
    }
    assert(chunks_spec(ids@.subrange(start as int, ids@.len() as int), n as nat) =~= Seq::<Seq<u64>>::empty());
    out
}

/// The query of one Workshop request: the API key when there is a
/// non-empty one, the flags that leave out tags, previews, children,
/// summaries and votes, and `publishedfileids[i]` for each id.
pub open spec fn details_query_spec(api_key: Option<Seq<char>>, ids: Seq<u64>) -> Seq<(Seq<char>, Seq<char>)> {
    (match api_key {
        Some(k) => if k.len() > 0 {
            seq![("key"@, k)]
        } else {
            Seq::empty()
        },
        None => Seq::empty(),
    }) + seq![
        ("includetags"@, "0"@),
        ("includeadditionalpreviews"@, "0"@),
        ("includechildren"@, "0"@),
        ("includesummary"@, "0"@),
        ("includevotes"@, "0"@),
    ] + Seq::new(
        ids.len(),
        |i: int| ("publishedfileids["@ + dec(i as nat) + seq![']'], dec(ids[i] as nat)),
    )
}

/// Query pairs as values.
pub open spec fn pairs_view(v: Seq<(String, String)>) -> Seq<(Seq<char>, Seq<char>)> {
    v.map_values(|p: (String, String)| (p.0@, p.1@))
}

fn pair(k: &str, v: &str) -> (r: (String, String))
    ensures
        r.0@ == k@,
        r.1@ == v@,
{
    (from_chars(&to_chars(k)), from_chars(&to_chars(v)))
}

/// The ids put back together from their runs.
pub open spec fn flatten(cs: Seq<Seq<u64>>) -> Seq<u64>
    decreases cs.len(),
{
    if cs.len() == 0 {
        Seq::empty()
    } else {
        cs[0] + flatten(cs.drop_first())
    }
}

/// Cutting ids into runs loses and adds nothing: the runs put back
/// together are the ids, no run is empty or longer than `n`, and every run
/// but the last has exactly `n` ids.
pub proof fn lemma_chunks_partition(ids: Seq<u64>, n: nat)
    requires
        n > 0,
    ensures
        flatten(chunks_spec(ids, n)) == ids,
        forall|i: int|
            0 <= i < chunks_spec(ids, n).len() ==> 0 < (#[trigger] chunks_spec(ids, n)[i]).len() <= n,
        forall|i: int|
            0 <= i < chunks_spec(ids, n).len() - 1 ==> (#[trigger] chunks_spec(ids, n)[i]).len() == n,
    decreases ids.len(),
{
    if ids.len() == 0 {
    } else if ids.len() <= n {
        let cs = chunks_spec(ids, n);
        assert(cs == seq![ids]);
        assert(cs.drop_first() =~= Seq::<Seq<u64>>::empty());
        assert(flatten(cs.drop_first()) == Seq::<u64>::empty());
        assert(flatten(cs) == cs[0] + flatten(cs.drop_first()));
        assert(flatten(cs) =~= ids);
    } else {
        let rest = ids.subrange(n as int, ids.len() as int);
        lemma_chunks_partition(rest, n);
        let cs = chunks_spec(ids, n);
        assert(cs.drop_first() =~= chunks_spec(rest, n));
        assert(flatten(cs) == ids.subrange(0, n as int) + flatten(chunks_spec(rest, n)));
        assert(ids.subrange(0, n as int) + rest =~= ids);
        assert forall|i: int| 0 <= i < cs.len() implies 0 < (#[trigger] cs[i]).len() <= n by {
            if i > 0 {
                assert(cs[i] == chunks_spec(rest, n)[i - 1]);
            }
        }
        assert forall|i: int| 0 <= i < cs.len() - 1 implies (#[trigger] cs[i]).len() == n by {
            if i > 0 {
                assert(cs[i] == chunks_spec(rest, n)[i - 1]);
            }
        }
    }
}

/// The query of one Workshop request.
pub fn details_query(api_key: &Option<String>, ids: &Vec<u64>) -> (r: Vec<(String, String)>)
    ensures
        pairs_view(r@) == details_query_spec(
            match api_key {
                Some(k) => Some(k@),
                None => None,
            },
            ids@,
        ),
{
    let mut out: Vec<(String, String)> = Vec::new();
    match api_key {
        Some(k) => {
            if to_chars(k.as_str()).len() > 0 {
                out.push(pair("key", k.as_str()));
            }
        },
        None => {},
    }
    out.push(pair("includetags", "0"));
    out.push(pair("includeadditionalpreviews", "0"));
    out.push(pair("includechildren", "0"));
    out.push(pair("includesummary", "0"));
    out.push(pair("includevotes", "0"));
    let ghost head = pairs_view(out@);
    let ghost want = details_query_spec(
        match api_key {
            Some(k) => Some(k@),
            None => None,
        },
        ids@,
    );
    assert(head =~= want.subrange(0, head.len() as int));
    let mut i: usize = 0;
    while i < ids.len()
        invariant
            i <= ids@.len(),
            want == details_query_spec(
                match api_key {
                    Some(k) => Some(k@),
                    None => None,
                },
                ids@,
            ),
            want.len() == head.len() + ids@.len(),
            pairs_view(out@) == want.subrange(0, head.len() + i),
        decreases ids.len() - i,
    {
        let mut k = to_chars("publishedfileids[");
        push_all(&mut k, &u64_to_dec(i as u64));
        k.push(']');
        let ghost before = pairs_view(out@);
        out.push((from_chars(&k), from_chars(&u64_to_dec(ids[i]))));
        assert(pairs_view(out@) =~= before.push((k@, dec(ids@[i as int] as nat))));
        assert(want[head.len() + i] == (k@, dec(ids@[i as int] as nat)));
        i = i + 1;
        assert(pairs_view(out@) =~= want.subrange(0, head.len() + i));
    }
    assert(want.subrange(0, want.len() as int) =~= want);
    out
}

/// The remote update time of a mod: that of the last answer about it (a
/// later answer overrides an earlier one).
pub open spec fn remote_time(answers: Seq<(u64, i64)>, id: u64) -> Option<i64>
    decreases answers.len(),
{
    if answers.len() == 0 {
        None
    } else if answers.last().0 == id {
        Some(answers.last().1)
    } else {
        remote_time(answers.drop_last(), id)
    }
}

fn find_remote(answers: &Vec<(u64, i64)>, id: u64) -> (r: Option<i64>)
    ensures
        r == remote_time(answers@, id),
{
    let mut k: usize = answers.len();
    assert(answers@.subrange(0, k as int) =~= answers@);
    while k > 0
        invariant
            k <= answers@.len(),
            remote_time(answers@, id) == remote_time(answers@.subrange(0, k as int), id),
        decreases k,
    {
        proof {
            let t = answers@.subrange(0, k as int);
            assert(t.drop_last() =~= answers@.subrange(0, k - 1));
        }
        if answers[k - 1].0 == id {
            return Some(answers[k - 1].1);
        }
        k = k - 1;
    }
    None
}

/// The installed mods with their update state, given the Workshop's
/// answers `(id, time_updated)`: each mod's remote time is that of the last
/// answer about it.
pub fn mods_with_updates(installed: &Vec<InstalledMod>, answers: &Vec<(u64, i64)>) -> (r: Vec<InstalledModDto>)
    ensures
        r@.len() == installed@.len(),
        forall|i: int|
            0 <= i < r@.len() ==> {
                let m = installed@[i];
                let d = #[trigger] r@[i];
                &&& d.name@ == m.name@
                &&& d.id == m.id
                &&& d.size_human@ == format_size_spec(m.size)
                &&& d.remote_updated == remote_time(answers@, m.id)
                &&& d.update_available == match remote_time(answers@, m.id) {
                    Some(t) => t > m.local_updated,
                    None => false,
                }
            },
{
    let mut out: Vec<InstalledModDto> = Vec::new();
    let mut i: usize = 0;
    while i < installed.len()
        invariant
            i <= installed@.len(),
            out@.len() == i,
            forall|k: int|
                0 <= k < i ==> {
                    let m = installed@[k];
                    let d = #[trigger] out@[k];
                    &&& d.name@ == m.name@
                    &&& d.id == m.id
                    &&& d.size_human@ == format_size_spec(m.size)
                    &&& d.remote_updated == remote_time(answers@, m.id)
                    &&& d.update_available == match remote_time(answers@, m.id) {
                        Some(t) => t > m.local_updated,
                        None => false,
                    }
                },
        decreases installed.len() - i,
    {
        let m = &installed[i];
        let remote = find_remote(answers, m.id);
        out.push(installed_mod_to_dto(m, remote));
        i = i + 1;
    }
    out
}

// ------------------------------------------------------------ where Steam is

/// Steam libraries looked for under a home directory, in order: native,
/// Flatpak and Snap installs.
pub open spec fn steam_root_candidates_spec(home: Seq<char>) -> Seq<Seq<char>> {
    seq![
        join_path(home, ".steam/steam/steamapps"@),
        join_path(home, ".local/share/Steam/steamapps"@),
        join_path(home, ".steam/root/steamapps"@),
        join_path(home, ".var/app/com.valvesoftware.Steam/data/Steam/steamapps"@),
        join_path(home, ".var/app/com.valvesoftware.Steam/.local/share/Steam/steamapps"@),
        join_path(home, "snap/steam/common/.local/share/Steam/steamapps"@),
        join_path(home, "snap/steam/current/.local/share/Steam/steamapps"@),
    ]
}

/// The `steamapps` directories looked for under a home directory; the
/// first that is a directory is the Steam root.
pub fn steam_root_candidates(home: &str) -> (r: Vec<String>)
    ensures
        string_views(r@) == steam_root_candidates_spec(home@),
{
    let mut v: Vec<String> = Vec::new();
    v.push(join(home, ".steam/steam/steamapps"));
    v.push(join(home, ".local/share/Steam/steamapps"));
    v.push(join(home, ".steam/root/steamapps"));
    v.push(join(home, ".var/app/com.valvesoftware.Steam/data/Steam/steamapps"));
    v.push(join(home, ".var/app/com.valvesoftware.Steam/.local/share/Steam/steamapps"));
    v.push(join(home, "snap/steam/common/.local/share/Steam/steamapps"));
    v.push(join(home, "snap/steam/current/.local/share/Steam/steamapps"));
    assert(string_views(v@) =~= steam_root_candidates_spec(home@));
    v
}

/// Where steamcmd is looked for when it is not on the `PATH`: under the
/// home directory (Steam's own copy, Flatpak), then the distribution,
/// Snap, AUR and Homebrew locations.
pub open spec fn steamcmd_candidates_spec(home: Seq<char>) -> Seq<Seq<char>> {
    seq![
        join_path(home, ".steam/steamcmd/steamcmd.sh"@),
        join_path(home, ".local/share/Steam/steamcmd/steamcmd.sh"@),
        join_path(home, ".var/app/com.valvesoftware.SteamCMD/data/steamcmd.sh"@),
        join_path(home, ".var/app/com.valvesoftware.SteamCMD/.local/share/Steam/steamcmd.sh"@),
        "/usr/games/steamcmd"@,
        "/usr/local/games/steamcmd"@,
        "/usr/bin/steamcmd"@,
        "/usr/local/bin/steamcmd"@,
        "/snap/bin/steamcmd"@,
        "/var/lib/snapd/snap/bin/steamcmd"@,
        "/opt/steamcmd/steamcmd.sh"@,
        "/usr/local/opt/steamcmd/bin/steamcmd"@,
        "/opt/homebrew/bin/steamcmd"@,
    ]
}

fn owned(s: &str) -> (r: String)
    ensures
        r@ == s@,
{
    from_chars(&to_chars(s))
}

/// The places where steamcmd is looked for; the first that exists is used.
pub fn steamcmd_candidates(home: &str) -> (r: Vec<String>)
    ensures
        string_views(r@) == steamcmd_candidates_spec(home@),
{
    let mut v: Vec<String> = Vec::new();
    v.push(join(home, ".steam/steamcmd/steamcmd.sh"));
    v.push(join(home, ".local/share/Steam/steamcmd/steamcmd.sh"));
    v.push(join(home, ".var/app/com.valvesoftware.SteamCMD/data/steamcmd.sh"));
    v.push(join(home, ".var/app/com.valvesoftware.SteamCMD/.local/share/Steam/steamcmd.sh"));
    v.push(owned("/usr/games/steamcmd"));
    v.push(owned("/usr/local/games/steamcmd"));
    v.push(owned("/usr/bin/steamcmd"));
    v.push(owned("/usr/local/bin/steamcmd"));
    v.push(owned("/snap/bin/steamcmd"));
    v.push(owned("/var/lib/snapd/snap/bin/steamcmd"));
    v.push(owned("/opt/steamcmd/steamcmd.sh"));
    v.push(owned("/usr/local/opt/steamcmd/bin/steamcmd"));
    v.push(owned("/opt/homebrew/bin/steamcmd"));
    assert(string_views(v@) =~= steamcmd_candidates_spec(home@));
    v
}

/// The Steam roots under a home directory that the search for DayZ starts
/// from (each then taken to its `steamapps`).
pub open spec fn dayz_search_roots_spec(home: Seq<char>) -> Seq<Seq<char>> {
    seq![
        join_path(home, ".steam/steam"@),
        join_path(home, ".local/share/Steam"@),
        join_path(home, ".steam/root"@),
        join_path(home, ".var/app/com.valvesoftware.Steam/.local/share/Steam"@),
        join_path(home, "snap/steam/common/.local/share/Steam"@),
    ]
}

/// The Steam roots under a home directory where DayZ is looked for.
pub fn dayz_search_roots(home: &str) -> (r: Vec<String>)
    ensures
        string_views(r@) == dayz_search_roots_spec(home@),
{
    let mut v: Vec<String> = Vec::new();
    v.push(join(home, ".steam/steam"));
    v.push(join(home, ".local/share/Steam"));
    v.push(join(home, ".steam/root"));
    v.push(join(home, ".var/app/com.valvesoftware.Steam/.local/share/Steam"));
    v.push(join(home, "snap/steam/common/.local/share/Steam"));
    assert(string_views(v@) =~= dayz_search_roots_spec(home@));
    v
}

/// The `steamapps` directory used when no Steam root is configured.
pub fn default_steamapps(home: &str) -> (r: String)
    ensures
        r@ == join_path(home@, ".steam/steam/steamapps"@),
{
    join(home, ".steam/steam/steamapps")
}

} // verus!
