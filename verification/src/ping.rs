//! Ping scans: their limits, the targets they query, and what a query's
//! outcome records.

use vstd::prelude::*;
use crate::a2s::PING_TIMEOUT_SENTINEL;
use crate::api::Server;
use crate::config::{Favorite, History};
use crate::dto::CachedPingResult;
use crate::helpers::{parse_target, target_spec};
use crate::text::{from_chars, str_eq, to_chars};

verus! {

/// The two kinds of ping scan.
#[derive(Debug, Clone, Copy, PartialEq, Eq)]
pub enum PingScan {
    /// The scan of the whole list: short timeout, many queries at once.
    Background,
    /// The scan of the servers in view: longer timeout, fewer at once.
    Visible,
}

/// `v` brought into `lo..=hi`.
pub open spec fn clamped(v: int, lo: int, hi: int) -> int {
    if v < lo {
        lo
    } else if v > hi {
        hi
    } else {
        v
    }
}

/// The concurrency of a scan: the one asked for (64 for the background
/// scan, 10 for the visible one when none is), within 5..=200 or 5..=100.
pub open spec fn scan_concurrency(scan: PingScan, asked: Option<usize>) -> int {
    match scan {
        PingScan::Background => clamped(
            match asked {
                Some(c) => c as int,
                None => 64,
            },
            5,
            200,
        ),
        PingScan::Visible => clamped(
            match asked {
                Some(c) => c as int,
                None => 10,
            },
            5,
            100,
        ),
    }
}

/// The timeout of a scan's queries in milliseconds: the one asked for
/// (2000 for the background scan, 5000 for the visible one when none is),
/// within 1000..=5000.
pub open spec fn scan_timeout(scan: PingScan, asked: Option<u64>) -> int {
    clamped(
        match asked {
            Some(t) => t as int,
            None => match scan {
                PingScan::Background => 2000,
                PingScan::Visible => 5000,
            },
        },
        1000,
        5000,
    )
}

fn clamp_usize(v: usize, lo: usize, hi: usize) -> (r: usize)
    requires
        lo <= hi,
    ensures
        r == clamped(v as int, lo as int, hi as int),
{
    if v < lo {
        lo
    } else if v > hi {
        hi
    } else {
        v
    }
}

fn clamp_u64(v: u64, lo: u64, hi: u64) -> (r: u64)
    requires
        lo <= hi,
    ensures
        r == clamped(v as int, lo as int, hi as int),
{
    if v < lo {
        lo
    } else if v > hi {
        hi
    } else {
        v
    }
}

/// The concurrency and the query timeout (ms) of a scan.
pub fn scan_limits(scan: PingScan, concurrency: Option<usize>, timeout_ms: Option<u64>) -> (r: (usize, u64))
    ensures
        r.0 == scan_concurrency(scan, concurrency),
        r.1 == scan_timeout(scan, timeout_ms),
        5 <= r.0 <= 200,
        1000 <= r.1 <= 5000,
{
    let (default_c, max_c, default_t): (usize, usize, u64) = match scan {
        PingScan::Background => (64, 200, 2000),
        PingScan::Visible => (10, 100, 5000),
    };
    let c = match concurrency {
        Some(c) => c,
        None => default_c,
    };
    let t = match timeout_ms {
        Some(t) => t,
        None => default_t,
    };
    (clamp_usize(c, 5, max_c), clamp_u64(t, 1000, 5000))
}

/// The timeout of a single ping asked for by hand: the one given, else ten
/// seconds.
pub fn manual_timeout(timeout_ms: Option<u64>) -> (r: u64)
    ensures
        r == match timeout_ms {
            Some(t) => t,
            None => 10_000u64,
        },
{
    match timeout_ms {
        Some(t) => t,
        None => 10_000,
    }
}

/// The targets of a scan that name an address: IP, port and the target
/// text itself (the key its result is cached under), in order.
pub open spec fn scan_targets(targets: Seq<Seq<char>>) -> Seq<(Seq<char>, i64, Seq<char>)>
    decreases targets.len(),
{
    if targets.len() == 0 {
        Seq::empty()
    } else {
        let p = scan_targets(targets.drop_last());
        match target_spec(targets.last()) {
            Some((ip, port)) => p.push((ip, port, targets.last())),
            None => p,
        }
    }
}

/// The targets of a scan that name an address, each with its cache key.
pub fn ping_targets(targets: &Vec<String>) -> (r: Vec<(String, i64, String)>)
    ensures
        r@.map_values(|t: (String, i64, String)| (t.0@, t.1, t.2@)) == scan_targets(
            targets@.map_values(|s: String| s@),
        ),
{
    let ghost tv = targets@.map_values(|s: String| s@);
    let mut out: Vec<(String, i64, String)> = Vec::new();
    let mut i: usize = 0;
    while i < targets.len()
        invariant
            i <= targets.len(),
            tv == targets@.map_values(|s: String| s@),
            out@.map_values(|t: (String, i64, String)| (t.0@, t.1, t.2@)) == scan_targets(
                tv.subrange(0, i as int),
            ),
        decreases targets.len() - i,
    {
        proof {
            let s = tv.subrange(0, i + 1);
            assert(s.drop_last() =~= tv.subrange(0, i as int));
            assert(s.last() == targets@[i as int]@);
        }
        let ghost before = out@;
        match parse_target(targets[i].as_str()) {
            Some((ip, port)) => {
                let key = from_chars(&to_chars(targets[i].as_str()));
                out.push((ip, port, key));
                assert(out@.map_values(|t: (String, i64, String)| (t.0@, t.1, t.2@)) =~= before.map_values(
                    |t: (String, i64, String)| (t.0@, t.1, t.2@),
                ).push((ip@, port, key@)));
            },
            None => {},
        }
        i = i + 1;
    }
    assert(tv.subrange(0, targets@.len() as int) =~= tv);
    out
}

/// What a ping records: the round trip and player counts of an answer, or
/// a failure with the timeout sentinel as its time.
pub fn ping_outcome(answer: Option<(u32, u8, u8)>) -> (r: CachedPingResult)
    ensures
        match answer {
            Some((ms, players, max_players)) => r.ms == ms && r.players == Some(players) && r.max_players
                == Some(max_players) && !r.failed,
            None => r.ms == PING_TIMEOUT_SENTINEL && r.players is None && r.max_players is None && r.failed,
        },
{
    match answer {
        Some((ms, players, max_players)) => CachedPingResult {
            ms,
            players: Some(players),
            max_players: Some(max_players),
            failed: false,
        },
        None => CachedPingResult { ms: PING_TIMEOUT_SENTINEL, players: None, max_players: None, failed: true },
    }
}

// ------------------------------------------------------------ order of a scan

/// A server that the user knows: one whose query address is that of a
/// favorite or of a history entry.
pub open spec fn is_known(s: Server, favorites: Seq<Favorite>, history: Seq<History>) -> bool {
    (exists|i: int| 0 <= i < favorites.len() && #[trigger] favorites[i].ip@ == s.endpoint.ip@
        && favorites[i].port as int == s.endpoint.port)
    || (exists|i: int| 0 <= i < history.len() && #[trigger] history[i].ip@ == s.endpoint.ip@
        && history[i].port as int == s.endpoint.port)
}

/// The positions among the first `n` servers that are known (`known`) or
/// not, in order.
pub open spec fn positions(servers: Seq<Server>, favorites: Seq<Favorite>, history: Seq<History>, n: nat, known: bool) -> Seq<usize>
    decreases n,
{
    if n == 0 {
        Seq::empty()
    } else {
        let p = positions(servers, favorites, history, (n - 1) as nat, known);
        if is_known(servers[n - 1], favorites, history) == known {
            p.push((n - 1) as usize)
        } else {
            p
        }
    }
}

fn known_server(s: &Server, favorites: &Vec<Favorite>, history: &Vec<History>) -> (r: bool)
    ensures
        r == is_known(*s, favorites@, history@),
{
    let mut i: usize = 0;
    while i < favorites.len()
        invariant
            i <= favorites.len(),
            forall|k: int| 0 <= k < i ==> !(#[trigger] favorites@[k].ip@ == s.endpoint.ip@
                && favorites@[k].port as int == s.endpoint.port),
        decreases favorites.len() - i,
    {
        if favorites[i].port as i64 == s.endpoint.port && str_eq(favorites[i].ip.as_str(), s.endpoint.ip.as_str()) {
            return true;
        }
        i = i + 1;
    }
    let mut j: usize = 0;
    while j < history.len()
        invariant
            j <= history.len(),
            forall|k: int| 0 <= k < favorites@.len() ==> !(#[trigger] favorites@[k].ip@ == s.endpoint.ip@
                && favorites@[k].port as int == s.endpoint.port),
            forall|k: int| 0 <= k < j ==> !(#[trigger] history@[k].ip@ == s.endpoint.ip@
                && history@[k].port as int == s.endpoint.port),
        decreases history.len() - j,
    {
        if history[j].port as i64 == s.endpoint.port && str_eq(history[j].ip.as_str(), s.endpoint.ip.as_str()) {
            return true;
        }
        j = j + 1;
    }
    false
}

/// The order in which the background scan pings the servers: first those
/// the user knows (favorites and history), then the others, each group in
/// list order; as positions in the list.
pub fn ping_order(servers: &Vec<Server>, favorites: &Vec<Favorite>, history: &Vec<History>) -> (r: Vec<usize>)
    ensures
        r@ == positions(servers@, favorites@, history@, servers@.len(), true) + positions(
            servers@,
            favorites@,
            history@,
            servers@.len(),
            false,
        ),
{
    let mut first: Vec<usize> = Vec::new();
    let mut rest: Vec<usize> = Vec::new();
    let mut i: usize = 0;
    while i < servers.len()
        invariant
            i <= servers.len(),
            first@ == positions(servers@, favorites@, history@, i as nat, true),
            rest@ == positions(servers@, favorites@, history@, i as nat, false),
        decreases servers.len() - i,
    {
        if known_server(&servers[i], favorites, history) {
            first.push(i);
        } else {
            rest.push(i);
        }
        i = i + 1;
    }
    let mut k: usize = 0;
    let ghost f0 = first@;
    while k < rest.len()
        invariant
            k <= rest.len(),
            first@ == f0 + rest@.subrange(0, k as int),
        decreases rest.len() - k,
    {
        first.push(rest[k]);
        k = k + 1;
        assert(first@ =~= f0 + rest@.subrange(0, k as int));
    }
    assert(rest@.subrange(0, rest@.len() as int) =~= rest@);
    first
}

proof fn lemma_positions(servers: Seq<Server>, favorites: Seq<Favorite>, history: Seq<History>, n: nat, known: bool)
    requires
        n <= servers.len(),
        servers.len() <= usize::MAX,
    ensures
        forall|a: int, b: int|
            0 <= a < b < positions(servers, favorites, history, n, known).len() ==> #[trigger] positions(
                servers,
                favorites,
                history,
                n,
                known,
            )[a] < #[trigger] positions(servers, favorites, history, n, known)[b],
        forall|a: int|
            0 <= a < positions(servers, favorites, history, n, known).len() ==> {
                let j = #[trigger] positions(servers, favorites, history, n, known)[a];
                &&& j < n
                &&& is_known(servers[j as int], favorites, history) == known
            },
        forall|j: int|
            0 <= j < n && is_known(servers[j], favorites, history) == known ==> #[trigger] positions(
                servers,
                favorites,
                history,
                n,
                known,
            ).contains(j as usize),
        positions(servers, favorites, history, n, true).len() + positions(servers, favorites, history, n, false).len() == n,
    decreases n,
{
    if n > 0 {
        lemma_positions(servers, favorites, history, (n - 1) as nat, known);
        lemma_positions(servers, favorites, history, (n - 1) as nat, !known);
        let p = positions(servers, favorites, history, (n - 1) as nat, known);
        let r = positions(servers, favorites, history, n, known);
        let last = (n - 1) as usize;
        assert(last as int == n - 1);
        if is_known(servers[n - 1], favorites, history) == known {
            assert(r == p.push(last));
        } else {
            assert(r == p);
        }
        assert(forall|a: int| 0 <= a < p.len() ==> r[a] == p[a]);
        assert forall|a: int, b: int| 0 <= a < b < r.len() implies #[trigger] r[a] < #[trigger] r[b] by {
            if b < p.len() {
                assert(p[a] < p[b]);
            } else {
                assert(r[b] == last);
                assert(p[a] < n - 1);
            }
        }
        assert forall|a: int| 0 <= a < r.len() implies {
            let j = #[trigger] r[a];
            &&& j < n
            &&& is_known(servers[j as int], favorites, history) == known
        } by {
            if a < p.len() {
                assert(r[a] == p[a]);
            } else {
                assert(r[a] == last);
            }
        }
        assert forall|j: int|
            0 <= j < n && is_known(servers[j], favorites, history) == known implies #[trigger] r.contains(
            j as usize,
        ) by {
            if j < n - 1 {
                assert(p.contains(j as usize));
                let a = choose|a: int| 0 <= a < p.len() && p[a] == j as usize;
                assert(r[a] == j as usize);
            } else {
                assert(r[r.len() - 1] == j as usize);
            }
        }
    }
}

/// The background scan pings every server once: the order it uses lists
/// each position of the server list exactly once.
pub proof fn lemma_ping_order_complete(servers: Seq<Server>, favorites: Seq<Favorite>, history: Seq<History>)
    requires
        servers.len() <= usize::MAX,
    ensures
        ({
            let order = positions(servers, favorites, history, servers.len(), true) + positions(
                servers,
                favorites,
                history,
                servers.len(),
                false,
            );
            &&& order.len() == servers.len()
            &&& forall|j: int| 0 <= j < servers.len() ==> #[trigger] order.contains(j as usize)
            &&& forall|a: int, b: int| 0 <= a < b < order.len() ==> #[trigger] order[a] != #[trigger] order[b]
        }),
{
    let n = servers.len();
    lemma_positions(servers, favorites, history, n, true);
    lemma_positions(servers, favorites, history, n, false);
    let t = positions(servers, favorites, history, n, true);
    let f = positions(servers, favorites, history, n, false);
    let order = t + f;
    assert forall|j: int| 0 <= j < n implies #[trigger] order.contains(j as usize) by {
        if is_known(servers[j], favorites, history) {
            assert(t.contains(j as usize));
            let a = choose|a: int| 0 <= a < t.len() && t[a] == j as usize;
            assert(order[a] == j as usize);
        } else {
            assert(f.contains(j as usize));
            let a = choose|a: int| 0 <= a < f.len() && f[a] == j as usize;
            assert(order[t.len() + a] == j as usize);
        }
    }
    assert forall|a: int, b: int| 0 <= a < b < order.len() implies #[trigger] order[a] != #[trigger] order[b] by {
        if b < t.len() {
            assert(t[a] < t[b]);
        } else if a >= t.len() {
            assert(f[a - t.len()] < f[b - t.len()]);
        } else {
            let x = t[a];
            let y = f[b - t.len()];
            assert(is_known(servers[x as int], favorites, history));
            assert(!is_known(servers[y as int], favorites, history));
        }
    }
}

} // verus!
