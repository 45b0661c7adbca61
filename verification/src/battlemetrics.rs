//! Finding a server on BattleMetrics.
//!
//! The search by IP lists candidates; the best one on the right IP is
//! picked by how its ports match, checked against the server's name, and a
//! search by name is the fallback.  The requests themselves are made by the
//! application, which hands the candidates over as plain values.

use vstd::prelude::*;
use crate::calendar::{chrono_or_fallback, iso_text};
use crate::urlcodec::{url_encode, url_encode_spec};
use crate::text::{
    contains, contains_chars, first_word, first_word_chars, from_chars, i64_to_dec, dec_int,
    lowercase_result, push_all, str_eq, to_chars, to_lowercase,
};

verus! {

/// A server as a BattleMetrics search lists it: the attributes that the
/// matching reads (an absent IP or name as empty text, an absent port as 0).
#[derive(Debug)]
pub struct BmCandidate {
    pub ip: String,
    pub port: i64,
    pub query_port: i64,
    pub name: String,
}

/// The best score: the game port matches.
pub const MAX_SCORE: u8 = 4;

/// How well a candidate on the right IP matches: exact game port, exact
/// query port, swapped ports, any other.
pub open spec fn score_spec(c: BmCandidate, port: i64, query_port: i64) -> u8 {
    if c.port == port {
        MAX_SCORE
    } else if c.query_port == query_port {
        3
    } else if c.port == query_port {
        2
    } else {
        1
    }
}

/// The candidate's score.
pub fn match_score(c: &BmCandidate, port: i64, query_port: i64) -> (r: u8)
    ensures
        r == score_spec(*c, port, query_port),
{
    if c.port == port {
        MAX_SCORE
    } else if c.query_port == query_port {
        3
    } else if c.port == query_port {
        2
    } else {
        1
    }
}

/// The first candidate on `ip` with the highest score, with that score.
pub open spec fn best_match_spec(cands: Seq<BmCandidate>, ip: Seq<char>, port: i64, query_port: i64) -> Option<(int, u8)>
    decreases cands.len(),
{
    if cands.len() == 0 {
        None
    } else {
        let prev = best_match_spec(cands.drop_last(), ip, port, query_port);
        let c = cands.last();
        if c.ip@ != ip {
            prev
        } else {
            let s = score_spec(c, port, query_port);
            match prev {
                None => Some(((cands.len() - 1) as int, s)),
                Some(b) => if s > b.1 {
                    Some(((cands.len() - 1) as int, s))
                } else {
                    prev
                },
            }
        }
    }
}

proof fn lemma_best_match_bounds(cands: Seq<BmCandidate>, ip: Seq<char>, port: i64, query_port: i64)
    ensures
        match best_match_spec(cands, ip, port, query_port) {
            Some(b) => 0 <= b.0 < cands.len() && b.1 <= MAX_SCORE && cands[b.0].ip@ == ip && b.1
                == score_spec(cands[b.0], port, query_port),
            None => true,
        },
    decreases cands.len(),
{
    if cands.len() > 0 {
        lemma_best_match_bounds(cands.drop_last(), ip, port, query_port);
    }
}

/// Once the best score is reached, later candidates change nothing.
proof fn lemma_best_match_final(cands: Seq<BmCandidate>, k: int, ip: Seq<char>, port: i64, query_port: i64)
    requires
        0 <= k <= cands.len(),
        best_match_spec(cands.subrange(0, k), ip, port, query_port) matches Some(b) && b.1
            == MAX_SCORE,
    ensures
        best_match_spec(cands, ip, port, query_port) == best_match_spec(
            cands.subrange(0, k),
            ip,
            port,
            query_port,
        ),
    decreases cands.len() - k,
{
    if k < cands.len() {
        assert(cands.drop_last().subrange(0, k) =~= cands.subrange(0, k));
        lemma_best_match_final(cands.drop_last(), k, ip, port, query_port);
    } else {
        assert(cands.subrange(0, k) =~= cands);
    }
}

/// Index and score of the best candidate on `ip`; scanning stops at the
/// first exact game-port match.
pub fn best_ip_match(cands: &Vec<BmCandidate>, ip: &str, port: i64, query_port: i64) -> (r: Option<(usize, u8)>)
    ensures
        match best_match_spec(cands@, ip@, port, query_port) {
            Some(b) => r matches Some(p) && p.0 == b.0 && p.1 == b.1,
            None => r is None,
        },
{
    let mut best: Option<(usize, u8)> = None;
    let mut i: usize = 0;
    assert(cands@.subrange(0, cands@.len() as int) =~= cands@);
    while i < cands.len()
        invariant_except_break
            i <= cands.len(),
            cands@.subrange(0, cands@.len() as int) == cands@,
            match best_match_spec(cands@.subrange(0, i as int), ip@, port, query_port) {
                Some(b) => best matches Some(p) && p.0 == b.0 && p.1 == b.1,
                None => best is None,
            },
        ensures
            match best_match_spec(cands@, ip@, port, query_port) {
                Some(b) => best matches Some(p) && p.0 == b.0 && p.1 == b.1,
                None => best is None,
            },
        decreases cands.len() - i,
    {
        proof {
            let s = cands@.subrange(0, i + 1);
            assert(s.drop_last() =~= cands@.subrange(0, i as int));
            assert(s.last() == cands@[i as int]);
            lemma_best_match_bounds(cands@.subrange(0, i as int), ip@, port, query_port);
        }
        if str_eq(cands[i].ip.as_str(), ip) {
            let score = match_score(&cands[i], port, query_port);
            let better = match best {
                None => true,
                Some(b) => score > b.1,
            };
            if better {
                best = Some((i, score));
                if score == MAX_SCORE {
                    proof {
                        assert(best_match_spec(cands@.subrange(0, i + 1), ip@, port, query_port)
                            == Some((i as int, score)));
                        lemma_best_match_final(cands@, i + 1, ip@, port, query_port);
                    }
                    break;
                }
            }
        }
        i = i + 1;
    }
    proof {
        if i == cands.len() {
            assert(cands@.subrange(0, i as int) =~= cands@);
        }
    }
    best
}

/// Whether a listed name and the server's name agree, case-insensitively:
/// no name to check against, one contains the other, or their first words
/// are equal.
pub open spec fn names_match_spec(bm_name: Seq<char>, name: Seq<char>) -> bool {
    let b = lowercase_result(bm_name);
    let n = lowercase_result(name);
    name.len() == 0 || contains(b, n) || contains(n, b) || first_word(b) == first_word(n)
}

/// `names_match_spec` on strings.
pub fn names_match(bm_name: &str, name: &str) -> (r: bool)
    ensures
        r == names_match_spec(bm_name@, name@),
{
    let nm = to_chars(name);
    if nm.len() == 0 {
        return true;
    }
    let b = to_chars(to_lowercase(bm_name).as_str());
    let n = to_chars(to_lowercase(name).as_str());
    if contains_chars(&b, &n) || contains_chars(&n, &b) {
        return true;
    }
    let wb = first_word_chars(&b);
    let wn = first_word_chars(&n);
    match (wb, wn) {
        (None, None) => true,
        (Some(x), Some(y)) => crate::text::chars_eq(&x, &y),
        _ => false,
    }
}

/// What to do after the search by IP.
#[derive(Debug, PartialEq, Eq)]
pub enum BmNext {
    /// Use the candidate at this index.
    UseCandidate(usize),
    /// Search by the server's name and take the first result on the IP.
    SearchByName,
    /// The server is not on BattleMetrics.
    NotFound,
}

/// The decision after the search by IP.
pub open spec fn next_step_spec(cands: Seq<BmCandidate>, ip: Seq<char>, port: i64, query_port: i64, name: Seq<char>) -> BmNext {
    match best_match_spec(cands, ip, port, query_port) {
        Some(b) => if names_match_spec(cands[b.0].name@, name) {
            BmNext::UseCandidate(b.0 as usize)
        } else if name.len() > 0 {
            BmNext::SearchByName
        } else {
            BmNext::UseCandidate(b.0 as usize)
        },
        None => if name.len() > 0 {
            BmNext::SearchByName
        } else {
            BmNext::NotFound
        },
    }
}

/// Picks the candidate of the search by IP, or says to search by name:
/// the best candidate is used when its name agrees with `name`.
pub fn choose_candidate(cands: &Vec<BmCandidate>, ip: &str, port: i64, query_port: i64, name: &str) -> (r: BmNext)
    ensures
        r == next_step_spec(cands@, ip@, port, query_port, name@),
{
    proof {
        lemma_best_match_bounds(cands@, ip@, port, query_port);
    }
    let best = best_ip_match(cands, ip, port, query_port);
    let named = to_chars(name).len() > 0;
    match best {
        Some((i, _)) => {
            proof {
                let bb = best_match_spec(cands@, ip@, port, query_port);
                assert(bb is Some);
                let b = bb->0;
                assert(0 <= b.0 < cands@.len());
                assert(i as int == b.0);
                assert(names_match_spec(cands@[i as int].name@, name@) == names_match_spec(cands@[b.0].name@, name@));
            }
            if names_match(cands[i].name.as_str(), name) {
                BmNext::UseCandidate(i)
            } else if named {
                BmNext::SearchByName
            } else {
                BmNext::UseCandidate(i)
            }
        },
        None => {
            if named {
                BmNext::SearchByName
            } else {
                BmNext::NotFound
            }
        },
    }
}

/// The first candidate whose IP is `ip` (the pick among the results of the
/// search by name).
pub fn find_on_ip(cands: &Vec<BmCandidate>, ip: &str) -> (r: Option<usize>)
    ensures
        match r {
            Some(i) => i < cands@.len() && cands@[i as int].ip@ == ip@ && forall|j: int|
                0 <= j < i ==> cands@[j].ip@ != ip@,
            None => forall|j: int| 0 <= j < cands@.len() ==> cands@[j].ip@ != ip@,
        },
{
    let mut i: usize = 0;
    while i < cands.len()
        invariant
            i <= cands.len(),
            forall|j: int| 0 <= j < i ==> cands@[j].ip@ != ip@,
        decreases cands.len() - i,
    {
        if str_eq(cands[i].ip.as_str(), ip) {
            return Some(i);
        }
        i = i + 1;
    }
    None
}

/// The key under which a lookup is cached: `ip:port:query_port`.
pub fn bm_cache_key(ip: &str, port: i64, query_port: i64) -> (r: String)
    ensures
        r@ == ip@ + seq![':'] + dec_int(port as int) + seq![':'] + dec_int(query_port as int),
{
    let mut v = to_chars(ip);
    v.push(':');
    push_all(&mut v, &i64_to_dec(port));
    v.push(':');
    push_all(&mut v, &i64_to_dec(query_port));
    from_chars(&v)
}

// ------------------------------------------------------------ requests

/// The search of the servers on an IP: up to fifty DayZ servers.
pub open spec fn ip_search_url_spec(ip: Seq<char>) -> Seq<char> {
    "https://api.battlemetrics.com/servers?filter[game]=dayz&filter[search]="@ + ip + "&page[size]=50"@
}

/// The search of the servers on an IP.
pub fn ip_search_url(ip: &str) -> (r: String)
    ensures
        r@ == ip_search_url_spec(ip@),
{
    let mut v = to_chars("https://api.battlemetrics.com/servers?filter[game]=dayz&filter[search]=");
    crate::text::push_str(&mut v, ip);
    crate::text::push_str(&mut v, "&page[size]=50");
    from_chars(&v)
}

/// The search by name (percent-encoded): up to ten DayZ servers.
pub open spec fn name_search_url_spec(name: Seq<char>) -> Seq<char> {
    "https://api.battlemetrics.com/servers?filter[game]=dayz&filter[search]="@ + url_encode_spec(name)
        + "&page[size]=10"@
}

/// The search by name.
pub fn name_search_url(name: &str) -> (r: String)
    ensures
        r@ == name_search_url_spec(name@),
{
    let mut v = to_chars("https://api.battlemetrics.com/servers?filter[game]=dayz&filter[search]=");
    crate::text::push_str(&mut v, url_encode(name).as_str());
    crate::text::push_str(&mut v, "&page[size]=10");
    from_chars(&v)
}

/// The player counts of the last day at `now`, one point a minute.
pub open spec fn history_url_spec(id: Seq<char>, now: u64) -> Seq<char> {
    "https://api.battlemetrics.com/servers/"@ + id + "/player-count-history?start="@ + iso_text(
        (if now >= 86400 {
            now - 86400
        } else {
            0
        }) as nat,
    ) + "&stop="@ + iso_text(now as nat) + "&resolution=60"@
}

/// The request of a server's player counts of the last day.
pub fn history_url(id: &str, now: u64) -> (r: String)
    ensures
        r@ == history_url_spec(id@, now),
{
    let mut v = to_chars("https://api.battlemetrics.com/servers/");
    crate::text::push_str(&mut v, id);
    crate::text::push_str(&mut v, "/player-count-history?start=");
    crate::text::push_str(&mut v, chrono_or_fallback(now.saturating_sub(86400)).as_str());
    crate::text::push_str(&mut v, "&stop=");
    crate::text::push_str(&mut v, chrono_or_fallback(now).as_str());
    crate::text::push_str(&mut v, "&resolution=60");
    from_chars(&v)
}

/// What the server list's BattleMetrics lookup searches for: the IP and the
/// name, or the IP alone.
pub open spec fn lookup_search_spec(ip: Seq<char>, name: Option<Seq<char>>) -> Seq<char> {
    match name {
        Some(n) => ip + seq![' '] + n,
        None => ip,
    }
}

/// What the BattleMetrics lookup searches for.
pub fn lookup_search(ip: &str, name: Option<&str>) -> (r: String)
    ensures
        r@ == lookup_search_spec(
            ip@,
            match name {
                Some(n) => Some(n@),
                None => None,
            },
        ),
{
    let mut v = to_chars(ip);
    match name {
        Some(n) => {
            v.push(' ');
            crate::text::push_str(&mut v, n);
        },
        None => {},
    }
    from_chars(&v)
}

/// The query of the lookup: ten DayZ servers matching the search.
pub fn lookup_query(search: &str) -> (r: Vec<(String, String)>)
    ensures
        r@.map_values(|p: (String, String)| (p.0@, p.1@)) == seq![
            ("page[size]"@, "10"@),
            ("filter[game]"@, "dayz"@),
            ("filter[search]"@, search@),
        ],
{
    let mut r: Vec<(String, String)> = Vec::new();
    r.push((from_chars(&to_chars("page[size]")), from_chars(&to_chars("10"))));
    r.push((from_chars(&to_chars("filter[game]")), from_chars(&to_chars("dayz"))));
    r.push((from_chars(&to_chars("filter[search]")), from_chars(&to_chars(search))));
    assert(r@.map_values(|p: (String, String)| (p.0@, p.1@)) =~= seq![
        ("page[size]"@, "10"@),
        ("filter[game]"@, "dayz"@),
        ("filter[search]"@, search@),
    ]);
    r
}

/// The page of a BattleMetrics server.
pub fn server_page_url(id: &str) -> (r: String)
    ensures
        r@ == "https://www.battlemetrics.com/servers/dayz/"@ + id@,
{
    let mut v = to_chars("https://www.battlemetrics.com/servers/dayz/");
    crate::text::push_str(&mut v, id);
    from_chars(&v)
}

} // verus!
