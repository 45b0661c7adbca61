//! The public DayZ server list (dayzsalauncher.com) and lookups in it.

use vstd::prelude::*;
use crate::text::{first_where, lemma_first_where, lemma_first_where_none, lemma_first_where_some, str_eq, trim, trim_str, chars_eq};

verus! {

/// Query endpoint of a server.
#[derive(Default, Debug, Clone, PartialEq)]
pub struct Endpoint {
    pub ip: String,
    pub port: i64,
}

/// A workshop mod that a server requires.
#[derive(Default, Debug, Clone, PartialEq)]
pub struct Mod {
    pub name: String,
    pub steam_workshop_id: i64,
}

/// One server of the list.
#[derive(Default, Debug, Clone, PartialEq)]
pub struct Results {
    pub game_port: i64,
    pub sponsor: bool,
    pub profile: bool,
    pub endpoint: Endpoint,
    pub game: String,
    pub name: String,
    pub name_override: bool,
    pub map: String,
    pub folder: Option<String>,
    pub players: i64,
    pub max_players: i64,
    pub environment: String,
    pub password: bool,
    pub version: String,
    pub mission: String,
    pub vac: bool,
    pub battl_eye: Option<bool>,
    pub first_person_only: bool,
    pub shard: String,
    pub time_acceleration: Option<i64>,
    pub time: String,
    pub mods: Vec<Mod>,
    pub original_name: Option<String>,
}

/// A server of the list.
pub type Server = Results;

/// The list as the API returns it.
#[derive(Default, Debug, Clone, PartialEq)]
pub struct Root {
    pub status: i64,
    pub result: Vec<Results>,
}

/// The server list.
pub type ServerList = Root;

/// On-disk cache envelope for the server list.
#[derive(Debug, Clone)]
pub struct ServerListCache {
    /// Unix timestamp (seconds) when the list was fetched.
    pub fetched_at: u64,
    pub list: ServerList,
}

/// Workshop ids of a list of mods, each `i64` id taken as `u64`.
pub open spec fn mod_ids_of(mods: Seq<Mod>) -> Seq<u64> {
    mods.map_values(|m: Mod| m.steam_workshop_id as u64)
}

/// Workshop ids of a list of mods (`i64` ids taken as `u64`).
pub fn mod_ids_of_mods(mods: &Vec<Mod>) -> (r: Vec<u64>)
    ensures
        r@ == mod_ids_of(mods@),
{
    let mut r: Vec<u64> = Vec::new();
    let mut i: usize = 0;
    while i < mods.len()
        invariant
            i <= mods.len(),
            r@ == mod_ids_of(mods@.subrange(0, i as int)),
        decreases mods.len() - i,
    {
        r.push(mods[i].steam_workshop_id as u64);
        i = i + 1;
        assert(r@ =~= mod_ids_of(mods@.subrange(0, i as int)));
    }
    assert(mods@.subrange(0, mods@.len() as int) =~= mods@);
    r
}

impl Results {
    /// Workshop mod ids of this server as `u64`.
    pub fn mod_ids(&self) -> (r: Vec<u64>)
        ensures
            r@ == mod_ids_of(self.mods@),
    {
        mod_ids_of_mods(&self.mods)
    }
}

/// Current Unix time in seconds (`SystemTime::now` since the epoch; zero
/// before the epoch).  Nothing is promised of the value.
#[verifier::external_body]
pub(crate) fn unix_now_secs() -> u64 {
    std::time::SystemTime::now().duration_since(std::time::UNIX_EPOCH).map(|d| d.as_secs()).unwrap_or(0)
}

/// Whether a cache fetched at `fetched_at` is younger than `max_age_secs` at
/// time `now`.
pub open spec fn is_fresh_spec(fetched_at: u64, now: u64, max_age_secs: u64) -> bool {
    (if now >= fetched_at { now - fetched_at } else { 0 }) < max_age_secs
}

impl ServerListCache {
    /// Returns true if the cache was younger than `max_age_secs` at `now`.
    pub fn is_fresh_at(&self, now: u64, max_age_secs: u64) -> (r: bool)
        ensures
            r == is_fresh_spec(self.fetched_at, now, max_age_secs),
    {
        now.saturating_sub(self.fetched_at) < max_age_secs
    }

    /// Returns true if the cache is younger than `max_age_secs` now.  The
    /// clock is read once; the answer is `is_fresh_at` for that reading.
    pub fn is_fresh(&self, max_age_secs: u64) -> (r: bool)
        ensures
            max_age_secs == 0 ==> !r,
            exists|now: u64| r == is_fresh_spec(self.fetched_at, now, max_age_secs),
    {
        let now = unix_now_secs();
        let r = self.is_fresh_at(now, max_age_secs);
        assert(r == is_fresh_spec(self.fetched_at, now, max_age_secs));
        r
    }
}

/// The server answers queries on `ip:port`.
pub open spec fn at_query_port(s: Server, ip: Seq<char>, port: u16) -> bool {
    s.endpoint.ip@ == ip && s.endpoint.port as u16 == port
}

/// The server is joined on `ip:game_port`.
pub open spec fn at_game_port(s: Server, ip: Seq<char>, game_port: u16) -> bool {
    s.endpoint.ip@ == ip && s.game_port as u16 == game_port
}

/// Index of the first server of `l` at the given query endpoint.
pub open spec fn find_server_spec(l: ServerList, ip: Seq<char>, port: u16) -> Option<int> {
    first_where(l.result@.len() as int, |i: int| at_query_port(l.result@[i], ip, port))
}

/// Index of the first server of `l` at the given game endpoint.
pub open spec fn find_by_game_port_spec(l: ServerList, ip: Seq<char>, port: u16) -> Option<int> {
    first_where(l.result@.len() as int, |i: int| at_game_port(l.result@[i], ip, port))
}

/// Index found by the query port first, then by the game port.
pub open spec fn find_flexible_spec(l: ServerList, ip: Seq<char>, port: u16) -> Option<int> {
    match find_server_spec(l, ip, port) {
        Some(i) => Some(i),
        None => find_by_game_port_spec(l, ip, port),
    }
}

/// The flexible lookup finds the first server at the query port when
/// there is one, else the first at the game port; it finds a server at
/// that address whenever the list holds one, and nothing otherwise.
pub proof fn lemma_find_flexible(l: ServerList, ip: Seq<char>, port: u16)
    ensures
        find_flexible_spec(l, ip, port) matches Some(i) ==> 0 <= i < l.result@.len() && (at_query_port(
            l.result@[i],
            ip,
            port,
        ) || at_game_port(l.result@[i], ip, port)),
        find_flexible_spec(l, ip, port) is None <==> forall|j: int|
            0 <= j < l.result@.len() ==> !at_query_port(#[trigger] l.result@[j], ip, port) && !at_game_port(
                l.result@[j],
                ip,
                port,
            ),
{
    let n = l.result@.len() as int;
    let pq = |i: int| at_query_port(l.result@[i], ip, port);
    let pg = |i: int| at_game_port(l.result@[i], ip, port);
    if exists|j: int| 0 <= j < n && #[trigger] pq(j) {
        let k = lemma_first_where_some(n, pq);
        assert(find_server_spec(l, ip, port) == Some(k));
    } else if exists|j: int| 0 <= j < n && #[trigger] pg(j) {
        assert(find_server_spec(l, ip, port) is None);
        let k = lemma_first_where_some(n, pg);
        assert(find_by_game_port_spec(l, ip, port) == Some(k));
    } else {
        assert(find_server_spec(l, ip, port) is None);
        assert(find_by_game_port_spec(l, ip, port) is None);
        assert forall|j: int| 0 <= j < n implies !at_query_port(#[trigger] l.result@[j], ip, port) && !at_game_port(
            l.result@[j],
            ip,
            port,
        ) by {
            assert(!pq(j));
            assert(!pg(j));
        }
    }
}

/// The server at an optional index of the list.
pub open spec fn server_at(l: ServerList, i: Option<int>) -> Option<Server> {
    match i {
        Some(k) => Some(l.result@[k]),
        None => None,
    }
}

/// The servers of `l` whose trimmed ip is `ip` trimmed, in list order.
pub open spec fn servers_with_ip(s: Seq<Server>, ip: Seq<char>) -> Seq<Server>
    decreases s.len(),
{
    if s.len() == 0 {
        Seq::empty()
    } else {
        let p = servers_with_ip(s.drop_last(), ip);
        if trim(s.last().endpoint.ip@) == trim(ip) {
            p.push(s.last())
        } else {
            p
        }
    }
}

impl Root {
    fn index_by_query_port(&self, ip: &str, port: u16) -> (r: Option<usize>)
        ensures
            match r {
                Some(i) => find_server_spec(*self, ip@, port) == Some(i as int) && i
                    < self.result.len(),
                None => find_server_spec(*self, ip@, port) is None,
            },
    {
        let ghost p = |i: int| at_query_port(self.result@[i], ip@, port);
        let mut i: usize = 0;
        while i < self.result.len()
            invariant
                i <= self.result.len(),
                p == (|i: int| at_query_port(self.result@[i], ip@, port)),
                forall|j: int| 0 <= j < i ==> !#[trigger] p(j),
            decreases self.result.len() - i,
        {
            let s = &self.result[i];
            if str_eq(s.endpoint.ip.as_str(), ip) && s.endpoint.port as u16 == port {
                proof {
                    lemma_first_where(self.result@.len() as int, p, i as int);
                }
                return Some(i);
            }
            i = i + 1;
        }
        proof {
            lemma_first_where_none(self.result@.len() as int, p);
        }
        None
    }

    fn index_by_game_port(&self, ip: &str, game_port: u16) -> (r: Option<usize>)
        ensures
            match r {
                Some(i) => find_by_game_port_spec(*self, ip@, game_port) == Some(i as int) && i
                    < self.result.len(),
                None => find_by_game_port_spec(*self, ip@, game_port) is None,
            },
    {
        let ghost p = |i: int| at_game_port(self.result@[i], ip@, game_port);
        let mut i: usize = 0;
        while i < self.result.len()
            invariant
                i <= self.result.len(),
                p == (|i: int| at_game_port(self.result@[i], ip@, game_port)),
                forall|j: int| 0 <= j < i ==> !#[trigger] p(j),
            decreases self.result.len() - i,
        {
            let s = &self.result[i];
            if str_eq(s.endpoint.ip.as_str(), ip) && s.game_port as u16 == game_port {
                proof {
                    lemma_first_where(self.result@.len() as int, p, i as int);
                }
                return Some(i);
            }
            i = i + 1;
        }
        proof {
            lemma_first_where_none(self.result@.len() as int, p);
        }
        None
    }

    /// The first server whose query endpoint is `ip:port` (the `i64` port
    /// taken as `u16`).
    pub fn find_server(&self, ip: &str, port: u16) -> (r: Option<&Server>)
        ensures
            match r {
                Some(s) => server_at(*self, find_server_spec(*self, ip@, port)) == Some(*s),
                None => find_server_spec(*self, ip@, port) is None,
            },
    {
        match self.index_by_query_port(ip, port) {
            Some(i) => Some(&self.result[i]),
            None => None,
        }
    }

    /// The first server joined on `ip:game_port`.
    pub fn find_server_by_game_port(&self, ip: &str, game_port: u16) -> (r: Option<&Server>)
        ensures
            match r {
                Some(s) => server_at(*self, find_by_game_port_spec(*self, ip@, game_port)) == Some(
                    *s,
                ),
                None => find_by_game_port_spec(*self, ip@, game_port) is None,
            },
    {
        match self.index_by_game_port(ip, game_port) {
            Some(i) => Some(&self.result[i]),
            None => None,
        }
    }

    /// Find a server by IP, trying the endpoint (query) port first, then the
    /// game port.
    pub fn find_server_flexible(&self, ip: &str, port: u16) -> (r: Option<&Server>)
        ensures
            match r {
                Some(s) => server_at(*self, find_flexible_spec(*self, ip@, port)) == Some(*s),
                None => find_flexible_spec(*self, ip@, port) is None,
            },
    {
        match self.find_server(ip, port) {
            Some(s) => Some(s),
            None => self.find_server_by_game_port(ip, port),
        }
    }

    /// All servers whose (trimmed) address is `ip` (trimmed), in list order.
    pub fn find_servers_by_ip(&self, ip: &str) -> (r: Vec<&Server>)
        ensures
            r@.map_values(|s: &Server| *s) == servers_with_ip(self.result@, ip@),
    {
        let want = trim_str(ip);
        let mut r: Vec<&Server> = Vec::new();
        let mut i: usize = 0;
        while i < self.result.len()
            invariant
                i <= self.result.len(),
                want@ == trim(ip@),
                r@.map_values(|s: &Server| *s) == servers_with_ip(
                    self.result@.subrange(0, i as int),
                    ip@,
                ),
            decreases self.result.len() - i,
        {
            let s = &self.result[i];
            let t = trim_str(s.endpoint.ip.as_str());
            proof {
                assert(self.result@.subrange(0, i + 1).drop_last() =~= self.result@.subrange(
                    0,
                    i as int,
                ));
            }
            if chars_eq(&t, &want) {
                r.push(s);
            }
            i = i + 1;
            assert(r@.map_values(|s: &Server| *s) =~= servers_with_ip(
                self.result@.subrange(0, i as int),
                ip@,
            ));
        }
        assert(self.result@.subrange(0, self.result@.len() as int) =~= self.result@);
        r
    }

    /// Total number of servers.
    pub fn count(&self) -> (r: usize)
        ensures
            r == self.result@.len(),
    {
        self.result.len()
    }
}

} // verus!
