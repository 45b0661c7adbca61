//! Steam A2S server queries: what the answers are turned into.
//!
//! The queries are sent by the application, which hands the answers over as
//! plain values.

use vstd::prelude::*;
use crate::api::Server;
use crate::text::{
    dec, dec_int, from_chars, i64_to_dec, join, join_chars, push_all, push_str, str_eq,
    string_views, to_chars, u64_to_dec, views,
};

verus! {

/// Ping reported when every attempt failed; shown as a timeout.
pub const PING_TIMEOUT_SENTINEL: u32 = 9999;

/// A round-trip time given in nanoseconds, in whole milliseconds (taken as
/// a `u32`), at least 1 for a non-zero time: sub-millisecond pings do not
/// show as 0.
pub open spec fn ms_floor1_spec(nanos: u128) -> u32 {
    let ms = (nanos / 1_000_000) as u32;
    if ms == 0 && nanos > 0 {
        1
    } else {
        ms
    }
}

/// Converts a duration given in nanoseconds (`Duration::as_nanos`) to
/// milliseconds, at least 1 for a non-zero duration.
pub fn duration_to_ms_floor1(nanos: u128) -> (r: u32)
    ensures
        r == ms_floor1_spec(nanos),
        nanos > 0 ==> r >= 1,
        1_000_000 <= nanos && nanos / 1_000_000 <= u32::MAX ==> r == nanos / 1_000_000,
{
    let millis = nanos / 1_000_000;
    let ms = millis as u32;
    if ms == 0 && nanos > 0 {
        1
    } else {
        assert(nanos > 0 ==> ms >= 1) by {
            if nanos > 0 && ms == 0 {
                assert(false);
            }
        }
        ms
    }
}

/// The query address of a server: `ip:port`, the port taken as `u16`.
pub fn a2s_address(server: &Server) -> (r: String)
    ensures
        r@ == server.endpoint.ip@ + seq![':'] + dec((server.endpoint.port as u16) as nat),
{
    let mut v = to_chars(server.endpoint.ip.as_str());
    v.push(':');
    push_all(&mut v, &u64_to_dec((server.endpoint.port as u16) as u64));
    from_chars(&v)
}

/// A server rule of the A2S rules answer.
#[derive(Debug)]
pub struct A2sRule {
    pub name: String,
    pub value: String,
}

/// A player of the A2S players answer.
#[derive(Debug)]
pub struct A2sPlayer {
    pub name: String,
    pub score: i32,
}

/// The parts of the A2S info answer that are shown.
#[derive(Debug)]
pub struct A2sInfo {
    pub name: String,
    pub map: String,
    pub game: String,
    pub players: u8,
    pub max_players: u8,
    pub version: String,
}

/// The values of the rules named `mod`, in order.
pub open spec fn mods_of_rules(rules: Seq<A2sRule>) -> Seq<Seq<char>>
    decreases rules.len(),
{
    if rules.len() == 0 {
        Seq::empty()
    } else {
        let p = mods_of_rules(rules.drop_last());
        if rules.last().name@ == "mod"@ {
            p.push(rules.last().value@)
        } else {
            p
        }
    }
}

/// The mod list of an A2S rules answer: DayZ servers list each mod as a
/// rule named `mod` whose value is the mod's name.
pub fn extract_mods_from_rules(rules: &[A2sRule]) -> (r: Vec<String>)
    ensures
        string_views(r@) == mods_of_rules(rules@),
{
    let mut out: Vec<String> = Vec::new();
    let mut i: usize = 0;
    while i < rules.len()
        invariant
            i <= rules.len(),
            string_views(out@) == mods_of_rules(rules@.subrange(0, i as int)),
        decreases rules.len() - i,
    {
        proof {
            assert(rules@.subrange(0, i + 1).drop_last() =~= rules@.subrange(0, i as int));
        }
        if str_eq(rules[i].name.as_str(), "mod") {
            let ghost before = out@;
            let s = from_chars(&to_chars(rules[i].value.as_str()));
            out.push(s);
            assert(string_views(out@) =~= string_views(before).push(s@));
        }
        i = i + 1;
    }
    assert(rules@.subrange(0, rules@.len() as int) =~= rules@);
    out
}

/// Everything the A2S queries told about a server.
#[derive(Debug)]
pub struct ServerDetails {
    pub info: A2sInfo,
    pub players: Option<Vec<A2sPlayer>>,
    pub rules: Option<Vec<A2sRule>>,
    pub ping_ms: Option<u32>,
    /// Mod names from the rules answer; empty when it failed.
    pub mods_from_rules: Vec<String>,
}

/// The details of a server from the info answer, its latency and the
/// players and rules answers (`None` where a query failed).
pub fn server_details(info: A2sInfo, latency_ms: u32, players: Option<Vec<A2sPlayer>>, rules: Option<Vec<A2sRule>>) -> (r: ServerDetails)
    ensures
        r.info == info,
        r.players == players,
        r.rules == rules,
        r.ping_ms == Some(latency_ms),
        string_views(r.mods_from_rules@) == match rules {
            Some(v) => mods_of_rules(v@),
            None => Seq::empty(),
        },
{
    let mods_from_rules = match &rules {
        Some(v) => extract_mods_from_rules(v.as_slice()),
        None => {
            let e: Vec<String> = Vec::new();
            assert(string_views(e@) =~= Seq::<Seq<char>>::empty());
            e
        },
    };
    ServerDetails { info, players, rules, ping_ms: Some(latency_ms), mods_from_rules }
}

/// The player lines: `  <name> (<score> score)`.
pub open spec fn player_lines(players: Seq<A2sPlayer>) -> Seq<Seq<char>> {
    players.map_values(
        |p: A2sPlayer| "  "@ + p.name@ + " ("@ + dec_int(p.score as int) + " score)"@,
    )
}

/// The rule lines: `  <name> = <value>`.
pub open spec fn rule_lines(rules: Seq<A2sRule>) -> Seq<Seq<char>> {
    rules.map_values(|r: A2sRule| "  "@ + r.name@ + " = "@ + r.value@)
}

/// The lines of the text form of server details.
pub open spec fn detail_lines(d: ServerDetails) -> Seq<Seq<char>> {
    let head = seq![
        "Server: "@ + d.info.name@,
        "Map: "@ + d.info.map@,
        "Game: "@ + d.info.game@,
        "Players: "@ + dec(d.info.players as nat) + seq!['/'] + dec(d.info.max_players as nat),
        "Version: "@ + d.info.version@,
    ];
    let with_players = match d.players {
        Some(ps) => if ps@.len() > 0 {
            head + seq!["Online players:"@] + player_lines(ps@)
        } else {
            head
        },
        None => head,
    };
    match d.rules {
        Some(rs) => with_players + seq!["Rules:"@] + rule_lines(rs@),
        None => with_players,
    }
}

fn labelled(label: &str, value: &str) -> (r: Vec<char>)
    ensures
        r@ == label@ + value@,
{
    let mut v = to_chars(label);
    push_str(&mut v, value);
    v
}

impl ServerDetails {
    /// The details as text for display, one item per line.
    pub fn format(&self) -> (r: String)
        ensures
            r@ == join(detail_lines(*self), '\n'),
    {
        let mut lines: Vec<Vec<char>> = Vec::new();
        lines.push(labelled("Server: ", self.info.name.as_str()));
        lines.push(labelled("Map: ", self.info.map.as_str()));
        lines.push(labelled("Game: ", self.info.game.as_str()));
        let mut p = to_chars("Players: ");
        push_all(&mut p, &u64_to_dec(self.info.players as u64));
        p.push('/');
        push_all(&mut p, &u64_to_dec(self.info.max_players as u64));
        assert(p@ =~= "Players: "@ + dec(self.info.players as nat) + seq!['/'] + dec(
            self.info.max_players as nat,
        ));
        lines.push(p);
        lines.push(labelled("Version: ", self.info.version.as_str()));
        let ghost head = views(lines@);
        assert(head =~= seq![
            "Server: "@ + self.info.name@,
            "Map: "@ + self.info.map@,
            "Game: "@ + self.info.game@,
            "Players: "@ + dec(self.info.players as nat) + seq!['/'] + dec(self.info.max_players as nat),
            "Version: "@ + self.info.version@,
        ]);
        match &self.players {
            Some(players) => {
                if players.len() > 0 {
                    let ghost before = lines@;
                    let t = to_chars("Online players:");
                    lines.push(t);
                    let ghost base = views(lines@);
                    assert(base =~= head + seq!["Online players:"@]);
                    let mut i: usize = 0;
                    while i < players.len()
                        invariant
                            i <= players.len(),
                            views(lines@) == base + player_lines(players@.subrange(0, i as int)),
                        decreases players.len() - i,
                    {
                        let ghost before = lines@;
                        let mut l = to_chars("  ");
                        push_str(&mut l, players[i].name.as_str());
                        push_str(&mut l, " (");
                        push_all(&mut l, &i64_to_dec(players[i].score as i64));
                        push_str(&mut l, " score)");
                        lines.push(l);
                        proof {
                            assert(views(before.push(l)) =~= views(before).push(l@));
                            assert(player_lines(players@.subrange(0, i + 1)) =~= player_lines(
                                players@.subrange(0, i as int),
                            ).push(
                                "  "@ + players@[i as int].name@ + " ("@ + dec_int(
                                    players@[i as int].score as int,
                                ) + " score)"@,
                            ));
                        }
                        i = i + 1;
                    }
                    assert(players@.subrange(0, players@.len() as int) =~= players@);
                    assert(views(lines@) =~= head + seq!["Online players:"@] + player_lines(players@));
                }
            },
            None => {},
        }
        let ghost mid = views(lines@);
        match &self.rules {
            Some(rules) => {
                let t = to_chars("Rules:");
                lines.push(t);
                let ghost base = views(lines@);
                assert(base =~= mid + seq!["Rules:"@]);
                let mut i: usize = 0;
                while i < rules.len()
                    invariant
                        i <= rules.len(),
                        views(lines@) == base + rule_lines(rules@.subrange(0, i as int)),
                    decreases rules.len() - i,
                {
                    let ghost before = lines@;
                    let mut l = to_chars("  ");
                    push_str(&mut l, rules[i].name.as_str());
                    push_str(&mut l, " = ");
                    push_str(&mut l, rules[i].value.as_str());
                    lines.push(l);
                    proof {
                        assert(views(before.push(l)) =~= views(before).push(l@));
                        assert(rule_lines(rules@.subrange(0, i + 1)) =~= rule_lines(
                            rules@.subrange(0, i as int),
                        ).push("  "@ + rules@[i as int].name@ + " = "@ + rules@[i as int].value@));
                    }
                    i = i + 1;
                }
                assert(rules@.subrange(0, rules@.len() as int) =~= rules@);
                assert(views(lines@) =~= mid + seq!["Rules:"@] + rule_lines(rules@));
            },
            None => {},
        }
        assert(views(lines@) =~= detail_lines(*self));
        from_chars(&join_chars(&lines, '\n'))
    }
}

} // verus!
