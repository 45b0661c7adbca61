//! Direct Connect: which server an address names and what the interface
//! asks before connecting to it.

use vstd::prelude::*;
use crate::api::{Endpoint, Mod, Server};
use crate::error::{error_message, Error};
use crate::tui::{ConfirmAction, DirectConnectField, Popup};
use crate::text::{
    dec, dec_int, first_index, first_index_of, from_chars, i64_to_dec, join, join_chars,
    parse_u16, parse_unsigned, push_all, push_str, slice_chars, to_chars, trim, trim_str, u64_to_dec,
    views,
};

verus! {

/// The game port used when none is given.
pub const DEFAULT_DIRECT_PORT: u16 = 2302;

/// What the Direct Connect form resolves to.
#[derive(Debug)]
pub struct DirectTarget {
    pub ip: String,
    /// The port text; with `fields_updated` the form shows it and `ip`.
    pub port_text: String,
    pub port: u16,
    /// The address held an `ip:port`, which was split into both fields.
    pub fields_updated: bool,
}

/// Where the address field holds `ip:port` with a valid port: the position
/// of its first `:`.
pub open spec fn split_at(ip: Seq<char>) -> Option<int> {
    match first_index_of(ip, ':') {
        Some(i) => if parse_unsigned(ip.subrange(i + 1, ip.len() as int), 10, 65535) is Some {
            Some(i)
        } else {
            None
        },
        None => None,
    }
}

/// The target of the form: the trimmed address and port, an `ip:port` in
/// the address taking precedence; a port that does not read as `u16` is
/// 2302.
pub open spec fn direct_target_spec(address: Seq<char>, port_text: Seq<char>) -> (Seq<char>, Seq<char>, u16, bool) {
    let ip = trim(address);
    let (host, pt) = match split_at(ip) {
        Some(i) => (ip.subrange(0, i), ip.subrange(i + 1, ip.len() as int)),
        None => (ip, trim(port_text)),
    };
    let port = match parse_unsigned(pt, 10, 65535) {
        Some(p) => p as u16,
        None => DEFAULT_DIRECT_PORT,
    };
    (host, pt, port, split_at(ip) is Some)
}

/// Resolves the address and port fields of the form.
pub fn resolve_direct_target(address: &str, port_text: &str) -> (r: DirectTarget)
    ensures
        (r.ip@, r.port_text@, r.port, r.fields_updated) == direct_target_spec(address@, port_text@),
{
    let ip = trim_str(address);
    let mut host = slice_chars(&ip, 0, ip.len());
    let mut pt = trim_str(port_text);
    let mut split = false;
    proof {
        assert(ip@.subrange(0, ip@.len() as int) =~= ip@);
    }
    match first_index(&ip, ':') {
        Some(i) => {
            let after = slice_chars(&ip, i + 1, ip.len());
            if parse_u16(&after).is_some() {
                host = slice_chars(&ip, 0, i);
                pt = after;
                split = true;
            }
        },
        None => {},
    }
    let port = match parse_u16(&pt) {
        Some(p) => p,
        None => DEFAULT_DIRECT_PORT,
    };
    DirectTarget { ip: from_chars(&host), port_text: from_chars(&pt), port, fields_updated: split }
}

/// A server of the list is on the IP (both trimmed).
pub open spec fn on_ip(s: Server, ip: Seq<char>) -> bool {
    trim(s.endpoint.ip@) == trim(ip)
}

/// A server of the list answers on the port: its query port or game port,
/// each taken as `u16`.
pub open spec fn on_port(s: Server, port: u16) -> bool {
    s.endpoint.port as u16 == port || s.game_port as u16 == port
}

/// The first server on the IP and port.
pub open spec fn first_on(servers: Seq<Server>, ip: Seq<char>, port: Option<u16>) -> Option<int>
    decreases servers.len(),
{
    if servers.len() == 0 {
        None
    } else {
        match first_on(servers.drop_last(), ip, port) {
            Some(i) => Some(i),
            None => {
                let s = servers.last();
                if on_ip(s, ip) && match port {
                    Some(p) => on_port(s, p),
                    None => true,
                } {
                    Some(servers.len() - 1)
                } else {
                    None
                }
            },
        }
    }
}

/// The server that Direct Connect uses: the first on the IP and port, else
/// the first on the IP (whose game port is then taken to be `port`, told by
/// `true`).
pub open spec fn direct_server_spec(servers: Seq<Server>, ip: Seq<char>, port: u16) -> Option<(int, bool)> {
    match first_on(servers, ip, Some(port)) {
        Some(i) => Some((i, false)),
        None => match first_on(servers, ip, None) {
            Some(i) => Some((i, true)),
            None => None,
        },
    }
}

proof fn lemma_first_on_prefix(servers: Seq<Server>, ip: Seq<char>, port: Option<u16>, k: int)
    requires
        0 <= k < servers.len(),
        first_on(servers.subrange(0, k), ip, port) is None,
    ensures
        first_on(servers.subrange(0, k + 1), ip, port) == if on_ip(servers[k], ip) && match port {
            Some(p) => on_port(servers[k], p),
            None => true,
        } {
            Some(k)
        } else {
            None::<int>
        },
{
    assert(servers.subrange(0, k + 1).drop_last() =~= servers.subrange(0, k));
}

proof fn lemma_first_on_bound(servers: Seq<Server>, ip: Seq<char>, port: Option<u16>)
    ensures
        first_on(servers, ip, port) matches Some(i) ==> 0 <= i < servers.len(),
    decreases servers.len(),
{
    if servers.len() > 0 {
        lemma_first_on_bound(servers.drop_last(), ip, port);
    }
}

proof fn lemma_first_on_extend(servers: Seq<Server>, ip: Seq<char>, port: Option<u16>, k: int)
    requires
        0 <= k <= servers.len(),
        first_on(servers.subrange(0, k), ip, port) is Some,
    ensures
        first_on(servers, ip, port) == first_on(servers.subrange(0, k), ip, port),
    decreases servers.len() - k,
{
    if k < servers.len() {
        assert(servers.drop_last().subrange(0, k) =~= servers.subrange(0, k));
        lemma_first_on_extend(servers.drop_last(), ip, port, k);
    } else {
        assert(servers.subrange(0, k) =~= servers);
    }
}

fn find_first_on(servers: &Vec<Server>, ip: &str, port: Option<u16>) -> (r: Option<usize>)
    ensures
        match first_on(servers@, ip@, port) {
            Some(i) => r == Some(i as usize),
            None => r is None,
        },
{
    let want = trim_str(ip);
    let mut i: usize = 0;
    proof {
        assert(servers@.subrange(0, 0) =~= Seq::<Server>::empty());
    }
    while i < servers.len()
        invariant
            i <= servers@.len(),
            want@ == trim(ip@),
            first_on(servers@.subrange(0, i as int), ip@, port) is None,
        decreases servers.len() - i,
    {
        let s = &servers[i];
        proof {
            lemma_first_on_prefix(servers@, ip@, port, i as int);
        }
        let here = crate::text::chars_eq(&trim_str(s.endpoint.ip.as_str()), &want);
        let port_ok = match port {
            Some(p) => (s.endpoint.port as u16) == p || (s.game_port as u16) == p,
            None => true,
        };
        if here && port_ok {
            proof {
                lemma_first_on_extend(servers@, ip@, port, i as int + 1);
            }
            return Some(i);
        }
        i = i + 1;
    }
    assert(servers@.subrange(0, servers@.len() as int) =~= servers@);
    None
}

/// Finds the server that Direct Connect uses.
pub fn find_direct_server(servers: &Vec<Server>, ip: &str, port: u16) -> (r: Option<(usize, bool)>)
    ensures
        match direct_server_spec(servers@, ip@, port) {
            Some((i, moved)) => r == Some((i as usize, moved)) && i < servers@.len(),
            None => r is None,
        },
{
    proof {
        lemma_first_on_bound(servers@, ip@, Some(port));
        lemma_first_on_bound(servers@, ip@, None);
    }
    match find_first_on(servers, ip, Some(port)) {
        Some(i) => Some((i, false)),
        None => match find_first_on(servers, ip, None) {
            Some(i) => Some((i, true)),
            None => None,
        },
    }
}

// ------------------------------------------------------------ what is asked

/// What the confirmation asks to do.
#[derive(Debug, PartialEq, Eq)]
pub enum DirectAction {
    /// Install these mods first.
    InstallMods(Vec<u64>),
    /// Offer to update the server's mods, then launch.
    UpdateThenLaunch,
    /// Connect straight away.
    LaunchDirect,
}

/// The status message and the confirmation that Direct Connect shows.
#[derive(Debug)]
pub struct DirectPlan {
    pub status: String,
    /// The status is a warning (else information).
    pub warn: bool,
    pub title: String,
    pub message: String,
    pub action: DirectAction,
}

/// The first mod of the list with the workshop id (taken as `u64`).
pub open spec fn first_mod_with_id(mods: Seq<Mod>, id: u64) -> Option<int>
    decreases mods.len(),
{
    if mods.len() == 0 {
        None
    } else {
        match first_mod_with_id(mods.drop_last(), id) {
            Some(j) => Some(j),
            None => if mods.last().steam_workshop_id as u64 == id {
                Some(mods.len() - 1)
            } else {
                None
            },
        }
    }
}

/// How a missing mod is listed: `  <name> (<id>)`, or `  <id>` when the
/// server does not name it.
pub open spec fn missing_line(mods: Seq<Mod>, id: u64) -> Seq<char> {
    match first_mod_with_id(mods, id) {
        Some(j) => "  "@ + mods[j].name@ + " ("@ + dec(id as nat) + seq![')'],
        None => "  "@ + dec(id as nat),
    }
}

/// The listed missing mods: the first ten.
pub open spec fn missing_lines(mods: Seq<Mod>, ids: Seq<u64>) -> Seq<Seq<char>>
    decreases ids.len(),
{
    if ids.len() == 0 {
        Seq::empty()
    } else {
        missing_lines(mods, ids.drop_last()).push(missing_line(mods, ids.last()))
    }
}

/// The first ten of the ids.
pub open spec fn first_ten(ids: Seq<u64>) -> Seq<u64> {
    if ids.len() > 10 {
        ids.subrange(0, 10)
    } else {
        ids
    }
}

/// What Direct Connect shows for a server of the list, given the result of
/// checking which of its mods are missing.
pub open spec fn found_plan_spec(s: Server, missing: Result<Vec<u64>, Error>) -> (Seq<char>, bool, Seq<char>, Seq<char>, Option<Seq<u64>>, bool) {
    let found = "Found: "@ + s.name@ + " ("@ + s.endpoint.ip@ + seq![':'] + dec_int(s.game_port as int)
        + seq![')'];
    match missing {
        Ok(ids) => if ids@.len() > 0 {
            (
                found,
                false,
                "Missing "@ + dec(ids@.len()) + " Mods"@,
                "Server: "@ + s.name@ + "\nInstall missing mods?\n"@ + join(
                    missing_lines(s.mods@, first_ten(ids@)),
                    '\n',
                ) + if ids@.len() > 10 {
                    "\n  ...and "@ + dec((ids@.len() - 10) as nat) + " more"@
                } else {
                    Seq::empty()
                },
                Some(ids@),
                false,
            )
        } else if s.mods@.len() > 0 {
            (
                found,
                false,
                "Update mods?"@,
                "Server: "@ + s.name@ + seq!['\n'] + dec(s.mods@.len()) + " mods installed. Update before launching?"@,
                None,
                true,
            )
        } else {
            (found, false, "Launch"@, "Connect to "@ + s.name@ + seq!['?'], None, false)
        },
        Err(e) => (
            "Could not check mods: "@ + error_message(e),
            true,
            "Launch anyway?"@,
            "Could not check mods.\nConnect to "@ + s.name@ + " anyway?"@,
            None,
            false,
        ),
    }
}

/// A plan as values: status, warning, title, message, mods to install,
/// update offered.
pub open spec fn plan_view(p: DirectPlan) -> (Seq<char>, bool, Seq<char>, Seq<char>, Option<Seq<u64>>, bool) {
    (
        p.status@,
        p.warn,
        p.title@,
        p.message@,
        match p.action {
            DirectAction::InstallMods(v) => Some(v@),
            _ => None,
        },
        p.action is UpdateThenLaunch,
    )
}

fn find_mod(mods: &Vec<Mod>, id: u64) -> (r: Option<usize>)
    ensures
        match r {
            Some(j) => first_mod_with_id(mods@, id) == Some(j as int) && j < mods@.len(),
            None => first_mod_with_id(mods@, id) is None,
        },
{
    let mut j: usize = 0;
    while j < mods.len()
        invariant
            j <= mods@.len(),
            first_mod_with_id(mods@.subrange(0, j as int), id) is None,
        decreases mods.len() - j,
    {
        proof {
            assert(mods@.subrange(0, j + 1).drop_last() =~= mods@.subrange(0, j as int));
        }
        if mods[j].steam_workshop_id as u64 == id {
            proof {
                lemma_mod_extend(mods@, id, j as int + 1);
            }
            return Some(j);
        }
        j = j + 1;
    }
    assert(mods@.subrange(0, mods@.len() as int) =~= mods@);
    None
}

proof fn lemma_mod_extend(mods: Seq<Mod>, id: u64, k: int)
    requires
        0 <= k <= mods.len(),
        first_mod_with_id(mods.subrange(0, k), id) matches Some(j) && 0 <= j < k,
    ensures
        first_mod_with_id(mods, id) == first_mod_with_id(mods.subrange(0, k), id),
    decreases mods.len() - k,
{
    if k < mods.len() {
        assert(mods.drop_last().subrange(0, k) =~= mods.subrange(0, k));
        lemma_mod_extend(mods.drop_last(), id, k);
    } else {
        assert(mods.subrange(0, k) =~= mods);
    }
}

fn missing_list(mods: &Vec<Mod>, ids: &Vec<u64>) -> (r: Vec<char>)
    ensures
        r@ == join(missing_lines(mods@, first_ten(ids@)), '\n'),
{
    let n: usize = if ids.len() > 10 {
        10
    } else {
        ids.len()
    };
    let ghost shown = first_ten(ids@);
    assert(shown.len() == n);
    let mut parts: Vec<Vec<char>> = Vec::new();
    let mut i: usize = 0;
    while i < n
        invariant
            i <= n,
            n <= ids@.len(),
            shown == first_ten(ids@),
            shown.len() == n,
            forall|k: int| 0 <= k < n ==> #[trigger] shown[k] == ids@[k],
            views(parts@) == missing_lines(mods@, shown.subrange(0, i as int)),
        decreases n - i,
    {
        proof {
            assert(shown.subrange(0, i + 1).drop_last() =~= shown.subrange(0, i as int));
        }
        let id = ids[i];
        let mut line = to_chars("  ");
        match find_mod(mods, id) {
            Some(j) => {
                push_str(&mut line, mods[j].name.as_str());
                push_str(&mut line, " (");
                push_all(&mut line, &u64_to_dec(id));
                line.push(')');
                assert(line@ =~= missing_line(mods@, id));
            },
            None => {
                push_all(&mut line, &u64_to_dec(id));
                assert(line@ =~= missing_line(mods@, id));
            },
        }
        assert(shown[i as int] == id);
        let ghost before = views(parts@);
        parts.push(line);
        assert(views(parts@) =~= before.push(missing_line(mods@, id)));
        i = i + 1;
    }
    assert(shown.subrange(0, n as int) =~= shown);
    join_chars(&parts, '\n')
}

/// What Direct Connect shows for a server of the list, given the result of
/// checking which of its mods are missing.
pub fn found_plan(s: &Server, missing: Result<Vec<u64>, Error>) -> (r: DirectPlan)
    ensures
        plan_view(r) == found_plan_spec(*s, missing),
        match missing {
            Ok(ids) => ids@.len() > 0 ==> r.action == DirectAction::InstallMods(ids),
            Err(_) => r.action == DirectAction::LaunchDirect,
        },
{
    let mut found = to_chars("Found: ");
    push_str(&mut found, s.name.as_str());
    push_str(&mut found, " (");
    push_str(&mut found, s.endpoint.ip.as_str());
    found.push(':');
    push_all(&mut found, &i64_to_dec(s.game_port));
    found.push(')');
    match missing {
        Ok(ids) => {
            if ids.len() > 0 {
                let mut title = to_chars("Missing ");
                push_all(&mut title, &u64_to_dec(ids.len() as u64));
                push_str(&mut title, " Mods");
                let mut msg = to_chars("Server: ");
                push_str(&mut msg, s.name.as_str());
                push_str(&mut msg, "\nInstall missing mods?\n");
                push_all(&mut msg, &missing_list(&s.mods, &ids));
                if ids.len() > 10 {
                    push_str(&mut msg, "\n  ...and ");
                    push_all(&mut msg, &u64_to_dec((ids.len() - 10) as u64));
                    push_str(&mut msg, " more");
                }
                DirectPlan {
                    status: from_chars(&found),
                    warn: false,
                    title: from_chars(&title),
                    message: from_chars(&msg),
                    action: DirectAction::InstallMods(ids),
                }
            } else if s.mods.len() > 0 {
                let mut msg = to_chars("Server: ");
                push_str(&mut msg, s.name.as_str());
                msg.push('\n');
                push_all(&mut msg, &u64_to_dec(s.mods.len() as u64));
                push_str(&mut msg, " mods installed. Update before launching?");
                DirectPlan {
                    status: from_chars(&found),
                    warn: false,
                    title: from_chars(&to_chars("Update mods?")),
                    message: from_chars(&msg),
                    action: DirectAction::UpdateThenLaunch,
                }
            } else {
                let mut msg = to_chars("Connect to ");
                push_str(&mut msg, s.name.as_str());
                msg.push('?');
                DirectPlan {
                    status: from_chars(&found),
                    warn: false,
                    title: from_chars(&to_chars("Launch")),
                    message: from_chars(&msg),
                    action: DirectAction::LaunchDirect,
                }
            }
        },
        Err(e) => {
            let mut st = to_chars("Could not check mods: ");
            push_str(&mut st, e.message().as_str());
            let mut msg = to_chars("Could not check mods.\nConnect to ");
            push_str(&mut msg, s.name.as_str());
            push_str(&mut msg, " anyway?");
            DirectPlan {
                status: from_chars(&st),
                warn: true,
                title: from_chars(&to_chars("Launch anyway?")),
                message: from_chars(&msg),
                action: DirectAction::LaunchDirect,
            }
        },
    }
}

/// What Direct Connect shows for an address that is not in the list.
pub open spec fn not_found_plan_spec(ip: Seq<char>, port: u16) -> (Seq<char>, bool, Seq<char>, Seq<char>, Option<Seq<u64>>, bool) {
    let addr = ip + seq![':'] + dec(port as nat);
    (
        "Not found in server list: "@ + addr,
        true,
        "Server not in list"@,
        addr + " not found in server list.\nMod info unavailable.\nConnect anyway?"@,
        None,
        false,
    )
}

/// What Direct Connect shows for an address that is not in the list.
pub fn not_found_plan(ip: &str, port: u16) -> (r: DirectPlan)
    ensures
        plan_view(r) == not_found_plan_spec(ip@, port),
        r.action == DirectAction::LaunchDirect,
{
    let mut addr = to_chars(ip);
    addr.push(':');
    push_all(&mut addr, &u64_to_dec(port as u64));
    let mut st = to_chars("Not found in server list: ");
    push_all(&mut st, &addr);
    let mut msg = addr;
    push_str(&mut msg, " not found in server list.\nMod info unavailable.\nConnect anyway?");
    DirectPlan {
        status: from_chars(&st),
        warn: true,
        title: from_chars(&to_chars("Server not in list")),
        message: from_chars(&msg),
        action: DirectAction::LaunchDirect,
    }
}

/// The stand-in for an address that is not in the list: named `ip:port`,
/// reached on `port`, with no mods.
pub fn placeholder_server(ip: &str, port: u16) -> (r: Server)
    ensures
        r.endpoint.ip@ == ip@,
        r.endpoint.port == port as i64,
        r.game_port == port as i64,
        r.name@ == ip@ + seq![':'] + dec(port as nat),
        r.mods@.len() == 0,
{
    let mut name = to_chars(ip);
    name.push(':');
    push_all(&mut name, &u64_to_dec(port as u64));
    let e = || -> (r: String)
        ensures
            r@.len() == 0,
    {
        from_chars(&Vec::new())
    };
    Server {
        game_port: port as i64,
        sponsor: false,
        profile: false,
        endpoint: Endpoint { ip: from_chars(&to_chars(ip)), port: port as i64 },
        game: e(),
        name: from_chars(&name),
        name_override: false,
        map: e(),
        folder: None,
        players: 0,
        max_players: 0,
        environment: e(),
        password: false,
        version: e(),
        mission: e(),
        vac: false,
        battl_eye: None,
        first_person_only: false,
        shard: e(),
        time_acceleration: None,
        time: e(),
        mods: Vec::new(),
        original_name: None,
    }
}

// ------------------------------------------------------------ form editing

/// The text fields of the Direct Connect form.
#[derive(Debug)]
pub struct DirectForm {
    pub address: String,
    pub port: String,
    pub password: String,
}

fn pushed(s: &String, c: char) -> (r: String)
    ensures
        r@ == s@.push(c),
{
    let mut v = to_chars(s.as_str());
    v.push(c);
    from_chars(&v)
}

fn popped(s: &String) -> (r: String)
    ensures
        r@ == if s@.len() > 0 { s@.drop_last() } else { s@ },
{
    let mut v = to_chars(s.as_str());
    if v.len() > 0 {
        v.pop();
    }
    from_chars(&v)
}

/// Typing `key` on the form: the address and the password take any
/// character, the port only ASCII digits; the buttons take none.
pub fn direct_input(form: &mut DirectForm, field: DirectConnectField, key: char)
    ensures
        final(form).address@ == if field == DirectConnectField::Address {
            old(form).address@.push(key)
        } else {
            old(form).address@
        },
        final(form).port@ == if field == DirectConnectField::Port && '0' <= key <= '9' {
            old(form).port@.push(key)
        } else {
            old(form).port@
        },
        final(form).password@ == if field == DirectConnectField::Password {
            old(form).password@.push(key)
        } else {
            old(form).password@
        },
{
    match field {
        DirectConnectField::Address => {
            form.address = pushed(&form.address, key);
        },
        DirectConnectField::Port => {
            if '0' <= key && key <= '9' {
                form.port = pushed(&form.port, key);
            }
        },
        DirectConnectField::Password => {
            form.password = pushed(&form.password, key);
        },
        DirectConnectField::ServerInfo | DirectConnectField::Connect => {},
    }
}

/// Backspace on the form: the focused text field loses its last character.
pub fn direct_backspace(form: &mut DirectForm, field: DirectConnectField)
    ensures
        final(form).address@ == if field == DirectConnectField::Address && old(form).address@.len() > 0 {
            old(form).address@.drop_last()
        } else {
            old(form).address@
        },
        final(form).port@ == if field == DirectConnectField::Port && old(form).port@.len() > 0 {
            old(form).port@.drop_last()
        } else {
            old(form).port@
        },
        final(form).password@ == if field == DirectConnectField::Password && old(form).password@.len() > 0 {
            old(form).password@.drop_last()
        } else {
            old(form).password@
        },
{
    match field {
        DirectConnectField::Address => {
            form.address = popped(&form.address);
        },
        DirectConnectField::Port => {
            form.port = popped(&form.port);
        },
        DirectConnectField::Password => {
            form.password = popped(&form.password);
        },
        DirectConnectField::ServerInfo | DirectConnectField::Connect => {},
    }
}

// ------------------------------------------------------------ confirmation

/// The join password of the form: none when the field is empty.
pub fn direct_password(field: &str) -> (r: Option<String>)
    ensures
        field@.len() == 0 ==> r is None,
        field@.len() > 0 ==> (r matches Some(p) && p@ == field@),
{
    let v = to_chars(field);
    if v.len() == 0 {
        None
    } else {
        Some(from_chars(&v))
    }
}

/// The confirmation that Direct Connect shows for a plan: the plan's title
/// and message; installing asks for the missing mods, updating and
/// connecting carry the server and the join password.
pub fn direct_confirmation(plan: DirectPlan, server: Server, password: Option<String>) -> (r: Popup)
    ensures
        r matches Popup::Confirm { title, message, action } && title == plan.title && message == plan.message
            && match plan.action {
            DirectAction::InstallMods(ids) => action == ConfirmAction::InstallMods(ids),
            DirectAction::UpdateThenLaunch => action == ConfirmAction::UpdateThenLaunch(server, password),
            DirectAction::LaunchDirect => action == ConfirmAction::LaunchDirect(server, password),
        },
{
    let action = match plan.action {
        DirectAction::InstallMods(ids) => ConfirmAction::InstallMods(ids),
        DirectAction::UpdateThenLaunch => ConfirmAction::UpdateThenLaunch(server, password),
        DirectAction::LaunchDirect => ConfirmAction::LaunchDirect(server, password),
    };
    Popup::Confirm { title: plan.title, message: plan.message, action }
}

} // verus!
