//! Decisions of the terminal interface that act on its lists: which server
//! is selected, what connecting to it asks, and editing launch options.

use vstd::prelude::*;
use crate::api::{Mod, Server};
use crate::config::{option_keys, option_list, option_view, Favorite, History, LaunchOption, LaunchOptions};
use crate::direct::first_mod_with_id;
use crate::error::{error_message, Error};
use crate::text::{dec, from_chars, join, join_chars, opt_string_view, push_all, push_str, to_chars, trim, trim_str, u64_to_dec, views};
use crate::tui::Tab;

verus! {

// ------------------------------------------------------------ selection

/// A server of the list is at the address exactly: same IP, and the port
/// (as `u16`) is its query port or its game port.
pub open spec fn at_address(s: Server, ip: Seq<char>, port: u16) -> bool {
    s.endpoint.ip@ == ip && (s.endpoint.port as u16 == port || s.game_port as u16 == port)
}

/// The first server of the list at the address.
pub open spec fn first_at(servers: Seq<Server>, ip: Seq<char>, port: u16) -> Option<int>
    decreases servers.len(),
{
    if servers.len() == 0 {
        None
    } else {
        match first_at(servers.drop_last(), ip, port) {
            Some(i) => Some(i),
            None => if at_address(servers.last(), ip, port) {
                Some(servers.len() - 1)
            } else {
                None
            },
        }
    }
}

proof fn lemma_first_at_extend(servers: Seq<Server>, ip: Seq<char>, port: u16, k: int)
    requires
        0 <= k <= servers.len(),
        first_at(servers.subrange(0, k), ip, port) matches Some(i) && 0 <= i < k,
    ensures
        first_at(servers, ip, port) == first_at(servers.subrange(0, k), ip, port),
    decreases servers.len() - k,
{
    if k < servers.len() {
        assert(servers.drop_last().subrange(0, k) =~= servers.subrange(0, k));
        lemma_first_at_extend(servers.drop_last(), ip, port, k);
    } else {
        assert(servers.subrange(0, k) =~= servers);
    }
}

fn find_at(servers: &Vec<Server>, ip: &str, port: u16) -> (r: Option<usize>)
    ensures
        match r {
            Some(i) => first_at(servers@, ip@, port) == Some(i as int) && i < servers@.len(),
            None => first_at(servers@, ip@, port) is None,
        },
{
    let mut i: usize = 0;
    while i < servers.len()
        invariant
            i <= servers@.len(),
            first_at(servers@.subrange(0, i as int), ip@, port) is None,
        decreases servers.len() - i,
    {
        proof {
            assert(servers@.subrange(0, i + 1).drop_last() =~= servers@.subrange(0, i as int));
        }
        let s = &servers[i];
        if crate::text::str_eq(s.endpoint.ip.as_str(), ip) && ((s.endpoint.port as u16) == port
            || (s.game_port as u16) == port) {
            proof {
                lemma_first_at_extend(servers@, ip@, port, i as int + 1);
            }
            return Some(i);
        }
        i = i + 1;
    }
    assert(servers@.subrange(0, servers@.len() as int) =~= servers@);
    None
}

proof fn lemma_first_at_is_first(servers: Seq<Server>, ip: Seq<char>, port: u16)
    ensures
        match first_at(servers, ip, port) {
            Some(k) => 0 <= k < servers.len() && at_address(servers[k], ip, port) && forall|j: int|
                0 <= j < k ==> !at_address(#[trigger] servers[j], ip, port),
            None => forall|j: int| 0 <= j < servers.len() ==> !at_address(#[trigger] servers[j], ip, port),
        },
    decreases servers.len(),
{
    if servers.len() > 0 {
        let pre = servers.drop_last();
        lemma_first_at_is_first(pre, ip, port);
        match first_at(pre, ip, port) {
            Some(k) => {
                assert(pre[k] == servers[k]);
                assert forall|j: int| 0 <= j < k implies !at_address(#[trigger] servers[j], ip, port) by {
                    assert(pre[j] == servers[j]);
                }
            },
            None => {
                assert forall|j: int| 0 <= j < pre.len() implies !at_address(#[trigger] servers[j], ip, port) by {
                    assert(pre[j] == servers[j]);
                }
            },
        }
    }
}

/// On the favorites and history tabs the selection stands for the first
/// server of the list at the selected entry's address (the same IP, and
/// the entry's port is its query port or its game port); it stands for
/// none only when no server of the list is there, or nothing is selected.
pub proof fn lemma_selected_by_address(
    tab: Tab,
    selected: nat,
    filtered: Option<Seq<usize>>,
    servers: Seq<Server>,
    favorites: Seq<Favorite>,
    history: Seq<History>,
)
    requires
        tab == Tab::Favorites || tab == Tab::History,
    ensures
        ({
            let r = selected_server_spec(tab, selected, filtered, servers, favorites, history);
            let n = if tab == Tab::Favorites {
                favorites.len()
            } else {
                history.len()
            };
            let ip = if tab == Tab::Favorites {
                favorites[selected as int].ip@
            } else {
                history[selected as int].ip@
            };
            let port = if tab == Tab::Favorites {
                favorites[selected as int].port
            } else {
                history[selected as int].port
            };
            &&& selected >= n ==> r is None
            &&& selected < n ==> match r {
                Some(k) => {
                    &&& 0 <= k < servers.len()
                    &&& servers[k].endpoint.ip@ == ip
                    &&& (servers[k].endpoint.port as u16 == port || servers[k].game_port as u16 == port)
                    &&& forall|j: int|
                        0 <= j < k ==> !(#[trigger] servers[j].endpoint.ip@ == ip && (servers[j].endpoint.port as u16
                            == port || servers[j].game_port as u16 == port))
                },
                None => forall|j: int|
                    0 <= j < servers.len() ==> !(#[trigger] servers[j].endpoint.ip@ == ip && (
                    servers[j].endpoint.port as u16 == port || servers[j].game_port as u16 == port)),
            }
        }),
{
    if tab == Tab::Favorites && selected < favorites.len() {
        lemma_first_at_is_first(servers, favorites[selected as int].ip@, favorites[selected as int].port);
    }
    if tab == Tab::History && selected < history.len() {
        lemma_first_at_is_first(servers, history[selected as int].ip@, history[selected as int].port);
    }
}

/// The server that the selection of a tab stands for: on the server tab
/// the selected row (through the search filter, when there is one), on the
/// favorites and history tabs the first server of the list at the entry's
/// address; on other tabs none.
pub open spec fn selected_server_spec(
    tab: Tab,
    selected: nat,
    filtered: Option<Seq<usize>>,
    servers: Seq<Server>,
    favorites: Seq<Favorite>,
    history: Seq<History>,
) -> Option<int> {
    match tab {
        Tab::Servers => match filtered {
            Some(ix) => if selected < ix.len() && ix[selected as int] < servers.len() {
                Some(ix[selected as int] as int)
            } else {
                None
            },
            None => if selected < servers.len() {
                Some(selected as int)
            } else {
                None
            },
        },
        Tab::Favorites => if selected < favorites.len() {
            first_at(servers, favorites[selected as int].ip@, favorites[selected as int].port)
        } else {
            None
        },
        Tab::History => if selected < history.len() {
            first_at(servers, history[selected as int].ip@, history[selected as int].port)
        } else {
            None
        },
        _ => None,
    }
}

/// The index in the server list of the server that the selection stands for.
pub fn selected_server(
    tab: Tab,
    selected: usize,
    filtered: &Option<Vec<usize>>,
    servers: &Vec<Server>,
    favorites: &Vec<Favorite>,
    history: &Vec<History>,
) -> (r: Option<usize>)
    ensures
        match selected_server_spec(
            tab,
            selected as nat,
            match filtered {
                Some(v) => Some(v@),
                None => None,
            },
            servers@,
            favorites@,
            history@,
        ) {
            Some(i) => r == Some(i as usize) && i < servers@.len(),
            None => r is None,
        },
{
    match tab {
        Tab::Servers => match filtered {
            Some(ix) => {
                if selected < ix.len() && ix[selected] < servers.len() {
                    Some(ix[selected])
                } else {
                    None
                }
            },
            None => {
                if selected < servers.len() {
                    Some(selected)
                } else {
                    None
                }
            },
        },
        Tab::Favorites => {
            if selected < favorites.len() {
                find_at(servers, favorites[selected].ip.as_str(), favorites[selected].port)
            } else {
                None
            }
        },
        Tab::History => {
            if selected < history.len() {
                find_at(servers, history[selected].ip.as_str(), history[selected].port)
            } else {
                None
            }
        },
        _ => None,
    }
}

/// The counts that the lists of the tabs have.
pub struct ListCounts {
    /// The rows of the search filter, when a search is active.
    pub filtered: Option<usize>,
    pub servers: usize,
    pub favorites: usize,
    pub history: usize,
    pub mods: Option<usize>,
    pub news: Option<usize>,
    pub missions: Option<usize>,
}

/// How many rows the list of a tab has: the options list has 19 and the
/// Direct Connect form 5 fields; a list not loaded yet has none.
pub open spec fn list_len_spec(tab: Tab, c: ListCounts) -> nat {
    match tab {
        Tab::Servers => match c.filtered {
            Some(n) => n as nat,
            None => c.servers as nat,
        },
        Tab::Favorites => c.favorites as nat,
        Tab::History => c.history as nat,
        Tab::Mods => match c.mods {
            Some(n) => n as nat,
            None => 0,
        },
        Tab::Options => 19,
        Tab::DirectConnect => 5,
        Tab::News => match c.news {
            Some(n) => n as nat,
            None => 0,
        },
        Tab::Offline => match c.missions {
            Some(n) => n as nat,
            None => 0,
        },
    }
}

/// How many rows the list of a tab has.
pub fn list_len(tab: Tab, c: &ListCounts) -> (r: usize)
    ensures
        r as nat == list_len_spec(tab, *c),
{
    match tab {
        Tab::Servers => match c.filtered {
            Some(n) => n,
            None => c.servers,
        },
        Tab::Favorites => c.favorites,
        Tab::History => c.history,
        Tab::Mods => match c.mods {
            Some(n) => n,
            None => 0,
        },
        Tab::Options => 19,
        Tab::DirectConnect => 5,
        Tab::News => match c.news {
            Some(n) => n,
            None => 0,
        },
        Tab::Offline => match c.missions {
            Some(n) => n,
            None => 0,
        },
    }
}

// ------------------------------------------------------------ connecting

/// What connecting to the selected server does.
#[derive(Debug)]
pub enum ConnectStep {
    /// Ask whether to install the missing mods.
    AskInstall { title: String, message: String, missing: Vec<u64> },
    /// Ask whether to update the server's mods before launching.
    AskUpdate { title: String, message: String },
    /// Launch at once, after the warning when there is one.
    Launch { warning: Option<String> },
}

/// How a missing mod is named: `<name> (<id>)`, or the id when the server
/// does not name it.
pub open spec fn missing_name(mods: Seq<Mod>, id: u64) -> Seq<char> {
    match first_mod_with_id(mods, id) {
        Some(j) => mods[j].name@ + " ("@ + dec(id as nat) + seq![')'],
        None => dec(id as nat),
    }
}

/// The names of the missing mods, in order.
pub open spec fn missing_names(mods: Seq<Mod>, ids: Seq<u64>) -> Seq<Seq<char>>
    decreases ids.len(),
{
    if ids.len() == 0 {
        Seq::empty()
    } else {
        missing_names(mods, ids.drop_last()).push(missing_name(mods, ids.last()))
    }
}

/// A step as values: kind (0 ask to install, 1 ask to update, 2 launch),
/// title, message or warning, missing ids.
pub open spec fn step_view(s: ConnectStep) -> (nat, Seq<char>, Option<Seq<char>>, Seq<u64>) {
    match s {
        ConnectStep::AskInstall { title, message, missing } => (0, title@, Some(message@), missing@),
        ConnectStep::AskUpdate { title, message } => (1, title@, Some(message@), Seq::empty()),
        ConnectStep::Launch { warning } => (2, Seq::empty(), opt_string_view(warning), Seq::empty()),
    }
}

/// What connecting to a server does, given which of its mods are missing:
/// ask to install them; else ask to update when it has mods; else launch.
/// When the check failed, launch with a warning.
pub open spec fn connect_step_spec(s: Server, missing: Result<Vec<u64>, Error>) -> (nat, Seq<char>, Option<Seq<char>>, Seq<u64>) {
    match missing {
        Ok(ids) => if ids@.len() > 0 {
            (
                0,
                "Missing "@ + dec(ids@.len()) + " Mods"@,
                Some("Install these mods?\n"@ + join(missing_names(s.mods@, ids@), '\n')),
                ids@,
            )
        } else if s.mods@.len() > 0 {
            (
                1,
                "Update mods?"@,
                Some(
                    "Server: "@ + s.name@ + seq!['\n'] + dec(s.mods@.len())
                        + " mods installed. Update before launching?"@,
                ),
                Seq::empty(),
            )
        } else {
            (2, Seq::empty(), None, Seq::empty())
        },
        Err(e) => (
            2,
            Seq::empty(),
            Some("Could not check mods: "@ + error_message(e) + ". Launching anyway."@),
            Seq::empty(),
        ),
    }
}

fn find_named_mod(mods: &Vec<Mod>, id: u64) -> (r: Option<usize>)
    ensures
        match r {
            Some(j) => first_mod_with_id(mods@, id) == Some(j as int) && j < mods@.len(),
            None => first_mod_with_id(mods@, id) is None,
        },
{
    let mut j: usize = 0;
    while j < mods.len()
        invariant
            j <= mods@.len(),
            first_mod_with_id(mods@.subrange(0, j as int), id) is None,
        decreases mods.len() - j,
    {
        proof {
            assert(mods@.subrange(0, j + 1).drop_last() =~= mods@.subrange(0, j as int));
        }
        if mods[j].steam_workshop_id as u64 == id {
            proof {
                lemma_mods_extend(mods@, id, j as int + 1);
            }
            return Some(j);
        }
        j = j + 1;
    }
    assert(mods@.subrange(0, mods@.len() as int) =~= mods@);
    None
}

proof fn lemma_mods_extend(mods: Seq<Mod>, id: u64, k: int)
    requires
        0 <= k <= mods.len(),
        first_mod_with_id(mods.subrange(0, k), id) matches Some(j) && 0 <= j < k,
    ensures
        first_mod_with_id(mods, id) == first_mod_with_id(mods.subrange(0, k), id),
    decreases mods.len() - k,
{
    if k < mods.len() {
        assert(mods.drop_last().subrange(0, k) =~= mods.subrange(0, k));
        lemma_mods_extend(mods.drop_last(), id, k);
    } else {
        assert(mods.subrange(0, k) =~= mods);
    }
}

fn names_of_missing(mods: &Vec<Mod>, ids: &Vec<u64>) -> (r: Vec<char>)
    ensures
        r@ == join(missing_names(mods@, ids@), '\n'),
{
    let mut parts: Vec<Vec<char>> = Vec::new();
    let mut i: usize = 0;
    while i < ids.len()
        invariant
            i <= ids@.len(),
            views(parts@) == missing_names(mods@, ids@.subrange(0, i as int)),
        decreases ids.len() - i,
    {
        proof {
            assert(ids@.subrange(0, i + 1).drop_last() =~= ids@.subrange(0, i as int));
        }
        let id = ids[i];
        let mut line: Vec<char> = Vec::new();
        match find_named_mod(mods, id) {
            Some(j) => {
                push_str(&mut line, mods[j].name.as_str());
                push_str(&mut line, " (");
                push_all(&mut line, &u64_to_dec(id));
                line.push(')');
                assert(line@ =~= missing_name(mods@, id));
            },
            None => {
                push_all(&mut line, &u64_to_dec(id));
                assert(line@ =~= missing_name(mods@, id));
            },
        }
        let ghost before = views(parts@);
        parts.push(line);
        assert(views(parts@) =~= before.push(missing_name(mods@, id)));
        i = i + 1;
    }
    assert(ids@.subrange(0, ids@.len() as int) =~= ids@);
    join_chars(&parts, '\n')
}

/// What connecting to the selected server does.
pub fn connect_step(s: &Server, missing: Result<Vec<u64>, Error>) -> (r: ConnectStep)
    ensures
        step_view(r) == connect_step_spec(*s, missing),
{
    match missing {
        Ok(ids) => {
            if ids.len() > 0 {
                let mut title = to_chars("Missing ");
                push_all(&mut title, &u64_to_dec(ids.len() as u64));
                push_str(&mut title, " Mods");
                let mut msg = to_chars("Install these mods?\n");
                push_all(&mut msg, &names_of_missing(&s.mods, &ids));
                ConnectStep::AskInstall { title: from_chars(&title), message: from_chars(&msg), missing: ids }
            } else if s.mods.len() > 0 {
                let mut msg = to_chars("Server: ");
                push_str(&mut msg, s.name.as_str());
                msg.push('\n');
                push_all(&mut msg, &u64_to_dec(s.mods.len() as u64));
                push_str(&mut msg, " mods installed. Update before launching?");
                ConnectStep::AskUpdate { title: from_chars(&to_chars("Update mods?")), message: from_chars(&msg) }
            } else {
                ConnectStep::Launch { warning: None }
            }
        },
        Err(e) => {
            proof {
                reveal_strlit("");
            }
            let mut w = to_chars("Could not check mods: ");
            push_str(&mut w, e.message().as_str());
            push_str(&mut w, ". Launching anyway.");
            ConnectStep::Launch { warning: Some(from_chars(&w)) }
        },
    }
}

// ------------------------------------------------------------ options

fn copy_option(o: &LaunchOption) -> (r: LaunchOption)
    ensures
        option_view(r) == option_view(*o),
{
    LaunchOption {
        enabled: o.enabled,
        value: match &o.value {
            Some(v) => Some(from_chars(&to_chars(v.as_str()))),
            None => None,
        },
        description: from_chars(&to_chars(o.description.as_str())),
    }
}

/// The option at a position of the fixed order.
pub fn option_at(o: &LaunchOptions, idx: usize) -> (r: &LaunchOption)
    requires
        idx < 19,
    ensures
        *r == option_list(*o)[idx as int],
{
    match idx {
        0 => &o.window,
        1 => &o.noborder,
        2 => &o.nosplash,
        3 => &o.skipintro,
        4 => &o.nolauncher,
        5 => &o.file_patching,
        6 => &o.do_logs,
        7 => &o.buldozer,
        8 => &o.winxp,
        9 => &o.high,
        10 => &o.world,
        11 => &o.no_pause,
        12 => &o.max_mem,
        13 => &o.max_vram,
        14 => &o.cpu_count,
        15 => &o.ex_threads,
        16 => &o.no_benchmark,
        17 => &o.script_debug,
        _ => &o.profiles,
    }
}

/// The option at a position of the fixed order, to change in place: the
/// positions and keys are those of `all_options` (`option_keys`), and what
/// is written through the reference is what the options then hold there.
pub fn option_at_mut(o: &mut LaunchOptions, idx: usize) -> (r: &mut LaunchOption)
    requires
        idx < 19,
    ensures
        *r == option_list(*old(o))[idx as int],
        option_list(*final(o)) == option_list(*old(o)).update(idx as int, *final(r)),
{
    match idx {
        0 => &mut o.window,
        1 => &mut o.noborder,
        2 => &mut o.nosplash,
        3 => &mut o.skipintro,
        4 => &mut o.nolauncher,
        5 => &mut o.file_patching,
        6 => &mut o.do_logs,
        7 => &mut o.buldozer,
        8 => &mut o.winxp,
        9 => &mut o.high,
        10 => &mut o.world,
        11 => &mut o.no_pause,
        12 => &mut o.max_mem,
        13 => &mut o.max_vram,
        14 => &mut o.cpu_count,
        15 => &mut o.ex_threads,
        16 => &mut o.no_benchmark,
        17 => &mut o.script_debug,
        _ => &mut o.profiles,
    }
}

/// Replaces the option at a position of the fixed order.
pub fn set_option_at(o: &mut LaunchOptions, idx: usize, v: LaunchOption)
    requires
        idx < 19,
    ensures
        option_list(*final(o)) == option_list(*old(o)).update(idx as int, v),
{
    match idx {
        0 => o.window = v,
        1 => o.noborder = v,
        2 => o.nosplash = v,
        3 => o.skipintro = v,
        4 => o.nolauncher = v,
        5 => o.file_patching = v,
        6 => o.do_logs = v,
        7 => o.buldozer = v,
        8 => o.winxp = v,
        9 => o.high = v,
        10 => o.world = v,
        11 => o.no_pause = v,
        12 => o.max_mem = v,
        13 => o.max_vram = v,
        14 => o.cpu_count = v,
        15 => o.ex_threads = v,
        16 => o.no_benchmark = v,
        17 => o.script_debug = v,
        _ => o.profiles = v,
    }
    assert(option_list(*o) =~= option_list(*old(o)).update(idx as int, v));
}

fn key_at(idx: usize) -> (r: &'static str)
    requires
        idx < 19,
    ensures
        r@ == option_keys()[idx as int],
{
    match idx {
        0 => "window",
        1 => "noborder",
        2 => "nosplash",
        3 => "skipintro",
        4 => "nolauncher",
        5 => "file_patching",
        6 => "do_logs",
        7 => "buldozer",
        8 => "winxp",
        9 => "high",
        10 => "world",
        11 => "no_pause",
        12 => "max_mem",
        13 => "max_vram",
        14 => "cpu_count",
        15 => "ex_threads",
        16 => "no_benchmark",
        17 => "script_debug",
        _ => "profiles",
    }
}

/// The status after toggling an option: `<name>: enabled` or `disabled`.
pub open spec fn toggled_status(idx: int, enabled: bool) -> Seq<char> {
    option_keys()[idx] + ": "@ + if enabled {
        "enabled"@
    } else {
        "disabled"@
    }
}

/// Toggles the option at `idx` and gives the status to show; an index past
/// the options changes nothing.
pub fn toggle_option_at(o: &mut LaunchOptions, idx: usize) -> (r: Option<String>)
    ensures
        idx >= 19 ==> r is None && option_list(*final(o)) == option_list(*old(o)),
        idx < 19 ==> {
            let before = option_view(option_list(*old(o))[idx as int]);
            &&& option_list(*final(o)).len() == 19
            &&& forall|i: int| 0 <= i < 19 && i != idx ==> option_list(*final(o))[i] == option_list(*old(o))[i]
            &&& option_view(option_list(*final(o))[idx as int]) == (!before.0, before.1, before.2)
            &&& r matches Some(s) && s@ == toggled_status(idx as int, !before.0)
        },
{
    if idx >= 19 {
        return None;
    }
    let cur = copy_option(option_at(o, idx));
    let enabled = !cur.enabled;
    let new = LaunchOption { enabled, value: cur.value, description: cur.description };
    set_option_at(o, idx, new);
    let mut s = to_chars(key_at(idx));
    push_str(&mut s, ": ");
    if enabled {
        push_str(&mut s, "enabled");
    } else {
        push_str(&mut s, "disabled");
    }
    Some(from_chars(&s))
}

/// The value shown when editing of the option at `idx` starts: its value,
/// or empty text.
pub fn option_edit_start(o: &LaunchOptions, idx: usize) -> (r: String)
    ensures
        r@ == if idx < 19 {
            match option_view(option_list(*o)[idx as int]).1 {
                Some(v) => v,
                None => Seq::empty(),
            }
        } else {
            Seq::<char>::empty()
        },
{
    if idx >= 19 {
        return from_chars(&Vec::new());
    }
    match &option_at(o, idx).value {
        Some(v) => from_chars(&to_chars(v.as_str())),
        None => from_chars(&Vec::new()),
    }
}

/// The option after an edit: the trimmed text as its value (enabling it),
/// or, for blank text, no value and the enabled flag kept.
pub open spec fn edited_option(before: (bool, Option<Seq<char>>, Seq<char>), text: Seq<char>) -> (bool, Option<Seq<char>>, Seq<char>) {
    if trim(text).len() == 0 {
        (before.0, None, before.2)
    } else {
        (true, Some(trim(text)), before.2)
    }
}

/// The status after an edit: `<name> = <value>` or `<name>: value cleared`.
pub open spec fn edit_status(idx: int, text: Seq<char>) -> Seq<char> {
    if trim(text).len() == 0 {
        option_keys()[idx] + ": value cleared"@
    } else {
        option_keys()[idx] + " = "@ + trim(text)
    }
}

/// Applies an edited value to the option at `idx`; gives the status to show
/// and whether a value was set.
/// An index past the options changes nothing.
pub fn apply_option_edit_at(o: &mut LaunchOptions, idx: usize, text: &str) -> (r: Option<(String, bool)>)
    ensures
        idx >= 19 ==> r is None && option_list(*final(o)) == option_list(*old(o)),
        idx < 19 ==> {
            &&& option_list(*final(o)).len() == 19
            &&& forall|i: int| 0 <= i < 19 && i != idx ==> option_list(*final(o))[i] == option_list(*old(o))[i]
            &&& option_view(option_list(*final(o))[idx as int]) == edited_option(
                option_view(option_list(*old(o))[idx as int]),
                text@,
            )
            &&& r matches Some((s, set)) && s@ == edit_status(idx as int, text@) && set == (trim(text@).len() > 0)
        },
{
    if idx >= 19 {
        return None;
    }
    let t = trim_str(text);
    let cur = copy_option(option_at(o, idx));
    let set = t.len() > 0;
    let new = if set {
        LaunchOption { enabled: true, value: Some(from_chars(&t)), description: cur.description }
    } else {
        LaunchOption { enabled: cur.enabled, value: None, description: cur.description }
    };
    set_option_at(o, idx, new);
    let mut s = to_chars(key_at(idx));
    if set {
        push_str(&mut s, " = ");
        push_all(&mut s, &t);
    } else {
        push_str(&mut s, ": value cleared");
    }
    Some((from_chars(&s), set))
}

/// Where a key first stands in a list of keys.
pub open spec fn key_position_in(keys: Seq<Seq<char>>, key: Seq<char>) -> Option<int>
    decreases keys.len(),
{
    if keys.len() == 0 {
        None
    } else {
        match key_position_in(keys.drop_last(), key) {
            Some(i) => Some(i),
            None => if keys.last() == key {
                Some(keys.len() - 1)
            } else {
                None
            },
        }
    }
}

proof fn lemma_key_position_in(keys: Seq<Seq<char>>, key: Seq<char>)
    ensures
        match key_position_in(keys, key) {
            Some(i) => 0 <= i < keys.len() && keys[i] == key && forall|j: int| 0 <= j < i ==> keys[j] != key,
            None => forall|j: int| 0 <= j < keys.len() ==> keys[j] != key,
        },
    decreases keys.len(),
{
    if keys.len() > 0 {
        let t = keys.drop_last();
        lemma_key_position_in(t, key);
        assert(forall|j: int| 0 <= j < t.len() ==> t[j] == keys[j]);
    }
}

fn key_index(key: &str) -> (r: Option<usize>)
    ensures
        match key_position_in(option_keys(), key@) {
            Some(i) => 0 <= i < 19 && r == Some(i as usize),
            None => r is None,
        },
{
    let mut i: usize = 0;
    while i < 19
        invariant
            i <= 19,
            option_keys().len() == 19,
            forall|j: int| 0 <= j < i ==> option_keys()[j] != key@,
        decreases 19 - i,
    {
        if crate::text::str_eq(key_at(i), key) {
            assert(option_keys()[i as int] == key@);
            proof {
                lemma_key_position_in(option_keys(), key@);
                let pos = key_position_in(option_keys(), key@);
                assert(pos is Some);
                let p = pos->0;
                if p < i {
                    assert(option_keys()[p] != key@);
                }
                if p > i {
                    assert(option_keys()[i as int] != key@);
                }
                assert(p == i);
            }
            return Some(i);
        }
        i = i + 1;
    }
    proof {
        lemma_key_position_in(option_keys(), key@);
    }
    None
}

fn unknown_option(key: &str) -> (r: String)
    ensures
        r@ == "Unknown option: "@ + key@,
{
    let mut s = to_chars("Unknown option: ");
    push_str(&mut s, key);
    from_chars(&s)
}

/// Toggles the option named `key`; gives its new state, or the error for a
/// key that names no option (nothing changes then).
pub fn toggle_option_by_key(o: &mut LaunchOptions, key: &str) -> (r: Result<bool, String>)
    ensures
        match key_position_in(option_keys(), key@) {
            None => (r matches Err(m) && m@ == "Unknown option: "@ + key@) && option_list(*final(o))
                == option_list(*old(o)),
            Some(idx) => {
                let before = option_view(option_list(*old(o))[idx]);
                &&& option_list(*final(o)).len() == 19
                &&& forall|i: int| 0 <= i < 19 && i != idx ==> option_list(*final(o))[i] == option_list(*old(o))[i]
                &&& option_view(option_list(*final(o))[idx]) == (!before.0, before.1, before.2)
                &&& r == Ok::<bool, String>(!before.0)
            },
        },
{
    match key_index(key) {
        None => Err(unknown_option(key)),
        Some(idx) => {
            let cur = copy_option(option_at(o, idx));
            let enabled = !cur.enabled;
            set_option_at(o, idx, LaunchOption { enabled, value: cur.value, description: cur.description });
            Ok(enabled)
        },
    }
}

/// Sets the value of the option named `key` (a value also enables it); the
/// error for a key that names no option (nothing changes then).
pub fn set_option_value(o: &mut LaunchOptions, key: &str, value: Option<String>) -> (r: Result<(), String>)
    ensures
        match key_position_in(option_keys(), key@) {
            None => (r matches Err(m) && m@ == "Unknown option: "@ + key@) && option_list(*final(o))
                == option_list(*old(o)),
            Some(idx) => {
                let before = option_view(option_list(*old(o))[idx]);
                &&& option_list(*final(o)).len() == 19
                &&& forall|i: int| 0 <= i < 19 && i != idx ==> option_list(*final(o))[i] == option_list(*old(o))[i]
                &&& option_view(option_list(*final(o))[idx]) == (
                    value is Some || before.0,
                    opt_string_view(value),
                    before.2,
                )
                &&& r is Ok
            },
        },
{
    match key_index(key) {
        None => Err(unknown_option(key)),
        Some(idx) => {
            let cur = copy_option(option_at(o, idx));
            let enabled = value.is_some() || cur.enabled;
            set_option_at(o, idx, LaunchOption { enabled, value, description: cur.description });
            Ok(())
        },
    }
}

} // verus!
