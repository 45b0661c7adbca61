//! State of the terminal interface: tabs, list navigation, search and the
//! progress of background mod operations.
//!
//! Drawing and the event loop are left to the application; the rules of how
//! the state moves are here.

use vstd::prelude::*;
use crate::a2s::ServerDetails;
use crate::api::{Server, ServerList};
use crate::news::Article;
use crate::steamcmd::ModProgress;
use crate::text::{
    contains, contains_chars, dec, occurs_at, from_chars, lowercase_result, push_all, push_str, split,
    split_chars, to_chars, to_lowercase, trim, trim_chars, u64_to_dec, views,
};

verus! {

/// The tabs of the interface.
#[derive(Debug, Clone, Copy, PartialEq, Eq, Structural)]
pub enum Tab {
    Servers,
    Favorites,
    History,
    Mods,
    News,
    DirectConnect,
    Options,
    Offline,
}

/// The position of a tab in the tab bar.
pub open spec fn tab_index(t: Tab) -> nat {
    match t {
        Tab::Servers => 0,
        Tab::Favorites => 1,
        Tab::History => 2,
        Tab::Mods => 3,
        Tab::News => 4,
        Tab::DirectConnect => 5,
        Tab::Options => 6,
        Tab::Offline => 7,
    }
}

/// The tab at a position of the tab bar (`i < 8`).
pub open spec fn tab_at(i: nat) -> Tab {
    if i == 0 {
        Tab::Servers
    } else if i == 1 {
        Tab::Favorites
    } else if i == 2 {
        Tab::History
    } else if i == 3 {
        Tab::Mods
    } else if i == 4 {
        Tab::News
    } else if i == 5 {
        Tab::DirectConnect
    } else if i == 6 {
        Tab::Options
    } else {
        Tab::Offline
    }
}

/// The number of tabs.
pub const TAB_COUNT: usize = 8;

impl Tab {
    /// The position of the tab in the tab bar.
    pub fn index(&self) -> (r: usize)
        ensures
            r == tab_index(*self),
    {
        match self {
            Tab::Servers => 0,
            Tab::Favorites => 1,
            Tab::History => 2,
            Tab::Mods => 3,
            Tab::News => 4,
            Tab::DirectConnect => 5,
            Tab::Options => 6,
            Tab::Offline => 7,
        }
    }

    /// The tab's title.
    pub fn label(&self) -> (r: &str)
        ensures
            r@ == match *self {
                Tab::Servers => "Servers"@,
                Tab::Favorites => "Favorites"@,
                Tab::History => "History"@,
                Tab::Mods => "Mods"@,
                Tab::News => "News"@,
                Tab::DirectConnect => "Connect"@,
                Tab::Options => "Options"@,
                Tab::Offline => "Offline"@,
            },
    {
        match self {
            Tab::Servers => "Servers",
            Tab::Favorites => "Favorites",
            Tab::History => "History",
            Tab::Mods => "Mods",
            Tab::News => "News",
            Tab::DirectConnect => "Connect",
            Tab::Options => "Options",
            Tab::Offline => "Offline",
        }
    }

    /// All tabs in tab-bar order.
    pub fn all() -> (r: Vec<Tab>)
        ensures
            r@.len() == 8,
            forall|i: int| 0 <= i < 8 ==> #[trigger] r@[i] == tab_at(i as nat),
    {
        vec![
            Tab::Servers,
            Tab::Favorites,
            Tab::History,
            Tab::Mods,
            Tab::News,
            Tab::DirectConnect,
            Tab::Options,
            Tab::Offline,
        ]
    }

    /// The tab to the right, the first after the last.
    pub fn next(&self) -> (r: Tab)
        ensures
            r == tab_at((tab_index(*self) + 1) % 8),
    {
        let all = Tab::all();
        let idx = self.index();
        all[(idx + 1) % all.len()]
    }

    /// The tab to the left, the last before the first.
    pub fn prev(&self) -> (r: Tab)
        ensures
            r == tab_at(((tab_index(*self) + 7) % 8) as nat),
    {
        let all = Tab::all();
        let idx = self.index();
        all[(idx + all.len() - 1) % all.len()]
    }
}

/// Going to the next tab and back returns to the same tab, and so does going
/// back and then forward.
pub proof fn lemma_tab_next_prev(t: Tab)
    ensures
        tab_at(((tab_index(tab_at((tab_index(t) + 1) % 8)) + 7) % 8) as nat) == t,
        tab_at((tab_index(tab_at(((tab_index(t) + 7) % 8) as nat)) + 1) % 8) == t,
{
}

/// Eight steps to the right go round to the same tab.
pub proof fn lemma_tab_cycle(t: Tab)
    ensures
        tab_at((tab_index(t) + 8) % 8) == t,
        forall|i: nat| i < 8 ==> tab_index(#[trigger] tab_at(i)) == i,
{
}

/// The fields of the Direct Connect form.
#[derive(Debug, Clone, Copy, PartialEq, Eq, Structural)]
pub enum DirectConnectField {
    Address,
    Port,
    Password,
    ServerInfo,
    Connect,
}

/// The position of a form field.
pub open spec fn field_index(f: DirectConnectField) -> int {
    match f {
        DirectConnectField::Address => 0,
        DirectConnectField::Port => 1,
        DirectConnectField::Password => 2,
        DirectConnectField::ServerInfo => 3,
        DirectConnectField::Connect => 4,
    }
}

/// The form field at a position (`i < 5`).
pub open spec fn field_at(i: int) -> DirectConnectField {
    if i == 0 {
        DirectConnectField::Address
    } else if i == 1 {
        DirectConnectField::Port
    } else if i == 2 {
        DirectConnectField::Password
    } else if i == 3 {
        DirectConnectField::ServerInfo
    } else {
        DirectConnectField::Connect
    }
}

/// Moves the form cursor by `delta` fields, wrapping round.
pub fn move_field(f: DirectConnectField, delta: i32) -> (r: DirectConnectField)
    requires
        field_index(f) + delta <= i32::MAX,
    ensures
        r == field_at((field_index(f) + delta) % 5),
{
    let current: i32 = match f {
        DirectConnectField::Address => 0,
        DirectConnectField::Port => 1,
        DirectConnectField::Password => 2,
        DirectConnectField::ServerInfo => 3,
        DirectConnectField::Connect => 4,
    };
    let s = current + delta;
    let m = s % 5;
    let new = if m < 0 {
        m + 5
    } else {
        m
    };
    assert(new == (field_index(f) + delta) % 5);
    match new {
        0 => DirectConnectField::Address,
        1 => DirectConnectField::Port,
        2 => DirectConnectField::Password,
        3 => DirectConnectField::ServerInfo,
        _ => DirectConnectField::Connect,
    }
}

/// The number of list items that fit on the screen: the terminal height
/// less 9 lines of chrome, over one line per item on the Mods, News and
/// Offline tabs and two elsewhere, at least 3.
pub open spec fn visible_items_spec(tab: Tab, term_height: u16) -> nat {
    let available: int = if term_height >= 9 {
        term_height - 9
    } else {
        0
    };
    let per_item: int = match tab {
        Tab::Mods | Tab::News | Tab::Offline => 1,
        _ => 2,
    };
    let n = available / per_item;
    if n < 3 {
        3
    } else {
        n as nat
    }
}

/// The number of list items that fit on the screen.
pub fn visible_items(tab: Tab, term_height: u16) -> (r: usize)
    ensures
        r == visible_items_spec(tab, term_height),
        r >= 3,
{
    let available = term_height.saturating_sub(9);
    let lines_per_item: u16 = match tab {
        Tab::Mods | Tab::News | Tab::Offline => 1,
        _ => 2,
    };
    let n = available / lines_per_item;
    if n < 3 {
        3
    } else {
        n as usize
    }
}

/// The selection after moving by `delta` in a list of `len` items, held
/// within the list.
pub open spec fn moved_index(len: nat, current: int, delta: int) -> int {
    let t = current + delta;
    if t < 0 {
        0
    } else if t > len - 1 {
        len - 1
    } else {
        t
    }
}

/// The scroll offset that keeps `selected` on a screen of `visible` items.
pub open spec fn scrolled_offset(selected: int, offset: int, visible: int) -> int {
    if selected < offset {
        selected
    } else if selected >= offset + visible {
        selected - visible + 1
    } else {
        offset
    }
}

/// Moving the selection keeps it in the list and on screen: for any list
/// of `len > 0` items, any start, any step and any screen of `visible > 0`
/// rows, the new selection is the start plus the step held within the
/// list, and the new scroll offset shows it.
pub proof fn lemma_move_selection(len: nat, current: int, delta: int, offset: int, visible: int)
    requires
        len > 0,
        visible > 0,
    ensures
        0 <= moved_index(len, current, delta) < len,
        current + delta >= 0 && current + delta < len ==> moved_index(len, current, delta) == current + delta,
        scrolled_offset(moved_index(len, current, delta), offset, visible) <= moved_index(len, current, delta)
            < scrolled_offset(moved_index(len, current, delta), offset, visible) + visible,
{
}

/// Moves the selection of a list by `delta` and scrolls so that it stays on
/// screen; an empty list keeps both.  Returns the new selection and offset.
pub fn move_selection(len: usize, selected: usize, offset: usize, delta: i32, visible: usize) -> (r: (usize, usize))
    requires
        len <= i32::MAX,
        selected <= i32::MAX,
        i32::MIN <= selected + delta <= i32::MAX,
        offset + visible <= usize::MAX,
    ensures
        len == 0 ==> r == (selected, offset),
        len > 0 ==> r.0 == moved_index(len as nat, selected as int, delta as int),
        len > 0 ==> r.1 == scrolled_offset(r.0 as int, offset as int, visible as int),
        len > 0 ==> r.0 < len,
        len > 0 && visible > 0 ==> r.1 <= r.0 < r.1 + visible,
{
    if len == 0 {
        return (selected, offset);
    }
    let current = selected as i32;
    let target = current + delta;
    let last = len as i32 - 1;
    let new_index: usize = if target < 0 {
        0
    } else if target > last {
        last as usize
    } else {
        target as usize
    };
    let new_offset = if new_index < offset {
        new_index
    } else if new_index >= offset + visible {
        new_index - visible + 1
    } else {
        offset
    };
    (new_index, new_offset)
}

/// The cursors of the interface: the selection and scroll offset of each
/// tab's list (by the tab's position in the bar) and the field of the
/// Direct Connect form.
pub struct ListCursors {
    pub selected: Vec<usize>,
    pub offsets: Vec<usize>,
    pub direct: DirectConnectField,
}

impl ListCursors {
    /// One selection and one offset for each of the eight tabs.
    pub open spec fn wf(&self) -> bool {
        self.selected@.len() == 8 && self.offsets@.len() == 8
    }

    /// Every list at its top, the form on its first field.
    pub fn new() -> (r: Self)
        ensures
            r.wf(),
            forall|i: int| 0 <= i < 8 ==> r.selected@[i] == 0 && r.offsets@[i] == 0,
            r.direct == DirectConnectField::Address,
    {
        let mut selected: Vec<usize> = Vec::new();
        let mut offsets: Vec<usize> = Vec::new();
        let mut i: usize = 0;
        while i < 8
            invariant
                i <= 8,
                selected@.len() == i,
                offsets@.len() == i,
                forall|j: int| 0 <= j < i ==> selected@[j] == 0 && offsets@[j] == 0,
            decreases 8 - i,
        {
            selected.push(0);
            offsets.push(0);
            i = i + 1;
        }
        ListCursors { selected, offsets, direct: DirectConnectField::Address }
    }

    /// Moves the cursor of `tab` by `delta`: on the Direct Connect form the
    /// field, wrapping round; elsewhere the selection of a list of `len`
    /// items, held within the list and scrolled to stay on a screen of
    /// `visible` rows.  An empty list, and every other tab, keep theirs.
    pub fn move_selection(&mut self, tab: Tab, len: usize, delta: i32, visible: usize)
        requires
            old(self).wf(),
            tab == Tab::DirectConnect ==> field_index(old(self).direct) + delta <= i32::MAX,
            tab != Tab::DirectConnect ==> {
                let k = tab_index(tab) as int;
                &&& len <= i32::MAX
                &&& old(self).selected@[k] <= i32::MAX
                &&& i32::MIN <= old(self).selected@[k] + delta <= i32::MAX
                &&& old(self).offsets@[k] + visible <= usize::MAX
            },
        ensures
            final(self).wf(),
            tab == Tab::DirectConnect ==> final(self).direct == field_at((field_index(old(self).direct) + delta) % 5)
                && final(self).selected@ == old(self).selected@ && final(self).offsets@ == old(self).offsets@,
            tab != Tab::DirectConnect ==> final(self).direct == old(self).direct,
            tab != Tab::DirectConnect && len == 0 ==> final(self).selected@ == old(self).selected@
                && final(self).offsets@ == old(self).offsets@,
            tab != Tab::DirectConnect && len > 0 ==> {
                let k = tab_index(tab) as int;
                let sel = moved_index(len as nat, old(self).selected@[k] as int, delta as int);
                &&& final(self).selected@ == old(self).selected@.update(k, sel as usize)
                &&& final(self).offsets@ == old(self).offsets@.update(
                    k,
                    scrolled_offset(sel, old(self).offsets@[k] as int, visible as int) as usize,
                )
                &&& 0 <= sel < len
                &&& visible > 0 ==> final(self).offsets@[k] <= sel < final(self).offsets@[k] + visible
            },
    {
        if tab == Tab::DirectConnect {
            self.direct = move_field(self.direct, delta);
            return;
        }
        let k: usize = match tab {
            Tab::Servers => 0,
            Tab::Favorites => 1,
            Tab::History => 2,
            Tab::Mods => 3,
            Tab::News => 4,
            Tab::DirectConnect => 5,
            Tab::Options => 6,
            Tab::Offline => 7,
        };
        assert(k == tab_index(tab));
        let (sel, off) = move_selection(len, self.selected[k], self.offsets[k], delta, visible);
        self.selected.set(k, sel);
        self.offsets.set(k, off);
        proof {
            if len == 0 {
                assert(self.selected@ =~= old(self).selected@);
                assert(self.offsets@ =~= old(self).offsets@);
            }
        }
    }
}

/// The scroll position after jumping to the end of a list (`G`): the last
/// item selected, scrolled so that it is the last on screen when the list
/// is longer than the screen.
pub fn jump_to_end(len: usize, selected: usize, offset: usize, visible: usize) -> (r: (usize, usize))
    ensures
        len == 0 ==> r == (selected, offset),
        len > 0 ==> r.0 == len - 1,
        len > 0 ==> r.1 == if len > visible {
            (len - visible) as usize
        } else {
            offset
        },
{
    if len == 0 {
        return (selected, offset);
    }
    let new_offset = if len > visible {
        len - visible
    } else {
        offset
    };
    (len - 1, new_offset)
}

// ------------------------------------------------------------ search

/// Whether a server matches a search query given in lower case: its name
/// (lower-cased) or map (lower-cased) contains it, or its IP does.
pub open spec fn search_matches(s: Server, query: Seq<char>) -> bool {
    contains(lowercase_result(s.name@), query) || contains(s.endpoint.ip@, query) || contains(
        lowercase_result(s.map@),
        query,
    )
}

/// The indices of the servers that match, in order.
pub open spec fn search_spec(servers: Seq<Server>, query: Seq<char>) -> Seq<usize>
    decreases servers.len(),
{
    if servers.len() == 0 {
        Seq::empty()
    } else {
        let p = search_spec(servers.drop_last(), query);
        if search_matches(servers.last(), query) {
            p.push((servers.len() - 1) as usize)
        } else {
            p
        }
    }
}

proof fn lemma_contains_substring(n: Seq<char>, q: Seq<char>)
    ensures
        contains(n, q) == exists|k: int|
            0 <= k && k + q.len() <= n.len() && #[trigger] n.subrange(k, k + q.len()) == q,
{
    if contains(n, q) {
        let k = choose|k: int| occurs_at(n, q, k);
        assert(n.subrange(k, k + q.len()) == q);
    }
    if exists|k: int| 0 <= k && k + q.len() <= n.len() && #[trigger] n.subrange(k, k + q.len()) == q {
        let k = choose|k: int| 0 <= k && k + q.len() <= n.len() && #[trigger] n.subrange(k, k + q.len()) == q;
        assert(occurs_at(n, q, k));
    }
}

proof fn lemma_search_matches_substring(s: Server, query: Seq<char>)
    ensures
        search_matches(s, query) == ((exists|k: int|
            0 <= k && k + query.len() <= lowercase_result(s.name@).len()
                && #[trigger] lowercase_result(s.name@).subrange(k, k + query.len()) == query)
            || (exists|k: int|
            0 <= k && k + query.len() <= s.endpoint.ip@.len()
                && #[trigger] s.endpoint.ip@.subrange(k, k + query.len()) == query)
            || (exists|k: int|
            0 <= k && k + query.len() <= lowercase_result(s.map@).len()
                && #[trigger] lowercase_result(s.map@).subrange(k, k + query.len()) == query)),
{
    lemma_contains_substring(lowercase_result(s.name@), query);
    lemma_contains_substring(s.endpoint.ip@, query);
    lemma_contains_substring(lowercase_result(s.map@), query);
}

/// A search keeps exactly the servers whose lower-cased name, IP or
/// lower-cased map holds the (lower-cased) query somewhere, not only at
/// the start; each index once, in list order.
pub proof fn lemma_search_finds_substrings(servers: Seq<Server>, query: Seq<char>)
    requires
        servers.len() <= usize::MAX,
    ensures
        forall|i: int|
            0 <= i < servers.len() ==> (#[trigger] search_spec(servers, query).contains(i as usize) <==> (
            (exists|k: int|
                0 <= k && k + query.len() <= lowercase_result(servers[i].name@).len()
                    && #[trigger] lowercase_result(servers[i].name@).subrange(k, k + query.len()) == query)
                || (exists|k: int|
                0 <= k && k + query.len() <= servers[i].endpoint.ip@.len()
                    && #[trigger] servers[i].endpoint.ip@.subrange(k, k + query.len()) == query)
                || (exists|k: int|
                0 <= k && k + query.len() <= lowercase_result(servers[i].map@).len()
                    && #[trigger] lowercase_result(servers[i].map@).subrange(k, k + query.len()) == query))),
        forall|j: int, l: int|
            0 <= j < l < search_spec(servers, query).len() ==> #[trigger] search_spec(servers, query)[j]
                < #[trigger] search_spec(servers, query)[l] < servers.len(),
        forall|j: int|
            0 <= j < search_spec(servers, query).len() ==> #[trigger] search_spec(servers, query)[j]
                < servers.len(),
    decreases servers.len(),
{
    if servers.len() > 0 {
        let pre = servers.drop_last();
        lemma_search_finds_substrings(pre, query);
        let p = search_spec(pre, query);
        let r = search_spec(servers, query);
        let last = servers.len() - 1;
        if search_matches(servers.last(), query) {
            assert(r == p.push(last as usize));
        } else {
            assert(r == p);
        }
        assert forall|i: int| 0 <= i < servers.len() implies (#[trigger] r.contains(i as usize) <==> search_matches(
            servers[i],
            query,
        )) by {
            lemma_search_matches_substring(servers[i], query);
            if i < last {
                assert(pre[i] == servers[i]);
                if r.contains(i as usize) {
                    let j = choose|j: int| 0 <= j < r.len() && r[j] == i as usize;
                    if j == p.len() {
                        assert(r[j] == last as usize);
                    }
                    assert(j < p.len());
                    assert(r[j] == p[j]);
                    assert(p[j] == i as usize);
                    assert(p.contains(i as usize));
                }
                if p.contains(i as usize) {
                    let j = choose|j: int| 0 <= j < p.len() && p[j] == i as usize;
                    assert(r[j] == p[j]);
                }
            } else {
                if r.contains(i as usize) {
                    let j = choose|j: int| 0 <= j < r.len() && r[j] == i as usize;
                    if j < p.len() {
                        assert(p[j] < pre.len());
                    }
                }
                if search_matches(servers[i], query) {
                    assert(r[r.len() - 1] == i as usize);
                }
            }
        }
        assert forall|i: int| 0 <= i < servers.len() implies (#[trigger] r.contains(i as usize) <==> (
            (exists|k: int|
                0 <= k && k + query.len() <= lowercase_result(servers[i].name@).len()
                    && #[trigger] lowercase_result(servers[i].name@).subrange(k, k + query.len()) == query)
                || (exists|k: int|
                0 <= k && k + query.len() <= servers[i].endpoint.ip@.len()
                    && #[trigger] servers[i].endpoint.ip@.subrange(k, k + query.len()) == query)
                || (exists|k: int|
                0 <= k && k + query.len() <= lowercase_result(servers[i].map@).len()
                    && #[trigger] lowercase_result(servers[i].map@).subrange(k, k + query.len()) == query))) by {
            lemma_search_matches_substring(servers[i], query);
        }
        assert forall|j: int, l: int| 0 <= j < l < r.len() implies #[trigger] r[j] < #[trigger] r[l] < servers.len() by {
            if l < p.len() {
                assert(r[j] == p[j] && r[l] == p[l]);
            } else {
                assert(r[j] == p[j]);
            }
        }
        assert forall|j: int| 0 <= j < r.len() implies #[trigger] r[j] < servers.len() by {
            if j < p.len() {
                assert(r[j] == p[j]);
            }
        }
    }
}

/// The servers that a search shows: `None` (all of them) for an empty
/// query, else the indices of those whose name, IP or map contains the
/// lower-cased query.
pub fn update_search_filter(servers: &Vec<Server>, query: &str) -> (r: Option<Vec<usize>>)
    ensures
        query@.len() == 0 ==> r is None,
        query@.len() > 0 ==> (r matches Some(v) && v@ == search_spec(
            servers@,
            lowercase_result(query@),
        )),
{
    if to_chars(query).len() == 0 {
        return None;
    }
    let q = to_chars(to_lowercase(query).as_str());
    let mut out: Vec<usize> = Vec::new();
    let mut i: usize = 0;
    while i < servers.len()
        invariant
            i <= servers.len(),
            q@ == lowercase_result(query@),
            out@ == search_spec(servers@.subrange(0, i as int), q@),
        decreases servers.len() - i,
    {
        proof {
            assert(servers@.subrange(0, i + 1).drop_last() =~= servers@.subrange(0, i as int));
        }
        let s = &servers[i];
        let name = to_chars(to_lowercase(s.name.as_str()).as_str());
        let ip = to_chars(s.endpoint.ip.as_str());
        let map = to_chars(to_lowercase(s.map.as_str()).as_str());
        if contains_chars(&name, &q) || contains_chars(&ip, &q) || contains_chars(&map, &q) {
            out.push(i);
        }
        i = i + 1;
    }
    assert(servers@.subrange(0, servers@.len() as int) =~= servers@);
    Some(out)
}

/// A search on the Servers tab: the filter of `update_search_filter`; a
/// non-empty query also moves the selection and the scroll to the top, an
/// empty one leaves them.
pub fn apply_search_filter(servers: &Vec<Server>, query: &str, selected: &mut usize, offset: &mut usize) -> (r: Option<Vec<usize>>)
    ensures
        query@.len() == 0 ==> r is None && *final(selected) == *old(selected) && *final(offset) == *old(offset),
        query@.len() > 0 ==> (r matches Some(v) && v@ == search_spec(servers@, lowercase_result(query@)))
            && *final(selected) == 0 && *final(offset) == 0,
{
    let r = update_search_filter(servers, query);
    if r.is_some() {
        *selected = 0;
        *offset = 0;
    }
    r
}

/// The rows that a search shows are servers of the list, in the list's
/// order, each once: the indices are in range and strictly increasing.
pub proof fn lemma_search_indices(servers: Seq<Server>, query: Seq<char>)
    requires
        servers.len() <= usize::MAX,
    ensures
        forall|i: int| 0 <= i < search_spec(servers, query).len() ==> #[trigger] search_spec(servers, query)[i] < servers.len(),
        forall|i: int, j: int|
            0 <= i < j < search_spec(servers, query).len() ==> #[trigger] search_spec(servers, query)[i]
                < #[trigger] search_spec(servers, query)[j],
        forall|i: int|
            0 <= i < search_spec(servers, query).len() ==> search_matches(
                servers[#[trigger] search_spec(servers, query)[i] as int],
                query,
            ),
    decreases servers.len(),
{
    if servers.len() > 0 {
        let pre = servers.drop_last();
        lemma_search_indices(pre, query);
        let p = search_spec(pre, query);
        let r = search_spec(servers, query);
        let last = (servers.len() - 1) as usize;
        assert forall|i: int| 0 <= i < p.len() implies servers[#[trigger] p[i] as int] == pre[p[i] as int] by {}
        if search_matches(servers.last(), query) {
            assert(r == p.push(last));
            assert forall|i: int, j: int| 0 <= i < j < r.len() implies #[trigger] r[i] < #[trigger] r[j] by {
                assert(r[i] == p[i]);
                if j < p.len() {
                    assert(r[j] == p[j]);
                }
            }
            assert forall|i: int| 0 <= i < r.len() implies search_matches(servers[#[trigger] r[i] as int], query) by {
                if i < p.len() {
                    assert(r[i] == p[i]);
                }
            }
        } else {
            assert(r == p);
        }
    }
}

// ------------------------------------------------------------ popups

/// What a confirmation popup asks to do.
#[derive(Debug)]
pub enum ConfirmAction {
    DeleteMod(u64),
    CleanupMods,
    InstallMods(Vec<u64>),
    RemoveFavorite(String, u16),
    RemoveHistoryEntry(String, u16),
    ClearHistory,
    UpdateThenLaunch(Server, Option<String>),
    LaunchDirect(Server, Option<String>),
}

/// A popup over the interface.
#[derive(Debug)]
pub enum Popup {
    Confirm { title: String, message: String, action: ConfirmAction },
    Info { title: String, message: String },
}

/// What to do after a background mod operation completes.
#[derive(Debug)]
pub enum PendingAfterOp {
    LaunchServer(Server, Option<String>),
    RefreshMods,
}

/// Results sent back from background tasks.
#[derive(Debug)]
pub enum BackgroundResult {
    A2sDetails(Box<ServerDetails>, usize),
    A2sError(String),
    ServerListRefreshed(ServerList),
    ServerListError(String),
    SteamPlayerCount(u32),
    NewsRefreshed(Vec<Article>),
    NewsError(String),
    OfflineModeUpdated,
    OfflineModeError(String),
    LaunchDone(String),
    LaunchError(String),
}

// ------------------------------------------------------------ progress

/// The phase of a background mod operation.
#[derive(Debug)]
pub enum ProgressPhase {
    ShuttingDownSteam,
    Downloading,
    Finished { ok: usize, failed: usize, hint: Option<String> },
}

/// The live progress of a background mod operation.
#[derive(Debug)]
pub struct ProgressState {
    pub current: usize,
    pub total: usize,
    pub current_mod_name: String,
    pub current_mod_id: u64,
    pub phase: ProgressPhase,
    /// `(id, name, success)` of each mod handled so far.
    pub completed: Vec<(u64, String, bool)>,
}

/// Progress as values: current, total, name, id, phase (0 shutting down,
/// 1 downloading, 2 finished), completed mods.
pub open spec fn progress_view(p: ProgressState) -> (nat, nat, Seq<char>, u64, nat, Seq<(u64, Seq<char>, bool)>) {
    (
        p.current as nat,
        p.total as nat,
        p.current_mod_name@,
        p.current_mod_id,
        match p.phase {
            ProgressPhase::ShuttingDownSteam => 0,
            ProgressPhase::Downloading => 1,
            ProgressPhase::Finished { .. } => 2,
        },
        p.completed@.map_values(|c: (u64, String, bool)| (c.0, c.1@, c.2)),
    )
}

/// The progress after one event other than `Finished`: shutting down and
/// starting a mod create the progress when there is none; a finished or
/// failed mod is recorded when there is progress; other events change
/// nothing.
pub open spec fn progress_step_spec(
    state: Option<(nat, nat, Seq<char>, u64, nat, Seq<(u64, Seq<char>, bool)>)>,
    msg: ModProgress,
) -> Option<(nat, nat, Seq<char>, u64, nat, Seq<(u64, Seq<char>, bool)>)> {
    match msg {
        ModProgress::ShuttingDownSteam => match state {
            Some(s) => Some((s.0, s.1, s.2, s.3, 0, s.5)),
            None => Some((0, 0, Seq::empty(), 0, 0, Seq::empty())),
        },
        ModProgress::Starting { current, total, mod_id, name } => match state {
            Some(s) => Some((current as nat, total as nat, name@, mod_id, 1, s.5)),
            None => Some((current as nat, total as nat, name@, mod_id, 1, Seq::empty())),
        },
        ModProgress::Done { current, total, mod_id, name } => match state {
            Some(s) => Some((current as nat, total as nat, s.2, s.3, s.4, s.5.push((mod_id, name@, true)))),
            None => None,
        },
        ModProgress::Failed { current, total, mod_id, name, .. } => match state {
            Some(s) => Some(
                (current as nat, total as nat, s.2, s.3, s.4, s.5.push((mod_id, name@, false))),
            ),
            None => None,
        },
        _ => state,
    }
}

/// Progress as values, when there is some.
pub open spec fn opt_progress_view(o: Option<ProgressState>) -> Option<(nat, nat, Seq<char>, u64, nat, Seq<(u64, Seq<char>, bool)>)> {
    match o {
        Some(p) => Some(progress_view(p)),
        None => None,
    }
}

fn empty_progress(phase: ProgressPhase) -> (r: ProgressState)
    ensures
        r.current == 0,
        r.total == 0,
        r.current_mod_name@.len() == 0,
        r.current_mod_id == 0,
        r.phase == phase,
        r.completed@.len() == 0,
{
    ProgressState {
        current: 0,
        total: 0,
        current_mod_name: from_chars(&Vec::new()),
        current_mod_id: 0,
        phase,
        completed: Vec::new(),
    }
}

/// Applies one progress event other than `Finished` to the progress.
pub fn progress_step(state: Option<ProgressState>, msg: ModProgress) -> (r: Option<ProgressState>)
    requires
        !(msg is Finished),
    ensures
        opt_progress_view(r) == progress_step_spec(opt_progress_view(state), msg),
{
    match msg {
        ModProgress::ShuttingDownSteam => {
            let mut s = match state {
                Some(s) => s,
                None => empty_progress(ProgressPhase::ShuttingDownSteam),
            };
            s.phase = ProgressPhase::ShuttingDownSteam;
            Some(s)
        },
        ModProgress::Starting { current, total, mod_id, name } => {
            let mut s = match state {
                Some(s) => s,
                None => empty_progress(ProgressPhase::Downloading),
            };
            s.current = current;
            s.total = total;
            s.current_mod_name = name;
            s.current_mod_id = mod_id;
            s.phase = ProgressPhase::Downloading;
            Some(s)
        },
        ModProgress::Done { current, total, mod_id, name } => match state {
            Some(mut s) => {
                s.current = current;
                s.total = total;
                let ghost before = s.completed@;
                let ghost n = name@;
                s.completed.push((mod_id, name, true));
                assert(s.completed@.map_values(|c: (u64, String, bool)| (c.0, c.1@, c.2))
                    =~= before.map_values(|c: (u64, String, bool)| (c.0, c.1@, c.2)).push(
                    (mod_id, n, true),
                ));
                Some(s)
            },
            None => None,
        },
        ModProgress::Failed { current, total, mod_id, name, .. } => match state {
            Some(mut s) => {
                s.current = current;
                s.total = total;
                let ghost before = s.completed@;
                let ghost n = name@;
                s.completed.push((mod_id, name, false));
                assert(s.completed@.map_values(|c: (u64, String, bool)| (c.0, c.1@, c.2))
                    =~= before.map_values(|c: (u64, String, bool)| (c.0, c.1@, c.2)).push(
                    (mod_id, n, false),
                ));
                Some(s)
            },
            None => None,
        },
        _ => state,
    }
}

/// A progress event never forgets a finished mod: when there was progress,
/// there still is, and the finished mods before the event come first after
/// it.
pub proof fn lemma_progress_keeps_completed(
    state: (nat, nat, Seq<char>, u64, nat, Seq<(u64, Seq<char>, bool)>),
    msg: ModProgress,
)
    ensures
        progress_step_spec(Some(state), msg) matches Some(s) && s.5.len() >= state.5.len()
            && s.5.subrange(0, state.5.len() as int) == state.5,
{
    match progress_step_spec(Some(state), msg) {
        Some(s) => {
            assert(s.5.subrange(0, state.5.len() as int) =~= state.5);
        },
        None => {},
    }
}

/// How a status message is shown.
#[derive(Debug, Clone, Copy, PartialEq, Eq, Structural)]
pub enum StatusLevel {
    Info,
    Success,
    Warn,
    Error,
}

/// What the interface does when a background operation finishes: the
/// status message, a popup (title and text) if any, and whether the
/// pending follow-up (such as launching the server) runs.
#[derive(Debug)]
pub struct FinishOutcome {
    pub status: String,
    pub level: StatusLevel,
    pub popup: Option<(String, String)>,
    pub run_pending: bool,
}

/// The last line of a text (`str::lines().last()`), trimmed: a final line
/// break does not start another line.
pub open spec fn last_line_trimmed(s: Seq<char>) -> Option<Seq<char>> {
    let p = split(s, '\n');
    let q = if p.last().len() == 0 {
        p.drop_last()
    } else {
        p
    };
    if q.len() == 0 {
        None
    } else {
        Some(trim(q.last()))
    }
}

/// The login command that a hint ends with, or a generic one.
pub open spec fn login_command(hint: Seq<char>) -> Seq<char> {
    match last_line_trimmed(hint) {
        Some(l) => l,
        None => "steamcmd +login <user> +quit"@,
    }
}

/// The text of the popup that asks for a steamcmd login.
pub open spec fn login_popup_text(cmd: Seq<char>) -> Seq<char> {
    "Your steamcmd credentials are missing or expired.\nNo mods were downloaded.\n\nRun this command in a terminal, then try again:\n\n"@
        + cmd + "\n\nPress any key to dismiss."@
}

/// What finishing with `ok` successes and `failed` failures out of `total`
/// and the given hint shows.
pub open spec fn finish_spec(ok: usize, failed: usize, total: usize, hint: Option<Seq<char>>) -> (Seq<char>, StatusLevel, Option<(Seq<char>, Seq<char>)>, bool) {
    match hint {
        Some(h) => (
            "steamcmd credentials expired \u{2014} see popup"@,
            StatusLevel::Error,
            if contains(h, "Cached credentials not found"@) {
                Some(("SteamCMD Login Required"@, login_popup_text(login_command(h))))
            } else {
                None
            },
            false,
        ),
        None => if failed == 0 {
            if total == 0 {
                ("All mods already up to date"@, StatusLevel::Success, None, true)
            } else {
                ("Completed: "@ + dec(ok as nat) + " mods OK"@, StatusLevel::Success, None, true)
            }
        } else {
            (
                "Completed: "@ + dec(ok as nat) + " OK, "@ + dec(failed as nat) + " failed"@,
                StatusLevel::Warn,
                None,
                true,
            )
        },
    }
}

fn last_line_of(s: &Vec<char>) -> (r: Option<Vec<char>>)
    ensures
        match r {
            Some(l) => last_line_trimmed(s@) == Some(l@),
            None => last_line_trimmed(s@) is None,
        },
{
    let p = split_chars(s, '\n');
    proof {
        crate::text::lemma_split_nonempty(s@, '\n');
    }
    let n = p.len();
    let k = if p[n - 1].len() == 0 {
        n - 1
    } else {
        n
    };
    proof {
        let sp = split(s@, '\n');
        let q = if sp.last().len() == 0 {
            sp.drop_last()
        } else {
            sp
        };
        assert(q.len() == k);
        if k > 0 {
            assert(q.last() == p@[k - 1]@);
        }
    }
    if k == 0 {
        None
    } else {
        Some(trim_chars(&p[k - 1]))
    }
}

/// What the interface shows when a background operation finishes.
pub fn finish_outcome(ok: usize, failed: usize, total: usize, hint: &Option<String>) -> (r: FinishOutcome)
    ensures
        ({
            let e = finish_spec(
                ok,
                failed,
                total,
                match hint {
                    Some(h) => Some(h@),
                    None => None,
                },
            );
            &&& r.status@ == e.0
            &&& r.level == e.1
            &&& match (r.popup, e.2) {
                (Some(p), Some(q)) => p.0@ == q.0 && p.1@ == q.1,
                (None, None) => true,
                _ => false,
            }
            &&& r.run_pending == e.3
        }),
{
    match hint {
        Some(h) => {
            let hc = to_chars(h.as_str());
            let popup = if contains_chars(&hc, &to_chars("Cached credentials not found")) {
                let cmd = match last_line_of(&hc) {
                    Some(l) => l,
                    None => to_chars("steamcmd +login <user> +quit"),
                };
                let mut m = to_chars(
                    "Your steamcmd credentials are missing or expired.\nNo mods were downloaded.\n\nRun this command in a terminal, then try again:\n\n",
                );
                push_all(&mut m, &cmd);
                push_str(&mut m, "\n\nPress any key to dismiss.");
                Some((from_chars(&to_chars("SteamCMD Login Required")), from_chars(&m)))
            } else {
                None
            };
            FinishOutcome {
                status: from_chars(&to_chars("steamcmd credentials expired \u{2014} see popup")),
                level: StatusLevel::Error,
                popup,
                run_pending: false,
            }
        },
        None => {
            if failed == 0 {
                if total == 0 {
                    FinishOutcome {
                        status: from_chars(&to_chars("All mods already up to date")),
                        level: StatusLevel::Success,
                        popup: None,
                        run_pending: true,
                    }
                } else {
                    let mut m = to_chars("Completed: ");
                    push_all(&mut m, &u64_to_dec(ok as u64));
                    push_str(&mut m, " mods OK");
                    FinishOutcome {
                        status: from_chars(&m),
                        level: StatusLevel::Success,
                        popup: None,
                        run_pending: true,
                    }
                }
            } else {
                let mut m = to_chars("Completed: ");
                push_all(&mut m, &u64_to_dec(ok as u64));
                push_str(&mut m, " OK, ");
                push_all(&mut m, &u64_to_dec(failed as u64));
                push_str(&mut m, " failed");
                FinishOutcome {
                    status: from_chars(&m),
                    level: StatusLevel::Warn,
                    popup: None,
                    run_pending: true,
                }
            }
        },
    }
}

// ------------------------------------------------------------ polling a mod operation

/// What the interface keeps of a running background mod operation: the
/// progress shown, whether its messages are still received, whether it
/// counts as loading, and what runs after it.
#[derive(Debug)]
pub struct ProgressSession {
    pub progress: Option<ProgressState>,
    pub receiving: bool,
    pub loading: bool,
    pub pending: Option<PendingAfterOp>,
}

/// What a `Finished` message leads to: what the interface shows, and the
/// follow-up to run now (the installed mods are reloaded in any case).
#[derive(Debug)]
pub struct FinishReport {
    pub outcome: FinishOutcome,
    pub follow_up: Option<PendingAfterOp>,
}

/// `report` shows what `finish_spec` gives for a `Finished` message.
pub open spec fn shows_finish(report: FinishReport, ok: usize, failed: usize, total: usize, hint: Option<String>) -> bool {
    let e = finish_spec(
        ok,
        failed,
        total,
        match hint {
            Some(h) => Some(h@),
            None => None,
        },
    );
    &&& report.outcome.status@ == e.0
    &&& report.outcome.level == e.1
    &&& match (report.outcome.popup, e.2) {
        (Some(p), Some(q)) => p.0@ == q.0 && p.1@ == q.1,
        (None, None) => true,
        _ => false,
    }
    &&& report.outcome.run_pending == e.3
}

/// Handles one message of a background mod operation.  A message other
/// than `Finished` updates the progress (`progress_step_spec`) and polling
/// goes on (`None`).  `Finished` ends the operation: polling stops, the
/// progress, the receiving and the loading end, the pending follow-up is
/// taken, and it is handed back to run only when there is no hint.
pub fn progress_event(s: &mut ProgressSession, msg: ModProgress) -> (r: Option<FinishReport>)
    ensures
        !(msg is Finished) ==> {
            &&& r is None
            &&& opt_progress_view(final(s).progress) == progress_step_spec(opt_progress_view(old(s).progress), msg)
            &&& final(s).receiving == old(s).receiving
            &&& final(s).loading == old(s).loading
            &&& final(s).pending == old(s).pending
        },
        msg matches ModProgress::Finished { ok, failed, total, hint } ==> {
            &&& final(s).progress is None
            &&& !final(s).receiving
            &&& !final(s).loading
            &&& final(s).pending is None
            &&& r matches Some(rep)
            &&& shows_finish(rep, ok, failed, total, hint)
            &&& rep.follow_up == if hint is None {
                old(s).pending
            } else {
                None
            }
        },
{
    match msg {
        ModProgress::Finished { ok, failed, total, hint } => {
            let outcome = finish_outcome(ok, failed, total, &hint);
            let mut after: Option<PendingAfterOp> = None;
            std::mem::swap(&mut after, &mut s.pending);
            let follow_up = if hint.is_none() {
                after
            } else {
                None
            };
            s.loading = false;
            s.receiving = false;
            s.progress = None;
            Some(FinishReport { outcome, follow_up })
        },
        other => {
            let mut p: Option<ProgressState> = None;
            std::mem::swap(&mut p, &mut s.progress);
            s.progress = progress_step(p, other);
            None
        },
    }
}

/// The progress after a run of messages none of which is `Finished`.
pub open spec fn progress_steps(
    state: Option<(nat, nat, Seq<char>, u64, nat, Seq<(u64, Seq<char>, bool)>)>,
    msgs: Seq<ModProgress>,
) -> Option<(nat, nat, Seq<char>, u64, nat, Seq<(u64, Seq<char>, bool)>)>
    decreases msgs.len(),
{
    if msgs.len() == 0 {
        state
    } else {
        progress_step_spec(progress_steps(state, msgs.drop_last()), msgs.last())
    }
}

/// Where the first `Finished` message stands in a queue.
pub open spec fn first_finished(msgs: Seq<ModProgress>) -> Option<int>
    decreases msgs.len(),
{
    if msgs.len() == 0 {
        None
    } else {
        match first_finished(msgs.drop_last()) {
            Some(i) => Some(i),
            None => if msgs.last() is Finished {
                Some(msgs.len() - 1)
            } else {
                None
            },
        }
    }
}

/// One poll of a background mod operation over the messages queued so far,
/// in order: the messages up to the first `Finished` are handled, the ones
/// after it stay queued.  Gives whether polling goes on (no `Finished` was
/// met) and, when one was, what it leads to (`progress_event`).
pub fn poll_progress(s: &mut ProgressSession, queue: &mut Vec<ModProgress>) -> (r: (bool, Option<FinishReport>))
    ensures
        match first_finished(old(queue)@) {
            None => {
                &&& r.0 && r.1 is None
                &&& final(queue)@.len() == 0
                &&& opt_progress_view(final(s).progress) == progress_steps(opt_progress_view(old(s).progress), old(queue)@)
                &&& final(s).receiving == old(s).receiving
                &&& final(s).loading == old(s).loading
                &&& final(s).pending == old(s).pending
            },
            Some(k) => {
                &&& !r.0
                &&& final(queue)@ == old(queue)@.skip(k + 1)
                &&& final(s).progress is None
                &&& !final(s).receiving
                &&& !final(s).loading
                &&& final(s).pending is None
                &&& (old(queue)@[k] matches ModProgress::Finished { ok, failed, total, hint } && (r.1 matches Some(
                    rep,
                ) && shows_finish(rep, ok, failed, total, hint) && rep.follow_up == if hint is None {
                    old(s).pending
                } else {
                    None
                }))
            },
        },
{
    let ghost q0 = queue@;
    let ghost p0 = opt_progress_view(s.progress);
    let ghost r0 = s.receiving;
    let ghost l0 = s.loading;
    let ghost pend0 = s.pending;
    let ghost mut k: int = 0;
    while queue.len() > 0
        invariant
            0 <= k <= q0.len(),
            q0 == old(queue)@,
            pend0 == old(s).pending,
            queue@ == q0.skip(k),
            first_finished(q0.take(k)) is None,
            opt_progress_view(s.progress) == progress_steps(p0, q0.take(k)),
            s.receiving == r0,
            s.loading == l0,
            s.pending == pend0,
        decreases queue.len(),
    {
        let msg = queue.remove(0);
        proof {
            assert(msg == q0[k]);
            assert(q0.take(k + 1).drop_last() =~= q0.take(k));
            assert(q0.take(k + 1).last() == q0[k]);
        }
        let fin = match &msg {
            ModProgress::Finished { .. } => true,
            _ => false,
        };
        let ghost m = msg;
        let rep = progress_event(s, msg);
        proof {
            assert(q0[k] == m);
            k = k + 1;
            assert(queue@ =~= q0.skip(k));
        }
        if fin {
            proof {
                assert(first_finished(q0.take(k)) == Some(k - 1));
                lemma_first_finished_prefix(q0, k);
                assert(q0[k - 1] == m);
                match m {
                    ModProgress::Finished { ok, failed, total, hint } => {
                        assert(rep matches Some(x) && shows_finish(x, ok, failed, total, hint) && x.follow_up
                            == if hint is None {
                            pend0
                        } else {
                            None
                        });
                    },
                    _ => {},
                }
                let kk = k - 1;
                assert(first_finished(q0) == Some(kk));
                assert(q0 == old(queue)@);
                assert(q0[kk] matches ModProgress::Finished { ok, failed, total, hint } && (rep matches Some(x)
                    && shows_finish(x, ok, failed, total, hint) && x.follow_up == if hint is None {
                    pend0
                } else {
                    None
                }));
            }
            return (false, rep);
        }
    }
    proof {
        assert(q0.take(k) =~= q0);
    }
    (true, None)
}

proof fn lemma_first_finished_prefix(q: Seq<ModProgress>, k: int)
    requires
        0 < k <= q.len(),
        first_finished(q.take(k)) == Some(k - 1),
    ensures
        first_finished(q) == Some(k - 1),
    decreases q.len(),
{
    if q.len() > k {
        assert(q.drop_last().take(k) =~= q.take(k));
        lemma_first_finished_prefix(q.drop_last(), k);
    } else {
        assert(q.take(k) =~= q);
    }
}

/// When the operation's messages stop without `Finished`: everything ends
/// and the interface reports the error.
pub fn progress_lost(s: &mut ProgressSession) -> (r: String)
    ensures
        final(s).progress is None,
        !final(s).receiving,
        !final(s).loading,
        final(s).pending == old(s).pending,
        r@ == "Operation ended unexpectedly"@,
{
    s.loading = false;
    s.receiving = false;
    s.progress = None;
    from_chars(&to_chars("Operation ended unexpectedly"))
}

} // verus!
