//! The bars around the terminal interface's screens (title, tabs, status)
//! and the text of its popups, as lines of coloured text.

use vstd::prelude::*;
use crate::api::Server;
use crate::overlay::{lines_of, text_lines};
use crate::screens::{blank, dec_chars, line_view, lines_view, push_line, push_span, span, sv, Color, Span, SpanView};
use crate::text::{dec, dec_int, from_chars, i64_to_dec, push_all, push_str, to_chars};
use crate::tui::{tab_at, Popup, StatusLevel, Tab};
use crate::widgets::{keybinds_for_tab, keybinds_spec};

verus! {

// ------------------------------------------------------------ title bar

/// The players of the servers, added up.
pub open spec fn players_total(servers: Seq<Server>) -> int
    decreases servers.len(),
{
    if servers.len() == 0 {
        0
    } else {
        players_total(servers.drop_last()) + servers.last().players
    }
}

/// Every running total of the players fits an `i64`.
pub open spec fn totals_fit(servers: Seq<Server>) -> bool {
    forall|k: int| 0 <= k <= servers.len() ==> i64::MIN <= #[trigger] players_total(servers.take(k)) <= i64::MAX
}

/// The separator of the title bar.
pub open spec fn title_sep() -> SpanView {
    sv(" | "@, Color::White)
}

/// The title bar: the launcher's name, the Steam player count (`…` until
/// known), the players on the listed servers, the number of servers (shown
/// of all, while filtered), the player's name and the steamcmd login.
pub open spec fn title_bar_spec(
    servers: Seq<Server>,
    shown: Option<nat>,
    steam_players: Option<u32>,
    player: Option<Seq<char>>,
    login: Option<Seq<char>>,
) -> Seq<SpanView> {
    let count = match shown {
        Some(n) => dec(n) + "/"@ + dec(servers.len()),
        None => dec(servers.len()),
    };
    seq![
        (" DayZ-SA Multi Launcher "@, Color::Yellow, Color::DarkGray, true),
        title_sep(),
        sv("Steam: "@, Color::Gray),
        sv(
            match steam_players {
                Some(n) => dec(n as nat),
                None => "\u{2026}"@,
            },
            Color::Blue,
        ),
        title_sep(),
        sv("DzSA: "@, Color::Gray),
        sv(dec_int(players_total(servers)), Color::Green),
        title_sep(),
        sv("Servers: "@, Color::Gray),
        sv(count, Color::Red),
        title_sep(),
        sv(
            match player {
                Some(p) => p,
                None => "unnamed"@,
            },
            Color::Cyan,
        ),
        title_sep(),
        sv(
            match login {
                Some(l) => l,
                None => "no steamcmd"@,
            } + " "@,
            Color::Magenta,
        ),
    ]
}

/// The players of the servers, added up.
pub(crate) fn sum_players(servers: &Vec<Server>) -> (r: i64)
    requires
        totals_fit(servers@),
    ensures
        r == players_total(servers@),
{
    let mut total: i64 = 0;
    let mut i: usize = 0;
    while i < servers.len()
        invariant
            i <= servers.len(),
            totals_fit(servers@),
            total == players_total(servers@.take(i as int)),
        decreases servers.len() - i,
    {
        assert(servers@.take(i + 1).drop_last() =~= servers@.take(i as int));
        assert(i64::MIN <= players_total(servers@.take(i + 1)) <= i64::MAX);
        total = total + servers[i].players;
        i = i + 1;
    }
    assert(servers@.take(servers@.len() as int) =~= servers@);
    total
}

fn opt_text(o: Option<&str>, default: &str) -> (r: Vec<char>)
    ensures
        r@ == match o {
            Some(s) => s@,
            None => default@,
        },
{
    match o {
        Some(s) => to_chars(s),
        None => to_chars(default),
    }
}

/// The title bar; `shown` is the number of servers that the search filter
/// lets through, while one is active.
pub fn title_bar(
    servers: &Vec<Server>,
    shown: Option<usize>,
    steam_players: Option<u32>,
    player: Option<&str>,
    login: Option<&str>,
) -> (r: Vec<Span>)
    requires
        totals_fit(servers@),
    ensures
        line_view(r) == title_bar_spec(
            servers@,
            match shown {
                Some(n) => Some(n as nat),
                None => None,
            },
            steam_players,
            match player {
                Some(p) => Some(p@),
                None => None,
            },
            match login {
                Some(l) => Some(l@),
                None => None,
            },
        ),
{
    let mut l: Vec<Span> = Vec::new();
    push_span(&mut l, span(to_chars(" DayZ-SA Multi Launcher "), Color::Yellow, Color::DarkGray, true));
    push_span(&mut l, span(to_chars(" | "), Color::White, Color::Reset, false));
    push_span(&mut l, span(to_chars("Steam: "), Color::Gray, Color::Reset, false));
    let steam = match steam_players {
        Some(n) => dec_chars(n as u64),
        None => to_chars("\u{2026}"),
    };
    push_span(&mut l, span(steam, Color::Blue, Color::Reset, false));
    push_span(&mut l, span(to_chars(" | "), Color::White, Color::Reset, false));
    push_span(&mut l, span(to_chars("DzSA: "), Color::Gray, Color::Reset, false));
    push_span(&mut l, span(i64_to_dec(sum_players(servers)), Color::Green, Color::Reset, false));
    push_span(&mut l, span(to_chars(" | "), Color::White, Color::Reset, false));
    push_span(&mut l, span(to_chars("Servers: "), Color::Gray, Color::Reset, false));
    let mut count: Vec<char> = Vec::new();
    match shown {
        Some(n) => {
            push_all(&mut count, &dec_chars(n as u64));
            push_str(&mut count, "/");
        },
        None => {},
    }
    push_all(&mut count, &dec_chars(servers.len() as u64));
    push_span(&mut l, span(count, Color::Red, Color::Reset, false));
    push_span(&mut l, span(to_chars(" | "), Color::White, Color::Reset, false));
    push_span(&mut l, span(opt_text(player, "unnamed"), Color::Cyan, Color::Reset, false));
    push_span(&mut l, span(to_chars(" | "), Color::White, Color::Reset, false));
    let mut lg = opt_text(login, "no steamcmd");
    push_str(&mut lg, " ");
    push_span(&mut l, span(lg, Color::Magenta, Color::Reset, false));
    assert(line_view(l) =~= title_bar_spec(
        servers@,
        match shown {
            Some(n) => Some(n as nat),
            None => None,
        },
        steam_players,
        match player {
            Some(p) => Some(p@),
            None => None,
        },
        match login {
            Some(x) => Some(x@),
            None => None,
        },
    ));
    l
}

// ------------------------------------------------------------ tab bar

/// The counts that the tab bar shows beside some tabs.
#[derive(Debug, Clone, Copy)]
pub struct TabCounts {
    pub favorites: usize,
    pub history: usize,
    /// Installed mods (0 until they are loaded).
    pub mods: usize,
}

/// A tab's title as the tab bar shows it.
pub open spec fn tab_label(t: Tab) -> Seq<char> {
    match t {
        Tab::Servers => "Servers"@,
        Tab::Favorites => "Favorites"@,
        Tab::History => "History"@,
        Tab::Mods => "Mods"@,
        Tab::News => "News"@,
        Tab::DirectConnect => "Connect"@,
        Tab::Options => "Options"@,
        Tab::Offline => "Offline"@,
    }
}

/// The count beside a tab, in brackets: favorites, history and mods.
pub open spec fn tab_extra(t: Tab, c: TabCounts) -> Seq<char> {
    match t {
        Tab::Favorites => "("@ + dec(c.favorites as nat) + ")"@,
        Tab::History => "("@ + dec(c.history as nat) + ")"@,
        Tab::Mods => "("@ + dec(c.mods as nat) + ")"@,
        _ => Seq::empty(),
    }
}

/// The two spans of the `i`-th tab: its title (yellow and bold when it is
/// the current tab) and the separator after it (a space after the last).
pub open spec fn tab_spans(i: nat, current: Tab, c: TabCounts) -> Seq<SpanView> {
    let t = tab_at(i);
    seq![
        if t == current {
            (" "@ + tab_label(t) + tab_extra(t, c) + " "@, Color::Yellow, Color::Reset, true)
        } else {
            sv(" "@ + tab_label(t) + tab_extra(t, c) + " "@, Color::DarkGray)
        },
        if i < 7 {
            sv(" | "@, Color::DarkGray)
        } else {
            sv(" "@, Color::Reset)
        },
    ]
}

/// The spans of the first `n` tabs.
pub open spec fn tabs_spans(n: nat, current: Tab, c: TabCounts) -> Seq<SpanView>
    decreases n,
{
    if n == 0 {
        Seq::empty()
    } else {
        tabs_spans((n - 1) as nat, current, c) + tab_spans((n - 1) as nat, current, c)
    }
}

/// The tab bar: every tab in order, then, while searching, the query with
/// a `_` cursor (drawn blinking).
pub open spec fn tab_bar_spec(current: Tab, c: TabCounts, search: Option<Seq<char>>) -> Seq<SpanView> {
    tabs_spans(8, current, c) + match search {
        Some(q) => seq![sv("  Search: "@, Color::Yellow), sv(q, Color::White), sv("_"@, Color::Yellow)],
        None => Seq::empty(),
    }
}

fn tab_extra_chars(t: Tab, c: TabCounts) -> (r: Vec<char>)
    ensures
        r@ == tab_extra(t, c),
{
    let n: usize = match t {
        Tab::Favorites => c.favorites,
        Tab::History => c.history,
        Tab::Mods => c.mods,
        _ => {
            return Vec::new();
        },
    };
    let mut v = to_chars("(");
    push_all(&mut v, &dec_chars(n as u64));
    push_str(&mut v, ")");
    v
}

/// The tab bar; `search` is the query while the search prompt is open.
pub fn tab_bar(current: Tab, c: TabCounts, search: Option<&str>) -> (r: Vec<Span>)
    ensures
        line_view(r) == tab_bar_spec(
            current,
            c,
            match search {
                Some(q) => Some(q@),
                None => None,
            },
        ),
{
    let tabs = Tab::all();
    let mut l: Vec<Span> = Vec::new();
    let mut i: usize = 0;
    while i < 8
        invariant
            i <= 8,
            tabs@.len() == 8,
            forall|k: int| 0 <= k < 8 ==> #[trigger] tabs@[k] == tab_at(k as nat),
            line_view(l) == tabs_spans(i as nat, current, c),
        decreases 8 - i,
    {
        let t = tabs[i];
        let mut text = to_chars(" ");
        push_str(&mut text, t.label());
        push_all(&mut text, &tab_extra_chars(t, c));
        push_str(&mut text, " ");
        if t == current {
            push_span(&mut l, span(text, Color::Yellow, Color::Reset, true));
        } else {
            push_span(&mut l, span(text, Color::DarkGray, Color::Reset, false));
        }
        if i < 7 {
            push_span(&mut l, span(to_chars(" | "), Color::DarkGray, Color::Reset, false));
        } else {
            push_span(&mut l, span(to_chars(" "), Color::Reset, Color::Reset, false));
        }
        assert(line_view(l) =~= tabs_spans((i + 1) as nat, current, c));
        i = i + 1;
    }
    let ghost before = line_view(l);
    match search {
        Some(q) => {
            push_span(&mut l, span(to_chars("  Search: "), Color::Yellow, Color::Reset, false));
            push_span(&mut l, span(to_chars(q), Color::White, Color::Reset, false));
            push_span(&mut l, span(to_chars("_"), Color::Yellow, Color::Reset, false));
        },
        None => {},
    }
    assert(line_view(l) =~= tab_bar_spec(
        current,
        c,
        match search {
            Some(q) => Some(q@),
            None => None,
        },
    ));
    l
}

// ------------------------------------------------------------ status bar

/// The colour of a status message.
pub open spec fn level_color(level: StatusLevel) -> Color {
    match level {
        StatusLevel::Info => Color::Cyan,
        StatusLevel::Success => Color::Green,
        StatusLevel::Warn => Color::Yellow,
        StatusLevel::Error => Color::Red,
    }
}

/// The status bar: the status message in its colour, if any, then the
/// current tab's keys.
pub open spec fn status_bar_spec(status: Option<(Seq<char>, StatusLevel)>, keys: Seq<char>) -> Seq<SpanView> {
    match status {
        Some((m, level)) => seq![sv(m, level_color(level)), sv(" | "@, Color::DarkGray), sv(keys, Color::DarkGray)],
        None => seq![sv(keys, Color::DarkGray)],
    }
}

/// The status bar.
pub fn status_bar(tab: Tab, status: Option<(&str, StatusLevel)>) -> (r: Vec<Span>)
    ensures
        line_view(r) == status_bar_spec(
            match status {
                Some((m, level)) => Some((m@, level)),
                None => None,
            },
            keybinds_spec(tab),
        ),
{
    let keys = keybinds_for_tab(tab);
    let mut l: Vec<Span> = Vec::new();
    match status {
        Some((m, level)) => {
            let c = match level {
                StatusLevel::Info => Color::Cyan,
                StatusLevel::Success => Color::Green,
                StatusLevel::Warn => Color::Yellow,
                StatusLevel::Error => Color::Red,
            };
            push_span(&mut l, span(to_chars(m), c, Color::Reset, false));
            push_span(&mut l, span(to_chars(" | "), Color::DarkGray, Color::Reset, false));
        },
        None => {},
    }
    push_span(&mut l, span(to_chars(keys), Color::DarkGray, Color::Reset, false));
    assert(line_view(l) =~= status_bar_spec(
        match status {
            Some((m, level)) => Some((m@, level)),
            None => None,
        },
        keys@,
    ));
    l
}

// ------------------------------------------------------------ popups

/// The text of a popup: its title, the colour of its frame and its lines
/// (the message's lines, a blank line, then the answers it waits for; the
/// dismiss hint of an information popup is drawn in italics).
pub open spec fn popup_spec(p: Popup) -> (Seq<char>, Color, Seq<Seq<SpanView>>) {
    match p {
        Popup::Confirm { title, message, .. } => (
            title@,
            Color::Yellow,
            text_lines(message@).map_values(|t: Seq<char>| seq![sv(t, Color::Reset)]) + seq![
                Seq::empty(),
                seq![("[y] Yes  "@, Color::Green, Color::Reset, true), ("[n] No"@, Color::Red, Color::Reset, true)],
            ],
        ),
        Popup::Info { title, message } => (
            title@,
            Color::Red,
            text_lines(message@).map_values(|t: Seq<char>| seq![sv(t, Color::Reset)]) + seq![
                Seq::empty(),
                seq![sv("[Press any key to dismiss]"@, Color::DarkGray)],
            ],
        ),
    }
}

/// The text of a popup.
pub fn popup_text(p: &Popup) -> (r: (String, Color, Vec<Vec<Span>>))
    ensures
        (r.0@, r.1, lines_view(r.2@)) =~~= popup_spec(*p),
{
    let (title, message, frame) = match p {
        Popup::Confirm { title, message, .. } => (title, message, Color::Yellow),
        Popup::Info { title, message } => (title, message, Color::Red),
    };
    let parts = lines_of(message.as_str());
    let ghost tl = text_lines(message@);
    let mut out: Vec<Vec<Span>> = Vec::new();
    let mut i: usize = 0;
    while i < parts.len()
        invariant
            i <= parts.len(),
            crate::text::string_views(parts@) == tl,
            lines_view(out@) =~~= tl.subrange(0, i as int).map_values(|t: Seq<char>| seq![sv(t, Color::Reset)]),
        decreases parts.len() - i,
    {
        let mut l: Vec<Span> = Vec::new();
        push_span(&mut l, span(to_chars(parts[i].as_str()), Color::Reset, Color::Reset, false));
        let ghost before = lines_view(out@);
        push_line(&mut out, l);
        assert(tl[i as int] == parts@[i as int]@);
        assert(tl.subrange(0, i + 1).map_values(|t: Seq<char>| seq![sv(t, Color::Reset)]) =~~= tl.subrange(
            0,
            i as int,
        ).map_values(|t: Seq<char>| seq![sv(t, Color::Reset)]).push(seq![sv(tl[i as int], Color::Reset)]));
        i = i + 1;
    }
    assert(tl.subrange(0, tl.len() as int) =~= tl);
    let ghost body = lines_view(out@);
    push_line(&mut out, blank());
    let mut last: Vec<Span> = Vec::new();
    match p {
        Popup::Confirm { .. } => {
            push_span(&mut last, span(to_chars("[y] Yes  "), Color::Green, Color::Reset, true));
            push_span(&mut last, span(to_chars("[n] No"), Color::Red, Color::Reset, true));
        },
        Popup::Info { .. } => {
            push_span(&mut last, span(to_chars("[Press any key to dismiss]"), Color::DarkGray, Color::Reset, false));
        },
    }
    push_line(&mut out, last);
    (from_chars(&to_chars(title.as_str())), frame, out)
}

} // verus!
