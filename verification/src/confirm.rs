//! The terminal interface's confirmations and status reports: what a
//! removal asks before it runs, and what each finished background task
//! reports.

use vstd::prelude::*;
use crate::config::{Favorite, History};
use crate::ctl::ModOperation;
use crate::mods::InstalledMod;
use crate::screens::Color;
use crate::mods::{format_size, format_size_spec};
use crate::text::{dec, from_chars, push_all, push_str, to_chars, u64_to_dec};
use crate::tui::{BackgroundResult, ConfirmAction, Popup, StatusLevel, Tab};

verus! {

/// The question asked before removing an entry: `Remove '<name>'
/// (<ip>:<port>) from <list>?`.
pub open spec fn removal_question(name: Seq<char>, ip: Seq<char>, port: u16, list: Seq<char>) -> Seq<char> {
    "Remove '"@ + name + "' ("@ + ip + ":"@ + dec(port as nat) + ") from "@ + list + "?"@
}

fn question(name: &str, ip: &str, port: u16, list: &str) -> (r: String)
    ensures
        r@ == removal_question(name@, ip@, port, list@),
{
    let mut m = to_chars("Remove '");
    push_str(&mut m, name);
    push_str(&mut m, "' (");
    push_str(&mut m, ip);
    push_str(&mut m, ":");
    push_all(&mut m, &u64_to_dec(port as u64));
    push_str(&mut m, ") from ");
    push_str(&mut m, list);
    push_str(&mut m, "?");
    from_chars(&m)
}

fn copy_text(s: &str) -> (r: String)
    ensures
        r@ == s@,
{
    from_chars(&to_chars(s))
}

/// On the Favorites tab, the confirmation for removing the selected
/// favorite; nothing elsewhere or when nothing is selected.
pub fn remove_favorite_prompt(tab: Tab, favorites: &Vec<Favorite>, selected: usize) -> (r: Option<Popup>)
    ensures
        (tab == Tab::Favorites && selected < favorites@.len()) <==> r is Some,
        r matches Some(p) ==> (p matches Popup::Confirm { title, message, action }
            && title@ == "Remove Favorite"@
            && message@ == removal_question(
                favorites@[selected as int].name@,
                favorites@[selected as int].ip@,
                favorites@[selected as int].port,
                "favorites"@,
            )
            && (action matches ConfirmAction::RemoveFavorite(ip, port)
            && ip@ == favorites@[selected as int].ip@
            && port == favorites@[selected as int].port)),
{
    if tab != Tab::Favorites || selected >= favorites.len() {
        return None;
    }
    let f = &favorites[selected];
    let message = question(f.name.as_str(), f.ip.as_str(), f.port, "favorites");
    Some(Popup::Confirm {
        title: copy_text("Remove Favorite"),
        message,
        action: ConfirmAction::RemoveFavorite(copy_text(f.ip.as_str()), f.port),
    })
}

/// On the History tab, the confirmation for removing the selected entry;
/// nothing elsewhere or when nothing is selected.
pub fn remove_history_prompt(tab: Tab, history: &Vec<History>, selected: usize) -> (r: Option<Popup>)
    ensures
        (tab == Tab::History && selected < history@.len()) <==> r is Some,
        r matches Some(p) ==> (p matches Popup::Confirm { title, message, action }
            && title@ == "Remove History Entry"@
            && message@ == removal_question(
                history@[selected as int].name@,
                history@[selected as int].ip@,
                history@[selected as int].port,
                "history"@,
            )
            && (action matches ConfirmAction::RemoveHistoryEntry(ip, port)
            && ip@ == history@[selected as int].ip@
            && port == history@[selected as int].port)),
{
    if tab != Tab::History || selected >= history.len() {
        return None;
    }
    let h = &history[selected];
    let message = question(h.name.as_str(), h.ip.as_str(), h.port, "history");
    Some(Popup::Confirm {
        title: copy_text("Remove History Entry"),
        message,
        action: ConfirmAction::RemoveHistoryEntry(copy_text(h.ip.as_str()), h.port),
    })
}

/// What asking to clear the history does.
#[derive(Debug)]
pub enum ClearHistoryPrompt {
    /// Not on the History tab: nothing happens.
    Ignored,
    /// The history is empty: an info message says so.
    AlreadyEmpty(String),
    /// The confirmation to show.
    Ask(Popup),
}

/// On the History tab, the confirmation for clearing a history of `len`
/// entries, or the message that it is already empty.
pub fn clear_history_prompt(tab: Tab, len: usize) -> (r: ClearHistoryPrompt)
    ensures
        tab != Tab::History ==> r is Ignored,
        tab == Tab::History && len == 0 ==> (r matches ClearHistoryPrompt::AlreadyEmpty(m)
            && m@ == "History is already empty"@),
        tab == Tab::History && len > 0 ==> (r matches ClearHistoryPrompt::Ask(p)
            && (p matches Popup::Confirm { title, message, action }
            && title@ == "Clear History"@
            && message@ == "Clear all "@ + dec(len as nat) + " history entries?"@
            && action is ClearHistory)),
{
    if tab != Tab::History {
        return ClearHistoryPrompt::Ignored;
    }
    if len == 0 {
        return ClearHistoryPrompt::AlreadyEmpty(copy_text("History is already empty"));
    }
    let mut m = to_chars("Clear all ");
    push_all(&mut m, &u64_to_dec(len as u64));
    push_str(&mut m, " history entries?");
    ClearHistoryPrompt::Ask(Popup::Confirm {
        title: copy_text("Clear History"),
        message: from_chars(&m),
        action: ConfirmAction::ClearHistory,
    })
}

/// The selection after an entry was removed from a list that now has `len`
/// entries: it moves to the last entry when it fell off the end.
pub fn selection_after_removal(len: usize, selected: usize) -> (r: usize)
    ensures
        r == if len > 0 && selected >= len { (len - 1) as usize } else { selected },
        len > 0 ==> r < len,
{
    if len > 0 && selected >= len {
        len - 1
    } else {
        selected
    }
}

/// The report of a finished cleanup:
/// `Cleanup: <n> mods (<size>) + <k> symlinks removed`.
pub fn cleanup_message(removed_count: usize, removed_size: u64, symlinks_removed: usize) -> (r: String)
    ensures
        r@ == "Cleanup: "@ + dec(removed_count as nat) + " mods ("@ + format_size_spec(removed_size)
            + ") + "@ + dec(symlinks_removed as nat) + " symlinks removed"@,
{
    let mut m = to_chars("Cleanup: ");
    push_all(&mut m, &u64_to_dec(removed_count as u64));
    push_str(&mut m, " mods (");
    let size = format_size(removed_size);
    push_str(&mut m, size.as_str());
    push_str(&mut m, ") + ");
    push_all(&mut m, &u64_to_dec(symlinks_removed as u64));
    push_str(&mut m, " symlinks removed");
    from_chars(&m)
}

/// The status message that a finished background task reports, if any.
pub open spec fn background_status_spec(r: BackgroundResult) -> Option<(StatusLevel, Seq<char>)> {
    match r {
        BackgroundResult::A2sDetails(_, _) => Some((StatusLevel::Success, "A2S info loaded"@)),
        BackgroundResult::A2sError(e) => Some((StatusLevel::Error, "A2S query failed: "@ + e@)),
        BackgroundResult::ServerListRefreshed(list) => Some(
            (StatusLevel::Success, "Refreshed: "@ + dec(list.result@.len()) + " servers loaded"@),
        ),
        BackgroundResult::ServerListError(e) => Some((StatusLevel::Error, "Refresh failed: "@ + e@)),
        BackgroundResult::SteamPlayerCount(_) => None,
        BackgroundResult::NewsRefreshed(_) => None,
        BackgroundResult::NewsError(e) => Some((StatusLevel::Error, "News fetch failed: "@ + e@)),
        BackgroundResult::OfflineModeUpdated => Some(
            (StatusLevel::Success, "Offline mode installed/updated successfully"@),
        ),
        BackgroundResult::OfflineModeError(e) => Some(
            (StatusLevel::Error, "Offline mode update failed: "@ + e@),
        ),
        BackgroundResult::LaunchDone(name) => Some((StatusLevel::Success, "Launched DayZ -> "@ + name@)),
        BackgroundResult::LaunchError(e) => Some((StatusLevel::Error, "Launch failed: "@ + e@)),
    }
}

fn prefixed(prefix: &str, s: &str) -> (r: String)
    ensures
        r@ == prefix@ + s@,
{
    let mut m = to_chars(prefix);
    push_str(&mut m, s);
    from_chars(&m)
}

/// The status message that a finished background task reports, if any.
pub fn background_status(r: &BackgroundResult) -> (out: Option<(StatusLevel, String)>)
    ensures
        match background_status_spec(*r) {
            Some((level, m)) => out matches Some((l, s)) && l == level && s@ == m,
            None => out is None,
        },
{
    match r {
        BackgroundResult::A2sDetails(_, _) => Some((StatusLevel::Success, copy_text("A2S info loaded"))),
        BackgroundResult::A2sError(e) => Some((StatusLevel::Error, prefixed("A2S query failed: ", e.as_str()))),
        BackgroundResult::ServerListRefreshed(list) => {
            let mut m = to_chars("Refreshed: ");
            push_all(&mut m, &u64_to_dec(list.result.len() as u64));
            push_str(&mut m, " servers loaded");
            Some((StatusLevel::Success, from_chars(&m)))
        },
        BackgroundResult::ServerListError(e) => Some((StatusLevel::Error, prefixed("Refresh failed: ", e.as_str()))),
        BackgroundResult::SteamPlayerCount(_) => None,
        BackgroundResult::NewsRefreshed(_) => None,
        BackgroundResult::NewsError(e) => Some((StatusLevel::Error, prefixed("News fetch failed: ", e.as_str()))),
        BackgroundResult::OfflineModeUpdated => Some(
            (StatusLevel::Success, copy_text("Offline mode installed/updated successfully")),
        ),
        BackgroundResult::OfflineModeError(e) => Some(
            (StatusLevel::Error, prefixed("Offline mode update failed: ", e.as_str())),
        ),
        BackgroundResult::LaunchDone(name) => Some((StatusLevel::Success, prefixed("Launched DayZ -> ", name.as_str()))),
        BackgroundResult::LaunchError(e) => Some((StatusLevel::Error, prefixed("Launch failed: ", e.as_str()))),
    }
}

/// What switching to a tab loads: the installed mods (on Mods, when not
/// loaded yet), the news (on News, when the cache is stale), and the
/// offline missions (on Offline, when not loaded yet).
#[derive(Debug, Clone, Copy, PartialEq, Eq)]
pub struct TabSwitch {
    pub refresh_mods: bool,
    pub fetch_news: bool,
    pub refresh_missions: bool,
}

/// What switching to `tab` loads; the status message is cleared in any case.
pub fn tab_switch(tab: Tab, mods_loaded: bool, missions_loaded: bool) -> (r: TabSwitch)
    ensures
        r.refresh_mods == (tab == Tab::Mods && !mods_loaded),
        r.fetch_news == (tab == Tab::News),
        r.refresh_missions == (tab == Tab::Offline && !missions_loaded),
{
    TabSwitch {
        refresh_mods: tab == Tab::Mods && !mods_loaded,
        fetch_news: tab == Tab::News,
        refresh_missions: tab == Tab::Offline && !missions_loaded,
    }
}

// ------------------------------------------------------------ mods

/// On the Mods tab, the confirmation for deleting the selected installed
/// mod: its name, id and size.
pub fn delete_mod_prompt(tab: Tab, mods: &Vec<InstalledMod>, selected: usize) -> (r: Option<Popup>)
    ensures
        (tab == Tab::Mods && selected < mods@.len()) <==> r is Some,
        r matches Some(p) ==> (p matches Popup::Confirm { title, message, action }
            && title@ == "Delete Mod"@
            && message@ == "Delete '"@ + mods@[selected as int].name@ + "' ("@ + dec(
                mods@[selected as int].id as nat,
            ) + ")?\nSize: "@ + format_size_spec(mods@[selected as int].size)
            && action == ConfirmAction::DeleteMod(mods@[selected as int].id)),
{
    if tab != Tab::Mods || selected >= mods.len() {
        return None;
    }
    let m = &mods[selected];
    let mut t = to_chars("Delete '");
    push_str(&mut t, m.name.as_str());
    push_str(&mut t, "' (");
    push_all(&mut t, &u64_to_dec(m.id));
    push_str(&mut t, ")?\nSize: ");
    push_str(&mut t, format_size(m.size).as_str());
    Some(Popup::Confirm {
        title: copy_text("Delete Mod"),
        message: from_chars(&t),
        action: ConfirmAction::DeleteMod(m.id),
    })
}

/// The confirmation for removing all managed mods and their links.
pub fn cleanup_prompt() -> (r: Popup)
    ensures
        r matches Popup::Confirm { title, message, action } && title@ == "Cleanup Mods"@ && message@
            == "Remove all managed mods and symlinks?"@ && action is CleanupMods,
{
    Popup::Confirm {
        title: copy_text("Cleanup Mods"),
        message: copy_text("Remove all managed mods and symlinks?"),
        action: ConfirmAction::CleanupMods,
    }
}

/// On the Mods tab, when no operation runs, the update of the selected mod:
/// the message shown and the operation (after which the list is reloaded).
pub fn update_mod_request(tab: Tab, busy: bool, mods: &Vec<InstalledMod>, selected: usize) -> (r: Option<(String, ModOperation)>)
    ensures
        (tab == Tab::Mods && !busy && selected < mods@.len()) <==> r is Some,
        r matches Some((m, op)) ==> (m@ == "Updating "@ + mods@[selected as int].name@ + "..."@
            && (op matches ModOperation::UpdateOne { mod_id, name } && mod_id == mods@[selected as int].id
                && name@ == mods@[selected as int].name@)),
{
    if tab != Tab::Mods || busy || selected >= mods.len() {
        return None;
    }
    let m = &mods[selected];
    let mut t = to_chars("Updating ");
    push_str(&mut t, m.name.as_str());
    push_str(&mut t, "...");
    Some((from_chars(&t), ModOperation::UpdateOne { mod_id: m.id, name: copy_text(m.name.as_str()) }))
}

/// The report of marking a mod managed or unmanaged.
pub fn managed_message(name: &str, managed: bool) -> (r: String)
    ensures
        r@ == name@ + " marked as "@ + if managed {
            "managed"@
        } else {
            "unmanaged"@
        },
{
    let mut t = to_chars(name);
    push_str(&mut t, " marked as ");
    if managed {
        push_str(&mut t, "managed");
    } else {
        push_str(&mut t, "unmanaged");
    }
    from_chars(&t)
}

// ------------------------------------------------------------ offline missions

/// What the offline screen says after reading the missions: `None` when
/// the DayZ path is not configured, else the number of missions found or
/// the error that reading them gave.
pub open spec fn missions_status_spec(found: Option<Result<usize, Seq<char>>>) -> (Seq<char>, Color) {
    match found {
        None => ("SteamCMD / DayZ path not configured"@, Color::Red),
        Some(Ok(n)) => if n == 0 {
            ("No missions found. Press 'u' to install."@, Color::Yellow)
        } else {
            (dec(n as nat) + " mission(s) available"@, Color::Green)
        },
        Some(Err(e)) => ("Error reading missions: "@ + e, Color::Red),
    }
}

/// What the offline screen says after reading the missions.
pub fn missions_status(found: &Option<Result<usize, String>>) -> (r: (String, Color))
    ensures
        (r.0@, r.1) == missions_status_spec(
            match found {
                None => None,
                Some(Ok(n)) => Some(Ok(*n)),
                Some(Err(e)) => Some(Err(e@)),
            },
        ),
{
    match found {
        None => (copy_text("SteamCMD / DayZ path not configured"), Color::Red),
        Some(Ok(n)) => {
            if *n == 0 {
                (copy_text("No missions found. Press 'u' to install."), Color::Yellow)
            } else {
                let mut t = u64_to_dec(*n as u64);
                push_str(&mut t, " mission(s) available");
                (from_chars(&t), Color::Green)
            }
        },
        Some(Err(e)) => (prefixed("Error reading missions: ", e.as_str()), Color::Red),
    }
}

} // verus!
