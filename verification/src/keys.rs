//! What a key press does in the terminal interface.
//!
//! A popup takes every key first, then the option editor, then the search
//! box, then the Direct Connect form; otherwise the key acts on the current
//! tab.  The interface carries the command out.

use vstd::prelude::*;
use crate::tui::{DirectConnectField, Tab};

verus! {

/// A key press as the terminal reports it.
#[derive(Debug, Clone, Copy, PartialEq, Eq, Structural)]
pub enum Key {
    Char(char),
    Ctrl(char),
    Esc,
    Up,
    Down,
    Backspace,
    BackTab,
    PageUp,
    PageDown,
    Other,
}

/// What is open over the interface.
#[derive(Debug, Clone, Copy, PartialEq, Eq, Structural)]
pub enum PopupKind {
    NoPopup,
    Info,
    /// A confirmation other than "update, then launch".
    Confirm,
    /// The confirmation that offers to update mods before launching.
    ConfirmUpdateThenLaunch,
}

/// The state that decides what a key does.
#[derive(Debug, Clone, Copy, PartialEq, Eq, Structural)]
pub struct KeyContext {
    pub popup: PopupKind,
    pub option_edit_active: bool,
    pub search_active: bool,
    pub tab: Tab,
    pub direct_cursor: DirectConnectField,
    pub show_server_details: bool,
}

/// What the interface does for a key.
#[derive(Debug, Clone, Copy, PartialEq, Eq, Structural)]
pub enum Command {
    Nothing,
    Quit,
    CloseInfoPopup,
    ConfirmPopup,
    SkipUpdateAndLaunch,
    CancelPopup,
    OptionEditCancel,
    OptionEditApply,
    OptionEditBackspace,
    OptionEditPush(char),
    SearchCancel,
    SearchConfirm,
    SearchBackspace,
    SearchPush(char),
    DirectBack,
    DirectMove(i32),
    DirectNextTab,
    DirectPrevTab,
    DirectConnect,
    DirectServerInfo,
    DirectBackspace,
    DirectInput(char),
    HideDetails,
    ClearStatus,
    ScrollDetails(i32),
    ScrollNews(i32),
    Move(i32),
    JumpEnd,
    JumpStart,
    PageUp,
    PageDown,
    NextTab,
    PrevTab,
    ToggleOption,
    OpenNews,
    LaunchOffline,
    ConnectSelected,
    UpdateOffline,
    RefreshOffline,
    StartOptionEdit,
    AddFavorite,
    RemoveFavorite,
    RemoveHistoryEntry,
    ClearHistory,
    FetchA2s,
    ToggleDetails,
    StartSearch,
    RefreshServers,
    RefreshMods,
    UpdateMod,
    UpdateAllMods,
    DeleteMod,
    ToggleModManaged,
    CleanupMods,
}

/// A server list tab (Servers, Favorites, History).
pub open spec fn is_server_tab(t: Tab) -> bool {
    t == Tab::Servers || t == Tab::Favorites || t == Tab::History
}

/// The command for a key in the normal mode of a tab.
pub open spec fn normal_command(ctx: KeyContext, key: Key) -> Command {
    let t = ctx.tab;
    match key {
        Key::Char('q') | Key::Ctrl('c') => Command::Quit,
        Key::Esc => if ctx.show_server_details {
            Command::HideDetails
        } else {
            Command::ClearStatus
        },
        Key::Ctrl('d') => if ctx.show_server_details {
            Command::ScrollDetails(5)
        } else if t == Tab::News {
            Command::ScrollNews(3)
        } else {
            Command::Nothing
        },
        Key::Ctrl('u') => if ctx.show_server_details {
            Command::ScrollDetails(-5i32)
        } else if t == Tab::News {
            Command::ScrollNews(-3i32)
        } else {
            Command::Nothing
        },
        Key::Char('j') | Key::Down => Command::Move(1),
        Key::Char('k') | Key::Up => Command::Move(-1i32),
        Key::Char('G') => Command::JumpEnd,
        Key::Char('g') => Command::JumpStart,
        Key::PageUp => Command::PageUp,
        Key::PageDown => Command::PageDown,
        Key::Char('\t') | Key::Ctrl('n') => Command::NextTab,
        Key::BackTab | Key::Ctrl('p') => Command::PrevTab,
        Key::Char('\n') => if t == Tab::Options {
            Command::ToggleOption
        } else if t == Tab::News {
            Command::OpenNews
        } else if t == Tab::Offline {
            Command::LaunchOffline
        } else {
            Command::ConnectSelected
        },
        Key::Char('u') => if t == Tab::Offline {
            Command::UpdateOffline
        } else if t == Tab::Mods {
            Command::UpdateMod
        } else {
            Command::Nothing
        },
        Key::Char('r') => if t == Tab::Offline {
            Command::RefreshOffline
        } else if t == Tab::Servers {
            Command::RefreshServers
        } else if t == Tab::Mods {
            Command::RefreshMods
        } else {
            Command::Nothing
        },
        Key::Char('e') => if t == Tab::Options {
            Command::StartOptionEdit
        } else {
            Command::Nothing
        },
        Key::Char('f') => if t == Tab::Servers || t == Tab::History {
            Command::AddFavorite
        } else {
            Command::Nothing
        },
        Key::Char('x') => if t == Tab::Favorites {
            Command::RemoveFavorite
        } else if t == Tab::History {
            Command::RemoveHistoryEntry
        } else {
            Command::Nothing
        },
        Key::Char('c') => if t == Tab::History {
            Command::ClearHistory
        } else if t == Tab::Mods {
            Command::CleanupMods
        } else {
            Command::Nothing
        },
        Key::Char('i') => if is_server_tab(t) {
            Command::FetchA2s
        } else {
            Command::Nothing
        },
        Key::Char('m') => if is_server_tab(t) {
            Command::ToggleDetails
        } else if t == Tab::Mods {
            Command::ToggleModManaged
        } else {
            Command::Nothing
        },
        Key::Char('/') => if t == Tab::Servers {
            Command::StartSearch
        } else {
            Command::Nothing
        },
        Key::Char('U') => if t == Tab::Mods {
            Command::UpdateAllMods
        } else {
            Command::Nothing
        },
        Key::Char('d') => if t == Tab::Mods {
            Command::DeleteMod
        } else {
            Command::Nothing
        },
        _ => Command::Nothing,
    }
}

/// The command for a key.
pub open spec fn key_command(ctx: KeyContext, key: Key) -> Command {
    if ctx.popup != PopupKind::NoPopup {
        if ctx.popup == PopupKind::Info {
            Command::CloseInfoPopup
        } else {
            match key {
                Key::Char('y') | Key::Char('Y') => Command::ConfirmPopup,
                Key::Char('n') | Key::Char('N') | Key::Esc => if ctx.popup
                    == PopupKind::ConfirmUpdateThenLaunch {
                    Command::SkipUpdateAndLaunch
                } else {
                    Command::CancelPopup
                },
                _ => Command::Nothing,
            }
        }
    } else if ctx.option_edit_active {
        match key {
            Key::Esc => Command::OptionEditCancel,
            Key::Char('\n') => Command::OptionEditApply,
            Key::Backspace => Command::OptionEditBackspace,
            Key::Char(c) => Command::OptionEditPush(c),
            _ => Command::Nothing,
        }
    } else if ctx.search_active {
        match key {
            Key::Esc => Command::SearchCancel,
            Key::Char('\n') => Command::SearchConfirm,
            Key::Backspace => Command::SearchBackspace,
            Key::Char(c) => Command::SearchPush(c),
            _ => Command::Nothing,
        }
    } else if ctx.tab == Tab::DirectConnect {
        match key {
            Key::Esc => Command::DirectBack,
            Key::Up => Command::DirectMove(-1i32),
            Key::Down => Command::DirectMove(1),
            Key::Char('\t') | Key::Ctrl('n') => Command::DirectNextTab,
            Key::BackTab | Key::Ctrl('p') => Command::DirectPrevTab,
            Key::Char('\n') => if ctx.direct_cursor == DirectConnectField::Connect {
                Command::DirectConnect
            } else if ctx.direct_cursor == DirectConnectField::ServerInfo {
                Command::DirectServerInfo
            } else {
                Command::DirectMove(1)
            },
            Key::Backspace => Command::DirectBackspace,
            Key::Char(c) => Command::DirectInput(c),
            _ => Command::Nothing,
        }
    } else {
        normal_command(ctx, key)
    }
}

fn normal_key(ctx: &KeyContext, key: Key) -> (r: Command)
    ensures
        r == normal_command(*ctx, key),
{
    let t = ctx.tab;
    let server_tab = t == Tab::Servers || t == Tab::Favorites || t == Tab::History;
    match key {
        Key::Char('q') | Key::Ctrl('c') => Command::Quit,
        Key::Esc => if ctx.show_server_details {
            Command::HideDetails
        } else {
            Command::ClearStatus
        },
        Key::Ctrl('d') => if ctx.show_server_details {
            Command::ScrollDetails(5)
        } else if t == Tab::News {
            Command::ScrollNews(3)
        } else {
            Command::Nothing
        },
        Key::Ctrl('u') => if ctx.show_server_details {
            Command::ScrollDetails(-5i32)
        } else if t == Tab::News {
            Command::ScrollNews(-3i32)
        } else {
            Command::Nothing
        },
        Key::Char('j') | Key::Down => Command::Move(1),
        Key::Char('k') | Key::Up => Command::Move(-1i32),
        Key::Char('G') => Command::JumpEnd,
        Key::Char('g') => Command::JumpStart,
        Key::PageUp => Command::PageUp,
        Key::PageDown => Command::PageDown,
        Key::Char('\t') | Key::Ctrl('n') => Command::NextTab,
        Key::BackTab | Key::Ctrl('p') => Command::PrevTab,
        Key::Char('\n') => if t == Tab::Options {
            Command::ToggleOption
        } else if t == Tab::News {
            Command::OpenNews
        } else if t == Tab::Offline {
            Command::LaunchOffline
        } else {
            Command::ConnectSelected
        },
        Key::Char('u') => if t == Tab::Offline {
            Command::UpdateOffline
        } else if t == Tab::Mods {
            Command::UpdateMod
        } else {
            Command::Nothing
        },
        Key::Char('r') => if t == Tab::Offline {
            Command::RefreshOffline
        } else if t == Tab::Servers {
            Command::RefreshServers
        } else if t == Tab::Mods {
            Command::RefreshMods
        } else {
            Command::Nothing
        },
        Key::Char('e') => if t == Tab::Options {
            Command::StartOptionEdit
        } else {
            Command::Nothing
        },
        Key::Char('f') => if t == Tab::Servers || t == Tab::History {
            Command::AddFavorite
        } else {
            Command::Nothing
        },
        Key::Char('x') => if t == Tab::Favorites {
            Command::RemoveFavorite
        } else if t == Tab::History {
            Command::RemoveHistoryEntry
        } else {
            Command::Nothing
        },
        Key::Char('c') => if t == Tab::History {
            Command::ClearHistory
        } else if t == Tab::Mods {
            Command::CleanupMods
        } else {
            Command::Nothing
        },
        Key::Char('i') => if server_tab {
            Command::FetchA2s
        } else {
            Command::Nothing
        },
        Key::Char('m') => if server_tab {
            Command::ToggleDetails
        } else if t == Tab::Mods {
            Command::ToggleModManaged
        } else {
            Command::Nothing
        },
        Key::Char('/') => if t == Tab::Servers {
            Command::StartSearch
        } else {
            Command::Nothing
        },
        Key::Char('U') => if t == Tab::Mods {
            Command::UpdateAllMods
        } else {
            Command::Nothing
        },
        Key::Char('d') => if t == Tab::Mods {
            Command::DeleteMod
        } else {
            Command::Nothing
        },
        _ => Command::Nothing,
    }
}

/// The command for a key press.
pub fn handle_key(ctx: &KeyContext, key: Key) -> (r: Command)
    ensures
        r == key_command(*ctx, key),
{
    if ctx.popup != PopupKind::NoPopup {
        if ctx.popup == PopupKind::Info {
            return Command::CloseInfoPopup;
        }
        return match key {
            Key::Char('y') | Key::Char('Y') => Command::ConfirmPopup,
            Key::Char('n') | Key::Char('N') | Key::Esc => if ctx.popup
                == PopupKind::ConfirmUpdateThenLaunch {
                Command::SkipUpdateAndLaunch
            } else {
                Command::CancelPopup
            },
            _ => Command::Nothing,
        };
    }
    if ctx.option_edit_active {
        return match key {
            Key::Esc => Command::OptionEditCancel,
            Key::Char('\n') => Command::OptionEditApply,
            Key::Backspace => Command::OptionEditBackspace,
            Key::Char(c) => Command::OptionEditPush(c),
            _ => Command::Nothing,
        };
    }
    if ctx.search_active {
        return match key {
            Key::Esc => Command::SearchCancel,
            Key::Char('\n') => Command::SearchConfirm,
            Key::Backspace => Command::SearchBackspace,
            Key::Char(c) => Command::SearchPush(c),
            _ => Command::Nothing,
        };
    }
    if ctx.tab == Tab::DirectConnect {
        return match key {
            Key::Esc => Command::DirectBack,
            Key::Up => Command::DirectMove(-1),
            Key::Down => Command::DirectMove(1),
            Key::Char('\t') | Key::Ctrl('n') => Command::DirectNextTab,
            Key::BackTab | Key::Ctrl('p') => Command::DirectPrevTab,
            Key::Char('\n') => if ctx.direct_cursor == DirectConnectField::Connect {
                Command::DirectConnect
            } else if ctx.direct_cursor == DirectConnectField::ServerInfo {
                Command::DirectServerInfo
            } else {
                Command::DirectMove(1)
            },
            Key::Backspace => Command::DirectBackspace,
            Key::Char(c) => Command::DirectInput(c),
            _ => Command::Nothing,
        };
    }
    normal_key(ctx, key)
}

/// Only the normal mode quits: no key quits while a popup, the option
/// editor, the search box or the Direct Connect form has the keyboard.
pub proof fn lemma_only_normal_mode_quits(ctx: KeyContext, key: Key)
    requires
        ctx.popup != PopupKind::NoPopup || ctx.option_edit_active || ctx.search_active || ctx.tab
            == Tab::DirectConnect,
    ensures
        key_command(ctx, key) != Command::Quit,
{
}

/// In the normal mode `q` and `Ctrl+C` quit, on every tab.
pub proof fn lemma_q_quits(ctx: KeyContext)
    requires
        ctx.popup == PopupKind::NoPopup,
        !ctx.option_edit_active,
        !ctx.search_active,
        ctx.tab != Tab::DirectConnect,
    ensures
        key_command(ctx, Key::Char('q')) == Command::Quit,
        key_command(ctx, Key::Ctrl('c')) == Command::Quit,
{
}

/// Every printable key other than Enter goes into the text being typed: the
/// option value, the search query or the focused form field.
pub proof fn lemma_typing_goes_to_input(ctx: KeyContext, c: char)
    requires
        ctx.popup == PopupKind::NoPopup,
        c != '\n',
        c != '\t',
    ensures
        ctx.option_edit_active ==> key_command(ctx, Key::Char(c)) == Command::OptionEditPush(c),
        !ctx.option_edit_active && ctx.search_active ==> key_command(ctx, Key::Char(c))
            == Command::SearchPush(c),
        !ctx.option_edit_active && !ctx.search_active && ctx.tab == Tab::DirectConnect
            ==> key_command(ctx, Key::Char(c)) == Command::DirectInput(c),
{
}

} // verus!
