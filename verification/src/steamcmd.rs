//! steamcmd: command lines, output recognition, and the per-chunk monitor
//! that turns steamcmd's streamed output into progress events.

use vstd::prelude::*;
use crate::error::Error;
use crate::paths::{join, join_path, path_parent, path_parent_result};
use crate::regexp::{
    regex_first_capture,
    regex_first_capture_result,
    regex_replace_all,
    regex_replace_all_result,
};
use crate::text::{
    chars_eq, contains_ci, contains_ci_chars, dec, ends_with, ends_with_chars, find_char,
    from_chars, opt_string_view, parse_u64, slice_chars, parse_unsigned, to_chars, trim_end, trim_end_chars,
    u64_to_dec,
};

verus! {

/// Steam application id of DayZ.
pub const DAYZ_GAME_ID: u32 = 221100;

/// Progress messages sent during mod download/update operations.
#[derive(Debug)]
pub enum ModProgress {
    /// Steam is being shut down to avoid session conflict with steamcmd
    ShuttingDownSteam,
    /// steamcmd is waiting for Steam Guard Mobile confirmation
    SteamGuardMobileRequired,
    /// steamcmd is prompting for a password (cached credentials not found)
    PasswordRequired,
    /// Starting download/update for a mod
    Starting { current: usize, total: usize, mod_id: u64, name: String },
    /// A mod finished successfully
    Done { current: usize, total: usize, mod_id: u64, name: String },
    /// A mod failed
    Failed { current: usize, total: usize, mod_id: u64, name: String, error: String },
    /// A raw steamcmd output line
    LogLine(String),
    /// All mods processed
    Finished { ok: usize, failed: usize, total: usize, hint: Option<String> },
}

/// `ModProgress` with its text as character sequences.
pub enum ProgressView {
    ShuttingDownSteam,
    SteamGuardMobileRequired,
    PasswordRequired,
    Starting { current: nat, total: nat, mod_id: u64, name: Seq<char> },
    Done { current: nat, total: nat, mod_id: u64, name: Seq<char> },
    Failed { current: nat, total: nat, mod_id: u64, name: Seq<char>, error: Seq<char> },
    LogLine(Seq<char>),
    Finished { ok: nat, failed: nat, total: nat, hint: Option<Seq<char>> },
}

impl View for ModProgress {
    type V = ProgressView;

    open spec fn view(&self) -> ProgressView {
        match self {
            ModProgress::ShuttingDownSteam => ProgressView::ShuttingDownSteam,
            ModProgress::SteamGuardMobileRequired => ProgressView::SteamGuardMobileRequired,
            ModProgress::PasswordRequired => ProgressView::PasswordRequired,
            ModProgress::Starting { current, total, mod_id, name } => ProgressView::Starting {
                current: *current as nat,
                total: *total as nat,
                mod_id: *mod_id,
                name: name@,
            },
            ModProgress::Done { current, total, mod_id, name } => ProgressView::Done {
                current: *current as nat,
                total: *total as nat,
                mod_id: *mod_id,
                name: name@,
            },
            ModProgress::Failed { current, total, mod_id, name, error } => ProgressView::Failed {
                current: *current as nat,
                total: *total as nat,
                mod_id: *mod_id,
                name: name@,
                error: error@,
            },
            ModProgress::LogLine(l) => ProgressView::LogLine(l@),
            ModProgress::Finished { ok, failed, total, hint } => ProgressView::Finished {
                ok: *ok as nat,
                failed: *failed as nat,
                total: *total as nat,
                hint: match hint {
                    Some(h) => Some(h@),
                    None => None,
                },
            },
        }
    }
}

/// The views of a list of progress events.
pub open spec fn progress_views(v: Seq<ModProgress>) -> Seq<ProgressView> {
    v.map_values(|e: ModProgress| e@)
}

/// The views of `(mod id, name)` pairs.
pub open spec fn mods_view(v: Seq<(u64, String)>) -> Seq<(u64, Seq<char>)> {
    v.map_values(|p: (u64, String)| (p.0, p.1@))
}

// ------------------------------------------------------------ output text

/// Pattern for ANSI/VT100 escape sequences.
pub open spec fn ansi_pattern() -> Seq<char> {
    "\x1b\\[[0-9;]*[a-zA-Z]"@
}

/// Pattern for a workshop item id in a steamcmd line.
pub open spec fn item_id_pattern() -> Seq<char> {
    "item[: ]+(\\d+)"@
}

/// A line with ANSI escape sequences removed: untouched when it holds no
/// ESC character, otherwise what the regex replacement yields.
pub open spec fn strip_ansi_spec(s: Seq<char>) -> Seq<char> {
    if !s.contains('\x1b') {
        s
    } else {
        match regex_replace_all_result(ansi_pattern(), s, ""@) {
            Some(t) => t,
            None => s,
        }
    }
}

/// Strips ANSI escape sequences (steamcmd embeds colour codes).
pub fn strip_ansi(s: &Vec<char>) -> (r: Vec<char>)
    ensures
        r@ == strip_ansi_spec(s@),
{
    match find_char(s, '\x1b') {
        None => {
            assert(!s@.contains('\x1b'));
            slice_chars(s, 0, s.len())
        },
        Some(i) => {
            assert(s@[i as int] == '\x1b');
            assert(s@.contains('\x1b'));
            let text = from_chars(s);
            match regex_replace_all("\x1b\\[[0-9;]*[a-zA-Z]", text.as_str(), "") {
                Some(t) => to_chars(t.as_str()),
                None => slice_chars(s, 0, s.len()),
            }
        },
    }
}

/// Whether a (stripped) steamcmd line asks for Steam Guard confirmation.
pub open spec fn is_steam_guard_prompt_spec(line: Seq<char>) -> bool {
    let l = strip_ansi_spec(line);
    (contains_ci(l, "please confirm"@) && (contains_ci(l, "mobile"@) || contains_ci(l, "phone"@)))
        || contains_ci(l, "waiting for confirmation"@) || contains_ci(l, "steam guard code:"@)
}

/// Returns true if the line indicates steamcmd is waiting for any kind of
/// Steam Guard confirmation (mobile approval or an emailed code).
pub fn is_steam_guard_prompt(line: &Vec<char>) -> (r: bool)
    ensures
        r == is_steam_guard_prompt_spec(line@),
{
    let l = strip_ansi(line);
    let a = to_chars("please confirm");
    let b = to_chars("mobile");
    let c = to_chars("phone");
    let d = to_chars("waiting for confirmation");
    let e = to_chars("steam guard code:");
    (contains_ci_chars(&l, &a) && (contains_ci_chars(&l, &b) || contains_ci_chars(&l, &c)))
        || contains_ci_chars(&l, &d) || contains_ci_chars(&l, &e)
}

/// Whether the partial output ends with a `password:` prompt.
pub open spec fn is_password_prompt_spec(buf: Seq<char>) -> bool {
    let t = trim_end(strip_ansi_spec(buf));
    ends_with(t, "password:"@) || ends_with(t, "password: "@)
}

/// Returns true if the partial buffer ends with a `password:` prompt.
pub fn is_password_prompt(buf: &Vec<char>) -> (r: bool)
    ensures
        r == is_password_prompt_spec(buf@),
{
    let clean = strip_ansi(buf);
    let t = trim_end_chars(&clean);
    let a = to_chars("password:");
    let b = to_chars("password: ");
    ends_with_chars(&t, &a) || ends_with_chars(&t, &b)
}

/// The workshop id that a steamcmd line mentions (`item 123` / `item:123`).
pub open spec fn extract_mod_id_spec(line: Seq<char>) -> Option<u64> {
    match regex_first_capture_result(item_id_pattern(), line) {
        Some(Some(c)) => match parse_unsigned(c, 10, u64::MAX as nat) {
            Some(v) => Some(v as u64),
            None => None,
        },
        _ => None,
    }
}

/// Extracts a workshop mod id from a steamcmd output line.
pub fn extract_mod_id_from_line(line: &Vec<char>) -> (r: Option<u64>)
    ensures
        r == extract_mod_id_spec(line@),
{
    let text = from_chars(line);
    match regex_first_capture("item[: ]+(\\d+)", text.as_str()) {
        Some(Some(c)) => {
            let v = to_chars(c.as_str());
            parse_u64(&v)
        },
        _ => None,
    }
}

// ------------------------------------------------------------ SteamCmd

/// Settings that every steamcmd invocation is made with.
pub struct SteamCmd {
    steamcmd_path: String,
    steam_root: String,
    login: String,
    password: Option<String>,
    game_id: u32,
}

/// The settings of a `SteamCmd` as character sequences.
pub struct SteamCmdView {
    pub steamcmd_path: Seq<char>,
    pub steam_root: Seq<char>,
    pub login: Seq<char>,
    pub password: Option<Seq<char>>,
    pub game_id: u32,
}

impl View for SteamCmd {
    type V = SteamCmdView;

    closed spec fn view(&self) -> SteamCmdView {
        SteamCmdView {
            steamcmd_path: self.steamcmd_path@,
            steam_root: self.steam_root@,
            login: self.login@,
            password: match self.password {
                Some(p) => Some(p@),
                None => None,
            },
            game_id: self.game_id,
        }
    }
}

/// `anonymous` is the steamcmd login used when none is configured.
pub open spec fn anonymous() -> Seq<char> {
    "anonymous"@
}

/// A login that may download workshop items (not empty, not anonymous).
pub open spec fn is_real_login(login: Seq<char>) -> bool {
    login.len() > 0 && login != anonymous()
}

/// `steamapps/workshop/content/<game id>` under the Steam root.
pub open spec fn workshop_path_spec(v: SteamCmdView) -> Seq<char> {
    join_path(join_path(join_path(v.steam_root, "workshop"@), "content"@), dec(v.game_id as nat))
}

/// `steamapps/common/DayZ` under the Steam root.
pub open spec fn dayz_path_spec(v: SteamCmdView) -> Seq<char> {
    join_path(join_path(v.steam_root, "common"@), "DayZ"@)
}

/// `+login <user>` followed by the password when one is set.
pub open spec fn login_args_spec(v: SteamCmdView) -> Seq<Seq<char>> {
    match v.password {
        Some(p) => seq!["+login"@, v.login, p],
        None => seq!["+login"@, v.login],
    }
}

/// The arguments of the single batched download invocation.
pub open spec fn download_args_spec(v: SteamCmdView, mods: Seq<(u64, Seq<char>)>) -> Seq<
    Seq<char>,
> {
    let head = seq!["+@ShutdownOnFailedCommand"@, "0"@];
    let dir = match path_parent_result(v.steam_root) {
        Some(p) => seq!["+force_install_dir"@, p],
        None => Seq::empty(),
    };
    head + dir + login_args_spec(v) + workshop_items_args(dec(v.game_id as nat), mods) + seq![
        "+quit"@,
    ]
}

/// `+workshop_download_item <game> <id> validate` for every mod in order.
pub open spec fn workshop_items_args(game: Seq<char>, mods: Seq<(u64, Seq<char>)>) -> Seq<
    Seq<char>,
>
    decreases mods.len(),
{
    if mods.len() == 0 {
        Seq::empty()
    } else {
        workshop_items_args(game, mods.drop_last()) + seq![
            "+workshop_download_item"@,
            game,
            dec(mods.last().0 as nat),
            "validate"@,
        ]
    }
}

fn string_of(s: &str) -> (r: String)
    ensures
        r@ == s@,
{
    let v = to_chars(s);
    from_chars(&v)
}

fn string_of_chars(v: &Vec<char>) -> (r: String)
    ensures
        r@ == v@,
{
    from_chars(v)
}

/// The views of a list of strings.
pub open spec fn strings_view(v: Seq<String>) -> Seq<Seq<char>> {
    v.map_values(|s: String| s@)
}

/// Appends one string to a list of strings.
pub fn push_string(r: &mut Vec<String>, s: String)
    ensures
        strings_view(final(r)@) == strings_view(old(r)@).push(s@),
{
    r.push(s);
    assert(strings_view(r@) =~= strings_view(old(r)@).push(s@));
}

impl SteamCmd {
    /// Settings for steamcmd at `steamcmd_path` working on the Steam library
    /// `steam_root`; without a login, `anonymous` is used.
    pub fn new(steamcmd_path: &str, steam_root: &str, login: Option<String>) -> (r: Self)
        ensures
            r@.steamcmd_path == steamcmd_path@,
            r@.steam_root == steam_root@,
            r@.login == match login {
                Some(l) => l@,
                None => anonymous(),
            },
            r@.password is None,
            r@.game_id == DAYZ_GAME_ID,
    {
        let login = match login {
            Some(l) => l,
            None => string_of("anonymous"),
        };
        SteamCmd {
            steamcmd_path: string_of(steamcmd_path),
            steam_root: string_of(steam_root),
            login,
            password: None,
            game_id: DAYZ_GAME_ID,
        }
    }

    /// The same settings with `password` as the steamcmd password.
    pub fn with_password(self, password: Option<String>) -> (r: Self)
        ensures
            r@.steamcmd_path == self@.steamcmd_path,
            r@.steam_root == self@.steam_root,
            r@.login == self@.login,
            r@.password == match password {
                Some(p) => Some(p@),
                None => None::<Seq<char>>,
            },
            r@.game_id == self@.game_id,
    {
        SteamCmd { password, ..self }
    }

    /// The same settings for another Steam application.
    pub fn with_game_id(self, game_id: u32) -> (r: Self)
        ensures
            r@.steamcmd_path == self@.steamcmd_path,
            r@.steam_root == self@.steam_root,
            r@.login == self@.login,
            r@.password == self@.password,
            r@.game_id == game_id,
    {
        SteamCmd { game_id, ..self }
    }

    /// The steamcmd login name.
    pub fn login(&self) -> (r: &str)
        ensures
            r@ == self@.login,
    {
        self.login.as_str()
    }

    /// The steamcmd password, if one is set.
    pub fn password(&self) -> (r: Option<&str>)
        ensures
            match r {
                Some(p) => self@.password == Some(p@),
                None => self@.password is None,
            },
    {
        match &self.password {
            Some(p) => Some(p.as_str()),
            None => None,
        }
    }

    /// The Steam library root (`steamapps`).
    pub fn steam_root(&self) -> (r: &str)
        ensures
            r@ == self@.steam_root,
    {
        self.steam_root.as_str()
    }

    /// The path of the steamcmd executable.
    pub fn steamcmd_path(&self) -> (r: &str)
        ensures
            r@ == self@.steamcmd_path,
    {
        self.steamcmd_path.as_str()
    }

    /// The Steam application id that downloads are made for.
    pub fn game_id(&self) -> (r: u32)
        ensures
            r == self@.game_id,
    {
        self.game_id
    }

    /// Returns true if the login is non-anonymous (required for workshop
    /// downloads).
    pub fn has_real_login(&self) -> (r: bool)
        ensures
            r == is_real_login(self@.login),
    {
        let l = to_chars(self.login.as_str());
        let a = to_chars("anonymous");
        l.len() > 0 && !chars_eq(&l, &a)
    }

    /// Path where workshop mods are stored: `steamapps/workshop/content/<game>`.
    pub fn workshop_path(&self) -> (r: String)
        ensures
            r@ == workshop_path_spec(self@),
    {
        let a = join(self.steam_root.as_str(), "workshop");
        let b = join(a.as_str(), "content");
        let id = string_of_chars(&u64_to_dec(self.game_id as u64));
        join(b.as_str(), id.as_str())
    }

    /// Path to the DayZ game directory: `steamapps/common/DayZ`.
    pub fn dayz_path(&self) -> (r: String)
        ensures
            r@ == dayz_path_spec(self@),
    {
        let a = join(self.steam_root.as_str(), "common");
        join(a.as_str(), "DayZ")
    }

    /// `+login <user>` or `+login <user> <password>`.
    pub fn login_args(&self) -> (r: Vec<String>)
        ensures
            strings_view(r@) == login_args_spec(self@),
    {
        let mut r: Vec<String> = Vec::new();
        push_string(&mut r, string_of("+login"));
        push_string(&mut r, self.login.clone());
        match &self.password {
            Some(p) => push_string(&mut r, p.clone()),
            None => {},
        }
        assert(strings_view(r@) =~= login_args_spec(self@));
        r
    }

    /// Arguments of the single steamcmd run that downloads every mod in
    /// `mods_info`, in order, and quits.
    pub fn download_args(&self, mods_info: &Vec<(u64, String)>) -> (r: Vec<String>)
        ensures
            strings_view(r@) == download_args_spec(self@, mods_view(mods_info@)),
    {
        let mut r: Vec<String> = Vec::new();
        push_string(&mut r, string_of("+@ShutdownOnFailedCommand"));
        push_string(&mut r, string_of("0"));
        let parent = path_parent(self.steam_root.as_str());
        match parent {
            Some(p) => {
                push_string(&mut r, string_of("+force_install_dir"));
                push_string(&mut r, p);
            },
            None => {},
        }
        let login = self.login_args();
        let ghost before_login = strings_view(r@);
        let mut k: usize = 0;
        while k < login.len()
            invariant
                k <= login.len(),
                strings_view(r@) == before_login + strings_view(login@).subrange(0, k as int),
            decreases login.len() - k,
        {
            push_string(&mut r, login[k].clone());
            proof {
                assert(strings_view(login@).subrange(0, k + 1) =~= strings_view(login@).subrange(0, k as int).push(login@[k as int]@));
            }
            k = k + 1;
            assert(strings_view(r@) =~= before_login + strings_view(login@).subrange(0, k as int));
        }
        assert(strings_view(login@).subrange(0, login@.len() as int) =~= strings_view(login@));
        let game = string_of_chars(&u64_to_dec(self.game_id as u64));
        let ghost before_items = strings_view(r@);
        let mut i: usize = 0;
        while i < mods_info.len()
            invariant
                i <= mods_info.len(),
                game@ == dec(self@.game_id as nat),
                strings_view(r@) == before_items + workshop_items_args(
                    game@,
                    mods_view(mods_info@).subrange(0, i as int),
                ),
            decreases mods_info.len() - i,
        {
            let id = string_of_chars(&u64_to_dec(mods_info[i].0));
            push_string(&mut r, string_of("+workshop_download_item"));
            push_string(&mut r, game.clone());
            push_string(&mut r, id);
            push_string(&mut r, string_of("validate"));
            proof {
                let m = mods_view(mods_info@);
                assert(m.subrange(0, i + 1).drop_last() =~= m.subrange(0, i as int));
                assert(m.subrange(0, i + 1).last() == m[i as int]);
            }
            i = i + 1;
            assert(strings_view(r@) =~= before_items + workshop_items_args(
                game@,
                mods_view(mods_info@).subrange(0, i as int),
            ));
        }
        assert(mods_view(mods_info@).subrange(0, mods_info@.len() as int) =~= mods_view(
            mods_info@,
        ));
        push_string(&mut r, string_of("+quit"));
        assert(strings_view(r@) =~= download_args_spec(self@, mods_view(mods_info@)));
        r
    }

    /// Arguments of the run that updates the game itself:
    /// `+@ShutdownOnFailedCommand 1`, the login, `+app_update <game> +quit`.
    pub fn update_game_args(&self) -> (r: Vec<String>)
        ensures
            strings_view(r@) == seq!["+@ShutdownOnFailedCommand"@, "1"@] + login_args_spec(self@) + seq![
                "+app_update"@,
                dec(self@.game_id as nat),
                "+quit"@,
            ],
    {
        let mut r: Vec<String> = Vec::new();
        push_string(&mut r, string_of("+@ShutdownOnFailedCommand"));
        push_string(&mut r, string_of("1"));
        push_string(&mut r, string_of("+login"));
        push_string(&mut r, self.login.clone());
        match &self.password {
            Some(p) => push_string(&mut r, p.clone()),
            None => {},
        }
        push_string(&mut r, string_of("+app_update"));
        push_string(&mut r, string_of_chars(&u64_to_dec(self.game_id as u64)));
        push_string(&mut r, string_of("+quit"));
        assert(strings_view(r@) =~= seq!["+@ShutdownOnFailedCommand"@, "1"@] + login_args_spec(self@) + seq![
            "+app_update"@,
            dec(self@.game_id as nat),
            "+quit"@,
        ]);
        r
    }

    /// Arguments of the interactive run that caches the login: the login,
    /// then `+quit`.
    pub fn cache_login_args(&self) -> (r: Vec<String>)
        ensures
            strings_view(r@) == login_args_spec(self@).push("+quit"@),
    {
        let mut r = self.login_args();
        push_string(&mut r, string_of("+quit"));
        r
    }

    /// The error when caching the login failed.
    pub fn login_failed(&self) -> (r: Error)
        ensures
            r matches Error::SteamCmd(m) && m@ == "steamcmd login failed. Try running: steamcmd +login "@
                + self@.login + " +quit"@,
    {
        let mut v = to_chars("steamcmd login failed. Try running: steamcmd +login ");
        crate::text::push_str(&mut v, self.login.as_str());
        crate::text::push_str(&mut v, " +quit");
        Error::SteamCmd(string_of_chars(&v))
    }
}

/// The error when updating the game failed, with steamcmd's error output.
pub fn update_failed(stderr: &str) -> (r: Error)
    ensures
        r matches Error::SteamCmd(m) && m@ == "Failed to update game: "@ + stderr@,
{
    let mut v = to_chars("Failed to update game: ");
    crate::text::push_str(&mut v, stderr);
    Error::SteamCmd(string_of_chars(&v))
}

// ------------------------------------------------------------ configuration

/// A path setting that is set and not empty.
pub open spec fn set_path(setting: Option<Seq<char>>) -> Option<Seq<char>> {
    match setting {
        Some(p) => if p.len() > 0 {
            Some(p)
        } else {
            None
        },
        None => None,
    }
}

fn set_path_of(setting: &Option<String>) -> (r: Option<String>)
    ensures
        opt_string_view(r) == set_path(opt_string_view(*setting)),
{
    match setting {
        Some(p) => {
            if to_chars(p.as_str()).len() > 0 {
                Some(from_chars(&to_chars(p.as_str())))
            } else {
                None
            }
        },
        None => None,
    }
}

/// The steamcmd binary that the profile names (not empty); it is used when
/// it exists, else steamcmd is looked for.
pub fn configured_steamcmd(setting: &Option<String>) -> (r: Option<String>)
    ensures
        opt_string_view(r) == set_path(opt_string_view(*setting)),
{
    set_path_of(setting)
}

/// The Steam root to use: the profile's (not empty), else the one found
/// on the machine, else the fallback steamapps directory.
pub fn steam_root_choice(setting: &Option<String>, found: Option<String>, fallback: String) -> (r: String)
    ensures
        r@ == match set_path(opt_string_view(*setting)) {
            Some(p) => p,
            None => match found {
                Some(f) => f@,
                None => fallback@,
            },
        },
{
    match set_path_of(setting) {
        Some(p) => p,
        None => match found {
            Some(f) => f,
            None => fallback,
        },
    }
}

/// The steamcmd of a profile: none when steamcmd is disabled or no binary
/// was found; else one with the profile's login (`anonymous` when none)
/// and password.
pub fn steamcmd_for_profile(
    enabled: bool,
    steamcmd_path: Option<String>,
    steam_root: &str,
    login: &Option<String>,
    password: &Option<String>,
) -> (r: Option<SteamCmd>)
    ensures
        (enabled && steamcmd_path is Some) <==> r is Some,
        r matches Some(c) ==> {
            &&& c@.steamcmd_path == steamcmd_path->0@
            &&& c@.steam_root == steam_root@
            &&& c@.login == match login {
                Some(l) => l@,
                None => anonymous(),
            }
            &&& c@.password == opt_string_view(*password)
            &&& c@.game_id == DAYZ_GAME_ID
        },
{
    if !enabled {
        return None;
    }
    match steamcmd_path {
        None => None,
        Some(path) => {
            let l = match login {
                Some(x) => Some(from_chars(&to_chars(x.as_str()))),
                None => None,
            };
            let p = match password {
                Some(x) => Some(from_chars(&to_chars(x.as_str()))),
                None => None,
            };
            Some(SteamCmd::new(path.as_str(), steam_root, l).with_password(p))
        },
    }
}

} // verus!
