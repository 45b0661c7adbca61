//! The records handed to the user interface, and how they are made.

use vstd::prelude::*;
use crate::api::{Mod, Server};
use crate::mods::{format_size, format_size_spec, InstalledMod};
use crate::steamcmd::ModProgress;
use crate::text::{from_chars, opt_string_view, push_str, string_views, to_chars};
use crate::bars::{players_total, sum_players, totals_fit};
use crate::helpers::{dedup_servers, dedup_spec};
use crate::config::{fav_view, fav_views, hist_view, option_keys, option_list, option_view, Profile};

verus! {

/// A mod of a server.
#[derive(Debug)]
pub struct ModDto {
    pub name: String,
    pub steam_workshop_id: i64,
}

/// A server with its mods.
#[derive(Debug)]
pub struct ServerDto {
    pub game_port: i64,
    pub ip: String,
    pub query_port: i64,
    pub name: String,
    pub map: String,
    pub players: i64,
    pub max_players: i64,
    pub environment: String,
    pub password: bool,
    pub version: String,
    pub first_person_only: bool,
    pub time: String,
    pub mods_count: usize,
    pub mods: Vec<ModDto>,
    pub vac: bool,
    pub battl_eye: Option<bool>,
}

/// A server without its mod list.
#[derive(Debug)]
pub struct ServerSlimDto {
    pub game_port: i64,
    pub ip: String,
    pub query_port: i64,
    pub name: String,
    pub map: String,
    pub players: i64,
    pub max_players: i64,
    pub environment: String,
    pub password: bool,
    pub version: String,
    pub first_person_only: bool,
    pub time: String,
    pub mods_count: usize,
    pub vac: bool,
    pub battl_eye: Option<bool>,
}

/// An installed mod with its update state.
#[derive(Debug)]
pub struct InstalledModDto {
    pub name: String,
    pub id: u64,
    pub local_updated: i64,
    pub size: u64,
    pub size_human: String,
    pub managed: bool,
    /// Remote `time_updated` from the Steam Workshop API, if checked.
    pub remote_updated: Option<i64>,
    /// `remote_updated > local_updated`.
    pub update_available: bool,
}

/// A favorite server.
#[derive(Debug)]
pub struct FavoriteDto {
    pub name: String,
    pub ip: String,
    pub port: u16,
    pub password: Option<String>,
}

/// A history entry.
#[derive(Debug)]
pub struct HistoryDto {
    pub name: String,
    pub ip: String,
    pub port: u16,
    pub ts: i64,
    pub relative_time: String,
}

/// A launch option with its name.
#[derive(Debug)]
pub struct LaunchOptionDto {
    pub key: String,
    pub enabled: bool,
    pub value: Option<String>,
    pub description: String,
}

/// A news article for display.
#[derive(Debug)]
pub struct ArticleDto {
    pub title: String,
    pub slug: String,
    pub excerpt: Option<String>,
    pub content_text: String,
    pub content_html: String,
    pub date: String,
    pub url: String,
    pub image_url: Option<String>,
    pub category: Option<String>,
    pub author: Option<String>,
}

/// A server rule from A2S.
#[derive(Debug)]
pub struct A2sRuleDto {
    pub name: String,
    pub value: String,
}

/// Hardware specs used to recommend launch options.
#[derive(Debug)]
pub struct SystemSpecsDto {
    pub logical_cores: u32,
    pub physical_cores: u32,
    pub total_memory_mb: u64,
}

/// Figures for the title bar.
#[derive(Debug)]
pub struct AppStatsDto {
    pub server_count: usize,
    pub total_players: i64,
    pub player_name: Option<String>,
    pub steam_login: Option<String>,
    pub has_steamcmd: bool,
}

/// A mod operation's progress as the interface receives it.
#[derive(Debug)]
pub struct ModProgressEvent {
    pub kind: String,
    pub current: usize,
    pub total: usize,
    pub mod_id: u64,
    pub name: String,
    pub ok: usize,
    pub failed: usize,
    pub hint: Option<String>,
    pub log_line: Option<String>,
}

/// The answer of the start-up command.
#[derive(Debug)]
pub struct InitResult {
    pub server_count: usize,
    pub from_cache: bool,
    /// The profile was created just now.
    pub is_first_launch: bool,
}

/// A ping result.
#[derive(Debug)]
pub struct PingResultDto {
    pub ip: String,
    pub port: i64,
    pub ms: u32,
    pub players: Option<u8>,
    pub max_players: Option<u8>,
    pub bots: Option<u8>,
    /// The A2S query failed (timeout or error).
    pub failed: bool,
}

/// Whether steamcmd was found.
#[derive(Debug)]
pub struct SteamcmdStatusDto {
    pub found: bool,
    pub path: Option<String>,
    pub platform: String,
}

/// A cached ping result.
#[derive(Debug, Clone)]
pub struct CachedPingResult {
    pub ms: u32,
    pub players: Option<u8>,
    pub max_players: Option<u8>,
    pub failed: bool,
}

fn copy(s: &String) -> (r: String)
    ensures
        r@ == s@,
{
    from_chars(&to_chars(s.as_str()))
}

/// `dto` shows server `s` field for field (all but the mods).
pub open spec fn slim_matches(dto: ServerSlimDto, s: Server) -> bool {
    &&& dto.game_port == s.game_port
    &&& dto.ip@ == s.endpoint.ip@
    &&& dto.query_port == s.endpoint.port
    &&& dto.name@ == s.name@
    &&& dto.map@ == s.map@
    &&& dto.players == s.players
    &&& dto.max_players == s.max_players
    &&& dto.environment@ == s.environment@
    &&& dto.password == s.password
    &&& dto.version@ == s.version@
    &&& dto.first_person_only == s.first_person_only
    &&& dto.time@ == s.time@
    &&& dto.mods_count == s.mods@.len()
    &&& dto.vac == s.vac
    &&& dto.battl_eye == s.battl_eye
}

/// A server without its mod list.
pub fn server_to_slim_dto(s: &Server) -> (r: ServerSlimDto)
    ensures
        slim_matches(r, *s),
{
    ServerSlimDto {
        game_port: s.game_port,
        ip: copy(&s.endpoint.ip),
        query_port: s.endpoint.port,
        name: copy(&s.name),
        map: copy(&s.map),
        players: s.players,
        max_players: s.max_players,
        environment: copy(&s.environment),
        password: s.password,
        version: copy(&s.version),
        first_person_only: s.first_person_only,
        time: copy(&s.time),
        mods_count: s.mods.len(),
        vac: s.vac,
        battl_eye: s.battl_eye,
    }
}

/// A server with its mods.
pub fn server_to_dto(s: &Server) -> (r: ServerDto)
    ensures
        slim_matches(
            ServerSlimDto {
                game_port: r.game_port,
                ip: r.ip,
                query_port: r.query_port,
                name: r.name,
                map: r.map,
                players: r.players,
                max_players: r.max_players,
                environment: r.environment,
                password: r.password,
                version: r.version,
                first_person_only: r.first_person_only,
                time: r.time,
                mods_count: r.mods_count,
                vac: r.vac,
                battl_eye: r.battl_eye,
            },
            *s,
        ),
        r.mods@.len() == s.mods@.len(),
        forall|i: int|
            0 <= i < r.mods@.len() ==> (#[trigger] r.mods@[i]).name@ == s.mods@[i].name@
                && r.mods@[i].steam_workshop_id == s.mods@[i].steam_workshop_id,
{
    let slim = server_to_slim_dto(s);
    let mut mods: Vec<ModDto> = Vec::new();
    let mut i: usize = 0;
    while i < s.mods.len()
        invariant
            i <= s.mods.len(),
            mods@.len() == i,
            forall|k: int|
                0 <= k < i ==> (#[trigger] mods@[k]).name@ == s.mods@[k].name@
                    && mods@[k].steam_workshop_id == s.mods@[k].steam_workshop_id,
        decreases s.mods.len() - i,
    {
        mods.push(ModDto { name: copy(&s.mods[i].name), steam_workshop_id: s.mods[i].steam_workshop_id });
        i = i + 1;
    }
    ServerDto {
        game_port: slim.game_port,
        ip: slim.ip,
        query_port: slim.query_port,
        name: slim.name,
        map: slim.map,
        players: slim.players,
        max_players: slim.max_players,
        environment: slim.environment,
        password: slim.password,
        version: slim.version,
        first_person_only: slim.first_person_only,
        time: slim.time,
        mods_count: slim.mods_count,
        mods,
        vac: slim.vac,
        battl_eye: slim.battl_eye,
    }
}

/// An installed mod for display, given the remote update time if known:
/// an update is available when the remote time is later than the local one.
pub fn installed_mod_to_dto(m: &InstalledMod, remote_updated: Option<i64>) -> (r: InstalledModDto)
    ensures
        r.name@ == m.name@,
        r.id == m.id,
        r.local_updated == m.local_updated,
        r.size == m.size,
        r.size_human@ == format_size_spec(m.size),
        r.managed == m.managed,
        r.remote_updated == remote_updated,
        r.update_available == match remote_updated {
            Some(t) => t > m.local_updated,
            None => false,
        },
{
    let update_available = match remote_updated {
        Some(t) => t > m.local_updated,
        None => false,
    };
    InstalledModDto {
        name: copy(&m.name),
        id: m.id,
        local_updated: m.local_updated,
        size: m.size,
        size_human: format_size(m.size),
        managed: m.managed,
        remote_updated,
        update_available,
    }
}

/// The event kind and name of each progress message, and the counts it
/// carries: `(kind, current, total, mod_id, name, ok, failed, hint,
/// log_line)`.
pub open spec fn event_spec(msg: ModProgress) -> (Seq<char>, usize, usize, u64, Seq<char>, usize, usize, Option<Seq<char>>, Option<Seq<char>>) {
    match msg {
        ModProgress::ShuttingDownSteam => (
            "shutting_down_steam"@,
            0,
            0,
            0,
            "Closing Steam..."@,
            0,
            0,
            None,
            None,
        ),
        ModProgress::SteamGuardMobileRequired => (
            "steam_guard_mobile_required"@,
            0,
            0,
            0,
            Seq::empty(),
            0,
            0,
            None,
            None,
        ),
        ModProgress::PasswordRequired => (
            "password_required"@,
            0,
            0,
            0,
            Seq::empty(),
            0,
            0,
            None,
            None,
        ),
        ModProgress::LogLine(line) => (
            "log_line"@,
            0,
            0,
            0,
            Seq::empty(),
            0,
            0,
            None,
            Some(line@),
        ),
        ModProgress::Starting { current, total, mod_id, name } => (
            "starting"@,
            current,
            total,
            mod_id,
            name@,
            0,
            0,
            None,
            None,
        ),
        ModProgress::Done { current, total, mod_id, name } => (
            "done"@,
            current,
            total,
            mod_id,
            name@,
            0,
            0,
            None,
            None,
        ),
        ModProgress::Failed { current, total, mod_id, name, error } => (
            "failed"@,
            current,
            total,
            mod_id,
            name@ + " ("@ + error@ + ")"@,
            0,
            0,
            None,
            None,
        ),
        ModProgress::Finished { ok, failed, hint, .. } => (
            "finished"@,
            0,
            0,
            0,
            Seq::empty(),
            ok,
            failed,
            opt_string_view(hint),
            None,
        ),
    }
}

/// An event as values, in the order of `event_spec`.
pub open spec fn event_view(e: ModProgressEvent) -> (Seq<char>, usize, usize, u64, Seq<char>, usize, usize, Option<Seq<char>>, Option<Seq<char>>) {
    (
        e.kind@,
        e.current,
        e.total,
        e.mod_id,
        e.name@,
        e.ok,
        e.failed,
        opt_string_view(e.hint),
        opt_string_view(e.log_line),
    )
}

fn event(kind: &str, current: usize, total: usize, mod_id: u64, name: String, ok: usize, failed: usize, hint: Option<String>, log_line: Option<String>) -> (r: ModProgressEvent)
    ensures
        event_view(r) == (
            kind@,
            current,
            total,
            mod_id,
            name@,
            ok,
            failed,
            opt_string_view(hint),
            opt_string_view(log_line),
        ),
{
    ModProgressEvent {
        kind: from_chars(&to_chars(kind)),
        current,
        total,
        mod_id,
        name,
        ok,
        failed,
        hint,
        log_line,
    }
}

fn empty() -> (r: String)
    ensures
        r@ == Seq::<char>::empty(),
{
    from_chars(&Vec::new())
}

fn copy_opt(o: &Option<String>) -> (r: Option<String>)
    ensures
        opt_string_view(r) == opt_string_view(*o),
{
    match o {
        Some(s) => Some(copy(s)),
        None => None,
    }
}

/// The event that the interface receives for a progress message.
pub fn mod_progress_to_event(msg: &ModProgress) -> (r: ModProgressEvent)
    ensures
        event_view(r) == event_spec(*msg),
{
    match msg {
        ModProgress::ShuttingDownSteam => event(
            "shutting_down_steam",
            0,
            0,
            0,
            from_chars(&to_chars("Closing Steam...")),
            0,
            0,
            None,
            None,
        ),
        ModProgress::SteamGuardMobileRequired => event(
            "steam_guard_mobile_required",
            0,
            0,
            0,
            empty(),
            0,
            0,
            None,
            None,
        ),
        ModProgress::PasswordRequired => event(
            "password_required",
            0,
            0,
            0,
            empty(),
            0,
            0,
            None,
            None,
        ),
        ModProgress::LogLine(line) => event(
            "log_line",
            0,
            0,
            0,
            empty(),
            0,
            0,
            None,
            Some(copy(line)),
        ),
        ModProgress::Starting { current, total, mod_id, name } => event(
            "starting",
            *current,
            *total,
            *mod_id,
            copy(name),
            0,
            0,
            None,
            None,
        ),
        ModProgress::Done { current, total, mod_id, name } => event(
            "done",
            *current,
            *total,
            *mod_id,
            copy(name),
            0,
            0,
            None,
            None,
        ),
        ModProgress::Failed { current, total, mod_id, name, error } => {
            let mut v = to_chars(name.as_str());
            push_str(&mut v, " (");
            push_str(&mut v, error.as_str());
            push_str(&mut v, ")");
            event("failed", *current, *total, *mod_id, from_chars(&v), 0, 0, None, None)
        },
        ModProgress::Finished { ok, failed, hint, .. } => event(
            "finished",
            0,
            0,
            0,
            empty(),
            *ok,
            *failed,
            copy_opt(hint),
            None,
        ),
    }
}

// ------------------------------------------------------------ profile

/// The profile for the interface (the user's location is added by the
/// application, which keeps it).
#[derive(Debug)]
pub struct ProfileDto {
    pub steam_login: Option<String>,
    pub steam_password: Option<String>,
    pub steam_root: Option<String>,
    pub steamcmd_enabled: bool,
    pub steamcmd_path: Option<String>,
    pub player: Option<String>,
    pub steam_api_key: Option<String>,
    pub steam_id: Option<String>,
    pub battlemetrics_api_key: Option<String>,
    pub favorites: Vec<FavoriteDto>,
    pub history: Vec<HistoryDto>,
    pub options: Vec<LaunchOptionDto>,
    pub excluded_ips: Vec<String>,
}

/// A favorite for display as values: name, IP, port, password.
pub open spec fn fav_dto_view(f: FavoriteDto) -> (Seq<char>, Seq<char>, u16, Option<Seq<char>>) {
    (f.name@, f.ip@, f.port, opt_string_view(f.password))
}

/// A history entry for display as values: the entry, and how long ago it
/// was joined.
pub open spec fn hist_dto_view(h: HistoryDto) -> ((Seq<char>, Seq<char>, u16, i64), Seq<char>) {
    ((h.name@, h.ip@, h.port, h.ts), h.relative_time@)
}

/// A launch option for display as values: key, enabled, value, description.
pub open spec fn option_dto_view(o: LaunchOptionDto) -> (Seq<char>, (bool, Option<Seq<char>>, Seq<char>)) {
    (o.key@, (o.enabled, opt_string_view(o.value), o.description@))
}

fn copy_opt_text(o: &Option<String>) -> (r: Option<String>)
    ensures
        opt_string_view(r) == opt_string_view(*o),
{
    match o {
        Some(s) => Some(copy(s)),
        None => None,
    }
}

/// The profile for display; `ago` words, for each history entry in order,
/// how long ago it was joined.
pub fn profile_to_dto(p: &Profile, ago: &Vec<String>) -> (r: ProfileDto)
    requires
        ago@.len() == p.history@.len(),
    ensures
        opt_string_view(r.steam_login) == opt_string_view(p.steam_login),
        opt_string_view(r.steam_password) == opt_string_view(p.steam_password),
        opt_string_view(r.steam_root) == opt_string_view(p.steam_root),
        r.steamcmd_enabled == p.steamcmd_enabled,
        opt_string_view(r.steamcmd_path) == opt_string_view(p.steamcmd_path),
        opt_string_view(r.player) == opt_string_view(p.player),
        opt_string_view(r.steam_api_key) == opt_string_view(p.steam_api_key),
        opt_string_view(r.steam_id) == opt_string_view(p.steam_id),
        opt_string_view(r.battlemetrics_api_key) == opt_string_view(p.battlemetrics_api_key),
        r.favorites@.map_values(|f: FavoriteDto| fav_dto_view(f)) == fav_views(p.favorites@),
        r.history@.len() == p.history@.len(),
        forall|i: int|
            0 <= i < p.history@.len() ==> #[trigger] hist_dto_view(r.history@[i]) == (
                hist_view(p.history@[i]),
                ago@[i]@,
            ),
        r.options@.len() == 19,
        forall|i: int|
            0 <= i < 19 ==> #[trigger] option_dto_view(r.options@[i]) == (
                option_keys()[i],
                option_view(option_list(p.options)[i]),
            ),
        string_views(r.excluded_ips@) == string_views(p.excluded_ips@),
{
    let mut favorites: Vec<FavoriteDto> = Vec::new();
    let mut i: usize = 0;
    while i < p.favorites.len()
        invariant
            i <= p.favorites.len(),
            favorites@.map_values(|f: FavoriteDto| fav_dto_view(f)) == fav_views(p.favorites@.subrange(0, i as int)),
        decreases p.favorites.len() - i,
    {
        let f = &p.favorites[i];
        let ghost before = favorites@;
        let d = FavoriteDto { name: copy(&f.name), ip: copy(&f.ip), port: f.port, password: copy_opt_text(&f.password) };
        favorites.push(d);
        assert(favorites@.map_values(|f: FavoriteDto| fav_dto_view(f)) =~= before.map_values(
            |f: FavoriteDto| fav_dto_view(f),
        ).push(fav_dto_view(d)));
        assert(p.favorites@.subrange(0, i + 1) =~= p.favorites@.subrange(0, i as int).push(p.favorites@[i as int]));
        assert(fav_views(p.favorites@.subrange(0, i + 1)) =~= fav_views(p.favorites@.subrange(0, i as int)).push(
            fav_view(p.favorites@[i as int]),
        ));
        i = i + 1;
    }
    assert(p.favorites@.subrange(0, p.favorites@.len() as int) =~= p.favorites@);
    let mut history: Vec<HistoryDto> = Vec::new();
    let mut j: usize = 0;
    while j < p.history.len()
        invariant
            j <= p.history.len(),
            ago@.len() == p.history@.len(),
            history@.len() == j,
            forall|k: int| 0 <= k < j ==> #[trigger] hist_dto_view(history@[k]) == (hist_view(p.history@[k]), ago@[k]@),
        decreases p.history.len() - j,
    {
        let h = &p.history[j];
        history.push(HistoryDto { name: copy(&h.name), ip: copy(&h.ip), port: h.port, ts: h.ts, relative_time: copy(&ago[j]) });
        j = j + 1;
    }
    let all = p.options.all_options();
    let mut options: Vec<LaunchOptionDto> = Vec::new();
    let mut k: usize = 0;
    while k < 19
        invariant
            k <= 19,
            all@.len() == 19,
            forall|i: int| 0 <= i < 19 ==> (#[trigger] all@[i]).0@ == option_keys()[i] && *all@[i].1 == option_list(p.options)[i],
            options@.len() == k,
            forall|i: int| 0 <= i < k ==> #[trigger] option_dto_view(options@[i]) == (
                option_keys()[i],
                option_view(option_list(p.options)[i]),
            ),
        decreases 19 - k,
    {
        let (key, opt) = all[k];
        options.push(LaunchOptionDto {
            key: from_chars(&to_chars(key)),
            enabled: opt.enabled,
            value: copy_opt_text(&opt.value),
            description: copy(&opt.description),
        });
        k = k + 1;
    }
    let mut excluded: Vec<String> = Vec::new();
    let mut e: usize = 0;
    while e < p.excluded_ips.len()
        invariant
            e <= p.excluded_ips.len(),
            string_views(excluded@) == string_views(p.excluded_ips@).subrange(0, e as int),
        decreases p.excluded_ips.len() - e,
    {
        let ghost before = excluded@;
        let x = copy(&p.excluded_ips[e]);
        excluded.push(x);
        assert(string_views(excluded@) =~= string_views(before).push(x@));
        e = e + 1;
    }
    assert(string_views(p.excluded_ips@).subrange(0, p.excluded_ips@.len() as int) =~= string_views(p.excluded_ips@));
    ProfileDto {
        steam_login: copy_opt_text(&p.steam_login),
        steam_password: copy_opt_text(&p.steam_password),
        steam_root: copy_opt_text(&p.steam_root),
        steamcmd_enabled: p.steamcmd_enabled,
        steamcmd_path: copy_opt_text(&p.steamcmd_path),
        player: copy_opt_text(&p.player),
        steam_api_key: copy_opt_text(&p.steam_api_key),
        steam_id: copy_opt_text(&p.steam_id),
        battlemetrics_api_key: copy_opt_text(&p.battlemetrics_api_key),
        favorites,
        history,
        options,
        excluded_ips: excluded,
    }
}

// ------------------------------------------------------------ statistics

/// The figures of the title bar: the servers listed, their players added
/// up, the player's name, the steamcmd login and whether steamcmd is
/// configured.
pub fn app_stats(servers: &Vec<Server>, player: &Option<String>, login: Option<&str>, has_steamcmd: bool) -> (r: AppStatsDto)
    requires
        totals_fit(servers@),
    ensures
        r.server_count == servers@.len(),
        r.total_players == players_total(servers@),
        opt_string_view(r.player_name) == opt_string_view(*player),
        opt_string_view(r.steam_login) == match login {
            Some(l) => Some(l@),
            None => None,
        },
        r.has_steamcmd == has_steamcmd,
{
    let total = sum_players(servers);
    AppStatsDto {
        server_count: servers.len(),
        total_players: total,
        player_name: copy_opt_text(player),
        steam_login: match login {
            Some(l) => Some(from_chars(&to_chars(l))),
            None => None,
        },
        has_steamcmd,
    }
}

// ------------------------------------------------------------ start-up

/// The server list at start-up: the cached list when there is one, else
/// the one fetched (saved by the application as the new cache), else none;
/// de-duplicated.  With it, the answer of the start-up command.
pub fn initial_servers(cached: Option<Vec<Server>>, fetched: Option<Vec<Server>>, is_first_launch: bool) -> (r: (Vec<Server>, InitResult))
    ensures
        r.0@ == dedup_spec(
            match cached {
                Some(c) => c@,
                None => match fetched {
                    Some(f) => f@,
                    None => Seq::empty(),
                },
            },
        ),
        r.1.server_count == r.0@.len(),
        r.1.from_cache == cached is Some,
        r.1.is_first_launch == is_first_launch,
{
    let from_cache = cached.is_some();
    let list = match cached {
        Some(c) => c,
        None => match fetched {
            Some(f) => f,
            None => Vec::new(),
        },
    };
    let servers = dedup_servers(list);
    let n = servers.len();
    (servers, InitResult { server_count: n, from_cache, is_first_launch })
}

/// Whether steamcmd was found, and where: the profile's binary when it is
/// set and exists, else the one on the search path, else (on Windows) the
/// one the application installed.
pub fn steamcmd_status(
    platform: &str,
    configured: Option<String>,
    on_path: Option<String>,
    installed: Option<String>,
) -> (r: SteamcmdStatusDto)
    ensures
        r.platform@ == platform@,
        r.found == (configured is Some || on_path is Some || installed is Some),
        opt_string_view(r.path) == match configured {
            Some(p) => Some(p@),
            None => match on_path {
                Some(p) => Some(p@),
                None => match installed {
                    Some(p) => Some(p@),
                    None => None,
                },
            },
        },
{
    let path = match configured {
        Some(p) => Some(p),
        None => match on_path {
            Some(p) => Some(p),
            None => installed,
        },
    };
    SteamcmdStatusDto { found: path.is_some(), path, platform: from_chars(&to_chars(platform)) }
}

} // verus!
