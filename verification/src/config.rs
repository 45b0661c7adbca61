//! The user profile: favorites, history, excluded IPs and launch options.
//!
//! Reading and writing the profile file is left to the application; the
//! rules for what a profile holds and how it changes are here.

use vstd::prelude::*;
use crate::api::{unix_now_secs, Server};
use crate::paths::join_path;
use crate::text::{
    from_chars, opt_string_view, push_all, push_str, str_eq, string_views, to_chars,
};

verus! {

/// The application's name, used for its data directory.
pub const APP_NAME: &'static str = "dayz-community-hub";

/// The profile format version written by this application.
pub const APP_VERSION: &'static str = "0.1.0";

/// A serde JSON value, carried through without being read.
#[verifier::external_type_specification]
#[verifier::external_body]
pub struct ExJsonValue(serde_json::Value);

/// A favorite server.
#[derive(Debug)]
pub struct Favorite {
    pub name: String,
    pub ip: String,
    pub port: u16,
    /// Optional server join password, saved so Direct Connect can fill it.
    pub password: Option<String>,
}

/// A server that was joined.
#[derive(Debug)]
pub struct History {
    pub name: String,
    pub ip: String,
    pub port: u16,
    pub ts: i64,
    /// Fields of older profiles that are kept as they were.
    pub extra: Option<serde_json::Value>,
}

/// A single launch option with enabled flag, optional value, and description.
#[derive(Debug)]
pub struct LaunchOption {
    pub enabled: bool,
    pub value: Option<String>,
    pub description: String,
}

/// An option's value as a profile file stores it (a JSON value): text, a
/// number or another value in its JSON writing, a boolean, or `null`.
#[derive(Debug)]
pub enum StoredValue {
    Text(String),
    Number(String),
    Bool(bool),
    Null,
    Other(String),
}

/// The value of an option read from a profile: text as it is, numbers and
/// other values as they are written, booleans as `true` or `false`, none
/// for `null`.
pub open spec fn stored_value_text(v: StoredValue) -> Option<Seq<char>> {
    match v {
        StoredValue::Text(s) => Some(s@),
        StoredValue::Number(s) => Some(s@),
        StoredValue::Bool(b) => Some(if b { "true"@ } else { "false"@ }),
        StoredValue::Null => None,
        StoredValue::Other(s) => Some(s@),
    }
}

/// A launch option read from a profile file: its enabled flag, its value
/// (none when missing or `null`) and its description (empty when missing).
pub fn option_from_stored(enabled: bool, value: Option<StoredValue>, description: Option<String>) -> (r: LaunchOption)
    ensures
        r.enabled == enabled,
        opt_string_view(r.value) == match value {
            Some(v) => stored_value_text(v),
            None => None,
        },
        r.description@ == match description {
            Some(d) => d@,
            None => Seq::<char>::empty(),
        },
{
    let v = match value {
        None => None,
        Some(StoredValue::Text(s)) => Some(s),
        Some(StoredValue::Number(s)) => Some(s),
        Some(StoredValue::Bool(b)) => Some(from_chars(&to_chars(if b { "true" } else { "false" }))),
        Some(StoredValue::Null) => None,
        Some(StoredValue::Other(s)) => Some(s),
    };
    let d = match description {
        Some(d) => d,
        None => from_chars(&Vec::new()),
    };
    LaunchOption { enabled, value: v, description: d }
}

/// Launch options.
#[derive(Debug)]
pub struct LaunchOptions {
    pub window: LaunchOption,
    pub noborder: LaunchOption,
    pub nosplash: LaunchOption,
    pub skipintro: LaunchOption,
    pub nolauncher: LaunchOption,
    pub file_patching: LaunchOption,
    pub do_logs: LaunchOption,
    pub buldozer: LaunchOption,
    pub winxp: LaunchOption,
    pub high: LaunchOption,
    pub world: LaunchOption,
    pub no_pause: LaunchOption,
    pub max_mem: LaunchOption,
    pub max_vram: LaunchOption,
    pub cpu_count: LaunchOption,
    pub ex_threads: LaunchOption,
    pub no_benchmark: LaunchOption,
    pub script_debug: LaunchOption,
    pub profiles: LaunchOption,
}

/// A launch option as values: enabled, value, description.
pub open spec fn option_view(o: LaunchOption) -> (bool, Option<Seq<char>>, Seq<char>) {
    (o.enabled, opt_string_view(o.value), o.description@)
}

/// Launch options as values.
pub open spec fn option_views(v: Seq<LaunchOption>) -> Seq<(bool, Option<Seq<char>>, Seq<char>)> {
    v.map_values(|o: LaunchOption| option_view(o))
}

/// The options in their fixed order.
pub open spec fn option_list(o: LaunchOptions) -> Seq<LaunchOption> {
    seq![
        o.window,
        o.noborder,
        o.nosplash,
        o.skipintro,
        o.nolauncher,
        o.file_patching,
        o.do_logs,
        o.buldozer,
        o.winxp,
        o.high,
        o.world,
        o.no_pause,
        o.max_mem,
        o.max_vram,
        o.cpu_count,
        o.ex_threads,
        o.no_benchmark,
        o.script_debug,
        o.profiles,
    ]
}

/// The options' names, in the same order.
pub open spec fn option_keys() -> Seq<Seq<char>> {
    seq![
        "window"@,
        "noborder"@,
        "nosplash"@,
        "skipintro"@,
        "nolauncher"@,
        "file_patching"@,
        "do_logs"@,
        "buldozer"@,
        "winxp"@,
        "high"@,
        "world"@,
        "no_pause"@,
        "max_mem"@,
        "max_vram"@,
        "cpu_count"@,
        "ex_threads"@,
        "no_benchmark"@,
        "script_debug"@,
        "profiles"@,
    ]
}

/// The game's command-line flags of the options, in the same order.
pub open spec fn option_flags() -> Seq<Seq<char>> {
    seq![
        "-window"@,
        "-noborder"@,
        "-nosplash"@,
        "-skipIntro"@,
        "-nolauncher"@,
        "-filePatching"@,
        "-doLogs"@,
        "-buldozer"@,
        "-winxp"@,
        "-high"@,
        "-world"@,
        "-noPause"@,
        "-maxMem"@,
        "-maxVRAM"@,
        "-cpuCount"@,
        "-exThreads"@,
        "-noBenchmark"@,
        "-scriptDebug"@,
        "-profiles"@,
    ]
}

/// The default `(enabled, value, description)` of each option, in order.
pub open spec fn default_options() -> Seq<(bool, Option<Seq<char>>, Seq<char>)> {
    seq![
        (false, None, "Run in windowed mode"@),
        (false, None, "Borderless window"@),
        (true, None, "Skip splash screen"@),
        (true, None, "Skip intro video"@),
        (true, None, "Skip launcher"@),
        (false, None, "Enable file patching"@),
        (false, None, "Enable logging"@),
        (false, None, "Buldozer mode"@),
        (false, None, "DirectX 9 compatibility"@),
        (true, None, "High process priority"@),
        (true, Some("empty"@), "World to load"@),
        (false, None, "Don't pause when unfocused"@),
        (false, None, "Max memory in MB"@),
        (false, None, "Max VRAM in MB"@),
        (false, None, "Number of CPU cores"@),
        (false, None, "Number of threads"@),
        (false, None, "Disable benchmark"@),
        (false, None, "Script debug mode"@),
        (false, None, "Custom profiles directory"@),
    ]
}

/// The arguments of the enabled options, in order: the flag, or
/// `flag=value` when the option has a value.
pub open spec fn args_of(flags: Seq<Seq<char>>, opts: Seq<LaunchOption>) -> Seq<Seq<char>>
    decreases opts.len(),
{
    if opts.len() == 0 || flags.len() < opts.len() {
        Seq::empty()
    } else {
        let n = (opts.len() - 1) as int;
        let p = args_of(flags.subrange(0, n), opts.drop_last());
        let o = opts.last();
        if o.enabled {
            match o.value {
                Some(v) => p.push(flags[n] + seq!['='] + v@),
                None => p.push(flags[n]),
            }
        } else {
            p
        }
    }
}

fn option(enabled: bool, value: Option<&str>, description: &str) -> (r: LaunchOption)
    ensures
        r.enabled == enabled,
        opt_string_view(r.value) == match value {
            Some(v) => Some(v@),
            None => None::<Seq<char>>,
        },
        r.description@ == description@,
{
    LaunchOption {
        enabled,
        value: match value {
            Some(v) => Some(from_chars(&to_chars(v))),
            None => None,
        },
        description: from_chars(&to_chars(description)),
    }
}

fn copy_option(o: &LaunchOption) -> (r: LaunchOption)
    ensures
        option_view(r) == option_view(*o),
{
    LaunchOption {
        enabled: o.enabled,
        value: match &o.value {
            Some(v) => Some(from_chars(&to_chars(v.as_str()))),
            None => None,
        },
        description: from_chars(&to_chars(o.description.as_str())),
    }
}

impl LaunchOptions {
    /// The default launch options: the single source of truth for option
    /// names, defaults and descriptions.
    pub fn defaults() -> (r: Self)
        ensures
            option_views(option_list(r)) == default_options(),
    {
        let r = LaunchOptions {
            window: option(false, None, "Run in windowed mode"),
            noborder: option(false, None, "Borderless window"),
            nosplash: option(true, None, "Skip splash screen"),
            skipintro: option(true, None, "Skip intro video"),
            nolauncher: option(true, None, "Skip launcher"),
            file_patching: option(false, None, "Enable file patching"),
            do_logs: option(false, None, "Enable logging"),
            buldozer: option(false, None, "Buldozer mode"),
            winxp: option(false, None, "DirectX 9 compatibility"),
            high: option(true, None, "High process priority"),
            world: option(true, Some("empty"), "World to load"),
            no_pause: option(false, None, "Don't pause when unfocused"),
            max_mem: option(false, None, "Max memory in MB"),
            max_vram: option(false, None, "Max VRAM in MB"),
            cpu_count: option(false, None, "Number of CPU cores"),
            ex_threads: option(false, None, "Number of threads"),
            no_benchmark: option(false, None, "Disable benchmark"),
            script_debug: option(false, None, "Script debug mode"),
            profiles: option(false, None, "Custom profiles directory"),
        };
        assert(option_views(option_list(r)) =~= default_options());
        r
    }

    /// All options with their names, in order, for display.
    pub fn all_options(&self) -> (r: Vec<(&str, &LaunchOption)>)
        ensures
            r@.len() == 19,
            forall|i: int|
                0 <= i < 19 ==> (#[trigger] r@[i]).0@ == option_keys()[i] && *r@[i].1
                    == option_list(*self)[i],
    {
        let r = vec![
            ("window", &self.window),
            ("noborder", &self.noborder),
            ("nosplash", &self.nosplash),
            ("skipintro", &self.skipintro),
            ("nolauncher", &self.nolauncher),
            ("file_patching", &self.file_patching),
            ("do_logs", &self.do_logs),
            ("buldozer", &self.buldozer),
            ("winxp", &self.winxp),
            ("high", &self.high),
            ("world", &self.world),
            ("no_pause", &self.no_pause),
            ("max_mem", &self.max_mem),
            ("max_vram", &self.max_vram),
            ("cpu_count", &self.cpu_count),
            ("ex_threads", &self.ex_threads),
            ("no_benchmark", &self.no_benchmark),
            ("script_debug", &self.script_debug),
            ("profiles", &self.profiles),
        ];
        r
    }

    /// Converts the enabled options to command-line arguments.
    pub fn to_args(&self) -> (r: Vec<String>)
        ensures
            string_views(r@) == args_of(option_flags(), option_list(*self)),
    {
        let all: Vec<(&str, &LaunchOption)> = vec![
            ("-window", &self.window),
            ("-noborder", &self.noborder),
            ("-nosplash", &self.nosplash),
            ("-skipIntro", &self.skipintro),
            ("-nolauncher", &self.nolauncher),
            ("-filePatching", &self.file_patching),
            ("-doLogs", &self.do_logs),
            ("-buldozer", &self.buldozer),
            ("-winxp", &self.winxp),
            ("-high", &self.high),
            ("-world", &self.world),
            ("-noPause", &self.no_pause),
            ("-maxMem", &self.max_mem),
            ("-maxVRAM", &self.max_vram),
            ("-cpuCount", &self.cpu_count),
            ("-exThreads", &self.ex_threads),
            ("-noBenchmark", &self.no_benchmark),
            ("-scriptDebug", &self.script_debug),
            ("-profiles", &self.profiles),
        ];
        let ghost flags = all@.map_values(|p: (&str, &LaunchOption)| p.0@);
        let ghost opts = all@.map_values(|p: (&str, &LaunchOption)| *p.1);
        assert(flags =~= option_flags());
        assert(opts =~= option_list(*self));
        let mut args: Vec<String> = Vec::new();
        let mut i: usize = 0;
        while i < all.len()
            invariant
                i <= all.len(),
                flags == all@.map_values(|p: (&str, &LaunchOption)| p.0@),
                opts == all@.map_values(|p: (&str, &LaunchOption)| *p.1),
                string_views(args@) == args_of(flags.subrange(0, i as int), opts.subrange(0, i as int)),
            decreases all.len() - i,
        {
            let (flag, opt) = all[i];
            proof {
                let os = opts.subrange(0, i + 1);
                let fs = flags.subrange(0, i + 1);
                assert(os.drop_last() =~= opts.subrange(0, i as int));
                assert(fs.subrange(0, i as int) =~= flags.subrange(0, i as int));
                assert(os.last() == *opt);
                assert(fs[i as int] == flag@);
            }
            if opt.enabled {
                let ghost before = args@;
                let a = match &opt.value {
                    Some(value) => {
                        let mut v = to_chars(flag);
                        v.push('=');
                        push_str(&mut v, value.as_str());
                        assert(v@ =~= flag@ + seq!['='] + value@);
                        from_chars(&v)
                    },
                    None => from_chars(&to_chars(flag)),
                };
                args.push(a);
                assert(string_views(before.push(a)) =~= string_views(before).push(a@));
            }
            i = i + 1;
        }
        assert(flags.subrange(0, 19) =~= flags);
        assert(opts.subrange(0, 19) =~= opts);
        args
    }
}

// ------------------------------------------------------------ legacy keys

/// The option stored under the first of `keys` that `entries` holds, or
/// `default`.  Among entries with one key the first counts.
pub open spec fn lookup_option(entries: Seq<(String, LaunchOption)>, keys: Seq<Seq<char>>, default: (bool, Option<Seq<char>>, Seq<char>)) -> (bool, Option<Seq<char>>, Seq<char>)
    decreases keys.len(),
{
    if keys.len() == 0 {
        default
    } else if exists|i: int| 0 <= i < entries.len() && (#[trigger] entries[i]).0@ == keys[0] {
        let i = choose|i: int|
            0 <= i < entries.len() && (#[trigger] entries[i]).0@ == keys[0] && forall|j: int|
                0 <= j < i ==> (#[trigger] entries[j]).0@ != keys[0];
        option_view(entries[i].1)
    } else {
        lookup_option(entries, keys.drop_first(), default)
    }
}

/// The keys under which each option may be stored: its own name, then the
/// camelCase names of older profiles.
pub open spec fn option_aliases() -> Seq<Seq<Seq<char>>> {
    seq![
        seq!["window"@],
        seq!["noborder"@],
        seq!["nosplash"@],
        seq!["skipintro"@, "skipIntro"@],
        seq!["nolauncher"@, "noLauncher"@],
        seq!["file_patching"@, "filePathing"@, "filePatching"@],
        seq!["do_logs"@, "doLogs"@],
        seq!["buldozer"@],
        seq!["winxp"@],
        seq!["high"@],
        seq!["world"@],
        seq!["no_pause"@, "noPause"@],
        seq!["max_mem"@, "maxMem"@],
        seq!["max_vram"@, "maxVRAM"@],
        seq!["cpu_count"@, "cpuCount"@],
        seq!["ex_threads"@, "exThreads"@],
        seq!["no_benchmark"@, "noBenchmark"@],
        seq!["script_debug"@, "scriptDebug"@],
        seq!["profiles"@],
    ]
}

/// Key texts.
pub open spec fn key_views(keys: Seq<&str>) -> Seq<Seq<char>> {
    keys.map_values(|k: &str| k@)
}

fn find_key(entries: &Vec<(String, LaunchOption)>, key: &str) -> (r: Option<usize>)
    ensures
        match r {
            Some(i) => i < entries@.len() && entries@[i as int].0@ == key@ && forall|j: int|
                0 <= j < i ==> (#[trigger] entries@[j]).0@ != key@,
            None => forall|j: int| 0 <= j < entries@.len() ==> (#[trigger] entries@[j]).0@ != key@,
        },
{
    let mut i: usize = 0;
    while i < entries.len()
        invariant
            i <= entries.len(),
            forall|j: int| 0 <= j < i ==> (#[trigger] entries@[j]).0@ != key@,
        decreases entries.len() - i,
    {
        if str_eq(entries[i].0.as_str(), key) {
            return Some(i);
        }
        i = i + 1;
    }
    None
}

proof fn lemma_lookup_found(entries: Seq<(String, LaunchOption)>, keys: Seq<Seq<char>>, default: (bool, Option<Seq<char>>, Seq<char>), i: int)
    requires
        keys.len() > 0,
        0 <= i < entries.len(),
        entries[i].0@ == keys[0],
        forall|j: int| 0 <= j < i ==> (#[trigger] entries[j]).0@ != keys[0],
    ensures
        lookup_option(entries, keys, default) == option_view(entries[i].1),
{
    let k = choose|k: int|
        0 <= k < entries.len() && (#[trigger] entries[k]).0@ == keys[0] && forall|j: int|
            0 <= j < k ==> (#[trigger] entries[j]).0@ != keys[0];
    assert(0 <= k < entries.len() && entries[k].0@ == keys[0] && forall|j: int|
        0 <= j < k ==> (#[trigger] entries[j]).0@ != keys[0]);
    if k < i {
        assert(entries[k].0@ != keys[0]);
    }
    if i < k {
        assert(entries[i].0@ != keys[0]);
    }
}

fn get_opt(entries: &Vec<(String, LaunchOption)>, keys: &Vec<&str>, default: LaunchOption) -> (r: LaunchOption)
    ensures
        option_view(r) == lookup_option(
            entries@,
            key_views(keys@),
            option_view(default),
        ),
{
    let ghost ks = key_views(keys@);
    let mut i: usize = 0;
    assert(ks.subrange(0, ks.len() as int) =~= ks);
    while i < keys.len()
        invariant
            i <= keys.len(),
            ks == key_views(keys@),
            lookup_option(entries@, ks, option_view(default)) == lookup_option(
                entries@,
                ks.subrange(i as int, ks.len() as int),
                option_view(default),
            ),
        decreases keys.len() - i,
    {
        let ghost t = ks.subrange(i as int, ks.len() as int);
        assert(t[0] == keys@[i as int]@);
        assert(t.drop_first() =~= ks.subrange(i + 1, ks.len() as int));
        match find_key(entries, keys[i]) {
            Some(j) => {
                proof {
                    lemma_lookup_found(entries@, t, option_view(default), j as int);
                }
                return copy_option(&entries[j].1);
            },
            None => {},
        }
        i = i + 1;
    }
    default
}

/// Launch options from the entries of a profile's `options` object, which
/// may use the snake_case names or the camelCase names of older profiles;
/// an option that is absent keeps its default.
pub fn launch_options_from_entries(entries: &Vec<(String, LaunchOption)>) -> (r: LaunchOptions)
    ensures
        option_list(r).len() == 19,
        forall|i: int|
            0 <= i < 19 ==> option_view(#[trigger] option_list(r)[i]) == lookup_option(
                entries@,
                option_aliases()[i],
                default_options()[i],
            ),
{
    let d = LaunchOptions::defaults();
    let ghost dv = option_views(option_list(d));
    let keys = vec!["window"];
    assert(key_views(keys@) =~= option_aliases()[0]);
    assert(dv[0] == option_view(d.window));
    let window = get_opt(entries, &keys, d.window);
    let keys = vec!["noborder"];
    assert(key_views(keys@) =~= option_aliases()[1]);
    assert(dv[1] == option_view(d.noborder));
    let noborder = get_opt(entries, &keys, d.noborder);
    let keys = vec!["nosplash"];
    assert(key_views(keys@) =~= option_aliases()[2]);
    assert(dv[2] == option_view(d.nosplash));
    let nosplash = get_opt(entries, &keys, d.nosplash);
    let keys = vec!["skipintro", "skipIntro"];
    assert(key_views(keys@) =~= option_aliases()[3]);
    assert(dv[3] == option_view(d.skipintro));
    let skipintro = get_opt(entries, &keys, d.skipintro);
    let keys = vec!["nolauncher", "noLauncher"];
    assert(key_views(keys@) =~= option_aliases()[4]);
    assert(dv[4] == option_view(d.nolauncher));
    let nolauncher = get_opt(entries, &keys, d.nolauncher);
    let keys = vec!["file_patching", "filePathing", "filePatching"];
    assert(key_views(keys@) =~= option_aliases()[5]);
    assert(dv[5] == option_view(d.file_patching));
    let file_patching = get_opt(entries, &keys, d.file_patching);
    let keys = vec!["do_logs", "doLogs"];
    assert(key_views(keys@) =~= option_aliases()[6]);
    assert(dv[6] == option_view(d.do_logs));
    let do_logs = get_opt(entries, &keys, d.do_logs);
    let keys = vec!["buldozer"];
    assert(key_views(keys@) =~= option_aliases()[7]);
    assert(dv[7] == option_view(d.buldozer));
    let buldozer = get_opt(entries, &keys, d.buldozer);
    let keys = vec!["winxp"];
    assert(key_views(keys@) =~= option_aliases()[8]);
    assert(dv[8] == option_view(d.winxp));
    let winxp = get_opt(entries, &keys, d.winxp);
    let keys = vec!["high"];
    assert(key_views(keys@) =~= option_aliases()[9]);
    assert(dv[9] == option_view(d.high));
    let high = get_opt(entries, &keys, d.high);
    let keys = vec!["world"];
    assert(key_views(keys@) =~= option_aliases()[10]);
    assert(dv[10] == option_view(d.world));
    let world = get_opt(entries, &keys, d.world);
    let keys = vec!["no_pause", "noPause"];
    assert(key_views(keys@) =~= option_aliases()[11]);
    assert(dv[11] == option_view(d.no_pause));
    let no_pause = get_opt(entries, &keys, d.no_pause);
    let keys = vec!["max_mem", "maxMem"];
    assert(key_views(keys@) =~= option_aliases()[12]);
    assert(dv[12] == option_view(d.max_mem));
    let max_mem = get_opt(entries, &keys, d.max_mem);
    let keys = vec!["max_vram", "maxVRAM"];
    assert(key_views(keys@) =~= option_aliases()[13]);
    assert(dv[13] == option_view(d.max_vram));
    let max_vram = get_opt(entries, &keys, d.max_vram);
    let keys = vec!["cpu_count", "cpuCount"];
    assert(key_views(keys@) =~= option_aliases()[14]);
    assert(dv[14] == option_view(d.cpu_count));
    let cpu_count = get_opt(entries, &keys, d.cpu_count);
    let keys = vec!["ex_threads", "exThreads"];
    assert(key_views(keys@) =~= option_aliases()[15]);
    assert(dv[15] == option_view(d.ex_threads));
    let ex_threads = get_opt(entries, &keys, d.ex_threads);
    let keys = vec!["no_benchmark", "noBenchmark"];
    assert(key_views(keys@) =~= option_aliases()[16]);
    assert(dv[16] == option_view(d.no_benchmark));
    let no_benchmark = get_opt(entries, &keys, d.no_benchmark);
    let keys = vec!["script_debug", "scriptDebug"];
    assert(key_views(keys@) =~= option_aliases()[17]);
    assert(dv[17] == option_view(d.script_debug));
    let script_debug = get_opt(entries, &keys, d.script_debug);
    let keys = vec!["profiles"];
    assert(key_views(keys@) =~= option_aliases()[18]);
    assert(dv[18] == option_view(d.profiles));
    let profiles = get_opt(entries, &keys, d.profiles);
    let r = LaunchOptions {
        window,
        noborder,
        nosplash,
        skipintro,
        nolauncher,
        file_patching,
        do_logs,
        buldozer,
        winxp,
        high,
        world,
        no_pause,
        max_mem,
        max_vram,
        cpu_count,
        ex_threads,
        no_benchmark,
        script_debug,
        profiles,
    };
    assert(option_list(r).len() == 19);
    r
}

// ------------------------------------------------------------ profile

/// The data directory under a home directory:
/// `<home>/.local/share/dayz-community-hub`.
pub fn default_data_dir(home: &str) -> (r: String)
    ensures
        r@ == join_path(join_path(join_path(home@, ".local"@), "share"@), APP_NAME@),
{
    let a = crate::paths::join(home, ".local");
    let b = crate::paths::join(a.as_str(), "share");
    crate::paths::join(b.as_str(), APP_NAME)
}

/// The default profile path under a home directory:
/// `<home>/.local/share/dayz-community-hub/profile.json`.
pub fn default_profile_path(home: &str) -> (r: String)
    ensures
        r@ == join_path(
            join_path(join_path(join_path(home@, ".local"@), "share"@), APP_NAME@),
            "profile.json"@,
        ),
{
    let d = default_data_dir(home);
    crate::paths::join(d.as_str(), "profile.json")
}

/// The user profile.  The user's location (a pair of floats) is kept by the
/// application beside it.
#[derive(Debug)]
pub struct Profile {
    pub steam_login: Option<String>,
    /// Steam account password, stored so steamcmd can log in
    /// non-interactively.
    pub steam_password: Option<String>,
    pub steam_root: Option<String>,
    pub steamcmd_enabled: bool,
    pub player: Option<String>,
    /// Steam Web API key, used to fetch the player's avatar.
    pub steam_api_key: Option<String>,
    /// Steam 64-bit account id, used with the API key.
    pub steam_id: Option<String>,
    /// BattleMetrics personal access token.
    pub battlemetrics_api_key: Option<String>,
    /// Optional explicit path to the steamcmd binary.
    pub steamcmd_path: Option<String>,
    pub favorites: Vec<Favorite>,
    pub history: Vec<History>,
    /// IPs excluded from the server browser.
    pub excluded_ips: Vec<String>,
    pub options: LaunchOptions,
    pub version: String,
    /// Where the profile is stored.
    pub path: String,
}

/// A favorite as values: name, IP, port, password.
pub open spec fn fav_view(f: Favorite) -> (Seq<char>, Seq<char>, u16, Option<Seq<char>>) {
    (f.name@, f.ip@, f.port, opt_string_view(f.password))
}

/// Favorites as values.
pub open spec fn fav_views(v: Seq<Favorite>) -> Seq<(Seq<char>, Seq<char>, u16, Option<Seq<char>>)> {
    v.map_values(|f: Favorite| fav_view(f))
}

/// A history entry as values: name, IP, port, time.
pub open spec fn hist_view(h: History) -> (Seq<char>, Seq<char>, u16, i64) {
    (h.name@, h.ip@, h.port, h.ts)
}

/// History entries as values.
pub open spec fn hist_views(v: Seq<History>) -> Seq<(Seq<char>, Seq<char>, u16, i64)> {
    v.map_values(|h: History| hist_view(h))
}

/// Some favorite is for `ip:port`.
pub open spec fn has_endpoint(favs: Seq<(Seq<char>, Seq<char>, u16, Option<Seq<char>>)>, ip: Seq<char>, port: u16) -> bool {
    exists|i: int| 0 <= i < favs.len() && (#[trigger] favs[i]).1 == ip && favs[i].2 == port
}

/// The index of the first favorite for `ip:port`.
pub open spec fn endpoint_index(favs: Seq<(Seq<char>, Seq<char>, u16, Option<Seq<char>>)>, ip: Seq<char>, port: u16) -> int {
    choose|i: int|
        0 <= i < favs.len() && (#[trigger] favs[i]).1 == ip && favs[i].2 == port && forall|j: int|
            0 <= j < i ==> !((#[trigger] favs[j]).1 == ip && favs[j].2 == port)
}

/// Favorites after adding one: an existing favorite for the same endpoint
/// (the first) gets the new name and password, else the favorite is
/// appended.
pub open spec fn add_favorite_spec(favs: Seq<(Seq<char>, Seq<char>, u16, Option<Seq<char>>)>, f: (Seq<char>, Seq<char>, u16, Option<Seq<char>>)) -> Seq<(Seq<char>, Seq<char>, u16, Option<Seq<char>>)> {
    if has_endpoint(favs, f.1, f.2) {
        let i = endpoint_index(favs, f.1, f.2);
        favs.update(i, (f.0, favs[i].1, favs[i].2, f.3))
    } else {
        favs.push(f)
    }
}

/// Favorites without those for `ip:port`, in order.
pub open spec fn remove_favorite_spec(favs: Seq<(Seq<char>, Seq<char>, u16, Option<Seq<char>>)>, ip: Seq<char>, port: u16) -> Seq<(Seq<char>, Seq<char>, u16, Option<Seq<char>>)>
    decreases favs.len(),
{
    if favs.len() == 0 {
        Seq::empty()
    } else {
        let p = remove_favorite_spec(favs.drop_last(), ip, port);
        if favs.last().1 != ip || favs.last().2 != port {
            p.push(favs.last())
        } else {
            p
        }
    }
}

/// Favorites without those named `name`, in order.
pub open spec fn remove_named_spec(favs: Seq<(Seq<char>, Seq<char>, u16, Option<Seq<char>>)>, name: Seq<char>) -> Seq<(Seq<char>, Seq<char>, u16, Option<Seq<char>>)>
    decreases favs.len(),
{
    if favs.len() == 0 {
        Seq::empty()
    } else {
        let p = remove_named_spec(favs.drop_last(), name);
        if favs.last().0 != name {
            p.push(favs.last())
        } else {
            p
        }
    }
}

/// History entries for other endpoints than `ip:port`, in order.
pub open spec fn other_history(h: Seq<(Seq<char>, Seq<char>, u16, i64)>, ip: Seq<char>, port: u16) -> Seq<(Seq<char>, Seq<char>, u16, i64)>
    decreases h.len(),
{
    if h.len() == 0 {
        Seq::empty()
    } else {
        let p = other_history(h.drop_last(), ip, port);
        if h.last().1 != ip || h.last().2 != port {
            p.push(h.last())
        } else {
            p
        }
    }
}

/// History entries for other endpoints than `ip:port`, as they are (with
/// the fields of older profiles that they carry), in order.
pub open spec fn other_entries(h: Seq<History>, ip: Seq<char>, port: u16) -> Seq<History>
    decreases h.len(),
{
    if h.len() == 0 {
        Seq::empty()
    } else {
        let p = other_entries(h.drop_last(), ip, port);
        if h.last().ip@ != ip || h.last().port != port {
            p.push(h.last())
        } else {
            p
        }
    }
}

/// The IPs without `ip`, in order.
pub open spec fn without_ip(v: Seq<Seq<char>>, ip: Seq<char>) -> Seq<Seq<char>>
    decreases v.len(),
{
    if v.len() == 0 {
        Seq::empty()
    } else {
        let p = without_ip(v.drop_last(), ip);
        if v.last() != ip {
            p.push(v.last())
        } else {
            p
        }
    }
}

fn copy_str(s: &str) -> (r: String)
    ensures
        r@ == s@,
{
    from_chars(&to_chars(s))
}

fn copy_opt(o: &Option<String>) -> (r: Option<String>)
    ensures
        opt_string_view(r) == opt_string_view(*o),
{
    match o {
        Some(s) => Some(copy_str(s.as_str())),
        None => None,
    }
}

fn opt_eq(a: &Option<String>, b: &Option<String>) -> (r: bool)
    ensures
        r == (opt_string_view(*a) == opt_string_view(*b)),
{
    match (a, b) {
        (Some(x), Some(y)) => str_eq(x.as_str(), y.as_str()),
        (None, None) => true,
        _ => false,
    }
}

/// The account and tool settings that the settings screen edits.
pub struct ProfileSettings {
    pub player: Option<String>,
    pub steam_login: Option<String>,
    pub steam_password: Option<String>,
    pub steam_root: Option<String>,
    pub steamcmd_enabled: bool,
    pub steamcmd_path: Option<String>,
    pub steam_api_key: Option<String>,
    pub steam_id: Option<String>,
    pub battlemetrics_api_key: Option<String>,
}

fn same_endpoint(ip_a: &str, port_a: u16, ip_b: &str, port_b: u16) -> (r: bool)
    ensures
        r == (ip_a@ == ip_b@ && port_a == port_b),
{
    port_a == port_b && str_eq(ip_a, ip_b)
}

impl Profile {
    /// A fresh profile: no credentials, steamcmd enabled, nothing saved,
    /// default launch options.
    pub fn default_with_version(version: &str) -> (r: Self)
        ensures
            r.steam_login is None,
            r.steam_password is None,
            r.steam_root is None,
            r.steamcmd_enabled,
            r.player is None,
            r.steam_api_key is None,
            r.steam_id is None,
            r.battlemetrics_api_key is None,
            r.steamcmd_path is None,
            r.favorites@.len() == 0,
            r.history@.len() == 0,
            r.excluded_ips@.len() == 0,
            option_views(option_list(r.options)) == default_options(),
            r.version@ == version@,
            r.path@.len() == 0,
    {
        Profile {
            steam_login: None,
            steam_password: None,
            steam_root: None,
            steamcmd_enabled: true,
            player: None,
            steam_api_key: None,
            steam_id: None,
            battlemetrics_api_key: None,
            steamcmd_path: None,
            favorites: Vec::new(),
            history: Vec::new(),
            excluded_ips: Vec::new(),
            options: LaunchOptions::defaults(),
            version: copy_str(version),
            path: from_chars(&Vec::new()),
        }
    }

    /// Whether some favorite is for `ip:port`.
    pub fn is_favorite(&self, ip: &str, port: u16) -> (r: bool)
        ensures
            r == has_endpoint(fav_views(self.favorites@), ip@, port),
    {
        let mut i: usize = 0;
        while i < self.favorites.len()
            invariant
                i <= self.favorites.len(),
                forall|j: int|
                    0 <= j < i ==> !((#[trigger] fav_views(self.favorites@)[j]).1 == ip@
                        && fav_views(self.favorites@)[j].2 == port),
            decreases self.favorites.len() - i,
        {
            if same_endpoint(self.favorites[i].ip.as_str(), self.favorites[i].port, ip, port) {
                assert(fav_views(self.favorites@)[i as int] == fav_view(self.favorites@[i as int]));
                return true;
            }
            assert(fav_views(self.favorites@)[i as int] == fav_view(self.favorites@[i as int]));
            i = i + 1;
        }
        false
    }

    /// Adds a favorite; a favorite for the same endpoint gets the new name
    /// and password instead.
    pub fn add_favorite(&mut self, name: String, ip: String, port: u16, password: Option<String>)
        ensures
            fav_views(final(self).favorites@) == add_favorite_spec(
                fav_views(old(self).favorites@),
                (name@, ip@, port, opt_string_view(password)),
            ),
            has_endpoint(fav_views(final(self).favorites@), ip@, port),
    {
        let ghost favs = fav_views(self.favorites@);
        let mut i: usize = 0;
        while i < self.favorites.len()
            invariant
                i <= self.favorites.len(),
                self.favorites@ == old(self).favorites@,
                favs == fav_views(self.favorites@),
                forall|j: int| 0 <= j < i ==> !((#[trigger] favs[j]).1 == ip@ && favs[j].2 == port),
            decreases self.favorites.len() - i,
        {
            assert(favs[i as int] == fav_view(self.favorites@[i as int]));
            if same_endpoint(self.favorites[i].ip.as_str(), self.favorites[i].port, ip.as_str(), port) {
                proof {
                    let k = endpoint_index(favs, ip@, port);
                    assert(0 <= k < favs.len() && favs[k].1 == ip@ && favs[k].2 == port && forall|j: int|
                        0 <= j < k ==> !((#[trigger] favs[j]).1 == ip@ && favs[j].2 == port));
                    if k < i {
                        assert(!(favs[k].1 == ip@ && favs[k].2 == port));
                    }
                    if (i as int) < k {
                        assert(!(favs[i as int].1 == ip@ && favs[i as int].2 == port));
                    }
                }
                let old_ip = copy_str(self.favorites[i].ip.as_str());
                let old_port = self.favorites[i].port;
                let f = Favorite { name, ip: old_ip, port: old_port, password };
                self.favorites.set(i, f);
                proof {
                    assert(fav_views(self.favorites@) =~= favs.update(
                        i as int,
                        (name@, favs[i as int].1, favs[i as int].2, opt_string_view(password)),
                    ));
                    assert(fav_views(self.favorites@)[i as int].1 == ip@);
                }
                return;
            }
            i = i + 1;
        }
        let ghost f = (name@, ip@, port, opt_string_view(password));
        self.favorites.push(Favorite { name, ip, port, password });
        proof {
            assert(fav_views(self.favorites@) =~= favs.push(f));
            assert(fav_views(self.favorites@)[favs.len() as int] == f);
        }
    }

    /// Removes the favorites for `ip:port`.
    pub fn remove_favorite(&mut self, ip: &str, port: u16)
        ensures
            fav_views(final(self).favorites@) == remove_favorite_spec(
                fav_views(old(self).favorites@),
                ip@,
                port,
            ),
    {
        let ghost favs = fav_views(self.favorites@);
        let mut kept: Vec<Favorite> = Vec::new();
        let mut all: Vec<Favorite> = Vec::new();
        std::mem::swap(&mut all, &mut self.favorites);
        let mut i: usize = 0;
        while i < all.len()
            invariant
                i <= all.len(),
                favs == fav_views(all@),
                fav_views(kept@) == remove_favorite_spec(favs.subrange(0, i as int), ip@, port),
            decreases all.len() - i,
        {
            proof {
                let s = favs.subrange(0, i + 1);
                assert(s.drop_last() =~= favs.subrange(0, i as int));
                assert(s.last() == fav_view(all@[i as int]));
            }
            if !same_endpoint(all[i].ip.as_str(), all[i].port, ip, port) {
                let ghost before = kept@;
                let f = Favorite {
                    name: copy_str(all[i].name.as_str()),
                    ip: copy_str(all[i].ip.as_str()),
                    port: all[i].port,
                    password: copy_opt(&all[i].password),
                };
                kept.push(f);
                assert(fav_views(before.push(f)) =~= fav_views(before).push(fav_view(f)));
            }
            i = i + 1;
        }
        assert(favs.subrange(0, all@.len() as int) =~= favs);
        self.favorites = kept;
    }

    /// Removes the favorites named `name`.
    pub fn remove_favorite_by_name(&mut self, name: &str)
        ensures
            fav_views(final(self).favorites@) == remove_named_spec(
                fav_views(old(self).favorites@),
                name@,
            ),
    {
        let ghost favs = fav_views(self.favorites@);
        let mut kept: Vec<Favorite> = Vec::new();
        let mut all: Vec<Favorite> = Vec::new();
        std::mem::swap(&mut all, &mut self.favorites);
        let mut i: usize = 0;
        while i < all.len()
            invariant
                i <= all.len(),
                favs == fav_views(all@),
                fav_views(kept@) == remove_named_spec(favs.subrange(0, i as int), name@),
            decreases all.len() - i,
        {
            proof {
                let s = favs.subrange(0, i + 1);
                assert(s.drop_last() =~= favs.subrange(0, i as int));
                assert(s.last() == fav_view(all@[i as int]));
            }
            if !str_eq(all[i].name.as_str(), name) {
                let ghost before = kept@;
                let f = Favorite {
                    name: copy_str(all[i].name.as_str()),
                    ip: copy_str(all[i].ip.as_str()),
                    port: all[i].port,
                    password: copy_opt(&all[i].password),
                };
                kept.push(f);
                assert(fav_views(before.push(f)) =~= fav_views(before).push(fav_view(f)));
            }
            i = i + 1;
        }
        assert(favs.subrange(0, all@.len() as int) =~= favs);
        self.favorites = kept;
    }

    /// Records a join at time `ts`: the entry goes first and earlier entries
    /// for the same endpoint are dropped.  History is unlimited.
    pub fn add_history_at(&mut self, name: String, ip: String, port: u16, ts: i64)
        ensures
            hist_views(final(self).history@) == seq![(name@, ip@, port, ts)] + other_history(
                hist_views(old(self).history@),
                ip@,
                port,
            ),
            final(self).history@[0].extra is None,
            final(self).history@.skip(1) == other_entries(old(self).history@, ip@, port),
    {
        let ghost h0 = self.history@;
        let ghost hs = hist_views(self.history@);
        let mut all: Vec<History> = Vec::new();
        std::mem::swap(&mut all, &mut self.history);
        let mut out: Vec<History> = Vec::new();
        let ghost first = (name@, ip@, port, ts);
        let ip_copy = copy_str(ip.as_str());
        out.push(History { name, ip: ip_copy, port, ts, extra: None });
        assert(hist_views(out@) =~= seq![first]);
        let mut i: usize = 0;
        while i < all.len()
            invariant
                i <= all.len(),
                all@.len() == hs.len(),
                forall|j: int| i <= j < all@.len() ==> hist_view(#[trigger] all@[j]) == hs[j],
                forall|j: int| i <= j < all@.len() ==> #[trigger] all@[j] == h0[j],
                h0.len() == all@.len(),
                out@.len() >= 1,
                out@[0].extra is None,
                hist_views(out@) == seq![first] + other_history(hs.subrange(0, i as int), ip@, port),
                out@.skip(1) == other_entries(h0.subrange(0, i as int), ip@, port),
            decreases all.len() - i,
        {
            proof {
                let s = hs.subrange(0, i + 1);
                assert(s.drop_last() =~= hs.subrange(0, i as int));
                assert(s.last() == hist_view(all@[i as int]));
                assert(s.last() == hs[i as int]);
                let t = h0.subrange(0, i + 1);
                assert(t.drop_last() =~= h0.subrange(0, i as int));
                assert(t.last() == h0[i as int]);
            }
            if !same_endpoint(all[i].ip.as_str(), all[i].port, ip.as_str(), port) {
                let ghost before = out@;
                let mut h = History {
                    name: from_chars(&Vec::new()),
                    ip: from_chars(&Vec::new()),
                    port: 0,
                    ts: 0,
                    extra: None,
                };
                std::mem::swap(&mut h, &mut all[i]);
                proof {
                    assert(hist_view(h) == hs[i as int]);
                    assert(h == h0[i as int]);
                }
                out.push(h);
                assert(hist_views(before.push(h)) =~= hist_views(before).push(hist_view(h)));
                assert(before.push(h).skip(1) =~= before.skip(1).push(h));
            }
            i = i + 1;
        }
        assert(hs.subrange(0, all@.len() as int) =~= hs);
        assert(h0.subrange(0, all@.len() as int) =~= h0);
        self.history = out;
    }

    /// Records a join now (`SystemTime::now` in seconds).
    pub fn add_history(&mut self, name: String, ip: String, port: u16)
        ensures
            exists|ts: i64|
                hist_views(final(self).history@) == seq![(name@, ip@, port, ts)] + other_history(
                    hist_views(old(self).history@),
                    ip@,
                    port,
                ),
            final(self).history@.skip(1) == other_entries(old(self).history@, ip@, port),
    {
        let now = unix_now_secs();
        self.add_history_at(name, ip, port, now as i64);
    }

    /// Removes the history entries for `ip:port`, keeping the others in order.
    pub fn remove_history_entry(&mut self, ip: &str, port: u16)
        ensures
            hist_views(final(self).history@) == other_history(hist_views(old(self).history@), ip@, port),
            final(self).history@ == other_entries(old(self).history@, ip@, port),
            fav_views(final(self).favorites@) == fav_views(old(self).favorites@),
            string_views(final(self).excluded_ips@) == string_views(old(self).excluded_ips@),
    {
        let ghost h0 = self.history@;
        let ghost hs = hist_views(self.history@);
        let mut all: Vec<History> = Vec::new();
        std::mem::swap(&mut all, &mut self.history);
        let mut out: Vec<History> = Vec::new();
        let mut i: usize = 0;
        while i < all.len()
            invariant
                i <= all.len(),
                all@.len() == hs.len(),
                forall|j: int| i <= j < all@.len() ==> hist_view(#[trigger] all@[j]) == hs[j],
                forall|j: int| i <= j < all@.len() ==> #[trigger] all@[j] == h0[j],
                h0.len() == all@.len(),
                hist_views(out@) == other_history(hs.subrange(0, i as int), ip@, port),
                out@ == other_entries(h0.subrange(0, i as int), ip@, port),
            decreases all.len() - i,
        {
            proof {
                let s = hs.subrange(0, i + 1);
                assert(s.drop_last() =~= hs.subrange(0, i as int));
                assert(s.last() == hs[i as int]);
                let t = h0.subrange(0, i + 1);
                assert(t.drop_last() =~= h0.subrange(0, i as int));
                assert(t.last() == h0[i as int]);
            }
            if !same_endpoint(all[i].ip.as_str(), all[i].port, ip, port) {
                let ghost before = out@;
                let mut h = History {
                    name: from_chars(&Vec::new()),
                    ip: from_chars(&Vec::new()),
                    port: 0,
                    ts: 0,
                    extra: None,
                };
                std::mem::swap(&mut h, &mut all[i]);
                proof {
                    assert(hist_view(h) == hs[i as int]);
                    assert(h == h0[i as int]);
                }
                out.push(h);
                assert(hist_views(before.push(h)) =~= hist_views(before).push(hist_view(h)));
            }
            i = i + 1;
        }
        assert(hs.subrange(0, all@.len() as int) =~= hs);
        assert(h0.subrange(0, all@.len() as int) =~= h0);
        self.history = out;
    }

    /// Forgets every joined server.
    pub fn clear_history(&mut self)
        ensures
            final(self).history@.len() == 0,
            fav_views(final(self).favorites@) == fav_views(old(self).favorites@),
            string_views(final(self).excluded_ips@) == string_views(old(self).excluded_ips@),
    {
        self.history = Vec::new();
    }

    /// Replaces the account and tool settings (the lists and launch options
    /// stay).  Returns whether the avatar credentials (API key or Steam id)
    /// changed, so that a cached avatar is dropped.
    pub fn apply_settings(&mut self, s: ProfileSettings) -> (credentials_changed: bool)
        ensures
            credentials_changed == (opt_string_view(old(self).steam_api_key) != opt_string_view(s.steam_api_key)
                || opt_string_view(old(self).steam_id) != opt_string_view(s.steam_id)),
            final(self).player == s.player,
            final(self).steam_login == s.steam_login,
            final(self).steam_password == s.steam_password,
            final(self).steam_root == s.steam_root,
            final(self).steamcmd_enabled == s.steamcmd_enabled,
            final(self).steamcmd_path == s.steamcmd_path,
            final(self).steam_api_key == s.steam_api_key,
            final(self).steam_id == s.steam_id,
            final(self).battlemetrics_api_key == s.battlemetrics_api_key,
            final(self).favorites == old(self).favorites,
            final(self).history == old(self).history,
            final(self).excluded_ips == old(self).excluded_ips,
            final(self).options == old(self).options,
            final(self).version == old(self).version,
            final(self).path == old(self).path,
    {
        let changed = !opt_eq(&self.steam_api_key, &s.steam_api_key) || !opt_eq(&self.steam_id, &s.steam_id);
        self.player = s.player;
        self.steam_login = s.steam_login;
        self.steam_password = s.steam_password;
        self.steam_root = s.steam_root;
        self.steamcmd_enabled = s.steamcmd_enabled;
        self.steamcmd_path = s.steamcmd_path;
        self.steam_api_key = s.steam_api_key;
        self.steam_id = s.steam_id;
        self.battlemetrics_api_key = s.battlemetrics_api_key;
        changed
    }

    /// Whether `ip` is excluded from the server browser.
    pub fn is_excluded(&self, ip: &str) -> (r: bool)
        ensures
            r == string_views(self.excluded_ips@).contains(ip@),
    {
        let mut i: usize = 0;
        while i < self.excluded_ips.len()
            invariant
                i <= self.excluded_ips.len(),
                forall|j: int| 0 <= j < i ==> self.excluded_ips@[j]@ != ip@,
            decreases self.excluded_ips.len() - i,
        {
            if str_eq(self.excluded_ips[i].as_str(), ip) {
                assert(string_views(self.excluded_ips@)[i as int] == ip@);
                return true;
            }
            i = i + 1;
        }
        assert forall|j: int| 0 <= j < string_views(self.excluded_ips@).len() implies string_views(
            self.excluded_ips@,
        )[j] != ip@ by {
            assert(string_views(self.excluded_ips@)[j] == self.excluded_ips@[j]@);
        }
        false
    }

    /// Adds an IP to the excluded list (no change if already there).
    pub fn add_excluded_ip(&mut self, ip: String)
        ensures
            string_views(final(self).excluded_ips@) == if string_views(
                old(self).excluded_ips@,
            ).contains(ip@) {
                string_views(old(self).excluded_ips@)
            } else {
                string_views(old(self).excluded_ips@).push(ip@)
            },
    {
        if !self.is_excluded(ip.as_str()) {
            let ghost before = self.excluded_ips@;
            let ghost v = ip@;
            self.excluded_ips.push(ip);
            assert(string_views(self.excluded_ips@) =~= string_views(before).push(v));
        }
    }

    /// Removes an IP from the excluded list.
    pub fn remove_excluded_ip(&mut self, ip: &str)
        ensures
            string_views(final(self).excluded_ips@) == without_ip(
                string_views(old(self).excluded_ips@),
                ip@,
            ),
    {
        let ghost v = string_views(self.excluded_ips@);
        let mut all: Vec<String> = Vec::new();
        std::mem::swap(&mut all, &mut self.excluded_ips);
        let mut kept: Vec<String> = Vec::new();
        let mut i: usize = 0;
        while i < all.len()
            invariant
                i <= all.len(),
                v == string_views(all@),
                string_views(kept@) == without_ip(v.subrange(0, i as int), ip@),
            decreases all.len() - i,
        {
            proof {
                let s = v.subrange(0, i + 1);
                assert(s.drop_last() =~= v.subrange(0, i as int));
                assert(s.last() == all@[i as int]@);
            }
            if !str_eq(all[i].as_str(), ip) {
                let ghost before = kept@;
                let e = copy_str(all[i].as_str());
                kept.push(e);
                assert(string_views(before.push(e)) =~= string_views(before).push(e@));
            }
            i = i + 1;
        }
        assert(v.subrange(0, all@.len() as int) =~= v);
        self.excluded_ips = kept;
    }
}

// ------------------------------------------------------------ favorites' servers

/// A favorite with the server it points at, if that is in the list.
pub struct FavoriteStatus<'a> {
    pub favorite: &'a Favorite,
    pub server: Option<&'a Server>,
}

/// The last server on `ip` whose query port (`by_game` false) or game port
/// (`by_game` true), taken as `u16`, is `port`.
pub open spec fn last_server_at(servers: Seq<Server>, ip: Seq<char>, port: u16, by_game: bool) -> Option<int>
    decreases servers.len(),
{
    if servers.len() == 0 {
        None
    } else {
        let i = servers.len() - 1;
        let s = servers[i];
        let p = if by_game {
            s.game_port as u16
        } else {
            s.endpoint.port as u16
        };
        if s.endpoint.ip@ == ip && p == port {
            Some(i as int)
        } else {
            last_server_at(servers.drop_last(), ip, port, by_game)
        }
    }
}

/// The server a favorite points at: by query port first, then by game port.
pub open spec fn favorite_server(servers: Seq<Server>, ip: Seq<char>, port: u16) -> Option<int> {
    match last_server_at(servers, ip, port, false) {
        Some(i) => Some(i),
        None => last_server_at(servers, ip, port, true),
    }
}

fn find_last_server(servers: &[Server], ip: &str, port: u16, by_game: bool) -> (r: Option<usize>)
    ensures
        match last_server_at(servers@, ip@, port, by_game) {
            Some(i) => r == Some(i as usize) && 0 <= i < servers@.len(),
            None => r is None,
        },
{
    let mut k: usize = servers.len();
    assert(servers@.subrange(0, k as int) =~= servers@);
    while k > 0
        invariant
            k <= servers@.len(),
            last_server_at(servers@, ip@, port, by_game) == last_server_at(
                servers@.subrange(0, k as int),
                ip@,
                port,
                by_game,
            ),
        decreases k,
    {
        let s = &servers[k - 1];
        let p: u16 = if by_game {
            s.game_port as u16
        } else {
            s.endpoint.port as u16
        };
        proof {
            let t = servers@.subrange(0, k as int);
            assert(t.drop_last() =~= servers@.subrange(0, k - 1));
            assert(t[k - 1] == servers@[k - 1]);
        }
        if p == port && str_eq(s.endpoint.ip.as_str(), ip) {
            return Some(k - 1);
        }
        k = k - 1;
    }
    None
}

impl Profile {
    /// Each favorite with the server of the list that it points at: the
    /// last one on its IP whose query port is the favorite's port, else the
    /// last one whose game port is.
    pub fn get_favorites_with_status<'a>(&'a self, servers: &'a [Server]) -> (r: Vec<FavoriteStatus<'a>>)
        ensures
            r@.len() == self.favorites@.len(),
            forall|i: int|
                0 <= i < r@.len() ==> *(#[trigger] r@[i]).favorite == self.favorites@[i] && match favorite_server(
                    servers@,
                    self.favorites@[i].ip@,
                    self.favorites@[i].port,
                ) {
                    Some(j) => r@[i].server matches Some(s) && *s == servers@[j],
                    None => r@[i].server is None,
                },
    {
        let mut out: Vec<FavoriteStatus<'a>> = Vec::new();
        let mut i: usize = 0;
        while i < self.favorites.len()
            invariant
                i <= self.favorites.len(),
                out@.len() == i,
                forall|k: int|
                    0 <= k < i ==> *(#[trigger] out@[k]).favorite == self.favorites@[k] && match favorite_server(
                        servers@,
                        self.favorites@[k].ip@,
                        self.favorites@[k].port,
                    ) {
                        Some(j) => out@[k].server matches Some(s) && *s == servers@[j],
                        None => out@[k].server is None,
                    },
            decreases self.favorites.len() - i,
        {
            let f = &self.favorites[i];
            let by_query = find_last_server(servers, f.ip.as_str(), f.port, false);
            let j = match by_query {
                Some(j) => Some(j),
                None => find_last_server(servers, f.ip.as_str(), f.port, true),
            };
            let server = match j {
                Some(j) => Some(&servers[j]),
                None => None,
            };
            out.push(FavoriteStatus { favorite: f, server });
            i = i + 1;
        }
        out
    }
}

// ------------------------------------------------------------ laws

/// The favorites hold at most one entry per endpoint.
pub open spec fn unique_endpoints(favs: Seq<(Seq<char>, Seq<char>, u16, Option<Seq<char>>)>) -> bool {
    forall|i: int, j: int|
        0 <= i < j < favs.len() ==> !((#[trigger] favs[i]).1 == (#[trigger] favs[j]).1 && favs[i].2
            == favs[j].2)
}

proof fn lemma_endpoint_index(favs: Seq<(Seq<char>, Seq<char>, u16, Option<Seq<char>>)>, ip: Seq<char>, port: u16)
    requires
        has_endpoint(favs, ip, port),
    ensures
        0 <= endpoint_index(favs, ip, port) < favs.len(),
        favs[endpoint_index(favs, ip, port)].1 == ip,
        favs[endpoint_index(favs, ip, port)].2 == port,
{
    let w = choose|i: int| 0 <= i < favs.len() && (#[trigger] favs[i]).1 == ip && favs[i].2 == port;
    lemma_exists_first(favs, ip, port, w);
}

proof fn lemma_exists_first(favs: Seq<(Seq<char>, Seq<char>, u16, Option<Seq<char>>)>, ip: Seq<char>, port: u16, w: int)
    requires
        0 <= w < favs.len(),
        favs[w].1 == ip,
        favs[w].2 == port,
    ensures
        exists|i: int|
            0 <= i < favs.len() && (#[trigger] favs[i]).1 == ip && favs[i].2 == port && forall|j: int|
                0 <= j < i ==> !((#[trigger] favs[j]).1 == ip && favs[j].2 == port),
    decreases w,
{
    if exists|j: int| 0 <= j < w && (#[trigger] favs[j]).1 == ip && favs[j].2 == port {
        let v = choose|j: int| 0 <= j < w && (#[trigger] favs[j]).1 == ip && favs[j].2 == port;
        lemma_exists_first(favs, ip, port, v);
    } else {
        assert(forall|j: int| 0 <= j < w ==> !((#[trigger] favs[j]).1 == ip && favs[j].2 == port));
    }
}

/// Adding a favorite keeps the favorites free of duplicate endpoints.
pub proof fn lemma_add_favorite_unique(favs: Seq<(Seq<char>, Seq<char>, u16, Option<Seq<char>>)>, f: (Seq<char>, Seq<char>, u16, Option<Seq<char>>))
    requires
        unique_endpoints(favs),
    ensures
        unique_endpoints(add_favorite_spec(favs, f)),
{
    if has_endpoint(favs, f.1, f.2) {
        lemma_endpoint_index(favs, f.1, f.2);
        let r = add_favorite_spec(favs, f);
        assert forall|i: int, j: int| 0 <= i < j < r.len() implies !((#[trigger] r[i]).1 == (
        #[trigger] r[j]).1 && r[i].2 == r[j].2) by {
            assert(r[i].1 == favs[i].1 && r[i].2 == favs[i].2);
            assert(r[j].1 == favs[j].1 && r[j].2 == favs[j].2);
        }
    } else {
        let r = add_favorite_spec(favs, f);
        assert forall|i: int, j: int| 0 <= i < j < r.len() implies !((#[trigger] r[i]).1 == (
        #[trigger] r[j]).1 && r[i].2 == r[j].2) by {
            if j == favs.len() {
                assert(r[i] == favs[i]);
            } else {
                assert(r[i] == favs[i] && r[j] == favs[j]);
            }
        }
    }
}

/// No favorite for `ip:port` is left after removing it.
pub proof fn lemma_remove_favorite_gone(favs: Seq<(Seq<char>, Seq<char>, u16, Option<Seq<char>>)>, ip: Seq<char>, port: u16)
    ensures
        !has_endpoint(remove_favorite_spec(favs, ip, port), ip, port),
    decreases favs.len(),
{
    if favs.len() > 0 {
        lemma_remove_favorite_gone(favs.drop_last(), ip, port);
        let p = remove_favorite_spec(favs.drop_last(), ip, port);
        let r = remove_favorite_spec(favs, ip, port);
        assert forall|i: int| 0 <= i < r.len() implies !((#[trigger] r[i]).1 == ip && r[i].2 == port) by {
            if i < p.len() {
                assert(r[i] == p[i]);
            }
        }
    }
}

proof fn lemma_remove_update(favs: Seq<(Seq<char>, Seq<char>, u16, Option<Seq<char>>)>, k: int, x: (Seq<char>, Seq<char>, u16, Option<Seq<char>>), ip: Seq<char>, port: u16)
    requires
        0 <= k < favs.len(),
        favs[k].1 == ip && favs[k].2 == port,
        x.1 == ip && x.2 == port,
    ensures
        remove_favorite_spec(favs.update(k, x), ip, port) == remove_favorite_spec(favs, ip, port),
    decreases favs.len(),
{
    let u = favs.update(k, x);
    if k == favs.len() - 1 {
        assert(u.drop_last() =~= favs.drop_last());
    } else {
        assert(u.drop_last() =~= favs.drop_last().update(k, x));
        lemma_remove_update(favs.drop_last(), k, x, ip, port);
    }
}

/// Adding a favorite and then removing its endpoint gives what removing the
/// endpoint alone gives: the other favorites, unchanged and in order.
pub proof fn lemma_add_then_remove_favorite(favs: Seq<(Seq<char>, Seq<char>, u16, Option<Seq<char>>)>, f: (Seq<char>, Seq<char>, u16, Option<Seq<char>>))
    ensures
        remove_favorite_spec(add_favorite_spec(favs, f), f.1, f.2) == remove_favorite_spec(
            favs,
            f.1,
            f.2,
        ),
{
    if has_endpoint(favs, f.1, f.2) {
        lemma_endpoint_index(favs, f.1, f.2);
        let i = endpoint_index(favs, f.1, f.2);
        lemma_remove_update(favs, i, (f.0, favs[i].1, favs[i].2, f.3), f.1, f.2);
    } else {
        assert(favs.push(f).drop_last() =~= favs);
    }
}

/// The history holds at most one entry per endpoint.
pub open spec fn unique_history(h: Seq<(Seq<char>, Seq<char>, u16, i64)>) -> bool {
    forall|i: int, j: int|
        0 <= i < j < h.len() ==> !((#[trigger] h[i]).1 == (#[trigger] h[j]).1 && h[i].2 == h[j].2)
}

proof fn lemma_other_history(h: Seq<(Seq<char>, Seq<char>, u16, i64)>, ip: Seq<char>, port: u16)
    ensures
        forall|i: int|
            0 <= i < other_history(h, ip, port).len() ==> !((#[trigger] other_history(h, ip, port)[i]).1
                == ip && other_history(h, ip, port)[i].2 == port) && h.contains(
                other_history(h, ip, port)[i],
            ),
        unique_history(h) ==> unique_history(other_history(h, ip, port)),
        forall|i: int, j: int|
            0 <= i < j < other_history(h, ip, port).len() ==> exists|a: int, b: int|
                0 <= a < b < h.len() && h[a] == #[trigger] other_history(h, ip, port)[i] && h[b]
                    == #[trigger] other_history(h, ip, port)[j],
    decreases h.len(),
{
    if h.len() > 0 {
        let t = h.drop_last();
        lemma_other_history(t, ip, port);
        let p = other_history(t, ip, port);
        let r = other_history(h, ip, port);
        assert forall|i: int| 0 <= i < r.len() implies !((#[trigger] r[i]).1 == ip && r[i].2 == port)
            && h.contains(r[i]) by {
            if i < p.len() {
                assert(r[i] == p[i]);
                assert(t.contains(p[i]));
                let a = choose|a: int| 0 <= a < t.len() && t[a] == p[i];
                assert(h[a] == p[i]);
            } else {
                assert(r[i] == h.last());
                assert(h[h.len() - 1] == h.last());
            }
        }
        assert forall|i: int, j: int| 0 <= i < j < r.len() implies exists|a: int, b: int|
            0 <= a < b < h.len() && h[a] == #[trigger] r[i] && h[b] == #[trigger] r[j] by {
            if j < p.len() {
                assert(r[i] == p[i] && r[j] == p[j]);
                let (a, b) = choose|a: int, b: int|
                    0 <= a < b < t.len() && t[a] == #[trigger] p[i] && t[b] == #[trigger] p[j];
                assert(h[a] == t[a] && h[b] == t[b]);
            } else {
                assert(r[i] == p[i]);
                assert(t.contains(p[i]));
                let a = choose|a: int| 0 <= a < t.len() && t[a] == p[i];
                assert(h[a] == p[i]);
                assert(r[j] == h[h.len() - 1]);
            }
        }
        if unique_history(h) {
            assert forall|i: int, j: int| 0 <= i < j < r.len() implies !((#[trigger] r[i]).1 == (
            #[trigger] r[j]).1 && r[i].2 == r[j].2) by {
                let (a, b) = choose|a: int, b: int|
                    0 <= a < b < h.len() && h[a] == #[trigger] r[i] && h[b] == #[trigger] r[j];
                assert(!((h[a]).1 == (h[b]).1 && h[a].2 == h[b].2));
            }
        }
    }
}

/// Recording a join puts it first, keeps every other endpoint's entries in
/// order, and keeps the history free of duplicate endpoints.
pub proof fn lemma_add_history_unique(h: Seq<(Seq<char>, Seq<char>, u16, i64)>, e: (Seq<char>, Seq<char>, u16, i64))
    requires
        unique_history(h),
    ensures
        unique_history(seq![e] + other_history(h, e.1, e.2)),
        (seq![e] + other_history(h, e.1, e.2))[0] == e,
{
    lemma_other_history(h, e.1, e.2);
    let o = other_history(h, e.1, e.2);
    let r = seq![e] + o;
    assert forall|i: int, j: int| 0 <= i < j < r.len() implies !((#[trigger] r[i]).1 == (
    #[trigger] r[j]).1 && r[i].2 == r[j].2) by {
        assert(r[j] == o[j - 1]);
        if i == 0 {
            assert(r[i] == e);
        } else {
            assert(r[i] == o[i - 1]);
        }
    }
}

/// Removing a history endpoint leaves no entry for it and keeps every entry
/// for another endpoint.
pub proof fn lemma_remove_history_gone(h: Seq<(Seq<char>, Seq<char>, u16, i64)>, ip: Seq<char>, port: u16)
    ensures
        forall|i: int|
            0 <= i < other_history(h, ip, port).len() ==> !((#[trigger] other_history(h, ip, port)[i]).1 == ip
                && other_history(h, ip, port)[i].2 == port),
        forall|e: (Seq<char>, Seq<char>, u16, i64)|
            h.contains(e) && !(e.1 == ip && e.2 == port) ==> #[trigger] other_history(h, ip, port).contains(e),
    decreases h.len(),
{
    lemma_other_history(h, ip, port);
    if h.len() > 0 {
        let t = h.drop_last();
        lemma_remove_history_gone(t, ip, port);
        let p = other_history(t, ip, port);
        let r = other_history(h, ip, port);
        assert forall|e: (Seq<char>, Seq<char>, u16, i64)|
            h.contains(e) && !(e.1 == ip && e.2 == port) implies #[trigger] r.contains(e) by {
            let a = choose|a: int| 0 <= a < h.len() && h[a] == e;
            if a < h.len() - 1 {
                assert(t[a] == e);
                assert(p.contains(e));
                let b = choose|b: int| 0 <= b < p.len() && p[b] == e;
                assert(r[b] == e);
            } else {
                assert(r[r.len() - 1] == e);
            }
        }
    }
}

/// An IP removed from the excluded list is no longer in it.
pub proof fn lemma_without_ip(v: Seq<Seq<char>>, ip: Seq<char>)
    ensures
        !without_ip(v, ip).contains(ip),
        forall|x: Seq<char>| x != ip ==> (v.contains(x) <==> #[trigger] without_ip(v, ip).contains(x)),
    decreases v.len(),
{
    if v.len() > 0 {
        lemma_without_ip(v.drop_last(), ip);
        let p = without_ip(v.drop_last(), ip);
        let r = without_ip(v, ip);
        assert forall|x: Seq<char>| x != ip implies (v.contains(x) <==> #[trigger] r.contains(x)) by {
            if v.contains(x) {
                let a = choose|a: int| 0 <= a < v.len() && v[a] == x;
                if a < v.len() - 1 {
                    assert(v.drop_last()[a] == x);
                    assert(p.contains(x));
                    let b = choose|b: int| 0 <= b < p.len() && p[b] == x;
                    assert(r[b] == x);
                } else {
                    assert(r[r.len() - 1] == x);
                }
            }
            if r.contains(x) {
                let b = choose|b: int| 0 <= b < r.len() && r[b] == x;
                if b < p.len() {
                    assert(r[b] == p[b]);
                    assert(p.contains(x));
                    let a = choose|a: int| 0 <= a < v.drop_last().len() && v.drop_last()[a] == x;
                    assert(v[a] == x);
                } else {
                    assert(v[v.len() - 1] == x);
                }
            }
        }
        if r.contains(ip) {
            let b = choose|b: int| 0 <= b < r.len() && r[b] == ip;
            if b < p.len() {
                assert(r[b] == p[b]);
            }
        }
    }
}

} // verus!
