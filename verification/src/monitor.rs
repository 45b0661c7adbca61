//! The steamcmd download monitor.
//!
//! One batched steamcmd run downloads every requested workshop item; its
//! output arrives in chunks.  The monitor keeps the partial line and the
//! login/progress flags between chunks, turns every complete line into
//! progress events, notices the Steam Guard and password prompts, and builds
//! the per-mod results once steamcmd has exited.  The process, the PTY and
//! the password prompt to the user are driven by the caller.

use vstd::prelude::*;
use crate::error::Error;
use crate::steamcmd::{
    extract_mod_id_from_line,
    extract_mod_id_spec,
    is_password_prompt,
    is_password_prompt_spec,
    is_steam_guard_prompt,
    is_steam_guard_prompt_spec,
    mods_view,
    progress_views,
    strip_ansi,
    strip_ansi_spec,
    ModProgress,
    ProgressView,
    SteamCmd,
    is_real_login,
};
use crate::text::{
    contains,
    contains_chars,
    contains_ci,
    contains_ci_chars,
    first_index,
    first_index_of,
    from_chars,
    lemma_utf8_len,
    push_str,
    slice_chars,
    to_chars,
    trim,
    trim_chars,
    utf8_len,
    utf8_len_chars,
};

verus! {

/// Output larger than this many bytes without a newline is discarded.
pub const MAX_BUF_SIZE: usize = 1048576;

/// What the monitor remembers between output lines.
pub struct MonitorFlags {
    /// Ids seen with a success line, in the order they were seen.
    pub succeeded: Seq<u64>,
    /// One past the index of the last mod reported as started or done.
    pub current_idx: nat,
    pub steam_guard_sent: bool,
    pub password_prompt_sent: bool,
    pub steam_guard_timed_out: bool,
    pub invalid_password: bool,
    /// True until the first download activity is seen.
    pub login_phase: bool,
}

/// The flags of a monitor that has not seen any output.
pub open spec fn initial_flags() -> MonitorFlags {
    MonitorFlags {
        succeeded: Seq::empty(),
        current_idx: 0,
        steam_guard_sent: false,
        password_prompt_sent: false,
        steam_guard_timed_out: false,
        invalid_password: false,
        login_phase: true,
    }
}

/// The index of the last entry of `mods` whose id is `id` (how the id →
/// index lookup built from `mods` resolves duplicates).
pub open spec fn last_index_of_id(mods: Seq<(u64, Seq<char>)>, id: u64) -> Option<nat>
    decreases mods.len(),
{
    if mods.len() == 0 {
        None
    } else if mods.last().0 == id {
        Some((mods.len() - 1) as nat)
    } else {
        last_index_of_id(mods.drop_last(), id)
    }
}

pub proof fn lemma_last_index_in_range(mods: Seq<(u64, Seq<char>)>, id: u64)
    ensures
        match last_index_of_id(mods, id) {
            Some(i) => i < mods.len() && mods[i as int].0 == id,
            None => true,
        },
    decreases mods.len(),
{
    if mods.len() > 0 && mods.last().0 != id {
        lemma_last_index_in_range(mods.drop_last(), id);
    }
}

/// A success line (`Success. Downloaded item …` / `… already up to date`):
/// the login phase ends and a known mod is reported done.
pub open spec fn done_step(
    mods: Seq<(u64, Seq<char>)>,
    f: MonitorFlags,
    line: Seq<char>,
    e: Seq<ProgressView>,
) -> (MonitorFlags, Seq<ProgressView>) {
    if contains(line, "Success. Downloaded item"@) || contains(line, "already up to date"@) {
        let f0 = MonitorFlags { login_phase: false, ..f };
        match extract_mod_id_spec(line) {
            Some(id) => match last_index_of_id(mods, id) {
                Some(idx) => (
                    MonitorFlags { succeeded: f0.succeeded.push(id), current_idx: idx + 1, ..f0 },
                    e.push(
                        ProgressView::Done {
                            current: idx + 1,
                            total: mods.len(),
                            mod_id: id,
                            name: mods[idx as int].1,
                        },
                    ),
                ),
                None => (f0, e),
            },
            None => (f0, e),
        }
    } else {
        (f, e)
    }
}

/// A `Downloading item` line: the login phase ends and a known mod beyond
/// the current one is reported as starting.
pub open spec fn starting_step(
    mods: Seq<(u64, Seq<char>)>,
    f: MonitorFlags,
    line: Seq<char>,
    e: Seq<ProgressView>,
) -> (MonitorFlags, Seq<ProgressView>) {
    if contains(line, "Downloading item"@) {
        let f0 = MonitorFlags { login_phase: false, ..f };
        match extract_mod_id_spec(line) {
            Some(id) => match last_index_of_id(mods, id) {
                Some(idx) => if idx + 1 > f0.current_idx {
                    (
                        MonitorFlags { current_idx: idx + 1, ..f0 },
                        e.push(
                            ProgressView::Starting {
                                current: idx + 1,
                                total: mods.len(),
                                mod_id: id,
                                name: mods[idx as int].1,
                            },
                        ),
                    )
                } else {
                    (f0, e)
                },
                None => (f0, e),
            },
            None => (f0, e),
        }
    } else {
        (f, e)
    }
}

/// Whether a line reports that Steam Guard confirmation timed out.
pub open spec fn is_timeout_line(line: Seq<char>) -> bool {
    contains_ci(line, "timed out waiting for confirmation"@) || contains_ci(
        line,
        "wait for confirmation timed out"@,
    ) || (contains_ci(line, "error"@) && contains_ci(line, "timeout"@))
}

/// What a line does before the mod-specific checks: it is logged when not
/// blank, the Steam Guard prompt is noticed during login, and timeout and
/// invalid-password messages are remembered.
pub open spec fn log_step(f: MonitorFlags, line: Seq<char>, e: Seq<ProgressView>) -> (
    MonitorFlags,
    Seq<ProgressView>,
) {
    let e0: Seq<ProgressView> = if trim(line).len() > 0 {
        e.push(ProgressView::LogLine(line))
    } else {
        e
    };
    let sg = f.login_phase && !f.steam_guard_sent && is_steam_guard_prompt_spec(line);
    let e1 = if sg {
        e0.push(ProgressView::SteamGuardMobileRequired)
    } else {
        e0
    };
    let f1 = MonitorFlags {
        steam_guard_sent: f.steam_guard_sent || sg,
        steam_guard_timed_out: f.steam_guard_timed_out || is_timeout_line(line),
        invalid_password: f.invalid_password || contains_ci(line, "invalid password"@),
        ..f
    };
    (f1, e1)
}

/// What one complete output line (without its newline) does; its events are
/// appended to `e`.
pub open spec fn line_step(
    mods: Seq<(u64, Seq<char>)>,
    f: MonitorFlags,
    raw: Seq<char>,
    e: Seq<ProgressView>,
) -> (MonitorFlags, Seq<ProgressView>) {
    let line = strip_ansi_spec(raw);
    let (f1, e1) = log_step(f, line, e);
    let (f2, e2) = done_step(mods, f1, line, e1);
    starting_step(mods, f2, line, e2)
}

/// Processes every complete line in the buffer, in order; returns the flags,
/// the unterminated rest and the events (appended to `e`).
pub open spec fn drain(
    mods: Seq<(u64, Seq<char>)>,
    f: MonitorFlags,
    buf: Seq<char>,
    e: Seq<ProgressView>,
) -> (MonitorFlags, Seq<char>, Seq<ProgressView>)
    decreases buf.len(),
{
    match first_index_of(buf, '\n') {
        Some(nl) => if 0 <= nl < buf.len() {
            let (f1, e1) = line_step(mods, f, buf.subrange(0, nl), e);
            drain(mods, f1, buf.subrange(nl + 1, buf.len() as int), e1)
        } else {
            (f, buf, e)
        },
        None => (f, buf, e),
    }
}

/// The buffer after a chunk arrives: discarded first when it would grow past
/// `MAX_BUF_SIZE` bytes, then the chunk is appended.
pub open spec fn append_step(buf: Seq<char>, chunk: Seq<char>) -> Seq<char> {
    if utf8_len(buf) + utf8_len(chunk) > MAX_BUF_SIZE {
        chunk
    } else {
        buf + chunk
    }
}

/// The unterminated rest is checked for the Steam Guard and `password:`
/// prompts (each reported once, during login); the last component says
/// whether a password must now be sent to steamcmd.
pub open spec fn prompt_step(f: MonitorFlags, buf: Seq<char>, e: Seq<ProgressView>) -> (
    MonitorFlags,
    Seq<ProgressView>,
    bool,
) {
    let sg = f.login_phase && !f.steam_guard_sent && is_steam_guard_prompt_spec(buf);
    let f2 = MonitorFlags { steam_guard_sent: f.steam_guard_sent || sg, ..f };
    let e2 = if sg {
        e.push(ProgressView::SteamGuardMobileRequired)
    } else {
        e
    };
    let pw = f2.login_phase && !f2.password_prompt_sent && is_password_prompt_spec(buf);
    let f3 = MonitorFlags { password_prompt_sent: f2.password_prompt_sent || pw, ..f2 };
    let e3 = if pw {
        e2.push(ProgressView::PasswordRequired)
    } else {
        e2
    };
    (f3, e3, pw)
}

/// What one chunk of output does: it is appended to the buffer, complete
/// lines are processed, and the rest is checked for prompts.
pub open spec fn feed_spec(
    mods: Seq<(u64, Seq<char>)>,
    f: MonitorFlags,
    buf: Seq<char>,
    chunk: Seq<char>,
) -> (MonitorFlags, Seq<char>, Seq<ProgressView>, bool) {
    let (f1, b1, e1) = drain(mods, f, append_step(buf, chunk), Seq::empty());
    let (f3, e3, pw) = prompt_step(f1, b1, e1);
    (f3, b1, e3, pw)
}

/// `Failed` events for every mod not seen as succeeded, in order.
pub open spec fn failed_events(mods: Seq<(u64, Seq<char>)>, succeeded: Seq<u64>, total: nat) -> Seq<
    ProgressView,
>
    decreases mods.len(),
{
    if mods.len() == 0 {
        Seq::empty()
    } else {
        let prev = failed_events(mods.drop_last(), succeeded, total);
        if succeeded.contains(mods.last().0) {
            prev
        } else {
            prev.push(
                ProgressView::Failed {
                    current: mods.len(),
                    total,
                    mod_id: mods.last().0,
                    name: mods.last().1,
                    error: "Download failed"@,
                },
            )
        }
    }
}

/// How many entries of `mods` were seen as succeeded.
pub open spec fn count_ok(mods: Seq<(u64, Seq<char>)>, succeeded: Seq<u64>) -> nat
    decreases mods.len(),
{
    if mods.len() == 0 {
        0
    } else {
        count_ok(mods.drop_last(), succeeded) + if succeeded.contains(mods.last().0) {
            1nat
        } else {
            0nat
        }
    }
}

/// The hint shown once all mods were processed.
pub open spec fn finish_hint(login: Seq<char>, f: MonitorFlags, failed: nat) -> Option<Seq<char>> {
    if f.invalid_password {
        Some("Invalid password. Check your Steam password in Settings and try again."@)
    } else if f.steam_guard_timed_out {
        Some(
            "Steam Guard confirmation timed out. Open the Steam Mobile app faster next time, or try again."@,
        )
    } else if failed > 0 {
        Some("Some downloads failed. Try:\n  steamcmd +login "@ + login + " +quit"@)
    } else {
        None
    }
}

/// Whether each mod's result is a success.
pub open spec fn results_ok(r: Seq<(u64, Result<(), Error>)>) -> Seq<(u64, bool)> {
    r.map_values(|p: (u64, Result<(), Error>)| (p.0, p.1 is Ok))
}

/// Every failed result carries the given steamcmd message.
pub open spec fn errors_are(r: Seq<(u64, Result<(), Error>)>, msg: Seq<char>) -> bool {
    forall|i: int|
        0 <= i < r.len() ==> match (#[trigger] r[i]).1 {
            Ok(_) => true,
            Err(Error::SteamCmd(s)) => s@ == msg,
            Err(_) => false,
        }
}

/// The expected per-mod outcome once steamcmd exits: success exactly for the
/// ids seen in a success line.
pub open spec fn final_results(mods: Seq<(u64, Seq<char>)>, succeeded: Seq<u64>) -> Seq<(u64, bool)> {
    mods.map_values(|p: (u64, Seq<char>)| (p.0, succeeded.contains(p.0)))
}

proof fn lemma_last_index_found(mods: Seq<(u64, Seq<char>)>, id: u64, k: int)
    requires
        0 <= k < mods.len(),
        mods[k].0 == id,
    ensures
        last_index_of_id(mods, id) matches Some(i) && i < mods.len() && mods[i as int].0 == id,
    decreases mods.len(),
{
    if mods.last().0 != id {
        assert(mods.drop_last()[k] == mods[k]);
        lemma_last_index_found(mods.drop_last(), id, k);
    }
}

/// A line that reports a mod downloaded (`Success. Downloaded item …`) or
/// already up to date (`… already up to date`) and names one of the mods
/// of the download counts that mod as succeeded: its id is recorded as
/// succeeded, so that its final result is a success, and a `Done` event
/// for it is among the line's events.  Whatever the line, what was
/// recorded as succeeded stays recorded.
pub proof fn lemma_success_line_marks_done(
    mods: Seq<(u64, Seq<char>)>,
    f: MonitorFlags,
    raw: Seq<char>,
    e: Seq<ProgressView>,
    id: u64,
)
    ensures
        line_step(mods, f, raw, e).0.succeeded.len() >= f.succeeded.len(),
        line_step(mods, f, raw, e).0.succeeded.subrange(0, f.succeeded.len() as int) == f.succeeded,
        (contains(strip_ansi_spec(raw), "Success. Downloaded item"@) || contains(
            strip_ansi_spec(raw),
            "already up to date"@,
        )) && extract_mod_id_spec(strip_ansi_spec(raw)) == Some(id) && (exists|k: int|
            0 <= k < mods.len() && #[trigger] mods[k].0 == id) ==> {
            let (f2, e2) = line_step(mods, f, raw, e);
            &&& f2.succeeded == f.succeeded.push(id)
            &&& forall|k: int|
                0 <= k < mods.len() && #[trigger] mods[k].0 == id ==> final_results(mods, f2.succeeded)[k] == (
                    id,
                    true,
                )
            &&& exists|j: int|
                e.len() <= j < e2.len() && (#[trigger] e2[j] matches ProgressView::Done { mod_id, total, .. }
                    && mod_id == id && total == mods.len())
        },
{
    let line = strip_ansi_spec(raw);
    let (f1, e1) = log_step(f, line, e);
    let (f2, e2) = done_step(mods, f1, line, e1);
    let (f3, e3) = starting_step(mods, f2, line, e2);
    assert(f3.succeeded == f2.succeeded);
    assert(f1.succeeded == f.succeeded);
    assert(e1.len() >= e.len());
    assert(e3.len() >= e2.len());
    assert forall|j: int| 0 <= j < e2.len() implies #[trigger] e3[j] == e2[j] by {}
    assert(f2.succeeded.subrange(0, f.succeeded.len() as int) =~= f.succeeded);
    if (contains(line, "Success. Downloaded item"@) || contains(line, "already up to date"@))
        && extract_mod_id_spec(line) == Some(id) && (exists|k: int| 0 <= k < mods.len() && #[trigger] mods[k].0 == id) {
        let k = choose|k: int| 0 <= k < mods.len() && #[trigger] mods[k].0 == id;
        lemma_last_index_found(mods, id, k);
        let j = e2.len() - 1;
        assert(e3[j] == e2[j]);
        assert(e2[j] matches ProgressView::Done { mod_id, total, .. } && mod_id == id && total == mods.len());
        assert(f3.succeeded.contains(id)) by {
            assert(f3.succeeded[f3.succeeded.len() - 1] == id);
        }
    }
}

pub proof fn lemma_results_ok_push(r: Seq<(u64, Result<(), Error>)>, x: (u64, Result<(), Error>))
    ensures
        results_ok(r.push(x)) == results_ok(r).push((x.0, x.1 is Ok)),
{
    assert(results_ok(r.push(x)) =~= results_ok(r).push((x.0, x.1 is Ok)));
}

pub proof fn lemma_final_results_step(m: Seq<(u64, Seq<char>)>, succ: Seq<u64>, i: int)
    requires
        0 <= i < m.len(),
    ensures
        final_results(m.subrange(0, i + 1), succ) == final_results(m.subrange(0, i), succ).push(
            (m[i].0, succ.contains(m[i].0)),
        ),
{
    assert(final_results(m.subrange(0, i + 1), succ) =~= final_results(m.subrange(0, i), succ).push(
        (m[i].0, succ.contains(m[i].0)),
    ));
}

pub proof fn lemma_all_false_step(m: Seq<(u64, Seq<char>)>, i: int)
    requires
        0 <= i < m.len(),
    ensures
        m.subrange(0, i + 1).map_values(|p: (u64, Seq<char>)| (p.0, false)) == m.subrange(
            0,
            i,
        ).map_values(|p: (u64, Seq<char>)| (p.0, false)).push((m[i].0, false)),
{
    assert(m.subrange(0, i + 1).map_values(|p: (u64, Seq<char>)| (p.0, false)) =~= m.subrange(
        0,
        i,
    ).map_values(|p: (u64, Seq<char>)| (p.0, false)).push((m[i].0, false)));
}

/// The state of the monitor.
pub struct DownloadMonitor {
    mods: Vec<(u64, String)>,
    login: String,
    succeeded: Vec<u64>,
    current_idx: usize,
    steam_guard_sent: bool,
    password_prompt_sent: bool,
    steam_guard_timed_out: bool,
    invalid_password: bool,
    login_phase: bool,
    buf: Vec<char>,
}

/// The monitor as mathematical values.
pub struct MonitorView {
    pub mods: Seq<(u64, Seq<char>)>,
    pub login: Seq<char>,
    pub flags: MonitorFlags,
    pub buf: Seq<char>,
}

impl View for DownloadMonitor {
    type V = MonitorView;

    closed spec fn view(&self) -> MonitorView {
        MonitorView {
            mods: mods_view(self.mods@),
            login: self.login@,
            flags: MonitorFlags {
                succeeded: self.succeeded@,
                current_idx: self.current_idx as nat,
                steam_guard_sent: self.steam_guard_sent,
                password_prompt_sent: self.password_prompt_sent,
                steam_guard_timed_out: self.steam_guard_timed_out,
                invalid_password: self.invalid_password,
                login_phase: self.login_phase,
            },
            buf: self.buf@,
        }
    }
}

fn string_of(s: &str) -> (r: String)
    ensures
        r@ == s@,
{
    let v = to_chars(s);
    from_chars(&v)
}

impl DownloadMonitor {
    /// A monitor for a run that downloads `mods_info` as `login`.
    pub fn new(mods_info: Vec<(u64, String)>, login: &str) -> (r: Self)
        ensures
            r@.mods == mods_view(mods_info@),
            r@.login == login@,
            r@.flags == initial_flags(),
            r@.buf == Seq::<char>::empty(),
    {
        let r = DownloadMonitor {
            mods: mods_info,
            login: string_of(login),
            succeeded: Vec::new(),
            current_idx: 0,
            steam_guard_sent: false,
            password_prompt_sent: false,
            steam_guard_timed_out: false,
            invalid_password: false,
            login_phase: true,
            buf: Vec::new(),
        };
        assert(r@.flags.succeeded =~= Seq::<u64>::empty());
        r
    }

    fn lookup(&self, id: u64) -> (r: Option<usize>)
        ensures
            match r {
                Some(i) => last_index_of_id(mods_view(self.mods@), id) == Some(i as nat) && i
                    < self.mods.len(),
                None => last_index_of_id(mods_view(self.mods@), id) is None,
            },
    {
        let ghost m = mods_view(self.mods@);
        assert(m.subrange(0, m.len() as int) =~= m);
        let mut k: usize = self.mods.len();
        while k > 0
            invariant
                k <= self.mods.len(),
                m == mods_view(self.mods@),
                last_index_of_id(m, id) == last_index_of_id(m.subrange(0, k as int), id),
            decreases k,
        {
            proof {
                assert(m.subrange(0, k as int).drop_last() =~= m.subrange(0, k - 1));
            }
            if self.mods[k - 1].0 == id {
                assert(m.subrange(0, k as int).last() == m[k - 1]);
                return Some(k - 1);
            }
            k = k - 1;
        }
        None
    }

    fn note_line(&mut self, line: &Vec<char>, events: &mut Vec<ModProgress>)
        ensures
            final(self)@.mods == old(self)@.mods,
            final(self)@.login == old(self)@.login,
            final(self)@.buf == old(self)@.buf,
            (final(self)@.flags, progress_views(final(events)@)) == log_step(
                old(self)@.flags,
                line@,
                progress_views(old(events)@),
            ),
    {
        let t = trim_chars(line);
        if t.len() > 0 {
            events.push(ModProgress::LogLine(from_chars(line)));
        }
        let sg = self.login_phase && !self.steam_guard_sent && is_steam_guard_prompt(line);
        if sg {
            events.push(ModProgress::SteamGuardMobileRequired);
            self.steam_guard_sent = true;
        }
        let a = to_chars("timed out waiting for confirmation");
        let b = to_chars("wait for confirmation timed out");
        let c = to_chars("error");
        let d = to_chars("timeout");
        if contains_ci_chars(line, &a) || contains_ci_chars(line, &b) || (contains_ci_chars(line, &c)
            && contains_ci_chars(line, &d)) {
            self.steam_guard_timed_out = true;
        }
        let ip = to_chars("invalid password");
        if contains_ci_chars(line, &ip) {
            self.invalid_password = true;
        }
        assert(progress_views(events@) =~= log_step(
            old(self)@.flags,
            line@,
            progress_views(old(events)@),
        ).1);
    }

    fn note_done(&mut self, line: &Vec<char>, events: &mut Vec<ModProgress>)
        ensures
            final(self)@.mods == old(self)@.mods,
            final(self)@.login == old(self)@.login,
            final(self)@.buf == old(self)@.buf,
            (final(self)@.flags, progress_views(final(events)@)) == done_step(
                old(self)@.mods,
                old(self)@.flags,
                line@,
                progress_views(old(events)@),
            ),
    {
        let s1 = to_chars("Success. Downloaded item");
        let s2 = to_chars("already up to date");
        if contains_chars(line, &s1) || contains_chars(line, &s2) {
            self.login_phase = false;
            match extract_mod_id_from_line(line) {
                Some(id) => match self.lookup(id) {
                    Some(idx) => {
                        self.succeeded.push(id);
                        let name = self.mods[idx].1.clone();
                        events.push(
                            ModProgress::Done {
                                current: idx + 1,
                                total: self.mods.len(),
                                mod_id: id,
                                name,
                            },
                        );
                        self.current_idx = idx + 1;
                        assert(progress_views(events@) =~= done_step(
                            old(self)@.mods,
                            old(self)@.flags,
                            line@,
                            progress_views(old(events)@),
                        ).1);
                    },
                    None => {},
                },
                None => {},
            }
        }
    }

    fn note_starting(&mut self, line: &Vec<char>, events: &mut Vec<ModProgress>)
        ensures
            final(self)@.mods == old(self)@.mods,
            final(self)@.login == old(self)@.login,
            final(self)@.buf == old(self)@.buf,
            (final(self)@.flags, progress_views(final(events)@)) == starting_step(
                old(self)@.mods,
                old(self)@.flags,
                line@,
                progress_views(old(events)@),
            ),
    {
        let s3 = to_chars("Downloading item");
        if contains_chars(line, &s3) {
            self.login_phase = false;
            match extract_mod_id_from_line(line) {
                Some(id) => match self.lookup(id) {
                    Some(idx) => {
                        if idx + 1 > self.current_idx {
                            let name = self.mods[idx].1.clone();
                            events.push(
                                ModProgress::Starting {
                                    current: idx + 1,
                                    total: self.mods.len(),
                                    mod_id: id,
                                    name,
                                },
                            );
                            self.current_idx = idx + 1;
                            assert(progress_views(events@) =~= starting_step(
                                old(self)@.mods,
                                old(self)@.flags,
                                line@,
                                progress_views(old(events)@),
                            ).1);
                        }
                    },
                    None => {},
                },
                None => {},
            }
        }
    }

    /// Processes one complete line; events are appended to `events`.
    fn process_line(&mut self, raw: &Vec<char>, events: &mut Vec<ModProgress>)
        ensures
            final(self)@.mods == old(self)@.mods,
            final(self)@.login == old(self)@.login,
            final(self)@.buf == old(self)@.buf,
            (final(self)@.flags, progress_views(final(events)@)) == line_step(
                old(self)@.mods,
                old(self)@.flags,
                raw@,
                progress_views(old(events)@),
            ),
    {
        let line = strip_ansi(raw);
        self.note_line(&line, events);
        self.note_done(&line, events);
        self.note_starting(&line, events);
    }
}

impl DownloadMonitor {
    /// Processes every complete line in the buffer.
    fn drain_buffer(&mut self) -> (events: Vec<ModProgress>)
        ensures
            final(self)@.mods == old(self)@.mods,
            final(self)@.login == old(self)@.login,
            (final(self)@.flags, final(self)@.buf, progress_views(events@)) == drain(
                old(self)@.mods,
                old(self)@.flags,
                old(self)@.buf,
                Seq::empty(),
            ),
    {
        let ghost m = self@.mods;
        let mut events: Vec<ModProgress> = Vec::new();
        assert(progress_views(events@) =~= Seq::<ProgressView>::empty());
        loop
            invariant
                self@.mods == m,
                self@.login == old(self)@.login,
                drain(m, old(self)@.flags, old(self)@.buf, Seq::empty()) == drain(
                    m,
                    self@.flags,
                    self@.buf,
                    progress_views(events@),
                ),
            ensures
                self@.mods == m,
                self@.login == old(self)@.login,
                drain(m, old(self)@.flags, old(self)@.buf, Seq::empty()) == (
                    self@.flags,
                    self@.buf,
                    progress_views(events@),
                ),
            decreases self@.buf.len(),
        {
            match first_index(&self.buf, '\n') {
                None => {
                    assert(drain(m, self@.flags, self@.buf, progress_views(events@)) == (
                        self@.flags,
                        self@.buf,
                        progress_views(events@),
                    ));
                    break ;
                },
                Some(nl) => {
                    let line = slice_chars(&self.buf, 0, nl);
                    let rest = slice_chars(&self.buf, nl + 1, self.buf.len());
                    self.buf = rest;
                    self.process_line(&line, &mut events);
                },
            }
        }
        events
    }

    /// Feeds one chunk of steamcmd output.  Returns the progress events it
    /// produces and whether steamcmd now waits for a password (which the
    /// caller asks the user for, then calls `password_sent`, or stops the
    /// run and calls `finish`).
    pub fn feed(&mut self, chunk: &str) -> (r: (Vec<ModProgress>, bool))
        ensures
            final(self)@.mods == old(self)@.mods,
            final(self)@.login == old(self)@.login,
            ({
                let (f, b, e, pw) = feed_spec(
                    old(self)@.mods,
                    old(self)@.flags,
                    old(self)@.buf,
                    chunk@,
                );
                &&& final(self)@.flags == f
                &&& final(self)@.buf == b
                &&& progress_views(r.0@) == e
                &&& r.1 == pw
            }),
    {
        self.append_chunk(chunk);
        let mut events = self.drain_buffer();
        let pw = self.check_prompts(&mut events);
        (events, pw)
    }

    fn append_chunk(&mut self, chunk: &str)
        ensures
            final(self)@.mods == old(self)@.mods,
            final(self)@.login == old(self)@.login,
            final(self)@.flags == old(self)@.flags,
            final(self)@.buf == append_step(old(self)@.buf, chunk@),
    {
        let c = to_chars(chunk);
        let buf_bytes = utf8_len_chars(&self.buf);
        let chunk_bytes = utf8_len_chars(&c);
        if buf_bytes > MAX_BUF_SIZE || chunk_bytes > MAX_BUF_SIZE - buf_bytes {
            self.buf = Vec::new();
        }
        push_all_chars(&mut self.buf, &c);
        assert(self@.buf =~= append_step(old(self)@.buf, chunk@));
    }

    fn check_prompts(&mut self, events: &mut Vec<ModProgress>) -> (pw: bool)
        ensures
            final(self)@.mods == old(self)@.mods,
            final(self)@.login == old(self)@.login,
            final(self)@.buf == old(self)@.buf,
            (final(self)@.flags, progress_views(final(events)@), pw) == prompt_step(
                old(self)@.flags,
                old(self)@.buf,
                progress_views(old(events)@),
            ),
    {
        let sg = self.login_phase && !self.steam_guard_sent && is_steam_guard_prompt(&self.buf);
        if sg {
            events.push(ModProgress::SteamGuardMobileRequired);
            self.steam_guard_sent = true;
        }
        let pw = self.login_phase && !self.password_prompt_sent && is_password_prompt(&self.buf);
        if pw {
            self.password_prompt_sent = true;
            events.push(ModProgress::PasswordRequired);
        }
        assert(progress_views(events@) =~= prompt_step(
            old(self)@.flags,
            old(self)@.buf,
            progress_views(old(events)@),
        ).1);
        pw
    }

    /// The password was written to steamcmd: the pending prompt is dropped.
    pub fn password_sent(&mut self)
        ensures
            final(self)@.mods == old(self)@.mods,
            final(self)@.login == old(self)@.login,
            final(self)@.flags == old(self)@.flags,
            final(self)@.buf == Seq::<char>::empty(),
    {
        self.buf = Vec::new();
    }

    /// The event announcing the first mod, sent when the run starts.
    pub fn start_event(&self) -> (r: ModProgress)
        requires
            self@.mods.len() > 0,
        ensures
            r@ == (ProgressView::Starting {
                current: 1,
                total: self@.mods.len(),
                mod_id: self@.mods[0].0,
                name: self@.mods[0].1,
            }),
    {
        ModProgress::Starting {
            current: 1,
            total: self.mods.len(),
            mod_id: self.mods[0].0,
            name: self.mods[0].1.clone(),
        }
    }

    /// The per-mod results and the closing events once steamcmd has exited:
    /// a mod succeeded exactly when a success line named it; every other mod
    /// gets a `Failed` event, then `Finished` reports the counts and a hint.
    pub fn finish(&self) -> (r: (Vec<(u64, Result<(), Error>)>, Vec<ModProgress>))
        ensures
            results_ok(r.0@) == final_results(self@.mods, self@.flags.succeeded),
            errors_are(r.0@, "Download failed"@),
            ({
                let ok = count_ok(self@.mods, self@.flags.succeeded);
                let failed = (self@.mods.len() - ok) as nat;
                progress_views(r.1@) == failed_events(
                    self@.mods,
                    self@.flags.succeeded,
                    self@.mods.len(),
                ).push(
                    ProgressView::Finished {
                        ok,
                        failed,
                        total: self@.mods.len(),
                        hint: finish_hint(self@.login, self@.flags, failed),
                    },
                )
            }),
    {
        let ghost m = self@.mods;
        let ghost succ = self@.flags.succeeded;
        let total = self.mods.len();
        let mut results: Vec<(u64, Result<(), Error>)> = Vec::new();
        let mut events: Vec<ModProgress> = Vec::new();
        let mut ok: usize = 0;
        let mut i: usize = 0;
        while i < total
            invariant
                i <= total == self.mods.len() == m.len(),
                m == self@.mods,
                succ == self@.flags.succeeded,
                ok == count_ok(m.subrange(0, i as int), succ),
                ok <= i,
                results_ok(results@) == final_results(m.subrange(0, i as int), succ),
                errors_are(results@, "Download failed"@),
                progress_views(events@) == failed_events(m.subrange(0, i as int), succ, total as nat),
            decreases total - i,
        {
            let id = self.mods[i].0;
            let hit = contains_u64(&self.succeeded, id);
            proof {
                assert(m.subrange(0, i + 1).drop_last() =~= m.subrange(0, i as int));
                assert(m.subrange(0, i + 1).last() == m[i as int]);
            }
            let ghost old_results = results@;
            proof {
                lemma_final_results_step(m, succ, i as int);
            }
            if hit {
                results.push((id, Ok(())));
                proof {
                    lemma_results_ok_push(old_results, (id, Ok(())));
                }
                ok = ok + 1;
            } else {
                let e = Err(Error::SteamCmd(string_of("Download failed")));
                results.push((id, e));
                proof {
                    lemma_results_ok_push(old_results, (id, e));
                }
                events.push(
                    ModProgress::Failed {
                        current: i + 1,
                        total,
                        mod_id: id,
                        name: self.mods[i].1.clone(),
                        error: string_of("Download failed"),
                    },
                );
            }
            i = i + 1;
            assert(progress_views(events@) =~= failed_events(m.subrange(0, i as int), succ, total as nat));
        }
        assert(m.subrange(0, total as int) =~= m);
        let failed = total - ok;
        let hint: Option<String> = if self.invalid_password {
            Some(string_of("Invalid password. Check your Steam password in Settings and try again."))
        } else if self.steam_guard_timed_out {
            Some(
                string_of(
                    "Steam Guard confirmation timed out. Open the Steam Mobile app faster next time, or try again.",
                ),
            )
        } else if failed > 0 {
            let mut v = to_chars("Some downloads failed. Try:\n  steamcmd +login ");
            push_str(&mut v, self.login.as_str());
            push_str(&mut v, " +quit");
            Some(from_chars(&v))
        } else {
            None
        };
        let ghost ev = progress_views(events@);
        events.push(ModProgress::Finished { ok, failed, total, hint });
        assert(progress_views(events@) =~= ev.push(
            ProgressView::Finished {
                ok: ok as nat,
                failed: failed as nat,
                total: total as nat,
                hint: finish_hint(self@.login, self@.flags, failed as nat),
            },
        ));
        (results, events)
    }
}

/// Whether `v` holds `x`.
pub fn contains_u64(v: &Vec<u64>, x: u64) -> (r: bool)
    ensures
        r == v@.contains(x),
{
    let mut i: usize = 0;
    while i < v.len()
        invariant
            i <= v.len(),
            forall|j: int| 0 <= j < i ==> v@[j] != x,
        decreases v.len() - i,
    {
        if v[i] == x {
            assert(v@[i as int] == x);
            return true;
        }
        i = i + 1;
    }
    false
}

fn push_all_chars(v: &mut Vec<char>, w: &Vec<char>)
    ensures
        final(v)@ == old(v)@ + w@,
{
    crate::text::push_all(v, w);
}

/// Results and closing event when no download can run; `None` when it can
/// (then Steam is shut down and the batched run starts).
pub open spec fn preflight_spec(login: Seq<char>, mods: Seq<(u64, Seq<char>)>) -> Option<
    (Seq<(u64, bool)>, ProgressView),
> {
    if mods.len() == 0 {
        Some((Seq::empty(), ProgressView::Finished { ok: 0, failed: 0, total: 0, hint: None }))
    } else if !is_real_login(login) {
        Some(
            (
                mods.map_values(|p: (u64, Seq<char>)| (p.0, false)),
                ProgressView::Finished {
                    ok: 0,
                    failed: mods.len(),
                    total: mods.len(),
                    hint: Some(
                        "Set your Steam login in the profile, then run:\n  steamcmd +login YOUR_USERNAME +quit"@,
                    ),
                },
            ),
        )
    } else {
        None
    }
}

/// Every mod fails with `msg` (no download happened).
fn all_failed(mods_info: &Vec<(u64, String)>, msg: &str) -> (r: Vec<(u64, Result<(), Error>)>)
    ensures
        results_ok(r@) == mods_view(mods_info@).map_values(|p: (u64, Seq<char>)| (p.0, false)),
        errors_are(r@, msg@),
{
    let mut r: Vec<(u64, Result<(), Error>)> = Vec::new();
    let mut i: usize = 0;
    while i < mods_info.len()
        invariant
            i <= mods_info.len(),
            results_ok(r@) == mods_view(mods_info@).subrange(0, i as int).map_values(
                |p: (u64, Seq<char>)| (p.0, false),
            ),
            errors_are(r@, msg@),
        decreases mods_info.len() - i,
    {
        let ghost old_r = r@;
        let e = Err(Error::SteamCmd(string_of(msg)));
        r.push((mods_info[i].0, e));
        proof {
            lemma_results_ok_push(old_r, (mods_info@[i as int].0, e));
            lemma_all_false_step(mods_view(mods_info@), i as int);
        }
        i = i + 1;
    }
    assert(mods_view(mods_info@).subrange(0, mods_info@.len() as int) =~= mods_view(mods_info@));
    r
}

/// The checks made before steamcmd is started: nothing to download, or a
/// login that cannot download workshop items, end the operation at once.
pub fn download_preflight(sc: &SteamCmd, mods_info: &Vec<(u64, String)>) -> (r: Option<
    (Vec<(u64, Result<(), Error>)>, ModProgress),
>)
    ensures
        match (r, preflight_spec(sc@.login, mods_view(mods_info@))) {
            (Some((res, ev)), Some((ok, pev))) => results_ok(res@) == ok && ev@ == pev
                && errors_are(res@, "Workshop downloads require a non-anonymous Steam login"@),
            (None, None) => true,
            _ => false,
        },
{
    let total = mods_info.len();
    if total == 0 {
        let res: Vec<(u64, Result<(), Error>)> = Vec::new();
        assert(results_ok(res@) =~= Seq::<(u64, bool)>::empty());
        return Some((res, ModProgress::Finished { ok: 0, failed: 0, total: 0, hint: None }));
    }
    if !sc.has_real_login() {
        let res = all_failed(mods_info, "Workshop downloads require a non-anonymous Steam login");
        let hint = string_of(
            "Set your Steam login in the profile, then run:\n  steamcmd +login YOUR_USERNAME +quit",
        );
        return Some(
            (res, ModProgress::Finished { ok: 0, failed: total, total, hint: Some(hint) }),
        );
    }
    None
}

/// Results and closing event when steamcmd could not be started.
pub fn spawn_failure(mods_info: &Vec<(u64, String)>, err: &str) -> (r: (
    Vec<(u64, Result<(), Error>)>,
    ModProgress,
))
    ensures
        results_ok(r.0@) == mods_view(mods_info@).map_values(|p: (u64, Seq<char>)| (p.0, false)),
        errors_are(r.0@, err@),
        r.1@ == (ProgressView::Finished {
            ok: 0,
            failed: mods_info.len() as nat,
            total: mods_info.len() as nat,
            hint: None,
        }),
{
    let res = all_failed(mods_info, err);
    let total = mods_info.len();
    (res, ModProgress::Finished { ok: 0, failed: total, total, hint: None })
}

} // verus!
