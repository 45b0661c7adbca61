//! Background mod operations: what each operation downloads, links and
//! reports, and how the download results become the operation's result.
//!
//! The downloads themselves, the marker files and the symlinks are made by
//! the caller; the decisions are made here.

use vstd::prelude::*;
use crate::api::{mod_ids_of, mod_ids_of_mods, Mod, Server};
use crate::error::{error_message, Error};
use crate::steamcmd::{ModProgress, ProgressView};
use crate::mods::{contains_id, ids_of_installed, installed_ids, missing_from, missing_ids, InstalledMod};
use crate::text::{dec, from_chars, push_str, to_chars, u64_to_dec};

verus! {

/// Describes what kind of background mod operation to perform.
pub enum ModOperation {
    /// Install missing mods for a server, then launch
    InstallThenLaunch { server: Server, password: Option<String> },
    /// Install missing mods (no launch)
    InstallOnly { server: Server },
    /// Update all server mods, then launch
    UpdateThenLaunch { server: Server, password: Option<String> },
    /// Update all installed mods
    UpdateAll,
    /// Update only mods known to be stale (pre-filtered `(id, name)` pairs)
    UpdateStale { stale_mods: Vec<(u64, String)> },
    /// Update a single mod
    UpdateOne { mod_id: u64, name: String },
    /// Update a user-selected subset of mods
    UpdateSelected { mods: Vec<(u64, String)> },
    /// Install mods by workshop id (manual install)
    InstallManual { mods: Vec<(u64, String)> },
}

/// Result of installing missing mods.
#[derive(Debug)]
pub struct InstallResult {
    pub installed: Vec<u64>,
    pub failed: Vec<(u64, String)>,
    pub total_server_mods: usize,
}

/// Result from a completed background mod operation.
#[derive(Debug)]
pub enum ModOpResult {
    InstallDone(InstallResult),
    UpdateDone(Vec<(u64, Result<(), Error>)>),
}

/// The text of a summary line.
pub open spec fn summary_spec(installed: nat, failed: nat) -> Seq<char> {
    if installed == 0 && failed == 0 {
        "All mods already installed"@
    } else if failed == 0 {
        "Successfully installed "@ + dec(installed) + " mods"@
    } else {
        "Installed "@ + dec(installed) + " mods, "@ + dec(failed) + " failed"@
    }
}

impl InstallResult {
    /// No mod failed.
    pub fn all_success(&self) -> (r: bool)
        ensures
            r == (self.failed@.len() == 0),
    {
        self.failed.len() == 0
    }

    /// One-line summary of the installation.
    pub fn summary(&self) -> (r: String)
        ensures
            r@ == summary_spec(self.installed@.len(), self.failed@.len()),
    {
        if self.installed.len() == 0 && self.failed.len() == 0 {
            from_chars(&to_chars("All mods already installed"))
        } else if self.failed.len() == 0 {
            let mut v = to_chars("Successfully installed ");
            crate::text::push_all(&mut v, &u64_to_dec(self.installed.len() as u64));
            push_str(&mut v, " mods");
            from_chars(&v)
        } else {
            let mut v = to_chars("Installed ");
            crate::text::push_all(&mut v, &u64_to_dec(self.installed.len() as u64));
            push_str(&mut v, " mods, ");
            crate::text::push_all(&mut v, &u64_to_dec(self.failed.len() as u64));
            push_str(&mut v, " failed");
            from_chars(&v)
        }
    }
}

/// The display name of a missing mod: the name of the first server mod
/// with that id, else the id in decimal.
pub open spec fn name_for(mods: Seq<Mod>, id: u64) -> Seq<char>
    decreases mods.len(),
{
    if mods.len() == 0 {
        dec(id as nat)
    } else if mods[0].steam_workshop_id as u64 == id {
        mods[0].name@
    } else {
        name_for(mods.drop_first(), id)
    }
}

/// `(id, name)` pairs as values.
pub open spec fn pairs_view(v: Seq<(u64, String)>) -> Seq<(u64, Seq<char>)> {
    v.map_values(|p: (u64, String)| (p.0, p.1@))
}

/// A server's mods as `(id, name)` pairs.
pub open spec fn server_pairs(mods: Seq<Mod>) -> Seq<(u64, Seq<char>)> {
    mods.map_values(|m: Mod| (m.steam_workshop_id as u64, m.name@))
}

/// Installed mods as `(id, name)` pairs.
pub open spec fn installed_pairs(mods: Seq<InstalledMod>) -> Seq<(u64, Seq<char>)> {
    mods.map_values(|m: InstalledMod| (m.id, m.name@))
}

/// Missing ids paired with their display names.
pub open spec fn named_ids(ids: Seq<u64>, mods: Seq<Mod>) -> Seq<(u64, Seq<char>)> {
    ids.map_values(|id: u64| (id, name_for(mods, id)))
}

proof fn lemma_pairs_view_push(s: Seq<(u64, String)>, x: (u64, String))
    ensures
        pairs_view(s.push(x)) == pairs_view(s).push((x.0, x.1@)),
{
    assert(pairs_view(s.push(x)) =~= pairs_view(s).push((x.0, x.1@)));
}

proof fn lemma_server_pairs_push(s: Seq<Mod>, x: Mod)
    ensures
        server_pairs(s.push(x)) == server_pairs(s).push((x.steam_workshop_id as u64, x.name@)),
{
    assert(server_pairs(s.push(x)) =~= server_pairs(s).push(
        (x.steam_workshop_id as u64, x.name@),
    ));
}

proof fn lemma_installed_pairs_push(s: Seq<InstalledMod>, x: InstalledMod)
    ensures
        installed_pairs(s.push(x)) == installed_pairs(s).push((x.id, x.name@)),
{
    assert(installed_pairs(s.push(x)) =~= installed_pairs(s).push((x.id, x.name@)));
}

proof fn lemma_named_ids_push(s: Seq<u64>, x: u64, mods: Seq<Mod>)
    ensures
        named_ids(s.push(x), mods) == named_ids(s, mods).push((x, name_for(mods, x))),
{
    assert(named_ids(s.push(x), mods) =~= named_ids(s, mods).push((x, name_for(mods, x))));
}

/// A plan that ends without downloading: `install_total` is `Some(n)` for
/// an install result with nothing installed or failed out of `n`, `None` for
/// an update result with no entries.
pub enum PlanView {
    Done { link: Option<Seq<u64>>, install_total: Option<nat> },
    Download {
        download: Seq<(u64, Seq<char>)>,
        install: bool,
        link: Option<Seq<u64>>,
        total: nat,
    },
}

/// What an operation does, given the installed mods.
pub open spec fn plan_spec(op: ModOperation, installed: Seq<InstalledMod>) -> PlanView {
    match op {
        ModOperation::InstallOnly { server } => install_plan(server, installed_ids(installed)),
        ModOperation::InstallThenLaunch { server, .. } => install_plan(
            server,
            installed_ids(installed),
        ),
        ModOperation::UpdateThenLaunch { server, .. } => PlanView::Download {
            download: server_pairs(server.mods@),
            install: false,
            link: Some(mod_ids_of(server.mods@)),
            total: server.mods@.len(),
        },
        ModOperation::UpdateAll => PlanView::Download {
            download: installed_pairs(installed),
            install: false,
            link: None,
            total: installed.len(),
        },
        ModOperation::UpdateStale { stale_mods } => update_list_plan(pairs_view(stale_mods@)),
        ModOperation::UpdateOne { mod_id, name } => PlanView::Download {
            download: seq![(mod_id, name@)],
            install: false,
            link: None,
            total: 1,
        },
        ModOperation::UpdateSelected { mods } => update_list_plan(pairs_view(mods@)),
        ModOperation::InstallManual { mods } => manual_plan(
            pairs_view(mods@),
            installed_ids(installed),
        ),
    }
}

/// An operation on a server's mods (installing them, with or without a
/// launch, or updating them before a launch) ends by linking exactly that
/// server's mods, in the server's order, into the game directory; updating
/// before a launch downloads every one of them.  A manual install links
/// the mods it was given; updates of installed or chosen mods link nothing.
pub proof fn lemma_server_operations_link_server_mods(op: ModOperation, installed: Seq<InstalledMod>)
    ensures
        ({
            let link = match plan_spec(op, installed) {
                PlanView::Done { link, .. } => link,
                PlanView::Download { link, .. } => link,
            };
            match op {
                ModOperation::InstallOnly { server } | ModOperation::InstallThenLaunch { server, .. } => {
                    &&& link matches Some(ids)
                    &&& ids.len() == server.mods@.len()
                    &&& forall|i: int|
                        0 <= i < ids.len() ==> #[trigger] ids[i] == server.mods@[i].steam_workshop_id as u64
                },
                ModOperation::UpdateThenLaunch { server, .. } => {
                    &&& link matches Some(ids)
                    &&& ids.len() == server.mods@.len()
                    &&& forall|i: int|
                        0 <= i < ids.len() ==> #[trigger] ids[i] == server.mods@[i].steam_workshop_id as u64
                    &&& plan_spec(op, installed) matches PlanView::Download { download, install, total, .. }
                    &&& !install && total == server.mods@.len() && download.len() == server.mods@.len()
                    &&& forall|i: int|
                        0 <= i < download.len() ==> #[trigger] download[i] == (
                            server.mods@[i].steam_workshop_id as u64,
                            server.mods@[i].name@,
                        )
                },
                ModOperation::InstallManual { mods } => if mods@.len() == 0 {
                    link is None
                } else {
                    &&& link matches Some(ids)
                    &&& ids.len() == mods@.len()
                    &&& forall|i: int| 0 <= i < ids.len() ==> #[trigger] ids[i] == mods@[i].0
                },
                _ => link is None,
            }
        }),
{
    match op {
        ModOperation::UpdateThenLaunch { server, .. } => {
            assert(server_pairs(server.mods@).len() == server.mods@.len());
        },
        _ => {},
    }
}

/// Installing a server's mods: only the missing ones are downloaded, and all
/// of the server's mods are linked afterwards.
pub open spec fn install_plan(server: Server, have: Seq<u64>) -> PlanView {
    let ids = mod_ids_of(server.mods@);
    let miss = missing_ids(ids, have);
    if miss.len() == 0 {
        PlanView::Done { link: Some(ids), install_total: Some(ids.len()) }
    } else {
        PlanView::Download {
            download: named_ids(miss, server.mods@),
            install: true,
            link: Some(ids),
            total: ids.len(),
        }
    }
}

/// Updating a given list: nothing to do when it is empty.
pub open spec fn update_list_plan(mods: Seq<(u64, Seq<char>)>) -> PlanView {
    if mods.len() == 0 {
        PlanView::Done { link: None, install_total: None }
    } else {
        PlanView::Download { download: mods, install: false, link: None, total: mods.len() }
    }
}

/// The pairs of `mods` whose id is not in `have`, in order.
pub open spec fn pairs_missing(mods: Seq<(u64, Seq<char>)>, have: Seq<u64>) -> Seq<
    (u64, Seq<char>),
>
    decreases mods.len(),
{
    if mods.len() == 0 {
        Seq::empty()
    } else {
        let p = pairs_missing(mods.drop_last(), have);
        if have.contains(mods.last().0) {
            p
        } else {
            p.push(mods.last())
        }
    }
}

/// Manual installation: already-installed mods are only linked.
pub open spec fn manual_plan(mods: Seq<(u64, Seq<char>)>, have: Seq<u64>) -> PlanView {
    let all_ids = mods.map_values(|p: (u64, Seq<char>)| p.0);
    if mods.len() == 0 {
        PlanView::Done { link: None, install_total: Some(0) }
    } else if pairs_missing(mods, have).len() == 0 {
        PlanView::Done { link: Some(all_ids), install_total: Some(mods.len()) }
    } else {
        PlanView::Download {
            download: pairs_missing(mods, have),
            install: true,
            link: Some(all_ids),
            total: mods.len(),
        }
    }
}

/// The plan of a background mod operation.
pub enum ModOpPlan {
    /// Nothing is downloaded: the caller links `link_ids` into the game
    /// directory (when given), reports the messages of `plan_events`
    /// (`Finished` with zero counts), and the operation ends with `result`.
    Done { link_ids: Option<Vec<u64>>, result: ModOpResult },
    /// The caller downloads `download` with progress, then links `link_ids`
    /// (when given); `finish_operation` makes the result.
    Download {
        download: Vec<(u64, String)>,
        install: bool,
        link_ids: Option<Vec<u64>>,
        total: usize,
    },
}

/// The plan as values.
pub open spec fn plan_view(p: ModOpPlan) -> PlanView {
    match p {
        ModOpPlan::Done { link_ids, result } => PlanView::Done {
            link: match link_ids {
                Some(v) => Some(v@),
                None => None,
            },
            install_total: match result {
                ModOpResult::InstallDone(r) => Some(r.total_server_mods as nat),
                ModOpResult::UpdateDone(_) => None,
            },
        },
        ModOpPlan::Download { download, install, link_ids, total } => PlanView::Download {
            download: pairs_view(download@),
            install,
            link: match link_ids {
                Some(v) => Some(v@),
                None => None,
            },
            total: total as nat,
        },
    }
}

/// A finished plan's result holds nothing installed, failed or updated.
pub open spec fn done_result_empty(p: ModOpPlan) -> bool {
    match p {
        ModOpPlan::Done { result, .. } => match result {
            ModOpResult::InstallDone(r) => r.installed@.len() == 0 && r.failed@.len() == 0,
            ModOpResult::UpdateDone(v) => v@.len() == 0,
        },
        _ => true,
    }
}

fn copy_string(s: &String) -> (r: String)
    ensures
        r@ == s@,
{
    from_chars(&to_chars(s.as_str()))
}

fn copy_pairs(v: &Vec<(u64, String)>) -> (r: Vec<(u64, String)>)
    ensures
        pairs_view(r@) == pairs_view(v@),
{
    let mut r: Vec<(u64, String)> = Vec::new();
    let mut i: usize = 0;
    while i < v.len()
        invariant
            i <= v.len(),
            pairs_view(r@) == pairs_view(v@.subrange(0, i as int)),
        decreases v.len() - i,
    {
        let ghost old_r = r@;
        let e = (v[i].0, copy_string(&v[i].1));
        r.push(e);
        proof {
            lemma_pairs_view_push(old_r, e);
            lemma_pairs_view_push(v@.subrange(0, i as int), v@[i as int]);
            assert(v@.subrange(0, i + 1) =~= v@.subrange(0, i as int).push(v@[i as int]));
        }
        i = i + 1;
    }
    assert(v@.subrange(0, v@.len() as int) =~= v@);
    r
}

fn name_for_exec(mods: &Vec<Mod>, id: u64) -> (r: String)
    ensures
        r@ == name_for(mods@, id),
{
    let mut i: usize = 0;
    assert(mods@.subrange(0, mods@.len() as int) =~= mods@);
    while i < mods.len()
        invariant
            i <= mods.len(),
            name_for(mods@, id) == name_for(mods@.subrange(i as int, mods@.len() as int), id),
        decreases mods.len() - i,
    {
        proof {
            let t = mods@.subrange(i as int, mods@.len() as int);
            assert(t.drop_first() =~= mods@.subrange(i + 1, mods@.len() as int));
            assert(t[0] == mods@[i as int]);
        }
        if mods[i].steam_workshop_id as u64 == id {
            return copy_string(&mods[i].name);
        }
        i = i + 1;
    }
    from_chars(&u64_to_dec(id))
}

fn install_plan_exec(server: &Server, installed: &Vec<InstalledMod>) -> (r: ModOpPlan)
    ensures
        plan_view(r) == install_plan(*server, installed_ids(installed@)),
        done_result_empty(r),
{
    let ids = mod_ids_of_mods(&server.mods);
    let have = ids_of_installed(installed);
    let miss = missing_from(&ids, &have);
    if miss.len() == 0 {
        let total = ids.len();
        let r = ModOpPlan::Done {
            link_ids: Some(ids),
            result: ModOpResult::InstallDone(
                InstallResult { installed: Vec::new(), failed: Vec::new(), total_server_mods: total },
            ),
        };
        return r;
    }
    let mut download: Vec<(u64, String)> = Vec::new();
    let mut i: usize = 0;
    while i < miss.len()
        invariant
            i <= miss.len(),
            pairs_view(download@) == named_ids(miss@.subrange(0, i as int), server.mods@),
        decreases miss.len() - i,
    {
        let name = name_for_exec(&server.mods, miss[i]);
        let ghost old_d = download@;
        let e = (miss[i], name);
        download.push(e);
        proof {
            lemma_pairs_view_push(old_d, e);
            lemma_named_ids_push(miss@.subrange(0, i as int), miss@[i as int], server.mods@);
            assert(miss@.subrange(0, i + 1) =~= miss@.subrange(0, i as int).push(miss@[i as int]));
        }
        i = i + 1;
    }
    assert(miss@.subrange(0, miss@.len() as int) =~= miss@);
    let total = ids.len();
    ModOpPlan::Download { download, install: true, link_ids: Some(ids), total }
}

fn pairs_missing_exec(mods: &Vec<(u64, String)>, have: &Vec<u64>) -> (r: Vec<(u64, String)>)
    ensures
        pairs_view(r@) == pairs_missing(pairs_view(mods@), have@),
{
    let mut r: Vec<(u64, String)> = Vec::new();
    let mut i: usize = 0;
    while i < mods.len()
        invariant
            i <= mods.len(),
            pairs_view(r@) == pairs_missing(pairs_view(mods@.subrange(0, i as int)), have@),
        decreases mods.len() - i,
    {
        proof {
            assert(pairs_view(mods@.subrange(0, i + 1)).drop_last() =~= pairs_view(
                mods@.subrange(0, i as int),
            ));
        }
        if !contains_id(have, mods[i].0) {
            r.push((mods[i].0, copy_string(&mods[i].1)));
            assert(pairs_view(r@) =~= pairs_missing(pairs_view(mods@.subrange(0, i + 1)), have@));
        }
        i = i + 1;
    }
    assert(mods@.subrange(0, mods@.len() as int) =~= mods@);
    r
}

fn first_ids(mods: &Vec<(u64, String)>) -> (r: Vec<u64>)
    ensures
        r@ == pairs_view(mods@).map_values(|p: (u64, Seq<char>)| p.0),
{
    let mut r: Vec<u64> = Vec::new();
    let mut i: usize = 0;
    while i < mods.len()
        invariant
            i <= mods.len(),
            r@ == pairs_view(mods@.subrange(0, i as int)).map_values(|p: (u64, Seq<char>)| p.0),
        decreases mods.len() - i,
    {
        r.push(mods[i].0);
        i = i + 1;
        assert(r@ =~= pairs_view(mods@.subrange(0, i as int)).map_values(
            |p: (u64, Seq<char>)| p.0,
        ));
    }
    assert(mods@.subrange(0, mods@.len() as int) =~= mods@);
    r
}

fn update_list_plan_exec(mods: &Vec<(u64, String)>) -> (r: ModOpPlan)
    ensures
        plan_view(r) == update_list_plan(pairs_view(mods@)),
        done_result_empty(r),
{
    if mods.len() == 0 {
        return ModOpPlan::Done { link_ids: None, result: ModOpResult::UpdateDone(Vec::new()) };
    }
    ModOpPlan::Download { download: copy_pairs(mods), install: false, link_ids: None, total: mods.len() }
}

/// The progress that a plan reports before any download: a plan with
/// nothing to download reports, as its only message, `Finished` with zero
/// counts and no hint; a download plan reports nothing yet (the download
/// reports its own progress).
pub fn plan_events(plan: &ModOpPlan) -> (r: Vec<ModProgress>)
    ensures
        plan is Done ==> r@.len() == 1 && r@[0]@ == (ProgressView::Finished {
            ok: 0,
            failed: 0,
            total: 0,
            hint: None,
        }),
        plan is Download ==> r@.len() == 0,
{
    let mut v: Vec<ModProgress> = Vec::new();
    match plan {
        ModOpPlan::Done { .. } => {
            v.push(ModProgress::Finished { ok: 0, failed: 0, total: 0, hint: None });
        },
        ModOpPlan::Download { .. } => {},
    }
    v
}

/// Decides what a background mod operation does, given the installed mods.
pub fn plan_mod_operation(op: &ModOperation, installed: &Vec<InstalledMod>) -> (r: ModOpPlan)
    ensures
        plan_view(r) == plan_spec(*op, installed@),
        done_result_empty(r),
{
    match op {
        ModOperation::InstallOnly { server } => install_plan_exec(server, installed),
        ModOperation::InstallThenLaunch { server, .. } => install_plan_exec(server, installed),
        ModOperation::UpdateThenLaunch { server, .. } => {
            let mut download: Vec<(u64, String)> = Vec::new();
            let mut i: usize = 0;
            while i < server.mods.len()
                invariant
                    i <= server.mods.len(),
                    pairs_view(download@) == server_pairs(server.mods@.subrange(0, i as int)),
                decreases server.mods.len() - i,
            {
                let ghost old_d = download@;
                let e = (server.mods[i].steam_workshop_id as u64, copy_string(&server.mods[i].name));
                download.push(e);
                proof {
                    lemma_pairs_view_push(old_d, e);
                    lemma_server_pairs_push(server.mods@.subrange(0, i as int), server.mods@[i as int]);
                    assert(server.mods@.subrange(0, i + 1) =~= server.mods@.subrange(0, i as int).push(
                        server.mods@[i as int],
                    ));
                }
                i = i + 1;
            }
            assert(server.mods@.subrange(0, server.mods@.len() as int) =~= server.mods@);
            let ids = mod_ids_of_mods(&server.mods);
            ModOpPlan::Download {
                download,
                install: false,
                link_ids: Some(ids),
                total: server.mods.len(),
            }
        },
        ModOperation::UpdateAll => {
            let mut download: Vec<(u64, String)> = Vec::new();
            let mut i: usize = 0;
            while i < installed.len()
                invariant
                    i <= installed.len(),
                    pairs_view(download@) == installed_pairs(installed@.subrange(0, i as int)),
                decreases installed.len() - i,
            {
                let ghost old_d = download@;
                let e = (installed[i].id, copy_string(&installed[i].name));
                download.push(e);
                proof {
                    lemma_pairs_view_push(old_d, e);
                    lemma_installed_pairs_push(installed@.subrange(0, i as int), installed@[i as int]);
                    assert(installed@.subrange(0, i + 1) =~= installed@.subrange(0, i as int).push(
                        installed@[i as int],
                    ));
                }
                i = i + 1;
            }
            assert(installed@.subrange(0, installed@.len() as int) =~= installed@);
            ModOpPlan::Download { download, install: false, link_ids: None, total: installed.len() }
        },
        ModOperation::UpdateStale { stale_mods } => update_list_plan_exec(stale_mods),
        ModOperation::UpdateOne { mod_id, name } => {
            let mut download: Vec<(u64, String)> = Vec::new();
            download.push((*mod_id, copy_string(name)));
            assert(pairs_view(download@) =~= seq![(*mod_id, name@)]);
            ModOpPlan::Download { download, install: false, link_ids: None, total: 1 }
        },
        ModOperation::UpdateSelected { mods } => update_list_plan_exec(mods),
        ModOperation::InstallManual { mods } => {
            if mods.len() == 0 {
                return ModOpPlan::Done {
                    link_ids: None,
                    result: ModOpResult::InstallDone(
                        InstallResult {
                            installed: Vec::new(),
                            failed: Vec::new(),
                            total_server_mods: 0,
                        },
                    ),
                };
            }
            let have = ids_of_installed(installed);
            let miss = pairs_missing_exec(mods, &have);
            let all_ids = first_ids(mods);
            if miss.len() == 0 {
                return ModOpPlan::Done {
                    link_ids: Some(all_ids),
                    result: ModOpResult::InstallDone(
                        InstallResult {
                            installed: Vec::new(),
                            failed: Vec::new(),
                            total_server_mods: mods.len(),
                        },
                    ),
                };
            }
            ModOpPlan::Download { download: miss, install: true, link_ids: Some(all_ids), total: mods.len() }
        },
    }
}

/// Ids whose result is a success, in order.
pub open spec fn ok_ids(r: Seq<(u64, Result<(), Error>)>) -> Seq<u64>
    decreases r.len(),
{
    if r.len() == 0 {
        Seq::empty()
    } else {
        let p = ok_ids(r.drop_last());
        if r.last().1 is Ok {
            p.push(r.last().0)
        } else {
            p
        }
    }
}

/// Failed ids with their error messages, in order.
pub open spec fn failed_pairs(r: Seq<(u64, Result<(), Error>)>) -> Seq<(u64, Seq<char>)>
    decreases r.len(),
{
    if r.len() == 0 {
        Seq::empty()
    } else {
        let p = failed_pairs(r.drop_last());
        match r.last().1 {
            Ok(_) => p,
            Err(e) => p.push((r.last().0, error_message(e))),
        }
    }
}

/// Turns the per-mod download results into the operation's result.  For an
/// installation the returned ids are the mods to mark as managed (those that
/// were downloaded).
pub fn finish_operation(install: bool, total: usize, results: Vec<(u64, Result<(), Error>)>) -> (r: (
    ModOpResult,
    Vec<u64>,
))
    ensures
        install ==> match r.0 {
            ModOpResult::InstallDone(ir) => ir.installed@ == ok_ids(results@) && pairs_view(
                ir.failed@,
            ) == failed_pairs(results@) && ir.total_server_mods == total,
            ModOpResult::UpdateDone(_) => false,
        },
        install ==> r.1@ == ok_ids(results@),
        !install ==> r.0 == ModOpResult::UpdateDone(results) && r.1@.len() == 0,
{
    if !install {
        return (ModOpResult::UpdateDone(results), Vec::new());
    }
    let mut installed: Vec<u64> = Vec::new();
    let mut failed: Vec<(u64, String)> = Vec::new();
    let mut i: usize = 0;
    while i < results.len()
        invariant
            i <= results.len(),
            installed@ == ok_ids(results@.subrange(0, i as int)),
            pairs_view(failed@) == failed_pairs(results@.subrange(0, i as int)),
        decreases results.len() - i,
    {
        proof {
            assert(results@.subrange(0, i + 1).drop_last() =~= results@.subrange(0, i as int));
        }
        match &results[i].1 {
            Ok(_) => {
                installed.push(results[i].0);
            },
            Err(e) => {
                failed.push((results[i].0, e.message()));
                assert(pairs_view(failed@) =~= failed_pairs(results@.subrange(0, i + 1)));
            },
        }
        i = i + 1;
    }
    assert(results@.subrange(0, results@.len() as int) =~= results@);
    let marked = copy_ids(&installed);
    (
        ModOpResult::InstallDone(
            InstallResult { installed, failed, total_server_mods: total },
        ),
        marked,
    )
}

fn copy_ids(v: &Vec<u64>) -> (r: Vec<u64>)
    ensures
        r@ == v@,
{
    let mut r: Vec<u64> = Vec::new();
    let mut i: usize = 0;
    while i < v.len()
        invariant
            i <= v.len(),
            r@ == v@.subrange(0, i as int),
        decreases v.len() - i,
    {
        r.push(v[i]);
        i = i + 1;
    }
    assert(v@.subrange(0, v@.len() as int) =~= v@);
    r
}

} // verus!
