//! Installed workshop mods: which a server still needs, where they live,
//! and what their `meta.cpp` says.

use vstd::prelude::*;
use crate::paths::{join, join_path};
use crate::regexp::{regex_first_capture, regex_first_capture_result};
use crate::text::{dec, from_chars, lowercase_result, parse_u64, parse_unsigned, to_chars, to_lowercase, u64_to_dec};

verus! {

/// A mod found in the workshop directory.
#[derive(Debug, Clone)]
pub struct InstalledMod {
    pub name: String,
    pub id: u64,
    /// Local install/update time (mtime of `meta.cpp`, Unix seconds).
    pub local_updated: i64,
    pub size: u64,
    /// The `.dayz-community-hub` marker file is present.
    pub managed: bool,
}

/// Counts reported by a cleanup.
#[derive(Debug)]
pub struct ModManagementStats {
    pub removed_count: usize,
    pub removed_size: u64,
    pub symlinks_removed: usize,
}

/// Ids of a list of installed mods.
pub open spec fn installed_ids(m: Seq<InstalledMod>) -> Seq<u64> {
    m.map_values(|x: InstalledMod| x.id)
}

/// The ids of `wanted` that `have` does not hold, in order (duplicates kept).
pub open spec fn missing_ids(wanted: Seq<u64>, have: Seq<u64>) -> Seq<u64>
    decreases wanted.len(),
{
    if wanted.len() == 0 {
        Seq::empty()
    } else {
        let p = missing_ids(wanted.drop_last(), have);
        if have.contains(wanted.last()) {
            p
        } else {
            p.push(wanted.last())
        }
    }
}

/// Whether `v` holds `x`.
pub fn contains_id(v: &Vec<u64>, x: u64) -> (r: bool)
    ensures
        r == v@.contains(x),
{
    let mut i: usize = 0;
    while i < v.len()
        invariant
            i <= v.len(),
            forall|j: int| 0 <= j < i ==> v@[j] != x,
        decreases v.len() - i,
    {
        if v[i] == x {
            assert(v@[i as int] == x);
            return true;
        }
        i = i + 1;
    }
    false
}

/// Ids of installed mods.
pub fn ids_of_installed(m: &Vec<InstalledMod>) -> (r: Vec<u64>)
    ensures
        r@ == installed_ids(m@),
{
    let mut r: Vec<u64> = Vec::new();
    let mut i: usize = 0;
    while i < m.len()
        invariant
            i <= m.len(),
            r@ == installed_ids(m@.subrange(0, i as int)),
        decreases m.len() - i,
    {
        r.push(m[i].id);
        i = i + 1;
        assert(r@ =~= installed_ids(m@.subrange(0, i as int)));
    }
    assert(m@.subrange(0, m@.len() as int) =~= m@);
    r
}

/// The ids of `wanted` not in `have`, in order.
pub fn missing_from(wanted: &Vec<u64>, have: &Vec<u64>) -> (r: Vec<u64>)
    ensures
        r@ == missing_ids(wanted@, have@),
{
    let mut r: Vec<u64> = Vec::new();
    let mut i: usize = 0;
    while i < wanted.len()
        invariant
            i <= wanted.len(),
            r@ == missing_ids(wanted@.subrange(0, i as int), have@),
        decreases wanted.len() - i,
    {
        proof {
            assert(wanted@.subrange(0, i + 1).drop_last() =~= wanted@.subrange(0, i as int));
        }
        if !contains_id(have, wanted[i]) {
            r.push(wanted[i]);
        }
        i = i + 1;
    }
    assert(wanted@.subrange(0, wanted@.len() as int) =~= wanted@);
    r
}

/// Determine which mod ids required by a server are not installed.
pub fn get_missing_mods(server_mods: &Vec<u64>, installed_mods: &Vec<InstalledMod>) -> (r: Vec<u64>)
    ensures
        r@ == missing_ids(server_mods@, installed_ids(installed_mods@)),
{
    let have = ids_of_installed(installed_mods);
    missing_from(server_mods, &have)
}

/// The directory of a workshop mod: `<workshop>/<id>`.
pub open spec fn mod_dir_spec(workshop: Seq<char>, id: u64) -> Seq<char> {
    join_path(workshop, dec(id as nat))
}

/// The directory of a workshop mod.
pub fn mod_dir(workshop_path: &str, mod_id: u64) -> (r: String)
    ensures
        r@ == mod_dir_spec(workshop_path@, mod_id),
{
    let id = from_chars(&u64_to_dec(mod_id));
    join(workshop_path, id.as_str())
}

/// The marker file that tags a mod as managed by the launcher.
pub open spec fn marker_path_spec(workshop: Seq<char>, id: u64) -> Seq<char> {
    join_path(mod_dir_spec(workshop, id), ".dayz-community-hub"@)
}

/// `<workshop>/<id>/.dayz-community-hub`.
pub fn marker_path(workshop_path: &str, mod_id: u64) -> (r: String)
    ensures
        r@ == marker_path_spec(workshop_path@, mod_id),
{
    let d = mod_dir(workshop_path, mod_id);
    join(d.as_str(), ".dayz-community-hub")
}

/// The name under which a mod is linked into the game directory: `@<id>`.
pub open spec fn link_name_spec(id: u64) -> Seq<char> {
    seq!['@'] + dec(id as nat)
}

/// `@<id>`.
pub fn link_name(mod_id: u64) -> (r: String)
    ensures
        r@ == link_name_spec(mod_id),
{
    let mut v: Vec<char> = Vec::new();
    v.push('@');
    crate::text::push_all(&mut v, &u64_to_dec(mod_id));
    from_chars(&v)
}

/// The ids of `mod_ids` whose directory is not present (`present[i]` tells
/// whether the directory of `mod_ids[i]` exists).
pub open spec fn absent_ids(ids: Seq<u64>, present: Seq<bool>) -> Seq<u64>
    decreases ids.len(),
{
    if ids.len() == 0 || present.len() != ids.len() {
        Seq::empty()
    } else {
        let p = absent_ids(ids.drop_last(), present.drop_last());
        if present.last() {
            p
        } else {
            p.push(ids.last())
        }
    }
}

/// Verify that all required mods exist: returns the ids that are missing,
/// given for each id whether its directory exists.
pub fn verify_mods(mod_ids: &Vec<u64>, present: &Vec<bool>) -> (r: Vec<u64>)
    requires
        present.len() == mod_ids.len(),
    ensures
        r@ == absent_ids(mod_ids@, present@),
{
    let mut r: Vec<u64> = Vec::new();
    let mut i: usize = 0;
    while i < mod_ids.len()
        invariant
            i <= mod_ids.len() == present.len(),
            r@ == absent_ids(mod_ids@.subrange(0, i as int), present@.subrange(0, i as int)),
        decreases mod_ids.len() - i,
    {
        proof {
            assert(mod_ids@.subrange(0, i + 1).drop_last() =~= mod_ids@.subrange(0, i as int));
            assert(present@.subrange(0, i + 1).drop_last() =~= present@.subrange(0, i as int));
        }
        if !present[i] {
            r.push(mod_ids[i]);
        }
        i = i + 1;
    }
    assert(mod_ids@.subrange(0, mod_ids@.len() as int) =~= mod_ids@);
    assert(present@.subrange(0, present@.len() as int) =~= present@);
    r
}

/// Pattern of the mod name in `meta.cpp`.
pub open spec fn meta_name_pattern() -> Seq<char> {
    "name\\s*=\\s*\"([^\"]+)\""@
}

/// Pattern of the workshop id in `meta.cpp`.
pub open spec fn meta_id_pattern() -> Seq<char> {
    "publishedid\\s*=\\s*(\\d+)"@
}

/// Name and id of a mod from its `meta.cpp` and directory name: the name
/// defaults to `Unknown`; the id comes from `publishedid`, else from the
/// directory name; a mod without an id is skipped (`None`).
pub open spec fn mod_meta_spec(meta: Seq<char>, dir_name: Seq<char>) -> Option<(Seq<char>, u64)> {
    let name = match regex_first_capture_result(meta_name_pattern(), meta) {
        Some(Some(n)) => n,
        _ => "Unknown"@,
    };
    let from_meta = match regex_first_capture_result(meta_id_pattern(), meta) {
        Some(Some(c)) => parse_unsigned(c, 10, u64::MAX as nat),
        _ => None,
    };
    match from_meta {
        Some(id) => Some((name, id as u64)),
        None => match parse_unsigned(dir_name, 10, u64::MAX as nat) {
            Some(id) => Some((name, id as u64)),
            None => None,
        },
    }
}

/// Reads a mod's name and id from its `meta.cpp` text and directory name.
pub fn parse_mod_meta(meta: &str, dir_name: &str) -> (r: Option<(String, u64)>)
    ensures
        match r {
            Some((n, id)) => mod_meta_spec(meta@, dir_name@) == Some((n@, id)),
            None => mod_meta_spec(meta@, dir_name@) is None,
        },
{
    let name = match regex_first_capture("name\\s*=\\s*\"([^\"]+)\"", meta) {
        Some(Some(n)) => n,
        _ => from_chars(&to_chars("Unknown")),
    };
    let from_meta = match regex_first_capture("publishedid\\s*=\\s*(\\d+)", meta) {
        Some(Some(c)) => parse_u64(&to_chars(c.as_str())),
        _ => None,
    };
    match from_meta {
        Some(id) => Some((name, id)),
        None => match parse_u64(&to_chars(dir_name)) {
            Some(id) => Some((name, id)),
            None => None,
        },
    }
}

// ------------------------------------------------------------ sizes

/// The spacing of `f64` values around `b`: 1 below 2^53, doubling with each
/// binary order of magnitude above.
pub open spec fn f64_spacing(b: nat) -> nat
    decreases b,
{
    if b < 0x20_0000_0000_0000 {
        1
    } else {
        2 * f64_spacing(b / 2)
    }
}

/// `b as f64` for a `u64`: the nearest multiple of the spacing, ties to
/// the even multiple.
pub open spec fn round_to_f64(b: nat) -> nat {
    let u = f64_spacing(b);
    let q = b / u;
    let r = b % u;
    if 2 * r > u || (2 * r == u && q % 2 == 1) {
        (q + 1) * u
    } else {
        q * u
    }
}

/// `n / 2^k` written with one decimal (`{:.1}`): the tenths rounded to
/// nearest, ties to even.
pub open spec fn one_decimal(n: nat, denom: nat) -> Seq<char> {
    let d = (10 * n) / denom;
    let r = (10 * n) % denom;
    let t = if 2 * r > denom || (2 * r == denom && d % 2 == 1) {
        d + 1
    } else {
        d
    };
    dec(t / 10) + seq!['.'] + dec(t % 10)
}

/// The size shown for a number of bytes: GB (2^30 bytes) or MB (2^20
/// bytes) with one decimal, else whole KB.
pub open spec fn format_size_spec(bytes: u64) -> Seq<char> {
    if bytes >= 0x4000_0000 {
        one_decimal(round_to_f64(bytes as nat), 0x4000_0000) + " GB"@
    } else if bytes >= 0x10_0000 {
        one_decimal(bytes as nat, 0x10_0000) + " MB"@
    } else {
        dec((bytes / 1024) as nat) + " KB"@
    }
}

proof fn lemma_spacing_bound(b: nat)
    ensures
        f64_spacing(b) >= 1,
        b >= 0x20_0000_0000_0000 ==> f64_spacing(b) <= b / 0x10_0000_0000_0000,
    decreases b,
{
    if b >= 0x20_0000_0000_0000 {
        lemma_spacing_bound(b / 2);
        assert(2 * ((b / 2) / 0x10_0000_0000_0000) <= b / 0x10_0000_0000_0000);
    }
}

fn spacing(b: u64) -> (r: u64)
    ensures
        r == f64_spacing(b as nat),
        1 <= r <= 0x1000,
{
    proof {
        lemma_spacing_bound(b as nat);
    }
    let mut x = b;
    let mut u: u64 = 1;
    while x >= 0x20_0000_0000_0000
        invariant
            1 <= u,
            u * f64_spacing(x as nat) == f64_spacing(b as nat),
            f64_spacing(b as nat) <= 0x1000,
        decreases x,
    {
        proof {
            lemma_spacing_bound(x as nat);
            lemma_spacing_bound((x / 2) as nat);
            let s = f64_spacing((x / 2) as nat);
            assert(f64_spacing(x as nat) == 2 * s);
            assert(u * (2 * s) == (2 * u) * s) by (nonlinear_arith);
            assert(2 * u <= 0x1000) by (nonlinear_arith)
                requires
                    (2 * u) * s <= 0x1000,
                    s >= 1,
                    u >= 1,
            ;
        }
        u = u * 2;
        x = x / 2;
    }
    assert(f64_spacing(x as nat) == 1);
    assert(u * f64_spacing(x as nat) == u) by (nonlinear_arith)
        requires
            f64_spacing(x as nat) == 1,
    ;
    u
}

fn one_decimal_text(n: u128, denom: u128) -> (r: Vec<char>)
    requires
        0x10_0000 <= denom <= 0x4000_0000,
        n < 0x1_0000_0000_0000_1000,
    ensures
        r@ == one_decimal(n as nat, denom as nat),
{
    let d = (10 * n) / denom;
    let rem = (10 * n) % denom;
    proof {
        let nn: int = 10 * n;
        let dd: int = denom as int;
        assert(nn / dd < 0x1_0000_0000_0000) by (nonlinear_arith)
            requires
                dd >= 0x10_0000,
                0 <= nn < 0x10_0000_0000_0000_0000,
        ;
    }
    let t = if 2 * rem > denom || (2 * rem == denom && d % 2 == 1) {
        d + 1
    } else {
        d
    };
    let mut v = u64_to_dec((t / 10) as u64);
    v.push('.');
    crate::text::push_all(&mut v, &u64_to_dec((t % 10) as u64));
    v
}

/// A size in bytes for display: `1.5 GB`, `12.0 MB`, `512 KB`.
pub fn format_size(bytes: u64) -> (r: String)
    ensures
        r@ == format_size_spec(bytes),
{
    let mut v: Vec<char>;
    if bytes >= 0x4000_0000 {
        let u = spacing(bytes);
        let q = bytes / u;
        let rem = bytes % u;
        proof {
            assert(q * u + rem == bytes) by (nonlinear_arith)
                requires
                    u >= 1,
                    q == bytes / u,
                    rem == bytes % u,
            ;
            assert((q + 1) * u < 0x1_0000_0000_0000_1000) by (nonlinear_arith)
                requires
                    q * u + rem == bytes,
                    rem >= 0,
                    u <= 0x1000,
                    bytes <= 0xffff_ffff_ffff_ffff,
            ;
        }
        let rounded: u128 = if 2 * rem > u || (2 * rem == u && q % 2 == 1) {
            (q as u128 + 1) * (u as u128)
        } else {
            (q as u128) * (u as u128)
        };
        v = one_decimal_text(rounded, 0x4000_0000);
        crate::text::push_str(&mut v, " GB");
    } else if bytes >= 0x10_0000 {
        v = one_decimal_text(bytes as u128, 0x10_0000);
        crate::text::push_str(&mut v, " MB");
    } else {
        v = u64_to_dec(bytes / 1024);
        crate::text::push_str(&mut v, " KB");
    }
    from_chars(&v)
}

// ------------------------------------------------------------ listing order

/// The order of texts (`str`'s): by code points, a prefix first.
pub open spec fn text_le(a: Seq<char>, b: Seq<char>) -> bool
    decreases a.len(),
{
    if a.len() == 0 {
        true
    } else if b.len() == 0 {
        false
    } else if a[0] != b[0] {
        a[0] < b[0]
    } else {
        text_le(a.drop_first(), b.drop_first())
    }
}

/// What installed mods are listed by: the lower-cased name.
pub open spec fn name_key(m: InstalledMod) -> Seq<char> {
    lowercase_result(m.name@)
}

/// A mod put into a list sorted by name: after every mod whose name does
/// not come after its own.
pub open spec fn insert_by_name(sorted: Seq<InstalledMod>, m: InstalledMod) -> Seq<InstalledMod>
    decreases sorted.len(),
{
    if sorted.len() == 0 {
        seq![m]
    } else if text_le(name_key(sorted.last()), name_key(m)) {
        sorted.push(m)
    } else {
        insert_by_name(sorted.drop_last(), m).push(sorted.last())
    }
}

/// The mods sorted by lower-cased name; mods of the same name keep their
/// order.
pub open spec fn sort_by_name(mods: Seq<InstalledMod>) -> Seq<InstalledMod>
    decreases mods.len(),
{
    if mods.len() == 0 {
        Seq::empty()
    } else {
        insert_by_name(sort_by_name(mods.drop_last()), mods.last())
    }
}

fn text_le_exec(a: &Vec<char>, b: &Vec<char>) -> (r: bool)
    ensures
        r == text_le(a@, b@),
{
    let mut i: usize = 0;
    assert(a@.skip(0) =~= a@);
    assert(b@.skip(0) =~= b@);
    while i < a.len() && i < b.len()
        invariant
            i <= a.len(),
            i <= b.len(),
            a@.subrange(0, i as int) == b@.subrange(0, i as int),
            text_le(a@, b@) == text_le(a@.skip(i as int), b@.skip(i as int)),
        decreases a.len() - i,
    {
        let x = a[i];
        let y = b[i];
        proof {
            assert(a@.skip(i as int)[0] == x);
            assert(b@.skip(i as int)[0] == y);
            assert(a@.skip(i as int).drop_first() =~= a@.skip(i + 1));
            assert(b@.skip(i as int).drop_first() =~= b@.skip(i + 1));
        }
        if x != y {
            return x < y;
        }
        assert(a@.subrange(0, i + 1) =~= a@.subrange(0, i as int).push(x));
        assert(b@.subrange(0, i + 1) =~= b@.subrange(0, i as int).push(y));
        i = i + 1;
    }
    i == a.len()
}

fn name_le(a: &InstalledMod, b: &InstalledMod) -> (r: bool)
    ensures
        r == text_le(name_key(*a), name_key(*b)),
{
    let ka = to_chars(to_lowercase(a.name.as_str()).as_str());
    let kb = to_chars(to_lowercase(b.name.as_str()).as_str());
    text_le_exec(&ka, &kb)
}

fn insert_sorted(sorted: &mut Vec<InstalledMod>, m: InstalledMod)
    ensures
        final(sorted)@ == insert_by_name(old(sorted)@, m),
    decreases old(sorted)@.len(),
{
    if sorted.len() == 0 {
        sorted.push(m);
        assert(sorted@ =~= seq![m]);
        return;
    }
    let n = sorted.len();
    if name_le(&sorted[n - 1], &m) {
        sorted.push(m);
        return;
    }
    let ghost before = sorted@;
    let last = sorted.pop().unwrap();
    assert(sorted@ =~= before.drop_last());
    insert_sorted(sorted, m);
    sorted.push(last);
}

/// The installed mods in listing order: by lower-cased name, mods of the
/// same name in the order found.
pub fn sort_mods_by_name(mods: Vec<InstalledMod>) -> (r: Vec<InstalledMod>)
    ensures
        r@ == sort_by_name(mods@),
{
    let ghost orig = mods@;
    let mut rest = mods;
    let mut out: Vec<InstalledMod> = Vec::new();
    while rest.len() > 0
        invariant
            rest@.len() <= orig.len(),
            rest@ == orig.subrange(orig.len() - rest@.len(), orig.len() as int),
            out@ == sort_by_name(orig.subrange(0, orig.len() - rest@.len())),
        decreases rest.len(),
    {
        let ghost k = orig.len() - rest@.len();
        let m = rest.remove(0);
        proof {
            assert(m == orig[k]);
            let t = orig.subrange(0, k + 1);
            assert(t.drop_last() =~= orig.subrange(0, k));
            assert(t.last() == orig[k]);
            assert(rest@ =~= orig.subrange(k + 1, orig.len() as int));
        }
        insert_sorted(&mut out, m);
    }
    assert(orig.subrange(0, orig.len() as int) =~= orig);
    out
}

proof fn lemma_text_le_total(a: Seq<char>, b: Seq<char>)
    ensures
        text_le(a, b) || text_le(b, a),
    decreases a.len(),
{
    if a.len() > 0 && b.len() > 0 {
        if a[0] == b[0] {
            lemma_text_le_total(a.drop_first(), b.drop_first());
        }
    }
}

proof fn lemma_text_le_trans(a: Seq<char>, b: Seq<char>, c: Seq<char>)
    requires
        text_le(a, b),
        text_le(b, c),
    ensures
        text_le(a, c),
    decreases a.len(),
{
    if a.len() > 0 && b.len() > 0 && c.len() > 0 && a[0] == b[0] && b[0] == c[0] {
        lemma_text_le_trans(a.drop_first(), b.drop_first(), c.drop_first());
    }
}

/// Mods listed with names in order.
pub open spec fn sorted_by_name(s: Seq<InstalledMod>) -> bool {
    forall|i: int, j: int| 0 <= i < j < s.len() ==> text_le(name_key(#[trigger] s[i]), name_key(#[trigger] s[j]))
}

proof fn lemma_insert_by_name(s: Seq<InstalledMod>, m: InstalledMod)
    requires
        sorted_by_name(s),
    ensures
        sorted_by_name(insert_by_name(s, m)),
        insert_by_name(s, m).to_multiset() =~= s.to_multiset().insert(m),
    decreases s.len(),
{
    vstd::seq_lib::lemma_multiset_commutative(s, seq![m]);
    if s.len() == 0 {
        assert(insert_by_name(s, m) =~= seq![m]);
        vstd::seq_lib::lemma_multiset_commutative(Seq::<InstalledMod>::empty(), seq![m]);
        assert(seq![m].to_multiset() =~= Seq::<InstalledMod>::empty().to_multiset().insert(m)) by {
            broadcast use vstd::seq_lib::group_to_multiset_ensures;
        }
    } else {
        let last = s.last();
        let t = s.drop_last();
        assert(s =~= t.push(last));
        if text_le(name_key(last), name_key(m)) {
            let r = s.push(m);
            assert forall|i: int, j: int| 0 <= i < j < r.len() implies text_le(
                name_key(#[trigger] r[i]),
                name_key(#[trigger] r[j]),
            ) by {
                if j < s.len() {
                    assert(r[i] == s[i] && r[j] == s[j]);
                } else if i < s.len() - 1 {
                    assert(text_le(name_key(s[i]), name_key(s[s.len() - 1])));
                    lemma_text_le_trans(name_key(s[i]), name_key(last), name_key(m));
                }
            }
            assert(r.to_multiset() =~= s.to_multiset().insert(m)) by {
                broadcast use vstd::seq_lib::group_to_multiset_ensures;
            }
        } else {
            assert(sorted_by_name(t)) by {
                assert forall|i: int, j: int| 0 <= i < j < t.len() implies text_le(
                    name_key(#[trigger] t[i]),
                    name_key(#[trigger] t[j]),
                ) by {
                    assert(t[i] == s[i] && t[j] == s[j]);
                }
            }
            lemma_insert_by_name(t, m);
            let u = insert_by_name(t, m);
            let r = u.push(last);
            lemma_text_le_total(name_key(last), name_key(m));
            assert forall|k: int| 0 <= k < u.len() implies text_le(name_key(#[trigger] u[k]), name_key(last)) by {
                assert(u.to_multiset().count(u[k]) > 0) by {
                    broadcast use vstd::seq_lib::group_to_multiset_ensures;
                    assert(u.contains(u[k]));
                }
                if u[k] == m {
                } else {
                    assert(t.to_multiset().count(u[k]) > 0);
                    assert(t.contains(u[k])) by {
                        broadcast use vstd::seq_lib::group_to_multiset_ensures;
                    }
                    let a = choose|a: int| 0 <= a < t.len() && t[a] == u[k];
                    assert(s[a] == u[k]);
                    assert(text_le(name_key(s[a]), name_key(s[s.len() - 1])));
                }
            }
            assert forall|i: int, j: int| 0 <= i < j < r.len() implies text_le(
                name_key(#[trigger] r[i]),
                name_key(#[trigger] r[j]),
            ) by {
                if j < u.len() {
                    assert(r[i] == u[i] && r[j] == u[j]);
                } else {
                    assert(r[i] == u[i]);
                }
            }
            assert(r.to_multiset() =~= u.to_multiset().insert(last)) by {
                broadcast use vstd::seq_lib::group_to_multiset_ensures;
            }
            assert(s.to_multiset() =~= t.to_multiset().insert(last)) by {
                broadcast use vstd::seq_lib::group_to_multiset_ensures;
            }
        }
    }
}

/// The listing order of installed mods: names in order, and the same mods
/// as found, each as often.
pub proof fn lemma_sort_by_name(mods: Seq<InstalledMod>)
    ensures
        sorted_by_name(sort_by_name(mods)),
        sort_by_name(mods).to_multiset() =~= mods.to_multiset(),
    decreases mods.len(),
{
    if mods.len() == 0 {
        assert(sort_by_name(mods).to_multiset() =~= mods.to_multiset()) by {
            broadcast use vstd::seq_lib::group_to_multiset_ensures;
        }
    } else {
        let t = mods.drop_last();
        lemma_sort_by_name(t);
        lemma_insert_by_name(sort_by_name(t), mods.last());
        assert(mods =~= t.push(mods.last()));
        assert(mods.to_multiset() =~= t.to_multiset().insert(mods.last())) by {
            broadcast use vstd::seq_lib::group_to_multiset_ensures;
        }
    }
}

} // verus!
