//! Small rules of the desktop interface: ping targets, image cache names
//! and de-duplicated server lists.

use vstd::prelude::*;
use crate::api::Server;
use std::hash::{Hash, Hasher};
use crate::text::{
    ascii_lower_text, chars_eq, first_index, first_index_of, from_chars, last_index,
    last_index_of, lowercase_result, parse_i64, parse_i64_spec, push_all, slice_chars, str_eq,
    to_chars, to_lowercase,
};

verus! {

/// What a ping target `ip:port` names: the text before the last `:` and
/// the `i64` after it.
pub open spec fn target_spec(t: Seq<char>) -> Option<(Seq<char>, i64)> {
    match last_index_of(t, ':') {
        Some(i) => match parse_i64_spec(t.subrange(i + 1, t.len() as int)) {
            Some(p) => Some((t.subrange(0, i), p as i64)),
            None => None,
        },
        None => None,
    }
}

/// Splits a ping target `ip:port` at its last `:`; `None` when there is
/// no `:` or the port is no `i64`.
pub fn parse_target(target: &str) -> (r: Option<(String, i64)>)
    ensures
        match target_spec(target@) {
            Some(p) => r matches Some(q) && q.0@ == p.0 && q.1 == p.1,
            None => r is None,
        },
{
    let t = to_chars(target);
    match last_index(&t, ':') {
        Some(i) => {
            let port_text = slice_chars(&t, i + 1, t.len());
            match parse_i64(&port_text) {
                Some(p) => Some((from_chars(&slice_chars(&t, 0, i)), p)),
                None => None,
            }
        },
        None => None,
    }
}

// ------------------------------------------------------------ image cache

/// What `std`'s `DefaultHasher::new()` gives for a URL after hashing it.
/// Every hasher made by `new` is documented to be the same, so equal URLs
/// hash alike; the algorithm itself is left open by `std`.
pub uninterp spec fn url_hash_result(url: Seq<char>) -> u64;

/// Hashes a URL with `std`'s `DefaultHasher` (`new`, `str::hash`,
/// `finish`); the value is the one named by `url_hash_result`.
#[verifier::external_body]
fn url_hash(url: &str) -> (r: u64)
    ensures
        r == url_hash_result(url@),
{
    let mut h = std::collections::hash_map::DefaultHasher::new();
    url.hash(&mut h);
    h.finish()
}

/// The last `n` lower-case hex digits of `h`, zero-padded.
pub open spec fn hex_digits(h: nat, n: nat) -> Seq<char>
    decreases n,
{
    if n == 0 {
        Seq::empty()
    } else {
        hex_digits(h / 16, (n - 1) as nat).push(crate::text::hex_lower(h % 16))
    }
}

/// The part of `s` after its last `c`, or all of it.
pub open spec fn after_last(s: Seq<char>, c: char) -> Seq<char> {
    match last_index_of(s, c) {
        Some(i) => s.subrange(i + 1, s.len() as int),
        None => s,
    }
}

/// The part of `s` before its first `c`, or all of it.
pub open spec fn before_first(s: Seq<char>, c: char) -> Seq<char> {
    match first_index_of(s, c) {
        Some(i) => s.subrange(0, i),
        None => s,
    }
}

/// Whether an extension is one of the cached image types.
pub open spec fn is_image_ext(e: Seq<char>) -> bool {
    e == "jpg"@ || e == "jpeg"@ || e == "png"@ || e == "gif"@ || e == "webp"@ || e == "svg"@
        || e == "avif"@
}

/// The extension of a cached image: that of the URL's last path segment
/// (query dropped), lower-cased, when it is an image type, else `jpg`.
pub open spec fn cache_ext(url: Seq<char>) -> Seq<char> {
    let e = lowercase_result(after_last(before_first(after_last(url, '/'), '?'), '.'));
    if is_image_ext(e) {
        e
    } else {
        "jpg"@
    }
}

/// The file name of a cached image: the URL's hash in 16 hex digits, then
/// the extension.
pub open spec fn cache_filename_spec(hash: u64, url: Seq<char>) -> Seq<char> {
    hex_digits(hash as nat, 16) + seq!['.'] + cache_ext(url)
}

fn after_last_of(s: &Vec<char>, c: char) -> (r: Vec<char>)
    ensures
        r@ == after_last(s@, c),
{
    match last_index(s, c) {
        Some(i) => slice_chars(s, i + 1, s.len()),
        None => slice_chars(s, 0, s.len()),
    }
}

pub(crate) fn before_first_of(s: &Vec<char>, c: char) -> (r: Vec<char>)
    ensures
        r@ == before_first(s@, c),
{
    match first_index(s, c) {
        Some(i) => slice_chars(s, 0, i),
        None => slice_chars(s, 0, s.len()),
    }
}

/// The cache file name for a URL whose hash is `hash`.
pub fn cache_filename(hash: u64, url: &str) -> (r: String)
    ensures
        r@ == cache_filename_spec(hash, url@),
{
    let u = to_chars(url);
    proof {
        assert(u@.subrange(0, u@.len() as int) =~= u@);
    }
    let seg = after_last_of(&u, '/');
    let seg = before_first_of(&seg, '?');
    let ext = after_last_of(&seg, '.');
    let e = to_lowercase(from_chars(&ext).as_str());
    let es = e.as_str();
    let ok = str_eq(es, "jpg") || str_eq(es, "jpeg") || str_eq(es, "png") || str_eq(es, "gif")
        || str_eq(es, "webp") || str_eq(es, "svg") || str_eq(es, "avif");
    let mut digits: Vec<char> = Vec::new();
    let mut h = hash;
    let mut k: usize = 0;
    proof {
        assert(pow16(0) == 1);
        assert((hash as nat) / 1 == hash as nat);
        assert(hex_tail(hash as nat, 0) =~= Seq::<char>::empty());
    }
    while k < 16
        invariant
            k <= 16,
            h as nat == (hash as nat) / pow16(k as nat),
            digits@ == hex_tail(hash as nat, k as nat),
        decreases 16 - k,
    {
        let d = (h % 16) as u8;
        let c = if d < 10 {
            (48 + d) as char
        } else {
            (87 + d) as char
        };
        proof {
            lemma_pow16_step(hash as nat, k as nat);
        }
        digits.insert(0, c);
        h = h / 16;
        k = k + 1;
    }
    proof {
        lemma_hex_tail(hash as nat, 16);
    }
    let mut v = digits;
    v.push('.');
    if ok {
        push_all(&mut v, &to_chars(es));
    } else {
        push_all(&mut v, &to_chars("jpg"));
    }
    from_chars(&v)
}

/// `16^k`.
pub open spec fn pow16(k: nat) -> nat
    decreases k,
{
    if k == 0 {
        1
    } else {
        16 * pow16((k - 1) as nat)
    }
}

/// The last `k` hex digits of `h`, most significant first.
pub open spec fn hex_tail(h: nat, k: nat) -> Seq<char>
    decreases k,
{
    if k == 0 {
        Seq::empty()
    } else {
        hex_tail(h, (k - 1) as nat).insert(0, crate::text::hex_lower((h / pow16((k - 1) as nat)) % 16))
    }
}

proof fn lemma_pow16_step(h: nat, k: nat)
    ensures
        pow16(k) >= 1,
        (h / pow16(k)) / 16 == h / pow16(k + 1),
{
    lemma_pow16_pos(k);
    vstd::arithmetic::div_mod::lemma_div_denominator(h as int, pow16(k) as int, 16);
    assert(pow16(k + 1) == 16 * pow16(k));
    assert(pow16(k) * 16 == 16 * pow16(k)) by (nonlinear_arith);
}

proof fn lemma_pow16_pos(k: nat)
    ensures
        pow16(k) >= 1,
    decreases k,
{
    if k > 0 {
        lemma_pow16_pos((k - 1) as nat);
    }
}

proof fn lemma_hex_tail(h: nat, k: nat)
    ensures
        hex_tail(h, k) == hex_digits(h, k),
    decreases k,
{
    if k > 0 {
        lemma_hex_tail(h / 16, (k - 1) as nat);
        lemma_hex_tail_shift(h, (k - 1) as nat);
    } else {
        assert(hex_tail(h, 0) =~= hex_digits(h, 0));
    }
}

proof fn lemma_hex_tail_shift(h: nat, k: nat)
    ensures
        hex_tail(h, k + 1) == hex_tail(h / 16, k).push(crate::text::hex_lower(h % 16)),
    decreases k,
{
    lemma_pow16_pos(k);
    if k == 0 {
        assert(pow16(0) == 1);
        assert(h / 1 == h);
        assert(hex_tail(h, 0) =~= Seq::<char>::empty());
        assert(hex_tail(h, 1) == hex_tail(h, 0).insert(0, crate::text::hex_lower((h / pow16(0)) % 16)));
        assert(hex_tail(h, 1) =~= seq![crate::text::hex_lower(h % 16)]);
        assert(hex_tail(h / 16, 0).push(crate::text::hex_lower(h % 16)) =~= seq![
            crate::text::hex_lower(h % 16),
        ]);
    } else {
        lemma_hex_tail_shift(h, (k - 1) as nat);
        lemma_pow16_step(h, (k - 1) as nat);
        lemma_div16_pow(h, k);
        assert(hex_tail(h, k + 1) =~= hex_tail(h / 16, k).push(crate::text::hex_lower(h % 16)));
    }
}

proof fn lemma_div16_pow(h: nat, k: nat)
    requires
        k >= 1,
    ensures
        (h / 16) / pow16((k - 1) as nat) == h / pow16(k),
{
    lemma_pow16_pos((k - 1) as nat);
    vstd::arithmetic::div_mod::lemma_div_denominator(h as int, 16, pow16((k - 1) as nat) as int);
    assert(16 * pow16((k - 1) as nat) == pow16(k));
}

/// Turns a URL into a deterministic, file-system-safe file name: its hash in
/// hex and its image extension.
pub fn url_to_cache_filename(url: &str) -> (r: String)
    ensures
        r@ == cache_filename_spec(url_hash_result(url@), url@),
{
    let h = url_hash(url);
    cache_filename(h, url)
}

// ------------------------------------------------------------ server lists

/// The servers whose query endpoint (IP and port) did not occur earlier, in
/// order.
pub open spec fn dedup_spec(servers: Seq<Server>) -> Seq<Server>
    decreases servers.len(),
{
    if servers.len() == 0 {
        Seq::empty()
    } else {
        let p = dedup_spec(servers.drop_last());
        let s = servers.last();
        if exists|j: int|
            0 <= j < servers.len() - 1 && (#[trigger] servers[j]).endpoint.ip@ == s.endpoint.ip@
                && servers[j].endpoint.port == s.endpoint.port {
            p
        } else {
            p.push(s)
        }
    }
}

/// Two servers answer on the same query endpoint.
pub open spec fn same_endpoint(a: Server, b: Server) -> bool {
    a.endpoint.ip@ == b.endpoint.ip@ && a.endpoint.port == b.endpoint.port
}

/// De-duplicating keeps only servers of the list.
pub proof fn lemma_dedup_members(servers: Seq<Server>)
    ensures
        forall|i: int| 0 <= i < dedup_spec(servers).len() ==> servers.contains(#[trigger] dedup_spec(servers)[i]),
    decreases servers.len(),
{
    if servers.len() > 0 {
        let pre = servers.drop_last();
        lemma_dedup_members(pre);
        let p = dedup_spec(pre);
        let r = dedup_spec(servers);
        assert forall|i: int| 0 <= i < r.len() implies servers.contains(#[trigger] r[i]) by {
            if i < p.len() {
                assert(r[i] == p[i]);
                assert(pre.contains(p[i]));
                let k = choose|k: int| 0 <= k < pre.len() && pre[k] == p[i];
                assert(servers[k] == pre[k]);
            } else {
                assert(r[i] == servers.last());
                assert(servers[servers.len() - 1] == servers.last());
            }
        }
    }
}

/// De-duplicating keeps a server for every endpoint of the list.
pub proof fn lemma_dedup_covers(servers: Seq<Server>)
    ensures
        forall|k: int|
            0 <= k < servers.len() ==> exists|i: int|
                0 <= i < dedup_spec(servers).len() && same_endpoint(#[trigger] dedup_spec(servers)[i], #[trigger] servers[k]),
    decreases servers.len(),
{
    if servers.len() > 0 {
        let pre = servers.drop_last();
        let s = servers.last();
        lemma_dedup_covers(pre);
        let p = dedup_spec(pre);
        let r = dedup_spec(servers);
        assert(r.len() >= p.len());
        assert forall|i: int| 0 <= i < p.len() implies #[trigger] r[i] == p[i] by {}
        assert forall|k: int| 0 <= k < servers.len() implies exists|i: int|
            0 <= i < r.len() && same_endpoint(#[trigger] r[i], #[trigger] servers[k]) by {
            if k < pre.len() {
                assert(pre[k] == servers[k]);
                let i = choose|i: int| 0 <= i < p.len() && same_endpoint(#[trigger] p[i], #[trigger] pre[k]);
                assert(r[i] == p[i]);
            } else if exists|j: int|
                0 <= j < servers.len() - 1 && (#[trigger] servers[j]).endpoint.ip@ == s.endpoint.ip@
                    && servers[j].endpoint.port == s.endpoint.port {
                let j = choose|j: int|
                    0 <= j < servers.len() - 1 && (#[trigger] servers[j]).endpoint.ip@ == s.endpoint.ip@
                        && servers[j].endpoint.port == s.endpoint.port;
                assert(pre[j] == servers[j]);
                let i = choose|i: int| 0 <= i < p.len() && same_endpoint(#[trigger] p[i], #[trigger] pre[j]);
                assert(r[i] == p[i]);
                assert(same_endpoint(r[i], servers[k]));
            } else {
                assert(r == p.push(s));
                assert(r[p.len() as int] == s);
                assert(same_endpoint(r[p.len() as int], servers[k]));
            }
        }
    }
}

/// De-duplicating leaves no two servers on one endpoint.
#[verifier::spinoff_prover]
pub proof fn lemma_dedup_distinct(servers: Seq<Server>)
    ensures
        forall|i: int, j: int|
            0 <= i < j < dedup_spec(servers).len() ==> !same_endpoint(
                #[trigger] dedup_spec(servers)[i],
                #[trigger] dedup_spec(servers)[j],
            ),
    decreases servers.len(),
{
    if servers.len() > 0 {
        let pre = servers.drop_last();
        let s = servers.last();
        lemma_dedup_distinct(pre);
        lemma_dedup_members(pre);
        let p = dedup_spec(pre);
        let r = dedup_spec(servers);
        if exists|j: int|
            0 <= j < servers.len() - 1 && (#[trigger] servers[j]).endpoint.ip@ == s.endpoint.ip@
                && servers[j].endpoint.port == s.endpoint.port {
            assert(r == p);
        } else {
            assert(r == p.push(s));
            assert forall|i: int, j: int| 0 <= i < j < r.len() implies !same_endpoint(#[trigger] r[i], #[trigger] r[j]) by {
                if j == p.len() {
                    assert(r[i] == p[i]);
                    assert(r[j] == s);
                    assert(pre.contains(p[i]));
                    let k = choose|k: int| 0 <= k < pre.len() && pre[k] == p[i];
                    assert(servers[k] == pre[k]);
                } else {
                    assert(r[i] == p[i] && r[j] == p[j]);
                }
            }
        }
    }
}

/// De-duplicates a server list by query endpoint, keeping the first
/// occurrence.
pub fn dedup_servers(servers: Vec<Server>) -> (r: Vec<Server>)
    ensures
        r@ == dedup_spec(servers@),
{
    let ghost orig = servers@;
    let mut rest = servers;
    let mut reversed: Vec<Server> = Vec::new();
    while rest.len() > 0
        invariant
            orig == rest@ + reversed@.reverse(),
        decreases rest.len(),
    {
        let ghost before_rest = rest@;
        let ghost before_rev = reversed@;
        let s = rest.pop().unwrap();
        reversed.push(s);
        proof {
            assert(before_rest =~= rest@.push(s));
            assert(reversed@.reverse() =~= seq![s] + before_rev.reverse());
            assert(rest@ + reversed@.reverse() =~= before_rest + before_rev.reverse());
        }
    }
    assert(orig =~= reversed@.reverse());
    let total: usize = reversed.len();
    let mut out: Vec<Server> = Vec::new();
    let mut keys: Vec<(String, i64)> = Vec::new();
    let mut k: usize = 0;
    while reversed.len() > 0
        invariant
            orig.len() == total,
            k + reversed@.len() == orig.len(),
            orig.subrange(k as int, orig.len() as int) == reversed@.reverse(),
            out@ == dedup_spec(orig.subrange(0, k as int)),
            keys@.len() == k,
            forall|j: int|
                0 <= j < k ==> (#[trigger] keys@[j]).0@ == orig[j].endpoint.ip@ && keys@[j].1
                    == orig[j].endpoint.port,
        decreases reversed.len(),
    {
        let ghost before = reversed@;
        let s = reversed.pop().unwrap();
        proof {
            assert(before =~= reversed@.push(s));
            assert(orig[k as int] == before.reverse()[0]);
            assert(before.reverse()[0] == s);
            assert(reversed@.reverse() =~= before.reverse().drop_first());
            assert(orig.subrange(k + 1, orig.len() as int) =~= orig.subrange(
                k as int,
                orig.len() as int,
            ).drop_first());
            let pre = orig.subrange(0, k + 1);
            assert(pre.drop_last() =~= orig.subrange(0, k as int));
            assert(pre.last() == s);
        }
        let mut seen = false;
        let mut j: usize = 0;
        while j < keys.len()
            invariant
                j <= keys.len(),
                keys@.len() == k,
                k < orig.len(),
                orig[k as int] == s,
                forall|i: int|
                    0 <= i < k ==> (#[trigger] keys@[i]).0@ == orig[i].endpoint.ip@ && keys@[i].1
                        == orig[i].endpoint.port,
                seen == exists|i: int|
                    0 <= i < j && (#[trigger] orig[i]).endpoint.ip@ == s.endpoint.ip@
                        && orig[i].endpoint.port == s.endpoint.port,
            decreases keys.len() - j,
        {
            if keys[j].1 == s.endpoint.port && str_eq(keys[j].0.as_str(), s.endpoint.ip.as_str()) {
                seen = true;
            }
            j = j + 1;
        }
        proof {
            let pre = orig.subrange(0, k + 1);
            assert forall|i: int| 0 <= i < k implies #[trigger] pre[i] == orig[i] by {}
            if seen {
                let w = choose|i: int|
                    0 <= i < k && (#[trigger] orig[i]).endpoint.ip@ == s.endpoint.ip@
                        && orig[i].endpoint.port == s.endpoint.port;
                assert(pre[w] == orig[w]);
            } else {
                assert forall|i: int| 0 <= i < pre.len() - 1 implies !((#[trigger] pre[i]).endpoint.ip@
                    == s.endpoint.ip@ && pre[i].endpoint.port == s.endpoint.port) by {
                    assert(pre[i] == orig[i]);
                }
            }
        }
        let key = (from_chars(&to_chars(s.endpoint.ip.as_str())), s.endpoint.port);
        keys.push(key);
        if !seen {
            out.push(s);
        }
        k = k + 1;
    }
    assert(orig.subrange(0, orig.len() as int) =~= orig);
    out
}

} // verus!
