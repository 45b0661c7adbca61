//! `.dzch` server connection links.
//!
//! A `.dzch` connection describes everything needed to connect to a DayZ
//! server: address, port, optional password and the list of required
//! Workshop mods.  The same structure is encoded into a `dzch://` URL for
//! one-click connect links:
//! `dzch://<ip>:<port>[?password=<pw>&mods=<id1>,<id2>&name=<n>]`.

use vstd::prelude::*;
use crate::error::Error;
use crate::text::{
    chars_eq, dec, dec_int, first_index, first_index_of, from_chars, i64_to_dec, join, join_chars,
    last_index, last_index_of, opt_string_view, parse_i64, parse_i64_spec, parse_u16,
    parse_unsigned, push_all, push_str, slice_chars, split, split_chars, starts_with,
    starts_with_chars, to_chars, trim, trim_chars, trim_end_char, trim_end_char_chars, u64_to_dec,
    views,
};
use crate::text::{
    is_digit, lacks, lemma_dec, lemma_dec_int, lemma_first_index_of, lemma_first_index_of_none,
    lemma_join_ascii, lemma_join_lacks, lemma_last_index_of, lemma_parse_dec, lemma_parse_dec_int,
    lemma_split_join, lemma_trim_unchanged,
};
use crate::urlcodec::{
    lemma_url_decode_encode, lemma_url_decode_plain, lemma_url_encode_lacks, url_decode,
    url_decode_spec, url_encode, url_encode_spec,
};

verus! {

/// Current file-format version.
pub const DZCH_VERSION: u8 = 1;

/// The game port of a link that names none.
pub const DEFAULT_GAME_PORT: u16 = 2302;

/// A mod entry of a connection.
#[derive(Debug)]
pub struct DzchMod {
    pub id: i64,
    pub name: String,
}

/// A server connection.
#[derive(Debug)]
pub struct DzchConfig {
    /// Format version (currently 1).
    pub version: u8,
    /// Server IP or hostname.
    pub ip: String,
    /// Game port, used to connect.
    pub port: u16,
    /// Query port (A2S), used to fetch live server info.
    pub query_port: Option<u16>,
    /// Server display name (informational).
    pub name: String,
    /// Connection password (empty or absent: no password).
    pub password: Option<String>,
    /// Required Workshop mods.
    pub mods: Vec<DzchMod>,
}

/// The ids of the mods, in order.
pub open spec fn dzch_ids(mods: Seq<DzchMod>) -> Seq<i64> {
    mods.map_values(|m: DzchMod| m.id)
}

/// The ids in decimal.
pub open spec fn id_texts(ids: Seq<i64>) -> Seq<Seq<char>> {
    ids.map_values(|id: i64| dec_int(id as int))
}

/// The `key=value` parameters of a connection's link, in order: query
/// port, name, password (when not empty), mod ids.
#[verifier::opaque]
pub open spec fn url_params(c: DzchConfig) -> Seq<Seq<char>> {
    let p1 = match c.query_port {
        Some(q) => seq!["qport="@ + dec(q as nat)],
        None => Seq::empty(),
    };
    let p2 = if c.name@.len() > 0 {
        p1.push("name="@ + url_encode_spec(c.name@))
    } else {
        p1
    };
    let p3 = match c.password {
        Some(pw) => if pw@.len() > 0 {
            p2.push("password="@ + url_encode_spec(pw@))
        } else {
            p2
        },
        None => p2,
    };
    if c.mods@.len() > 0 {
        p3.push("mods="@ + join(id_texts(dzch_ids(c.mods@)), ','))
    } else {
        p3
    }
}

/// The `dzch://` link of a connection.
pub open spec fn to_url_spec(c: DzchConfig) -> Seq<char> {
    let base = "dzch://"@ + c.ip@ + seq![':'] + dec(c.port as nat);
    let ps = url_params(c);
    if ps.len() == 0 {
        base
    } else {
        base + seq!['?'] + join(ps, '&')
    }
}

/// The parameters of a link read so far.
pub struct LinkParams {
    pub password: Option<Seq<char>>,
    pub mods: Seq<i64>,
    pub name: Seq<char>,
    pub query_port: Option<u16>,
}

/// No parameter read.
pub open spec fn no_params() -> LinkParams {
    LinkParams { password: None, mods: Seq::empty(), name: Seq::empty(), query_port: None }
}

/// A query value, decoded where it decodes to text.
pub open spec fn decoded_or_raw(raw: Seq<char>) -> Seq<char> {
    match url_decode_spec(raw) {
        Some(d) => d,
        None => raw,
    }
}

/// The ids that the pieces hold once trimmed; pieces that are no `i64` are
/// skipped.
pub open spec fn parsed_ids(pieces: Seq<Seq<char>>) -> Seq<i64>
    decreases pieces.len(),
{
    if pieces.len() == 0 {
        Seq::empty()
    } else {
        let p = parsed_ids(pieces.drop_last());
        match parse_i64_spec(trim(pieces.last())) {
            Some(v) => p.push(v as i64),
            None => p,
        }
    }
}

/// A port number as read from text.
pub open spec fn port_of(o: Option<nat>) -> Option<u16> {
    match o {
        Some(v) => Some(v as u16),
        None => None,
    }
}

/// One query pair applied to the parameters read so far.  A pair without
/// `=` and an unknown key change nothing; `mods` adds to the list.
pub open spec fn param_step(st: LinkParams, pair: Seq<char>) -> LinkParams {
    match first_index_of(pair, '=') {
        None => st,
        Some(i) => {
            let key = pair.subrange(0, i);
            let val = decoded_or_raw(pair.subrange(i + 1, pair.len() as int));
            if key == "password"@ || key == "pw"@ {
                LinkParams { password: Some(val), ..st }
            } else if key == "name"@ {
                LinkParams { name: val, ..st }
            } else if key == "qport"@ || key == "query_port"@ {
                LinkParams { query_port: port_of(parse_unsigned(val, 10, 65535)), ..st }
            } else if key == "mods"@ {
                LinkParams { mods: st.mods + parsed_ids(split(val, ',')), ..st }
            } else {
                st
            }
        },
    }
}

/// The parameters that a sequence of query pairs sets.
pub open spec fn params_of(pairs: Seq<Seq<char>>) -> LinkParams
    decreases pairs.len(),
{
    if pairs.len() == 0 {
        no_params()
    } else {
        param_step(params_of(pairs.drop_last()), pairs.last())
    }
}

/// What a link reads as: address, game port and parameters, or the message
/// of the error.
pub open spec fn parse_link(url: Seq<char>) -> Result<(Seq<char>, u16, LinkParams), Seq<char>> {
    let prefix = "dzch://"@;
    if !starts_with(url, prefix) {
        Err("not a dzch:// URL"@)
    } else {
        let rest = url.subrange(prefix.len() as int, url.len() as int);
        let authority = match first_index_of(rest, '?') {
            Some(i) => rest.subrange(0, i),
            None => rest,
        };
        let query = match first_index_of(rest, '?') {
            Some(i) => rest.subrange(i + 1, rest.len() as int),
            None => Seq::empty(),
        };
        let auth = trim_end_char(authority, '/');
        let params = params_of(split(query, '&'));
        match last_index_of(auth, ':') {
            Some(i) => {
                let port_text = auth.subrange(i + 1, auth.len() as int);
                match parse_unsigned(port_text, 10, 65535) {
                    Some(p) => Ok((auth.subrange(0, i), p as u16, params)),
                    None => Err("invalid port in dzch URL: "@ + port_text),
                }
            },
            None => Ok((auth, DEFAULT_GAME_PORT, params)),
        }
    }
}

/// `c` is the connection that a link with address `ip`, port `port` and
/// parameters `p` describes.
pub open spec fn link_config(c: DzchConfig, ip: Seq<char>, port: u16, p: LinkParams) -> bool {
    &&& c.version == DZCH_VERSION
    &&& c.ip@ == ip
    &&& c.port == port
    &&& c.query_port == p.query_port
    &&& c.name@ == p.name
    &&& opt_string_view(c.password) == p.password
    &&& dzch_ids(c.mods@) == p.mods
    &&& forall|i: int| 0 <= i < c.mods@.len() ==> (#[trigger] c.mods@[i]).name@.len() == 0
}

/// Query parameters being read.
struct ParamValues {
    password: Option<Vec<char>>,
    mods: Vec<i64>,
    name: Vec<char>,
    query_port: Option<u16>,
}

impl ParamValues {
    spec fn view(&self) -> LinkParams {
        LinkParams {
            password: match self.password {
                Some(v) => Some(v@),
                None => None,
            },
            mods: self.mods@,
            name: self.name@,
            query_port: self.query_port,
        }
    }
}

fn copy_chars(v: &Vec<char>) -> (r: Vec<char>)
    ensures
        r@ == v@,
{
    slice_chars(v, 0, v.len())
}

fn decode_value(raw: &Vec<char>) -> (r: Vec<char>)
    ensures
        r@ == decoded_or_raw(raw@),
{
    let s = from_chars(raw);
    match url_decode(s.as_str()) {
        Some(t) => to_chars(t.as_str()),
        None => copy_chars(raw),
    }
}

fn add_ids(ids: &mut Vec<i64>, val: &Vec<char>)
    ensures
        final(ids)@ == old(ids)@ + parsed_ids(split(val@, ',')),
{
    let pieces = split_chars(val, ',');
    let ghost start = ids@;
    assert(views(pieces@) =~= split(val@, ','));
    let mut k: usize = 0;
    while k < pieces.len()
        invariant
            k <= pieces.len(),
            views(pieces@) == split(val@, ','),
            ids@ == start + parsed_ids(views(pieces@).subrange(0, k as int)),
        decreases pieces.len() - k,
    {
        proof {
            let s = views(pieces@).subrange(0, k + 1);
            assert(s.drop_last() =~= views(pieces@).subrange(0, k as int));
            assert(s.last() == pieces@[k as int]@);
        }
        let t = trim_chars(&pieces[k]);
        match parse_i64(&t) {
            Some(v) => {
                ids.push(v);
            },
            None => {},
        }
        k = k + 1;
    }
    assert(views(pieces@).subrange(0, pieces@.len() as int) =~= views(pieces@));
}

fn apply_pair(st: &mut ParamValues, pair: &Vec<char>)
    ensures
        final(st).view() == param_step(old(st).view(), pair@),
{
    let eq = first_index(pair, '=');
    let i = match eq {
        None => return ,
        Some(i) => i,
    };
    let key = slice_chars(pair, 0, i);
    let raw = slice_chars(pair, i + 1, pair.len());
    let val = decode_value(&raw);
    if chars_eq(&key, &to_chars("password")) || chars_eq(&key, &to_chars("pw")) {
        st.password = Some(val);
    } else if chars_eq(&key, &to_chars("name")) {
        st.name = val;
    } else if chars_eq(&key, &to_chars("qport")) || chars_eq(&key, &to_chars("query_port")) {
        st.query_port = parse_u16(&val);
    } else if chars_eq(&key, &to_chars("mods")) {
        add_ids(&mut st.mods, &val);
    }
}

fn read_params(query: &Vec<char>) -> (r: ParamValues)
    ensures
        r.view() == params_of(split(query@, '&')),
{
    let pairs = split_chars(query, '&');
    assert(views(pairs@) =~= split(query@, '&'));
    let mut st = ParamValues {
        password: None,
        mods: Vec::new(),
        name: Vec::new(),
        query_port: None,
    };
    assert(views(pairs@).subrange(0, 0) =~= Seq::<Seq<char>>::empty());
    let mut k: usize = 0;
    while k < pairs.len()
        invariant
            k <= pairs.len(),
            views(pairs@) == split(query@, '&'),
            st.view() == params_of(views(pairs@).subrange(0, k as int)),
        decreases pairs.len() - k,
    {
        proof {
            let s = views(pairs@).subrange(0, k + 1);
            assert(s.drop_last() =~= views(pairs@).subrange(0, k as int));
            assert(s.last() == pairs@[k as int]@);
        }
        apply_pair(&mut st, &pairs[k]);
        k = k + 1;
    }
    assert(views(pairs@).subrange(0, pairs@.len() as int) =~= views(pairs@));
    st
}

fn config_from(ip: Vec<char>, port: u16, p: ParamValues) -> (c: DzchConfig)
    ensures
        link_config(c, ip@, port, p.view()),
{
    let mut mods: Vec<DzchMod> = Vec::new();
    let mut k: usize = 0;
    while k < p.mods.len()
        invariant
            k <= p.mods.len(),
            dzch_ids(mods@) == p.mods@.subrange(0, k as int),
            forall|i: int| 0 <= i < mods@.len() ==> (#[trigger] mods@[i]).name@.len() == 0,
        decreases p.mods.len() - k,
    {
        let ghost old_m = mods@;
        let m = DzchMod { id: p.mods[k], name: from_chars(&Vec::new()) };
        mods.push(m);
        proof {
            assert(dzch_ids(old_m.push(m)) =~= dzch_ids(old_m).push(m.id));
            assert(p.mods@.subrange(0, k + 1) =~= p.mods@.subrange(0, k as int).push(p.mods@[k as int]));
        }
        k = k + 1;
    }
    assert(p.mods@.subrange(0, p.mods@.len() as int) =~= p.mods@);
    let password = match p.password {
        Some(v) => Some(from_chars(&v)),
        None => None,
    };
    DzchConfig {
        version: DZCH_VERSION,
        ip: from_chars(&ip),
        port,
        query_port: p.query_port,
        name: from_chars(&p.name),
        password,
        mods,
    }
}

fn text_error(v: &Vec<char>) -> (e: Error)
    ensures
        e matches Error::Other(m) && m@ == v@,
{
    Error::Other(from_chars(v))
}

impl DzchConfig {
    /// Parses a `dzch://` URL into a connection.
    ///
    /// Format: `dzch://<ip>:<port>[?password=<pw>&mods=<id1>,<id2>&name=<n>]`.
    pub fn from_url(url: &str) -> (r: Result<DzchConfig, Error>)
        ensures
            match parse_link(url@) {
                Ok((ip, port, p)) => r matches Ok(c) && link_config(c, ip, port, p),
                Err(msg) => r matches Err(e) && e matches Error::Other(m) && m@ == msg,
            },
    {
        let u = to_chars(url);
        let prefix = to_chars("dzch://");
        if !starts_with_chars(&u, &prefix) {
            return Err(text_error(&to_chars("not a dzch:// URL")));
        }
        let rest = slice_chars(&u, prefix.len(), u.len());
        let q = first_index(&rest, '?');
        let authority = match q {
            Some(i) => slice_chars(&rest, 0, i),
            None => copy_chars(&rest),
        };
        let query = match q {
            Some(i) => slice_chars(&rest, i + 1, rest.len()),
            None => Vec::new(),
        };
        let auth = trim_end_char_chars(&authority, '/');
        let params = read_params(&query);
        match last_index(&auth, ':') {
            Some(i) => {
                let port_text = slice_chars(&auth, i + 1, auth.len());
                match parse_u16(&port_text) {
                    Some(p) => Ok(config_from(slice_chars(&auth, 0, i), p, params)),
                    None => {
                        let mut m = to_chars("invalid port in dzch URL: ");
                        push_all(&mut m, &port_text);
                        Err(text_error(&m))
                    },
                }
            },
            None => Ok(config_from(auth, DEFAULT_GAME_PORT, params)),
        }
    }

    /// Encodes this connection as a `dzch://` URL.
    pub fn to_url(&self) -> (r: String)
        ensures
            r@ == to_url_spec(*self),
    {
        let mut url = to_chars("dzch://");
        push_str(&mut url, self.ip.as_str());
        url.push(':');
        push_all(&mut url, &u64_to_dec(self.port as u64));
        let ghost base = url@;
        assert(base =~= "dzch://"@ + self.ip@ + seq![':'] + dec(self.port as nat));
        let mut params: Vec<Vec<char>> = Vec::new();
        if let Some(qp) = self.query_port {
            let mut p = to_chars("qport=");
            push_all(&mut p, &u64_to_dec(qp as u64));
            params.push(p);
        }
        assert(views(params@) =~= match self.query_port {
            Some(q) => seq!["qport="@ + dec(q as nat)],
            None => Seq::<Seq<char>>::empty(),
        });
        let ghost p1 = views(params@);
        let name = to_chars(self.name.as_str());
        if name.len() > 0 {
            let mut p = to_chars("name=");
            push_str(&mut p, url_encode(self.name.as_str()).as_str());
            params.push(p);
            assert(views(params@) =~= p1.push("name="@ + url_encode_spec(self.name@)));
        }
        let ghost p2 = views(params@);
        if let Some(pw) = &self.password {
            let pwc = to_chars(pw.as_str());
            if pwc.len() > 0 {
                let mut p = to_chars("password=");
                push_str(&mut p, url_encode(pw.as_str()).as_str());
                params.push(p);
                assert(views(params@) =~= p2.push("password="@ + url_encode_spec(pw@)));
            }
        }
        let ghost p3 = views(params@);
        if self.mods.len() > 0 {
            let mut texts: Vec<Vec<char>> = Vec::new();
            let mut k: usize = 0;
            while k < self.mods.len()
                invariant
                    k <= self.mods.len(),
                    views(texts@) == id_texts(dzch_ids(self.mods@.subrange(0, k as int))),
                decreases self.mods.len() - k,
            {
                let ghost old_t = texts@;
                let t = i64_to_dec(self.mods[k].id);
                texts.push(t);
                proof {
                    assert(views(old_t.push(t)) =~= views(old_t).push(t@));
                    assert(id_texts(dzch_ids(self.mods@.subrange(0, k + 1))) =~= id_texts(
                        dzch_ids(self.mods@.subrange(0, k as int)),
                    ).push(dec_int(self.mods@[k as int].id as int)));
                }
                k = k + 1;
            }
            assert(self.mods@.subrange(0, self.mods@.len() as int) =~= self.mods@);
            let mut p = to_chars("mods=");
            push_all(&mut p, &join_chars(&texts, ','));
            params.push(p);
            assert(views(params@) =~= p3.push(
                "mods="@ + join(id_texts(dzch_ids(self.mods@)), ','),
            ));
        }
        proof {
            reveal(url_params);
        }
        assert(views(params@) == url_params(*self));
        if params.len() > 0 {
            url.push('?');
            push_all(&mut url, &join_chars(&params, '&'));
        }
        from_chars(&url)
    }
}

// ------------------------------------------------------------ round trip

/// The password that a link carries: an empty one is left out.
pub open spec fn link_password(o: Option<String>) -> Option<Seq<char>> {
    match o {
        Some(p) => if p@.len() > 0 {
            Some(p@)
        } else {
            None
        },
        None => None,
    }
}

/// The parameters that reading back a connection's link gives.
pub open spec fn link_params(c: DzchConfig) -> LinkParams {
    LinkParams {
        password: link_password(c.password),
        mods: dzch_ids(c.mods@),
        name: c.name@,
        query_port: c.query_port,
    }
}

proof fn lemma_key_value(key: Seq<char>, v: Seq<char>)
    requires
        lacks(key, '='),
        lacks(v, '='),
    ensures
        first_index_of(key.push('=') + v, '=') == Some(key.len() as int),
        (key.push('=') + v).subrange(0, key.len() as int) == key,
        (key.push('=') + v).subrange(key.len() as int + 1, (key.push('=') + v).len() as int) == v,
{
    let s = key.push('=') + v;
    assert(s[key.len() as int] == '=');
    assert forall|j: int| 0 <= j < key.len() implies s[j] != '=' by {
        assert(s[j] == key[j]);
    }
    lemma_first_index_of(s, '=', key.len() as int);
    assert(s.subrange(0, key.len() as int) =~= key);
    assert(s.subrange(key.len() as int + 1, s.len() as int) =~= v);
}

proof fn lemma_digits_plain(d: Seq<char>)
    requires
        forall|i: int| 0 <= i < d.len() ==> is_digit(#[trigger] d[i]) || d[i] == '-',
    ensures
        lacks(d, '='),
        lacks(d, '&'),
        lacks(d, '%'),
        lacks(d, ','),
        lacks(d, '?'),
        lacks(d, ':'),
        lacks(d, '/'),
        vstd::utf8::is_ascii_chars(d),
{
    assert forall|i: int| 0 <= i < d.len() implies '\0' <= #[trigger] d[i] <= '\u{7f}' by {
        assert(is_digit(d[i]) || d[i] == '-');
    }
}

proof fn lemma_dec_plain(n: nat)
    ensures
        lacks(dec(n), '='),
        lacks(dec(n), '&'),
        lacks(dec(n), '%'),
        lacks(dec(n), '?'),
        lacks(dec(n), ':'),
        lacks(dec(n), '/'),
        vstd::utf8::is_ascii_chars(dec(n)),
        dec(n).len() >= 1,
        is_digit(dec(n).last()),
{
    lemma_dec(n);
    lemma_digits_plain(dec(n));
}

proof fn lemma_literals()
    ensures
        "qport="@ == "qport"@.push('='),
        "name="@ == "name"@.push('='),
        "password="@ == "password"@.push('='),
        "mods="@ == "mods"@.push('='),
        lacks("qport"@, '='),
        lacks("name"@, '='),
        lacks("password"@, '='),
        lacks("mods"@, '='),
        lacks("qport="@, '&'),
        lacks("name="@, '&'),
        lacks("password="@, '&'),
        lacks("mods="@, '&'),
        "qport"@ != "password"@,
        "qport"@ != "pw"@,
        "qport"@ != "name"@,
        "name"@ != "password"@,
        "name"@ != "pw"@,
        "mods"@ != "password"@,
        "mods"@ != "pw"@,
        "mods"@ != "name"@,
        "mods"@ != "qport"@,
        "mods"@ != "query_port"@,
{
    reveal_strlit("qport=");
    reveal_strlit("name=");
    reveal_strlit("password=");
    reveal_strlit("mods=");
    reveal_strlit("qport");
    reveal_strlit("name");
    reveal_strlit("password");
    reveal_strlit("mods");
    reveal_strlit("pw");
    reveal_strlit("query_port");
    assert("qport="@ =~= "qport"@.push('='));
    assert("name="@ =~= "name"@.push('='));
    assert("password="@ =~= "password"@.push('='));
    assert("mods="@ =~= "mods"@.push('='));
    assert("qport"@.len() != "password"@.len());
    assert("qport"@.len() != "pw"@.len());
    assert("qport"@.len() != "name"@.len());
    assert("name"@.len() != "password"@.len());
    assert("name"@.len() != "pw"@.len());
    assert("mods"@.len() != "password"@.len());
    assert("mods"@.len() != "pw"@.len());
    assert("mods"@[0] != "name"@[0]);
    assert("mods"@.len() != "qport"@.len());
    assert("mods"@.len() != "query_port"@.len());
}

proof fn lemma_step_qport(st: LinkParams, q: u16)
    ensures
        param_step(st, "qport="@ + dec(q as nat)) == (LinkParams { query_port: Some(q), ..st }),
{
    lemma_literals();
    let v = dec(q as nat);
    lemma_dec_plain(q as nat);
    lemma_key_value("qport"@, v);
    lemma_url_decode_plain(v);
    lemma_parse_dec(q as nat, 65535);
}

proof fn lemma_step_name(st: LinkParams, s: Seq<char>)
    ensures
        param_step(st, "name="@ + url_encode_spec(s)) == (LinkParams { name: s, ..st }),
{
    lemma_literals();
    lemma_url_encode_lacks(s);
    lemma_key_value("name"@, url_encode_spec(s));
    lemma_url_decode_encode(s);
}

proof fn lemma_step_password(st: LinkParams, s: Seq<char>)
    ensures
        param_step(st, "password="@ + url_encode_spec(s)) == (LinkParams {
            password: Some(s),
            ..st
        }),
{
    lemma_literals();
    lemma_url_encode_lacks(s);
    lemma_key_value("password"@, url_encode_spec(s));
    lemma_url_decode_encode(s);
}

proof fn lemma_id_texts_plain(ids: Seq<i64>)
    ensures
        forall|i: int|
            0 <= i < id_texts(ids).len() ==> lacks(#[trigger] id_texts(ids)[i], '=') && lacks(
                id_texts(ids)[i],
                '%',
            ) && lacks(id_texts(ids)[i], ',') && lacks(id_texts(ids)[i], '&')
                && vstd::utf8::is_ascii_chars(id_texts(ids)[i]),
{
    assert forall|i: int| 0 <= i < id_texts(ids).len() implies lacks(
        #[trigger] id_texts(ids)[i],
        '=',
    ) && lacks(id_texts(ids)[i], '%') && lacks(id_texts(ids)[i], ',') && lacks(
        id_texts(ids)[i],
        '&',
    ) && vstd::utf8::is_ascii_chars(id_texts(ids)[i]) by {
        lemma_dec_int(ids[i] as int);
        lemma_digits_plain(dec_int(ids[i] as int));
    }
}

proof fn lemma_parsed_id_texts(ids: Seq<i64>)
    ensures
        parsed_ids(id_texts(ids)) == ids,
    decreases ids.len(),
{
    if ids.len() > 0 {
        lemma_parsed_id_texts(ids.drop_last());
        assert(id_texts(ids).drop_last() =~= id_texts(ids.drop_last()));
        let t = dec_int(ids.last() as int);
        lemma_dec_int(ids.last() as int);
        lemma_trim_unchanged(t);
        lemma_parse_dec_int(ids.last());
        assert(ids.drop_last().push(ids.last()) =~= ids);
    }
}

proof fn lemma_step_mods(st: LinkParams, ids: Seq<i64>)
    requires
        ids.len() >= 1,
    ensures
        param_step(st, "mods="@ + join(id_texts(ids), ',')) == (LinkParams {
            mods: st.mods + ids,
            ..st
        }),
{
    lemma_literals();
    let texts = id_texts(ids);
    let v = join(texts, ',');
    lemma_id_texts_plain(ids);
    lemma_join_lacks(texts, ',', '=');
    lemma_join_lacks(texts, ',', '%');
    lemma_join_ascii(texts, ',');
    lemma_key_value("mods"@, v);
    lemma_url_decode_plain(v);
    lemma_split_join(texts, ',');
    lemma_parsed_id_texts(ids);
}

proof fn lemma_params_of_push(p: Seq<Seq<char>>, x: Seq<char>)
    ensures
        params_of(p.push(x)) == param_step(params_of(p), x),
{
    assert(p.push(x).drop_last() =~= p);
}

proof fn lemma_concat_lacks(a: Seq<char>, b: Seq<char>, c: char)
    requires
        lacks(a, c),
        lacks(b, c),
    ensures
        lacks(a + b, c),
{
    assert forall|i: int| 0 <= i < (a + b).len() implies (a + b)[i] != c by {
        if i < a.len() {
            assert((a + b)[i] == a[i]);
        } else {
            assert((a + b)[i] == b[i - a.len()]);
        }
    }
}

/// Every parameter of a link lacks `&`, and reading them gives the
/// connection's parameters back.
#[verifier::spinoff_prover]
#[verifier::rlimit(40)]
proof fn lemma_params_of_url(c: DzchConfig)
    ensures
        params_of(url_params(c)) == link_params(c),
        forall|i: int| 0 <= i < url_params(c).len() ==> lacks(#[trigger] url_params(c)[i], '&'),
{
    reveal(url_params);
    lemma_literals();
    let e = Seq::<Seq<char>>::empty();
    let p1 = match c.query_port {
        Some(q) => seq!["qport="@ + dec(q as nat)],
        None => e,
    };
    let s1 = match c.query_port {
        Some(q) => LinkParams { query_port: Some(q), ..no_params() },
        None => no_params(),
    };
    if let Some(q) = c.query_port {
        lemma_params_of_push(e, "qport="@ + dec(q as nat));
        assert(e.push("qport="@ + dec(q as nat)) =~= p1);
        lemma_step_qport(no_params(), q);
        lemma_dec_plain(q as nat);
        lemma_concat_lacks("qport="@, dec(q as nat), '&');
    }
    assert(params_of(p1) == s1);
    let p2 = if c.name@.len() > 0 {
        p1.push("name="@ + url_encode_spec(c.name@))
    } else {
        p1
    };
    let s2 = if c.name@.len() > 0 {
        LinkParams { name: c.name@, ..s1 }
    } else {
        s1
    };
    if c.name@.len() > 0 {
        lemma_params_of_push(p1, "name="@ + url_encode_spec(c.name@));
        lemma_step_name(s1, c.name@);
        lemma_url_encode_lacks(c.name@);
        let a = "name="@;
        let b = url_encode_spec(c.name@);
        lemma_concat_lacks(a, b, '&');
    }
    assert(params_of(p2) == s2);
    let p3 = match c.password {
        Some(pw) => if pw@.len() > 0 {
            p2.push("password="@ + url_encode_spec(pw@))
        } else {
            p2
        },
        None => p2,
    };
    let s3 = match c.password {
        Some(pw) => if pw@.len() > 0 {
            LinkParams { password: Some(pw@), ..s2 }
        } else {
            s2
        },
        None => s2,
    };
    if let Some(pw) = c.password {
        if pw@.len() > 0 {
            lemma_params_of_push(p2, "password="@ + url_encode_spec(pw@));
            lemma_step_password(s2, pw@);
            lemma_url_encode_lacks(pw@);
            let a = "password="@;
            let b = url_encode_spec(pw@);
            lemma_concat_lacks(a, b, '&');
        }
    }
    assert(params_of(p3) == s3);
    let ids = dzch_ids(c.mods@);
    if c.mods@.len() > 0 {
        let v = join(id_texts(ids), ',');
        lemma_params_of_push(p3, "mods="@ + v);
        lemma_step_mods(s3, ids);
        assert(s3.mods + ids =~= ids);
        lemma_id_texts_plain(ids);
        lemma_join_lacks(id_texts(ids), ',', '&');
        let a = "mods="@;
        lemma_concat_lacks(a, v, '&');
    } else {
        assert(ids =~= Seq::<i64>::empty());
    }
    if c.name@.len() == 0 {
        assert(c.name@ =~= Seq::<char>::empty());
    }
}

proof fn lemma_authority(ip: Seq<char>, port: u16)
    requires
        lacks(ip, '?'),
    ensures
        lacks(ip + seq![':'] + dec(port as nat), '?'),
        trim_end_char(ip + seq![':'] + dec(port as nat), '/') == ip + seq![':'] + dec(port as nat),
        last_index_of(ip + seq![':'] + dec(port as nat), ':') == Some(ip.len() as int),
        (ip + seq![':'] + dec(port as nat)).subrange(0, ip.len() as int) == ip,
        parse_unsigned(
            (ip + seq![':'] + dec(port as nat)).subrange(
                ip.len() as int + 1,
                (ip + seq![':'] + dec(port as nat)).len() as int,
            ),
            10,
            65535,
        ) == Some(port as nat),
{
    let d = dec(port as nat);
    let authority = ip + seq![':'] + d;
    let n = ip.len() as int;
    lemma_dec_plain(port as nat);
    assert forall|j: int| 0 <= j < authority.len() implies authority[j] != '?' by {
        if j < n {
            assert(authority[j] == ip[j]);
        } else if j > n {
            assert(authority[j] == d[j - n - 1]);
        }
    }
    assert(authority.last() == d.last());
    assert(trim_end_char(authority, '/') == authority);
    assert forall|j: int| n < j < authority.len() implies authority[j] != ':' by {
        assert(authority[j] == d[j - n - 1]);
    }
    lemma_last_index_of(authority, ':', n);
    assert(authority.subrange(n + 1, authority.len() as int) =~= d);
    assert(authority.subrange(0, n) =~= ip);
    lemma_parse_dec(port as nat, 65535);
}

proof fn lemma_query_of_url(c: DzchConfig)
    ensures
        ({
            let ps = url_params(c);
            let query = if ps.len() == 0 {
                Seq::<char>::empty()
            } else {
                join(ps, '&')
            };
            params_of(split(query, '&')) == link_params(c)
        }),
{
    let ps = url_params(c);
    lemma_params_of_url(c);
    if ps.len() == 0 {
        lemma_first_index_of_none(Seq::<char>::empty(), '=');
        assert(split(Seq::<char>::empty(), '&') =~= seq![Seq::<char>::empty()]);
        lemma_params_of_push(Seq::<Seq<char>>::empty(), Seq::<char>::empty());
        assert(seq![Seq::<char>::empty()] =~= Seq::<Seq<char>>::empty().push(Seq::<char>::empty()));
    } else {
        lemma_split_join(ps, '&');
    }
}

/// Reading back the link of a connection gives the connection: its address,
/// game port, query port, name and mod ids, and its password unless that is
/// empty.  This holds for every address without `?`; mod names are not part
/// of a link.
#[verifier::rlimit(60)]
pub proof fn lemma_link_round_trip(c: DzchConfig)
    requires
        lacks(c.ip@, '?'),
    ensures
        parse_link(to_url_spec(c)) == Ok::<(Seq<char>, u16, LinkParams), Seq<char>>(
            (c.ip@, c.port, link_params(c)),
        ),
{
    let url = to_url_spec(c);
    let prefix = "dzch://"@;
    let authority = c.ip@ + seq![':'] + dec(c.port as nat);
    let ps = url_params(c);
    lemma_authority(c.ip@, c.port);
    lemma_query_of_url(c);
    assert(url.subrange(0, prefix.len() as int) =~= prefix);
    let rest = url.subrange(prefix.len() as int, url.len() as int);
    if ps.len() == 0 {
        assert(rest =~= authority);
        lemma_first_index_of_none(rest, '?');
    } else {
        assert(rest =~= authority + seq!['?'] + join(ps, '&'));
        assert forall|j: int| 0 <= j < authority.len() implies rest[j] != '?' by {
            assert(rest[j] == authority[j]);
        }
        lemma_first_index_of(rest, '?', authority.len() as int);
        assert(rest.subrange(0, authority.len() as int) =~= authority);
        assert(rest.subrange(authority.len() as int + 1, rest.len() as int) =~= join(ps, '&'));
    }
}

} // verus!
