//! Unix timestamps and ISO-8601 date-times (UTC), as the BattleMetrics API
//! exchanges them.
//!
//! Days are counted with the civil-calendar algorithm that counts years
//! from March, so that the leap day is the last day of a year; 400 years
//! (146097 days) form an era.

use vstd::prelude::*;
use vstd::utf8::{encode_utf8, is_ascii_chars};
use crate::text::{dec, dec_pad, from_chars, is_digit, lemma_dec, push_all, u64_to_dec_pad};

verus! {

/// Days before year `yoe` of an era (years counted from March).
pub open spec fn days_before_year(yoe: int) -> int {
    365 * yoe + yoe / 4 - yoe / 100
}

/// The year of the era that day `doe` of the era falls in.
pub open spec fn year_of_era(doe: int) -> int {
    (doe - doe / 1460 + doe / 36524 - doe / 146096) / 365
}

/// The day of the era falls in the year that `year_of_era` names.
proof fn lemma_year_of_era(doe: int)
    requires
        0 <= doe < 146097,
    ensures
        0 <= year_of_era(doe) < 400,
        days_before_year(year_of_era(doe)) <= doe,
        doe - days_before_year(year_of_era(doe)) <= 365,
{
}

/// The civil date `(year, month, day)` of the day `days` days after
/// 1970-01-01.
pub open spec fn civil_from_days(days: int) -> (int, int, int) {
    let z = days + 719468;
    let era = z / 146097;
    let doe = z % 146097;
    let yoe = year_of_era(doe);
    let doy = doe - days_before_year(yoe);
    let mp = (5 * doy + 2) / 153;
    let d = doy - (153 * mp + 2) / 5 + 1;
    let m = if mp < 10 {
        mp + 3
    } else {
        mp - 9
    };
    let y = yoe + era * 400;
    (
        if m <= 2 {
            y + 1
        } else {
            y
        },
        m,
        d,
    )
}

/// Rust's integer division, which rounds toward zero.
pub open spec fn tdiv(a: int, b: int) -> int {
    if a >= 0 {
        a / b
    } else {
        -((-a) / b)
    }
}

/// Rust's remainder, which takes the sign of `a`.
pub open spec fn trem(a: int, b: int) -> int {
    a - b * tdiv(a, b)
}

/// The day number (days after 1970-01-01) of a civil date, computed with
/// Rust's rounding toward zero.
pub open spec fn days_from_civil(y: int, m: int, d: int) -> int {
    let m_adj = if m <= 2 {
        m + 9
    } else {
        m - 3
    };
    let y_adj = if m <= 2 {
        y - 1
    } else {
        y
    };
    let era = tdiv(y_adj, 400);
    let yoe = trem(y_adj, 400);
    let doy = (153 * m_adj + 2) / 5 + d - 1;
    let doe = yoe * 365 + tdiv(yoe, 4) - tdiv(yoe, 100) + doy;
    era * 146097 + doe - 719468
}

proof fn lemma_era_split(yoe: int, era: int)
    requires
        0 <= yoe < 400,
        era >= 0,
    ensures
        (yoe + era * 400) / 400 == era,
        (yoe + era * 400) % 400 == yoe,
{
    assert((yoe + era * 400) / 400 == era && (yoe + era * 400) % 400 == yoe) by (nonlinear_arith)
        requires
            0 <= yoe < 400,
            era >= 0,
    ;
}

/// Facts about the civil date of a day.
pub proof fn lemma_civil_from_days(days: int)
    requires
        days >= 0,
    ensures
        1 <= civil_from_days(days).1 <= 12,
        1 <= civil_from_days(days).2 <= 31,
        civil_from_days(days).0 >= 1970,
        days_from_civil(civil_from_days(days).0, civil_from_days(days).1, civil_from_days(days).2)
            == days,
{
    let z = days + 719468;
    let era = z / 146097;
    let doe = z % 146097;
    lemma_year_of_era(doe);
    let yoe = year_of_era(doe);
    let doy = doe - days_before_year(yoe);
    let mp = (5 * doy + 2) / 153;
    assert(0 <= mp <= 11);
    let y = yoe + era * 400;
    lemma_era_split(yoe, era);
    assert(z == era * 146097 + doe);
}

/// Days to civil date `(year, month, day)`.
pub fn days_to_ymd(days: u64) -> (r: (u64, u64, u64))
    requires
        days <= u64::MAX - 719468,
    ensures
        (r.0 as int, r.1 as int, r.2 as int) == civil_from_days(days as int),
        1 <= r.1 <= 12,
        1 <= r.2 <= 31,
        days_from_civil(r.0 as int, r.1 as int, r.2 as int) == days,
{
    proof {
        lemma_civil_from_days(days as int);
        lemma_year_of_era((days as int + 719468) % 146097);
    }
    let z = days + 719468;
    let era = z / 146097;
    let doe = z % 146097;
    let yoe = (doe - doe / 1460 + doe / 36524 - doe / 146096) / 365;
    let y = yoe + era * 400;
    let doy = doe - (365 * yoe + yoe / 4 - yoe / 100);
    let mp = (5 * doy + 2) / 153;
    let d = doy - (153 * mp + 2) / 5 + 1;
    let m = if mp < 10 {
        mp + 3
    } else {
        mp - 9
    };
    let y = if m <= 2 {
        y + 1
    } else {
        y
    };
    (y, m, d)
}

/// The ISO-8601 text of a timestamp: `YYYY-MM-DDTHH:MM:SSZ`.
pub open spec fn iso_text(t: nat) -> Seq<char> {
    let date = civil_from_days((t / 86400) as int);
    dec_pad(date.0 as nat, 4) + seq!['-'] + dec_pad(date.1 as nat, 2) + seq!['-'] + dec_pad(
        date.2 as nat,
        2,
    ) + seq!['T'] + dec_pad((t / 3600 % 24) as nat, 2) + seq![':'] + dec_pad(
        (t / 60 % 60) as nat,
        2,
    ) + seq![':'] + dec_pad((t % 60) as nat, 2) + seq!['Z']
}

/// Formats a Unix timestamp (seconds) as an ISO-8601 string for
/// BattleMetrics API queries.
pub fn chrono_or_fallback(unix_secs: u64) -> (r: String)
    ensures
        r@ == iso_text(unix_secs as nat),
{
    let s = unix_secs;
    let secs = s % 60;
    let mins = (s / 60) % 60;
    let hours = (s / 3600) % 24;
    let days = s / 86400;
    let (year, month, day) = days_to_ymd(days);
    let mut v = u64_to_dec_pad(year, 4);
    v.push('-');
    push_all(&mut v, &u64_to_dec_pad(month, 2));
    v.push('-');
    push_all(&mut v, &u64_to_dec_pad(day, 2));
    v.push('T');
    push_all(&mut v, &u64_to_dec_pad(hours, 2));
    v.push(':');
    push_all(&mut v, &u64_to_dec_pad(mins, 2));
    v.push(':');
    push_all(&mut v, &u64_to_dec_pad(secs, 2));
    v.push('Z');
    assert(v@ =~= iso_text(unix_secs as nat));
    from_chars(&v)
}

/// An ASCII digit byte.
pub open spec fn is_digit_byte(b: u8) -> bool {
    48 <= b <= 57
}

/// The number that the digit bytes of `bs` spell, other bytes skipped.
pub open spec fn digits_fold(bs: Seq<u8>) -> int
    decreases bs.len(),
{
    if bs.len() == 0 {
        0
    } else if is_digit_byte(bs.last()) {
        digits_fold(bs.drop_last()) * 10 + (bs.last() - 48)
    } else {
        digits_fold(bs.drop_last())
    }
}

proof fn lemma_digits_fold_nonneg(bs: Seq<u8>)
    ensures
        digits_fold(bs) >= 0,
        forall|i: int| 0 <= i <= bs.len() ==> digits_fold(#[trigger] bs.subrange(0, i)) <= digits_fold(bs),
    decreases bs.len(),
{
    if bs.len() > 0 {
        lemma_digits_fold_nonneg(bs.drop_last());
        assert forall|i: int| 0 <= i <= bs.len() implies digits_fold(#[trigger] bs.subrange(0, i))
            <= digits_fold(bs) by {
            if i < bs.len() {
                assert(bs.subrange(0, i) =~= bs.drop_last().subrange(0, i));
            } else {
                assert(bs.subrange(0, i) =~= bs);
            }
        }
    }
}

/// Reads the digits of `bytes` as a decimal number, skipping other bytes.
pub fn parse_digits(bytes: &[u8]) -> (r: i64)
    requires
        digits_fold(bytes@) <= i64::MAX,
    ensures
        r == digits_fold(bytes@),
{
    proof {
        lemma_digits_fold_nonneg(bytes@);
    }
    let mut acc: i64 = 0;
    let mut i: usize = 0;
    while i < bytes.len()
        invariant
            i <= bytes.len(),
            digits_fold(bytes@) <= i64::MAX,
            forall|k: int| 0 <= k <= bytes@.len() ==> digits_fold(#[trigger] bytes@.subrange(0, k))
                <= digits_fold(bytes@),
            acc == digits_fold(bytes@.subrange(0, i as int)),
        decreases bytes.len() - i,
    {
        let b = bytes[i];
        proof {
            let s = bytes@.subrange(0, i + 1);
            assert(s.drop_last() =~= bytes@.subrange(0, i as int));
            assert(s.last() == b);
            assert(digits_fold(s) <= i64::MAX);
            lemma_digits_fold_nonneg(bytes@.subrange(0, i as int));
        }
        if 48 <= b && b <= 57 {
            acc = acc * 10 + (b - 48) as i64;
        }
        i = i + 1;
    }
    assert(bytes@.subrange(0, bytes@.len() as int) =~= bytes@);
    acc
}

/// The Unix seconds of an ISO-8601 date-time, read from its UTF-8 bytes:
/// fixed fields `YYYY-MM-DDTHH:MM:SS`, digits only; zero for shorter
/// texts.
pub open spec fn iso_seconds(bs: Seq<u8>) -> int {
    if bs.len() < 19 {
        0
    } else {
        let year = digits_fold(bs.subrange(0, 4));
        let month = digits_fold(bs.subrange(5, 7));
        let day = digits_fold(bs.subrange(8, 10));
        let hour = digits_fold(bs.subrange(11, 13));
        let minute = digits_fold(bs.subrange(14, 16));
        let second = digits_fold(bs.subrange(17, 19));
        days_from_civil(year, month, day) * 86400 + hour * 3600 + minute * 60 + second
    }
}

proof fn lemma_digits_fold_bound(bs: Seq<u8>)
    ensures
        0 <= digits_fold(bs),
        bs.len() == 2 ==> digits_fold(bs) <= 99,
        bs.len() == 4 ==> digits_fold(bs) <= 9999,
    decreases bs.len(),
{
    if bs.len() > 0 {
        lemma_digits_fold_bound(bs.drop_last());
        if bs.len() <= 4 {
            lemma_digits_fold_small(bs);
        }
    }
}

proof fn lemma_digits_fold_small(bs: Seq<u8>)
    requires
        bs.len() <= 4,
    ensures
        0 <= digits_fold(bs),
        bs.len() <= 0 ==> digits_fold(bs) <= 0,
        bs.len() <= 1 ==> digits_fold(bs) <= 9,
        bs.len() <= 2 ==> digits_fold(bs) <= 99,
        bs.len() <= 3 ==> digits_fold(bs) <= 999,
        digits_fold(bs) <= 9999,
    decreases bs.len(),
{
    if bs.len() > 0 {
        lemma_digits_fold_small(bs.drop_last());
    }
}

fn field(bytes: &Vec<u8>, a: usize, b: usize) -> (r: i64)
    requires
        a <= b <= bytes.len(),
        b - a <= 4,
    ensures
        r == digits_fold(bytes@.subrange(a as int, b as int)),
{
    proof {
        lemma_digits_fold_small(bytes@.subrange(a as int, b as int));
    }
    parse_digits(vstd::slice::slice_subrange(bytes.as_slice(), a, b))
}

/// Parses an ISO-8601 timestamp like `2024-01-15T12:34:56.000Z` to Unix
/// seconds; texts shorter than 19 bytes give 0.
pub fn parse_iso8601_approx(s: &str) -> (r: i64)
    ensures
        r == iso_seconds(encode_utf8(s@)),
{
    let bytes = s.as_bytes_vec();
    if bytes.len() < 19 {
        return 0;
    }
    let year: i64 = field(&bytes, 0, 4);
    let month: i64 = field(&bytes, 5, 7);
    let day: i64 = field(&bytes, 8, 10);
    let hour: i64 = field(&bytes, 11, 13);
    let minute: i64 = field(&bytes, 14, 16);
    let second: i64 = field(&bytes, 17, 19);
    proof {
        lemma_digits_fold_small(bytes@.subrange(0, 4));
        lemma_digits_fold_small(bytes@.subrange(5, 7));
        lemma_digits_fold_small(bytes@.subrange(8, 10));
        lemma_digits_fold_small(bytes@.subrange(11, 13));
        lemma_digits_fold_small(bytes@.subrange(14, 16));
        lemma_digits_fold_small(bytes@.subrange(17, 19));
    }
    let m_adj = if month <= 2 {
        month + 9
    } else {
        month - 3
    };
    let y_adj = if month <= 2 {
        year - 1
    } else {
        year
    };
    let era = y_adj / 400;
    let yoe = y_adj % 400;
    let doy = (153 * m_adj + 2) / 5 + day - 1;
    let doe = yoe * 365 + yoe / 4 - yoe / 100 + doy;
    let days = era * 146097 + doe - 719468;
    days * 86400 + hour * 3600 + minute * 60 + second
}

// ------------------------------------------------------------ round trip

/// Characters read as bytes.
pub open spec fn ascii_bytes(s: Seq<char>) -> Seq<u8> {
    s.map_values(|c: char| c as u8)
}

proof fn lemma_civil_year_bound(days: int)
    requires
        0 <= days < 2932897,
    ensures
        civil_from_days(days).0 <= 9999,
{
    let z = days + 719468;
    let doe = z % 146097;
    lemma_year_of_era(doe);
}

proof fn lemma_dec_len(n: nat)
    ensures
        n < 10 ==> dec(n).len() == 1,
        n < 100 ==> dec(n).len() <= 2,
        n < 1000 ==> dec(n).len() <= 3,
        n < 10000 ==> dec(n).len() <= 4,
    decreases n,
{
    if n >= 10 {
        lemma_dec_len(n / 10);
    }
}

proof fn lemma_digit_char_byte(d: nat)
    requires
        d < 10,
    ensures
        crate::text::digit_char(d) as u8 == 48 + d,
{
    let b = (48 + d) as u8;
    assert(b == 48 + d);
    assert((b as char) as u8 == b);
}

proof fn lemma_fold_dec(n: nat)
    ensures
        digits_fold(ascii_bytes(dec(n))) == n,
    decreases n,
{
    lemma_digit_char_byte(n % 10);
    let b = ascii_bytes(dec(n));
    assert(b.last() == crate::text::digit_char(n % 10) as u8);
    assert(is_digit_byte(b.last()));
    if n < 10 {
        assert(b.drop_last() =~= Seq::<u8>::empty());
    } else {
        lemma_fold_dec(n / 10);
        assert(b.drop_last() =~= ascii_bytes(dec(n / 10)));
    }
    assert(digits_fold(b) == digits_fold(b.drop_last()) * 10 + (b.last() - 48));
}

proof fn lemma_fold_zeros(k: nat)
    ensures
        digits_fold(ascii_bytes(Seq::new(k, |i: int| '0'))) == 0,
    decreases k,
{
    if k > 0 {
        lemma_fold_zeros((k - 1) as nat);
        assert(ascii_bytes(Seq::new(k, |i: int| '0')).drop_last() =~= ascii_bytes(
            Seq::new((k - 1) as nat, |i: int| '0'),
        ));
    }
}

proof fn lemma_fold_append_digits(a: Seq<u8>, b: Seq<u8>)
    requires
        digits_fold(a) == 0,
    ensures
        digits_fold(a + b) == digits_fold(b),
    decreases b.len(),
{
    if b.len() == 0 {
        assert(a + b =~= a);
    } else {
        lemma_fold_append_digits(a, b.drop_last());
        assert((a + b).drop_last() =~= a + b.drop_last());
    }
}

proof fn lemma_fold_dec_pad(n: nat, w: nat)
    ensures
        digits_fold(ascii_bytes(dec_pad(n, w))) == n,
{
    lemma_fold_dec(n);
    let d = dec(n);
    if d.len() < w {
        let z = Seq::new((w - d.len()) as nat, |i: int| '0');
        lemma_fold_zeros((w - d.len()) as nat);
        assert(ascii_bytes(z + d) =~= ascii_bytes(z) + ascii_bytes(d));
        lemma_fold_append_digits(ascii_bytes(z), ascii_bytes(d));
    }
}

proof fn lemma_dec_pad_shape(n: nat, w: nat)
    requires
        w == 2 || w == 4,
        w == 2 ==> n < 100,
        w == 4 ==> n < 10000,
    ensures
        dec_pad(n, w).len() == w,
        is_ascii_chars(dec_pad(n, w)),
{
    lemma_dec(n);
    lemma_dec_len(n);
    let d = dec(n);
    let p = dec_pad(n, w);
    assert forall|i: int| 0 <= i < p.len() implies '\0' <= #[trigger] p[i] <= '\u{7f}' by {
        if d.len() < w {
            if i >= w - d.len() {
                assert(p[i] == d[i - (w - d.len())]);
                assert(is_digit(d[i - (w - d.len())]));
            }
        } else {
            assert(is_digit(d[i]));
        }
    }
}

proof fn lemma_sub_bytes(s: Seq<char>, a: int, b: int)
    requires
        is_ascii_chars(s),
        0 <= a <= b <= s.len(),
    ensures
        encode_utf8(s).subrange(a, b) == ascii_bytes(s.subrange(a, b)),
{
    vstd::utf8::is_ascii_chars_encode_utf8(s);
    let e = encode_utf8(s);
    assert forall|i: int| 0 <= i < b - a implies #[trigger] e.subrange(a, b)[i] == ascii_bytes(
        s.subrange(a, b),
    )[i] by {
        assert(s[a + i] as u8 == e[a + i]);
    }
    assert(e.subrange(a, b) =~= ascii_bytes(s.subrange(a, b)));
}

/// The fields of an ISO-8601 text read back as its numbers.
proof fn lemma_iso_fields(t: nat)
    requires
        t < 253402300800,
    ensures
        encode_utf8(iso_text(t)).len() >= 19,
        digits_fold(encode_utf8(iso_text(t)).subrange(0, 4)) == civil_from_days(
            (t / 86400) as int,
        ).0,
        digits_fold(encode_utf8(iso_text(t)).subrange(5, 7)) == civil_from_days(
            (t / 86400) as int,
        ).1,
        digits_fold(encode_utf8(iso_text(t)).subrange(8, 10)) == civil_from_days(
            (t / 86400) as int,
        ).2,
        digits_fold(encode_utf8(iso_text(t)).subrange(11, 13)) == t / 3600 % 24,
        digits_fold(encode_utf8(iso_text(t)).subrange(14, 16)) == t / 60 % 60,
        digits_fold(encode_utf8(iso_text(t)).subrange(17, 19)) == t % 60,
{
    let days = (t / 86400) as int;
    let date = civil_from_days(days);
    lemma_civil_from_days(days);
    lemma_civil_year_bound(days);
    let y = dec_pad(date.0 as nat, 4);
    let mo = dec_pad(date.1 as nat, 2);
    let d = dec_pad(date.2 as nat, 2);
    let h = dec_pad((t / 3600 % 24) as nat, 2);
    let mi = dec_pad((t / 60 % 60) as nat, 2);
    let se = dec_pad((t % 60) as nat, 2);
    lemma_dec_pad_shape(date.0 as nat, 4);
    lemma_dec_pad_shape(date.1 as nat, 2);
    lemma_dec_pad_shape(date.2 as nat, 2);
    lemma_dec_pad_shape((t / 3600 % 24) as nat, 2);
    lemma_dec_pad_shape((t / 60 % 60) as nat, 2);
    lemma_dec_pad_shape((t % 60) as nat, 2);
    let s = iso_text(t);
    assert(s =~= y + seq!['-'] + mo + seq!['-'] + d + seq!['T'] + h + seq![':'] + mi + seq![':']
        + se + seq!['Z']);
    assert(is_ascii_chars(s)) by {
        assert forall|i: int| 0 <= i < s.len() implies '\0' <= #[trigger] s[i] <= '\u{7f}' by {
            if i < 4 {
                assert(s[i] == y[i]);
            } else if 5 <= i < 7 {
                assert(s[i] == mo[i - 5]);
            } else if 8 <= i < 10 {
                assert(s[i] == d[i - 8]);
            } else if 11 <= i < 13 {
                assert(s[i] == h[i - 11]);
            } else if 14 <= i < 16 {
                assert(s[i] == mi[i - 14]);
            } else if 17 <= i < 19 {
                assert(s[i] == se[i - 17]);
            }
        }
    }
    vstd::utf8::is_ascii_chars_encode_utf8(s);
    assert(s.subrange(0, 4) =~= y);
    assert(s.subrange(5, 7) =~= mo);
    assert(s.subrange(8, 10) =~= d);
    assert(s.subrange(11, 13) =~= h);
    assert(s.subrange(14, 16) =~= mi);
    assert(s.subrange(17, 19) =~= se);
    lemma_sub_bytes(s, 0, 4);
    lemma_sub_bytes(s, 5, 7);
    lemma_sub_bytes(s, 8, 10);
    lemma_sub_bytes(s, 11, 13);
    lemma_sub_bytes(s, 14, 16);
    lemma_sub_bytes(s, 17, 19);
    lemma_fold_dec_pad(date.0 as nat, 4);
    lemma_fold_dec_pad(date.1 as nat, 2);
    lemma_fold_dec_pad(date.2 as nat, 2);
    lemma_fold_dec_pad((t / 3600 % 24) as nat, 2);
    lemma_fold_dec_pad((t / 60 % 60) as nat, 2);
    lemma_fold_dec_pad((t % 60) as nat, 2);
}

/// Reading back the ISO-8601 text of a timestamp gives the timestamp, for
/// every timestamp before the year 10000.
pub proof fn lemma_iso_round_trip(t: nat)
    requires
        t < 253402300800,
    ensures
        iso_seconds(encode_utf8(iso_text(t))) == t,
{
    let days = (t / 86400) as int;
    let date = civil_from_days(days);
    lemma_civil_from_days(days);
    lemma_iso_fields(t);
    lemma_time_split(t as int);
    let bs = encode_utf8(iso_text(t));
    assert(iso_seconds(bs) == days_from_civil(date.0, date.1, date.2) * 86400 + (t / 3600 % 24)
        * 3600 + (t / 60 % 60) * 60 + t % 60);
}

proof fn lemma_time_split(t: int)
    requires
        t >= 0,
    ensures
        (t / 86400) * 86400 + (t / 3600 % 24) * 3600 + (t / 60 % 60) * 60 + t % 60 == t,
{
    let q1 = t / 60;
    let q2 = q1 / 60;
    let q3 = q2 / 24;
    assert(t == q1 * 60 + t % 60);
    assert(q1 == q2 * 60 + q1 % 60);
    assert(q2 == q3 * 24 + q2 % 24);
    assert(t / 3600 == q2) by {
        vstd::arithmetic::div_mod::lemma_div_denominator(t, 60, 60);
    }
    assert(t / 86400 == q3) by {
        vstd::arithmetic::div_mod::lemma_div_denominator(t, 3600, 24);
    }
}

} // verus!
