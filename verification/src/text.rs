//! Character-level text helpers shared by every parser in the crate.
//!
//! Text is handled as `Vec<char>` / `Seq<char>`; the spec functions here say
//! what the std string operations that the launcher relies on compute
//! (whitespace trimming, splitting, integer parsing and formatting).

use vstd::prelude::*;

verus! {

/// Copies the characters of a string slice into a vector.
pub fn to_chars(s: &str) -> (r: Vec<char>)
    ensures
        r@ == s@,
{
    let mut r: Vec<char> = Vec::new();
    for c in it: s.chars()
        invariant
            r@ == it.seq().take(it.index() as int),
    {
        r.push(c);
    }
    r
}

/// Builds a `String` from a sequence of characters (std `FromIterator`).
#[verifier::external_body]
pub(crate) fn from_chars(v: &[char]) -> (s: String)
    ensures
        s@ == v@,
{
    v.iter().collect()
}

/// Copies `s[a..b]` into a new vector.
pub fn slice_chars(s: &Vec<char>, a: usize, b: usize) -> (r: Vec<char>)
    requires
        a <= b <= s.len(),
    ensures
        r@ == s@.subrange(a as int, b as int),
{
    let mut r: Vec<char> = Vec::new();
    let mut i: usize = a;
    while i < b
        invariant
            a <= i <= b <= s.len(),
            r@ == s@.subrange(a as int, i as int),
        decreases b - i,
    {
        r.push(s[i]);
        i = i + 1;
    }
    r
}

/// Appends all of `w` to the end of `v`.
pub fn push_all(v: &mut Vec<char>, w: &Vec<char>)
    ensures
        final(v)@ == old(v)@ + w@,
{
    let mut i: usize = 0;
    while i < w.len()
        invariant
            i <= w.len(),
            v@ == old(v)@ + w@.subrange(0, i as int),
        decreases w.len() - i,
    {
        v.push(w[i]);
        i = i + 1;
    }
}

/// Appends the characters of a string slice to `v`.
pub fn push_str(v: &mut Vec<char>, s: &str)
    ensures
        final(v)@ == old(v)@ + s@,
{
    let w = to_chars(s);
    push_all(v, &w);
}

/// Whether two character vectors hold the same characters.
pub fn chars_eq(a: &Vec<char>, b: &Vec<char>) -> (r: bool)
    ensures
        r == (a@ == b@),
{
    if a.len() != b.len() {
        return false;
    }
    let mut i: usize = 0;
    while i < a.len()
        invariant
            a.len() == b.len(),
            i <= a.len(),
            forall|j: int| 0 <= j < i ==> a@[j] == b@[j],
        decreases a.len() - i,
    {
        if a[i] != b[i] {
            return false;
        }
        i = i + 1;
    }
    assert(a@ =~= b@);
    true
}

/// Whether two strings hold the same characters.
pub fn str_eq(a: &str, b: &str) -> (r: bool)
    ensures
        r == (a@ == b@),
{
    let x = to_chars(a);
    let y = to_chars(b);
    chars_eq(&x, &y)
}

// ---------------------------------------------------------------- whitespace

/// `char::is_whitespace`: the Unicode `White_Space` property.
pub open spec fn is_ws(c: char) -> bool {
    let u = c as u32;
    u == 0x20 || (0x09 <= u <= 0x0d) || u == 0x85 || u == 0xa0 || u == 0x1680 || (0x2000 <= u
        <= 0x200a) || u == 0x2028 || u == 0x2029 || u == 0x202f || u == 0x205f || u == 0x3000
}

/// Executable `char::is_whitespace`.
pub fn char_is_ws(c: char) -> (r: bool)
    ensures
        r == is_ws(c),
{
    let u = c as u32;
    u == 0x20 || (0x09 <= u && u <= 0x0d) || u == 0x85 || u == 0xa0 || u == 0x1680 || (0x2000 <= u
        && u <= 0x200a) || u == 0x2028 || u == 0x2029 || u == 0x202f || u == 0x205f || u == 0x3000
}

/// `str::trim_start`.
pub open spec fn trim_start(s: Seq<char>) -> Seq<char>
    decreases s.len(),
{
    if s.len() > 0 && is_ws(s[0]) {
        trim_start(s.drop_first())
    } else {
        s
    }
}

/// `str::trim_end`.
pub open spec fn trim_end(s: Seq<char>) -> Seq<char>
    decreases s.len(),
{
    if s.len() > 0 && is_ws(s.last()) {
        trim_end(s.drop_last())
    } else {
        s
    }
}

/// `str::trim`.
pub open spec fn trim(s: Seq<char>) -> Seq<char> {
    trim_end(trim_start(s))
}

proof fn lemma_trim_start_skip(s: Seq<char>, i: int)
    requires
        0 <= i <= s.len(),
        forall|j: int| 0 <= j < i ==> is_ws(#[trigger] s[j]),
    ensures
        trim_start(s) == trim_start(s.subrange(i, s.len() as int)),
    decreases i,
{
    if i > 0 {
        assert(s.drop_first() =~= s.subrange(1, s.len() as int));
        let t = s.drop_first();
        assert forall|j: int| 0 <= j < i - 1 implies is_ws(#[trigger] t[j]) by {
            assert(t[j] == s[j + 1]);
        }
        lemma_trim_start_skip(t, i - 1);
        assert(t.subrange(i - 1, t.len() as int) =~= s.subrange(i, s.len() as int));
    } else {
        assert(s.subrange(0, s.len() as int) =~= s);
    }
}

proof fn lemma_trim_end_skip(s: Seq<char>, k: int)
    requires
        0 <= k <= s.len(),
        forall|j: int| k <= j < s.len() ==> is_ws(#[trigger] s[j]),
    ensures
        trim_end(s) == trim_end(s.subrange(0, k)),
    decreases s.len() - k,
{
    if k < s.len() {
        let t = s.drop_last();
        assert forall|j: int| k <= j < t.len() implies is_ws(#[trigger] t[j]) by {
            assert(t[j] == s[j]);
        }
        lemma_trim_end_skip(t, k);
        assert(t.subrange(0, k) =~= s.subrange(0, k));
    } else {
        assert(s.subrange(0, k) =~= s);
    }
}

/// `str::trim_start` on a character vector.
pub fn trim_start_chars(s: &Vec<char>) -> (r: Vec<char>)
    ensures
        r@ == trim_start(s@),
{
    let mut i: usize = 0;
    while i < s.len() && char_is_ws(s[i])
        invariant
            i <= s.len(),
            forall|j: int| 0 <= j < i ==> is_ws(#[trigger] s@[j]),
        decreases s.len() - i,
    {
        i = i + 1;
    }
    proof {
        lemma_trim_start_skip(s@, i as int);
        let t = s@.subrange(i as int, s@.len() as int);
        if t.len() > 0 {
            assert(t[0] == s@[i as int]);
        }
    }
    slice_chars(s, i, s.len())
}

/// `str::trim_end` on a character vector.
pub fn trim_end_chars(s: &Vec<char>) -> (r: Vec<char>)
    ensures
        r@ == trim_end(s@),
{
    let mut k: usize = s.len();
    while k > 0 && char_is_ws(s[k - 1])
        invariant
            k <= s.len(),
            forall|j: int| k <= j < s.len() ==> is_ws(#[trigger] s@[j]),
        decreases k,
    {
        k = k - 1;
    }
    proof {
        lemma_trim_end_skip(s@, k as int);
        let t = s@.subrange(0, k as int);
        if t.len() > 0 {
            assert(t.last() == s@[k - 1]);
        }
    }
    slice_chars(s, 0, k)
}

/// `str::trim` on a character vector.
pub fn trim_chars(s: &Vec<char>) -> (r: Vec<char>)
    ensures
        r@ == trim(s@),
{
    let a = trim_start_chars(s);
    trim_end_chars(&a)
}

/// `str::trim` on a string slice.
pub fn trim_str(s: &str) -> (r: Vec<char>)
    ensures
        r@ == trim(s@),
{
    let v = to_chars(s);
    trim_chars(&v)
}

// ------------------------------------------------------------ searching

/// `s` starts with `p`.
pub open spec fn starts_with(s: Seq<char>, p: Seq<char>) -> bool {
    p.len() <= s.len() && s.subrange(0, p.len() as int) == p
}

/// `s` ends with `p`.
pub open spec fn ends_with(s: Seq<char>, p: Seq<char>) -> bool {
    p.len() <= s.len() && s.subrange(s.len() - p.len(), s.len() as int) == p
}

/// `needle` occurs in `s` at position `i`.
pub open spec fn occurs_at(s: Seq<char>, needle: Seq<char>, i: int) -> bool {
    0 <= i && i + needle.len() <= s.len() && s.subrange(i, i + needle.len()) == needle
}

/// `str::contains` with a string pattern.
pub open spec fn contains(s: Seq<char>, needle: Seq<char>) -> bool {
    exists|i: int| occurs_at(s, needle, i)
}

/// Whether `needle` occurs at position `i` of `s`.
pub fn matches_at(s: &Vec<char>, needle: &Vec<char>, i: usize) -> (r: bool)
    ensures
        r == occurs_at(s@, needle@, i as int),
{
    if i > s.len() || needle.len() > s.len() - i {
        return false;
    }
    let mut j: usize = 0;
    while j < needle.len()
        invariant
            i + needle.len() <= s.len(),
            j <= needle.len(),
            forall|k: int| 0 <= k < j ==> s@[i + k] == needle@[k],
        decreases needle.len() - j,
    {
        if s[i + j] != needle[j] {
            assert(s@.subrange(i as int, i + needle@.len())[j as int] != needle@[j as int]);
            return false;
        }
        j = j + 1;
    }
    assert(s@.subrange(i as int, i + needle@.len()) =~= needle@);
    true
}

/// `str::starts_with`.
pub fn starts_with_chars(s: &Vec<char>, p: &Vec<char>) -> (r: bool)
    ensures
        r == starts_with(s@, p@),
{
    matches_at(s, p, 0)
}

/// `str::ends_with`.
pub fn ends_with_chars(s: &Vec<char>, p: &Vec<char>) -> (r: bool)
    ensures
        r == ends_with(s@, p@),
{
    if p.len() > s.len() {
        return false;
    }
    matches_at(s, p, s.len() - p.len())
}

/// Position of the first occurrence of `needle` at or after `from`.
pub fn find_from(s: &Vec<char>, needle: &Vec<char>, from: usize) -> (r: Option<usize>)
    ensures
        match r {
            Some(i) => from <= i && occurs_at(s@, needle@, i as int) && forall|k: int|
                from <= k < i ==> !occurs_at(s@, needle@, k),
            None => forall|k: int| from <= k ==> !occurs_at(s@, needle@, k),
        },
{
    if from > s.len() {
        return None;
    }
    let mut i: usize = from;
    while i < s.len()
        invariant
            from <= i <= s.len(),
            forall|k: int| from <= k < i ==> !occurs_at(s@, needle@, k),
        decreases s.len() - i,
    {
        if matches_at(s, needle, i) {
            return Some(i);
        }
        i = i + 1;
    }
    if matches_at(s, needle, i) {
        return Some(i);
    }
    None
}

/// `str::contains`.
pub fn contains_chars(s: &Vec<char>, needle: &Vec<char>) -> (r: bool)
    ensures
        r == contains(s@, needle@),
{
    match find_from(s, needle, 0) {
        Some(_) => true,
        None => false,
    }
}

/// Index of the first `c` in `s`.
pub open spec fn first_index_of(s: Seq<char>, c: char) -> Option<int> {
    if exists|i: int| 0 <= i < s.len() && s[i] == c {
        Some(choose|i: int| 0 <= i < s.len() && s[i] == c && forall|j: int| 0 <= j < i ==> s[j] != c)
    } else {
        None
    }
}

/// Position of the first `c` in `s` (`str::find` with a char).
pub fn find_char(s: &Vec<char>, c: char) -> (r: Option<usize>)
    ensures
        match r {
            Some(i) => i < s.len() && s@[i as int] == c && forall|j: int| 0 <= j < i ==> s@[j] != c,
            None => forall|j: int| 0 <= j < s.len() ==> s@[j] != c,
        },
{
    let mut i: usize = 0;
    while i < s.len()
        invariant
            i <= s.len(),
            forall|j: int| 0 <= j < i ==> s@[j] != c,
        decreases s.len() - i,
    {
        if s[i] == c {
            return Some(i);
        }
        i = i + 1;
    }
    None
}

/// Position of the last `c` in `s` (`str::rfind` with a char).
pub fn rfind_char(s: &Vec<char>, c: char) -> (r: Option<usize>)
    ensures
        match r {
            Some(i) => i < s.len() && s@[i as int] == c && forall|j: int|
                i < j < s.len() ==> s@[j] != c,
            None => forall|j: int| 0 <= j < s.len() ==> s@[j] != c,
        },
{
    let mut k: usize = s.len();
    while k > 0
        invariant
            k <= s.len(),
            forall|j: int| k <= j < s.len() ==> s@[j] != c,
        decreases k,
    {
        if s[k - 1] == c {
            return Some(k - 1);
        }
        k = k - 1;
    }
    None
}

/// `find_char` agrees with `first_index_of`.
pub proof fn lemma_first_index_of(s: Seq<char>, c: char, i: int)
    requires
        0 <= i < s.len(),
        s[i] == c,
        forall|j: int| 0 <= j < i ==> s[j] != c,
    ensures
        first_index_of(s, c) == Some(i),
{
    let k = choose|k: int| 0 <= k < s.len() && s[k] == c && forall|j: int| 0 <= j < k ==> s[j] != c;
    assert(0 <= k < s.len() && s[k] == c && forall|j: int| 0 <= j < k ==> s[j] != c);
    if k < i {
        assert(s[k] != c);
    }
    if i < k {
        assert(s[i] != c);
    }
}

/// No occurrence means `first_index_of` is `None`.
pub proof fn lemma_first_index_of_none(s: Seq<char>, c: char)
    requires
        forall|j: int| 0 <= j < s.len() ==> s[j] != c,
    ensures
        first_index_of(s, c) is None,
{
}

/// `first_index_of` as computed by `find_char`.
pub fn first_index(s: &Vec<char>, c: char) -> (r: Option<usize>)
    ensures
        match r {
            Some(i) => first_index_of(s@, c) == Some(i as int) && i < s.len(),
            None => first_index_of(s@, c) is None,
        },
{
    let r = find_char(s, c);
    proof {
        match r {
            Some(i) => lemma_first_index_of(s@, c, i as int),
            None => lemma_first_index_of_none(s@, c),
        }
    }
    r
}

/// Index of the last `c` in `s`.
pub open spec fn last_index_of(s: Seq<char>, c: char) -> Option<int> {
    if exists|i: int| 0 <= i < s.len() && s[i] == c {
        Some(choose|i: int| 0 <= i < s.len() && s[i] == c && forall|j: int| i < j < s.len() ==> s[j] != c)
    } else {
        None
    }
}

/// `rfind_char` agrees with `last_index_of`.
pub proof fn lemma_last_index_of(s: Seq<char>, c: char, i: int)
    requires
        0 <= i < s.len(),
        s[i] == c,
        forall|j: int| i < j < s.len() ==> s[j] != c,
    ensures
        last_index_of(s, c) == Some(i),
{
    let k = choose|k: int| 0 <= k < s.len() && s[k] == c && forall|j: int| k < j < s.len() ==> s[j] != c;
    assert(0 <= k < s.len() && s[k] == c && forall|j: int| k < j < s.len() ==> s[j] != c);
    if k < i {
        assert(s[i] != c);
    }
    if i < k {
        assert(s[k] != c);
    }
}

/// `last_index_of` as computed by `rfind_char`.
pub fn last_index(s: &Vec<char>, c: char) -> (r: Option<usize>)
    ensures
        match r {
            Some(i) => last_index_of(s@, c) == Some(i as int) && i < s.len(),
            None => last_index_of(s@, c) is None,
        },
{
    let r = rfind_char(s, c);
    proof {
        if let Some(i) = r {
            lemma_last_index_of(s@, c, i as int);
        }
    }
    r
}

/// `str::trim_end_matches` with a char pattern.
pub open spec fn trim_end_char(s: Seq<char>, c: char) -> Seq<char>
    decreases s.len(),
{
    if s.len() > 0 && s.last() == c {
        trim_end_char(s.drop_last(), c)
    } else {
        s
    }
}

proof fn lemma_trim_end_char_skip(s: Seq<char>, c: char, k: int)
    requires
        0 <= k <= s.len(),
        forall|j: int| k <= j < s.len() ==> s[j] == c,
    ensures
        trim_end_char(s, c) == trim_end_char(s.subrange(0, k), c),
    decreases s.len() - k,
{
    if k < s.len() {
        let t = s.drop_last();
        lemma_trim_end_char_skip(t, c, k);
        assert(t.subrange(0, k) =~= s.subrange(0, k));
    } else {
        assert(s.subrange(0, k) =~= s);
    }
}

/// `trim_end_char` on a character vector.
pub fn trim_end_char_chars(s: &Vec<char>, c: char) -> (r: Vec<char>)
    ensures
        r@ == trim_end_char(s@, c),
{
    let mut k: usize = s.len();
    while k > 0 && s[k - 1] == c
        invariant
            k <= s.len(),
            forall|j: int| k <= j < s.len() ==> s@[j] == c,
        decreases k,
    {
        k = k - 1;
    }
    proof {
        lemma_trim_end_char_skip(s@, c, k as int);
    }
    slice_chars(s, 0, k)
}

/// `str::trim_start_matches` with a char pattern.
pub open spec fn trim_start_char(s: Seq<char>, c: char) -> Seq<char>
    decreases s.len(),
{
    if s.len() > 0 && s[0] == c {
        trim_start_char(s.drop_first(), c)
    } else {
        s
    }
}

proof fn lemma_trim_start_char_skip(s: Seq<char>, c: char, i: int)
    requires
        0 <= i <= s.len(),
        forall|j: int| 0 <= j < i ==> s[j] == c,
    ensures
        trim_start_char(s, c) == trim_start_char(s.subrange(i, s.len() as int), c),
    decreases i,
{
    if i > 0 {
        let t = s.drop_first();
        assert forall|j: int| 0 <= j < i - 1 implies t[j] == c by {
            assert(t[j] == s[j + 1]);
        }
        lemma_trim_start_char_skip(t, c, i - 1);
        assert(t.subrange(i - 1, t.len() as int) =~= s.subrange(i, s.len() as int));
    } else {
        assert(s.subrange(0, s.len() as int) =~= s);
    }
}

/// `trim_start_char` on a character vector.
pub fn trim_start_char_chars(s: &Vec<char>, c: char) -> (r: Vec<char>)
    ensures
        r@ == trim_start_char(s@, c),
{
    let mut i: usize = 0;
    while i < s.len() && s[i] == c
        invariant
            i <= s.len(),
            forall|j: int| 0 <= j < i ==> s@[j] == c,
        decreases s.len() - i,
    {
        i = i + 1;
    }
    proof {
        lemma_trim_start_char_skip(s@, c, i as int);
    }
    slice_chars(s, i, s.len())
}

/// The characters of each string.
pub open spec fn string_views(v: Seq<String>) -> Seq<Seq<char>> {
    v.map_values(|s: String| s@)
}

/// The characters of an optional string.
pub open spec fn opt_string_view(o: Option<String>) -> Option<Seq<char>> {
    match o {
        Some(s) => Some(s@),
        None => None,
    }
}

// ------------------------------------------------------------ first match

/// The smallest index below `n` where `p` holds.
pub open spec fn first_where(n: int, p: spec_fn(int) -> bool) -> Option<int> {
    if exists|i: int| 0 <= i < n && #[trigger] p(i) {
        Some(choose|i: int| 0 <= i < n && #[trigger] p(i) && forall|j: int| 0 <= j < i ==> !#[trigger] p(j))
    } else {
        None
    }
}

/// A minimal witness is what `first_where` picks.
pub proof fn lemma_first_where(n: int, p: spec_fn(int) -> bool, i: int)
    requires
        0 <= i < n,
        p(i),
        forall|j: int| 0 <= j < i ==> !#[trigger] p(j),
    ensures
        first_where(n, p) == Some(i),
{
    let k = choose|k: int| 0 <= k < n && #[trigger] p(k) && forall|j: int| 0 <= j < k ==> !#[trigger] p(j);
    assert(0 <= k < n && p(k) && forall|j: int| 0 <= j < k ==> !#[trigger] p(j));
    if k < i {
        assert(!p(k));
    }
    if i < k {
        assert(!p(i));
    }
}

proof fn lemma_min_witness(n: int, p: spec_fn(int) -> bool) -> (k: int)
    requires
        exists|i: int| 0 <= i < n && #[trigger] p(i),
    ensures
        0 <= k < n,
        p(k),
        forall|j: int| 0 <= j < k ==> !#[trigger] p(j),
    decreases n,
{
    if exists|i: int| 0 <= i < n - 1 && #[trigger] p(i) {
        lemma_min_witness(n - 1, p)
    } else {
        n - 1
    }
}

/// Where there is a witness, there is a first one, and `first_where`
/// picks it.
pub proof fn lemma_first_where_some(n: int, p: spec_fn(int) -> bool) -> (k: int)
    requires
        exists|i: int| 0 <= i < n && #[trigger] p(i),
    ensures
        0 <= k < n,
        p(k),
        first_where(n, p) == Some(k),
{
    let k = lemma_min_witness(n, p);
    lemma_first_where(n, p, k);
    k
}

/// No witness means `first_where` is `None`.
pub proof fn lemma_first_where_none(n: int, p: spec_fn(int) -> bool)
    requires
        forall|j: int| 0 <= j < n ==> !#[trigger] p(j),
    ensures
        first_where(n, p) is None,
{
}

// ------------------------------------------------------------ ASCII case

/// `char::to_ascii_lowercase`.
pub open spec fn ascii_lower(c: char) -> char {
    if 'A' <= c && c <= 'Z' {
        ((c as u32) + 32) as char
    } else {
        c
    }
}

/// Executable `char::to_ascii_lowercase`.
pub fn to_ascii_lower(c: char) -> (r: char)
    ensures
        r == ascii_lower(c),
{
    if 'A' <= c && c <= 'Z' {
        ((c as u8) + 32) as char
    } else {
        c
    }
}

/// What `str::to_lowercase` returns for a text (Unicode lower-case mapping).
pub uninterp spec fn lowercase_result(s: Seq<char>) -> Seq<char>;

/// ASCII lower-case of every character.
pub open spec fn ascii_lower_text(s: Seq<char>) -> Seq<char> {
    s.map_values(|c: char| ascii_lower(c))
}

/// `str::to_lowercase`.  Its result is named; of an ASCII text the std
/// documentation gives it as the ASCII lower-case.
#[verifier::external_body]
pub(crate) fn to_lowercase(s: &str) -> (r: String)
    ensures
        r@ == lowercase_result(s@),
        vstd::utf8::is_ascii_chars(s@) ==> r@ == ascii_lower_text(s@),
{
    s.to_lowercase()
}

/// The index of the first white-space character of `t`, or its length.
pub open spec fn word_end(t: Seq<char>) -> int {
    if exists|i: int| 0 <= i < t.len() && is_ws(#[trigger] t[i]) {
        choose|i: int|
            0 <= i < t.len() && is_ws(#[trigger] t[i]) && forall|j: int|
                0 <= j < i ==> !is_ws(#[trigger] t[j])
    } else {
        t.len() as int
    }
}

proof fn lemma_word_end(t: Seq<char>, k: int)
    requires
        0 <= k <= t.len(),
        k < t.len() ==> is_ws(t[k]),
        forall|j: int| 0 <= j < k ==> !is_ws(#[trigger] t[j]),
    ensures
        word_end(t) == k,
{
    if exists|i: int| 0 <= i < t.len() && is_ws(#[trigger] t[i]) {
        let m = choose|i: int|
            0 <= i < t.len() && is_ws(#[trigger] t[i]) && forall|j: int|
                0 <= j < i ==> !is_ws(#[trigger] t[j]);
        let w = choose|i: int| 0 <= i < t.len() && is_ws(#[trigger] t[i]);
        assert(0 <= w < t.len() && is_ws(t[w]));
        if k == t.len() {
            assert(!is_ws(t[w]));
        }
        assert(0 <= m < t.len() && is_ws(t[m]) && forall|j: int| 0 <= j < m ==> !is_ws(#[trigger] t[j]));
        if m < k {
            assert(!is_ws(t[m]));
        }
        if k < m {
            assert(!is_ws(t[k]));
        }
    }
}

/// The first white-space separated word (`split_whitespace().next()`).
pub open spec fn first_word(s: Seq<char>) -> Option<Seq<char>> {
    let t = trim_start(s);
    if t.len() == 0 {
        None
    } else {
        Some(t.subrange(0, word_end(t)))
    }
}

/// `split_whitespace().next()` on a character vector.
pub fn first_word_chars(s: &Vec<char>) -> (r: Option<Vec<char>>)
    ensures
        match r {
            Some(w) => first_word(s@) == Some(w@),
            None => first_word(s@) is None,
        },
{
    let t = trim_start_chars(s);
    if t.len() == 0 {
        return None;
    }
    let mut k: usize = 0;
    while k < t.len() && !char_is_ws(t[k])
        invariant
            k <= t.len(),
            forall|j: int| 0 <= j < k ==> !is_ws(#[trigger] t@[j]),
        decreases t.len() - k,
    {
        k = k + 1;
    }
    proof {
        lemma_word_end(t@, k as int);
    }
    Some(slice_chars(&t, 0, k))
}

/// `needle` occurs at `i` in `s`, comparing ASCII letters without case.
pub open spec fn ci_occurs_at(s: Seq<char>, needle: Seq<char>, i: int) -> bool {
    0 <= i && i + needle.len() <= s.len() && forall|k: int|
        0 <= k < needle.len() ==> ascii_lower(#[trigger] s[i + k]) == ascii_lower(needle[k])
}

/// ASCII case-insensitive substring test.
pub open spec fn contains_ci(s: Seq<char>, needle: Seq<char>) -> bool {
    exists|i: int| ci_occurs_at(s, needle, i)
}

/// ASCII case-insensitive `contains`, as steamcmd output is matched.
pub fn contains_ci_chars(s: &Vec<char>, needle: &Vec<char>) -> (r: bool)
    ensures
        r == contains_ci(s@, needle@),
{
    if needle.len() == 0 {
        assert(ci_occurs_at(s@, needle@, 0));
        return true;
    }
    if s.len() < needle.len() {
        return false;
    }
    let mut start: usize = 0;
    while start <= s.len() - needle.len()
        invariant
            needle.len() <= s.len(),
            start <= s.len() - needle.len() + 1,
            forall|i: int| 0 <= i < start ==> !ci_occurs_at(s@, needle@, i),
        decreases s.len() - needle.len() + 1 - start,
    {
        let mut k: usize = 0;
        let mut ok = true;
        while k < needle.len()
            invariant
                start + needle.len() <= s.len(),
                k <= needle.len(),
                ok ==> forall|j: int| 0 <= j < k ==> ascii_lower(#[trigger] s@[start + j]) == ascii_lower(needle@[j]),
                !ok ==> !ci_occurs_at(s@, needle@, start as int),
            decreases needle.len() - k,
        {
            if ok && to_ascii_lower(s[start + k]) != to_ascii_lower(needle[k]) {
                ok = false;
            }
            k = k + 1;
        }
        if ok {
            assert(ci_occurs_at(s@, needle@, start as int));
            return true;
        }
        start = start + 1;
    }
    assert forall|i: int| !ci_occurs_at(s@, needle@, i) by {
        if 0 <= i < start {
        }
    }
    false
}

// ------------------------------------------------------------ UTF-8 length

/// Number of bytes in the UTF-8 encoding of one character.
pub open spec fn char_utf8_len(c: char) -> nat {
    let u = c as u32;
    if u <= 0x7f {
        1
    } else if u <= 0x7ff {
        2
    } else if u <= 0xffff {
        3
    } else {
        4
    }
}

/// Number of bytes in the UTF-8 encoding of a character sequence.
pub open spec fn utf8_len(s: Seq<char>) -> nat
    decreases s.len(),
{
    if s.len() == 0 {
        0
    } else {
        char_utf8_len(s[0]) + utf8_len(s.drop_first())
    }
}

/// `utf8_len` is the length of vstd's `encode_utf8`.
pub proof fn lemma_utf8_len(s: Seq<char>)
    ensures
        vstd::utf8::encode_utf8(s).len() == utf8_len(s),
    decreases s.len(),
{
    if s.len() > 0 {
        lemma_utf8_len(s.drop_first());
        vstd::utf8::char_is_scalar(s[0]);
    }
}

proof fn lemma_utf8_len_push(s: Seq<char>, c: char)
    ensures
        utf8_len(s.push(c)) == utf8_len(s) + char_utf8_len(c),
    decreases s.len(),
{
    if s.len() == 0 {
        assert(s.push(c).drop_first() =~= s);
    } else {
        lemma_utf8_len_push(s.drop_first(), c);
        assert(s.push(c).drop_first() =~= s.drop_first().push(c));
    }
}

proof fn lemma_utf8_len_prefix_step(s: Seq<char>, k: int)
    requires
        0 <= k < s.len(),
    ensures
        utf8_len(s.subrange(0, k + 1)) == utf8_len(s.subrange(0, k)) + char_utf8_len(s[k]),
{
    lemma_utf8_len_push(s.subrange(0, k), s[k]);
    assert(s.subrange(0, k).push(s[k]) =~= s.subrange(0, k + 1));
}

proof fn lemma_utf8_len_prefix_mono(s: Seq<char>, j: int, k: int)
    requires
        0 <= j <= k <= s.len(),
    ensures
        utf8_len(s.subrange(0, j)) + (k - j) <= utf8_len(s.subrange(0, k)),
    decreases k - j,
{
    if j < k {
        lemma_utf8_len_prefix_mono(s, j, k - 1);
        lemma_utf8_len_prefix_step(s, k - 1);
    }
}

/// `str::get(..n)`: the prefix whose UTF-8 encoding is `n` bytes long, when
/// byte `n` is a character boundary within the text.
pub open spec fn byte_prefix(s: Seq<char>, n: nat) -> Option<Seq<char>> {
    if exists|k: int| 0 <= k <= s.len() && utf8_len(#[trigger] s.subrange(0, k)) == n {
        Some(
            s.subrange(
                0,
                choose|k: int| 0 <= k <= s.len() && utf8_len(#[trigger] s.subrange(0, k)) == n,
            ),
        )
    } else {
        None
    }
}

/// `byte_prefix` on a character vector.
pub fn byte_prefix_chars(s: &Vec<char>, n: usize) -> (r: Option<Vec<char>>)
    requires
        n <= usize::MAX - 4,
    ensures
        match r {
            Some(p) => byte_prefix(s@, n as nat) == Some(p@),
            None => byte_prefix(s@, n as nat) is None,
        },
{
    let mut acc: usize = 0;
    let mut k: usize = 0;
    while k < s.len() && acc < n
        invariant
            k <= s.len(),
            n <= usize::MAX - 4,
            acc == utf8_len(s@.subrange(0, k as int)),
            k > 0 ==> utf8_len(s@.subrange(0, k - 1)) < n,
        decreases s.len() - k,
    {
        proof {
            lemma_utf8_len_prefix_step(s@, k as int);
        }
        let c = s[k] as u32;
        let w: usize = if c <= 0x7f {
            1
        } else if c <= 0x7ff {
            2
        } else if c <= 0xffff {
            3
        } else {
            4
        };
        acc = acc + w;
        k = k + 1;
    }
    proof {
        assert(s@.subrange(0, 0) =~= Seq::<char>::empty());
        assert forall|j: int| 0 <= j < k implies utf8_len(#[trigger] s@.subrange(0, j)) < n by {
            if k > 0 {
                lemma_utf8_len_prefix_mono(s@, j, k - 1);
            }
        }
    }
    if acc == n {
        proof {
            let m = choose|m: int| 0 <= m <= s@.len() && utf8_len(#[trigger] s@.subrange(0, m)) == n;
            if m < k {
                assert(utf8_len(s@.subrange(0, m)) < n);
            }
            if m > k {
                lemma_utf8_len_prefix_mono(s@, k as int, m);
            }
        }
        Some(slice_chars(s, 0, k))
    } else {
        proof {
            assert forall|m: int| 0 <= m <= s@.len() implies utf8_len(#[trigger] s@.subrange(0, m))
                != n by {
                if m >= k {
                    lemma_utf8_len_prefix_mono(s@, k as int, m);
                }
            }
        }
        None
    }
}

/// `str::replace` with a non-empty text pattern: the occurrences of `from`
/// found from left to right, without overlap, become `to`.
pub open spec fn replace_text(s: Seq<char>, from: Seq<char>, to: Seq<char>) -> Seq<char>
    decreases s.len(),
{
    if from.len() == 0 || s.len() < from.len() {
        s
    } else if s.subrange(0, from.len() as int) == from {
        to + replace_text(s.subrange(from.len() as int, s.len() as int), from, to)
    } else {
        seq![s[0]] + replace_text(s.drop_first(), from, to)
    }
}

/// `str::replace` on a character vector.
pub fn replace_text_chars(s: &Vec<char>, from: &Vec<char>, to: &Vec<char>) -> (r: Vec<char>)
    requires
        from@.len() > 0,
    ensures
        r@ == replace_text(s@, from@, to@),
{
    let mut out: Vec<char> = Vec::new();
    let mut i: usize = 0;
    assert(s@.subrange(0, s@.len() as int) =~= s@);
    assert(out@ + replace_text(s@, from@, to@) =~= replace_text(s@, from@, to@));
    while i < s.len()
        invariant
            i <= s.len(),
            from@.len() > 0,
            out@ + replace_text(s@.subrange(i as int, s@.len() as int), from@, to@) == replace_text(
                s@,
                from@,
                to@,
            ),
        decreases s.len() - i,
    {
        let ghost t = s@.subrange(i as int, s@.len() as int);
        if matches_at(s, from, i) {
            proof {
                assert(t.subrange(0, from@.len() as int) =~= from@);
                assert(t.subrange(from@.len() as int, t.len() as int) =~= s@.subrange(
                    i + from@.len(),
                    s@.len() as int,
                ));
                assert(out@ + to@ + replace_text(
                    s@.subrange(i + from@.len(), s@.len() as int),
                    from@,
                    to@,
                ) =~= out@ + (to@ + replace_text(
                    s@.subrange(i + from@.len(), s@.len() as int),
                    from@,
                    to@,
                )));
            }
            push_all(&mut out, to);
            i = i + from.len();
        } else {
            proof {
                if t.len() >= from@.len() {
                    assert(t.subrange(0, from@.len() as int) =~= s@.subrange(
                        i as int,
                        i + from@.len(),
                    ));
                }
                assert(t.drop_first() =~= s@.subrange(i + 1, s@.len() as int));
                assert(out@.push(s@[i as int]) + replace_text(
                    s@.subrange(i + 1, s@.len() as int),
                    from@,
                    to@,
                ) =~= out@ + (seq![t[0]] + replace_text(t.drop_first(), from@, to@)));
            }
            out.push(s[i]);
            i = i + 1;
        }
    }
    assert(s@.subrange(s@.len() as int, s@.len() as int) =~= Seq::<char>::empty());
    assert(out@ + Seq::<char>::empty() =~= out@);
    out
}

/// Byte length of the UTF-8 encoding of a character vector, saturating at
/// `usize::MAX`.
pub fn utf8_len_chars(s: &Vec<char>) -> (r: usize)
    ensures
        r == if utf8_len(s@) <= usize::MAX {
            utf8_len(s@)
        } else {
            usize::MAX as nat
        },
{
    let mut n: usize = 0;
    let mut i: usize = 0;
    while i < s.len()
        invariant
            i <= s.len(),
            n == if utf8_len(s@.subrange(0, i as int)) <= usize::MAX {
                utf8_len(s@.subrange(0, i as int))
            } else {
                usize::MAX as nat
            },
        decreases s.len() - i,
    {
        proof {
            assert(s@.subrange(0, i + 1) =~= s@.subrange(0, i as int).push(s@[i as int]));
            lemma_utf8_len_push(s@.subrange(0, i as int), s@[i as int]);
        }
        let u = s[i] as u32;
        let w: usize = if u <= 0x7f {
            1
        } else if u <= 0x7ff {
            2
        } else if u <= 0xffff {
            3
        } else {
            4
        };
        n = n.saturating_add(w);
        i = i + 1;
    }
    assert(s@.subrange(0, s@.len() as int) =~= s@);
    n
}

// ------------------------------------------------------------ splitting

/// `str::split` with a char separator: the pieces between separators, empty
/// pieces included (n separators give n + 1 pieces).
pub open spec fn split(s: Seq<char>, sep: char) -> Seq<Seq<char>>
    decreases s.len(),
{
    if s.len() == 0 {
        seq![Seq::<char>::empty()]
    } else {
        let p = split(s.drop_last(), sep);
        if s.last() == sep {
            p.push(Seq::<char>::empty())
        } else {
            p.update(p.len() - 1, p.last().push(s.last()))
        }
    }
}

pub proof fn lemma_split_nonempty(s: Seq<char>, sep: char)
    ensures
        split(s, sep).len() >= 1,
    decreases s.len(),
{
    if s.len() > 0 {
        lemma_split_nonempty(s.drop_last(), sep);
    }
}

/// Splits a character vector at every `sep`.
pub fn split_chars(s: &Vec<char>, sep: char) -> (r: Vec<Vec<char>>)
    ensures
        r@.len() == split(s@, sep).len(),
        forall|i: int| 0 <= i < r@.len() ==> #[trigger] r@[i]@ == split(s@, sep)[i],
{
    let mut out: Vec<Vec<char>> = Vec::new();
    let mut cur: Vec<char> = Vec::new();
    let mut i: usize = 0;
    while i < s.len()
        invariant
            i <= s.len(),
            split(s@.subrange(0, i as int), sep).len() == out@.len() + 1,
            forall|k: int|
                0 <= k < out@.len() ==> #[trigger] out@[k]@ == split(
                    s@.subrange(0, i as int),
                    sep,
                )[k],
            cur@ == split(s@.subrange(0, i as int), sep).last(),
        decreases s.len() - i,
    {
        proof {
            lemma_split_nonempty(s@.subrange(0, i as int), sep);
            assert(s@.subrange(0, i + 1).drop_last() =~= s@.subrange(0, i as int));
        }
        if s[i] == sep {
            out.push(cur);
            cur = Vec::new();
        } else {
            cur.push(s[i]);
        }
        i = i + 1;
    }
    assert(s@.subrange(0, s@.len() as int) =~= s@);
    out.push(cur);
    out
}

/// Splits a string slice at every `sep`.
pub fn split_str(s: &str, sep: char) -> (r: Vec<Vec<char>>)
    ensures
        r@.len() == split(s@, sep).len(),
        forall|i: int| 0 <= i < r@.len() ==> #[trigger] r@[i]@ == split(s@, sep)[i],
{
    let v = to_chars(s);
    split_chars(&v, sep)
}

/// No character of `s` is `c`.
pub open spec fn lacks(s: Seq<char>, c: char) -> bool {
    forall|i: int| 0 <= i < s.len() ==> s[i] != c
}

/// A text without the separator splits into itself alone.
pub proof fn lemma_split_lacks(s: Seq<char>, sep: char)
    requires
        lacks(s, sep),
    ensures
        split(s, sep) == seq![s],
    decreases s.len(),
{
    if s.len() > 0 {
        lemma_split_lacks(s.drop_last(), sep);
        assert(s.drop_last().push(s.last()) =~= s);
        assert(seq![s.drop_last()].update(0, s.drop_last().push(s.last())) =~= seq![s]);
    } else {
        assert(s =~= Seq::<char>::empty());
    }
}

/// Splitting `a`, a separator and a piece without separator adds that piece.
pub proof fn lemma_split_append(a: Seq<char>, b: Seq<char>, sep: char)
    requires
        lacks(b, sep),
    ensures
        split(a.push(sep) + b, sep) == split(a, sep).push(b),
    decreases b.len(),
{
    if b.len() == 0 {
        assert(a.push(sep) + b =~= a.push(sep));
        assert(a.push(sep).drop_last() =~= a);
        assert(b =~= Seq::<char>::empty());
    } else {
        let s = a.push(sep) + b;
        lemma_split_append(a, b.drop_last(), sep);
        assert(s.drop_last() =~= a.push(sep) + b.drop_last());
        assert(s.last() == b.last());
        assert(b.drop_last().push(b.last()) =~= b);
        let p = split(a, sep);
        assert(p.push(b.drop_last()).update(p.len() as int, b) =~= p.push(b));
    }
}

// ------------------------------------------------------------ joining

/// `[String]::join` with a char separator.
pub open spec fn join(parts: Seq<Seq<char>>, sep: char) -> Seq<char>
    decreases parts.len(),
{
    if parts.len() == 0 {
        Seq::empty()
    } else if parts.len() == 1 {
        parts[0]
    } else {
        join(parts.drop_last(), sep).push(sep) + parts.last()
    }
}

/// The views of character vectors.
pub open spec fn views(v: Seq<Vec<char>>) -> Seq<Seq<char>> {
    v.map_values(|x: Vec<char>| x@)
}

/// Joins character vectors with `sep` between them.
pub fn join_chars(parts: &Vec<Vec<char>>, sep: char) -> (r: Vec<char>)
    ensures
        r@ == join(views(parts@), sep),
{
    let mut r: Vec<char> = Vec::new();
    if parts.len() == 0 {
        return r;
    }
    push_all(&mut r, &parts[0]);
    assert(views(parts@.subrange(0, 1)) =~= seq![parts@[0]@]);
    let mut i: usize = 1;
    while i < parts.len()
        invariant
            1 <= i <= parts.len(),
            r@ == join(views(parts@.subrange(0, i as int)), sep),
        decreases parts.len() - i,
    {
        r.push(sep);
        push_all(&mut r, &parts[i]);
        proof {
            let a = views(parts@.subrange(0, i + 1));
            assert(a.drop_last() =~= views(parts@.subrange(0, i as int)));
            assert(a.last() == parts@[i as int]@);
        }
        i = i + 1;
    }
    assert(parts@.subrange(0, parts@.len() as int) =~= parts@);
    r
}

/// Splitting a join at its separator gives the parts back, when no part
/// holds the separator.
pub proof fn lemma_split_join(parts: Seq<Seq<char>>, sep: char)
    requires
        parts.len() >= 1,
        forall|i: int| 0 <= i < parts.len() ==> lacks(#[trigger] parts[i], sep),
    ensures
        split(join(parts, sep), sep) == parts,
    decreases parts.len(),
{
    if parts.len() == 1 {
        lemma_split_lacks(parts[0], sep);
        assert(seq![parts[0]] =~= parts);
    } else {
        let init = parts.drop_last();
        assert forall|i: int| 0 <= i < init.len() implies lacks(#[trigger] init[i], sep) by {
            assert(init[i] == parts[i]);
        }
        lemma_split_join(init, sep);
        assert(lacks(parts[parts.len() - 1], sep));
        lemma_split_append(join(init, sep), parts.last(), sep);
        assert(init.push(parts.last()) =~= parts);
    }
}

/// A join lacks a character that neither the parts nor the separator hold.
pub proof fn lemma_join_lacks(parts: Seq<Seq<char>>, sep: char, c: char)
    requires
        sep != c,
        forall|i: int| 0 <= i < parts.len() ==> lacks(#[trigger] parts[i], c),
    ensures
        lacks(join(parts, sep), c),
    decreases parts.len(),
{
    if parts.len() == 1 {
        assert(lacks(parts[0], c));
    } else if parts.len() > 1 {
        let init = parts.drop_last();
        assert forall|i: int| 0 <= i < init.len() implies lacks(#[trigger] init[i], c) by {
            assert(init[i] == parts[i]);
        }
        lemma_join_lacks(init, sep, c);
        let a = join(init, sep).push(sep);
        let b = parts.last();
        assert(lacks(parts[parts.len() - 1], c));
        assert forall|i: int| 0 <= i < (a + b).len() implies (a + b)[i] != c by {
            if i < a.len() {
                assert((a + b)[i] == a[i]);
            } else {
                assert((a + b)[i] == b[i - a.len()]);
            }
        }
    }
}

/// A join of ASCII parts with an ASCII separator is ASCII.
pub proof fn lemma_join_ascii(parts: Seq<Seq<char>>, sep: char)
    requires
        sep <= '\u{7f}',
        forall|i: int| 0 <= i < parts.len() ==> vstd::utf8::is_ascii_chars(#[trigger] parts[i]),
    ensures
        vstd::utf8::is_ascii_chars(join(parts, sep)),
    decreases parts.len(),
{
    if parts.len() == 1 {
        assert(vstd::utf8::is_ascii_chars(parts[0]));
    } else if parts.len() > 1 {
        let init = parts.drop_last();
        assert forall|i: int| 0 <= i < init.len() implies vstd::utf8::is_ascii_chars(
            #[trigger] init[i],
        ) by {
            assert(init[i] == parts[i]);
        }
        lemma_join_ascii(init, sep);
        let a = join(init, sep).push(sep);
        let b = parts.last();
        assert(vstd::utf8::is_ascii_chars(parts[parts.len() - 1]));
        assert forall|i: int| 0 <= i < (a + b).len() implies '\0' <= #[trigger] (a + b)[i]
            <= '\u{7f}' by {
            if i < a.len() {
                assert((a + b)[i] == a[i]);
            } else {
                assert((a + b)[i] == b[i - a.len()]);
            }
        }
    }
}

// ------------------------------------------------------------ integers

/// Decimal digit character for `d < 10`.
pub open spec fn digit_char(d: nat) -> char {
    ((48 + d) as u8) as char
}

/// Lower-case hexadecimal digit for `d < 16`.
pub open spec fn hex_lower(d: nat) -> char {
    if d < 10 {
        ((48 + d) as u8) as char
    } else {
        ((87 + d) as u8) as char
    }
}

/// Decimal representation of a natural number (`u64`'s `Display`).
pub open spec fn dec(n: nat) -> Seq<char>
    decreases n,
{
    if n < 10 {
        seq![digit_char(n)]
    } else {
        dec(n / 10).push(digit_char(n % 10))
    }
}

/// Decimal representation of an integer (`i64`'s `Display`).
pub open spec fn dec_int(n: int) -> Seq<char> {
    if n < 0 {
        seq!['-'] + dec((-n) as nat)
    } else {
        dec(n as nat)
    }
}

/// Decimal representation of `n`, left-padded with zeros to `width` digits
/// (`{:0width$}`).
pub open spec fn dec_pad(n: nat, width: nat) -> Seq<char> {
    let d = dec(n);
    if d.len() >= width {
        d
    } else {
        Seq::new((width - d.len()) as nat, |i: int| '0') + d
    }
}

/// Formats a `u64` in decimal.
pub fn u64_to_dec(n: u64) -> (r: Vec<char>)
    ensures
        r@ == dec(n as nat),
    decreases n,
{
    if n < 10 {
        let c = (48u8 + n as u8) as char;
        let mut r = Vec::new();
        r.push(c);
        r
    } else {
        let mut r = u64_to_dec(n / 10);
        r.push((48u8 + (n % 10) as u8) as char);
        r
    }
}

/// Formats an `i64` in decimal.
pub fn i64_to_dec(n: i64) -> (r: Vec<char>)
    ensures
        r@ == dec_int(n as int),
{
    if n < 0 {
        let m: u64 = if n == i64::MIN {
            9223372036854775808u64
        } else {
            (-n) as u64
        };
        let d = u64_to_dec(m);
        let mut r = Vec::new();
        r.push('-');
        push_all(&mut r, &d);
        r
    } else {
        u64_to_dec(n as u64)
    }
}

/// Formats `n` in decimal, zero-padded to `width` digits.
pub fn u64_to_dec_pad(n: u64, width: usize) -> (r: Vec<char>)
    ensures
        r@ == dec_pad(n as nat, width as nat),
{
    let d = u64_to_dec(n);
    if d.len() >= width {
        d
    } else {
        let mut r = Vec::new();
        let k = width - d.len();
        let mut i: usize = 0;
        while i < k
            invariant
                i <= k,
                r@ == Seq::new(i as nat, |j: int| '0'),
            decreases k - i,
        {
            r.push('0');
            i = i + 1;
            assert(r@ =~= Seq::new(i as nat, |j: int| '0'));
        }
        push_all(&mut r, &d);
        r
    }
}

/// Value of a digit character in the given radix (`char::to_digit`).
pub open spec fn digit_val(c: char, radix: nat) -> Option<nat> {
    let u = c as u32;
    let v: int = if 48 <= u <= 57 {
        u - 48
    } else if 97 <= u <= 122 {
        u - 87
    } else if 65 <= u <= 90 {
        u - 55
    } else {
        99
    };
    if v < radix {
        Some(v as nat)
    } else {
        None
    }
}

/// Executable `char::to_digit` for radix 10 or 16.
pub fn char_digit(c: char, radix: u32) -> (r: Option<u32>)
    requires
        radix == 10 || radix == 16,
    ensures
        match r {
            Some(v) => digit_val(c, radix as nat) == Some(v as nat),
            None => digit_val(c, radix as nat) is None,
        },
{
    let u = c as u32;
    let v: u32 = if 48 <= u && u <= 57 {
        u - 48
    } else if 97 <= u && u <= 122 {
        u - 87
    } else if 65 <= u && u <= 90 {
        u - 55
    } else {
        99
    };
    if v < radix {
        Some(v)
    } else {
        None
    }
}

/// Every character of `s` is a digit in `radix`.
pub open spec fn all_digits(s: Seq<char>, radix: nat) -> bool {
    forall|i: int| 0 <= i < s.len() ==> (#[trigger] digit_val(s[i], radix)) is Some
}

/// The number that the digit string `s` denotes.
pub open spec fn digits_value(s: Seq<char>, radix: nat) -> nat
    decreases s.len(),
{
    if s.len() == 0 {
        0
    } else {
        digits_value(s.drop_last(), radix) * radix + digit_val(s.last(), radix).unwrap()
    }
}

/// The digits after an optional leading `+`.
pub open spec fn unsigned_digits(s: Seq<char>) -> Seq<char> {
    if s.len() > 0 && s[0] == '+' {
        s.drop_first()
    } else {
        s
    }
}

/// `from_str_radix` for an unsigned type whose largest value is `max`:
/// an optional `+`, then at least one digit, value at most `max`.
pub open spec fn parse_unsigned(s: Seq<char>, radix: nat, max: nat) -> Option<nat> {
    let d = unsigned_digits(s);
    if d.len() == 0 || !all_digits(d, radix) || digits_value(d, radix) > max {
        None
    } else {
        Some(digits_value(d, radix))
    }
}

/// `i64::from_str`: an optional sign, then at least one decimal digit.
pub open spec fn parse_i64_spec(s: Seq<char>) -> Option<int> {
    if s.len() > 0 && s[0] == '-' {
        let d = s.drop_first();
        if d.len() == 0 || !all_digits(d, 10) || digits_value(d, 10) > 0x8000_0000_0000_0000 {
            None
        } else {
            Some(-(digits_value(d, 10) as int))
        }
    } else {
        match parse_unsigned(s, 10, 0x7fff_ffff_ffff_ffff) {
            Some(v) => Some(v as int),
            None => None,
        }
    }
}

proof fn lemma_digits_value_push(s: Seq<char>, c: char, radix: nat)
    ensures
        digits_value(s.push(c), radix) == digits_value(s, radix) * radix + digit_val(
            c,
            radix,
        ).unwrap(),
{
    assert(s.push(c).drop_last() =~= s);
}

/// Parses the digits `s[a..b]` (no sign) as an unsigned number not above `max`.
fn parse_digits_range(s: &Vec<char>, a: usize, b: usize, radix: u32, max: u64) -> (r: Option<u64>)
    requires
        a <= b <= s.len(),
        radix == 10 || radix == 16,
    ensures
        ({
            let d = s@.subrange(a as int, b as int);
            match r {
                Some(v) => all_digits(d, radix as nat) && digits_value(d, radix as nat) == v
                    && v <= max,
                None => !all_digits(d, radix as nat) || digits_value(d, radix as nat) > max,
            }
        }),
{
    let mut acc: u64 = 0;
    let mut i: usize = a;
    let ghost d = s@.subrange(a as int, b as int);
    while i < b
        invariant
            a <= i <= b <= s.len(),
            radix == 10 || radix == 16,
            d == s@.subrange(a as int, b as int),
            all_digits(s@.subrange(a as int, i as int), radix as nat),
            digits_value(s@.subrange(a as int, i as int), radix as nat) == acc,
            acc <= max,
        decreases b - i,
    {
        let ghost pre = s@.subrange(a as int, i as int);
        proof {
            assert(s@.subrange(a as int, i + 1) =~= pre.push(s@[i as int]));
            lemma_digits_value_push(pre, s@[i as int], radix as nat);
        }
        match char_digit(s[i], radix) {
            None => {
                assert(d[i - a] == s@[i as int]);
                assert(digit_val(d[i - a], radix as nat) is None);
                return None;
            },
            Some(v) => {
                let m = acc.checked_mul(radix as u64);
                match m {
                    None => {
                        proof {
                            overflow_step(s@, a as int, i as int, b as int, radix as nat, acc as nat, max as nat);
                        }
                        return None;
                    },
                    Some(m) => {
                        let t = m.checked_add(v as u64);
                        match t {
                            None => {
                                proof {
                                    overflow_step(s@, a as int, i as int, b as int, radix as nat, acc as nat, max as nat);
                                }
                                return None;
                            },
                            Some(t) => {
                                if t > max {
                                    proof {
                                        overflow_step(s@, a as int, i as int, b as int, radix as nat, acc as nat, max as nat);
                                    }
                                    return None;
                                }
                                acc = t;
                            },
                        }
                    },
                }
            },
        }
        i = i + 1;
        proof {
            let q = s@.subrange(a as int, i as int);
            assert forall|j: int| 0 <= j < q.len() implies (#[trigger] digit_val(q[j], radix as nat)) is Some by {
                if j < q.len() - 1 {
                    assert(q[j] == pre[j]);
                }
            }
        }
    }
    Some(acc)
}

/// Once the digits read so far exceed `max`, so does the whole digit string.
proof fn overflow_step(s: Seq<char>, a: int, i: int, b: int, radix: nat, acc: nat, max: nat)
    requires
        0 <= a <= i < b <= s.len(),
        radix >= 2,
        digits_value(s.subrange(a, i), radix) == acc,
        digit_val(s[i], radix) is Some,
        acc * radix + digit_val(s[i], radix).unwrap() > max,
    ensures
        !all_digits(s.subrange(a, b), radix) || digits_value(s.subrange(a, b), radix) > max,
{
    let d = s.subrange(a, b);
    if all_digits(d, radix) {
        lemma_digits_value_bound(d, i - a, radix);
        assert(d.subrange(0, i - a + 1) =~= s.subrange(a, i).push(s[i]));
        lemma_digits_value_push(s.subrange(a, i), s[i], radix);
    }
}

/// A prefix of an all-digit string never denotes more than the whole string.
proof fn lemma_digits_value_bound(d: Seq<char>, k: int, radix: nat)
    requires
        0 <= k < d.len(),
        radix >= 2,
        all_digits(d, radix),
    ensures
        digits_value(d, radix) >= digits_value(d.subrange(0, k + 1), radix),
    decreases d.len(),
{
    if k + 1 < d.len() {
        let t = d.drop_last();
        assert forall|j: int| 0 <= j < t.len() implies (#[trigger] digit_val(t[j], radix)) is Some by {
            assert(t[j] == d[j]);
        }
        lemma_digits_value_bound(t, k, radix);
        assert(t.subrange(0, k + 1) =~= d.subrange(0, k + 1));
        assert(digits_value(d, radix) >= digits_value(t, radix)) by (nonlinear_arith)
            requires
                digits_value(d, radix) == digits_value(t, radix) * radix + digit_val(
                    d.last(),
                    radix,
                ).unwrap(),
                radix >= 2,
        ;
    } else {
        assert(d.subrange(0, k + 1) =~= d);
    }
}

/// `u64::from_str_radix`-style parse of a whole character vector
/// (radix 10 or 16), limited to values not above `max`.
pub fn parse_unsigned_chars(s: &Vec<char>, radix: u32, max: u64) -> (r: Option<u64>)
    requires
        radix == 10 || radix == 16,
    ensures
        match r {
            Some(v) => parse_unsigned(s@, radix as nat, max as nat) == Some(v as nat),
            None => parse_unsigned(s@, radix as nat, max as nat) is None,
        },
{
    let a: usize = if s.len() > 0 && s[0] == '+' {
        1
    } else {
        0
    };
    proof {
        if a == 1 {
            assert(s@.drop_first() =~= s@.subrange(1, s@.len() as int));
        } else {
            assert(s@ =~= s@.subrange(0, s@.len() as int));
        }
    }
    if a == s.len() {
        return None;
    }
    parse_digits_range(s, a, s.len(), radix, max)
}

/// `u64::from_str`.
pub fn parse_u64(s: &Vec<char>) -> (r: Option<u64>)
    ensures
        match r {
            Some(v) => parse_unsigned(s@, 10, u64::MAX as nat) == Some(v as nat),
            None => parse_unsigned(s@, 10, u64::MAX as nat) is None,
        },
{
    parse_unsigned_chars(s, 10, u64::MAX)
}

/// `u32::from_str`.
pub fn parse_u32(s: &Vec<char>) -> (r: Option<u32>)
    ensures
        match r {
            Some(v) => parse_unsigned(s@, 10, u32::MAX as nat) == Some(v as nat),
            None => parse_unsigned(s@, 10, u32::MAX as nat) is None,
        },
{
    match parse_unsigned_chars(s, 10, u32::MAX as u64) {
        Some(v) => Some(v as u32),
        None => None,
    }
}

/// `u16::from_str`.
pub fn parse_u16(s: &Vec<char>) -> (r: Option<u16>)
    ensures
        match r {
            Some(v) => parse_unsigned(s@, 10, u16::MAX as nat) == Some(v as nat),
            None => parse_unsigned(s@, 10, u16::MAX as nat) is None,
        },
{
    match parse_unsigned_chars(s, 10, u16::MAX as u64) {
        Some(v) => Some(v as u16),
        None => None,
    }
}

/// A decimal digit character.
pub open spec fn is_digit(c: char) -> bool {
    '0' <= c <= '9'
}

/// Facts about the decimal representation of a natural number.
pub proof fn lemma_dec(n: nat)
    ensures
        dec(n).len() >= 1,
        forall|i: int| 0 <= i < dec(n).len() ==> is_digit(#[trigger] dec(n)[i]),
        all_digits(dec(n), 10),
        digits_value(dec(n), 10) == n,
    decreases n,
{
    if n < 10 {
        assert(digit_val(digit_char(n), 10) == Some(n));
        assert(digits_value(dec(n), 10) == digits_value(dec(n).drop_last(), 10) * 10 + n);
        assert(dec(n).drop_last() =~= Seq::<char>::empty());
    } else {
        lemma_dec(n / 10);
        let d = dec(n / 10);
        let c = digit_char(n % 10);
        assert(digit_val(c, 10) == Some(n % 10));
        lemma_digits_value_push(d, c, 10);
        assert forall|i: int| 0 <= i < dec(n).len() implies is_digit(#[trigger] dec(n)[i]) by {
            if i < d.len() {
                assert(dec(n)[i] == d[i]);
            }
        }
        assert forall|i: int| 0 <= i < dec(n).len() implies (#[trigger] digit_val(
            dec(n)[i],
            10,
        )) is Some by {
            if i < d.len() {
                assert(dec(n)[i] == d[i]);
                assert(digit_val(d[i], 10) is Some);
            }
        }
    }
}

/// Parsing the decimal representation of `n` gives `n` back.
pub proof fn lemma_parse_dec(n: nat, max: nat)
    requires
        n <= max,
    ensures
        parse_unsigned(dec(n), 10, max) == Some(n),
{
    lemma_dec(n);
    assert(is_digit(dec(n)[0]));
}

/// Facts about the decimal representation of an integer.
pub proof fn lemma_dec_int(n: int)
    ensures
        dec_int(n).len() >= 1,
        forall|i: int|
            0 <= i < dec_int(n).len() ==> is_digit(#[trigger] dec_int(n)[i]) || dec_int(n)[i]
                == '-',
        is_digit(dec_int(n).last()),
        dec_int(n)[0] == '-' || is_digit(dec_int(n)[0]),
{
    if n < 0 {
        let d = dec((-n) as nat);
        lemma_dec((-n) as nat);
        assert forall|i: int| 0 <= i < dec_int(n).len() implies is_digit(
            #[trigger] dec_int(n)[i],
        ) || dec_int(n)[i] == '-' by {
            if i > 0 {
                assert(dec_int(n)[i] == d[i - 1]);
            }
        }
        assert(dec_int(n).last() == d.last());
    } else {
        lemma_dec(n as nat);
    }
}

/// Parsing the decimal representation of an `i64` gives it back.
pub proof fn lemma_parse_dec_int(n: i64)
    ensures
        parse_i64_spec(dec_int(n as int)) == Some(n as int),
{
    if n < 0 {
        let m = (-(n as int)) as nat;
        lemma_dec(m);
        assert(dec_int(n as int).drop_first() =~= dec(m));
    } else {
        lemma_dec(n as nat);
        assert(is_digit(dec(n as nat)[0]));
        lemma_parse_dec(n as nat, 0x7fff_ffff_ffff_ffff);
    }
}

proof fn lemma_trim_start_head(s: Seq<char>)
    ensures
        trim_start(s).len() > 0 ==> !is_ws(trim_start(s)[0]),
    decreases s.len(),
{
    if s.len() > 0 && is_ws(s[0]) {
        lemma_trim_start_head(s.drop_first());
    }
}

proof fn lemma_trim_end_prefix(t: Seq<char>)
    ensures
        trim_end(t).len() <= t.len(),
        trim_end(t) == t.subrange(0, trim_end(t).len() as int),
        trim_end(t).len() > 0 ==> !is_ws(trim_end(t).last()),
    decreases t.len(),
{
    if t.len() > 0 && is_ws(t.last()) {
        lemma_trim_end_prefix(t.drop_last());
        let r = trim_end(t.drop_last());
        assert(t.drop_last().subrange(0, r.len() as int) =~= t.subrange(0, r.len() as int));
    } else {
        assert(t.subrange(0, t.len() as int) =~= t);
    }
}

/// Trimming a trimmed text changes nothing.
pub proof fn lemma_trim_idempotent(s: Seq<char>)
    ensures
        trim(trim(s)) == trim(s),
{
    let t = trim_start(s);
    let r = trim_end(t);
    lemma_trim_start_head(s);
    lemma_trim_end_prefix(t);
    if r.len() > 0 {
        assert(r[0] == t[0]);
        lemma_trim_unchanged(r);
    } else {
        assert(trim(r) =~= r);
    }
}

/// A text that neither starts nor ends with white space is its own trim.
pub proof fn lemma_trim_unchanged(s: Seq<char>)
    requires
        s.len() >= 1,
        !is_ws(s[0]),
        !is_ws(s.last()),
    ensures
        trim(s) == s,
{
}

/// `i64::from_str`.
pub fn parse_i64(s: &Vec<char>) -> (r: Option<i64>)
    ensures
        match r {
            Some(v) => parse_i64_spec(s@) == Some(v as int),
            None => parse_i64_spec(s@) is None,
        },
{
    if s.len() > 0 && s[0] == '-' {
        assert(s@.drop_first() =~= s@.subrange(1, s@.len() as int));
        if s.len() == 1 {
            return None;
        }
        match parse_digits_range(s, 1, s.len(), 10, 0x8000_0000_0000_0000u64) {
            None => None,
            Some(m) => {
                if m == 0x8000_0000_0000_0000u64 {
                    Some(i64::MIN)
                } else {
                    Some(-(m as i64))
                }
            },
        }
    } else {
        match parse_unsigned_chars(s, 10, 0x7fff_ffff_ffff_ffffu64) {
            Some(v) => Some(v as i64),
            None => None,
        }
    }
}

} // verus!
