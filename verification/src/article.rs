//! The body of a news article: its HTML with the site's picture elements
//! made into images, and the same HTML as plain text.
//!
//! The regular expressions are run by the `regex` crate; the pieces that it
//! cuts out are put back together here.

use vstd::prelude::*;
use crate::news::Article;
use crate::regexp::{
    regex_find_all, regex_find_all_result, regex_first_capture, regex_first_capture_result,
    regex_replace_all, regex_replace_all_result, regex_split, regex_split_result,
};
use crate::text::{
    from_chars, lemma_split_nonempty, parse_u32, parse_unsigned, push_all, push_str, split,
    split_str, string_views, to_chars, trim, trim_chars, u64_to_dec, dec,
};

verus! {

/// `<app-picture ... code="..." ...></app-picture>` elements.
pub const PICTURE_PATTERN: &'static str =
    "<app-picture[^>]*\\bcode=\"[^\"]+\"[^>]*>\\s*</app-picture>";

/// The `code` attribute of a picture element.
pub const CODE_PATTERN: &'static str = "\\bcode=\"([^\"]+)\"";

/// The `thumb-sizes` attribute of a picture element.
pub const SIZES_PATTERN: &'static str = "\\bthumb-sizes=\"([^\"]+)\"";

/// The `thumb-formats` attribute of a picture element.
pub const FORMATS_PATTERN: &'static str = "\\bthumb-formats=\"([^\"]+)\"";

/// Block-level tags, which become line breaks.
pub const BLOCK_PATTERN: &'static str = "(?i)</?(p|br|div|h[1-6]|li|tr|blockquote)[^>]*>";

/// Any other tag, which is dropped.
pub const TAG_PATTERN: &'static str = "<[^>]+>";

/// The HTML entities that are decoded (numeric ones are dropped).
pub const ENTITY_PATTERN: &'static str = "&(amp|lt|gt|quot|apos|nbsp|ndash|mdash|#\\d+);";

/// Three or more line breaks in a row.
pub const BLANK_PATTERN: &'static str = "\n{3,}";

/// The text put back together from the parts between matches and what
/// replaces each match: `gaps[0] + reps[0] + gaps[1] + reps[1] + ...`,
/// ending with the last part (a missing replacement reads as empty).
pub open spec fn interleave(gaps: Seq<Seq<char>>, reps: Seq<Seq<char>>) -> Seq<char>
    decreases gaps.len(),
{
    if gaps.len() == 0 {
        Seq::empty()
    } else {
        let n = gaps.len() - 1;
        let rep = if n >= 1 && n - 1 < reps.len() {
            reps[n - 1]
        } else {
            Seq::empty()
        };
        interleave(gaps.drop_last(), reps) + rep + gaps.last()
    }
}

/// Puts a text back together from the parts between matches and the
/// replacement of each match.
pub fn interleave_pieces(gaps: &Vec<String>, reps: &Vec<String>) -> (r: String)
    ensures
        r@ == interleave(string_views(gaps@), string_views(reps@)),
{
    let ghost g = string_views(gaps@);
    let ghost m = string_views(reps@);
    let mut out: Vec<char> = Vec::new();
    let mut i: usize = 0;
    proof {
        assert(g.subrange(0, 0) =~= Seq::<Seq<char>>::empty());
    }
    while i < gaps.len()
        invariant
            i <= gaps.len(),
            g == string_views(gaps@),
            m == string_views(reps@),
            out@ == interleave(g.subrange(0, i as int), m),
        decreases gaps.len() - i,
    {
        proof {
            let t = g.subrange(0, i + 1);
            assert(t.drop_last() =~= g.subrange(0, i as int));
            assert(t.last() == gaps@[i as int]@);
        }
        if i >= 1 && i - 1 < reps.len() {
            push_str(&mut out, reps[i - 1].as_str());
        }
        push_str(&mut out, gaps[i].as_str());
        i = i + 1;
    }
    assert(g.subrange(0, gaps@.len() as int) =~= g);
    from_chars(&out)
}

// ------------------------------------------------------------ pictures

/// The least of `s` that is at least `bound`.
pub open spec fn least_at_least(s: Seq<nat>, bound: nat) -> Option<nat>
    decreases s.len(),
{
    if s.len() == 0 {
        None
    } else {
        let p = least_at_least(s.drop_last(), bound);
        let x = s.last();
        if x >= bound {
            match p {
                Some(y) => if y <= x {
                    Some(y)
                } else {
                    Some(x)
                },
                None => Some(x),
            }
        } else {
            p
        }
    }
}

/// The largest of `s`.
pub open spec fn largest(s: Seq<nat>) -> Option<nat>
    decreases s.len(),
{
    if s.len() == 0 {
        None
    } else {
        let x = s.last();
        match largest(s.drop_last()) {
            Some(y) => if y >= x {
                Some(y)
            } else {
                Some(x)
            },
            None => Some(x),
        }
    }
}

/// The parts that read as `u32` once trimmed, in order.
pub open spec fn parsed_sizes(parts: Seq<Seq<char>>) -> Seq<nat>
    decreases parts.len(),
{
    if parts.len() == 0 {
        Seq::empty()
    } else {
        let p = parsed_sizes(parts.drop_last());
        match parse_unsigned(trim(parts.last()), 10, u32::MAX as nat) {
            Some(v) => p.push(v),
            None => p,
        }
    }
}

/// The size shown inline: the smallest listed size of at least 640, else
/// the largest listed, else 640.
pub open spec fn display_size(sizes: Seq<nat>) -> nat {
    match least_at_least(sizes, 640) {
        Some(v) => v,
        None => match largest(sizes) {
            Some(v) => v,
            None => 640,
        },
    }
}

/// The format shown inline: `webp` when listed, else the first listed.
pub open spec fn display_ext(formats: Seq<char>) -> Seq<char> {
    let parts = split(formats, ',');
    if exists|i: int| 0 <= i < parts.len() && trim(#[trigger] parts[i]) == "webp"@ {
        "webp"@
    } else {
        trim(parts[0])
    }
}

/// The original format: the first listed.
pub open spec fn original_ext(formats: Seq<char>) -> Seq<char> {
    trim(split(formats, ',')[0])
}

/// The image that stands for a picture with the given code, size list and
/// format list.
pub open spec fn img_tag(code: Seq<char>, sizes: Seq<char>, formats: Seq<char>) -> Seq<char> {
    "<img src=\"https://dayz.com/app-static/uploads/"@ + code + seq!['_'] + dec(
        display_size(parsed_sizes(split(sizes, ','))),
    ) + seq!['.'] + display_ext(formats) + "\" data-full=\"https://dayz.com/app-static/uploads/"@
        + code + seq!['.'] + original_ext(formats) + "\" alt=\"\" loading=\"lazy\" />"@
}

/// The image for a picture element: its code, sizes (default `640`) and
/// formats (default `webp`) as the attribute patterns capture them; nothing
/// when it has no code.
pub open spec fn picture_for_tag(tag: Seq<char>) -> Seq<char> {
    match regex_first_capture_result(CODE_PATTERN@, tag) {
        Some(Some(code)) => {
            let sizes = match regex_first_capture_result(SIZES_PATTERN@, tag) {
                Some(Some(s)) => s,
                _ => "640"@,
            };
            let formats = match regex_first_capture_result(FORMATS_PATTERN@, tag) {
                Some(Some(f)) => f,
                _ => "webp"@,
            };
            img_tag(code, sizes, formats)
        },
        _ => Seq::empty(),
    }
}

fn trimmed(v: &Vec<char>) -> (r: Vec<char>)
    ensures
        r@ == trim(v@),
{
    trim_chars(v)
}

/// Reads the size list.
fn sizes_of(sizes: &str) -> (r: Vec<u32>)
    ensures
        r@.map_values(|x: u32| x as nat) == parsed_sizes(split(sizes@, ',')),
{
    let parts = split_str(sizes, ',');
    let ghost ps = split(sizes@, ',');
    let mut out: Vec<u32> = Vec::new();
    let mut i: usize = 0;
    proof {
        assert(ps.subrange(0, 0) =~= Seq::<Seq<char>>::empty());
        assert(out@.map_values(|x: u32| x as nat) =~= Seq::<nat>::empty());
    }
    while i < parts.len()
        invariant
            i <= parts@.len(),
            ps == split(sizes@, ','),
            parts@.len() == ps.len(),
            forall|k: int| 0 <= k < parts@.len() ==> #[trigger] parts@[k]@ == ps[k],
            out@.map_values(|x: u32| x as nat) == parsed_sizes(ps.subrange(0, i as int)),
        decreases parts.len() - i,
    {
        proof {
            let t = ps.subrange(0, i + 1);
            assert(t.drop_last() =~= ps.subrange(0, i as int));
            assert(t.last() == parts@[i as int]@);
        }
        let t = trimmed(&parts[i]);
        match parse_u32(&t) {
            Some(v) => {
                let ghost before = out@;
                out.push(v);
                assert(out@.map_values(|x: u32| x as nat) =~= before.map_values(|x: u32| x as nat).push(
                    v as nat,
                ));
            },
            None => {},
        }
        i = i + 1;
    }
    assert(ps.subrange(0, ps.len() as int) =~= ps);
    out
}

/// The display size of a size list.
fn pick_size(sizes: &Vec<u32>) -> (r: u32)
    ensures
        r as nat == display_size(sizes@.map_values(|x: u32| x as nat)),
{
    let ghost s = sizes@.map_values(|x: u32| x as nat);
    let mut least: Option<u32> = None;
    let mut most: Option<u32> = None;
    let mut i: usize = 0;
    proof {
        assert(s.subrange(0, 0) =~= Seq::<nat>::empty());
    }
    while i < sizes.len()
        invariant
            i <= sizes@.len(),
            s == sizes@.map_values(|x: u32| x as nat),
            match least_at_least(s.subrange(0, i as int), 640) {
                Some(v) => least == Some(v as u32) && v <= u32::MAX,
                None => least is None,
            },
            match largest(s.subrange(0, i as int)) {
                Some(v) => most == Some(v as u32) && v <= u32::MAX,
                None => most is None,
            },
        decreases sizes.len() - i,
    {
        proof {
            let t = s.subrange(0, i + 1);
            assert(t.drop_last() =~= s.subrange(0, i as int));
            assert(t.last() == sizes@[i as int] as nat);
        }
        let x = sizes[i];
        if x >= 640 {
            least = match least {
                Some(y) => if y <= x {
                    Some(y)
                } else {
                    Some(x)
                },
                None => Some(x),
            };
        }
        most = match most {
            Some(y) => if y >= x {
                Some(y)
            } else {
                Some(x)
            },
            None => Some(x),
        };
        i = i + 1;
    }
    assert(s.subrange(0, sizes@.len() as int) =~= s);
    match least {
        Some(v) => v,
        None => match most {
            Some(v) => v,
            None => 640,
        },
    }
}

/// The inline and original formats of a format list.
fn pick_formats(formats: &str) -> (r: (Vec<char>, Vec<char>))
    ensures
        r.0@ == display_ext(formats@),
        r.1@ == original_ext(formats@),
{
    let parts = split_str(formats, ',');
    proof {
        lemma_split_nonempty(formats@, ',');
    }
    let first = trimmed(&parts[0]);
    let webp = to_chars("webp");
    let mut found = false;
    let mut i: usize = 0;
    while i < parts.len()
        invariant
            i <= parts@.len(),
            parts@.len() == split(formats@, ',').len(),
            forall|k: int| 0 <= k < parts@.len() ==> #[trigger] parts@[k]@ == split(formats@, ',')[k],
            webp@ == "webp"@,
            found == exists|k: int| 0 <= k < i && trim(#[trigger] split(formats@, ',')[k]) == "webp"@,
        decreases parts.len() - i,
    {
        let t = trimmed(&parts[i]);
        if crate::text::chars_eq(&t, &webp) {
            found = true;
        }
        proof {
            assert(parts@[i as int]@ == split(formats@, ',')[i as int]);
        }
        i = i + 1;
    }
    let inline = if found {
        webp
    } else {
        trimmed(&parts[0])
    };
    (inline, first)
}

/// The image that stands for a picture with the given code, size list and
/// format list: `<img src=".../uploads/<code>_<size>.<inline format>"
/// data-full=".../uploads/<code>.<original format>" alt="" loading="lazy" />`.
pub fn picture_img(code: &str, sizes: &str, formats: &str) -> (r: String)
    ensures
        r@ == img_tag(code@, sizes@, formats@),
{
    let size = pick_size(&sizes_of(sizes));
    let (inline, original) = pick_formats(formats);
    let mut v = to_chars("<img src=\"https://dayz.com/app-static/uploads/");
    push_str(&mut v, code);
    v.push('_');
    push_all(&mut v, &u64_to_dec(size as u64));
    v.push('.');
    push_all(&mut v, &inline);
    push_str(&mut v, "\" data-full=\"https://dayz.com/app-static/uploads/");
    push_str(&mut v, code);
    v.push('.');
    push_all(&mut v, &original);
    push_str(&mut v, "\" alt=\"\" loading=\"lazy\" />");
    from_chars(&v)
}

/// The image for one picture element.
fn picture_for(tag: &str) -> (r: String)
    ensures
        r@ == picture_for_tag(tag@),
{
    match regex_first_capture(CODE_PATTERN, tag) {
        Some(Some(code)) => {
            let sizes = match regex_first_capture(SIZES_PATTERN, tag) {
                Some(Some(s)) => s,
                _ => from_chars(&to_chars("640")),
            };
            let formats = match regex_first_capture(FORMATS_PATTERN, tag) {
                Some(Some(f)) => f,
                _ => from_chars(&to_chars("webp")),
            };
            picture_img(code.as_str(), sizes.as_str(), formats.as_str())
        },
        _ => from_chars(&Vec::new()),
    }
}

/// The images for a list of picture elements.
fn pictures_for(tags: &Vec<String>) -> (r: Vec<String>)
    ensures
        string_views(r@) == string_views(tags@).map_values(|t: Seq<char>| picture_for_tag(t)),
{
    let mut out: Vec<String> = Vec::new();
    let mut i: usize = 0;
    while i < tags.len()
        invariant
            i <= tags@.len(),
            out@.len() == i,
            forall|k: int| 0 <= k < i ==> (#[trigger] out@[k])@ == picture_for_tag(tags@[k]@),
        decreases tags.len() - i,
    {
        out.push(picture_for(tags[i].as_str()));
        i = i + 1;
    }
    assert(string_views(out@) =~= string_views(tags@).map_values(|t: Seq<char>| picture_for_tag(t)));
    out
}

/// The article's HTML with every picture element replaced by its image;
/// empty when the article has no content.  Where the picture pattern does
/// not compile the HTML is returned as it is.
pub open spec fn content_html_spec(content: Option<String>) -> Seq<char> {
    match content {
        Some(h) => if h@.len() == 0 {
            Seq::empty()
        } else {
            match (regex_split_result(PICTURE_PATTERN@, h@), regex_find_all_result(PICTURE_PATTERN@, h@)) {
                (Some(g), Some(m)) => interleave(g, m.map_values(|t: Seq<char>| picture_for_tag(t))),
                _ => h@,
            }
        },
        None => Seq::empty(),
    }
}

// ------------------------------------------------------------ plain text

/// What an entity stands for; numeric entities stand for nothing.
pub open spec fn entity_text(e: Seq<char>) -> Seq<char> {
    if e == "&amp;"@ {
        "&"@
    } else if e == "&lt;"@ {
        "<"@
    } else if e == "&gt;"@ {
        ">"@
    } else if e == "&quot;"@ {
        "\""@
    } else if e == "&apos;"@ {
        "'"@
    } else if e == "&nbsp;"@ {
        " "@
    } else if e == "&ndash;"@ {
        "\u{2013}"@
    } else if e == "&mdash;"@ {
        "\u{2014}"@
    } else {
        Seq::empty()
    }
}

/// What an entity stands for.
pub fn decode_entity(e: &str) -> (r: &'static str)
    ensures
        r@ == entity_text(e@),
{
    proof {
        reveal_strlit("");
    }
    if crate::text::str_eq(e, "&amp;") {
        "&"
    } else if crate::text::str_eq(e, "&lt;") {
        "<"
    } else if crate::text::str_eq(e, "&gt;") {
        ">"
    } else if crate::text::str_eq(e, "&quot;") {
        "\""
    } else if crate::text::str_eq(e, "&apos;") {
        "'"
    } else if crate::text::str_eq(e, "&nbsp;") {
        " "
    } else if crate::text::str_eq(e, "&ndash;") {
        "\u{2013}"
    } else if crate::text::str_eq(e, "&mdash;") {
        "\u{2014}"
    } else {
        ""
    }
}

fn entities_for(found: &Vec<String>) -> (r: Vec<String>)
    ensures
        string_views(r@) == string_views(found@).map_values(|e: Seq<char>| entity_text(e)),
{
    let mut out: Vec<String> = Vec::new();
    let mut i: usize = 0;
    while i < found.len()
        invariant
            i <= found@.len(),
            out@.len() == i,
            forall|k: int| 0 <= k < i ==> (#[trigger] out@[k])@ == entity_text(found@[k]@),
        decreases found.len() - i,
    {
        let d = decode_entity(found[i].as_str());
        out.push(from_chars(&to_chars(d)));
        i = i + 1;
    }
    assert(string_views(out@) =~= string_views(found@).map_values(|e: Seq<char>| entity_text(e)));
    out
}

/// A replacement's result, or the text as it was when the pattern does not
/// compile.
pub open spec fn or_same(r: Option<Seq<char>>, t: Seq<char>) -> Seq<char> {
    match r {
        Some(x) => x,
        None => t,
    }
}

/// The text with every entity decoded.
pub open spec fn entities_decoded(t: Seq<char>) -> Seq<char> {
    match (regex_split_result(ENTITY_PATTERN@, t), regex_find_all_result(ENTITY_PATTERN@, t)) {
        (Some(g), Some(m)) => interleave(g, m.map_values(|e: Seq<char>| entity_text(e))),
        _ => t,
    }
}

/// The article as plain text: block tags become line breaks, other tags
/// are dropped, entities decoded, runs of blank lines collapsed, and the
/// whole trimmed; empty when there is no content.
pub open spec fn html_to_text_spec(content: Option<String>) -> Seq<char> {
    match content {
        Some(h) => if h@.len() == 0 {
            Seq::empty()
        } else {
            let t1 = or_same(regex_replace_all_result(BLOCK_PATTERN@, h@, "\n"@), h@);
            let t2 = or_same(regex_replace_all_result(TAG_PATTERN@, t1, ""@), t1);
            let t3 = entities_decoded(t2);
            let t4 = or_same(regex_replace_all_result(BLANK_PATTERN@, t3, "\n\n"@), t3);
            trim(t4)
        },
        None => Seq::empty(),
    }
}

fn replaced_or_same(pattern: &str, text: String, rep: &str) -> (r: String)
    ensures
        r@ == or_same(regex_replace_all_result(pattern@, text@, rep@), text@),
{
    match regex_replace_all(pattern, text.as_str(), rep) {
        Some(t) => t,
        None => text,
    }
}

fn decode_entities(text: String) -> (r: String)
    ensures
        r@ == entities_decoded(text@),
{
    let gaps = regex_split(ENTITY_PATTERN, text.as_str());
    let found = regex_find_all(ENTITY_PATTERN, text.as_str());
    match (gaps, found) {
        (Some(g), Some(m)) => interleave_pieces(&g, &entities_for(&m)),
        _ => text,
    }
}

impl Article {
    /// The raw HTML content with the site's `<app-picture>` elements
    /// replaced by `<img>` tags pointing to its CDN, 640 px webp inline.
    pub fn content_html(&self) -> (r: String)
        ensures
            r@ == content_html_spec(self.content),
    {
        match &self.content {
            Some(h) => {
                if to_chars(h.as_str()).len() == 0 {
                    return from_chars(&Vec::new());
                }
                let gaps = regex_split(PICTURE_PATTERN, h.as_str());
                let found = regex_find_all(PICTURE_PATTERN, h.as_str());
                match (gaps, found) {
                    (Some(g), Some(m)) => interleave_pieces(&g, &pictures_for(&m)),
                    _ => from_chars(&to_chars(h.as_str())),
                }
            },
            None => from_chars(&Vec::new()),
        }
    }

    /// The content with tags stripped and common entities decoded, as
    /// plain text for display.
    pub fn html_to_text(&self) -> (r: String)
        ensures
            r@ == html_to_text_spec(self.content),
    {
        match &self.content {
            Some(h) => {
                if to_chars(h.as_str()).len() == 0 {
                    return from_chars(&Vec::new());
                }
                let t1 = replaced_or_same(BLOCK_PATTERN, from_chars(&to_chars(h.as_str())), "\n");
                let t2 = replaced_or_same(TAG_PATTERN, t1, "");
                let t3 = decode_entities(t2);
                let t4 = replaced_or_same(BLANK_PATTERN, t3, "\n\n");
                from_chars(&trimmed(&to_chars(t4.as_str())))
            },
            None => from_chars(&Vec::new()),
        }
    }
}

} // verus!
