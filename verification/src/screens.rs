//! What the terminal interface shows: each screen as lines of coloured
//! text.  Drawing them (layout, borders, scrolling) is the application's.

use vstd::prelude::*;
use crate::article::html_to_text_spec;
use crate::news::{date_spec, url_spec, Article};
use crate::text::{dec, from_chars, push_all, push_str, split, string_views, to_chars, u64_to_dec};
use crate::widgets::{wrap_paragraphs, wrap_text};

verus! {

/// A terminal colour; `Reset` is the terminal's own.
#[derive(Debug, Clone, Copy, PartialEq, Eq, Structural)]
pub enum Color {
    Reset,
    Black,
    White,
    Gray,
    DarkGray,
    Red,
    Green,
    Yellow,
    Blue,
    Magenta,
    Cyan,
}

/// A piece of text with its colours and weight.
#[derive(Debug)]
pub struct Span {
    pub text: String,
    pub fg: Color,
    pub bg: Color,
    pub bold: bool,
}

/// A span as values: text, foreground, background, bold.
pub type SpanView = (Seq<char>, Color, Color, bool);

/// A span as values.
pub open spec fn span_view(s: Span) -> SpanView {
    (s.text@, s.fg, s.bg, s.bold)
}

/// A line as values.
pub open spec fn line_view(l: Vec<Span>) -> Seq<SpanView> {
    l@.map_values(|s: Span| span_view(s))
}

/// Lines as values.
pub open spec fn lines_view(ls: Seq<Vec<Span>>) -> Seq<Seq<SpanView>> {
    ls.map_values(|l: Vec<Span>| line_view(l))
}

/// Plain text in a colour.
pub open spec fn sv(t: Seq<char>, fg: Color) -> SpanView {
    (t, fg, Color::Reset, false)
}

/// `n` spaces.
pub open spec fn spaces(n: nat) -> Seq<char> {
    Seq::new(n, |i: int| ' ')
}

/// `s` right-aligned in `w` characters.
pub open spec fn pad_left(s: Seq<char>, w: nat) -> Seq<char> {
    if s.len() >= w {
        s
    } else {
        spaces((w - s.len()) as nat) + s
    }
}

/// `s` left-aligned in `w` characters.
pub open spec fn pad_right(s: Seq<char>, w: nat) -> Seq<char> {
    if s.len() >= w {
        s
    } else {
        s + spaces((w - s.len()) as nat)
    }
}

fn spaces_vec(n: usize) -> (r: Vec<char>)
    ensures
        r@ == spaces(n as nat),
{
    let mut v: Vec<char> = Vec::new();
    let mut i: usize = 0;
    while i < n
        invariant
            i <= n,
            v@ == spaces(i as nat),
        decreases n - i,
    {
        v.push(' ');
        i = i + 1;
        assert(v@ =~= spaces(i as nat));
    }
    v
}

/// Right-aligns text in `w` characters.
pub fn pad_left_chars(s: &Vec<char>, w: usize) -> (r: Vec<char>)
    ensures
        r@ == pad_left(s@, w as nat),
{
    if s.len() >= w {
        let mut v: Vec<char> = Vec::new();
        push_all(&mut v, s);
        v
    } else {
        let mut v = spaces_vec(w - s.len());
        push_all(&mut v, s);
        v
    }
}

/// Left-aligns text in `w` characters.
pub fn pad_right_chars(s: &Vec<char>, w: usize) -> (r: Vec<char>)
    ensures
        r@ == pad_right(s@, w as nat),
{
    let mut v: Vec<char> = Vec::new();
    push_all(&mut v, s);
    if s.len() < w {
        push_all(&mut v, &spaces_vec(w - s.len()));
    }
    v
}

/// A span.
pub fn span(text: Vec<char>, fg: Color, bg: Color, bold: bool) -> (r: Span)
    ensures
        span_view(r) == (text@, fg, bg, bold),
{
    Span { text: from_chars(&text), fg, bg, bold }
}

/// A span of plain coloured text.
pub fn plain(text: &str, fg: Color) -> (r: Span)
    ensures
        span_view(r) == sv(text@, fg),
{
    span(to_chars(text), fg, Color::Reset, false)
}

pub(crate) fn push_span(l: &mut Vec<Span>, s: Span)
    ensures
        line_view(*final(l)) == line_view(*old(l)).push(span_view(s)),
{
    let ghost before = line_view(*l);
    let ghost sv0 = span_view(s);
    l.push(s);
    assert(line_view(*l) =~= before.push(sv0));
}

pub(crate) fn push_line(ls: &mut Vec<Vec<Span>>, l: Vec<Span>)
    ensures
        lines_view(final(ls)@) == lines_view(old(ls)@).push(line_view(l)),
{
    let ghost before = lines_view(ls@);
    let ghost lv = line_view(l);
    ls.push(l);
    assert(lines_view(ls@) =~= before.push(lv));
}

pub(crate) fn one(s: Span) -> (r: Vec<Span>)
    ensures
        line_view(r) == seq![span_view(s)],
{
    let mut l: Vec<Span> = Vec::new();
    push_span(&mut l, s);
    assert(line_view(l) =~= seq![span_view(s)]);
    l
}

pub(crate) fn blank() -> (r: Vec<Span>)
    ensures
        line_view(r) == Seq::<SpanView>::empty(),
{
    let l: Vec<Span> = Vec::new();
    assert(line_view(l) =~= Seq::<SpanView>::empty());
    l
}

/// `n` as decimal text.
pub fn dec_chars(n: u64) -> (r: Vec<char>)
    ensures
        r@ == dec(n as nat),
{
    u64_to_dec(n)
}

// ------------------------------------------------------------ news tab

/// How old the news cache is: `<s>s ago` under a minute, else `<m>m ago`,
/// `?` when unknown.
pub open spec fn cache_age_spec(age_secs: Option<u64>) -> Seq<char> {
    match age_secs {
        Some(s) => if s < 60 {
            dec(s as nat) + "s ago"@
        } else {
            dec((s / 60) as nat) + "m ago"@
        },
        None => "?"@,
    }
}

/// The title of the news list: `DayZ News [<n>/<total>] (cached <age>)`.
pub open spec fn news_title_spec(selected: nat, total: nat, age_secs: Option<u64>) -> Seq<char> {
    "DayZ News ["@ + dec(selected + 1) + seq!['/'] + dec(total) + "] (cached "@ + cache_age_spec(
        age_secs,
    ) + seq![')']
}

/// The title of the news list.
pub fn news_title(selected: usize, total: usize, age_secs: Option<u64>) -> (r: String)
    requires
        selected < usize::MAX,
    ensures
        r@ == news_title_spec(selected as nat, total as nat, age_secs),
{
    let mut v = to_chars("DayZ News [");
    push_all(&mut v, &dec_chars((selected + 1) as u64));
    v.push('/');
    push_all(&mut v, &dec_chars(total as u64));
    push_str(&mut v, "] (cached ");
    match age_secs {
        Some(s) => {
            if s < 60 {
                push_all(&mut v, &dec_chars(s));
                push_str(&mut v, "s ago");
            } else {
                push_all(&mut v, &dec_chars(s / 60));
                push_str(&mut v, "m ago");
            }
        },
        None => push_str(&mut v, "?"),
    }
    v.push(')');
    from_chars(&v)
}

/// The two lines of an article in the list: number, title (bold when
/// selected) and date; then its category.
pub open spec fn news_item_spec(i: nat, a: Article, selected: bool) -> Seq<Seq<SpanView>> {
    let date = date_spec(a.published_at);
    let cat = match a.category {
        Some(c) => c.slug@,
        None => "news"@,
    };
    seq![
        seq![
            sv(pad_left(dec(i + 1), 4) + ". "@, Color::DarkGray),
            (a.title@, Color::White, Color::Reset, selected),
            sv(
                if date.len() == 0 {
                    Seq::empty()
                } else {
                    "  "@ + date
                },
                Color::Yellow,
            ),
        ],
        seq![sv("       "@, Color::Reset), sv(seq!['['] + cat + seq![']'], Color::Cyan)],
    ]
}

fn category_slug(a: &Article) -> (r: Vec<char>)
    ensures
        r@ == match a.category {
            Some(c) => c.slug@,
            None => "news"@,
        },
{
    match &a.category {
        Some(c) => to_chars(c.slug.as_str()),
        None => to_chars("news"),
    }
}

fn category_name(a: &Article) -> (r: Vec<char>)
    ensures
        r@ == match a.category {
            Some(c) => c.name@,
            None => "News"@,
        },
{
    match &a.category {
        Some(c) => to_chars(c.name.as_str()),
        None => to_chars("News"),
    }
}

pub(crate) fn bracketed(t: &Vec<char>) -> (r: Vec<char>)
    ensures
        r@ == seq!['['] + t@ + seq![']'],
{
    let mut c: Vec<char> = Vec::new();
    c.push('[');
    push_all(&mut c, t);
    c.push(']');
    assert(c@ =~= seq!['['] + t@ + seq![']']);
    c
}

fn author_line(au: &crate::news::ArticleAuthor) -> (r: Vec<Span>)
    ensures
        line_view(r) == seq![sv("By: "@, Color::Gray), sv(au.name@, Color::Magenta)] + match au.role {
            Some(role) => seq![sv("  ("@ + role@ + seq![')'], Color::DarkGray)],
            None => Seq::<SpanView>::empty(),
        },
{
    let mut l: Vec<Span> = Vec::new();
    push_span(&mut l, plain("By: ", Color::Gray));
    push_span(&mut l, span(to_chars(au.name.as_str()), Color::Magenta, Color::Reset, false));
    let ghost two = line_view(l);
    match &au.role {
        Some(role) => {
            let mut t = to_chars("  (");
            push_str(&mut t, role.as_str());
            t.push(')');
            assert(t@ =~= "  ("@ + role@ + seq![')']);
            push_span(&mut l, span(t, Color::DarkGray, Color::Reset, false));
        },
        None => {},
    }
    assert(two =~= seq![sv("By: "@, Color::Gray), sv(au.name@, Color::Magenta)]);
    assert(line_view(l) =~= seq![sv("By: "@, Color::Gray), sv(au.name@, Color::Magenta)] + match au.role {
        Some(role) => seq![sv("  ("@ + role@ + seq![')'], Color::DarkGray)],
        None => Seq::<SpanView>::empty(),
    });
    l
}

/// The two lines of the article at index `i` in the list.
pub fn news_item(i: usize, a: &Article, selected: bool) -> (r: Vec<Vec<Span>>)
    requires
        i < usize::MAX,
    ensures
        lines_view(r@) == news_item_spec(i as nat, *a, selected),
{
    proof {
        reveal_strlit("");
    }
    let mut l1: Vec<Span> = Vec::new();
    let mut n = pad_left_chars(&dec_chars((i + 1) as u64), 4);
    push_str(&mut n, ". ");
    push_span(&mut l1, span(n, Color::DarkGray, Color::Reset, false));
    push_span(&mut l1, span(to_chars(a.title.as_str()), Color::White, Color::Reset, selected));
    let date = to_chars(a.date());
    let mut d: Vec<char> = Vec::new();
    if date.len() > 0 {
        push_str(&mut d, "  ");
        push_all(&mut d, &date);
    }
    push_span(&mut l1, span(d, Color::Yellow, Color::Reset, false));
    let mut l2: Vec<Span> = Vec::new();
    push_span(&mut l2, plain("       ", Color::Reset));
    let c = bracketed(&category_slug(a));
    push_span(&mut l2, span(c, Color::Cyan, Color::Reset, false));
    let mut out: Vec<Vec<Span>> = Vec::new();
    push_line(&mut out, l1);
    push_line(&mut out, l2);
    let ghost want = news_item_spec(i as nat, *a, selected);
    assert(lines_view(out@)[0] =~= want[0]);
    assert(lines_view(out@)[1] =~= want[1]);
    assert(lines_view(out@) =~= want);
    out
}

/// The width that article text is wrapped to in a panel `width` wide:
/// four less, or 40 when nothing is left.
pub open spec fn body_width(width: nat) -> nat {
    if width > 4 {
        (width - 4) as nat
    } else {
        40
    }
}

/// Wrapped text lines, each in white.
pub open spec fn white_lines(ls: Seq<Seq<char>>) -> Seq<Seq<SpanView>>
    decreases ls.len(),
{
    if ls.len() == 0 {
        Seq::empty()
    } else {
        white_lines(ls.drop_last()).push(seq![sv(ls.last(), Color::White)])
    }
}

/// The head of an article's details: title, blank line, category and date.
pub open spec fn news_head_spec(a: Article) -> Seq<Seq<SpanView>> {
    let cat = match a.category {
        Some(c) => c.name@,
        None => "News"@,
    };
    let date = date_spec(a.published_at);
    seq![
        seq![(a.title@, Color::White, Color::Reset, true)],
        Seq::<SpanView>::empty(),
        seq![
            sv(seq!['['] + cat + seq![']'], Color::Cyan),
            if date.len() > 0 {
                sv("  "@ + date, Color::Yellow)
            } else {
                sv(Seq::empty(), Color::Reset)
            },
        ],
    ]
}

/// The version line, when the article has a version.
pub open spec fn news_version_spec(a: Article) -> Seq<Seq<SpanView>> {
    match a.version {
        Some(v) => if v@.len() > 0 {
            seq![seq![sv("Version: "@, Color::Gray), sv(v@, Color::Green)]]
        } else {
            Seq::empty()
        },
        None => Seq::empty(),
    }
}

/// The author lines, when the article has an author.
pub open spec fn news_author_spec(a: Article) -> Seq<Seq<SpanView>> {
    match a.author {
        Some(au) => seq![
            Seq::<SpanView>::empty(),
            seq![sv("By: "@, Color::Gray), sv(au.name@, Color::Magenta)] + match au.role {
                Some(role) => seq![sv("  ("@ + role@ + seq![')'], Color::DarkGray)],
                None => Seq::<SpanView>::empty(),
            },
        ],
        None => Seq::empty(),
    }
}

/// The article's text wrapped to the panel, when it has any.
pub open spec fn news_content_spec(a: Article, width: nat) -> Seq<Seq<SpanView>> {
    let body = html_to_text_spec(a.content);
    if body.len() > 0 {
        seq![Seq::<SpanView>::empty(), seq![sv("\u{2500}\u{2500}\u{2500} Content \u{2500}\u{2500}\u{2500}"@, Color::DarkGray)]]
            + white_lines(wrap_paragraphs(split(body, '\n'), body_width(width)))
    } else {
        Seq::empty()
    }
}

/// The details of an article: title, category and date, version, author,
/// the text wrapped to the panel, and the link.
pub open spec fn news_detail_spec(a: Article, width: nat) -> Seq<Seq<SpanView>> {
    news_head_spec(a) + news_version_spec(a) + news_author_spec(a) + news_content_spec(a, width)
        + seq![Seq::<SpanView>::empty(), seq![sv(url_spec(a.category, a.slug@), Color::DarkGray)]]
}

fn push_white_lines(out: &mut Vec<Vec<Span>>, ls: &Vec<String>)
    ensures
        lines_view(final(out)@) == lines_view(old(out)@) + white_lines(string_views(ls@)),
{
    let ghost start = lines_view(out@);
    let ghost all = string_views(ls@);
    let mut i: usize = 0;
    proof {
        assert(all.subrange(0, 0) =~= Seq::<Seq<char>>::empty());
        assert(start + white_lines(Seq::<Seq<char>>::empty()) =~= start);
    }
    while i < ls.len()
        invariant
            i <= ls@.len(),
            all == string_views(ls@),
            lines_view(out@) == start + white_lines(all.subrange(0, i as int)),
        decreases ls.len() - i,
    {
        proof {
            let t = all.subrange(0, i + 1);
            assert(t.drop_last() =~= all.subrange(0, i as int));
            assert(t.last() == ls@[i as int]@);
        }
        let ghost before = lines_view(out@);
        push_line(out, one(span(to_chars(ls[i].as_str()), Color::White, Color::Reset, false)));
        proof {
            let t = all.subrange(0, i + 1);
            assert(white_lines(t) == white_lines(t.drop_last()).push(seq![sv(t.last(), Color::White)]));
            assert(lines_view(out@) =~= start + white_lines(t));
        }
        i = i + 1;
    }
    assert(all.subrange(0, ls@.len() as int) =~= all);
}

pub(crate) fn append_lines(out: &mut Vec<Vec<Span>>, more: Vec<Vec<Span>>)
    ensures
        lines_view(final(out)@) == lines_view(old(out)@) + lines_view(more@),
{
    let ghost start = lines_view(out@);
    let ghost all = lines_view(more@);
    let mut rest = more;
    let mut taken: Vec<Vec<Span>> = Vec::new();
    while rest.len() > 0
        invariant
            all == lines_view(rest@) + lines_view(taken@).reverse(),
        decreases rest.len(),
    {
        let ghost before_rest = rest@;
        let ghost before_taken = taken@;
        let l = rest.pop().unwrap();
        proof {
            assert(before_rest =~= rest@.push(l));
            assert(lines_view(before_rest) =~= lines_view(rest@).push(line_view(l)));
        }
        push_line(&mut taken, l);
        proof {
            assert(lines_view(taken@).reverse() =~= seq![line_view(l)] + lines_view(before_taken).reverse());
            assert(all =~= lines_view(rest@) + lines_view(taken@).reverse());
        }
    }
    assert(all =~= lines_view(rest@) + lines_view(taken@).reverse());
    assert(lines_view(rest@) =~= Seq::<Seq<SpanView>>::empty());
    assert(all =~= lines_view(taken@).reverse());
    while taken.len() > 0
        invariant
            lines_view(out@) + lines_view(taken@).reverse() == start + all,
        decreases taken.len(),
    {
        let ghost before_taken = taken@;
        let ghost before_out = lines_view(out@);
        let l = taken.pop().unwrap();
        proof {
            assert(before_taken =~= taken@.push(l));
            assert(lines_view(before_taken).reverse() =~= seq![line_view(l)] + lines_view(taken@).reverse());
        }
        push_line(out, l);
        assert(lines_view(out@) + lines_view(taken@).reverse() =~= before_out + lines_view(before_taken).reverse());
    }
    assert(lines_view(taken@).reverse() =~= Seq::<Seq<SpanView>>::empty());
    assert(lines_view(out@) =~= start + all);
}

fn head_lines(a: &Article) -> (r: Vec<Vec<Span>>)
    ensures
        lines_view(r@) =~~= news_head_spec(*a),
{
    let mut out: Vec<Vec<Span>> = Vec::new();
    push_line(&mut out, one(span(to_chars(a.title.as_str()), Color::White, Color::Reset, true)));
    push_line(&mut out, blank());
    let c = bracketed(&category_name(a));
    let mut l: Vec<Span> = Vec::new();
    push_span(&mut l, span(c, Color::Cyan, Color::Reset, false));
    let date = to_chars(a.date());
    if date.len() > 0 {
        let mut d = to_chars("  ");
        push_all(&mut d, &date);
        push_span(&mut l, span(d, Color::Yellow, Color::Reset, false));
    } else {
        push_span(&mut l, span(Vec::new(), Color::Reset, Color::Reset, false));
    }
    push_line(&mut out, l);
    out
}

fn version_lines(a: &Article) -> (r: Vec<Vec<Span>>)
    ensures
        lines_view(r@) =~~= news_version_spec(*a),
{
    let mut out: Vec<Vec<Span>> = Vec::new();
    match &a.version {
        Some(v) => {
            if to_chars(v.as_str()).len() > 0 {
                let mut l: Vec<Span> = Vec::new();
                push_span(&mut l, plain("Version: ", Color::Gray));
                push_span(&mut l, span(to_chars(v.as_str()), Color::Green, Color::Reset, false));
                push_line(&mut out, l);
            }
        },
        None => {},
    }
    out
}

fn author_lines(a: &Article) -> (r: Vec<Vec<Span>>)
    ensures
        lines_view(r@) =~~= news_author_spec(*a),
{
    let mut out: Vec<Vec<Span>> = Vec::new();
    match &a.author {
        Some(au) => {
            push_line(&mut out, blank());
            push_line(&mut out, author_line(au));
        },
        None => {},
    }
    out
}

fn content_lines(a: &Article, width: usize) -> (r: Vec<Vec<Span>>)
    ensures
        lines_view(r@) =~~= news_content_spec(*a, width as nat),
{
    let mut out: Vec<Vec<Span>> = Vec::new();
    let body = a.html_to_text();
    if to_chars(body.as_str()).len() > 0 {
        push_line(&mut out, blank());
        push_line(
            &mut out,
            one(plain("\u{2500}\u{2500}\u{2500} Content \u{2500}\u{2500}\u{2500}", Color::DarkGray)),
        );
        let w: usize = if width > 4 {
            width - 4
        } else {
            40
        };
        let wrapped = wrap_text(body.as_str(), w);
        push_white_lines(&mut out, &wrapped);
    }
    out
}

/// The details of an article for a panel `width` wide.
pub fn news_detail(a: &Article, width: usize) -> (r: Vec<Vec<Span>>)
    ensures
        lines_view(r@) == news_detail_spec(*a, width as nat),
{
    let mut out = head_lines(a);
    append_lines(&mut out, version_lines(a));
    append_lines(&mut out, author_lines(a));
    append_lines(&mut out, content_lines(a, width));
    push_line(&mut out, blank());
    push_line(&mut out, one(span(to_chars(a.url().as_str()), Color::DarkGray, Color::Reset, false)));
    assert(lines_view(out@) =~~= news_detail_spec(*a, width as nat));
    out
}

/// The news screen when there are no articles yet (`None`) or none at all.
pub fn news_placeholder(fetched: bool) -> (r: &'static str)
    ensures
        r@ == if fetched {
            "No articles found."@
        } else {
            "Fetching DayZ news\u{2026}"@
        },
{
    if fetched {
        "No articles found."
    } else {
        "Fetching DayZ news\u{2026}"
    }
}

} // verus!
