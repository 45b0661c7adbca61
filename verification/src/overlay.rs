//! The progress overlay of a mod operation and the two-line server rows of
//! the server lists.

use vstd::prelude::*;
use crate::api::Server;
use crate::screens::{
    dec_chars, line_view, lines_view, one, pad_left, pad_left_chars, pad_right, pad_right_chars,
    plain, push_line, push_span, span, span_view, sv, Color, Span, SpanView,
};
use crate::text::{dec, dec_int, from_chars, i64_to_dec, push_all, push_str, split, split_str, str_eq, to_chars};
use crate::tui::{ProgressPhase, ProgressState};
use crate::widgets::{player_color, PlayerColor};

verus! {

// ------------------------------------------------------------ text lines

/// A line that ended with a line feed, without a carriage return before it.
pub open spec fn strip_cr(p: Seq<char>) -> Seq<char> {
    if p.len() > 0 && p.last() == '\r' {
        p.drop_last()
    } else {
        p
    }
}

/// The first `k` pieces of a split text as lines (each followed by a line
/// feed, so a carriage return before it is dropped).
pub open spec fn full_lines(parts: Seq<Seq<char>>) -> Seq<Seq<char>>
    decreases parts.len(),
{
    if parts.len() == 0 {
        Seq::empty()
    } else {
        full_lines(parts.drop_last()).push(strip_cr(parts.last()))
    }
}

/// `str::lines`: the text split at line feeds (a carriage return before a
/// line feed dropped), with no empty line after a final line feed.
pub open spec fn text_lines(s: Seq<char>) -> Seq<Seq<char>> {
    let parts = split(s, '\n');
    let n = parts.len();
    if n == 0 {
        Seq::empty()
    } else if parts[n - 1].len() == 0 {
        full_lines(parts.subrange(0, n - 1))
    } else {
        full_lines(parts.subrange(0, n - 1)).push(parts[n - 1])
    }
}

/// The lines of a text.
pub fn lines_of(s: &str) -> (r: Vec<String>)
    ensures
        crate::text::string_views(r@) == text_lines(s@),
{
    let parts = split_str(s, '\n');
    let ghost ps = split(s@, '\n');
    proof {
        crate::text::lemma_split_nonempty(s@, '\n');
    }
    let n = parts.len();
    let mut out: Vec<String> = Vec::new();
    let mut i: usize = 0;
    proof {
        assert(ps.subrange(0, 0) =~= Seq::<Seq<char>>::empty());
        assert(crate::text::string_views(out@) =~= Seq::<Seq<char>>::empty());
    }
    while i + 1 < n
        invariant
            n == parts@.len(),
            n == ps.len(),
            n >= 1,
            i + 1 <= n,
            ps == split(s@, '\n'),
            forall|k: int| 0 <= k < n ==> #[trigger] parts@[k]@ == ps[k],
            crate::text::string_views(out@) == full_lines(ps.subrange(0, i as int)),
        decreases n - i,
    {
        proof {
            let t = ps.subrange(0, i + 1);
            assert(t.drop_last() =~= ps.subrange(0, i as int));
            assert(t.last() == parts@[i as int]@);
        }
        let p = &parts[i];
        let mut v: Vec<char> = Vec::new();
        push_all(&mut v, p);
        if v.len() > 0 && v[v.len() - 1] == '\r' {
            v.pop();
        }
        let ghost before = crate::text::string_views(out@);
        out.push(from_chars(&v));
        assert(crate::text::string_views(out@) =~= before.push(v@));
        i = i + 1;
    }
    let last = &parts[n - 1];
    if last.len() > 0 {
        let ghost before = crate::text::string_views(out@);
        out.push(from_chars(last));
        assert(crate::text::string_views(out@) =~= before.push(last@));
    }
    out
}

// ------------------------------------------------------------ progress

/// The title of the progress overlay.
pub open spec fn progress_title_spec(current: nat, total: nat) -> Seq<char> {
    if total > 0 {
        " Mod Operation ["@ + dec(current) + seq!['/'] + dec(total) + "] "@
    } else {
        " Mod Operation "@
    }
}

/// The title of the progress overlay.
pub fn progress_title(p: &ProgressState) -> (r: String)
    ensures
        r@ == progress_title_spec(p.current as nat, p.total as nat),
{
    if p.total > 0 {
        let mut v = to_chars(" Mod Operation [");
        push_all(&mut v, &dec_chars(p.current as u64));
        v.push('/');
        push_all(&mut v, &dec_chars(p.total as u64));
        push_str(&mut v, "] ");
        from_chars(&v)
    } else {
        from_chars(&to_chars(" Mod Operation "))
    }
}

/// Whether the operation ended with a hint (a failed login).
pub open spec fn has_hint(p: ProgressState) -> bool {
    p.phase matches ProgressPhase::Finished { hint: Some(_), .. }
}

/// The colour of the overlay's border: red after a failed login.
pub fn border_color(p: &ProgressState) -> (r: Color)
    ensures
        r == if has_hint(*p) {
            Color::Red
        } else {
            Color::Cyan
        },
{
    match &p.phase {
        ProgressPhase::Finished { hint: Some(_), .. } => Color::Red,
        _ => Color::Cyan,
    }
}

/// The status line of the overlay and its colour.
pub open spec fn progress_status_spec(p: ProgressState) -> (Seq<char>, Color) {
    match p.phase {
        ProgressPhase::ShuttingDownSteam => (
            "Closing Steam (required before steamcmd can run)..."@,
            Color::Green,
        ),
        ProgressPhase::Downloading => (
            "Downloading: "@ + p.current_mod_name@ + " ("@ + dec(p.current_mod_id as nat) + seq![')'],
            Color::Yellow,
        ),
        ProgressPhase::Finished { ok, failed, hint } => if hint is Some {
            ("Login failed or expired"@, Color::Red)
        } else if failed == 0 {
            ("Done! "@ + dec(ok as nat) + " mods completed successfully"@, Color::Green)
        } else {
            ("Done: "@ + dec(ok as nat) + " OK, "@ + dec(failed as nat) + " failed"@, Color::Red)
        },
    }
}

/// The status line of the overlay and its colour.
pub fn progress_status(p: &ProgressState) -> (r: (String, Color))
    ensures
        (r.0@, r.1) == progress_status_spec(*p),
{
    match &p.phase {
        ProgressPhase::ShuttingDownSteam => (
            from_chars(&to_chars("Closing Steam (required before steamcmd can run)...")),
            Color::Green,
        ),
        ProgressPhase::Downloading => {
            let mut v = to_chars("Downloading: ");
            push_str(&mut v, p.current_mod_name.as_str());
            push_str(&mut v, " (");
            push_all(&mut v, &dec_chars(p.current_mod_id));
            v.push(')');
            (from_chars(&v), Color::Yellow)
        },
        ProgressPhase::Finished { ok, failed, hint } => {
            if hint.is_some() {
                (from_chars(&to_chars("Login failed or expired")), Color::Red)
            } else if *failed == 0 {
                let mut v = to_chars("Done! ");
                push_all(&mut v, &dec_chars(*ok as u64));
                push_str(&mut v, " mods completed successfully");
                (from_chars(&v), Color::Green)
            } else {
                let mut v = to_chars("Done: ");
                push_all(&mut v, &dec_chars(*ok as u64));
                push_str(&mut v, " OK, ");
                push_all(&mut v, &dec_chars(*failed as u64));
                push_str(&mut v, " failed");
                (from_chars(&v), Color::Red)
            }
        },
    }
}

/// The label of the progress gauge: mods handled of the total, or `...`.
pub open spec fn gauge_label_spec(done: nat, total: nat) -> Seq<char> {
    if total > 0 {
        dec(done) + seq!['/'] + dec(total)
    } else {
        "..."@
    }
}

/// The label of the progress gauge.
pub fn gauge_label(p: &ProgressState) -> (r: String)
    ensures
        r@ == gauge_label_spec(p.completed@.len(), p.total as nat),
{
    if p.total > 0 {
        let mut v = dec_chars(p.completed.len() as u64);
        v.push('/');
        push_all(&mut v, &dec_chars(p.total as u64));
        from_chars(&v)
    } else {
        from_chars(&to_chars("..."))
    }
}

/// The hint's lines, in bold yellow.
pub open spec fn hint_lines_spec(ls: Seq<Seq<char>>) -> Seq<Seq<SpanView>>
    decreases ls.len(),
{
    if ls.len() == 0 {
        Seq::empty()
    } else {
        hint_lines_spec(ls.drop_last()).push(seq![(ls.last(), Color::Yellow, Color::Reset, true)])
    }
}

/// The lines of the hint shown after a failed login; none without one.
pub fn hint_lines(p: &ProgressState) -> (r: Vec<Vec<Span>>)
    ensures
        lines_view(r@) == match p.phase {
            ProgressPhase::Finished { hint: Some(h), .. } => hint_lines_spec(text_lines(h@)),
            _ => Seq::<Seq<SpanView>>::empty(),
        },
{
    let mut out: Vec<Vec<Span>> = Vec::new();
    match &p.phase {
        ProgressPhase::Finished { hint: Some(h), .. } => {
            let ls = lines_of(h.as_str());
            let ghost all = crate::text::string_views(ls@);
            let mut i: usize = 0;
            proof {
                assert(all.subrange(0, 0) =~= Seq::<Seq<char>>::empty());
                assert(lines_view(out@) =~= Seq::<Seq<SpanView>>::empty());
            }
            while i < ls.len()
                invariant
                    i <= ls@.len(),
                    all == crate::text::string_views(ls@),
                    lines_view(out@) == hint_lines_spec(all.subrange(0, i as int)),
                decreases ls.len() - i,
            {
                proof {
                    let t = all.subrange(0, i + 1);
                    assert(t.drop_last() =~= all.subrange(0, i as int));
                    assert(t.last() == ls@[i as int]@);
                }
                push_line(&mut out, one(span(to_chars(ls[i].as_str()), Color::Yellow, Color::Reset, true)));
                i = i + 1;
            }
            assert(all.subrange(0, ls@.len() as int) =~= all);
        },
        _ => {
            assert(lines_view(out@) =~= Seq::<Seq<SpanView>>::empty());
        },
    }
    out
}

/// A finished mod as the overlay lists it: `+` or `x`, name, id.
pub open spec fn completed_line(c: (u64, Seq<char>, bool)) -> Seq<SpanView> {
    seq![
        sv(
            seq![' ', if c.2 {
                '+'
            } else {
                'x'
            }, ' '],
            if c.2 {
                Color::Green
            } else {
                Color::Red
            },
        ),
        sv(c.1, Color::White),
        sv(" ("@ + dec(c.0 as nat) + seq![')'], Color::DarkGray),
    ]
}

/// The finished mods as lines.
pub open spec fn completed_lines_spec(cs: Seq<(u64, Seq<char>, bool)>) -> Seq<Seq<SpanView>>
    decreases cs.len(),
{
    if cs.len() == 0 {
        Seq::empty()
    } else {
        completed_lines_spec(cs.drop_last()).push(completed_line(cs.last()))
    }
}

/// The finished mods as values.
pub open spec fn completed_view(p: ProgressState) -> Seq<(u64, Seq<char>, bool)> {
    p.completed@.map_values(|c: (u64, String, bool)| (c.0, c.1@, c.2))
}

/// The last `max_show` finished mods, one line each.
pub fn completed_lines(p: &ProgressState, max_show: usize) -> (r: Vec<Vec<Span>>)
    ensures
        lines_view(r@) == completed_lines_spec(
            completed_view(*p).subrange(
                if p.completed@.len() > max_show {
                    p.completed@.len() - max_show
                } else {
                    0
                },
                p.completed@.len() as int,
            ),
        ),
{
    let n = p.completed.len();
    let skip: usize = if n > max_show {
        n - max_show
    } else {
        0
    };
    let ghost all = completed_view(*p);
    let mut out: Vec<Vec<Span>> = Vec::new();
    let mut i: usize = skip;
    proof {
        assert(all.subrange(skip as int, skip as int) =~= Seq::<(u64, Seq<char>, bool)>::empty());
        assert(lines_view(out@) =~= Seq::<Seq<SpanView>>::empty());
    }
    while i < n
        invariant
            skip <= i <= n,
            n == p.completed@.len(),
            all == completed_view(*p),
            lines_view(out@) == completed_lines_spec(all.subrange(skip as int, i as int)),
        decreases n - i,
    {
        let c = &p.completed[i];
        proof {
            let t = all.subrange(skip as int, i + 1);
            assert(t.drop_last() =~= all.subrange(skip as int, i as int));
            assert(t.last() == (c.0, c.1@, c.2));
        }
        let mut l: Vec<Span> = Vec::new();
        let mut m: Vec<char> = Vec::new();
        m.push(' ');
        m.push(if c.2 {
            '+'
        } else {
            'x'
        });
        m.push(' ');
        assert(m@ =~= seq![' ', if c.2 {
            '+'
        } else {
            'x'
        }, ' ']);
        push_span(&mut l, span(m, if c.2 {
            Color::Green
        } else {
            Color::Red
        }, Color::Reset, false));
        push_span(&mut l, span(to_chars(c.1.as_str()), Color::White, Color::Reset, false));
        let mut id = to_chars(" (");
        push_all(&mut id, &dec_chars(c.0));
        id.push(')');
        push_span(&mut l, span(id, Color::DarkGray, Color::Reset, false));
        assert(line_view(l) =~~= completed_line((c.0, c.1@, c.2)));
        push_line(&mut out, l);
        i = i + 1;
    }
    out
}

/// The height of the overlay: six rows, up to eight finished mods, and the
/// hint's lines and one more, at most four rows less than the screen.
pub open spec fn overlay_height_spec(completed: nat, hint_lines: Option<nat>, area_height: nat) -> nat {
    let c = if completed < 8 {
        completed
    } else {
        8
    };
    let h = match hint_lines {
        Some(n) => n + 1,
        None => 0,
    };
    let cap = if area_height >= 4 {
        (area_height - 4) as nat
    } else {
        0
    };
    if 6 + c + h < cap {
        (6 + c + h) as nat
    } else {
        cap
    }
}

/// The height of the overlay on a screen `area_height` rows high.
pub fn overlay_height(p: &ProgressState, area_height: u16) -> (r: u16)
    requires
        match p.phase {
            ProgressPhase::Finished { hint: Some(h), .. } => text_lines(h@).len() + 7 + (if p.completed@.len() < 8 {
                p.completed@.len()
            } else {
                8
            }) <= 65535,
            _ => true,
        },
    ensures
        r as nat == overlay_height_spec(
            p.completed@.len(),
            match p.phase {
                ProgressPhase::Finished { hint: Some(h), .. } => Some(text_lines(h@).len()),
                _ => None,
            },
            area_height as nat,
        ),
{
    let c: u16 = if p.completed.len() < 8 {
        p.completed.len() as u16
    } else {
        8
    };
    let h: u16 = match &p.phase {
        ProgressPhase::Finished { hint: Some(t), .. } => {
            let ls = lines_of(t.as_str());
            ls.len() as u16 + 1
        },
        _ => 0,
    };
    let cap: u16 = if area_height >= 4 {
        area_height - 4
    } else {
        0
    };
    if 6 + c + h < cap {
        6 + c + h
    } else {
        cap
    }
}

// ------------------------------------------------------------ server rows

/// The colour of a player count.
pub open spec fn player_color_of(c: PlayerColor) -> Color {
    match c {
        PlayerColor::DarkGray => Color::DarkGray,
        PlayerColor::Red => Color::Red,
        PlayerColor::Yellow => Color::Yellow,
        PlayerColor::Green => Color::Green,
    }
}

/// The ping column: the milliseconds right-aligned with their colour
/// (green under 50, yellow under 100, else red), or a dash.
pub open spec fn ping_spec(ping_ms: Option<u32>) -> (Seq<char>, Color) {
    match ping_ms {
        Some(ms) => (
            pad_left(dec(ms as nat), 3) + "ms"@,
            if ms < 50 {
                Color::Green
            } else if ms < 100 {
                Color::Yellow
            } else {
                Color::Red
            },
        ),
        None => ("   -  "@, Color::DarkGray),
    }
}

/// The options of a server row.
pub struct RowStyle {
    pub selected: bool,
    pub favorite: bool,
    pub ping_ms: Option<u32>,
}

/// A colour as a row shows it: black on the selection.
pub open spec fn row_fg(selected: bool, c: Color) -> Color {
    if selected {
        Color::Black
    } else {
        c
    }
}

/// The background of a row.
pub open spec fn row_bg(selected: bool) -> Color {
    if selected {
        Color::Cyan
    } else {
        Color::Reset
    }
}

/// The first line of a server row: number, favorite mark, ping, players,
/// an optional prefix, the name, an optional suffix, then the password,
/// first-person and platform marks.
pub open spec fn row_line1_spec(
    index: nat,
    s: Server,
    st: RowStyle,
    prefix: Option<SpanView>,
    suffix: Option<SpanView>,
) -> Seq<SpanView> {
    let sel = st.selected;
    let bg = row_bg(sel);
    let ping = ping_spec(st.ping_ms);
    let pc = player_color_of(
        if s.players == 0 {
            PlayerColor::DarkGray
        } else if s.players >= s.max_players {
            PlayerColor::Red
        } else if s.players > crate::calendar::tdiv(s.max_players as int, 2) {
            PlayerColor::Yellow
        } else {
            PlayerColor::Green
        },
    );
    seq![
        (pad_left(dec(index + 1), 5) + " "@, row_fg(sel, Color::DarkGray), bg, false),
        if st.favorite {
            (" "@, row_fg(sel, Color::Yellow), bg, false)
        } else {
            ("  "@, Color::Reset, bg, false)
        },
        (pad_right(ping.0, 7), row_fg(sel, ping.1), bg, false),
        (
            pad_left(dec_int(s.players as int), 3) + seq!['/'] + pad_right(dec_int(s.max_players as int), 3)
                + " "@,
            row_fg(sel, pc),
            bg,
            true,
        ),
    ] + match prefix {
        Some(p) => seq![(p.0, p.1, bg, p.3), (" "@, Color::Reset, bg, false)],
        None => Seq::empty(),
    } + seq![(s.name@, row_fg(sel, Color::White), bg, sel)] + match suffix {
        Some(x) => seq![("  "@, Color::Reset, bg, false), (x.0, x.1, bg, x.3)],
        None => Seq::empty(),
    } + seq![
        ("  "@, Color::Reset, bg, false),
        if s.password {
            (" "@, row_fg(sel, Color::Red), bg, false)
        } else {
            ("  "@, Color::Reset, bg, false)
        },
        (" "@, Color::Reset, bg, false),
        if s.first_person_only {
            ("1P"@, row_fg(sel, Color::Yellow), bg, false)
        } else {
            ("  "@, Color::Reset, bg, false)
        },
        (" "@, Color::Reset, bg, false),
        if s.environment@ == "w"@ {
            (" "@, row_fg(sel, Color::Blue), bg, false)
        } else {
            (" "@, row_fg(sel, Color::Green), bg, false)
        },
    ]
}

/// The second line of a server row: address, map, mod count, version and
/// in-game time, in columns.
pub open spec fn row_line2_spec(s: Server, selected: bool) -> Seq<SpanView> {
    let bg = row_bg(selected);
    let mods = if s.mods@.len() == 0 {
        "no mods"@
    } else {
        dec(s.mods@.len()) + " mods"@
    };
    seq![
        ("       "@, Color::Reset, bg, false),
        (
            pad_right(s.endpoint.ip@ + seq![':'] + dec_int(s.game_port as int), 21),
            row_fg(selected, Color::Green),
            bg,
            false,
        ),
        (pad_right(s.map@, 14), row_fg(selected, Color::Cyan), bg, false),
        (pad_right(mods, 8), row_fg(selected, Color::Magenta), bg, false),
        (pad_right(s.version@, 10), row_fg(selected, Color::DarkGray), bg, false),
        (s.time@, row_fg(selected, Color::DarkGray), bg, false),
    ]
}

fn fg_of(selected: bool, c: Color) -> (r: Color)
    ensures
        r == row_fg(selected, c),
{
    if selected {
        Color::Black
    } else {
        c
    }
}

fn text_span(t: &str, fg: Color, bg: Color) -> (r: Span)
    ensures
        span_view(r) == (t@, fg, bg, false),
{
    span(to_chars(t), fg, bg, false)
}

fn row_head(index: usize, s: &Server, st: &RowStyle) -> (r: Vec<Span>)
    requires
        index < usize::MAX,
    ensures
        line_view(r) == row_line1_spec(index as nat, *s, *st, None, None).subrange(0, 4),
{
    let sel = st.selected;
    let bg = if sel {
        Color::Cyan
    } else {
        Color::Reset
    };
    let mut l: Vec<Span> = Vec::new();
    let mut n = pad_left_chars(&dec_chars((index + 1) as u64), 5);
    push_str(&mut n, " ");
    push_span(&mut l, span(n, fg_of(sel, Color::DarkGray), bg, false));
    if st.favorite {
        push_span(&mut l, text_span(" ", fg_of(sel, Color::Yellow), bg));
    } else {
        push_span(&mut l, text_span("  ", Color::Reset, bg));
    }
    let (ping, pcol) = match st.ping_ms {
        Some(ms) => {
            let mut p = pad_left_chars(&dec_chars(ms as u64), 3);
            push_str(&mut p, "ms");
            let c = if ms < 50 {
                Color::Green
            } else if ms < 100 {
                Color::Yellow
            } else {
                Color::Red
            };
            (p, c)
        },
        None => (to_chars("   -  "), Color::DarkGray),
    };
    push_span(&mut l, span(pad_right_chars(&ping, 7), fg_of(sel, pcol), bg, false));
    let pc = match player_color(s.players, s.max_players) {
        PlayerColor::DarkGray => Color::DarkGray,
        PlayerColor::Red => Color::Red,
        PlayerColor::Yellow => Color::Yellow,
        PlayerColor::Green => Color::Green,
    };
    let mut pl = pad_left_chars(&i64_to_dec(s.players), 3);
    pl.push('/');
    push_all(&mut pl, &pad_right_chars(&i64_to_dec(s.max_players), 3));
    push_str(&mut pl, " ");
    push_span(&mut l, span(pl, fg_of(sel, pc), bg, true));
    assert(line_view(l) =~~= row_line1_spec(index as nat, *s, *st, None, None).subrange(0, 4));
    l
}

fn row_tail(s: &Server, sel: bool) -> (r: Vec<Span>)
    ensures
        line_view(r) == row_line1_spec(0, *s, RowStyle { selected: sel, favorite: false, ping_ms: None }, None, None).subrange(
            5,
            11,
        ),
{
    let bg = if sel {
        Color::Cyan
    } else {
        Color::Reset
    };
    let mut l: Vec<Span> = Vec::new();
    push_span(&mut l, text_span("  ", Color::Reset, bg));
    if s.password {
        push_span(&mut l, text_span(" ", fg_of(sel, Color::Red), bg));
    } else {
        push_span(&mut l, text_span("  ", Color::Reset, bg));
    }
    push_span(&mut l, text_span(" ", Color::Reset, bg));
    if s.first_person_only {
        push_span(&mut l, text_span("1P", fg_of(sel, Color::Yellow), bg));
    } else {
        push_span(&mut l, text_span("  ", Color::Reset, bg));
    }
    push_span(&mut l, text_span(" ", Color::Reset, bg));
    if str_eq(s.environment.as_str(), "w") {
        push_span(&mut l, text_span(" ", fg_of(sel, Color::Blue), bg));
    } else {
        push_span(&mut l, text_span(" ", fg_of(sel, Color::Green), bg));
    }
    assert(line_view(l) =~~= row_line1_spec(0, *s, RowStyle { selected: sel, favorite: false, ping_ms: None }, None, None).subrange(
        5,
        11,
    ));
    l
}

fn append_spans(l: &mut Vec<Span>, more: Vec<Span>)
    ensures
        line_view(*final(l)) == line_view(*old(l)) + line_view(more),
{
    let ghost start = line_view(*l);
    let ghost all = line_view(more);
    let mut rest = more;
    let mut taken: Vec<Span> = Vec::new();
    while rest.len() > 0
        invariant
            all == line_view(rest) + line_view(taken).reverse(),
        decreases rest.len(),
    {
        let ghost before_rest = rest@;
        let ghost before_taken = line_view(taken);
        let x = rest.pop().unwrap();
        proof {
            assert(before_rest =~= rest@.push(x));
            assert(before_rest.map_values(|s: Span| span_view(s)) =~= line_view(rest).push(span_view(x)));
        }
        push_span(&mut taken, x);
        proof {
            assert(line_view(taken).reverse() =~= seq![span_view(x)] + before_taken.reverse());
            assert(all =~= line_view(rest) + line_view(taken).reverse());
        }
    }
    assert(line_view(rest) =~= Seq::<SpanView>::empty());
    assert(all =~= line_view(taken).reverse());
    while taken.len() > 0
        invariant
            line_view(*l) + line_view(taken).reverse() == start + all,
        decreases taken.len(),
    {
        let ghost before_taken = taken@;
        let ghost before_l = line_view(*l);
        let x = taken.pop().unwrap();
        proof {
            assert(before_taken =~= taken@.push(x));
            assert(before_taken.map_values(|s: Span| span_view(s)).reverse() =~= seq![span_view(x)]
                + line_view(taken).reverse());
        }
        push_span(l, x);
        assert(line_view(*l) + line_view(taken).reverse() =~= before_l + before_taken.map_values(
            |s: Span| span_view(s),
        ).reverse());
    }
    assert(line_view(taken).reverse() =~= Seq::<SpanView>::empty());
    assert(line_view(*l) =~= start + all);
}

fn row_second(s: &Server, sel: bool) -> (r: Vec<Span>)
    ensures
        line_view(r) =~~= row_line2_spec(*s, sel),
{
    let bg = if sel {
        Color::Cyan
    } else {
        Color::Reset
    };
    let mut l2: Vec<Span> = Vec::new();
    push_span(&mut l2, text_span("       ", Color::Reset, bg));
    let mut addr = to_chars(s.endpoint.ip.as_str());
    addr.push(':');
    push_all(&mut addr, &i64_to_dec(s.game_port));
    push_span(&mut l2, span(pad_right_chars(&addr, 21), fg_of(sel, Color::Green), bg, false));
    push_span(&mut l2, span(pad_right_chars(&to_chars(s.map.as_str()), 14), fg_of(sel, Color::Cyan), bg, false));
    let mods = if s.mods.len() == 0 {
        to_chars("no mods")
    } else {
        let mut m = dec_chars(s.mods.len() as u64);
        push_str(&mut m, " mods");
        m
    };
    push_span(&mut l2, span(pad_right_chars(&mods, 8), fg_of(sel, Color::Magenta), bg, false));
    push_span(&mut l2, span(pad_right_chars(&to_chars(s.version.as_str()), 10), fg_of(sel, Color::DarkGray), bg, false));
    push_span(&mut l2, span(to_chars(s.time.as_str()), fg_of(sel, Color::DarkGray), bg, false));
    assert(line_view(l2) =~~= row_line2_spec(*s, sel));
    l2
}

/// Spans as values, when there is one.
pub open spec fn opt_span_view(o: Option<Span>) -> Option<SpanView> {
    match o {
        Some(s) => Some(span_view(s)),
        None => None,
    }
}

/// The two lines of the server at index `index` of a list; `prefix` and
/// `suffix` are shown around the name on the selection's background.
#[verifier::rlimit(30)]
pub fn server_row(index: usize, s: &Server, st: &RowStyle, prefix: Option<Span>, suffix: Option<Span>) -> (r: Vec<Vec<Span>>)
    requires
        index < usize::MAX,
    ensures
        r@.len() == 2,
        line_view(r@[0]) =~= row_line1_spec(index as nat, *s, *st, opt_span_view(prefix), opt_span_view(suffix)),
        line_view(r@[1]) =~= row_line2_spec(*s, st.selected),
{
    let sel = st.selected;
    let bg = if sel {
        Color::Cyan
    } else {
        Color::Reset
    };
    let ghost pv = opt_span_view(prefix);
    let ghost xv = opt_span_view(suffix);
    let mut l1 = row_head(index, s, st);
    let ghost after_head = line_view(l1);
    match prefix {
        Some(p) => {
            push_span(&mut l1, Span { text: p.text, fg: p.fg, bg, bold: p.bold });
            push_span(&mut l1, text_span(" ", Color::Reset, bg));
        },
        None => {},
    }
    let ghost after_prefix = line_view(l1);
    push_span(&mut l1, span(to_chars(s.name.as_str()), fg_of(sel, Color::White), bg, sel));
    let ghost after_name = line_view(l1);
    match suffix {
        Some(x) => {
            push_span(&mut l1, text_span("  ", Color::Reset, bg));
            push_span(&mut l1, Span { text: x.text, fg: x.fg, bg, bold: x.bold });
        },
        None => {},
    }
    let ghost after_suffix = line_view(l1);
    append_spans(&mut l1, row_tail(s, sel));
    proof {
        let full = row_line1_spec(index as nat, *s, *st, pv, xv);
        let bare = row_line1_spec(index as nat, *s, *st, None, None);
        let tail = row_line1_spec(0, *s, RowStyle { selected: sel, favorite: false, ping_ms: None }, None, None);
        let pre = match pv {
            Some(p) => seq![(p.0, p.1, bg, p.3), (" "@, Color::Reset, bg, false)],
            None => Seq::<SpanView>::empty(),
        };
        let suf = match xv {
            Some(x) => seq![("  "@, Color::Reset, bg, false), (x.0, x.1, bg, x.3)],
            None => Seq::<SpanView>::empty(),
        };
        assert(after_prefix =~~= after_head + pre);
        assert(after_suffix =~~= after_prefix + seq![(s.name@, row_fg(sel, Color::White), bg, sel)] + suf);
        assert(full =~~= bare.subrange(0, 4) + pre + seq![(s.name@, row_fg(sel, Color::White), bg, sel)] + suf
            + tail.subrange(5, 11));
    }
    let l2 = row_second(s, sel);
    let mut out: Vec<Vec<Span>> = Vec::new();
    out.push(l1);
    out.push(l2);
    out
}

} // verus!
