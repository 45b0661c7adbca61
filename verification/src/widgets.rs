//! What the terminal interface shows: key help, colors and wrapped text.

use vstd::prelude::*;
use crate::text::{
    from_chars, is_ws, lacks, push_all, slice_chars, split, split_str, string_views, to_chars, utf8_len,
    utf8_len_chars, views,
};
use crate::tui::Tab;

verus! {

/// The key help shown in the status bar of each tab.
pub open spec fn keybinds_spec(tab: Tab) -> Seq<char> {
    match tab {
        Tab::Servers => "j/k:Nav | Enter:Connect | f:Fav | i:A2S | m:Details | /:Search | r:Refresh | Tab/S-Tab:Tabs | q:Quit"@,
        Tab::Favorites => "j/k:Nav | Enter:Connect | i:A2S | x:Remove | Tab/S-Tab:Tabs | q:Quit"@,
        Tab::History => "j/k:Nav | Enter:Connect | i:A2S | f:Fav | x:Remove | c:Clear | Tab/S-Tab:Tabs | q:Quit"@,
        Tab::Mods => "j/k:Nav | u:Update | U:All | d:Del | m:Managed | c:Cleanup | r:Refresh | q:Quit"@,
        Tab::News => "j/k:Nav | Enter:Open in browser | Ctrl+d/u:Scroll content | Tab/S-Tab:Tabs | q:Quit"@,
        Tab::DirectConnect => "Up/Down:Fields | Enter:Activate | Tab/S-Tab:Tabs | Esc:Back"@,
        Tab::Options => "j/k:Nav | Enter:Toggle | e:Edit Value | Tab/S-Tab:Tabs | q:Quit"@,
        Tab::Offline => "j/k:Nav | Enter:Launch mission | u:Update/Install | Tab/S-Tab:Tabs | q:Quit"@,
    }
}

/// The key help shown in the status bar of each tab.
pub fn keybinds_for_tab(tab: Tab) -> (r: &'static str)
    ensures
        r@ == keybinds_spec(tab),
{
    match tab {
        Tab::Servers => "j/k:Nav | Enter:Connect | f:Fav | i:A2S | m:Details | /:Search | r:Refresh | Tab/S-Tab:Tabs | q:Quit",
        Tab::Favorites => "j/k:Nav | Enter:Connect | i:A2S | x:Remove | Tab/S-Tab:Tabs | q:Quit",
        Tab::History => "j/k:Nav | Enter:Connect | i:A2S | f:Fav | x:Remove | c:Clear | Tab/S-Tab:Tabs | q:Quit",
        Tab::Mods => "j/k:Nav | u:Update | U:All | d:Del | m:Managed | c:Cleanup | r:Refresh | q:Quit",
        Tab::News => "j/k:Nav | Enter:Open in browser | Ctrl+d/u:Scroll content | Tab/S-Tab:Tabs | q:Quit",
        Tab::DirectConnect => "Up/Down:Fields | Enter:Activate | Tab/S-Tab:Tabs | Esc:Back",
        Tab::Options => "j/k:Nav | Enter:Toggle | e:Edit Value | Tab/S-Tab:Tabs | q:Quit",
        Tab::Offline => "j/k:Nav | Enter:Launch mission | u:Update/Install | Tab/S-Tab:Tabs | q:Quit",
    }
}

/// The color of a player count by how full the server is.
#[derive(Debug, Clone, Copy, PartialEq, Eq, Structural)]
pub enum PlayerColor {
    DarkGray,
    Red,
    Yellow,
    Green,
}

/// Color for a player count: grey when empty, red when full, yellow when
/// more than half full (rounding the half toward zero), else green.
pub fn player_color(players: i64, max_players: i64) -> (r: PlayerColor)
    ensures
        r == if players == 0 {
            PlayerColor::DarkGray
        } else if players >= max_players {
            PlayerColor::Red
        } else if players > crate::calendar::tdiv(max_players as int, 2) {
            PlayerColor::Yellow
        } else {
            PlayerColor::Green
        },
{
    if players == 0 {
        PlayerColor::DarkGray
    } else if players >= max_players {
        PlayerColor::Red
    } else if players > max_players / 2 {
        PlayerColor::Yellow
    } else {
        PlayerColor::Green
    }
}

/// The white-space separated words of a text (`split_whitespace`).
pub open spec fn words(s: Seq<char>) -> Seq<Seq<char>>
    decreases s.len(),
{
    if s.len() == 0 {
        Seq::empty()
    } else {
        let p = words(s.drop_last());
        let c = s.last();
        if is_ws(c) {
            p
        } else if s.len() >= 2 && !is_ws(s[s.len() - 2]) {
            p.update(p.len() - 1, p.last().push(c))
        } else {
            p.push(seq![c])
        }
    }
}

/// A word cut into pieces of `width` characters, the last one shorter
/// when it does not come out even.
pub open spec fn chunks(w: Seq<char>, width: nat) -> Seq<Seq<char>>
    decreases w.len(),
{
    if width == 0 || w.len() <= width {
        seq![w]
    } else {
        seq![w.take(width as int)] + chunks(w.skip(width as int), width)
    }
}

/// The wrapped lines of a list of words: a word joins the current line
/// after a space while the line stays within `width` characters, else it
/// starts a new line; a word longer than `width` is cut into pieces of
/// `width` characters, each on its own line, the last one going on.
/// Returns the finished lines and the current one.
pub open spec fn wrap_words(ws: Seq<Seq<char>>, width: nat) -> (Seq<Seq<char>>, Seq<char>)
    decreases ws.len(),
{
    if ws.len() == 0 {
        (Seq::empty(), Seq::empty())
    } else {
        let (lines, current) = wrap_words(ws.drop_last(), width);
        let w = ws.last();
        if width > 0 && w.len() > width {
            let c = chunks(w, width);
            (
                (if current.len() == 0 {
                    lines
                } else {
                    lines.push(current)
                }) + c.drop_last(),
                c.last(),
            )
        } else if current.len() == 0 {
            (lines, w)
        } else if current.len() + 1 + w.len() <= width {
            (lines, current.push(' ') + w)
        } else {
            (lines.push(current), w)
        }
    }
}

/// The lines of one paragraph: its wrapped words, and an empty line for a
/// paragraph that is only white space.
pub open spec fn wrap_paragraph(p: Seq<char>, width: nat) -> Seq<Seq<char>> {
    let (lines, current) = wrap_words(words(p), width);
    if current.len() > 0 || p.len() > 0 {
        lines.push(current)
    } else {
        lines
    }
}

/// The lines of paragraphs, in order.
pub open spec fn wrap_paragraphs(ps: Seq<Seq<char>>, width: nat) -> Seq<Seq<char>>
    decreases ps.len(),
{
    if ps.len() == 0 {
        Seq::empty()
    } else {
        wrap_paragraphs(ps.drop_last(), width) + wrap_paragraph(ps.last(), width)
    }
}

proof fn lemma_words_nonempty(s: Seq<char>)
    ensures
        forall|i: int| 0 <= i < words(s).len() ==> (#[trigger] words(s)[i]).len() > 0,
        s.len() > 0 && !is_ws(s.last()) ==> words(s).len() > 0,
    decreases s.len(),
{
    if s.len() > 0 {
        lemma_words_nonempty(s.drop_last());
        let p = words(s.drop_last());
        let c = s.last();
        if !is_ws(c) && s.len() >= 2 && !is_ws(s[s.len() - 2]) {
            assert(s.drop_last().last() == s[s.len() - 2]);
            assert(p.len() > 0);
        }
    }
}

fn words_of(p: &Vec<char>) -> (r: Vec<Vec<char>>)
    ensures
        views(r@) == words(p@),
{
    let mut out: Vec<Vec<char>> = Vec::new();
    let mut i: usize = 0;
    while i < p.len()
        invariant
            i <= p.len(),
            views(out@) == words(p@.subrange(0, i as int)),
        decreases p.len() - i,
    {
        let c = p[i];
        let ghost s = p@.subrange(0, i + 1);
        proof {
            assert(s.drop_last() =~= p@.subrange(0, i as int));
            assert(s.last() == c);
            lemma_words_nonempty(p@.subrange(0, i as int));
            if i >= 1 {
                assert(s[s.len() - 2] == p@[i - 1]);
                assert(p@.subrange(0, i as int).last() == p@[i - 1]);
            }
        }
        if crate::text::char_is_ws(c) {
        } else if i >= 1 && !crate::text::char_is_ws(p[i - 1]) {
            let ghost before = views(out@);
            let k = out.len() - 1;
            let mut w = out.pop().unwrap();
            w.push(c);
            out.push(w);
            proof {
                assert(views(out@) =~= before.update(k as int, before.last().push(c)));
            }
        } else {
            let ghost before = views(out@);
            let mut w: Vec<char> = Vec::new();
            w.push(c);
            out.push(w);
            proof {
                assert(views(out@) =~= before.push(seq![c]));
            }
        }
        i = i + 1;
    }
    assert(p@.subrange(0, p@.len() as int) =~= p@);
    out
}

proof fn lemma_chunks_fit(w: Seq<char>, width: nat)
    requires
        width > 0,
    ensures
        chunks(w, width).len() >= 1,
        forall|i: int| 0 <= i < chunks(w, width).len() ==> (#[trigger] chunks(w, width)[i]).len() <= width
            || w.len() <= width,
        w.len() > width ==> forall|i: int| 0 <= i < chunks(w, width).len() ==> (#[trigger] chunks(w, width)[i]).len() <= width,
    decreases w.len(),
{
    if w.len() > width {
        let r = w.skip(width as int);
        lemma_chunks_fit(r, width);
        let c = chunks(w, width);
        assert forall|i: int| 0 <= i < c.len() implies (#[trigger] c[i]).len() <= width by {
            if i > 0 {
                assert(c[i] == chunks(r, width)[i - 1]);
                if r.len() <= width {
                    assert(chunks(r, width) == seq![r]);
                }
            }
        }
    }
}

proof fn lemma_wrap_words_fit(ws: Seq<Seq<char>>, width: nat)
    requires
        width > 0,
    ensures
        forall|i: int| 0 <= i < wrap_words(ws, width).0.len() ==> (#[trigger] wrap_words(ws, width).0[i]).len() <= width,
        wrap_words(ws, width).1.len() <= width,
    decreases ws.len(),
{
    if ws.len() > 0 {
        lemma_wrap_words_fit(ws.drop_last(), width);
        let (lines, current) = wrap_words(ws.drop_last(), width);
        let w = ws.last();
        if w.len() > width {
            lemma_chunks_fit(w, width);
            let c = chunks(w, width);
            let head = if current.len() == 0 { lines } else { lines.push(current) };
            assert forall|i: int| 0 <= i < head.len() implies (#[trigger] head[i]).len() <= width by {
                if i < lines.len() {
                    assert(head[i] == lines[i]);
                }
            }
            let all = head + c.drop_last();
            assert forall|i: int| 0 <= i < all.len() implies (#[trigger] all[i]).len() <= width by {
                if i < head.len() {
                    assert(all[i] == head[i]);
                } else {
                    assert(all[i] == c[i - head.len()]);
                }
            }
            assert(c.last() == c[c.len() - 1]);
        } else if current.len() > 0 && current.len() + 1 + w.len() > width {
            let all = lines.push(current);
            assert forall|i: int| 0 <= i < all.len() implies (#[trigger] all[i]).len() <= width by {
                if i < lines.len() {
                    assert(all[i] == lines[i]);
                }
            }
        }
    }
}

/// Wrapped text keeps to its width: with a width of at least one
/// character, no line is longer than the width.
pub proof fn lemma_wrap_fits(ps: Seq<Seq<char>>, width: nat)
    requires
        width > 0,
    ensures
        forall|i: int| 0 <= i < wrap_paragraphs(ps, width).len() ==> (#[trigger] wrap_paragraphs(ps, width)[i]).len()
            <= width,
    decreases ps.len(),
{
    if ps.len() > 0 {
        lemma_wrap_fits(ps.drop_last(), width);
        let p = ps.last();
        lemma_wrap_words_fit(words(p), width);
        let a = wrap_paragraphs(ps.drop_last(), width);
        let b = wrap_paragraph(p, width);
        let (lines, current) = wrap_words(words(p), width);
        assert forall|i: int| 0 <= i < b.len() implies (#[trigger] b[i]).len() <= width by {
            if i < lines.len() {
                assert(b[i] == lines[i]);
            }
        }
        let all = a + b;
        assert forall|i: int| 0 <= i < all.len() implies (#[trigger] all[i]).len() <= width by {
            if i < a.len() {
                assert(all[i] == a[i]);
            } else {
                assert(all[i] == b[i - a.len()]);
            }
        }
    }
}

/// Word-wraps `text` to at most `width` characters per line (a longer word
/// is cut): each `\n`-separated paragraph is wrapped on its own.
pub fn wrap_text(text: &str, width: usize) -> (r: Vec<String>)
    ensures
        string_views(r@) == wrap_paragraphs(split(text@, '\n'), width as nat),
        width > 0 ==> forall|i: int| 0 <= i < r@.len() ==> (#[trigger] r@[i])@.len() <= width,
{
    let paragraphs = split_str(text, '\n');
    assert(views(paragraphs@) =~= split(text@, '\n'));
    let mut lines: Vec<String> = Vec::new();
    let mut k: usize = 0;
    while k < paragraphs.len()
        invariant
            k <= paragraphs.len(),
            views(paragraphs@) == split(text@, '\n'),
            string_views(lines@) == wrap_paragraphs(views(paragraphs@).subrange(0, k as int), width as nat),
        decreases paragraphs.len() - k,
    {
        proof {
            let s = views(paragraphs@).subrange(0, k + 1);
            assert(s.drop_last() =~= views(paragraphs@).subrange(0, k as int));
            assert(s.last() == paragraphs@[k as int]@);
        }
        let para = &paragraphs[k];
        let ws = words_of(para);
        let mut done: Vec<String> = Vec::new();
        let mut current: Vec<char> = Vec::new();
        let mut j: usize = 0;
        proof {
            lemma_words_nonempty(para@);
        }
        while j < ws.len()
            invariant
                j <= ws.len(),
                views(ws@) == words(para@),
                forall|i: int| 0 <= i < words(para@).len() ==> (#[trigger] words(para@)[i]).len()
                    > 0,
                (string_views(done@), current@) == wrap_words(
                    views(ws@).subrange(0, j as int),
                    width as nat,
                ),
            decreases ws.len() - j,
        {
            proof {
                let s = views(ws@).subrange(0, j + 1);
                assert(s.drop_last() =~= views(ws@).subrange(0, j as int));
                assert(s.last() == ws@[j as int]@);
            }
            let w = &ws[j];
            if width > 0 && w.len() > width {
                let ghost b0 = string_views(done@);
                if current.len() > 0 {
                    let s = from_chars(&current);
                    done.push(s);
                    assert(string_views(done@) =~= b0.push(s@));
                }
                let ghost base = string_views(done@);
                let mut start: usize = 0;
                assert(w@.skip(0) =~= w@);
                while w.len() - start > width
                    invariant
                        start <= w.len(),
                        width > 0,
                        w@.len() > width,
                        string_views(done@) + chunks(w@.skip(start as int), width as nat) == base + chunks(
                            w@,
                            width as nat,
                        ),
                    decreases w.len() - start,
                {
                    let piece = slice_chars(w, start, start + width);
                    let ghost b = string_views(done@);
                    let ps = from_chars(&piece);
                    done.push(ps);
                    proof {
                        let rest = w@.skip(start as int);
                        assert(rest.take(width as int) =~= piece@);
                        assert(rest.skip(width as int) =~= w@.skip(start + width));
                        assert(chunks(rest, width as nat) == seq![rest.take(width as int)] + chunks(
                            rest.skip(width as int),
                            width as nat,
                        ));
                        assert(string_views(done@) =~= b.push(ps@));
                        assert(b.push(ps@) + chunks(w@.skip(start + width), width as nat) =~= b + (seq![
                            rest.take(width as int),
                        ] + chunks(rest.skip(width as int), width as nat)));
                    }
                    start = start + width;
                }
                current = slice_chars(w, start, w.len());
                proof {
                    let rest = w@.skip(start as int);
                    assert(rest =~= current@);
                    assert(chunks(rest, width as nat) == seq![rest]);
                    let c = chunks(w@, width as nat);
                    assert(base + c == string_views(done@).push(current@));
                    assert(c.len() >= 1);
                    assert((base + c).drop_last() =~= base + c.drop_last());
                    assert(string_views(done@) =~= (base + c).drop_last());
                    assert(c.last() == (base + c).last());
                }
            } else if current.len() == 0 {
                current = w.clone();
                assert(current@ == w@);
            } else if current.len() < usize::MAX && w.len() <= usize::MAX - current.len() - 1
                && current.len() + 1 + w.len() <= width {
                current.push(' ');
                push_all(&mut current, w);
            } else {
                let ghost before = done@;
                let s = from_chars(&current);
                done.push(s);
                assert(string_views(done@) =~= string_views(before).push(s@));
                current = w.clone();
                assert(current@ == w@);
            }
            j = j + 1;
        }
        assert(views(ws@).subrange(0, ws@.len() as int) =~= views(ws@));
        let ghost before = lines@;
        if current.len() > 0 || para.len() > 0 {
            let s = from_chars(&current);
            done.push(s);
        }
        let mut m: usize = 0;
        let ghost base = string_views(lines@);
        let ghost add = string_views(done@);
        while m < done.len()
            invariant
                m <= done.len(),
                add == string_views(done@),
                string_views(lines@) == base + add.subrange(0, m as int),
            decreases done.len() - m,
        {
            let ghost b = lines@;
            let s = from_chars(&to_chars(done[m].as_str()));
            lines.push(s);
            assert(string_views(lines@) =~= string_views(b).push(s@));
            assert(add.subrange(0, m + 1) =~= add.subrange(0, m as int).push(add[m as int]));
            m = m + 1;
        }
        assert(add.subrange(0, add.len() as int) =~= add);
        k = k + 1;
    }
    assert(views(paragraphs@).subrange(0, paragraphs@.len() as int) =~= views(paragraphs@));
    proof {
        if width > 0 {
            lemma_wrap_fits(split(text@, '\n'), width as nat);
            assert forall|i: int| 0 <= i < lines@.len() implies (#[trigger] lines@[i])@.len() <= width by {
                assert(string_views(lines@)[i] == lines@[i]@);
            }
        }
    }
    lines
}

} // verus!
