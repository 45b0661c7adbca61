//! The installed-mods and offline-mode screens of the terminal interface.

use vstd::prelude::*;
use crate::mods::{format_size, format_size_spec, InstalledMod};
use crate::screens::{
    blank, dec_chars, line_view, lines_view, one, pad_left, pad_left_chars, plain, push_line,
    push_span, span, sv, Color, Span, SpanView,
};
use crate::text::{dec, from_chars, push_all, push_str, to_chars};

verus! {

// ------------------------------------------------------------ mods tab

/// A row of the mod list: number, managed marker, name and size (the name
/// and size highlighted when selected).
pub open spec fn mod_item_spec(i: nat, m: InstalledMod, selected: bool) -> Seq<SpanView> {
    seq![
        sv(pad_left(dec(i + 1), 4) + " "@, Color::DarkGray),
        if m.managed {
            sv("\u{25cf}"@, Color::Green)
        } else {
            sv("\u{25cb}"@, Color::DarkGray)
        },
        sv(" "@, Color::Reset),
        if selected {
            (m.name@, Color::Black, Color::Cyan, true)
        } else {
            sv(m.name@, Color::White)
        },
        (
            "  "@ + format_size_spec(m.size),
            if selected {
                Color::Black
            } else {
                Color::DarkGray
            },
            if selected {
                Color::Cyan
            } else {
                Color::Reset
            },
            false,
        ),
    ]
}

/// The row of the mod at index `i`.
pub fn mod_item(i: usize, m: &InstalledMod, selected: bool) -> (r: Vec<Span>)
    requires
        i < usize::MAX,
    ensures
        line_view(r) == mod_item_spec(i as nat, *m, selected),
{
    let mut l: Vec<Span> = Vec::new();
    let mut n = pad_left_chars(&dec_chars((i + 1) as u64), 4);
    push_str(&mut n, " ");
    push_span(&mut l, span(n, Color::DarkGray, Color::Reset, false));
    if m.managed {
        push_span(&mut l, plain("\u{25cf}", Color::Green));
    } else {
        push_span(&mut l, plain("\u{25cb}", Color::DarkGray));
    }
    push_span(&mut l, plain(" ", Color::Reset));
    if selected {
        push_span(&mut l, span(to_chars(m.name.as_str()), Color::Black, Color::Cyan, true));
    } else {
        push_span(&mut l, span(to_chars(m.name.as_str()), Color::White, Color::Reset, false));
    }
    let mut t = to_chars("  ");
    push_str(&mut t, format_size(m.size).as_str());
    let fg = if selected {
        Color::Black
    } else {
        Color::DarkGray
    };
    let bg = if selected {
        Color::Cyan
    } else {
        Color::Reset
    };
    push_span(&mut l, span(t, fg, bg, false));
    assert(line_view(l) =~= mod_item_spec(i as nat, *m, selected));
    l
}

/// The total size of the mods.
pub open spec fn total_size(mods: Seq<InstalledMod>) -> nat
    decreases mods.len(),
{
    if mods.len() == 0 {
        0
    } else {
        total_size(mods.drop_last()) + mods.last().size as nat
    }
}

/// How many of the mods are managed.
pub open spec fn managed_count(mods: Seq<InstalledMod>) -> nat
    decreases mods.len(),
{
    if mods.len() == 0 {
        0
    } else {
        managed_count(mods.drop_last()) + if mods.last().managed {
            1nat
        } else {
            0
        }
    }
}

proof fn lemma_managed_count_bound(mods: Seq<InstalledMod>)
    ensures
        managed_count(mods) <= mods.len(),
    decreases mods.len(),
{
    if mods.len() > 0 {
        lemma_managed_count_bound(mods.drop_last());
    }
}

/// The title of the mod list: position, count, total size and how many
/// are managed.
pub open spec fn mods_title_spec(selected: nat, mods: Seq<InstalledMod>) -> Seq<char> {
    " Mods  "@ + dec(selected + 1) + seq!['/'] + dec(mods.len()) + "  total "@ + format_size_spec(
        total_size(mods) as u64,
    ) + "  managed "@ + dec(managed_count(mods)) + " "@
}

/// The title of the mod list.
pub fn mods_title(selected: usize, mods: &Vec<InstalledMod>) -> (r: String)
    requires
        selected < usize::MAX,
        total_size(mods@) <= u64::MAX,
    ensures
        r@ == mods_title_spec(selected as nat, mods@),
{
    let mut total: u64 = 0;
    let mut count: usize = 0;
    let mut i: usize = 0;
    proof {
        assert(mods@.subrange(0, 0) =~= Seq::<InstalledMod>::empty());
    }
    while i < mods.len()
        invariant
            i <= mods@.len(),
            total_size(mods@) <= u64::MAX,
            total as nat == total_size(mods@.subrange(0, i as int)),
            count as nat == managed_count(mods@.subrange(0, i as int)),
        decreases mods.len() - i,
    {
        proof {
            let t = mods@.subrange(0, i + 1);
            assert(t.drop_last() =~= mods@.subrange(0, i as int));
            lemma_total_prefix(mods@, i as int + 1);
            lemma_managed_count_bound(t);
        }
        total = total + mods[i].size;
        if mods[i].managed {
            count = count + 1;
        }
        i = i + 1;
    }
    assert(mods@.subrange(0, mods@.len() as int) =~= mods@);
    let mut v = to_chars(" Mods  ");
    push_all(&mut v, &dec_chars((selected + 1) as u64));
    v.push('/');
    push_all(&mut v, &dec_chars(mods.len() as u64));
    push_str(&mut v, "  total ");
    push_str(&mut v, format_size(total).as_str());
    push_str(&mut v, "  managed ");
    push_all(&mut v, &dec_chars(count as u64));
    push_str(&mut v, " ");
    from_chars(&v)
}

proof fn lemma_total_prefix(mods: Seq<InstalledMod>, k: int)
    requires
        0 <= k <= mods.len(),
    ensures
        total_size(mods.subrange(0, k)) <= total_size(mods),
    decreases mods.len() - k,
{
    if k < mods.len() {
        lemma_total_prefix(mods.drop_last(), k);
        assert(mods.drop_last().subrange(0, k) =~= mods.subrange(0, k));
    } else {
        assert(mods.subrange(0, k) =~= mods);
    }
}

/// A key and what it does, as the action list shows it.
pub open spec fn action_line(key: Seq<char>, what: Seq<char>) -> Seq<SpanView> {
    seq![sv(key, Color::Yellow), sv(what, Color::Gray)]
}

/// The details of a mod; `updated` is how long ago it was updated, shown
/// when its update time is known.
pub open spec fn mod_detail_spec(m: InstalledMod, updated: Seq<char>) -> Seq<Seq<SpanView>> {
    seq![
        seq![(m.name@, Color::White, Color::Reset, true)],
        Seq::<SpanView>::empty(),
        seq![sv("ID       "@, Color::DarkGray), sv(dec(m.id as nat), Color::Cyan)],
        seq![sv("Size     "@, Color::DarkGray), sv(format_size_spec(m.size), Color::Green)],
        seq![
            sv("Updated  "@, Color::DarkGray),
            sv(
                if m.local_updated > 0 {
                    updated
                } else {
                    "unknown"@
                },
                Color::Magenta,
            ),
        ],
        seq![
            sv("Managed  "@, Color::DarkGray),
            if m.managed {
                sv("yes  (owned by launcher)"@, Color::Green)
            } else {
                sv("no   (external)"@, Color::DarkGray)
            },
        ],
        Seq::<SpanView>::empty(),
        seq![sv("\u{2500}\u{2500}\u{2500} Actions \u{2500}\u{2500}\u{2500}"@, Color::DarkGray)],
        action_line("u "@, "update this mod"@),
        action_line("U "@, "update all mods"@),
        action_line("d "@, "delete this mod"@),
        action_line("m "@, "toggle managed"@),
        action_line("c "@, "cleanup all managed"@),
        action_line("r "@, "refresh list"@),
        Seq::<SpanView>::empty(),
        seq![
            sv(
                "https://steamcommunity.com/sharedfiles/filedetails/?id="@ + dec(m.id as nat),
                Color::DarkGray,
            ),
        ],
    ]
}

fn pair(key: &str, k: Color, what: &str, w: Color) -> (r: Vec<Span>)
    ensures
        line_view(r) == seq![sv(key@, k), sv(what@, w)],
{
    let mut l: Vec<Span> = Vec::new();
    push_span(&mut l, plain(key, k));
    push_span(&mut l, plain(what, w));
    assert(line_view(l) =~= seq![sv(key@, k), sv(what@, w)]);
    l
}

fn pair_text(key: &str, k: Color, what: Vec<char>, w: Color) -> (r: Vec<Span>)
    ensures
        line_view(r) == seq![sv(key@, k), sv(what@, w)],
{
    let mut l: Vec<Span> = Vec::new();
    push_span(&mut l, plain(key, k));
    push_span(&mut l, span(what, w, Color::Reset, false));
    assert(line_view(l) =~= seq![sv(key@, k), sv(what@, w)]);
    l
}

/// The details of a mod.
pub fn mod_detail(m: &InstalledMod, updated: &str) -> (r: Vec<Vec<Span>>)
    ensures
        lines_view(r@) =~~= mod_detail_spec(*m, updated@),
{
    let mut out: Vec<Vec<Span>> = Vec::new();
    push_line(&mut out, one(span(to_chars(m.name.as_str()), Color::White, Color::Reset, true)));
    push_line(&mut out, blank());
    push_line(&mut out, pair_text("ID       ", Color::DarkGray, dec_chars(m.id), Color::Cyan));
    push_line(
        &mut out,
        pair_text("Size     ", Color::DarkGray, to_chars(format_size(m.size).as_str()), Color::Green),
    );
    let installed = if m.local_updated > 0 {
        to_chars(updated)
    } else {
        to_chars("unknown")
    };
    push_line(&mut out, pair_text("Updated  ", Color::DarkGray, installed, Color::Magenta));
    if m.managed {
        push_line(&mut out, pair("Managed  ", Color::DarkGray, "yes  (owned by launcher)", Color::Green));
    } else {
        push_line(&mut out, pair("Managed  ", Color::DarkGray, "no   (external)", Color::DarkGray));
    }
    push_line(&mut out, blank());
    push_line(
        &mut out,
        one(plain("\u{2500}\u{2500}\u{2500} Actions \u{2500}\u{2500}\u{2500}", Color::DarkGray)),
    );
    push_line(&mut out, pair("u ", Color::Yellow, "update this mod", Color::Gray));
    push_line(&mut out, pair("U ", Color::Yellow, "update all mods", Color::Gray));
    push_line(&mut out, pair("d ", Color::Yellow, "delete this mod", Color::Gray));
    push_line(&mut out, pair("m ", Color::Yellow, "toggle managed", Color::Gray));
    push_line(&mut out, pair("c ", Color::Yellow, "cleanup all managed", Color::Gray));
    push_line(&mut out, pair("r ", Color::Yellow, "refresh list", Color::Gray));
    push_line(&mut out, blank());
    let mut link = to_chars("https://steamcommunity.com/sharedfiles/filedetails/?id=");
    push_all(&mut link, &dec_chars(m.id));
    push_line(&mut out, one(span(link, Color::DarkGray, Color::Reset, false)));
    out
}

// ------------------------------------------------------------ offline tab

/// A row of the mission list: number and name, highlighted when selected.
pub open spec fn mission_item_spec(i: nat, name: Seq<char>, selected: bool) -> Seq<SpanView> {
    seq![
        (
            pad_left(dec(i + 1), 3) + ". "@,
            if selected {
                Color::Black
            } else {
                Color::DarkGray
            },
            if selected {
                Color::Cyan
            } else {
                Color::Reset
            },
            false,
        ),
        if selected {
            (name, Color::Black, Color::Cyan, true)
        } else {
            sv(name, Color::White)
        },
    ]
}

/// The row of the mission at index `i`.
pub fn mission_item(i: usize, name: &str, selected: bool) -> (r: Vec<Span>)
    requires
        i < usize::MAX,
    ensures
        line_view(r) == mission_item_spec(i as nat, name@, selected),
{
    let mut l: Vec<Span> = Vec::new();
    let mut n = pad_left_chars(&dec_chars((i + 1) as u64), 3);
    push_str(&mut n, ". ");
    if selected {
        push_span(&mut l, span(n, Color::Black, Color::Cyan, false));
        push_span(&mut l, span(to_chars(name), Color::Black, Color::Cyan, true));
    } else {
        push_span(&mut l, span(n, Color::DarkGray, Color::Reset, false));
        push_span(&mut l, span(to_chars(name), Color::White, Color::Reset, false));
    }
    assert(line_view(l) =~= mission_item_spec(i as nat, name@, selected));
    l
}

/// The title of the mission list.
pub open spec fn missions_title_spec(selected: nat, count: nat) -> Seq<char> {
    if count == 0 {
        " Offline Missions  (none installed) "@
    } else {
        " Offline Missions  ["@ + dec(selected + 1) + seq!['/'] + dec(count) + "] "@
    }
}

/// The title of the mission list.
pub fn missions_title(selected: usize, count: usize) -> (r: String)
    requires
        selected < usize::MAX,
    ensures
        r@ == missions_title_spec(selected as nat, count as nat),
{
    if count == 0 {
        from_chars(&to_chars(" Offline Missions  (none installed) "))
    } else {
        let mut v = to_chars(" Offline Missions  [");
        push_all(&mut v, &dec_chars((selected + 1) as u64));
        v.push('/');
        push_all(&mut v, &dec_chars(count as u64));
        push_str(&mut v, "] ");
        from_chars(&v)
    }
}

/// The information panel of the offline tab: what offline mode is, the
/// last status message, the selected mission or how to install one, and
/// the keys.
pub open spec fn offline_info_spec(status: Option<(Seq<char>, Color)>, mission: Option<Seq<char>>) -> Seq<Seq<SpanView>> {
    let intro = seq![
        seq![("DayZ Community Offline Mode"@, Color::Yellow, Color::Reset, true)],
        Seq::<SpanView>::empty(),
        seq![sv("Play DayZ offline with a local mission,"@, Color::White)],
        seq![sv("no internet connection required."@, Color::White)],
        Seq::<SpanView>::empty(),
    ];
    let st = match status {
        Some(s) => seq![seq![sv(s.0, s.1)], Seq::<SpanView>::empty()],
        None => Seq::empty(),
    };
    let sel = match mission {
        Some(name) => seq![
            seq![sv("Selected Mission"@, Color::Gray)],
            seq![(name, Color::Cyan, Color::Reset, true)],
            Seq::<SpanView>::empty(),
            seq![sv("Press Enter to launch this mission."@, Color::Green)],
        ],
        None => seq![
            seq![sv("No missions installed."@, Color::DarkGray)],
            seq![sv("Press 'u' to download DayZCommunityOfflineMode"@, Color::Yellow)],
            seq![sv("from github.com/Arkensor/DayZCommunityOfflineMode"@, Color::DarkGray)],
        ],
    };
    intro + st + sel + seq![
        Seq::<SpanView>::empty(),
        seq![sv("\u{2500}\u{2500}\u{2500} Actions \u{2500}\u{2500}\u{2500}"@, Color::DarkGray)],
        action_line("Enter "@, "launch selected mission"@),
        action_line("u     "@, "install / update offline mode"@),
        action_line("r     "@, "refresh mission list"@),
    ]
}

/// The information panel of the offline tab.
pub fn offline_info(status: &Option<(String, Color)>, mission: &Option<String>) -> (r: Vec<Vec<Span>>)
    ensures
        lines_view(r@) =~~= offline_info_spec(
            match status {
                Some(s) => Some((s.0@, s.1)),
                None => None,
            },
            match mission {
                Some(m) => Some(m@),
                None => None,
            },
        ),
{
    let mut out: Vec<Vec<Span>> = Vec::new();
    push_line(&mut out, one(span(to_chars("DayZ Community Offline Mode"), Color::Yellow, Color::Reset, true)));
    push_line(&mut out, blank());
    push_line(&mut out, one(plain("Play DayZ offline with a local mission,", Color::White)));
    push_line(&mut out, one(plain("no internet connection required.", Color::White)));
    push_line(&mut out, blank());
    match status {
        Some(s) => {
            push_line(&mut out, one(span(to_chars(s.0.as_str()), s.1, Color::Reset, false)));
            push_line(&mut out, blank());
        },
        None => {},
    }
    match mission {
        Some(name) => {
            push_line(&mut out, one(plain("Selected Mission", Color::Gray)));
            push_line(&mut out, one(span(to_chars(name.as_str()), Color::Cyan, Color::Reset, true)));
            push_line(&mut out, blank());
            push_line(&mut out, one(plain("Press Enter to launch this mission.", Color::Green)));
        },
        None => {
            push_line(&mut out, one(plain("No missions installed.", Color::DarkGray)));
            push_line(&mut out, one(plain("Press 'u' to download DayZCommunityOfflineMode", Color::Yellow)));
            push_line(
                &mut out,
                one(plain("from github.com/Arkensor/DayZCommunityOfflineMode", Color::DarkGray)),
            );
        },
    }
    push_line(&mut out, blank());
    push_line(
        &mut out,
        one(plain("\u{2500}\u{2500}\u{2500} Actions \u{2500}\u{2500}\u{2500}", Color::DarkGray)),
    );
    push_line(&mut out, pair("Enter ", Color::Yellow, "launch selected mission", Color::Gray));
    push_line(&mut out, pair("u     ", Color::Yellow, "install / update offline mode", Color::Gray));
    push_line(&mut out, pair("r     ", Color::Yellow, "refresh mission list", Color::Gray));
    out
}

} // verus!
