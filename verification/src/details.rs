//! The server details panel and the Direct Connect form of the terminal
//! interface.

use vstd::prelude::*;
use crate::a2s::{A2sPlayer, ServerDetails};
use crate::api::{Mod, Server};
use crate::screens::{
    dec_chars, line_view, lines_view, one, plain, push_line, push_span, span, sv, Color, Span,
    SpanView,
};
use crate::text::{dec, dec_int, from_chars, i64_to_dec, push_all, push_str, to_chars, u64_to_dec};
use crate::tui::DirectConnectField;

verus! {

// ------------------------------------------------------------ details panel

/// The head of the details panel: name, address, players, map, version,
/// time and the first-person, password and platform flags.
pub open spec fn details_head_spec(s: Server) -> Seq<Seq<SpanView>> {
    let yes_no = |b: bool| if b {
        "Yes"@
    } else {
        "No"@
    };
    seq![
        seq![sv("Name: "@, Color::Gray), sv(s.name@, Color::Yellow)],
        seq![
            sv("IP: "@, Color::Gray),
            sv(
                s.endpoint.ip@ + seq![':'] + dec_int(s.game_port as int) + " (query:"@ + dec_int(
                    s.endpoint.port as int,
                ) + seq![')'],
                Color::Green,
            ),
        ],
        seq![
            sv("Players: "@, Color::Gray),
            sv(dec_int(s.players as int) + seq!['/'] + dec_int(s.max_players as int), Color::Yellow),
            sv("  Map: "@, Color::Gray),
            sv(s.map@, Color::Cyan),
            sv("  Version: "@, Color::Gray),
            sv(s.version@, Color::White),
        ],
        seq![
            sv("Time: "@, Color::Gray),
            sv(s.time@, Color::White),
            sv("  1PP: "@, Color::Gray),
            sv(yes_no(s.first_person_only), Color::White),
            sv("  Password: "@, Color::Gray),
            sv(yes_no(s.password), Color::White),
            sv("  Platform: "@, Color::Gray),
            sv(
                if s.environment@ == "w"@ {
                    "Windows"@
                } else {
                    "Linux"@
                },
                Color::White,
            ),
        ],
    ]
}

/// A mod of the server: `+` in green when installed, `-` in red when not.
pub open spec fn mod_line_spec(m: Mod, installed: Seq<u64>) -> Seq<SpanView> {
    let have = installed.contains(m.steam_workshop_id as u64);
    seq![
        sv(
            seq![' ', ' ', if have {
                '+'
            } else {
                '-'
            }, ' '],
            if have {
                Color::Green
            } else {
                Color::Red
            },
        ),
        sv(m.name@, Color::White),
        sv(" ("@ + dec_int(m.steam_workshop_id as int) + seq![')'], Color::DarkGray),
    ]
}

/// The mod lines of the panel.
pub open spec fn mod_lines_spec(mods: Seq<Mod>, installed: Seq<u64>) -> Seq<Seq<SpanView>>
    decreases mods.len(),
{
    if mods.len() == 0 {
        Seq::empty()
    } else {
        mod_lines_spec(mods.drop_last(), installed).push(mod_line_spec(mods.last(), installed))
    }
}

/// The players with a name among the first twenty.
pub open spec fn player_lines_spec(players: Seq<A2sPlayer>) -> Seq<Seq<SpanView>>
    decreases players.len(),
{
    if players.len() == 0 {
        Seq::empty()
    } else {
        let p = players.last();
        let prev = player_lines_spec(players.drop_last());
        if p.name@.len() > 0 {
            prev.push(seq![sv("    "@ + p.name@ + " (score: "@ + dec_int(p.score as int) + seq![')'], Color::Reset)])
        } else {
            prev
        }
    }
}

/// The first twenty of the players.
pub open spec fn first_twenty(players: Seq<A2sPlayer>) -> Seq<A2sPlayer> {
    if players.len() > 20 {
        players.subrange(0, 20)
    } else {
        players
    }
}

/// The live A2S lines of the panel.
pub open spec fn a2s_lines_spec(d: ServerDetails) -> Seq<Seq<SpanView>> {
    seq![
        seq![sv("--- A2S Live Info ---"@, Color::Green)],
        seq![
            sv(
                "  Players: "@ + dec(d.info.players as nat) + seq!['/'] + dec(d.info.max_players as nat)
                    + "  Game: "@ + d.info.game@,
                Color::Reset,
            ),
        ],
    ] + match d.players {
        Some(ps) => player_lines_spec(first_twenty(ps@)),
        None => Seq::empty(),
    }
}

/// The details panel of a server: its head, its mods (when it has any),
/// and the live A2S information when it is for this server.
pub open spec fn details_spec(s: Server, installed: Seq<u64>, live: Option<ServerDetails>) -> Seq<Seq<SpanView>> {
    details_head_spec(s) + (if s.mods@.len() > 0 {
        seq![seq![sv("Mods ("@ + dec(s.mods@.len()) + "):"@, Color::Magenta)]] + mod_lines_spec(
            s.mods@,
            installed,
        )
    } else {
        Seq::empty()
    }) + match live {
        Some(d) => a2s_lines_spec(d),
        None => Seq::empty(),
    }
}

fn yes_no(b: bool) -> (r: &'static str)
    ensures
        r@ == if b {
            "Yes"@
        } else {
            "No"@
        },
{
    if b {
        "Yes"
    } else {
        "No"
    }
}

fn head_lines(s: &Server) -> (r: Vec<Vec<Span>>)
    ensures
        lines_view(r@) =~~= details_head_spec(*s),
{
    let mut out: Vec<Vec<Span>> = Vec::new();
    let mut l: Vec<Span> = Vec::new();
    push_span(&mut l, plain("Name: ", Color::Gray));
    push_span(&mut l, span(to_chars(s.name.as_str()), Color::Yellow, Color::Reset, false));
    push_line(&mut out, l);
    let mut l: Vec<Span> = Vec::new();
    push_span(&mut l, plain("IP: ", Color::Gray));
    let mut a = to_chars(s.endpoint.ip.as_str());
    a.push(':');
    push_all(&mut a, &i64_to_dec(s.game_port));
    push_str(&mut a, " (query:");
    push_all(&mut a, &i64_to_dec(s.endpoint.port));
    a.push(')');
    push_span(&mut l, span(a, Color::Green, Color::Reset, false));
    push_line(&mut out, l);
    let mut l: Vec<Span> = Vec::new();
    push_span(&mut l, plain("Players: ", Color::Gray));
    let mut p = i64_to_dec(s.players);
    p.push('/');
    push_all(&mut p, &i64_to_dec(s.max_players));
    push_span(&mut l, span(p, Color::Yellow, Color::Reset, false));
    push_span(&mut l, plain("  Map: ", Color::Gray));
    push_span(&mut l, span(to_chars(s.map.as_str()), Color::Cyan, Color::Reset, false));
    push_span(&mut l, plain("  Version: ", Color::Gray));
    push_span(&mut l, span(to_chars(s.version.as_str()), Color::White, Color::Reset, false));
    push_line(&mut out, l);
    let mut l: Vec<Span> = Vec::new();
    push_span(&mut l, plain("Time: ", Color::Gray));
    push_span(&mut l, span(to_chars(s.time.as_str()), Color::White, Color::Reset, false));
    push_span(&mut l, plain("  1PP: ", Color::Gray));
    push_span(&mut l, plain(yes_no(s.first_person_only), Color::White));
    push_span(&mut l, plain("  Password: ", Color::Gray));
    push_span(&mut l, plain(yes_no(s.password), Color::White));
    push_span(&mut l, plain("  Platform: ", Color::Gray));
    let platform = if crate::text::str_eq(s.environment.as_str(), "w") {
        "Windows"
    } else {
        "Linux"
    };
    push_span(&mut l, plain(platform, Color::White));
    push_line(&mut out, l);
    out
}

fn mod_lines(mods: &Vec<Mod>, installed: &Vec<u64>) -> (r: Vec<Vec<Span>>)
    ensures
        lines_view(r@) =~~= mod_lines_spec(mods@, installed@),
{
    let mut out: Vec<Vec<Span>> = Vec::new();
    let mut i: usize = 0;
    assert(lines_view(out@) =~= mod_lines_spec(mods@.subrange(0, 0), installed@));
    while i < mods.len()
        invariant
            i <= mods@.len(),
            lines_view(out@) =~~= mod_lines_spec(mods@.subrange(0, i as int), installed@),
        decreases mods.len() - i,
    {
        proof {
            assert(mods@.subrange(0, i + 1).drop_last() =~= mods@.subrange(0, i as int));
        }
        let m = &mods[i];
        let have = crate::mods::contains_id(installed, m.steam_workshop_id as u64);
        let mut mk: Vec<char> = Vec::new();
        mk.push(' ');
        mk.push(' ');
        mk.push(if have {
            '+'
        } else {
            '-'
        });
        mk.push(' ');
        let mut l: Vec<Span> = Vec::new();
        push_span(&mut l, span(mk, if have {
            Color::Green
        } else {
            Color::Red
        }, Color::Reset, false));
        push_span(&mut l, span(to_chars(m.name.as_str()), Color::White, Color::Reset, false));
        let mut id = to_chars(" (");
        push_all(&mut id, &i64_to_dec(m.steam_workshop_id));
        id.push(')');
        push_span(&mut l, span(id, Color::DarkGray, Color::Reset, false));
        assert(line_view(l) =~~= mod_line_spec(mods@[i as int], installed@));
        push_line(&mut out, l);
        i = i + 1;
    }
    assert(mods@.subrange(0, mods@.len() as int) =~= mods@);
    out
}

fn player_lines(players: &Vec<A2sPlayer>) -> (r: Vec<Vec<Span>>)
    ensures
        lines_view(r@) =~~= player_lines_spec(first_twenty(players@)),
{
    let n: usize = if players.len() > 20 {
        20
    } else {
        players.len()
    };
    let ghost shown = first_twenty(players@);
    let mut out: Vec<Vec<Span>> = Vec::new();
    let mut i: usize = 0;
    assert(lines_view(out@) =~= player_lines_spec(shown.subrange(0, 0)));
    while i < n
        invariant
            i <= n,
            n <= players@.len(),
            shown == first_twenty(players@),
            shown.len() == n,
            forall|k: int| 0 <= k < n ==> #[trigger] shown[k] == players@[k],
            lines_view(out@) =~~= player_lines_spec(shown.subrange(0, i as int)),
        decreases n - i,
    {
        proof {
            assert(shown.subrange(0, i + 1).drop_last() =~= shown.subrange(0, i as int));
            assert(shown[i as int] == players@[i as int]);
        }
        let p = &players[i];
        if to_chars(p.name.as_str()).len() > 0 {
            let mut t = to_chars("    ");
            push_str(&mut t, p.name.as_str());
            push_str(&mut t, " (score: ");
            push_all(&mut t, &i64_to_dec(p.score as i64));
            t.push(')');
            push_line(&mut out, one(span(t, Color::Reset, Color::Reset, false)));
        }
        i = i + 1;
    }
    assert(shown.subrange(0, n as int) =~= shown);
    out
}

/// The details panel of a server; `installed` are the ids of the installed
/// mods and `live` the A2S answer when it is for this server.
pub fn server_details_lines(s: &Server, installed: &Vec<u64>, live: Option<&ServerDetails>) -> (r: Vec<Vec<Span>>)
    ensures
        lines_view(r@) =~~= details_spec(
            *s,
            installed@,
            match live {
                Some(d) => Some(*d),
                None => None,
            },
        ),
{
    let mut out = head_lines(s);
    if s.mods.len() > 0 {
        let mut t = to_chars("Mods (");
        push_all(&mut t, &u64_to_dec(s.mods.len() as u64));
        push_str(&mut t, "):");
        push_line(&mut out, one(span(t, Color::Magenta, Color::Reset, false)));
        crate::screens::append_lines(&mut out, mod_lines(&s.mods, installed));
    }
    match live {
        Some(d) => {
            push_line(&mut out, one(plain("--- A2S Live Info ---", Color::Green)));
            let mut t = to_chars("  Players: ");
            push_all(&mut t, &u64_to_dec(d.info.players as u64));
            t.push('/');
            push_all(&mut t, &u64_to_dec(d.info.max_players as u64));
            push_str(&mut t, "  Game: ");
            push_str(&mut t, d.info.game.as_str());
            push_line(&mut out, one(span(t, Color::Reset, Color::Reset, false)));
            match &d.players {
                Some(ps) => crate::screens::append_lines(&mut out, player_lines(ps)),
                None => {},
            }
        },
        None => {},
    }
    out
}

/// The title of the details panel: with the shown rows when the lines do
/// not fit in `visible` rows.
pub open spec fn details_title_spec(scroll: nat, total: nat, visible: nat) -> Seq<char> {
    "Server Details [Esc to close]"@ + if total > visible {
        " ["@ + dec(scroll + 1) + seq!['-'] + dec(
            if scroll + visible < total {
                scroll + visible
            } else {
                total
            },
        ) + seq!['/'] + dec(total) + "] [Ctrl+d/Ctrl+u:Scroll]"@
    } else {
        Seq::empty()
    }
}

/// The title of the details panel.
pub fn details_title(scroll: u16, total: usize, visible: usize) -> (r: String)
    requires
        scroll as nat + visible < usize::MAX,
    ensures
        r@ == details_title_spec(scroll as nat, total as nat, visible as nat),
{
    let mut v = to_chars("Server Details [Esc to close]");
    if total > visible {
        push_str(&mut v, " [");
        push_all(&mut v, &u64_to_dec(scroll as u64 + 1));
        v.push('-');
        let last = if (scroll as usize) + visible < total {
            (scroll as usize) + visible
        } else {
            total
        };
        push_all(&mut v, &u64_to_dec(last as u64));
        v.push('/');
        push_all(&mut v, &u64_to_dec(total as u64));
        push_str(&mut v, "] [Ctrl+d/Ctrl+u:Scroll]");
    }
    from_chars(&v)
}

// ------------------------------------------------------------ direct form

/// The text of a form field: its input with a `|` cursor when it is the
/// active field; a password is shown as stars, or `(optional)` when empty.
pub open spec fn field_text_spec(field: DirectConnectField, text: Seq<char>, cursor: DirectConnectField) -> Seq<char> {
    let c = if field == cursor {
        "|"@
    } else {
        Seq::<char>::empty()
    };
    if field == DirectConnectField::Password {
        if text.len() == 0 {
            "(optional)"@ + c
        } else {
            Seq::new(crate::text::utf8_len(text), |i: int| '*') + c
        }
    } else {
        text + c
    }
}

/// The text of a form field (whose byte length fits in a `usize`).
pub fn field_text(field: DirectConnectField, text: &str, cursor: DirectConnectField) -> (r: String)
    requires
        crate::text::utf8_len(text@) <= usize::MAX,
    ensures
        r@ == field_text_spec(field, text@, cursor),
{
    proof {
        reveal_strlit("|");
    }
    let t = to_chars(text);
    let mut v: Vec<char> = Vec::new();
    if field == DirectConnectField::Password {
        if t.len() == 0 {
            push_str(&mut v, "(optional)");
        } else {
            let n = crate::text::utf8_len_chars(&t);
            let mut i: usize = 0;
            while i < n
                invariant
                    i <= n,
                    v@ == Seq::new(i as nat, |k: int| '*'),
                decreases n - i,
            {
                v.push('*');
                i = i + 1;
                assert(v@ =~= Seq::new(i as nat, |k: int| '*'));
            }
        }
    } else {
        push_all(&mut v, &t);
    }
    if field == cursor {
        v.push('|');
    }
    assert(v@ =~= field_text_spec(field, text@, cursor));
    from_chars(&v)
}

/// A mod as the form lists it: `  - <name> (<id>)`.
pub open spec fn mod_entry(m: Mod) -> Seq<SpanView> {
    seq![sv("  - "@ + m.name@ + " ("@ + dec_int(m.steam_workshop_id as int) + seq![')'], Color::Reset)]
}

/// The first `n` mods as the form lists them.
pub open spec fn mod_entries(mods: Seq<Mod>, n: nat) -> Seq<Seq<SpanView>>
    decreases n,
{
    if n == 0 {
        Seq::empty()
    } else {
        mod_entries(mods, (n - 1) as nat).push(mod_entry(mods[n - 1]))
    }
}

/// The server information under the form: the server found, its players
/// and up to fifteen of its mods; or how to use the form.
pub open spec fn direct_info_spec(found: Option<Server>) -> Seq<Seq<SpanView>> {
    match found {
        Some(s) => seq![
            seq![sv("Found: "@, Color::Green), sv(s.name@, Color::Yellow)],
            seq![sv("Players: "@ + dec_int(s.players as int) + seq!['/'] + dec_int(s.max_players as int), Color::Reset)],
        ] + if s.mods@.len() > 0 {
            seq![seq![sv("Mods ("@ + dec(s.mods@.len()) + "):"@, Color::Magenta)]] + mod_entries(
                s.mods@,
                if s.mods@.len() > 15 {
                    15
                } else {
                    s.mods@.len()
                },
            ) + if s.mods@.len() > 15 {
                seq![seq![sv("  ... and "@ + dec((s.mods@.len() - 15) as nat) + " more"@, Color::Reset)]]
            } else {
                Seq::empty()
            }
        } else {
            Seq::empty()
        },
        None => seq![seq![sv("Enter server address above. Use Up/Down to navigate fields."@, Color::Reset)]],
    }
}

/// The server information under the form.
pub fn direct_info(found: Option<&Server>) -> (r: Vec<Vec<Span>>)
    ensures
        lines_view(r@) =~~= direct_info_spec(
            match found {
                Some(s) => Some(*s),
                None => None,
            },
        ),
{
    let mut out: Vec<Vec<Span>> = Vec::new();
    match found {
        None => {
            push_line(&mut out, one(plain("Enter server address above. Use Up/Down to navigate fields.", Color::Reset)));
        },
        Some(s) => {
            let mut l: Vec<Span> = Vec::new();
            push_span(&mut l, plain("Found: ", Color::Green));
            push_span(&mut l, span(to_chars(s.name.as_str()), Color::Yellow, Color::Reset, false));
            push_line(&mut out, l);
            let mut p = to_chars("Players: ");
            push_all(&mut p, &i64_to_dec(s.players));
            p.push('/');
            push_all(&mut p, &i64_to_dec(s.max_players));
            push_line(&mut out, one(span(p, Color::Reset, Color::Reset, false)));
            let ghost head = lines_view(out@);
            if s.mods.len() > 0 {
                let mut t = to_chars("Mods (");
                push_all(&mut t, &u64_to_dec(s.mods.len() as u64));
                push_str(&mut t, "):");
                push_line(&mut out, one(span(t, Color::Magenta, Color::Reset, false)));
                let n: usize = if s.mods.len() > 15 {
                    15
                } else {
                    s.mods.len()
                };
                let ghost start = lines_view(out@);
                let mut i: usize = 0;
                while i < n
                    invariant
                        i <= n,
                        n <= s.mods@.len(),
                        lines_view(out@) =~~= start + mod_entries(s.mods@, i as nat),
                    decreases n - i,
                {
                    let m = &s.mods[i];
                    let mut t = to_chars("  - ");
                    push_str(&mut t, m.name.as_str());
                    push_str(&mut t, " (");
                    push_all(&mut t, &i64_to_dec(m.steam_workshop_id));
                    t.push(')');
                    let l = one(span(t, Color::Reset, Color::Reset, false));
                    assert(line_view(l) =~~= mod_entry(s.mods@[i as int]));
                    push_line(&mut out, l);
                    i = i + 1;
                    assert(lines_view(out@) =~~= start + mod_entries(s.mods@, i as nat));
                }
                if s.mods.len() > 15 {
                    let mut t = to_chars("  ... and ");
                    push_all(&mut t, &u64_to_dec((s.mods.len() - 15) as u64));
                    push_str(&mut t, " more");
                    push_line(&mut out, one(span(t, Color::Reset, Color::Reset, false)));
                }
            }
        },
    }
    out
}

} // verus!
