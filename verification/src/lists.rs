//! The history and launch-options screens of the terminal interface, as
//! lines of coloured text.  A selected row of these lists is drawn bold.

use vstd::prelude::*;
use crate::api::Server;
use crate::direct::DirectForm;
use crate::tui::DirectConnectField;
use crate::config::{args_of, option_flags, option_list, History, LaunchOption, LaunchOptions};
use crate::overlay::{opt_span_view, row_line1_spec, row_line2_spec, server_row, RowStyle};
use crate::screens::{
    dec_chars, line_view, lines_view, pad_left, pad_left_chars, push_line, push_span, span, span_view, sv,
    Color, Span, SpanView,
};
use crate::text::{dec, from_chars, join, push_all, push_str, string_views, to_chars, utf8_len, utf8_len_chars};

verus! {

/// Text in a colour, bold or not.
pub open spec fn svb(t: Seq<char>, fg: Color, bold: bool) -> SpanView {
    (t, fg, Color::Reset, bold)
}

// ------------------------------------------------------------ history

/// The history screen when nothing was joined yet.
pub fn history_placeholder() -> (r: &'static str)
    ensures
        r@ == "No history yet.\nConnect to a server to see it here."@,
{
    "No history yet.\nConnect to a server to see it here."
}

/// The title of the history list.
pub fn history_title(len: usize) -> (r: String)
    ensures
        r@ == "Recently Played ["@ + dec(len as nat) + "]"@,
{
    let mut m = to_chars("Recently Played [");
    push_all(&mut m, &dec_chars(len as u64));
    push_str(&mut m, "]");
    from_chars(&m)
}

/// The two lines of a history entry whose server is not in the list: its
/// number, ` OFF `, the favorite marker and the name, then its address and
/// how long ago it was joined; bold when selected.
pub open spec fn offline_entry_spec(index: nat, e: History, selected: bool, favorite: bool, ago: Seq<char>) -> Seq<Seq<SpanView>> {
    seq![
        seq![
            svb(pad_left(dec(index + 1), 5) + ". "@, Color::DarkGray, selected),
            svb(" OFF "@, Color::Red, selected),
            if favorite {
                svb("* "@, Color::Yellow, selected)
            } else {
                svb("  "@, Color::Reset, selected)
            },
            svb(e.name@, Color::DarkGray, selected),
        ],
        seq![
            svb("        "@, Color::Reset, selected),
            svb(e.ip@ + ":"@ + dec(e.port as nat), Color::DarkGray, selected),
            svb("  "@, Color::Reset, selected),
            svb(ago, Color::Magenta, selected),
        ],
    ]
}

/// The lines of the history entry at `index`.  When its server is in the
/// list (`server`), the server's row with ` ON  ` before the name and how
/// long ago it was joined after it; else the entry's own lines.  `ago` is
/// the time since the join as the interface words it.
pub fn history_row(
    index: usize,
    entry: &History,
    server: Option<&Server>,
    selected: bool,
    favorite: bool,
    ping_ms: Option<u32>,
    ago: &str,
) -> (r: Vec<Vec<Span>>)
    requires
        index < usize::MAX,
    ensures
        match server {
            Some(s) => lines_view(r@) =~~= seq![
                row_line1_spec(
                    index as nat,
                    *s,
                    RowStyle { selected, favorite, ping_ms },
                    Some((" ON  "@, Color::Green, Color::Reset, false)),
                    Some((ago@, Color::DarkGray, Color::Reset, false)),
                ),
                row_line2_spec(*s, selected),
            ],
            None => lines_view(r@) =~~= offline_entry_spec(index as nat, *entry, selected, favorite, ago@),
        },
{
    match server {
        Some(s) => {
            let st = RowStyle { selected, favorite, ping_ms };
            let prefix = span(to_chars(" ON  "), Color::Green, Color::Reset, false);
            let suffix = span(to_chars(ago), Color::DarkGray, Color::Reset, false);
            let r = server_row(index, s, &st, Some(prefix), Some(suffix));
            assert(lines_view(r@) =~~= seq![line_view(r@[0]), line_view(r@[1])]);
            r
        },
        None => {
            let mut l1: Vec<Span> = Vec::new();
            let mut n = pad_left_chars(&dec_chars((index + 1) as u64), 5);
            push_str(&mut n, ". ");
            push_span(&mut l1, span(n, Color::DarkGray, Color::Reset, selected));
            push_span(&mut l1, span(to_chars(" OFF "), Color::Red, Color::Reset, selected));
            if favorite {
                push_span(&mut l1, span(to_chars("* "), Color::Yellow, Color::Reset, selected));
            } else {
                push_span(&mut l1, span(to_chars("  "), Color::Reset, Color::Reset, selected));
            }
            push_span(&mut l1, span(to_chars(entry.name.as_str()), Color::DarkGray, Color::Reset, selected));
            let mut l2: Vec<Span> = Vec::new();
            push_span(&mut l2, span(to_chars("        "), Color::Reset, Color::Reset, selected));
            let mut a = to_chars(entry.ip.as_str());
            push_str(&mut a, ":");
            push_all(&mut a, &dec_chars(entry.port as u64));
            push_span(&mut l2, span(a, Color::DarkGray, Color::Reset, selected));
            push_span(&mut l2, span(to_chars("  "), Color::Reset, Color::Reset, selected));
            push_span(&mut l2, span(to_chars(ago), Color::Magenta, Color::Reset, selected));
            let mut out: Vec<Vec<Span>> = Vec::new();
            push_line(&mut out, l1);
            push_line(&mut out, l2);
            assert(lines_view(out@) =~~= offline_entry_spec(index as nat, *entry, selected, favorite, ago@));
            out
        },
    }
}

// ------------------------------------------------------------ launch options

/// The value shown after an option's name: the text being edited with a
/// `|` cursor, else ` = value` when it has one.
pub open spec fn option_value_text(opt: LaunchOption, editing: Option<Seq<char>>) -> Seq<char> {
    match editing {
        Some(t) => " = "@ + t + "|"@,
        None => match opt.value {
            Some(v) => " = "@ + v@,
            None => Seq::empty(),
        },
    }
}

/// The colour of an option's name and value: green while edited, yellow
/// when selected, else white.
pub open spec fn option_color(selected: bool, editing: bool) -> Color {
    if editing {
        Color::Green
    } else if selected {
        Color::Yellow
    } else {
        Color::White
    }
}

/// The two lines of a launch option: number, check box, `-name` and value,
/// then its description; bold when selected.  `edit` is the text of an
/// edit in progress, which only the selected option shows.
pub open spec fn option_row_spec(index: nat, name: Seq<char>, opt: LaunchOption, selected: bool, edit: Option<Seq<char>>) -> Seq<Seq<SpanView>> {
    let editing = if selected { edit } else { None };
    let c = option_color(selected, editing is Some);
    seq![
        seq![
            svb(pad_left(dec(index + 1), 3) + ". "@, Color::DarkGray, selected),
            if opt.enabled {
                svb("[x] "@, Color::Green, selected)
            } else {
                svb("[ ] "@, Color::DarkGray, selected)
            },
            svb("-"@ + name, c, selected),
            svb(option_value_text(opt, editing), c, selected),
        ],
        seq![svb("         "@, Color::Reset, selected), svb(opt.description@, Color::DarkGray, selected)],
    ]
}

/// The lines of the launch option at `index`.
pub fn option_row(index: usize, name: &str, opt: &LaunchOption, selected: bool, edit: Option<&str>) -> (r: Vec<Vec<Span>>)
    requires
        index < usize::MAX,
    ensures
        lines_view(r@) =~~= option_row_spec(
            index as nat,
            name@,
            *opt,
            selected,
            match edit {
                Some(t) => Some(t@),
                None => None,
            },
        ),
{
    let editing: Option<&str> = if selected {
        edit
    } else {
        None
    };
    let c = if editing.is_some() {
        Color::Green
    } else if selected {
        Color::Yellow
    } else {
        Color::White
    };
    let mut l1: Vec<Span> = Vec::new();
    let mut n = pad_left_chars(&dec_chars((index + 1) as u64), 3);
    push_str(&mut n, ". ");
    push_span(&mut l1, span(n, Color::DarkGray, Color::Reset, selected));
    if opt.enabled {
        push_span(&mut l1, span(to_chars("[x] "), Color::Green, Color::Reset, selected));
    } else {
        push_span(&mut l1, span(to_chars("[ ] "), Color::DarkGray, Color::Reset, selected));
    }
    let mut dn = to_chars("-");
    push_str(&mut dn, name);
    push_span(&mut l1, span(dn, c, Color::Reset, selected));
    let mut v: Vec<char> = Vec::new();
    match editing {
        Some(t) => {
            push_str(&mut v, " = ");
            push_str(&mut v, t);
            push_str(&mut v, "|");
        },
        None => match &opt.value {
            Some(x) => {
                push_str(&mut v, " = ");
                push_str(&mut v, x.as_str());
            },
            None => {},
        },
    }
    push_span(&mut l1, span(v, c, Color::Reset, selected));
    let mut l2: Vec<Span> = Vec::new();
    push_span(&mut l2, span(to_chars("         "), Color::Reset, Color::Reset, selected));
    push_span(&mut l2, span(to_chars(opt.description.as_str()), Color::DarkGray, Color::Reset, selected));
    let mut out: Vec<Vec<Span>> = Vec::new();
    push_line(&mut out, l1);
    push_line(&mut out, l2);
    out
}

/// The title of the launch options: the arguments they give, or `none`.
pub open spec fn options_title_spec(o: LaunchOptions) -> Seq<char> {
    let args = join(args_of(option_flags(), option_list(o)), ' ');
    "Launch Options ["@ + (if args.len() == 0 {
        "none"@
    } else {
        args
    }) + "]"@
}

/// The title of the launch options.
pub fn options_title(o: &LaunchOptions) -> (r: String)
    ensures
        r@ == options_title_spec(*o),
{
    let args = o.to_args();
    let mut parts: Vec<Vec<char>> = Vec::new();
    let mut i: usize = 0;
    while i < args.len()
        invariant
            i <= args.len(),
            crate::text::views(parts@) == string_views(args@).subrange(0, i as int),
        decreases args.len() - i,
    {
        let ghost before = parts@;
        parts.push(to_chars(args[i].as_str()));
        assert(crate::text::views(parts@) =~= crate::text::views(before).push(args@[i as int]@));
        assert(string_views(args@).subrange(0, i + 1) =~= string_views(args@).subrange(0, i as int).push(
            args@[i as int]@,
        ));
        i = i + 1;
    }
    assert(string_views(args@).subrange(0, args@.len() as int) =~= string_views(args@));
    let joined = crate::text::join_chars(&parts, ' ');
    let mut m = to_chars("Launch Options [");
    if joined.len() == 0 {
        push_str(&mut m, "none");
    } else {
        push_all(&mut m, &joined);
    }
    push_str(&mut m, "]");
    from_chars(&m)
}

// ------------------------------------------------------------ servers

/// The title of the server list: the selected position of all the servers
/// shown, marked while the search filter is on.
pub fn servers_title(selected: usize, total: usize, filtered: bool) -> (r: String)
    requires
        selected < usize::MAX,
    ensures
        r@ == "Servers ["@ + dec(selected as nat + 1) + "/"@ + dec(total as nat) + "]"@ + if filtered {
            " (filtered)"@
        } else {
            Seq::empty()
        },
{
    let mut m = to_chars("Servers [");
    push_all(&mut m, &dec_chars((selected + 1) as u64));
    push_str(&mut m, "/");
    push_all(&mut m, &dec_chars(total as u64));
    push_str(&mut m, "]");
    if filtered {
        push_str(&mut m, " (filtered)");
    }
    from_chars(&m)
}

/// The rows in view of a list of `len` servers, or of the servers that the
/// filter keeps (`filtered`, indices into the list): from `offset`, at most
/// `visible` of them, each as its position in what is listed and the
/// server's index.
pub open spec fn window_spec(len: nat, filtered: Option<Seq<usize>>, offset: nat, visible: nat) -> Seq<(usize, usize)> {
    let n = match filtered {
        Some(f) => f.len(),
        None => len,
    };
    let end = if offset + visible < n { offset + visible } else { n };
    if offset >= end {
        Seq::empty()
    } else {
        Seq::new(
            (end - offset) as nat,
            |k: int|
                (
                    (offset + k) as usize,
                    match filtered {
                        Some(f) => f[offset + k],
                        None => (offset + k) as usize,
                    },
                ),
        )
    }
}

/// The rows in view of the server list.
pub fn visible_window(len: usize, filtered: &Option<Vec<usize>>, offset: usize, visible: usize) -> (r: Vec<(usize, usize)>)
    ensures
        r@ == window_spec(
            len as nat,
            match filtered {
                Some(f) => Some(f@),
                None => None,
            },
            offset as nat,
            visible as nat,
        ),
{
    let n = match filtered {
        Some(f) => f.len(),
        None => len,
    };
    let end: usize = if visible < n && offset < n - visible {
        offset + visible
    } else {
        n
    };
    let ghost fv = match filtered {
        Some(f) => Some(f@),
        None => None,
    };
    let mut out: Vec<(usize, usize)> = Vec::new();
    if offset >= end {
        assert(out@ =~= window_spec(len as nat, fv, offset as nat, visible as nat));
        return out;
    }
    let mut d: usize = offset;
    while d < end
        invariant
            offset <= d <= end,
            end <= n,
            n == match filtered {
                Some(f) => f@.len(),
                None => len as nat,
            },
            fv == match filtered {
                Some(f) => Some(f@),
                None => None,
            },
            end == (if offset + visible < n { offset + visible } else { n as int }),
            out@.len() == d - offset,
            forall|k: int| 0 <= k < d - offset ==> #[trigger] out@[k] == (
                (offset + k) as usize,
                match filtered {
                    Some(f) => f@[offset + k],
                    None => (offset + k) as usize,
                },
            ),
        decreases end - d,
    {
        let idx = match filtered {
            Some(f) => f[d],
            None => d,
        };
        out.push((d, idx));
        d = d + 1;
    }
    assert(out@ =~= window_spec(len as nat, fv, offset as nat, visible as nat));
    out
}

// ------------------------------------------------------------ direct connect form

/// How the Direct Connect form shows its fields and buttons, in order:
/// address, port and password (the focused one yellow and bold, with a `|`
/// cursor; the password as one `*` per byte, or `(optional)` while empty),
/// then the server-info and connect buttons (cyan or green and bold when
/// focused, else dark grey).
pub open spec fn direct_form_spec(address: Seq<char>, port: Seq<char>, password: Seq<char>, cursor: DirectConnectField) -> Seq<SpanView> {
    let field = |t: Seq<char>, f: DirectConnectField| if cursor == f {
        (t + "|"@, Color::Yellow, Color::Reset, true)
    } else {
        sv(t, Color::White)
    };
    let pw = if password.len() == 0 {
        "(optional)"@
    } else {
        Seq::new(utf8_len(password), |i: int| '*')
    };
    seq![
        field(address, DirectConnectField::Address),
        field(port, DirectConnectField::Port),
        field(pw, DirectConnectField::Password),
        if cursor == DirectConnectField::ServerInfo {
            ("[ SERVER INFO ]"@, Color::Cyan, Color::Reset, true)
        } else {
            sv("[ SERVER INFO ]"@, Color::DarkGray)
        },
        if cursor == DirectConnectField::Connect {
            ("[ CONNECT ]"@, Color::Green, Color::Reset, true)
        } else {
            sv("[ CONNECT ]"@, Color::DarkGray)
        },
    ]
}

fn field_span(text: Vec<char>, focused: bool) -> (r: Span)
    ensures
        span_view(r) == if focused {
            (text@ + "|"@, Color::Yellow, Color::Reset, true)
        } else {
            sv(text@, Color::White)
        },
{
    if focused {
        let mut t = text;
        push_str(&mut t, "|");
        span(t, Color::Yellow, Color::Reset, true)
    } else {
        span(text, Color::White, Color::Reset, false)
    }
}

/// The fields and buttons of the Direct Connect form.
pub fn direct_form_view(form: &DirectForm, cursor: DirectConnectField) -> (r: Vec<Span>)
    requires
        utf8_len(form.password@) <= usize::MAX,
    ensures
        line_view(r) == direct_form_spec(form.address@, form.port@, form.password@, cursor),
{
    let mut l: Vec<Span> = Vec::new();
    push_span(&mut l, field_span(to_chars(form.address.as_str()), cursor == DirectConnectField::Address));
    push_span(&mut l, field_span(to_chars(form.port.as_str()), cursor == DirectConnectField::Port));
    let p = to_chars(form.password.as_str());
    let pw = if p.len() == 0 {
        to_chars("(optional)")
    } else {
        let n = utf8_len_chars(&p);
        let mut v: Vec<char> = Vec::new();
        let mut i: usize = 0;
        while i < n
            invariant
                i <= n,
                v@ == Seq::new(i as nat, |k: int| '*'),
            decreases n - i,
        {
            v.push('*');
            i = i + 1;
            assert(v@ =~= Seq::new(i as nat, |k: int| '*'));
        }
        v
    };
    push_span(&mut l, field_span(pw, cursor == DirectConnectField::Password));
    if cursor == DirectConnectField::ServerInfo {
        push_span(&mut l, span(to_chars("[ SERVER INFO ]"), Color::Cyan, Color::Reset, true));
    } else {
        push_span(&mut l, span(to_chars("[ SERVER INFO ]"), Color::DarkGray, Color::Reset, false));
    }
    if cursor == DirectConnectField::Connect {
        push_span(&mut l, span(to_chars("[ CONNECT ]"), Color::Green, Color::Reset, true));
    } else {
        push_span(&mut l, span(to_chars("[ CONNECT ]"), Color::DarkGray, Color::Reset, false));
    }
    assert(line_view(l) =~= direct_form_spec(form.address@, form.port@, form.password@, cursor));
    l
}

} // verus!
