//! The first-run setup wizard: which questions it asks and what each key
//! press does to it.  The terminal drawing and the reading of keys are the
//! application's.

use vstd::prelude::*;
use crate::keys::Key;
use crate::system::{recommendation_spec, CheckResult};
use crate::text::{from_chars, push_all, push_str, to_chars, trim, trim_str};

verus! {

/// A step of the wizard.
#[derive(Debug, Clone, Copy, PartialEq, Eq, Structural)]
pub enum WizardField {
    Login,
    Player,
    SteamRoot,
    Warnings,
    Done,
}

/// The steps asked for, in order: the missing login, player name and Steam
/// root, the warnings when there are any, and the closing step.
pub open spec fn fields_spec(need_login: bool, need_player: bool, need_steam_root: bool, has_warnings: bool) -> Seq<WizardField> {
    (if need_login {
        seq![WizardField::Login]
    } else {
        Seq::empty()
    }) + (if need_player {
        seq![WizardField::Player]
    } else {
        Seq::empty()
    }) + (if need_steam_root {
        seq![WizardField::SteamRoot]
    } else {
        Seq::empty()
    }) + (if has_warnings {
        seq![WizardField::Warnings]
    } else {
        Seq::empty()
    }) + seq![WizardField::Done]
}

/// The warning about a missing steamcmd.
pub open spec fn steamcmd_warning() -> Seq<char> {
    "steamcmd not found \u{2014} mod downloads will be disabled.\nInstall: sudo apt install steamcmd"@
}

/// The warnings shown: a missing steamcmd, then a too low
/// `vm.max_map_count`, separated by a blank line.
pub open spec fn warnings_spec(steamcmd_missing: bool, map_check: Option<CheckResult>) -> Seq<char> {
    let map_low = map_check matches Some(c) && !c.ok;
    if steamcmd_missing && map_low {
        steamcmd_warning() + "\n\n"@ + recommendation_spec(map_check->0)
    } else if steamcmd_missing {
        steamcmd_warning()
    } else if map_low {
        recommendation_spec(map_check->0)
    } else {
        Seq::empty()
    }
}

/// The text of the warnings step.
pub fn warnings_text(steamcmd_missing: bool, map_check: &Option<CheckResult>) -> (r: String)
    ensures
        r@ == warnings_spec(steamcmd_missing, *map_check),
{
    let mut v: Vec<char> = Vec::new();
    if steamcmd_missing {
        push_str(
            &mut v,
            "steamcmd not found \u{2014} mod downloads will be disabled.\nInstall: sudo apt install steamcmd",
        );
    }
    if let Some(c) = map_check {
        if !c.ok {
            if steamcmd_missing {
                push_str(&mut v, "\n\n");
            }
            push_all(&mut v, &to_chars(c.recommendation().as_str()));
        }
    }
    from_chars(&v)
}

/// Where the wizard stands.
#[derive(Debug)]
pub struct WizardState {
    pub fields: Vec<WizardField>,
    /// The current step.
    pub idx: usize,
    pub input_login: String,
    pub input_player: String,
    pub input_steam_root: String,
}

impl WizardState {
    /// The steps end with the closing one and the current one is a step.
    pub open spec fn wf(self) -> bool {
        &&& self.fields@.len() >= 1
        &&& self.fields@.last() == WizardField::Done
        &&& self.idx < self.fields@.len()
    }

    /// The current step.
    pub open spec fn current(self) -> WizardField {
        self.fields@[self.idx as int]
    }
}

/// The answers the wizard gives to the profile.
#[derive(Debug)]
pub struct SetupAnswers {
    pub steam_login: Option<String>,
    pub player: Option<String>,
    pub steam_root: Option<String>,
}

/// Starts the wizard, or gives `None` when there is nothing to ask.
pub fn start_wizard(need_login: bool, need_player: bool, need_steam_root: bool, has_warnings: bool) -> (r: Option<WizardState>)
    ensures
        match r {
            Some(s) => {
                &&& need_login || need_player || need_steam_root || has_warnings
                &&& s.wf()
                &&& s.fields@ == fields_spec(need_login, need_player, need_steam_root, has_warnings)
                &&& s.idx == 0
                &&& s.input_login@.len() == 0
                &&& s.input_player@.len() == 0
                &&& s.input_steam_root@.len() == 0
            },
            None => !(need_login || need_player || need_steam_root || has_warnings),
        },
{
    if !(need_login || need_player || need_steam_root || has_warnings) {
        return None;
    }
    let mut v: Vec<WizardField> = Vec::new();
    if need_login {
        v.push(WizardField::Login);
    }
    if need_player {
        v.push(WizardField::Player);
    }
    if need_steam_root {
        v.push(WizardField::SteamRoot);
    }
    if has_warnings {
        v.push(WizardField::Warnings);
    }
    v.push(WizardField::Done);
    assert(v@ =~= fields_spec(need_login, need_player, need_steam_root, has_warnings));
    Some(
        WizardState {
            fields: v,
            idx: 0,
            input_login: from_chars(&Vec::new()),
            input_player: from_chars(&Vec::new()),
            input_steam_root: from_chars(&Vec::new()),
        },
    )
}

/// What the application does after a key.
#[derive(Debug, Clone, Copy, PartialEq, Eq, Structural)]
pub enum WizardAction {
    /// Draw the wizard again and wait for the next key.
    Continue,
    /// Save the profile and start the launcher.
    Save,
    /// The user cancelled the setup.
    Cancel,
}

/// The login that Enter saves: the trimmed input, or `anonymous`.
pub open spec fn login_answer(input: Seq<char>) -> Seq<char> {
    if trim(input).len() == 0 {
        "anonymous"@
    } else {
        trim(input)
    }
}

/// A trimmed answer, or the old one when the input is blank.
pub open spec fn answer_or_keep(input: Seq<char>, old: Option<Seq<char>>) -> Option<Seq<char>> {
    if trim(input).len() == 0 {
        old
    } else {
        Some(trim(input))
    }
}

/// Answers as values.
pub open spec fn answers_view(a: SetupAnswers) -> (Option<Seq<char>>, Option<Seq<char>>, Option<Seq<char>>) {
    (
        crate::text::opt_string_view(a.steam_login),
        crate::text::opt_string_view(a.player),
        crate::text::opt_string_view(a.steam_root),
    )
}

/// The answers after Enter at step `f` with state `s`.
pub open spec fn answered(s: WizardState, f: WizardField, a: (Option<Seq<char>>, Option<Seq<char>>, Option<Seq<char>>)) -> (Option<Seq<char>>, Option<Seq<char>>, Option<Seq<char>>) {
    match f {
        WizardField::Login => (Some(login_answer(s.input_login@)), a.1, a.2),
        WizardField::Player => (a.0, answer_or_keep(s.input_player@, a.1), a.2),
        WizardField::SteamRoot => (a.0, a.1, answer_or_keep(s.input_steam_root@, a.2)),
        _ => a,
    }
}

/// The inputs as values: login, player, Steam root.
pub open spec fn inputs_view(s: WizardState) -> (Seq<char>, Seq<char>, Seq<char>) {
    (s.input_login@, s.input_player@, s.input_steam_root@)
}

/// The inputs after typing `c` (`Some`) or Backspace (`None`) at step `f`.
pub open spec fn edited(i: (Seq<char>, Seq<char>, Seq<char>), f: WizardField, c: Option<char>) -> (Seq<char>, Seq<char>, Seq<char>) {
    let ed = |t: Seq<char>| match c {
        Some(ch) => t.push(ch),
        None => if t.len() > 0 {
            t.drop_last()
        } else {
            t
        },
    };
    match f {
        WizardField::Login => (ed(i.0), i.1, i.2),
        WizardField::Player => (i.0, ed(i.1), i.2),
        WizardField::SteamRoot => (i.0, i.1, ed(i.2)),
        _ => i,
    }
}

fn trimmed_string(s: &String) -> (r: String)
    ensures
        r@ == trim(s@),
{
    from_chars(&trim_str(s.as_str()))
}

fn pop_char(s: &mut String)
    ensures
        final(s)@ == if old(s)@.len() > 0 {
            old(s)@.drop_last()
        } else {
            old(s)@
        },
{
    let mut v = to_chars(s.as_str());
    if v.len() > 0 {
        v.pop();
    }
    *s = from_chars(&v);
}

fn push_char(s: &mut String, c: char)
    ensures
        final(s)@ == old(s)@.push(c),
{
    let mut v = to_chars(s.as_str());
    v.push(c);
    *s = from_chars(&v);
}

/// What a key press does: Ctrl+C cancels; Enter records the answer of the
/// current step and moves to the next one, or saves at the closing step;
/// Backspace and characters edit the input of an input step.
pub fn wizard_key(state: &mut WizardState, answers: &mut SetupAnswers, key: Key) -> (r: WizardAction)
    requires
        old(state).wf(),
    ensures
        final(state).wf(),
        final(state).fields@ == old(state).fields@,
        old(state).idx <= final(state).idx <= old(state).idx + 1,
        r == WizardAction::Save ==> old(state).current() == WizardField::Done,
        match key {
            Key::Ctrl('c') => {
                &&& r == WizardAction::Cancel
                &&& final(state).idx == old(state).idx
                &&& inputs_view(*final(state)) == inputs_view(*old(state))
                &&& answers_view(*final(answers)) == answers_view(*old(answers))
            },
            Key::Char('\n') => if old(state).current() == WizardField::Done {
                &&& r == WizardAction::Save
                &&& final(state).idx == old(state).idx
                &&& inputs_view(*final(state)) == inputs_view(*old(state))
                &&& answers_view(*final(answers)) == answers_view(*old(answers))
            } else {
                &&& r == WizardAction::Continue
                &&& final(state).idx == old(state).idx + 1
                &&& inputs_view(*final(state)) == inputs_view(*old(state))
                &&& answers_view(*final(answers)) == answered(
                    *old(state),
                    old(state).current(),
                    answers_view(*old(answers)),
                )
            },
            Key::Backspace => {
                &&& r == WizardAction::Continue
                &&& final(state).idx == old(state).idx
                &&& inputs_view(*final(state)) == edited(inputs_view(*old(state)), old(state).current(), None)
                &&& answers_view(*final(answers)) == answers_view(*old(answers))
            },
            Key::Char(c) => {
                &&& r == WizardAction::Continue
                &&& final(state).idx == old(state).idx
                &&& inputs_view(*final(state)) == edited(inputs_view(*old(state)), old(state).current(), Some(c))
                &&& answers_view(*final(answers)) == answers_view(*old(answers))
            },
            _ => {
                &&& r == WizardAction::Continue
                &&& final(state).idx == old(state).idx
                &&& inputs_view(*final(state)) == inputs_view(*old(state))
                &&& answers_view(*final(answers)) == answers_view(*old(answers))
            },
        },
{
    let f = state.fields[state.idx];
    match key {
        Key::Ctrl('c') => WizardAction::Cancel,
        Key::Char('\n') => {
            match f {
                WizardField::Login => {
                    let t = trimmed_string(&state.input_login);
                    if to_chars(t.as_str()).len() == 0 {
                        answers.steam_login = Some(from_chars(&to_chars("anonymous")));
                    } else {
                        answers.steam_login = Some(t);
                    }
                },
                WizardField::Player => {
                    let t = trimmed_string(&state.input_player);
                    if to_chars(t.as_str()).len() > 0 {
                        answers.player = Some(t);
                    }
                },
                WizardField::SteamRoot => {
                    let t = trimmed_string(&state.input_steam_root);
                    if to_chars(t.as_str()).len() > 0 {
                        answers.steam_root = Some(t);
                    }
                },
                WizardField::Warnings => {},
                WizardField::Done => {
                    return WizardAction::Save;
                },
            }
            if state.idx < state.fields.len() - 1 {
                state.idx = state.idx + 1;
            }
            WizardAction::Continue
        },
        Key::Backspace => {
            match f {
                WizardField::Login => pop_char(&mut state.input_login),
                WizardField::Player => pop_char(&mut state.input_player),
                WizardField::SteamRoot => pop_char(&mut state.input_steam_root),
                _ => {},
            }
            WizardAction::Continue
        },
        Key::Char(c) => {
            match f {
                WizardField::Login => push_char(&mut state.input_login, c),
                WizardField::Player => push_char(&mut state.input_player, c),
                WizardField::SteamRoot => push_char(&mut state.input_steam_root, c),
                _ => {},
            }
            WizardAction::Continue
        },
        _ => WizardAction::Continue,
    }
}

/// The name of a step as the header shows it.
pub fn field_label(f: WizardField) -> (r: &'static str)
    ensures
        r@ == field_label_spec(f),
{
    match f {
        WizardField::Login => "Steam login",
        WizardField::Player => "Player name",
        WizardField::SteamRoot => "Steam root path",
        WizardField::Warnings => "System warnings",
        WizardField::Done => "All done",
    }
}

/// The name of a step.
pub open spec fn field_label_spec(f: WizardField) -> Seq<char> {
    match f {
        WizardField::Login => "Steam login"@,
        WizardField::Player => "Player name"@,
        WizardField::SteamRoot => "Steam root path"@,
        WizardField::Warnings => "System warnings"@,
        WizardField::Done => "All done"@,
    }
}

/// The header of the wizard: `Step <n>/<total> — <step name>`.
pub fn step_header(state: &WizardState) -> (r: String)
    requires
        state.wf(),
    ensures
        r@ == "Step "@ + crate::text::dec(state.idx as nat + 1) + seq!['/'] + crate::text::dec(
            state.fields@.len() as nat,
        ) + " \u{2014} "@ + field_label_spec(state.current()),
{
    let mut v = to_chars("Step ");
    let n = state.fields.len();
    let step = state.idx + 1;
    push_all(&mut v, &crate::text::u64_to_dec(step as u64));
    v.push('/');
    push_all(&mut v, &crate::text::u64_to_dec(n as u64));
    push_str(&mut v, " \u{2014} ");
    push_str(&mut v, field_label(state.fields[state.idx]));
    from_chars(&v)
}

/// The steps always end with the closing one, whichever answers are
/// missing, and ask for each missing answer exactly once.
pub proof fn lemma_fields_shape(need_login: bool, need_player: bool, need_steam_root: bool, has_warnings: bool)
    ensures
        fields_spec(need_login, need_player, need_steam_root, has_warnings).last() == WizardField::Done,
        fields_spec(need_login, need_player, need_steam_root, has_warnings).len() == 1 + (if need_login {
            1int
        } else {
            0
        }) + (if need_player {
            1int
        } else {
            0
        }) + (if need_steam_root {
            1int
        } else {
            0
        }) + (if has_warnings {
            1int
        } else {
            0
        }),
        need_login <==> fields_spec(need_login, need_player, need_steam_root, has_warnings).contains(
            WizardField::Login,
        ),
{
    let s = fields_spec(need_login, need_player, need_steam_root, has_warnings);
    if need_login {
        assert(s[0] == WizardField::Login);
    }
}

} // verus!
