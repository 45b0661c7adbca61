use dayz_community_hub_core::keys::Key;
use dayz_community_hub_core::system::CheckResult;
use dayz_community_hub_core::wizard::{
    field_label, start_wizard, step_header, warnings_text, wizard_key, SetupAnswers, WizardAction,
    WizardField,
};

fn no_answers() -> SetupAnswers {
    SetupAnswers { steam_login: None, player: None, steam_root: None }
}

#[test]
fn nothing_to_ask_means_no_wizard() {
    assert!(start_wizard(false, false, false, false).is_none());
}

#[test]
fn steps_follow_what_is_missing() {
    let s = start_wizard(true, false, true, true).unwrap();
    assert_eq!(
        s.fields,
        vec![WizardField::Login, WizardField::SteamRoot, WizardField::Warnings, WizardField::Done]
    );
    assert_eq!(s.idx, 0);
    assert_eq!(step_header(&s), "Step 1/4 \u{2014} Steam login");
    assert_eq!(field_label(WizardField::Done), "All done");
}

#[test]
fn blank_login_becomes_anonymous() {
    let mut s = start_wizard(true, true, false, false).unwrap();
    let mut a = no_answers();
    assert_eq!(wizard_key(&mut s, &mut a, Key::Char(' ')), WizardAction::Continue);
    assert_eq!(wizard_key(&mut s, &mut a, Key::Char('\n')), WizardAction::Continue);
    assert_eq!(a.steam_login.as_deref(), Some("anonymous"));
    assert_eq!(s.idx, 1);
}

#[test]
fn typing_editing_and_saving() {
    let mut s = start_wizard(false, true, false, false).unwrap();
    let mut a = no_answers();
    for c in "Bobx".chars() {
        wizard_key(&mut s, &mut a, Key::Char(c));
    }
    wizard_key(&mut s, &mut a, Key::Backspace);
    assert_eq!(s.input_player, "Bob");
    assert_eq!(wizard_key(&mut s, &mut a, Key::Char('\n')), WizardAction::Continue);
    assert_eq!(a.player.as_deref(), Some("Bob"));
    assert_eq!(s.fields[s.idx], WizardField::Done);
    assert_eq!(wizard_key(&mut s, &mut a, Key::Char('x')), WizardAction::Continue);
    assert_eq!(wizard_key(&mut s, &mut a, Key::Char('\n')), WizardAction::Save);
}

#[test]
fn blank_player_keeps_old_answer_and_ctrl_c_cancels() {
    let mut s = start_wizard(false, true, false, false).unwrap();
    let mut a = SetupAnswers { steam_login: None, player: Some("Old".into()), steam_root: None };
    wizard_key(&mut s, &mut a, Key::Char('\n'));
    assert_eq!(a.player.as_deref(), Some("Old"));
    assert_eq!(wizard_key(&mut s, &mut a, Key::Ctrl('c')), WizardAction::Cancel);
}

#[test]
fn warnings_are_joined_by_a_blank_line() {
    let low = CheckResult { current: 65530, required: 1048576, ok: false };
    let both = warnings_text(true, &Some(low));
    assert!(both.starts_with("steamcmd not found \u{2014} mod downloads will be disabled.\nInstall: sudo apt install steamcmd\n\nvm.max_map_count needs adjustment: 65530 < 1048576"));
    let fine = CheckResult { current: 2000000, required: 1048576, ok: true };
    assert_eq!(warnings_text(false, &Some(fine)), "");
    assert_eq!(warnings_text(false, &None), "");
}
