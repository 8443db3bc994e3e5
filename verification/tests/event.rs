use tui_preview::event::{key_to_action, Action, KeyCode, KeyEvent, KeyModifiers};

fn k(code: KeyCode) -> KeyEvent {
    KeyEvent { code, modifiers: KeyModifiers::none() }
}

fn with(code: KeyCode, modifiers: KeyModifiers) -> KeyEvent {
    KeyEvent { code, modifiers }
}

#[test]
fn j_maps_down() {
    assert_eq!(key_to_action(k(KeyCode::Char('j'))), Some(Action::Down));
}

#[test]
fn k_maps_up() {
    assert_eq!(key_to_action(k(KeyCode::Char('k'))), Some(Action::Up));
}

#[test]
fn f_maps_fullscreen() {
    assert_eq!(key_to_action(k(KeyCode::Char('f'))), Some(Action::ToggleFullscreen));
}

#[test]
fn q_maps_quit() {
    assert_eq!(key_to_action(k(KeyCode::Char('q'))), Some(Action::Quit));
}

#[test]
fn ctrl_c_quits_and_plain_c_is_text() {
    assert_eq!(key_to_action(with(KeyCode::Char('c'), KeyModifiers::control())), Some(Action::Quit));
    assert_eq!(key_to_action(k(KeyCode::Char('c'))), Some(Action::Char('c')));
}

#[test]
fn shifted_letters_and_symbols() {
    assert_eq!(key_to_action(with(KeyCode::Char('G'), KeyModifiers::shift())), Some(Action::Bottom));
    assert_eq!(key_to_action(with(KeyCode::Char('A'), KeyModifiers::shift())), Some(Action::NewFolder));
    assert_eq!(key_to_action(k(KeyCode::Char('?'))), Some(Action::ToggleHelp));
    assert_eq!(key_to_action(k(KeyCode::Char('/'))), Some(Action::Search));
    assert_eq!(key_to_action(k(KeyCode::Char(' '))), Some(Action::PlayPause));
}

#[test]
fn bound_letters_with_alt_are_ignored() {
    assert_eq!(key_to_action(with(KeyCode::Char('j'), KeyModifiers::alt())), None);
    assert_eq!(key_to_action(with(KeyCode::Char('x'), KeyModifiers::alt())), None);
}

#[test]
fn special_keys() {
    assert_eq!(key_to_action(k(KeyCode::Esc)), Some(Action::Esc));
    assert_eq!(key_to_action(k(KeyCode::Enter)), Some(Action::Enter));
    assert_eq!(key_to_action(k(KeyCode::Backspace)), Some(Action::Parent));
    assert_eq!(key_to_action(k(KeyCode::Tab)), Some(Action::NextSheet));
    assert_eq!(key_to_action(with(KeyCode::Tab, KeyModifiers::shift())), None);
    assert_eq!(key_to_action(k(KeyCode::BackTab)), Some(Action::PrevSheet));
    assert_eq!(key_to_action(k(KeyCode::F(5))), None);
}
