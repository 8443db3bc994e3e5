//! Key mapping: which key press performs which action.
use vstd::prelude::*;

verus! {

/// The key that was pressed.
#[derive(Debug, Clone, Copy, PartialEq, Eq, Structural)]
pub enum KeyCode {
    Backspace,
    Enter,
    Left,
    Right,
    Up,
    Down,
    Home,
    End,
    PageUp,
    PageDown,
    Tab,
    BackTab,
    Delete,
    Insert,
    F(u8),
    Char(char),
    Null,
    Esc,
    CapsLock,
    ScrollLock,
    NumLock,
    PrintScreen,
    Pause,
    Menu,
    KeypadBegin,
    Media,
    Modifier,
}

/// The modifier keys held, as bits: SHIFT 1, CONTROL 2, ALT 4, SUPER 8,
/// HYPER 16, META 32.
#[derive(Debug, Clone, Copy, PartialEq, Eq, Structural)]
pub struct KeyModifiers {
    pub bits: u8,
}

impl KeyModifiers {
    pub fn none() -> (res: KeyModifiers)
        ensures res.bits == 0,
    {
        KeyModifiers { bits: 0 }
    }

    pub fn shift() -> (res: KeyModifiers)
        ensures res.bits == 1,
    {
        KeyModifiers { bits: 1 }
    }

    pub fn control() -> (res: KeyModifiers)
        ensures res.bits == 2,
    {
        KeyModifiers { bits: 2 }
    }

    pub fn alt() -> (res: KeyModifiers)
        ensures res.bits == 4,
    {
        KeyModifiers { bits: 4 }
    }
}

/// A key press.
#[derive(Debug, Clone, Copy, PartialEq, Eq, Structural)]
pub struct KeyEvent {
    pub code: KeyCode,
    pub modifiers: KeyModifiers,
}

/// What the user asked for.
#[derive(Debug, Clone, Copy, PartialEq, Eq, Structural)]
pub enum Action {
    Up,
    Down,
    Top,
    Bottom,
    Enter,
    Parent,
    ToggleHidden,
    ToggleHelp,
    ToggleFullscreen,
    Quit,
    Search,
    CopyPath,
    PlayPause,
    Stop,
    Char(char),
    BackspaceChar,
    Esc,
    NextPage,
    PrevPage,
    NextSheet,
    PrevSheet,
    OpenExternal,
    NewFile,
    NewFolder,
    ToggleFormatFilter,
}

/// The letters bound to an action when typed without modifiers; any other
/// character typed without modifiers is passed on as text.
pub open spec fn is_bound_letter(c: char) -> bool {
    c == 'q' || c == 'j' || c == 'k' || c == 'g' || c == 'h' || c == 'f' || c == 's' || c == 'n'
        || c == 'p' || c == 'o' || c == 'a' || c == 'm'
}

/// The key map, first matching rule first.
pub open spec fn key_action(code: KeyCode, m: u8) -> Option<Action> {
    let none = m == 0;
    let ctrl = m == 2;
    match code {
        KeyCode::Char(c) => {
            if c == 'q' && none { Some(Action::Quit) }
            else if c == 'c' && ctrl { Some(Action::Quit) }
            else if c == 'k' && none { Some(Action::Up) }
            else if c == 'j' && none { Some(Action::Down) }
            else if c == 'g' && none { Some(Action::Top) }
            else if c == 'G' { Some(Action::Bottom) }
            else if c == 'h' && none { Some(Action::ToggleHidden) }
            else if c == '?' { Some(Action::ToggleHelp) }
            else if c == '/' { Some(Action::Search) }
            else if c == 'f' && none { Some(Action::ToggleFullscreen) }
            else if c == 'n' && none { Some(Action::NextPage) }
            else if c == 'p' && none { Some(Action::PrevPage) }
            else if c == 'o' && none { Some(Action::OpenExternal) }
            else if c == 'a' && none { Some(Action::NewFile) }
            else if c == 'A' { Some(Action::NewFolder) }
            else if c == 'N' { Some(Action::NewFolder) }
            else if c == 'm' && none { Some(Action::ToggleFormatFilter) }
            else if c == ' ' { Some(Action::PlayPause) }
            else if c == 's' && none { Some(Action::Stop) }
            else if none && !is_bound_letter(c) { Some(Action::Char(c)) }
            else { None }
        },
        KeyCode::Esc => Some(Action::Esc),
        KeyCode::Up => Some(Action::Up),
        KeyCode::Down => Some(Action::Down),
        KeyCode::Tab => if none { Some(Action::NextSheet) } else { None },
        KeyCode::BackTab => Some(Action::PrevSheet),
        KeyCode::Enter => Some(Action::Enter),
        KeyCode::Backspace => Some(Action::Parent),
        _ => None,
    }
}

/// The action of a key press, if any.
pub fn key_to_action(key: KeyEvent) -> (res: Option<Action>)
    ensures
        res == key_action(key.code, key.modifiers.bits),
        key_table_holds(key.code, key.modifiers.bits, res),
{
    proof {
        lemma_key_table(key.code, key.modifiers.bits);
    }
    let none = key.modifiers.bits == 0;
    let ctrl = key.modifiers.bits == 2;
    match key.code {
        KeyCode::Char(c) => {
            if c == 'q' && none { Some(Action::Quit) }
            else if c == 'c' && ctrl { Some(Action::Quit) }
            else if c == 'k' && none { Some(Action::Up) }
            else if c == 'j' && none { Some(Action::Down) }
            else if c == 'g' && none { Some(Action::Top) }
            else if c == 'G' { Some(Action::Bottom) }
            else if c == 'h' && none { Some(Action::ToggleHidden) }
            else if c == '?' { Some(Action::ToggleHelp) }
            else if c == '/' { Some(Action::Search) }
            else if c == 'f' && none { Some(Action::ToggleFullscreen) }
            else if c == 'n' && none { Some(Action::NextPage) }
            else if c == 'p' && none { Some(Action::PrevPage) }
            else if c == 'o' && none { Some(Action::OpenExternal) }
            else if c == 'a' && none { Some(Action::NewFile) }
            else if c == 'A' { Some(Action::NewFolder) }
            else if c == 'N' { Some(Action::NewFolder) }
            else if c == 'm' && none { Some(Action::ToggleFormatFilter) }
            else if c == ' ' { Some(Action::PlayPause) }
            else if c == 's' && none { Some(Action::Stop) }
            else if none && c != 'q' && c != 'j' && c != 'k' && c != 'g' && c != 'h' && c != 'f'
                && c != 's' && c != 'n' && c != 'p' && c != 'o' && c != 'a' && c != 'm' {
                Some(Action::Char(c))
            } else {
                None
            }
        },
        KeyCode::Esc => Some(Action::Esc),
        KeyCode::Up => Some(Action::Up),
        KeyCode::Down => Some(Action::Down),
        KeyCode::Tab => if none { Some(Action::NextSheet) } else { None },
        KeyCode::BackTab => Some(Action::PrevSheet),
        KeyCode::Enter => Some(Action::Enter),
        KeyCode::Backspace => Some(Action::Parent),
        _ => None,
    }
}

/// The documented key table: unmodified `q` quits, as does Ctrl+C; `k`/`j`
/// and the arrows move up and down, `g` and `G` go to the top and the
/// bottom; `h` toggles hidden files, `?` the help, `/` starts a search, `f`
/// toggles full screen; `n` and `p` go to the next and previous page; Tab
/// and Shift+Tab to the next and previous sheet; `o` opens externally, `a`
/// makes a new file and `A`/`N` a new folder; `m` toggles the format filter;
/// Space plays or pauses, `s` stops; Enter enters, Backspace goes to the
/// parent and Esc escapes; another unmodified character is typed text.
pub open spec fn key_table_holds(code: KeyCode, m: u8, res: Option<Action>) -> bool {
    &&& (m == 0 && code == KeyCode::Char('q') ==> res == Some(Action::Quit))
    &&& (m == 2 && code == KeyCode::Char('c') ==> res == Some(Action::Quit))
    &&& (m == 0 && code == KeyCode::Char('k') ==> res == Some(Action::Up))
    &&& (m == 0 && code == KeyCode::Char('j') ==> res == Some(Action::Down))
    &&& (m == 0 && code == KeyCode::Char('g') ==> res == Some(Action::Top))
    &&& (code == KeyCode::Char('G') ==> res == Some(Action::Bottom))
    &&& (m == 0 && code == KeyCode::Char('h') ==> res == Some(Action::ToggleHidden))
    &&& (code == KeyCode::Char('?') ==> res == Some(Action::ToggleHelp))
    &&& (code == KeyCode::Char('/') ==> res == Some(Action::Search))
    &&& (m == 0 && code == KeyCode::Char('f') ==> res == Some(Action::ToggleFullscreen))
    &&& (m == 0 && code == KeyCode::Char('n') ==> res == Some(Action::NextPage))
    &&& (m == 0 && code == KeyCode::Char('p') ==> res == Some(Action::PrevPage))
    &&& (m == 0 && code == KeyCode::Char('o') ==> res == Some(Action::OpenExternal))
    &&& (m == 0 && code == KeyCode::Char('a') ==> res == Some(Action::NewFile))
    &&& (code == KeyCode::Char('A') ==> res == Some(Action::NewFolder))
    &&& (code == KeyCode::Char('N') ==> res == Some(Action::NewFolder))
    &&& (m == 0 && code == KeyCode::Char('m') ==> res == Some(Action::ToggleFormatFilter))
    &&& (code == KeyCode::Char(' ') ==> res == Some(Action::PlayPause))
    &&& (m == 0 && code == KeyCode::Char('s') ==> res == Some(Action::Stop))
    &&& (m == 0 && code == KeyCode::Tab ==> res == Some(Action::NextSheet))
    &&& (code == KeyCode::BackTab ==> res == Some(Action::PrevSheet))
    &&& (code == KeyCode::Up ==> res == Some(Action::Up))
    &&& (code == KeyCode::Down ==> res == Some(Action::Down))
    &&& (code == KeyCode::Enter ==> res == Some(Action::Enter))
    &&& (code == KeyCode::Backspace ==> res == Some(Action::Parent))
    &&& (code == KeyCode::Esc ==> res == Some(Action::Esc))
    &&& (forall|c: char| m == 0 && code == KeyCode::Char(c)
        && !(c == 'q' || c == 'k' || c == 'j' || c == 'g' || c == 'G' || c == 'h' || c == '?' || c == '/' || c == 'f'
            || c == 'n' || c == 'p' || c == 'o' || c == 'a' || c == 'A' || c == 'N' || c == 'm' || c == ' ' || c == 's')
        ==> res == Some(Action::Char(c)))
}

/// The key map follows the documented key table.
pub proof fn lemma_key_table(code: KeyCode, m: u8)
    ensures
        key_table_holds(code, m, key_action(code, m)),
{
}

/// Every unmodified letter key either performs its bound action or is
/// passed on as typed text: no unmodified character key is lost.
pub proof fn lemma_plain_chars_never_lost(c: char)
    ensures
        key_action(KeyCode::Char(c), 0) is Some,
{
}

/// Ctrl+C always quits, and so does an unmodified `q`.
pub proof fn lemma_quit_keys()
    ensures
        key_action(KeyCode::Char('c'), 2) == Some(Action::Quit),
        key_action(KeyCode::Char('q'), 0) == Some(Action::Quit),
{
}

} // verus!
