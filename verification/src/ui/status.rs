//! Status bar text.
use vstd::prelude::*;
use crate::app::{selected_spec, visible_spec, App, Mode};
use crate::preview::text::{lines_view, Run};
use crate::preview::{Color, Line, Span, Style};
use crate::textfmt::{decimal, push_decimal};

verus! {

/// The name of a mode as the status bar shows it.
pub open spec fn mode_name(m: Mode) -> Seq<char> {
    match m {
        Mode::Normal => "NORMAL"@,
        Mode::Search => "SEARCH"@,
        Mode::Help => "HELP"@,
        Mode::FullscreenPreview => "FULLSCREEN"@,
        Mode::InputNewFile => "NEW FILE"@,
        Mode::InputNewFolder => "NEW FOLDER"@,
    }
}

pub fn mode_label(m: &Mode) -> (res: &'static str)
    ensures
        res@ == mode_name(*m),
{
    match m {
        Mode::Normal => "NORMAL",
        Mode::Search => "SEARCH",
        Mode::Help => "HELP",
        Mode::FullscreenPreview => "FULLSCREEN",
        Mode::InputNewFile => "NEW FILE",
        Mode::InputNewFolder => "NEW FOLDER",
    }
}

/// The position shown: "row/count" (1-based), or "0/0" with nothing
/// visible.
pub open spec fn position_text(selected: nat, count: nat) -> Seq<char> {
    if count == 0 { "0/0"@ } else { decimal(selected + 1) + "/"@ + decimal(count) }
}

/// The left part of the status bar: mode, position, selected name ("-"
/// for none), hidden-file and format-filter switches, audio and loading
/// indicators, and the key reminder.
pub open spec fn status_left(app: App, playing: bool) -> Seq<char> {
    let cur = match selected_spec(app) { Some(e) => e.name@, None => "-"@ };
    " "@ + mode_name(app.mode) + " | "@ + position_text(app.selected as nat, visible_spec(app).len()) + " | "@ + cur
        + " | "@ + (if app.show_hidden { "hidden:ON"@ } else { "hidden:OFF"@ })
        + " | "@ + (if app.filter_formats_only { "filter:MEDIA"@ } else { "filter:ALL"@ })
        + " | "@ + (if playing { seq!['\u{266a}'] + " playing"@ } else { Seq::empty() })
        + (if app.preview_loading { seq![' ', 'l', 'o', 'a', 'd', 'i', 'n', 'g', '\u{2026}'] } else { Seq::empty() })
        + " | f:fullscreen /:search a:new file A:new folder m:toggle filter q:quit "@
}

/// The status line: the left part in white and " Dir: <dir> " in cyan,
/// both on dark gray.
pub open spec fn status_runs(app: App, playing: bool) -> Seq<Run> {
    seq![
        (status_left(app, playing), Style { fg: Some(Color::White), bg: Some(Color::DarkGray), bold: false, italic: false }),
        (" Dir: "@ + app.current_dir@ + " "@, Style { fg: Some(Color::Cyan), bg: Some(Color::DarkGray), bold: false, italic: false })
    ]
}

/// The position text.
fn position_string(selected: usize, count: usize) -> (res: String)
    requires
        selected < usize::MAX,
    ensures
        res@ == position_text(selected as nat, count as nat),
{
    if count == 0 {
        String::from_str("0/0")
    } else {
        let mut s = String::new();
        push_decimal(&mut s, (selected + 1) as u64);
        s.append("/");
        push_decimal(&mut s, count as u64);
        s
    }
}

/// The left part of the status bar.
pub fn status_left_text(app: &App, playing: bool) -> (res: String)
    requires
        app.selected < usize::MAX,
    ensures
        res@ == status_left(*app, playing),
{
    let pos = position_string(app.selected, app.visible_len());
    let cur = match app.selected_entry() {
        Some(e) => e.name.clone(),
        None => String::from_str("-"),
    };
    let ghost cur_v = match selected_spec(*app) { Some(e) => e.name@, None => "-"@ };
    assert(cur@ == cur_v);
    let mut s = String::from_str(" ");
    s.append(mode_label(&app.mode));
    s.append(" | ");
    s.append(pos.as_str());
    s.append(" | ");
    s.append(cur.as_str());
    let ghost p1 = s@;
    assert(p1 =~= " "@ + mode_name(app.mode) + " | "@ + position_text(app.selected as nat, visible_spec(*app).len()) + " | "@ + cur_v);
    s.append(" | ");
    s.append(if app.show_hidden { "hidden:ON" } else { "hidden:OFF" });
    s.append(" | ");
    s.append(if app.filter_formats_only { "filter:MEDIA" } else { "filter:ALL" });
    s.append(" | ");
    let ghost p2 = s@;
    assert(p2 =~= p1 + " | "@ + (if app.show_hidden { "hidden:ON"@ } else { "hidden:OFF"@ })
        + " | "@ + (if app.filter_formats_only { "filter:MEDIA"@ } else { "filter:ALL"@ }) + " | "@);
    if playing {
        s.append("\u{266a} playing");
    }
    if app.preview_loading {
        s.append(" loading\u{2026}");
    }
    proof {
        reveal_strlit("\u{266a} playing");
        reveal_strlit(" playing");
        reveal_strlit(" loading\u{2026}");
    }
    let ghost p3 = s@;
    assert(p3 =~= p2 + (if playing { seq!['\u{266a}'] + " playing"@ } else { Seq::empty() })
        + (if app.preview_loading { seq![' ', 'l', 'o', 'a', 'd', 'i', 'n', 'g', '\u{2026}'] } else { Seq::empty() }));
    s.append(" | f:fullscreen /:search a:new file A:new folder m:toggle filter q:quit ");
    assert(s@ =~= status_left(*app, playing));
    s
}

/// A status line: `left` in white and `right` in cyan, both on dark gray.
pub fn render_status_line(left: &str, right: &str) -> (res: Line)
    ensures
        lines_view(seq![res]) == seq![seq![
            (left@, Style { fg: Some(Color::White), bg: Some(Color::DarkGray), bold: false, italic: false }),
            (right@, Style { fg: Some(Color::Cyan), bg: Some(Color::DarkGray), bold: false, italic: false })]],
{
    let mut l_text = String::new();
    l_text.append(left);
    let mut r_text = String::new();
    r_text.append(right);
    let l = Line { spans: vec![
        Span { content: l_text, style: Style { fg: Some(Color::White), bg: Some(Color::DarkGray), bold: false, italic: false } },
        Span { content: r_text, style: Style { fg: Some(Color::Cyan), bg: Some(Color::DarkGray), bold: false, italic: false } },
    ] };
    assert(l.spans@.map_values(|s: Span| (s.content@, s.style)) =~= seq![
        (left@, Style { fg: Some(Color::White), bg: Some(Color::DarkGray), bold: false, italic: false }),
        (right@, Style { fg: Some(Color::Cyan), bg: Some(Color::DarkGray), bold: false, italic: false })]);
    assert(lines_view(seq![l]) =~= seq![seq![
        (left@, Style { fg: Some(Color::White), bg: Some(Color::DarkGray), bold: false, italic: false }),
        (right@, Style { fg: Some(Color::Cyan), bg: Some(Color::DarkGray), bold: false, italic: false })]]);
    l
}

/// The status line of the application (`playing`: audio is playing).
pub fn status_line(app: &App, playing: bool) -> (res: Line)
    requires
        app.selected < usize::MAX,
    ensures
        lines_view(seq![res]) == seq![status_runs(*app, playing)],
{
    let s = status_left_text(app, playing);
    let mut d = String::from_str(" Dir: ");
    d.append(app.current_dir.as_str());
    d.append(" ");
    render_status_line(s.as_str(), d.as_str())
}

} // verus!
