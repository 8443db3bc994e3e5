//! What the screen shows besides the preview: which parts are drawn, the
//! rows and title of the file list, the help text and the input dialog.
use vstd::prelude::*;
use crate::app::{lemma_wf_visible_rows_valid, visible_spec, wf, App, Mode};
use crate::fs::Entry;
use crate::preview::text::{lines_view, Run};
use crate::preview::{bold_style, fg_style, line_empty, line_runs, line_styled, plain, Color, Line, Style};
use crate::textfmt::{decimal, opt_string_view, push_decimal};

verus! {

/// The parts of the screen that are drawn.
#[derive(Debug, Clone, Copy, PartialEq, Eq, Structural)]
pub struct ScreenPlan {
    /// The search bar under the status line.
    pub search_bar: bool,
    /// The file list beside the preview (else the preview fills the width).
    pub file_list: bool,
    /// The help popup.
    pub help: bool,
    /// The new-file or new-folder dialog.
    pub input: bool,
}

/// Which parts are drawn in a mode: the search bar while searching, the
/// file list unless the preview is full screen, the help and input popups
/// in their modes.
pub fn screen_plan(mode: Mode, fullscreen: bool) -> (res: ScreenPlan)
    ensures
        res.search_bar == (mode == Mode::Search),
        res.file_list == !(mode == Mode::FullscreenPreview || fullscreen),
        res.help == (mode == Mode::Help),
        res.input == (mode == Mode::InputNewFile || mode == Mode::InputNewFolder),
{
    ScreenPlan {
        search_bar: mode == Mode::Search,
        file_list: !(mode == Mode::FullscreenPreview || fullscreen),
        help: mode == Mode::Help,
        input: mode == Mode::InputNewFile || mode == Mode::InputNewFolder,
    }
}

/// The style of a file-list row: white bold on blue when selected, cyan
/// bold for a directory, magenta for a link, white otherwise.
pub open spec fn row_style(e: Entry, selected: bool) -> Style {
    if selected {
        Style { fg: Some(Color::White), bg: Some(Color::Blue), bold: true, italic: false }
    } else if e.is_dir {
        bold_style(Color::Cyan)
    } else if e.is_symlink {
        fg_style(Color::Magenta)
    } else {
        fg_style(Color::White)
    }
}

/// The text of a file-list row: a marker for the selection, the name, "/"
/// for a directory and " →" for a link.
pub open spec fn row_text(e: Entry, selected: bool) -> Seq<char> {
    (if selected { seq!['\u{25b6}', ' '] } else { seq![' ', ' '] }) + e.name@
        + (if e.is_dir { "/"@ } else { Seq::empty() }) + (if e.is_symlink { seq![' ', '\u{2192}'] } else { Seq::empty() })
}

/// The rows of the file list, one per visible file.
pub open spec fn file_rows(app: App) -> Seq<Seq<Run>> {
    let vis = visible_spec(app);
    Seq::new(vis.len(), |k: int| seq![(row_text(app.files@[vis[k] as int], k == app.selected), row_style(app.files@[vis[k] as int], k == app.selected))])
}

/// The rows of the file list.
pub fn file_list_rows(app: &App) -> (res: Vec<Line>)
    requires
        wf(*app),
    ensures
        lines_view(res@) == file_rows(*app),
{
    let vis = app.visible_indices();
    let mut out: Vec<Line> = Vec::new();
    let mut k: usize = 0;
    while k < vis.len()
        invariant
            0 <= k <= vis@.len(),
            vis@ == visible_spec(*app),
            wf(*app),
            lines_view(out@) == file_rows(*app).take(k as int),
        decreases vis.len() - k,
    {
        proof {
            lemma_wf_visible_rows_valid(*app, k as int);
        }
        let e = &app.files[vis[k]];
        let selected = k == app.selected;
        let mut t = String::new();
        if selected {
            t.append("\u{25b6} ");
        } else {
            t.append("  ");
        }
        t.append(e.name.as_str());
        if e.is_dir {
            t.append("/");
        }
        if e.is_symlink {
            t.append(" \u{2192}");
        }
        proof {
            reveal_strlit("\u{25b6} ");
            reveal_strlit("  ");
            reveal_strlit(" \u{2192}");
        }
        assert(t@ =~= row_text(*e, selected));
        let style = if selected {
            Style { fg: Some(Color::White), bg: Some(Color::Blue), bold: true, italic: false }
        } else if e.is_dir {
            Style { fg: Some(Color::Cyan), bg: None, bold: true, italic: false }
        } else if e.is_symlink {
            Style { fg: Some(Color::Magenta), bg: None, bold: false, italic: false }
        } else {
            Style { fg: Some(Color::White), bg: None, bold: false, italic: false }
        };
        let ghost before = lines_view(out@);
        let ghost tv = t@;
        assert(*e == app.files@[vis@[k as int] as int]);
        assert(style == row_style(*e, selected));
        out.push(line_styled(t, style));
        assert(lines_view(out@) =~= before.push(seq![(tv, style)]));
        k = k + 1;
        assert(lines_view(out@) =~= file_rows(*app).take(k as int));
    }
    assert(file_rows(*app).take(vis@.len() as int) =~= file_rows(*app));
    out
}

/// The title of the file list: the visible and total counts while
/// filtering, the total otherwise.
pub open spec fn file_list_title_text(app: App) -> Seq<char> {
    if app.filtered is Some {
        " Files ["@ + decimal(visible_spec(app).len()) + " filtered / "@ + decimal(app.files@.len()) + " total] "@
    } else {
        " Files ["@ + decimal(app.files@.len()) + "] "@
    }
}

/// The title of the file list.
pub fn file_list_title(app: &App) -> (res: String)
    ensures
        res@ == file_list_title_text(*app),
{
    let mut s = String::from_str(" Files [");
    if app.filtered.is_some() {
        push_decimal(&mut s, app.visible_len() as u64);
        s.append(" filtered / ");
        push_decimal(&mut s, app.files.len() as u64);
        s.append(" total] ");
    } else {
        push_decimal(&mut s, app.files.len() as u64);
        s.append("] ");
    }
    s
}

/// A line of plain text.
fn plain_line(text: &str) -> (res: Line)
    ensures
        lines_view(seq![res]) == seq![seq![(text@, plain())]],
{
    let mut s = String::new();
    s.append(text);
    let l = line_styled(s, Style { fg: None, bg: None, bold: false, italic: false });
    assert(lines_view(seq![l]) =~= seq![seq![(text@, plain())]]);
    l
}

/// The help text: a title, the key bindings by topic, and how to close it.
pub fn help_lines() -> (res: Vec<Line>)
    ensures
        res@.len() == 21,
        lines_view(res@)[0] == seq![(" tui-preview \u{2014} Help (Phase 2) "@, bold_style(Color::Yellow))],
        lines_view(res@)[20] == seq![("Press ? or Esc or q to close"@, fg_style(Color::DarkGray))],
{
    let yellow_bold = Style { fg: Some(Color::Yellow), bg: None, bold: true, italic: false };
    let cyan_bold = Style { fg: Some(Color::Cyan), bg: None, bold: true, italic: false };
    let mut v: Vec<Line> = Vec::new();
    v.push(line_styled(String::from_str(" tui-preview \u{2014} Help (Phase 2) "), yellow_bold));
    v.push(line_empty());
    v.push(line_styled(String::from_str("Navigation:"), cyan_bold));
    v.push(plain_line("  j / \u{2193}        Next    k / \u{2191}  Prev   g Top  G Bottom"));
    v.push(plain_line("  Enter        Enter dir  Backspace Parent"));
    v.push(plain_line("  h            Toggle hidden  f Toggle fullscreen  q/Esc/Ctrl+C Quit"));
    v.push(line_empty());
    v.push(line_styled(String::from_str("Search & Preview:"), cyan_bold));
    v.push(plain_line("  /            Fuzzy search \u{2014} type to filter, Enter select, Esc clear"));
    v.push(plain_line("  Enter on TooLarge \u{2192} force preview"));
    v.push(plain_line("  Space        Play/pause audio  s Stop audio"));
    v.push(plain_line("  a            New file  A/N  New folder  o Open external  m Toggle format filter"));
    v.push(plain_line("  Only media/doc formats shown by default (.jpg .png .pdf .doc etc) + dirs"));
    v.push(line_empty());
    v.push(line_styled(String::from_str("Phase 2:"), Style { fg: Some(Color::Yellow), bg: None, bold: false, italic: false }));
    v.push(plain_line("  \u{2022} Cache mem LRU 100 + disk 500MB quantized 8\u{d7}4  sized pool"));
    v.push(plain_line("  \u{2022} Async preview JoinSet + abort on scroll  5s timeout"));
    v.push(plain_line("  \u{2022} Audio mp3/flac/wav via rodio + waveform sparkline"));
    v.push(plain_line("  \u{2022} Tracing to ~/.cache/tui-preview/debug.log (RUST_LOG=debug)"));
    v.push(line_empty());
    let ghost before = lines_view(v@);
    v.push(line_styled(String::from_str("Press ? or Esc or q to close"), Style { fg: Some(Color::DarkGray), bg: None, bold: false, italic: false }));
    assert(lines_view(v@) =~= before.push(seq![("Press ? or Esc or q to close"@, fg_style(Color::DarkGray))]));
    v
}

/// The title of the input dialog.
pub open spec fn input_title(folder: bool) -> Seq<char> {
    if folder { " New Folder (Enter to create, Esc to cancel) "@ } else { " New File (Enter to create, Esc to cancel) "@ }
}

/// The lines of the input dialog: the prompt with the typed name and a
/// block cursor, then the error in red or a tip in dark gray.
pub open spec fn input_lines(folder: bool, buffer: Seq<char>, error: Option<Seq<char>>) -> Seq<Seq<Run>> {
    seq![
        seq![((if folder { "Folder name: "@ } else { "File name: "@ }) + buffer + seq!['\u{2588}'], fg_style(Color::White))],
        match error {
            Some(e) => seq![("Error: "@ + e, fg_style(Color::Red))],
            None => seq![("Tip: name without path separator"@, fg_style(Color::DarkGray))],
        }
    ]
}

/// The title and lines of the new-file or new-folder dialog.
pub fn input_dialog(app: &App) -> (res: (String, Vec<Line>))
    ensures
        res.0@ == input_title(app.mode == Mode::InputNewFolder),
        lines_view(res.1@) == input_lines(app.mode == Mode::InputNewFolder, app.input_buffer@, opt_string_view(app.input_error)),
{
    let folder = app.mode == Mode::InputNewFolder;
    let title = if folder {
        String::from_str(" New Folder (Enter to create, Esc to cancel) ")
    } else {
        String::from_str(" New File (Enter to create, Esc to cancel) ")
    };
    let mut input = if folder { String::from_str("Folder name: ") } else { String::from_str("File name: ") };
    input.append(app.input_buffer.as_str());
    input.append("\u{2588}");
    proof {
        reveal_strlit("\u{2588}");
    }
    assert(input@ =~= (if folder { "Folder name: "@ } else { "File name: "@ }) + app.input_buffer@ + seq!['\u{2588}']);
    let ghost err_v = opt_string_view(app.input_error);
    let second = match &app.input_error {
        Some(err) => {
            let mut s = String::from_str("Error: ");
            s.append(err.as_str());
            let l = line_styled(s, Style { fg: Some(Color::Red), bg: None, bold: false, italic: false });
            assert(line_runs(l) == seq![("Error: "@ + err@, fg_style(Color::Red))]);
            l
        }
        None => line_styled(String::from_str("Tip: name without path separator"), Style { fg: Some(Color::DarkGray), bg: None, bold: false, italic: false }),
    };
    assert(line_runs(second) == input_lines(folder, app.input_buffer@, err_v)[1]);
    let ghost iv = input@;
    let first = line_styled(input, Style { fg: Some(Color::White), bg: None, bold: false, italic: false });
    assert(line_runs(first) == input_lines(folder, app.input_buffer@, err_v)[0]);
    let lines = vec![first, second];
    assert(lines_view(lines@) =~= input_lines(folder, app.input_buffer@, err_v));
    (title, lines)
}

} // verus!
