use tui_preview::preview::meta::format_mtime;
use std::time::{Duration, SystemTime};
use tui_preview::app::{App, Mode};
use tui_preview::event::Action;
use tui_preview::fs::Entry;
use tui_preview::preview::{ArchiveEntry, AudioMeta, EntrySummary, FileMeta, Line, PreviewResult};
use tui_preview::ui::layout::{file_list_rows, file_list_title, help_lines, input_dialog, screen_plan};
use tui_preview::ui::preview_pane::{pane_view, PaneView};
use tui_preview::preview::Color;
use tui_preview::ui::status::{render_status_line, status_line};

fn text(l: &Line) -> String {
    l.spans.iter().map(|s| s.content.as_str()).collect()
}

fn entry(name: &str, is_dir: bool, is_symlink: bool) -> Entry {
    Entry { path: format!("/w/{}", name), name: name.to_string(), is_dir, size: 10, is_symlink, symlink_target: None }
}

fn app() -> App {
    App::new("/w".to_string(), vec![entry("docs", true, false), entry("a.txt", false, false), entry("l.png", false, true)], false, None)
}

fn meta(size: u64, mime: &str) -> FileMeta {
    FileMeta { size, mtime: SystemTime::UNIX_EPOCH, mime: mime.to_string(), dims: None }
}

#[test]
fn status_line_text() {
    let mut a = app();
    a.handle_action(Action::Down);
    let l = status_line(&a, false);
    assert_eq!(text(&l), " NORMAL | 2/3 | a.txt | hidden:OFF | filter:MEDIA |  | f:fullscreen /:search a:new file A:new folder m:toggle filter q:quit  Dir: /w ");
    a.preview_loading = true;
    let l2 = status_line(&a, true);
    assert!(text(&l2).contains("| \u{266a} playing loading\u{2026} |"));
    let empty = App::new("/e".to_string(), Vec::new(), true, None);
    assert!(text(&status_line(&empty, false)).starts_with(" NORMAL | 0/0 | - | hidden:ON"));
}

#[test]
fn file_list_rows_and_title() {
    let a = app();
    let rows = file_list_rows(&a);
    let t: Vec<String> = rows.iter().map(text).collect();
    assert_eq!(t, vec!["\u{25b6} docs/", "  a.txt", "  l.png \u{2192}"]);
    assert!(rows[0].spans[0].style.bold);
    assert_eq!(file_list_title(&a), " Files [3] ");
    let mut b = app();
    b.handle_action(Action::Search);
    b.handle_action(Action::Char('a'));
    assert_eq!(file_list_title(&b), " Files [1 filtered / 3 total] ");
}

#[test]
fn screen_parts_by_mode() {
    let p = screen_plan(Mode::Search, false);
    assert!(p.search_bar && p.file_list && !p.help && !p.input);
    let q = screen_plan(Mode::Normal, true);
    assert!(!q.file_list);
    assert!(screen_plan(Mode::InputNewFolder, false).input);
    assert!(screen_plan(Mode::Help, false).help);
}

#[test]
fn help_and_input_dialog() {
    let h = help_lines();
    assert_eq!(h.len(), 21);
    assert_eq!(text(&h[2]), "Navigation:");
    assert_eq!(h[1].spans.len(), 0);
    let mut a = app();
    a.handle_action(Action::NewFolder);
    a.handle_action(Action::Char('x'));
    let (title, lines) = input_dialog(&a);
    assert_eq!(title, " New Folder (Enter to create, Esc to cancel) ");
    assert_eq!(text(&lines[0]), "Folder name: x\u{2588}");
    assert_eq!(text(&lines[1]), "Tip: name without path separator");
}

#[test]
fn pane_for_each_result() {
    assert!(matches!(pane_view(true, &None, 10, 10, None, ""), PaneView::Loading));
    assert!(matches!(pane_view(false, &None, 0, 10, None, ""), PaneView::Nothing));
    match pane_view(false, &None, 10, 10, None, "") {
        PaneView::Lines(ls) => assert_eq!(text(&ls[0]), "No preview yet."),
        other => panic!("unexpected {:?}", other),
    }
    let err = Some(PreviewResult::Error { msg: "boom".to_string(), fallback: None });
    match pane_view(false, &err, 10, 10, Some(("/w/a.txt".to_string(), 2048, "text/plain".to_string(), Some(1700000000))), "") {
        PaneView::Lines(ls) => {
            let t: Vec<String> = ls.iter().map(text).collect();
            assert_eq!(t, vec!["\u{26a0} boom", "", "File: /w/a.txt", "Size: 2.0 KB", "Modified: 2023-11-14 22:13:20 UTC", "MIME: text/plain"]);
        }
        other => panic!("unexpected {:?}", other),
    }
    let txt = Some(PreviewResult::Text {
        lines: vec![Line { spans: vec![] }, Line { spans: vec![] }, Line { spans: vec![] }],
        title: "t".to_string(),
        meta: meta(10, "text/plain"),
    });
    match pane_view(false, &txt, 10, 4, None, "") {
        PaneView::Lines(ls) => {
            assert_eq!(ls.len(), 4);
            assert_eq!(text(&ls[0]), " t  \u{2022} 10 B \u{2022} text/plain");
        }
        other => panic!("unexpected {:?}", other),
    }
    let dir = Some(PreviewResult::Directory { entries: vec![
        EntrySummary { name: "sub".to_string(), is_dir: true },
        EntrySummary { name: "f".to_string(), is_dir: false },
    ] });
    match pane_view(false, &dir, 10, 3, None, "") {
        PaneView::Unwrapped(ls) => {
            let t: Vec<String> = ls.iter().map(text).collect();
            assert_eq!(t, vec!["Directory \u{2022} 2 entries", "", "\u{1f4c1} sub"]);
        }
        other => panic!("unexpected {:?}", other),
    }
    let arch = Some(PreviewResult::Archive {
        entries: vec![ArchiveEntry { name: "x.bin".to_string(), size: 4096, compressed_size: 10 }],
        meta: meta(100, "application/zip"),
    });
    match pane_view(false, &arch, 10, 10, None, "") {
        PaneView::Lines(ls) => assert_eq!(text(&ls[2]), "  x.bin  4 KB"),
        other => panic!("unexpected {:?}", other),
    }
    let audio = Some(PreviewResult::Audio {
        meta: AudioMeta { title: Some("Song".to_string()), artist: None, duration: Duration::from_secs(125) },
        waveform: vec![1, 2, 3],
        duration: Duration::from_secs(125),
    });
    match pane_view(false, &audio, 10, 10, None, "_.-") {
        PaneView::Lines(ls) => {
            assert_eq!(text(&ls[0]), "\u{266a} Song \u{2014} Unknown \u{2022} 02:05 \u{2022} 3 bars");
            assert_eq!(text(&ls[3]), "_.-");
        }
        other => panic!("unexpected {:?}", other),
    }
}

#[test]
fn status_line_parts_and_colors() {
    let l = render_status_line(" left ", " right ");
    assert_eq!(l.spans.len(), 2);
    assert_eq!(l.spans[0].content, " left ");
    assert_eq!(l.spans[0].style.fg, Some(Color::White));
    assert_eq!(l.spans[0].style.bg, Some(Color::DarkGray));
    assert_eq!(l.spans[1].content, " right ");
    assert_eq!(l.spans[1].style.fg, Some(Color::Cyan));
    assert_eq!(l.spans[1].style.bg, Some(Color::DarkGray));
}

#[test]
fn modification_times_in_utc() {
    assert_eq!(format_mtime(Some(0)), "1970-01-01 00:00:00 UTC");
    assert_eq!(format_mtime(Some(951782400)), "2000-02-29 00:00:00 UTC");
    assert_eq!(format_mtime(Some(1709251199)), "2024-02-29 23:59:59 UTC");
    assert_eq!(format_mtime(Some(253402300799)), "9999-12-31 23:59:59 UTC");
    assert_eq!(format_mtime(Some(253402300800)), "253402300800 s after 1970-01-01 00:00:00 UTC");
    assert_eq!(format_mtime(None), "unknown");
}
