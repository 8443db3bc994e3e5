use tui_preview::app::start_location;
use tui_preview::event::{key_to_action, KeyCode, KeyEvent, KeyModifiers};
use tui_preview::app::{audio_step, AfterListing, App, AudioStep, Command, Mode};
use tui_preview::event::Action;
use tui_preview::fs::{list_dir, Entry};
use tui_preview::preview::office::xlsx_sheet_names;

fn file(dir: &str, name: &str) -> Entry {
    Entry { path: format!("{}/{}", dir, name), name: name.to_string(), is_dir: false, size: 1, is_symlink: false, symlink_target: None }
}

fn app_with(names: &[&str], show_hidden: bool) -> App {
    let raw: Vec<Entry> = names.iter().map(|n| file("/t", n)).collect();
    let files = list_dir(raw, show_hidden);
    App::new("/t".to_string(), files, show_hidden, None)
}

#[test]
fn test_navigation_bounds() {
    let mut app = app_with(&["a.txt", "b.txt", "c.txt"], false);
    assert_eq!(app.selected, 0);
    app.handle_action(Action::Down);
    assert_eq!(app.selected, 1);
    app.handle_action(Action::Down);
    assert_eq!(app.selected, 2);
    app.handle_action(Action::Down);
    assert_eq!(app.selected, 2);
    app.handle_action(Action::Up);
    assert_eq!(app.selected, 1);
    app.handle_action(Action::Top);
    assert_eq!(app.selected, 0);
    app.handle_action(Action::Bottom);
    assert_eq!(app.selected, 2);
}

#[test]
fn test_toggle_hidden() {
    let raw = vec![file("/t", "visible.txt"), file("/t", ".hidden.txt")];
    let mut app = App::new("/t".to_string(), list_dir(raw.clone(), false), false, None);
    assert_eq!(app.files.len(), 1);
    let cmd = app.handle_action(Action::ToggleHidden);
    match cmd {
        Command::List(after) => {
            let listing = list_dir(raw, app.show_hidden);
            let next = app.apply_listing(Some(listing), after);
            assert!(matches!(next, Command::Preview));
        }
        other => panic!("expected a listing, got {:?}", other),
    }
    assert_eq!(app.files.len(), 2);
}

#[test]
fn test_pagination_sheet_slide() {
    let mut app = app_with(&["a.txt"], false);
    assert_eq!(app.xlsx_sheet, 0);
    assert_eq!(app.pptx_slide, 0);
    match app.handle_action(Action::NextSheet) {
        Command::CountSheets { path } => {
            assert_eq!(path, "/t/a.txt");
            let total = xlsx_sheet_names(&path, b"x").len();
            app.apply_sheet_count(total);
        }
        other => panic!("expected a sheet count, got {:?}", other),
    }
    assert_eq!(app.xlsx_sheet, 0);
    app.pptx_slide = 1;
    app.handle_action(Action::PrevPage);
    assert_eq!(app.pptx_slide, 0);
}

#[test]
fn quit_and_help_and_search_modes() {
    let mut app = app_with(&["a.txt", "notes.md"], false);
    assert!(matches!(app.handle_action(Action::ToggleHelp), Command::Nothing));
    assert_eq!(app.mode, Mode::Help);
    app.handle_action(Action::Esc);
    assert_eq!(app.mode, Mode::Normal);
    app.handle_action(Action::Search);
    assert_eq!(app.mode, Mode::Search);
    app.handle_action(Action::Char('n'));
    app.handle_action(Action::Char('o'));
    assert_eq!(app.search.query, "no");
    assert_eq!(app.visible_indices(), vec![1]);
    assert!(matches!(app.handle_action(Action::Quit), Command::Nothing));
    assert_eq!(app.mode, Mode::Search);
    app.handle_action(Action::Esc);
    assert_eq!(app.mode, Mode::Normal);
    assert!(app.filtered.is_none());
    assert!(matches!(app.handle_action(Action::Quit), Command::Quit));
}

#[test]
fn new_app_selects_the_named_entry() {
    let raw = vec![file("/t", "a.txt"), file("/t", "b.txt"), file("/t", "c.txt")];
    let app = App::new("/t".to_string(), list_dir(raw, false), false, Some("b.txt"));
    assert_eq!(app.selected, 1);
    assert_eq!(app.selected_entry().unwrap().name, "b.txt");
    let app2 = App::new("/t".to_string(), Vec::new(), false, Some("zzz"));
    assert_eq!(app2.selected, 0);
    assert!(app2.selected_entry().is_none());
}

#[test]
fn select_name_after_listing() {
    let raw = vec![file("/t", "a.txt"), file("/t", "b.txt")];
    let mut app = App::new("/t".to_string(), list_dir(raw.clone(), false), false, None);
    app.apply_listing(Some(list_dir(raw, false)), AfterListing::SelectName("b.txt".to_string()));
    assert_eq!(app.selected, 1);
}

#[test]
fn play_pause_decisions() {
    assert!(matches!(audio_step(Some(true), None), AudioStep::Resume));
    assert!(matches!(audio_step(Some(false), Some("x.mp3".to_string())), AudioStep::Pause));
    match audio_step(None, Some("/m/Song.FLAC".to_string())) {
        AudioStep::Start(p) => assert_eq!(p, "/m/Song.FLAC"),
        other => panic!("expected Start, got {:?}", other),
    }
    assert!(matches!(audio_step(None, Some("notes.txt".to_string())), AudioStep::Nothing));
    assert!(matches!(audio_step(None, None), AudioStep::Nothing));
}

fn type_text(app: &mut App, text: &str) {
    for c in text.chars() {
        app.handle_action(Action::Char(c));
    }
}

#[test]
fn new_file_dialog_checks_the_name() {
    let mut app = app_with(&["a.txt"], false);
    app.handle_action(Action::NewFile);
    assert_eq!(app.mode, Mode::InputNewFile);
    type_text(&mut app, " \t ");
    assert!(matches!(app.handle_action(Action::Enter), Command::Nothing));
    assert_eq!(app.input_error.as_deref(), Some("Name cannot be empty"));
    app.handle_action(Action::Esc);
    assert_eq!(app.mode, Mode::Normal);
    assert!(app.input_buffer.is_empty());

    app.handle_action(Action::NewFolder);
    type_text(&mut app, "x/y");
    app.handle_action(Action::Enter);
    assert_eq!(app.input_error.as_deref(), Some("Name cannot contain path separator"));
    app.handle_action(Action::BackspaceChar);
    app.handle_action(Action::BackspaceChar);
    assert_eq!(app.input_buffer, "x");
    assert!(app.input_error.is_none());
}

#[test]
fn new_file_is_created_and_selected() {
    let mut app = app_with(&["a.txt"], false);
    app.handle_action(Action::NewFile);
    type_text(&mut app, "  notes.md ");
    let path = match app.handle_action(Action::Enter) {
        Command::Create { path, folder } => {
            assert!(!folder);
            assert_eq!(path, "/t/notes.md");
            path
        }
        other => panic!("expected a creation, got {:?}", other),
    };
    match app.apply_create(path.clone(), Err("denied".to_string())) {
        Command::Nothing => {}
        other => panic!("expected nothing, got {:?}", other),
    }
    assert_eq!(app.input_error.as_deref(), Some("Failed: denied"));
    assert_eq!(app.mode, Mode::InputNewFile);
    match app.apply_create(path.clone(), Ok(())) {
        Command::List(after) => {
            assert_eq!(app.mode, Mode::Normal);
            let listing = list_dir(vec![file("/t", "a.txt"), file("/t", "notes.md")], false);
            app.apply_listing(Some(listing), after);
            assert_eq!(app.selected_entry().map(|e| e.path.as_str()), Some("/t/notes.md"));
        }
        other => panic!("expected a listing, got {:?}", other),
    }
}

#[test]
fn refresh_keeps_the_selection_inside() {
    let mut app = app_with(&["a.txt", "b.txt", "c.txt"], false);
    app.handle_action(Action::Bottom);
    assert_eq!(app.selected, 2);
    app.refresh_files(list_dir(vec![file("/t", "a.txt"), file("/t", "b.txt")], false));
    assert_eq!(app.selected, 1);
    app.handle_action(Action::Search);
    type_text(&mut app, "b");
    app.refresh_files(list_dir(vec![file("/t", "ab.txt"), file("/t", "b.txt"), file("/t", "c.txt")], false));
    assert_eq!(app.filtered, Some(vec![0, 1]));
    app.stop_audio_if_playing();
    assert_eq!(app.files.len(), 3);
}

#[test]
fn enter_on_a_file_opens_full_screen() {
    let mut app = app_with(&["a.txt", "b.txt"], false);
    match app.handle_action(Action::Enter) {
        Command::CheckDirectory { path, entry_is_dir } => {
            assert!(!entry_is_dir);
            let next = app.apply_directory_check(path.clone(), entry_is_dir, false, path);
            assert!(matches!(next, Command::Nothing));
        }
        other => panic!("expected a check, got {:?}", other),
    }
    assert_eq!(app.mode, Mode::FullscreenPreview);
    assert!(app.fullscreen);
    assert!(matches!(app.handle_action(Action::Esc), Command::Nothing));
    assert_eq!(app.mode, Mode::Normal);
}

#[test]
fn paging_in_full_screen() {
    let mut app = app_with(&["deck.pptx"], false);
    app.handle_action(Action::ToggleFullscreen);
    match app.handle_action(Action::NextPage) {
        Command::CountSlides { path } => assert_eq!(path, "/t/deck.pptx"),
        other => panic!("expected a slide count, got {:?}", other),
    }
    assert_eq!(app.pptx_slide, 0);
    assert!(matches!(app.apply_slide_count(3), Command::Preview));
    assert_eq!(app.pptx_slide, 1);
    assert_eq!(app.mode, Mode::FullscreenPreview);
    assert!(matches!(app.handle_action(Action::PrevPage), Command::Preview));
    assert_eq!(app.pptx_slide, 0);
    match app.handle_action(Action::NextSheet) {
        Command::CountSheets { .. } => {}
        other => panic!("expected a sheet count, got {:?}", other),
    }
    assert_eq!(app.xlsx_sheet, 0);
    assert!(matches!(app.handle_action(Action::Char('x')), Command::Nothing));
    assert_eq!(app.mode, Mode::FullscreenPreview);
}

#[test]
fn backspace_goes_to_the_parent() {
    let a = key_to_action(KeyEvent { code: KeyCode::Backspace, modifiers: KeyModifiers::none() }).unwrap();
    assert_eq!(a, Action::Parent);
    let mut app = App::new("/t/sub".to_string(), vec![], false, None);
    match app.handle_action(a) {
        Command::List(AfterListing::SelectName(n)) => assert_eq!(n, "sub"),
        other => panic!("expected a listing, got {:?}", other),
    }
    assert_eq!(app.current_dir, "/t");
}

#[test]
fn start_location_for_command_line_paths() {
    assert_eq!(start_location("/d/report.pdf", true, false, true), ("/d".to_string(), Some("report.pdf".to_string())));
    assert_eq!(start_location("report.pdf", true, false, false), (".".to_string(), Some("report.pdf".to_string())));
    assert_eq!(start_location("./report.pdf", true, false, true), (".".to_string(), Some("report.pdf".to_string())));
    assert_eq!(start_location("/d/sub", false, true, true), ("/d/sub".to_string(), None));
    assert_eq!(start_location("/d/missing", false, false, true), ("/d".to_string(), None));
    assert_eq!(start_location("/nowhere/missing", false, false, false), (".".to_string(), None));
}

#[test]
fn search_rows_move_with_the_arrows() {
    let mut app = app_with(&["ab.txt", "b.txt", "c.txt"], false);
    app.handle_action(Action::Search);
    type_text(&mut app, "b");
    assert_eq!(app.selected, 0);
    assert!(matches!(app.handle_action(Action::Down), Command::Preview));
    assert_eq!(app.selected, 1);
    assert!(matches!(app.handle_action(Action::Down), Command::Nothing));
    assert_eq!(app.selected, 1);
    assert!(matches!(app.handle_action(Action::Up), Command::Preview));
    assert_eq!(app.selected, 0);
}
