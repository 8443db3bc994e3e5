//! The browser's state and how each action changes it.
//!
//! The state machine decides; the caller performs what it asks for (listing
//! a directory, checking a path, counting slides or sheets, creating a file,
//! opening a file externally, audio, starting a preview) and reports back
//! through the `apply_*` methods.
use vstd::prelude::*;
use crate::event::{key_action, key_to_action, Action, KeyCode, KeyEvent};
use crate::fs::Entry;
use crate::preview::PreviewResult;
use crate::preview::office::{ext_is_sheet, ext_is_slides, is_sheet_ext, is_slides_ext};
use crate::ui::search::{filter_files, filter_spec, all_indices, SearchState};
use crate::textfmt::{
    opt_string_view,
    contains_seq, file_name_of, join_path, lower_extension, lower_extension_of, parent_of, path_file_name,
    path_join, path_parent, push_char, str_contains, str_eq, str_has_char, trim_text, trimmed,
};

verus! {

/// What the browser is doing.
#[derive(Debug, Clone, Copy, PartialEq, Eq, Structural)]
pub enum Mode {
    Normal,
    Search,
    Help,
    FullscreenPreview,
    InputNewFile,
    InputNewFolder,
}

/// What to do once a fresh listing of the current directory is applied.
#[derive(Debug)]
pub enum AfterListing {
    /// Preview the selection.
    Preview,
    /// Select the entry with this path (when listed), then preview.
    SelectPath(String),
    /// Select the visible entry with this name (else the first), then
    /// preview.
    SelectName(String),
}

/// What the caller is asked to do after an action.
#[derive(Debug)]
pub enum Command {
    /// Nothing more.
    Nothing,
    /// Leave the program.
    Quit,
    /// Preview the selected entry.
    Preview,
    /// List the current directory (with the hidden and format settings),
    /// then call `apply_listing` with the entries, or `None` when it cannot
    /// be read.
    List(AfterListing),
    /// Find out whether `path` is a directory and canonicalize it, then call
    /// `apply_directory_check`.
    CheckDirectory { path: String, entry_is_dir: bool },
    /// Count the slides of `path`, then call `apply_slide_count`.
    CountSlides { path: String },
    /// Count the sheets of `path`, then call `apply_sheet_count`.
    CountSheets { path: String },
    /// Create a file (or a folder) at `path`, then call `apply_create`.
    Create { path: String, folder: bool },
    /// Open `path` with the system's application.
    OpenExternal { path: String },
    /// Pause or resume playback; when nothing plays, start playing `path`
    /// (the selected file, if any) when it is audio.
    ToggleAudio { path: Option<String> },
    /// Stop playback.
    StopAudio,
}

/// What the player does when play/pause is pressed.
#[derive(Debug)]
pub enum AudioStep {
    /// Pause the sound that plays.
    Pause,
    /// Resume the paused sound.
    Resume,
    /// Start playing this file.
    Start(String),
    /// Nothing.
    Nothing,
}

/// The extensions of the files that can be played.
pub open spec fn is_playable_ext(ext: Seq<char>) -> bool {
    ext == "mp3"@ || ext == "flac"@ || ext == "wav"@ || ext == "ogg"@ || ext == "m4a"@ || ext == "aac"@ || ext == "opus"@
}

/// The audio files that play: those whose lower-cased extension is mp3,
/// flac, wav, ogg, m4a, aac or opus, and no others.
pub proof fn lemma_playable_files(ext: Seq<char>)
    ensures
        is_playable_ext(ext) <==> (ext == "mp3"@ || ext == "flac"@ || ext == "wav"@ || ext == "ogg"@
            || ext == "m4a"@ || ext == "aac"@ || ext == "opus"@),
{
}

/// Play/pause: with a player loaded (`paused`: whether it is paused) the
/// sound is paused or resumed; otherwise the selected file, when it is
/// audio by its extension, starts playing.
pub fn audio_step(paused: Option<bool>, path: Option<String>) -> (res: AudioStep)
    ensures
        match paused {
            Some(true) => res is Resume,
            Some(false) => res is Pause,
            None => match path {
                Some(p) => if is_playable_ext(lower_extension(p@)) {
                    res matches AudioStep::Start(q) && q@ == p@
                } else {
                    res is Nothing
                },
                None => res is Nothing,
            },
        },
        paused is None ==> match path {
            Some(p) => (lower_extension(p@) == "mp3"@ || lower_extension(p@) == "flac"@ || lower_extension(p@) == "wav"@
                || lower_extension(p@) == "ogg"@ || lower_extension(p@) == "m4a"@ || lower_extension(p@) == "aac"@
                || lower_extension(p@) == "opus"@) <==> (res matches AudioStep::Start(q) && q@ == p@),
            None => res is Nothing,
        },
{
    match paused {
        Some(true) => AudioStep::Resume,
        Some(false) => AudioStep::Pause,
        None => match path {
            None => AudioStep::Nothing,
            Some(p) => {
                let ext = lower_extension_of(p.as_str());
                let e = ext.as_str();
                if str_eq(e, "mp3") || str_eq(e, "flac") || str_eq(e, "wav") || str_eq(e, "ogg") || str_eq(e, "m4a")
                    || str_eq(e, "aac") || str_eq(e, "opus") {
                    AudioStep::Start(p)
                } else {
                    AudioStep::Nothing
                }
            }
        },
    }
}

/// How a preview is produced.
#[derive(Debug, Clone, Copy, PartialEq, Eq, Structural)]
pub enum JobRoute {
    /// A spreadsheet, at the selected sheet.
    Sheet,
    /// A presentation, at the selected slide.
    Slides,
    /// Through the router.
    General,
}

/// A preview to produce.
#[derive(Debug)]
pub struct PreviewJob {
    pub path: String,
    pub forced: bool,
    pub xlsx_sheet: usize,
    pub pptx_slide: usize,
    pub route: JobRoute,
}

/// The browser's state.
pub struct App {
    pub files: Vec<Entry>,
    pub selected: usize,
    pub mode: Mode,
    pub dirty: bool,
    pub current_dir: String,
    pub show_hidden: bool,
    pub preview: Option<PreviewResult>,
    pub preview_loading: bool,
    pub search: SearchState,
    pub filtered: Option<Vec<usize>>,
    pub fullscreen: bool,
    pub forced: Vec<String>,
    pub xlsx_sheet: usize,
    pub pptx_slide: usize,
    pub pdf_page: usize,
    pub input_buffer: String,
    pub input_error: Option<String>,
    pub filter_formats_only: bool,
}

/// The positions of the visible files: the search matches while filtering,
/// every file otherwise.
pub open spec fn visible_spec(app: App) -> Seq<usize> {
    match app.filtered {
        Some(f) => f@,
        None => all_indices(app.files@.len()),
    }
}

/// The entry that the selection designates: the visible file at the
/// selected row, the first visible file when the row is past the end, and
/// none when nothing is visible.
pub open spec fn selected_spec(app: App) -> Option<Entry> {
    let vis = visible_spec(app);
    if vis.len() == 0 {
        None
    } else {
        let idx = if app.selected < vis.len() { vis[app.selected as int] } else { 0 };
        if idx < app.files@.len() { Some(app.files@[idx as int]) } else { None }
    }
}

/// The row counters can be stepped without overflow.
pub open spec fn counters_bounded(app: App) -> bool {
    &&& app.selected < usize::MAX
    &&& app.pdf_page < usize::MAX
    &&& app.pptx_slide < usize::MAX
    &&& app.xlsx_sheet < usize::MAX
}

/// The pages shown of a document: sheet, slide and PDF page.
pub open spec fn pages_kept(a: App, b: App) -> bool {
    &&& b.xlsx_sheet == a.xlsx_sheet
    &&& b.pptx_slide == a.pptx_slide
    &&& b.pdf_page == a.pdf_page
}

/// The paging keys: next and previous page or sheet.
pub open spec fn is_paging(action: Action) -> bool {
    action == Action::NextPage || action == Action::PrevPage || action == Action::NextSheet || action == Action::PrevSheet
}

/// The actions that may change the page counters in a mode: moving the
/// selection while browsing, and stepping back a page or a sheet or
/// forward a PDF page while browsing or in full screen.
pub open spec fn moves_pages(mode: Mode, action: Action) -> bool {
    ||| mode == Mode::Normal && (action == Action::Up || action == Action::Down || action == Action::Top || action == Action::Bottom)
    ||| (mode == Mode::Normal || mode == Mode::FullscreenPreview)
        && (action == Action::PrevSheet || action == Action::PrevPage || action == Action::NextPage)
}

/// The actions that leave the program: q and Esc while browsing, q in full
/// screen.
pub open spec fn quits(mode: Mode, action: Action) -> bool {
    ||| mode == Mode::Normal && (action == Action::Quit || action == Action::Esc)
    ||| mode == Mode::FullscreenPreview && action == Action::Quit
}

/// The actions that may change the name being typed: any in a name dialog,
/// and opening one.
pub open spec fn touches_input(mode: Mode, action: Action) -> bool {
    ||| mode == Mode::InputNewFile || mode == Mode::InputNewFolder
    ||| mode == Mode::Normal && (action == Action::NewFile || action == Action::NewFolder)
}

/// The actions that may change the search: any while searching, and
/// starting one.
pub open spec fn touches_search(mode: Mode, action: Action) -> bool {
    mode == Mode::Search || (mode == Mode::Normal && action == Action::Search)
}

/// The actions that may move the selected row.
pub open spec fn moves_selection(mode: Mode, action: Action) -> bool {
    ||| mode == Mode::Search
    ||| mode == Mode::Normal && (action == Action::Up || action == Action::Down || action == Action::Top
        || action == Action::Bottom || action == Action::Search)
}

/// What an action leaves alone: the listing, the preview and the forced
/// paths always; the other parts of the state unless the action is one
/// that changes them.
pub open spec fn action_frame(a: App, b: App, action: Action) -> bool {
    &&& b.files == a.files
    &&& b.preview == a.preview
    &&& b.preview_loading == a.preview_loading
    &&& b.forced == a.forced
    &&& (!moves_pages(a.mode, action) ==> pages_kept(a, b))
    &&& (!(a.mode == Mode::Normal && action == Action::ToggleHidden) ==> b.show_hidden == a.show_hidden)
    &&& (!(a.mode == Mode::Normal && action == Action::ToggleFormatFilter) ==> b.filter_formats_only == a.filter_formats_only)
    &&& (!(a.mode == Mode::Normal && action == Action::Parent) ==> b.current_dir == a.current_dir)
    &&& (!touches_input(a.mode, action) ==> b.input_buffer == a.input_buffer && b.input_error == a.input_error)
    &&& (!touches_search(a.mode, action) ==> b.search == a.search && b.filtered == a.filtered)
    &&& (!moves_selection(a.mode, action) ==> b.selected == a.selected)
}

/// What a paging key does: Tab asks for the sheets to be counted, Shift+Tab
/// steps back a sheet, p steps back a slide and a PDF page, n asks for the
/// slides of a presentation to be counted or steps to the next PDF page. The
/// pages not named are kept.
pub open spec fn paging_outcome(a: App, b: App, action: Action, cmd: Command) -> bool {
    &&& (action == Action::PrevSheet ==> b.pptx_slide == a.pptx_slide && b.pdf_page == a.pdf_page
        && if a.xlsx_sheet > 0 {
            b.xlsx_sheet == a.xlsx_sheet - 1 && cmd is Preview
        } else {
            b.xlsx_sheet == 0 && cmd is Nothing
        })
    &&& (action == Action::PrevPage ==> {
        &&& b.xlsx_sheet == a.xlsx_sheet
        &&& b.pptx_slide == if a.pptx_slide > 0 { (a.pptx_slide - 1) as usize } else { 0 }
        &&& b.pdf_page == if a.pdf_page > 0 { (a.pdf_page - 1) as usize } else { 0 }
        &&& (a.pptx_slide > 0 || a.pdf_page > 0 ==> cmd is Preview)
        &&& (a.pptx_slide == 0 && a.pdf_page == 0 ==> cmd is Nothing)
    })
    &&& (action == Action::NextSheet ==> pages_kept(a, b))
    &&& (action == Action::NextSheet ==> match selected_spec(a) {
        Some(e) => cmd matches Command::CountSheets { path } && path@ == e.path@,
        None => cmd is Nothing,
    })
    &&& (action == Action::NextPage ==> match selected_spec(a) {
        Some(e) => {
            let ext = lower_extension(e.path@);
            if is_slides_ext(ext) {
                pages_kept(a, b) && (cmd matches Command::CountSlides { path } && path@ == e.path@)
            } else if ext == "pdf"@ {
                b.pdf_page == a.pdf_page + 1 && b.xlsx_sheet == a.xlsx_sheet && b.pptx_slide == a.pptx_slide && cmd is Preview
            } else {
                pages_kept(a, b) && cmd is Nothing
            }
        },
        None => pages_kept(a, b) && cmd is Nothing,
    })
}

/// The paging keys: `n` on a selected PDF goes to its next page, on a
/// selected presentation (pptx or ppt) asks for its slides to be counted;
/// `p` goes back a slide and a PDF page (not below the first); Tab asks for
/// the selected workbook's sheets to be counted and Shift+Tab goes back a
/// sheet (not below the first).
pub proof fn lemma_paging_keys(a: App, b: App, action: Action, cmd: Command)
    requires
        paging_outcome(a, b, action, cmd),
    ensures
        action == Action::NextPage && selected_spec(a) is Some && lower_extension(selected_spec(a)->0.path@) == "pdf"@
            ==> b.pdf_page == a.pdf_page + 1 && cmd is Preview,
        action == Action::NextPage && selected_spec(a) is Some
            && (lower_extension(selected_spec(a)->0.path@) == "pptx"@ || lower_extension(selected_spec(a)->0.path@) == "ppt"@)
            ==> (cmd matches Command::CountSlides { path } && path@ == selected_spec(a)->0.path@) && b.pptx_slide == a.pptx_slide,
        action == Action::PrevPage ==> b.pdf_page == (if a.pdf_page > 0 { a.pdf_page - 1 } else { 0 })
            && b.pptx_slide == (if a.pptx_slide > 0 { a.pptx_slide - 1 } else { 0 }),
        action == Action::NextSheet && selected_spec(a) is Some
            ==> (cmd matches Command::CountSheets { path } && path@ == selected_spec(a)->0.path@) && b.xlsx_sheet == a.xlsx_sheet,
        action == Action::PrevSheet ==> b.xlsx_sheet == (if a.xlsx_sheet > 0 { a.xlsx_sheet - 1 } else { 0 }),
{
    reveal_strlit("pdf");
    reveal_strlit("pptx");
    reveal_strlit("ppt");
    assert("pdf"@ != "pptx"@ && "pdf"@ != "ppt"@) by {
        assert("pdf"@[1] == 'd' && "pptx"@[1] == 'p' && "ppt"@[1] == 'p');
    }
}

/// What Enter asks for while searching: to check the file at the selected
/// row, when the row designates one; nothing otherwise.
pub open spec fn search_enter_command(a: App, cmd: Command) -> bool {
    let vis = visible_spec(a);
    if a.selected < vis.len() && vis[a.selected as int] < a.files@.len() {
        let e = a.files@[vis[a.selected as int] as int];
        cmd matches Command::CheckDirectory { path, entry_is_dir } && path@ == e.path@ && entry_is_dir == e.is_dir
    } else {
        cmd is Nothing
    }
}

/// Every visible position designates a listed file (the search matches
/// are positions in the listing).
pub open spec fn wf(app: App) -> bool {
    match app.filtered {
        Some(f) => forall|k: int| 0 <= k < f@.len() ==> #[trigger] f@[k] < app.files@.len(),
        None => true,
    }
}

/// In a well-formed state every visible row designates a listed file.
pub proof fn lemma_wf_visible_rows_valid(app: App, k: int)
    requires
        wf(app),
        0 <= k < visible_spec(app).len(),
    ensures
        visible_spec(app)[k] < app.files@.len(),
{
}

/// The page counters are back at the first sheet, slide and page.
pub open spec fn pages_reset(app: App) -> bool {
    app.xlsx_sheet == 0 && app.pptx_slide == 0 && app.pdf_page == 0
}

/// The message shown for a "too large" preview mentions it.
pub open spec fn is_too_large_preview(p: Option<PreviewResult>) -> bool {
    match p {
        Some(PreviewResult::Error { msg, .. }) => contains_seq(msg@, "too large"@) || contains_seq(msg@, "TooLarge"@),
        _ => false,
    }
}

/// The first row of `vis` that designates a file named `n`.
fn first_named(vis: &Vec<usize>, files: &Vec<Entry>, n: &str) -> (res: Option<usize>)
    ensures
        match res {
            Some(k) => k < vis@.len() && vis@[k as int] < files@.len() && files@[vis@[k as int] as int].name@ == n@
                && forall|j: int| 0 <= j < k ==> !(vis@[j] < files@.len() && files@[vis@[j] as int].name@ == n@),
            None => forall|j: int| 0 <= j < vis@.len() ==> !(vis@[j] < files@.len() && files@[vis@[j] as int].name@ == n@),
        },
{
    let mut k: usize = 0;
    while k < vis.len()
        invariant
            0 <= k <= vis@.len(),
            forall|j: int| 0 <= j < k ==> !(vis@[j] < files@.len() && files@[vis@[j] as int].name@ == n@),
        decreases vis.len() - k,
    {
        let i = vis[k];
        if i < files.len() && str_eq(files[i].name.as_str(), n) {
            return Some(k);
        }
        k = k + 1;
    }
    None
}

/// The first row of `vis` holding `idx`.
fn position_in(vis: &Vec<usize>, idx: usize) -> (res: Option<usize>)
    ensures
        match res {
            Some(k) => k < vis@.len() && vis@[k as int] == idx && forall|j: int| 0 <= j < k ==> vis@[j] != idx,
            None => !vis@.contains(idx),
        },
{
    let mut k: usize = 0;
    while k < vis.len()
        invariant
            0 <= k <= vis@.len(),
            forall|j: int| 0 <= j < k ==> vis@[j] != idx,
        decreases vis.len() - k,
    {
        if vis[k] == idx {
            return Some(k);
        }
        k = k + 1;
    }
    None
}

/// The first position of a file named `n`.
fn position_of_name(files: &Vec<Entry>, n: &str) -> (res: Option<usize>)
    ensures
        match res {
            Some(i) => i < files@.len() && files@[i as int].name@ == n@
                && forall|j: int| 0 <= j < i ==> files@[j].name@ != n@,
            None => forall|j: int| 0 <= j < files@.len() ==> files@[j].name@ != n@,
        },
{
    let mut i: usize = 0;
    while i < files.len()
        invariant
            0 <= i <= files@.len(),
            forall|j: int| 0 <= j < i ==> files@[j].name@ != n@,
        decreases files.len() - i,
    {
        if str_eq(files[i].name.as_str(), n) {
            return Some(i);
        }
        i = i + 1;
    }
    None
}

/// A path's parent as the start directory uses it: none when it has no
/// parent or the parent is empty (a bare file name).
pub open spec fn usable_parent(path: Seq<char>) -> Option<Seq<char>> {
    match path_parent(path) {
        Some(p) => if p.len() == 0 { None } else { Some(p) },
        None => None,
    }
}

/// Where browsing starts for a path given on the command line, and which
/// entry is selected: a file's directory ("." for a bare name) with the
/// file selected; a directory itself; otherwise the path's parent when it
/// is a directory (`parent_is_dir`), else ".".
pub open spec fn start_location_spec(path: Seq<char>, is_file: bool, is_dir: bool, parent_is_dir: bool)
    -> (Seq<char>, Option<Seq<char>>)
{
    if is_file {
        (match usable_parent(path) { Some(p) => p, None => "."@ }, path_file_name(path))
    } else if is_dir {
        (path, None)
    } else {
        (match usable_parent(path) { Some(p) => if parent_is_dir { p } else { "."@ }, None => "."@ }, None)
    }
}

/// The start directory and the entry to select for a path given on the
/// command line; the caller says whether the path is a file, a directory,
/// and whether its parent (`Path::parent`) is a directory.
pub fn start_location(path: &str, is_file: bool, is_dir: bool, parent_is_dir: bool) -> (res: (String, Option<String>))
    ensures
        res.0@ == start_location_spec(path@, is_file, is_dir, parent_is_dir).0,
        opt_string_view(res.1) == start_location_spec(path@, is_file, is_dir, parent_is_dir).1,
{
    let parent = match parent_of(path) {
        Some(p) => if p.unicode_len() == 0 { None } else { Some(p) },
        None => None,
    };
    if is_file {
        let dir = match parent { Some(p) => p, None => String::from_str(".") };
        (dir, file_name_of(path))
    } else if is_dir {
        (String::from_str(path), None)
    } else {
        let dir = match parent {
            Some(p) => if parent_is_dir { p } else { String::from_str(".") },
            None => String::from_str("."),
        };
        (dir, None)
    }
}

impl App {
    /// A browser on `current_dir` listing `files`, with the entry named
    /// `select_name` selected when it is listed (the first otherwise).
    pub fn new(current_dir: String, files: Vec<Entry>, show_hidden: bool, select_name: Option<&str>) -> (res: Self)
        ensures
            res.files@ == files@,
            res.current_dir@ == current_dir@,
            res.show_hidden == show_hidden,
            res.mode == Mode::Normal,
            res.dirty,
            res.filtered is None,
            res.preview is None,
            !res.preview_loading,
            !res.search.active,
            !res.fullscreen,
            pages_reset(res),
            res.filter_formats_only,
            res.forced@.len() == 0,
            res.input_buffer@.len() == 0,
            res.input_error is None,
            match select_name {
                Some(n) => (exists|i: int| 0 <= i < files@.len() && files@[i].name@ == n@) ==> {
                    &&& res.selected < files@.len()
                    &&& files@[res.selected as int].name@ == n@
                    &&& forall|j: int| 0 <= j < res.selected ==> files@[j].name@ != n@
                },
                None => true,
            },
            select_name is None || !(exists|i: int| 0 <= i < files@.len() && files@[i].name@ == select_name->0@) ==> res.selected == 0,
            wf(res),
    {
        let selected: usize = match select_name {
            Some(n) => match position_of_name(&files, n) {
                Some(i) => i,
                None => 0,
            },
            None => 0,
        };
        let app = App {
            files,
            selected,
            mode: Mode::Normal,
            dirty: true,
            current_dir,
            show_hidden,
            preview: None,
            preview_loading: false,
            search: SearchState::new(),
            filtered: None,
            fullscreen: false,
            forced: Vec::new(),
            xlsx_sheet: 0,
            pptx_slide: 0,
            pdf_page: 0,
            input_buffer: String::new(),
            input_error: None,
            filter_formats_only: true,
        };
        app
    }

    /// The positions of the visible files.
    pub fn visible_indices(&self) -> (res: Vec<usize>)
        ensures
            res@ == visible_spec(*self),
    {
        match &self.filtered {
            Some(f) => f.clone(),
            None => {
                let n = self.files.len();
                let mut out: Vec<usize> = Vec::new();
                let mut i: usize = 0;
                while i < n
                    invariant
                        n == self.files@.len(),
                        0 <= i <= n,
                        out@ == all_indices(i as nat),
                    decreases n - i,
                {
                    out.push(i);
                    i = i + 1;
                    assert(out@ =~= all_indices(i as nat));
                }
                out
            }
        }
    }

    /// The number of visible files.
    pub fn visible_len(&self) -> (res: usize)
        ensures
            res == visible_spec(*self).len(),
    {
        match &self.filtered {
            Some(f) => f.len(),
            None => self.files.len(),
        }
    }

    /// The selected entry, if any.
    pub fn selected_entry(&self) -> (res: Option<&Entry>)
        ensures
            match res {
                Some(e) => selected_spec(*self) == Some(*e),
                None => selected_spec(*self) is None,
            },
    {
        let vis = self.visible_indices();
        if vis.len() == 0 {
            return None;
        }
        let idx = if self.selected < vis.len() { vis[self.selected] } else { 0 };
        if idx < self.files.len() { Some(&self.files[idx]) } else { None }
    }

    /// Whether the counters can be stepped (every action may be handled).
    pub fn can_step(&self) -> (res: bool)
        ensures
            res == counters_bounded(*self),
    {
        self.selected < usize::MAX && self.pdf_page < usize::MAX && self.pptx_slide < usize::MAX
            && self.xlsx_sheet < usize::MAX
    }

    fn reset_pages(&mut self)
        ensures
            pages_reset(*final(self)),
            *final(self) == (App { xlsx_sheet: 0, pptx_slide: 0, pdf_page: 0, ..*old(self) }),
    {
        self.xlsx_sheet = 0;
        self.pptx_slide = 0;
        self.pdf_page = 0;
    }

    /// Re-filters after the search text changed and selects the first row.
    fn refilter(&mut self)
        ensures
            final(self).filtered matches Some(f) && f@ == filter_spec(old(self).files@, old(self).search.query@),
            final(self).selected == 0,
            *final(self) == (App { filtered: final(self).filtered, selected: 0, ..*old(self) }),
            wf(*final(self)),
    {
        let f = filter_files(self.files.as_slice(), self.search.query.as_str());
        self.filtered = Some(f);
        self.selected = 0;
    }

    /// Applies a fresh listing of the current directory: the files are
    /// replaced, the search filter is recomputed while searching, and the
    /// selection is moved back inside the visible rows.
    pub fn refresh_files(&mut self, files: Vec<Entry>)
        ensures
            final(self).files@ == files@,
            final(self).search == old(self).search,
            old(self).search.active && old(self).search.query@.len() > 0 ==>
                (final(self).filtered matches Some(f) && f@ == filter_spec(files@, old(self).search.query@)),
            old(self).search.active && old(self).search.query@.len() == 0 ==>
                (final(self).filtered matches Some(f) && f@ == all_indices(files@.len())),
            !old(self).search.active ==> final(self).filtered is None,
            old(self).selected < visible_spec(*final(self)).len() ==> final(self).selected == old(self).selected,
            old(self).selected >= visible_spec(*final(self)).len() ==>
                final(self).selected == if visible_spec(*final(self)).len() == 0 { 0 } else { (visible_spec(*final(self)).len() - 1) as usize },
            final(self).mode == old(self).mode,
            final(self).current_dir == old(self).current_dir,
            *final(self) == (App { files: final(self).files, filtered: final(self).filtered, selected: final(self).selected, ..*old(self) }),
            wf(*final(self)),
    {
        self.files = files;
        if self.search.active && self.search.query.unicode_len() > 0 {
            let f = filter_files(self.files.as_slice(), self.search.query.as_str());
            self.filtered = Some(f);
        } else if self.search.active {
            let n = self.files.len();
            let mut all: Vec<usize> = Vec::new();
            let mut i: usize = 0;
            while i < n
                invariant
                    n == self.files@.len(),
                    0 <= i <= n,
                    all@ == all_indices(i as nat),
                decreases n - i,
            {
                all.push(i);
                i = i + 1;
                assert(all@ =~= all_indices(i as nat));
            }
            self.filtered = Some(all);
        } else {
            self.filtered = None;
        }
        let len = self.visible_len();
        if self.selected >= len {
            self.selected = if len == 0 { 0 } else { len - 1 };
        }
    }

    /// Playback is not stopped when the selection moves: nothing changes.
    pub fn stop_audio_if_playing(&mut self)
        ensures
            *final(self) == *old(self),
    {
    }

    /// Handles one action and says what the caller must do next.
    pub fn handle_action(&mut self, action: Action) -> (cmd: Command)
        requires
            counters_bounded(*old(self)),
        ensures
            wf(*old(self)) ==> wf(*final(self)),
            final(self).files == old(self).files,
            action_frame(*old(self), *final(self), action),
            // Only q and Esc while browsing, and q in full screen, leave.
            (cmd is Quit) == quits(old(self).mode, action),
            // Help: any key closes it.
            old(self).mode == Mode::Help ==> final(self).mode == Mode::Normal && !final(self).fullscreen
                && final(self).dirty && cmd is Nothing,
            // Full-screen preview: Esc, f and q leave it; q also quits.
            old(self).mode == Mode::FullscreenPreview ==> {
                if action == Action::Esc || action == Action::ToggleFullscreen || action == Action::Quit {
                    &&& final(self).mode == Mode::Normal
                    &&& !final(self).fullscreen
                    &&& (action == Action::Quit ==> cmd is Quit)
                    &&& (action != Action::Quit ==> cmd is Nothing)
                } else if is_paging(action) {
                    &&& paging_outcome(*old(self), *final(self), action, cmd)
                    &&& final(self).mode == old(self).mode
                    &&& final(self).fullscreen == old(self).fullscreen
                } else {
                    cmd is Nothing && final(self).mode == old(self).mode
                }
            },
            // Typing a new name.
            (old(self).mode == Mode::InputNewFile || old(self).mode == Mode::InputNewFolder) ==> {
                &&& (action != Action::Esc ==> final(self).mode == old(self).mode)
                &&& (!(action == Action::Esc || action == Action::BackspaceChar || action matches Action::Char(_) || action == Action::Enter)
                    ==> cmd is Nothing && final(self).input_buffer == old(self).input_buffer)
                &&& (action == Action::Esc ==> final(self).mode == Mode::Normal
                    && final(self).input_buffer@.len() == 0 && final(self).input_error is None && cmd is Nothing)
                &&& (action matches Action::Char(c) ==> final(self).input_buffer@ == old(self).input_buffer@.push(c)
                    && final(self).input_error is None && cmd is Nothing)
                &&& (action == Action::BackspaceChar ==> final(self).input_error is None && cmd is Nothing
                    && final(self).input_buffer@ == if old(self).input_buffer@.len() == 0 { old(self).input_buffer@ } else { old(self).input_buffer@.drop_last() })
                &&& (action == Action::Enter ==> {
                    let name = trimmed(old(self).input_buffer@);
                    if name.len() == 0 {
                        final(self).input_error matches Some(m) && m@ == "Name cannot be empty"@ && cmd is Nothing
                    } else if name.contains('/') || name.contains('\\') {
                        final(self).input_error matches Some(m) && m@ == "Name cannot contain path separator"@ && cmd is Nothing
                    } else {
                        cmd matches Command::Create { path, folder } && path@ == path_join(old(self).current_dir@, name)
                            && folder == (old(self).mode == Mode::InputNewFolder)
                            && final(self).mode == old(self).mode
                    }
                })
            },
            // Searching.
            old(self).mode == Mode::Search ==> {
                &&& (action != Action::Esc ==> final(self).mode == Mode::Search)
                &&& (action == Action::Enter ==> search_enter_command(*old(self), cmd))
                &&& (!(action == Action::Esc || action == Action::BackspaceChar || action matches Action::Char(_)
                    || action == Action::Enter || action == Action::Up || action == Action::Down) ==> cmd is Nothing)
                &&& (action == Action::Esc ==> final(self).mode == Mode::Normal && !final(self).search.active
                    && final(self).search.query@.len() == 0 && final(self).filtered is None && final(self).selected == 0 && cmd is Nothing)
                &&& (action matches Action::Char(c) ==> final(self).search.query@ == old(self).search.query@.push(c)
                    && (final(self).filtered matches Some(f) && f@ == filter_spec(final(self).files@, final(self).search.query@))
                    && final(self).selected == 0 && cmd is Nothing)
                &&& (action == Action::BackspaceChar ==> (final(self).filtered matches Some(f) && f@ == filter_spec(final(self).files@, final(self).search.query@))
                    && final(self).selected == 0 && cmd is Nothing)
                &&& (action == Action::Up ==> if old(self).selected > 0 {
                        final(self).selected == old(self).selected - 1 && cmd is Preview
                    } else {
                        final(self).selected == old(self).selected && cmd is Nothing
                    })
                &&& (action == Action::Down ==> {
                    let len = visible_spec(*old(self)).len();
                    if old(self).selected + 1 < len {
                        final(self).selected == old(self).selected + 1 && cmd is Preview
                    } else {
                        final(self).selected == old(self).selected && cmd is Nothing
                    }
                })
            },
            // Browsing.
            old(self).mode == Mode::Normal ==> {
                &&& (action == Action::Quit || action == Action::Esc ==> cmd is Quit)
                &&& (action == Action::Up ==> if old(self).selected > 0 {
                        final(self).selected == old(self).selected - 1 && pages_reset(*final(self)) && cmd is Preview
                    } else {
                        final(self).selected == old(self).selected && cmd is Nothing
                    })
                &&& (action == Action::Down ==> {
                    let len = visible_spec(*old(self)).len();
                    if len > 0 && old(self).selected + 1 < len {
                        final(self).selected == old(self).selected + 1 && pages_reset(*final(self)) && cmd is Preview
                    } else {
                        final(self).selected == old(self).selected && cmd is Nothing
                    }
                })
                &&& (action == Action::Top ==> final(self).selected == 0 && pages_reset(*final(self)) && cmd is Preview)
                &&& (action == Action::Bottom ==> {
                    let len = visible_spec(*old(self)).len();
                    if len > 0 {
                        final(self).selected == len - 1 && pages_reset(*final(self)) && cmd is Preview
                    } else {
                        final(self).selected == old(self).selected && cmd is Nothing
                    }
                })
                &&& (action == Action::ToggleHidden ==> final(self).show_hidden == !old(self).show_hidden
                    && cmd matches Command::List(AfterListing::Preview))
                &&& (action == Action::ToggleFormatFilter ==> final(self).filter_formats_only == !old(self).filter_formats_only
                    && cmd matches Command::List(AfterListing::Preview))
                &&& (action == Action::ToggleHelp ==> final(self).mode == Mode::Help && cmd is Nothing)
                &&& (action == Action::Search ==> final(self).mode == Mode::Search && final(self).search.active
                    && final(self).search.query@.len() == 0 && final(self).selected == 0
                    && (final(self).filtered matches Some(f) && f@ == all_indices(old(self).files@.len())) && cmd is Nothing)
                &&& (action == Action::ToggleFullscreen ==> final(self).mode == Mode::FullscreenPreview && final(self).fullscreen
                    && cmd is Nothing)
                &&& (action == Action::NewFile ==> final(self).mode == Mode::InputNewFile && final(self).input_buffer@.len() == 0
                    && final(self).input_error is None && cmd is Nothing)
                &&& (action == Action::NewFolder ==> final(self).mode == Mode::InputNewFolder && final(self).input_buffer@.len() == 0
                    && final(self).input_error is None && cmd is Nothing)
                &&& (is_paging(action) ==> paging_outcome(*old(self), *final(self), action, cmd))
                &&& (!(action == Action::ToggleHelp || action == Action::Search || action == Action::ToggleFullscreen
                    || action == Action::NewFile || action == Action::NewFolder)
                    ==> final(self).mode == old(self).mode && final(self).fullscreen == old(self).fullscreen)
                &&& ((action matches Action::Char(_) || action == Action::BackspaceChar || action == Action::CopyPath) ==> cmd is Nothing)
                &&& (action == Action::OpenExternal ==> match selected_spec(*old(self)) {
                        Some(e) => cmd matches Command::OpenExternal { path } && path@ == e.path@,
                        None => cmd is Nothing,
                    })
                &&& (action == Action::PlayPause ==> match selected_spec(*old(self)) {
                        Some(e) => cmd matches Command::ToggleAudio { path } && path matches Some(p) && p@ == e.path@,
                        None => cmd matches Command::ToggleAudio { path } && path is None,
                    })
                &&& (action == Action::Stop ==> cmd is StopAudio)
                &&& (action == Action::Parent ==> match path_parent(old(self).current_dir@) {
                        Some(p) => final(self).current_dir@ == p && (cmd matches Command::List(AfterListing::SelectName(n))
                            && n@ == match path_file_name(old(self).current_dir@) { Some(f) => f, None => Seq::empty() }),
                        None => cmd is Nothing && final(self).current_dir == old(self).current_dir,
                    })
                &&& (action == Action::Enter ==> match selected_spec(*old(self)) {
                        Some(e) => cmd matches Command::CheckDirectory { path, entry_is_dir } && path@ == e.path@
                            && entry_is_dir == e.is_dir,
                        None => cmd is Nothing,
                    })
            },
    {
        let ghost before = *self;
        match self.mode {
            Mode::Help => {
                self.mode = Mode::Normal;
                self.fullscreen = false;
                self.dirty = true;
                return Command::Nothing;
            }
            Mode::InputNewFile | Mode::InputNewFolder => {
                return self.handle_input(action);
            }
            Mode::Search => {
                return self.handle_search(action);
            }
            Mode::FullscreenPreview => {
                if action == Action::Esc || action == Action::ToggleFullscreen || action == Action::Quit {
                    self.mode = Mode::Normal;
                    self.fullscreen = false;
                    self.dirty = true;
                    if action == Action::Quit {
                        return Command::Quit;
                    }
                    return Command::Nothing;
                }
                if action == Action::NextPage || action == Action::PrevPage || action == Action::NextSheet
                    || action == Action::PrevSheet {
                    return self.handle_paging(action);
                }
                return Command::Nothing;
            }
            Mode::Normal => {}
        }
        self.handle_normal(action)
    }

    fn handle_input(&mut self, action: Action) -> (cmd: Command)
        requires
            old(self).mode == Mode::InputNewFile || old(self).mode == Mode::InputNewFolder,
        ensures
            final(self).files == old(self).files,
            final(self).filtered == old(self).filtered,
            final(self).mode == Mode::Normal || final(self).mode == old(self).mode,
            (action == Action::Esc ==> final(self).mode == Mode::Normal
                && final(self).input_buffer@.len() == 0 && final(self).input_error is None && cmd is Nothing),
            (action matches Action::Char(c) ==> final(self).input_buffer@ == old(self).input_buffer@.push(c)
                && final(self).input_error is None && cmd is Nothing),
            (action == Action::BackspaceChar ==> final(self).input_error is None && cmd is Nothing
                && final(self).input_buffer@ == if old(self).input_buffer@.len() == 0 { old(self).input_buffer@ } else { old(self).input_buffer@.drop_last() }),
            (action == Action::Enter ==> {
                let name = trimmed(old(self).input_buffer@);
                if name.len() == 0 {
                    final(self).input_error matches Some(m) && m@ == "Name cannot be empty"@ && cmd is Nothing
                } else if name.contains('/') || name.contains('\\') {
                    final(self).input_error matches Some(m) && m@ == "Name cannot contain path separator"@ && cmd is Nothing
                } else {
                    cmd matches Command::Create { path, folder } && path@ == path_join(old(self).current_dir@, name)
                        && folder == (old(self).mode == Mode::InputNewFolder)
                        && final(self).mode == old(self).mode
                }
            }),
            action_frame(*old(self), *final(self), action),
            !(cmd is Quit),
            action != Action::Esc ==> final(self).mode == old(self).mode && final(self).fullscreen == old(self).fullscreen,
            !(action == Action::Esc || action == Action::BackspaceChar || action matches Action::Char(_) || action == Action::Enter)
                ==> cmd is Nothing && final(self).input_buffer == old(self).input_buffer,
    {
        match action {
            Action::Esc => {
                self.mode = Mode::Normal;
                self.input_buffer = String::new();
                self.input_error = None;
                self.dirty = true;
                Command::Nothing
            }
            Action::Enter => {
                let name = trim_text(self.input_buffer.as_str());
                if name.unicode_len() == 0 {
                    self.input_error = Some(String::from_str("Name cannot be empty"));
                    self.dirty = true;
                    return Command::Nothing;
                }
                if str_has_char(name.as_str(), '/') || str_has_char(name.as_str(), '\\') {
                    self.input_error = Some(String::from_str("Name cannot contain path separator"));
                    self.dirty = true;
                    return Command::Nothing;
                }
                let folder = self.mode == Mode::InputNewFolder;
                let target = join_path(self.current_dir.as_str(), name.as_str());
                Command::Create { path: target, folder }
            }
            Action::BackspaceChar => {
                let _ = crate::textfmt::pop_char(&mut self.input_buffer);
                self.input_error = None;
                self.dirty = true;
                Command::Nothing
            }
            Action::Char(c) => {
                push_char(&mut self.input_buffer, c);
                self.input_error = None;
                self.dirty = true;
                Command::Nothing
            }
            _ => Command::Nothing,
        }
    }

    fn handle_search(&mut self, action: Action) -> (cmd: Command)
        requires
            old(self).mode == Mode::Search,
            counters_bounded(*old(self)),
        ensures
            wf(*old(self)) ==> wf(*final(self)),
            final(self).files == old(self).files,
            (action == Action::Esc ==> final(self).mode == Mode::Normal && !final(self).search.active
                && final(self).search.query@.len() == 0 && final(self).filtered is None && final(self).selected == 0 && cmd is Nothing),
            (action matches Action::Char(c) ==> final(self).search.query@ == old(self).search.query@.push(c)
                && (final(self).filtered matches Some(f) && f@ == filter_spec(final(self).files@, final(self).search.query@))
                && final(self).selected == 0 && cmd is Nothing),
            (action == Action::BackspaceChar ==> (final(self).filtered matches Some(f) && f@ == filter_spec(final(self).files@, final(self).search.query@))
                && final(self).selected == 0 && cmd is Nothing),
            (action == Action::Up ==> if old(self).selected > 0 {
                    final(self).selected == old(self).selected - 1 && cmd is Preview
                } else {
                    final(self).selected == old(self).selected && cmd is Nothing
                }),
            (action == Action::Down ==> {
                let len = visible_spec(*old(self)).len();
                if old(self).selected + 1 < len {
                    final(self).selected == old(self).selected + 1 && cmd is Preview
                } else {
                    final(self).selected == old(self).selected && cmd is Nothing
                }
            }),
            (action == Action::Enter ==> search_enter_command(*old(self), cmd)),
            action_frame(*old(self), *final(self), action),
            !(cmd is Quit),
            action != Action::Esc ==> final(self).mode == Mode::Search && final(self).fullscreen == old(self).fullscreen,
            !(action == Action::Esc || action == Action::BackspaceChar || action matches Action::Char(_)
                || action == Action::Enter || action == Action::Up || action == Action::Down) ==> cmd is Nothing,
    {
        match action {
            Action::Esc => {
                self.search.exit();
                self.filtered = None;
                self.selected = 0;
                self.mode = Mode::Normal;
                self.dirty = true;
                Command::Nothing
            }
            Action::BackspaceChar => {
                self.search.pop();
                self.dirty = true;
                self.refilter();
                Command::Nothing
            }
            Action::Char(c) => {
                self.search.push(c);
                self.dirty = true;
                self.refilter();
                Command::Nothing
            }
            Action::Enter => {
                self.dirty = true;
                assert(wf(*old(self)) ==> wf(*self));
                match self.selected_search_row() {
                    Some(entry_path_dir) => {
                        let (path, is_dir) = entry_path_dir;
                        Command::CheckDirectory { path, entry_is_dir: is_dir }
                    }
                    None => Command::Nothing,
                }
            }
            Action::Up => {
                if self.selected > 0 {
                    self.selected = self.selected - 1;
                    self.dirty = true;
                    assert(wf(*old(self)) ==> wf(*self));
                    Command::Preview
                } else {
                    Command::Nothing
                }
            }
            Action::Down => {
                let len = self.visible_len();
                if self.selected + 1 < len {
                    self.selected = self.selected + 1;
                    self.dirty = true;
                    assert(wf(*old(self)) ==> wf(*self));
                    Command::Preview
                } else {
                    Command::Nothing
                }
            }
            _ => Command::Nothing,
        }
    }

    /// The path and kind of the file at the selected row while searching,
    /// when the row designates one.
    fn selected_search_row(&self) -> (res: Option<(String, bool)>)
        ensures
            match res {
                Some((p, d)) => {
                    let vis = visible_spec(*self);
                    &&& self.selected < vis.len()
                    &&& vis[self.selected as int] < self.files@.len()
                    &&& p@ == self.files@[vis[self.selected as int] as int].path@
                    &&& d == self.files@[vis[self.selected as int] as int].is_dir
                },
                None => {
                    let vis = visible_spec(*self);
                    !(self.selected < vis.len() && vis[self.selected as int] < self.files@.len())
                },
            },
    {
        let vis = self.visible_indices();
        if self.selected < vis.len() {
            let idx = vis[self.selected];
            if idx < self.files.len() {
                let p = self.files[idx].path.clone();
                return Some((p, self.files[idx].is_dir));
            }
        }
        None
    }

    fn handle_paging(&mut self, action: Action) -> (cmd: Command)
        requires
            is_paging(action),
            counters_bounded(*old(self)),
        ensures
            paging_outcome(*old(self), *final(self), action, cmd),
            *final(self) == (App { xlsx_sheet: final(self).xlsx_sheet, pptx_slide: final(self).pptx_slide,
                pdf_page: final(self).pdf_page, dirty: final(self).dirty, ..*old(self) }),
            !(cmd is Quit),
    {
        match action {
            Action::NextPage => {
                match self.selected_entry() {
                    None => Command::Nothing,
                    Some(e) => {
                        let path = e.path.clone();
                        let ext = lower_extension_of(path.as_str());
                        self.dirty = true;
                        if ext_is_slides(ext.as_str()) {
                            Command::CountSlides { path }
                        } else if str_eq(ext.as_str(), "pdf") {
                            self.pdf_page = self.pdf_page + 1;
                            Command::Preview
                        } else {
                            Command::Nothing
                        }
                    }
                }
            }
            Action::PrevPage => {
                let mut spawn = false;
                if self.pptx_slide > 0 {
                    self.pptx_slide = self.pptx_slide - 1;
                    spawn = true;
                }
                if self.pdf_page > 0 {
                    self.pdf_page = self.pdf_page - 1;
                    spawn = true;
                }
                self.dirty = true;
                if spawn { Command::Preview } else { Command::Nothing }
            }
            Action::NextSheet => {
                match self.selected_entry() {
                    None => Command::Nothing,
                    Some(e) => {
                        let path = e.path.clone();
                        self.dirty = true;
                        Command::CountSheets { path }
                    }
                }
            }
            _ => {
                self.dirty = true;
                if self.xlsx_sheet > 0 {
                    self.xlsx_sheet = self.xlsx_sheet - 1;
                    Command::Preview
                } else {
                    Command::Nothing
                }
            }
        }
    }

    fn handle_normal(&mut self, action: Action) -> (cmd: Command)
        requires
            old(self).mode == Mode::Normal,
            counters_bounded(*old(self)),
        ensures
            wf(*old(self)) ==> wf(*final(self)),
            final(self).files == old(self).files,
            (action == Action::Quit || action == Action::Esc ==> cmd is Quit),
            action_frame(*old(self), *final(self), action),
            (cmd is Quit) == quits(old(self).mode, action),
            !(action == Action::ToggleHelp || action == Action::Search || action == Action::ToggleFullscreen
                || action == Action::NewFile || action == Action::NewFolder)
                ==> final(self).mode == old(self).mode && final(self).fullscreen == old(self).fullscreen,
            (action matches Action::Char(_) || action == Action::BackspaceChar || action == Action::CopyPath) ==> cmd is Nothing,
            (action == Action::Up ==> if old(self).selected > 0 {
                    final(self).selected == old(self).selected - 1 && pages_reset(*final(self)) && cmd is Preview
                } else {
                    final(self).selected == old(self).selected && cmd is Nothing
                }),
            (action == Action::Down ==> {
                let len = visible_spec(*old(self)).len();
                if len > 0 && old(self).selected + 1 < len {
                    final(self).selected == old(self).selected + 1 && pages_reset(*final(self)) && cmd is Preview
                } else {
                    final(self).selected == old(self).selected && cmd is Nothing
                }
            }),
            (action == Action::Top ==> final(self).selected == 0 && pages_reset(*final(self)) && cmd is Preview),
            (action == Action::Bottom ==> {
                let len = visible_spec(*old(self)).len();
                if len > 0 {
                    final(self).selected == len - 1 && pages_reset(*final(self)) && cmd is Preview
                } else {
                    final(self).selected == old(self).selected && cmd is Nothing
                }
            }),
            (action == Action::ToggleHidden ==> final(self).show_hidden == !old(self).show_hidden
                && cmd matches Command::List(AfterListing::Preview)),
            (action == Action::ToggleFormatFilter ==> final(self).filter_formats_only == !old(self).filter_formats_only
                && cmd matches Command::List(AfterListing::Preview)),
            (action == Action::ToggleHelp ==> final(self).mode == Mode::Help && cmd is Nothing),
            (action == Action::Search ==> final(self).mode == Mode::Search && final(self).search.active
                && final(self).search.query@.len() == 0 && final(self).selected == 0
                && (final(self).filtered matches Some(f) && f@ == all_indices(old(self).files@.len())) && cmd is Nothing),
            (action == Action::ToggleFullscreen ==> final(self).mode == Mode::FullscreenPreview && final(self).fullscreen
                && cmd is Nothing),
            (action == Action::NewFile ==> final(self).mode == Mode::InputNewFile && final(self).input_buffer@.len() == 0
                && final(self).input_error is None && cmd is Nothing),
            (action == Action::NewFolder ==> final(self).mode == Mode::InputNewFolder && final(self).input_buffer@.len() == 0
                && final(self).input_error is None && cmd is Nothing),
            (is_paging(action) ==> paging_outcome(*old(self), *final(self), action, cmd)),
            (action == Action::OpenExternal ==> match selected_spec(*old(self)) {
                    Some(e) => cmd matches Command::OpenExternal { path } && path@ == e.path@,
                    None => cmd is Nothing,
                }),
            (action == Action::PlayPause ==> match selected_spec(*old(self)) {
                    Some(e) => cmd matches Command::ToggleAudio { path } && path matches Some(p) && p@ == e.path@,
                    None => cmd matches Command::ToggleAudio { path } && path is None,
                }),
            (action == Action::Stop ==> cmd is StopAudio),
            (action == Action::Parent ==> match path_parent(old(self).current_dir@) {
                    Some(p) => final(self).current_dir@ == p && (cmd matches Command::List(AfterListing::SelectName(n))
                        && n@ == match path_file_name(old(self).current_dir@) { Some(f) => f, None => Seq::empty() }),
                    None => cmd is Nothing && final(self).current_dir == old(self).current_dir,
                }),
            (action == Action::Enter ==> match selected_spec(*old(self)) {
                    Some(e) => cmd matches Command::CheckDirectory { path, entry_is_dir } && path@ == e.path@
                        && entry_is_dir == e.is_dir,
                    None => cmd is Nothing,
                }),
    {
        match action {
            Action::Quit | Action::Esc => Command::Quit,
            Action::Up => {
                self.dirty = true;
                if self.selected > 0 {
                    self.selected = self.selected - 1;
                    self.reset_pages();
                    Command::Preview
                } else {
                    Command::Nothing
                }
            }
            Action::Down => {
                self.dirty = true;
                let len = self.visible_len();
                if len > 0 && self.selected + 1 < len {
                    self.selected = self.selected + 1;
                    self.reset_pages();
                    Command::Preview
                } else {
                    Command::Nothing
                }
            }
            Action::Top => {
                self.selected = 0;
                self.reset_pages();
                self.dirty = true;
                Command::Preview
            }
            Action::Bottom => {
                self.dirty = true;
                let len = self.visible_len();
                if len > 0 {
                    self.selected = len - 1;
                    self.reset_pages();
                    Command::Preview
                } else {
                    Command::Nothing
                }
            }
            Action::ToggleHidden => {
                self.show_hidden = !self.show_hidden;
                self.dirty = true;
                Command::List(AfterListing::Preview)
            }
            Action::ToggleFormatFilter => {
                self.filter_formats_only = !self.filter_formats_only;
                self.dirty = true;
                Command::List(AfterListing::Preview)
            }
            Action::ToggleHelp => {
                self.mode = Mode::Help;
                self.dirty = true;
                Command::Nothing
            }
            Action::Search => {
                self.mode = Mode::Search;
                self.search.enter();
                let n = self.files.len();
                let mut all: Vec<usize> = Vec::new();
                let mut i: usize = 0;
                while i < n
                    invariant
                        n == self.files@.len(),
                        0 <= i <= n,
                        all@ == all_indices(i as nat),
                    decreases n - i,
                {
                    all.push(i);
                    i = i + 1;
                    assert(all@ =~= all_indices(i as nat));
                }
                self.filtered = Some(all);
                self.selected = 0;
                self.dirty = true;
                Command::Nothing
            }
            Action::ToggleFullscreen => {
                self.mode = Mode::FullscreenPreview;
                self.fullscreen = true;
                self.dirty = true;
                Command::Nothing
            }
            Action::Enter => {
                match self.selected_entry() {
                    Some(e) => {
                        let path = e.path.clone();
                        let is_dir = e.is_dir;
                        Command::CheckDirectory { path, entry_is_dir: is_dir }
                    }
                    None => Command::Nothing,
                }
            }
            Action::Parent => {
                match parent_of(self.current_dir.as_str()) {
                    Some(parent) => {
                        let prev_name = match file_name_of(self.current_dir.as_str()) {
                            Some(n) => n,
                            None => String::new(),
                        };
                        self.current_dir = parent;
                        self.dirty = true;
                        Command::List(AfterListing::SelectName(prev_name))
                    }
                    None => Command::Nothing,
                }
            }
            Action::NextPage | Action::PrevPage | Action::NextSheet | Action::PrevSheet => self.handle_paging(action),
            Action::OpenExternal => {
                self.dirty = true;
                match self.selected_entry() {
                    Some(e) => Command::OpenExternal { path: e.path.clone() },
                    None => Command::Nothing,
                }
            }
            Action::NewFile => {
                self.mode = Mode::InputNewFile;
                self.input_buffer = String::new();
                self.input_error = None;
                self.dirty = true;
                Command::Nothing
            }
            Action::NewFolder => {
                self.mode = Mode::InputNewFolder;
                self.input_buffer = String::new();
                self.input_error = None;
                self.dirty = true;
                Command::Nothing
            }
            Action::PlayPause => {
                self.dirty = true;
                match self.selected_entry() {
                    Some(e) => Command::ToggleAudio { path: Some(e.path.clone()) },
                    None => Command::ToggleAudio { path: None },
                }
            }
            Action::Stop => {
                self.dirty = true;
                Command::StopAudio
            }
            Action::Char(_) | Action::BackspaceChar | Action::CopyPath => Command::Nothing,
        }
    }
}


/// The paths in `v`.
pub open spec fn path_set(v: Seq<String>) -> Set<Seq<char>> {
    Set::new(|p: Seq<char>| exists|i: int| 0 <= i < v.len() && v[i]@ == p)
}

/// The discriminator of a paged preview in its cache key.
pub open spec fn page_extra_spec(sheet: nat, slide: nat) -> Seq<char> {
    "sheet"@ + crate::textfmt::decimal(sheet) + "slide"@ + crate::textfmt::decimal(slide)
}

/// "sheet{sheet}slide{slide}", which keeps the pages of one document apart
/// in the cache.
pub fn page_extra(sheet: usize, slide: usize) -> (res: String)
    ensures
        res@ == page_extra_spec(sheet as nat, slide as nat),
{
    let mut s = String::from_str("sheet");
    crate::textfmt::push_decimal(&mut s, sheet as u64);
    s.append("slide");
    crate::textfmt::push_decimal(&mut s, slide as u64);
    s
}

impl App {
    /// Whether previews of `path` are forced past the size limits.
    pub fn is_forced(&self, path: &str) -> (res: bool)
        ensures
            res == path_set(self.forced@).contains(path@),
    {
        let mut i: usize = 0;
        while i < self.forced.len()
            invariant
                0 <= i <= self.forced@.len(),
                forall|j: int| 0 <= j < i ==> self.forced@[j]@ != path@,
            decreases self.forced.len() - i,
        {
            if str_eq(self.forced[i].as_str(), path) {
                return true;
            }
            i = i + 1;
        }
        false
    }

    /// Marks `path` as forced past the size limits.
    fn force(&mut self, path: String)
        ensures
            path_set(final(self).forced@) == path_set(old(self).forced@).insert(path@),
            *final(self) == (App { forced: final(self).forced, ..*old(self) }),
    {
        if !self.is_forced(path.as_str()) {
            let ghost pv = path@;
            self.forced.push(path);
            assert(path_set(self.forced@) =~= path_set(old(self).forced@).insert(pv)) by {
                assert forall|q: Seq<char>| path_set(self.forced@).contains(q) implies path_set(old(self).forced@).insert(pv).contains(q) by {
                    let i = choose|i: int| 0 <= i < self.forced@.len() && self.forced@[i]@ == q;
                    if i < old(self).forced@.len() {
                        assert(old(self).forced@[i] == self.forced@[i]);
                    }
                }
                assert forall|q: Seq<char>| path_set(old(self).forced@).insert(pv).contains(q) implies path_set(self.forced@).contains(q) by {
                    if q == pv {
                        assert(self.forced@[old(self).forced@.len() as int]@ == q);
                    } else {
                        let i = choose|i: int| 0 <= i < old(self).forced@.len() && old(self).forced@[i]@ == q;
                        assert(self.forced@[i] == old(self).forced@[i]);
                    }
                }
            }
        } else {
            assert(path_set(old(self).forced@).insert(path@) =~= path_set(old(self).forced@));
        }
    }

    /// Applies a fresh listing of the current directory (`None` when it
    /// could not be read, which keeps the current one), then selects as
    /// `after` says; the selection is then previewed.
    pub fn apply_listing(&mut self, listing: Option<Vec<Entry>>, after: AfterListing) -> (cmd: Command)
        ensures
            cmd is Preview,
            wf(*old(self)) || listing is Some ==> wf(*final(self)),
            listing matches Some(f) ==> final(self).files@ == f@,
            listing is None ==> final(self).files == old(self).files,
            final(self).current_dir == old(self).current_dir,
            final(self).mode == old(self).mode,
            // Only the files, the search matches and the selection change.
            *final(self) == (App { files: final(self).files, filtered: final(self).filtered, selected: final(self).selected, ..*old(self) }),
            // A listing that could not be read keeps the matches, and the selection unless asked to move it.
            listing is None ==> final(self).filtered == old(self).filtered,
            listing is None && after is Preview ==> final(self).selected == old(self).selected,
            // A fresh listing is filtered again while searching.
            (listing matches Some(f) ==> {
                &&& (old(self).search.active && old(self).search.query@.len() > 0 ==>
                    (final(self).filtered matches Some(m) && m@ == filter_spec(f@, old(self).search.query@)))
                &&& (old(self).search.active && old(self).search.query@.len() == 0 ==>
                    (final(self).filtered matches Some(m) && m@ == all_indices(f@.len())))
                &&& (!old(self).search.active ==> final(self).filtered is None)
                &&& (after is Preview ==> {
                    let n = visible_spec(*final(self)).len();
                    if old(self).selected < n { final(self).selected == old(self).selected }
                    else { final(self).selected == if n == 0 { 0 } else { (n - 1) as usize } }
                })
            }),
            (after matches AfterListing::SelectName(n) ==> {
                let vis = visible_spec(*final(self));
                let files = final(self).files@;
                if exists|k: int| 0 <= k < vis.len() && vis[k] < files.len() && files[vis[k] as int].name@ == n@ {
                    &&& final(self).selected < vis.len()
                    &&& files[vis[final(self).selected as int] as int].name@ == n@
                    &&& forall|k: int| 0 <= k < final(self).selected ==> !(vis[k] < files.len() && files[vis[k] as int].name@ == n@)
                } else {
                    final(self).selected == 0
                }
            }),
            (after matches AfterListing::SelectPath(t) ==> {
                let files = final(self).files@;
                let vis = visible_spec(*final(self));
                (exists|i: int| 0 <= i < files.len() && files[i].path@ == t@) ==> {
                    let idx = choose|i: int| 0 <= i < files.len() && files[i].path@ == t@ && forall|j: int| 0 <= j < i ==> files[j].path@ != t@;
                    if vis.contains(idx as usize) {
                        final(self).selected < vis.len() && vis[final(self).selected as int] == idx
                    } else {
                        final(self).selected == idx
                    }
                }
            }),
    {
        match listing {
            Some(files) => self.refresh_files(files),
            None => {}
        }
        match after {
            AfterListing::Preview => {}
            AfterListing::SelectName(n) => {
                let vis = self.visible_indices();
                self.selected = match first_named(&vis, &self.files, n.as_str()) {
                    Some(k) => k,
                    None => 0,
                };
            }
            AfterListing::SelectPath(t) => {
                match self.position_of_path(t.as_str()) {
                    None => {}
                    Some(idx) => {
                        let vis = self.visible_indices();
                        match position_in(&vis, idx) {
                            Some(k) => {
                                self.selected = k;
                            }
                            None => {
                                let last = if self.files.len() == 0 { 0 } else { self.files.len() - 1 };
                                self.selected = if idx < last { idx } else { last };
                            }
                        }
                    }
                }
            }
        }
        Command::Preview
    }

    /// The first position of the file with path `t`.
    fn position_of_path(&self, t: &str) -> (res: Option<usize>)
        ensures
            match res {
                Some(i) => i < self.files@.len() && self.files@[i as int].path@ == t@
                    && forall|j: int| 0 <= j < i ==> self.files@[j].path@ != t@,
                None => forall|j: int| 0 <= j < self.files@.len() ==> self.files@[j].path@ != t@,
            },
    {
        let mut i: usize = 0;
        while i < self.files.len()
            invariant
                0 <= i <= self.files@.len(),
                forall|j: int| 0 <= j < i ==> self.files@[j].path@ != t@,
            decreases self.files.len() - i,
        {
            if str_eq(self.files[i].path.as_str(), t) {
                return Some(i);
            }
            i = i + 1;
        }
        None
    }
}


impl App {
    /// Continues Enter once the caller found whether the chosen `path` is a
    /// directory now (`is_dir_now`) and its canonical form (the path itself
    /// when it has none); `entry_is_dir` is what the listing said.
    ///
    /// Browsing: a directory becomes the current one (first row selected,
    /// then listed); a file opens in the full-screen preview, and one whose
    /// preview failed as too large is forced and previewed again. Searching: a directory becomes the current one and
    /// the search is closed; a file is selected in the full listing and
    /// browsing resumes.
    pub fn apply_directory_check(&mut self, path: String, entry_is_dir: bool, is_dir_now: bool, canonical: String) -> (cmd: Command)
        ensures
            wf(*old(self)) ==> wf(*final(self)),
            final(self).files == old(self).files,
            old(self).mode == Mode::Search ==> {
                &&& !final(self).search.active
                &&& final(self).filtered is None
                &&& if entry_is_dir || is_dir_now {
                    &&& final(self).current_dir@ == canonical@
                    &&& final(self).selected == 0
                    &&& final(self).mode == Mode::Search
                    &&& cmd matches Command::List(AfterListing::Preview)
                } else {
                    &&& final(self).mode == Mode::Normal
                    &&& cmd is Preview
                    &&& ((exists|i: int| 0 <= i < old(self).files@.len() && old(self).files@[i].path@ == path@) ==> {
                        &&& final(self).selected < old(self).files@.len()
                        &&& old(self).files@[final(self).selected as int].path@ == path@
                        &&& forall|j: int| 0 <= j < final(self).selected ==> old(self).files@[j].path@ != path@
                    })
                    &&& (!(exists|i: int| 0 <= i < old(self).files@.len() && old(self).files@[i].path@ == path@) ==> final(self).selected == old(self).selected)
                }
            },
            old(self).mode != Mode::Search ==> {
                if entry_is_dir || is_dir_now {
                    if is_dir_now {
                        &&& final(self).current_dir@ == canonical@
                        &&& final(self).selected == 0
                        &&& cmd matches Command::List(AfterListing::Preview)
                    } else {
                        cmd is Nothing && final(self).current_dir == old(self).current_dir
                    }
                } else {
                    // A file opens in full screen; one refused as too large is forced.
                    &&& final(self).mode == Mode::FullscreenPreview
                    &&& final(self).fullscreen
                    &&& final(self).selected == old(self).selected
                    &&& if is_too_large_preview(old(self).preview) {
                        path_set(final(self).forced@) == path_set(old(self).forced@).insert(path@) && cmd is Preview
                    } else {
                        cmd is Nothing && final(self).forced == old(self).forced
                    }
                }
            },
    {
        if self.mode == Mode::Search {
            self.dirty = true;
            if entry_is_dir || is_dir_now {
                self.current_dir = canonical;
                self.selected = 0;
                self.search.exit();
                self.filtered = None;
                return Command::List(AfterListing::Preview);
            }
            self.search.exit();
            self.filtered = None;
            match self.position_of_path(path.as_str()) {
                Some(pos) => {
                    self.selected = pos;
                }
                None => {}
            }
            self.mode = Mode::Normal;
            return Command::Preview;
        }
        if entry_is_dir || is_dir_now {
            if is_dir_now {
                self.current_dir = canonical;
                self.selected = 0;
                self.dirty = true;
                return Command::List(AfterListing::Preview);
            }
            return Command::Nothing;
        }
        self.dirty = true;
        self.mode = Mode::FullscreenPreview;
        self.fullscreen = true;
        let too_large = match &self.preview {
            Some(PreviewResult::Error { msg, .. }) => str_contains(msg.as_str(), "too large") || str_contains(msg.as_str(), "TooLarge"),
            _ => false,
        };
        if too_large {
            self.force(path);
            Command::Preview
        } else {
            Command::Nothing
        }
    }

    /// Continues "next page" on a presentation of `total` slides: the next
    /// slide, when there is one, is previewed.
    pub fn apply_slide_count(&mut self, total: usize) -> (cmd: Command)
        ensures
            *final(self) == (App { pptx_slide: final(self).pptx_slide, ..*old(self) }),
            total > 0 && old(self).pptx_slide + 1 < total ==> final(self).pptx_slide == old(self).pptx_slide + 1 && cmd is Preview,
            !(total > 0 && old(self).pptx_slide + 1 < total) ==> final(self).pptx_slide == old(self).pptx_slide && cmd is Nothing,
    {
        if total > 0 && self.pptx_slide < total - 1 {
            self.pptx_slide = self.pptx_slide + 1;
            Command::Preview
        } else {
            Command::Nothing
        }
    }

    /// Continues "next sheet" on a workbook of `total` sheets: the next
    /// sheet, when there is one, is previewed.
    pub fn apply_sheet_count(&mut self, total: usize) -> (cmd: Command)
        ensures
            *final(self) == (App { xlsx_sheet: final(self).xlsx_sheet, ..*old(self) }),
            total > 0 && old(self).xlsx_sheet + 1 < total ==> final(self).xlsx_sheet == old(self).xlsx_sheet + 1 && cmd is Preview,
            !(total > 0 && old(self).xlsx_sheet + 1 < total) ==> final(self).xlsx_sheet == old(self).xlsx_sheet && cmd is Nothing,
    {
        if total > 0 && self.xlsx_sheet < total - 1 {
            self.xlsx_sheet = self.xlsx_sheet + 1;
            Command::Preview
        } else {
            Command::Nothing
        }
    }

    /// Continues the creation of `target`: on success browsing resumes and
    /// the new entry is selected after the listing; on failure the error is
    /// shown in the prompt ("Failed: …").
    pub fn apply_create(&mut self, target: String, result: Result<(), String>) -> (cmd: Command)
        ensures
            final(self).files == old(self).files,
            final(self).filtered == old(self).filtered,
            match result {
                Ok(_) => final(self).mode == Mode::Normal && final(self).input_buffer@.len() == 0
                    && final(self).input_error is None
                    && (cmd matches Command::List(AfterListing::SelectPath(t)) && t@ == target@),
                Err(e) => (final(self).input_error matches Some(m) && m@ == "Failed: "@ + e@)
                    && final(self).mode == old(self).mode && cmd is Nothing,
            },
    {
        self.dirty = true;
        match result {
            Ok(_) => {
                self.mode = Mode::Normal;
                self.input_buffer = String::new();
                self.input_error = None;
                Command::List(AfterListing::SelectPath(target))
            }
            Err(e) => {
                let mut m = String::from_str("Failed: ");
                m.append(e.as_str());
                self.input_error = Some(m);
                Command::Nothing
            }
        }
    }

    /// The preview to produce for the selection, if any: spreadsheets at the
    /// selected sheet, presentations at the selected slide, everything else
    /// through the router; forced files skip the size limits.
    pub fn preview_job(&self) -> (res: Option<PreviewJob>)
        ensures
            match selected_spec(*self) {
                None => res is None,
                Some(e) => res matches Some(job) && {
                    let ext = lower_extension(e.path@);
                    &&& job.path@ == e.path@
                    &&& job.forced == path_set(self.forced@).contains(e.path@)
                    &&& job.xlsx_sheet == self.xlsx_sheet
                    &&& job.pptx_slide == self.pptx_slide
                    &&& job.route == if is_sheet_ext(ext) { JobRoute::Sheet } else if is_slides_ext(ext) { JobRoute::Slides } else { JobRoute::General }
                },
            },
    {
        match self.selected_entry() {
            None => None,
            Some(e) => {
                let path = e.path.clone();
                let ext = lower_extension_of(path.as_str());
                let route = if ext_is_sheet(ext.as_str()) {
                    JobRoute::Sheet
                } else if ext_is_slides(ext.as_str()) {
                    JobRoute::Slides
                } else {
                    JobRoute::General
                };
                let forced = self.is_forced(path.as_str());
                Some(PreviewJob { path, forced, xlsx_sheet: self.xlsx_sheet, pptx_slide: self.pptx_slide, route })
            }
        }
    }

    /// A preview finished for `path`: it is shown when `path` is still the
    /// selection, and dropped otherwise.
    pub fn preview_ready(&mut self, path: &str, result: PreviewResult)
        ensures
            final(self).files == old(self).files,
            final(self).filtered == old(self).filtered,
            final(self).selected == old(self).selected,
            match selected_spec(*old(self)) {
                Some(e) if e.path@ == path@ => final(self).preview == Some(result) && !final(self).preview_loading && final(self).dirty,
                _ => final(self).preview == old(self).preview && final(self).preview_loading == old(self).preview_loading,
            },
    {
        let matches = match self.selected_entry() {
            Some(e) => str_eq(e.path.as_str(), path),
            None => false,
        };
        if matches {
            self.preview = Some(result);
            self.preview_loading = false;
            self.dirty = true;
        }
    }

    /// A preview was started and its result is awaited.
    pub fn preview_started(&mut self)
        ensures
            final(self).preview_loading,
            final(self).files == old(self).files,
            final(self).preview == old(self).preview,
    {
        self.preview_loading = true;
    }

    /// A cached preview is shown at once.
    pub fn show_cached(&mut self, result: PreviewResult)
        ensures
            final(self).preview == Some(result),
            !final(self).preview_loading,
            final(self).files == old(self).files,
    {
        self.preview = Some(result);
        self.preview_loading = false;
    }

    /// Nothing is selected: no preview.
    pub fn clear_preview(&mut self)
        ensures
            final(self).preview is None,
            final(self).files == old(self).files,
    {
        self.preview = None;
    }

    /// The preview area rounded to the cache's quantization grid.
    pub fn quantized_area(area: crate::cache::Rect) -> (res: crate::cache::Rect)
        ensures
            res == crate::cache::key::quantized_spec(area),
    {
        crate::cache::key::quantized(area)
    }
}


// ---------------------------------------------------------------------------
// Keys
// ---------------------------------------------------------------------------

/// What a key press does.
#[derive(Debug, Clone, Copy, PartialEq, Eq, Structural)]
pub enum KeyRoute {
    /// Leave the program at once.
    Quit,
    /// Handle the action.
    Act(Action),
    /// Nothing.
    Ignore,
}

/// How a key press is routed: Ctrl+C always quits; while searching and
/// while typing a name, keys are taken as text and editing (arrows too while
/// searching); otherwise the key map decides.
pub open spec fn key_route(mode: Mode, code: KeyCode, bits: u8) -> KeyRoute {
    if code == KeyCode::Char('c') && bits & 2 != 0 {
        KeyRoute::Quit
    } else if mode == Mode::Search || mode == Mode::InputNewFile || mode == Mode::InputNewFolder {
        match code {
            KeyCode::Esc => KeyRoute::Act(Action::Esc),
            KeyCode::Enter => KeyRoute::Act(Action::Enter),
            KeyCode::Backspace => KeyRoute::Act(Action::BackspaceChar),
            KeyCode::Char(c) => KeyRoute::Act(Action::Char(c)),
            KeyCode::Up => if mode == Mode::Search { KeyRoute::Act(Action::Up) } else { KeyRoute::Ignore },
            KeyCode::Down => if mode == Mode::Search { KeyRoute::Act(Action::Down) } else { KeyRoute::Ignore },
            _ => KeyRoute::Ignore,
        }
    } else {
        match key_action(code, bits) {
            Some(a) => KeyRoute::Act(a),
            None => KeyRoute::Ignore,
        }
    }
}

/// Ctrl+C quits in every mode; while searching or naming a new entry a
/// character key types that character (so `q` or `n` are text there); in
/// the other modes the key table applies, so an unmodified `n` or `p`
/// pages forward or back and an unmodified `q` quits.
pub proof fn lemma_key_routes(mode: Mode, code: KeyCode, bits: u8)
    ensures
        (code == KeyCode::Char('c') && bits & 2 != 0) ==> key_route(mode, code, bits) == KeyRoute::Quit,
        (mode == Mode::Search || mode == Mode::InputNewFile || mode == Mode::InputNewFolder)
            ==> forall|c: char| code == KeyCode::Char(c) && !(c == 'c' && bits & 2 != 0)
                ==> key_route(mode, code, bits) == KeyRoute::Act(Action::Char(c)),
        !(mode == Mode::Search || mode == Mode::InputNewFile || mode == Mode::InputNewFolder) && bits == 0 ==> {
            &&& (code == KeyCode::Char('n') ==> key_route(mode, code, bits) == KeyRoute::Act(Action::NextPage))
            &&& (code == KeyCode::Char('p') ==> key_route(mode, code, bits) == KeyRoute::Act(Action::PrevPage))
            &&& (code == KeyCode::Char('q') ==> key_route(mode, code, bits) == KeyRoute::Act(Action::Quit))
            &&& (code == KeyCode::Char('/') ==> key_route(mode, code, bits) == KeyRoute::Act(Action::Search))
            &&& (code == KeyCode::Char(' ') ==> key_route(mode, code, bits) == KeyRoute::Act(Action::PlayPause))
        },
{
    crate::event::lemma_key_table(code, bits);
    assert(0u8 & 2 == 0) by (bit_vector);
}

/// Routes a key press in a mode.
pub fn route_key(mode: Mode, key: KeyEvent) -> (res: KeyRoute)
    ensures
        res == key_route(mode, key.code, key.modifiers.bits),
{
    let ctrl_c = match key.code {
        KeyCode::Char(c) => c == 'c' && key.modifiers.bits & 2 != 0,
        _ => false,
    };
    if ctrl_c {
        return KeyRoute::Quit;
    }
    let typing = mode == Mode::Search || mode == Mode::InputNewFile || mode == Mode::InputNewFolder;
    if typing {
        match key.code {
            KeyCode::Esc => KeyRoute::Act(Action::Esc),
            KeyCode::Enter => KeyRoute::Act(Action::Enter),
            KeyCode::Backspace => KeyRoute::Act(Action::BackspaceChar),
            KeyCode::Char(c) => KeyRoute::Act(Action::Char(c)),
            KeyCode::Up => if mode == Mode::Search { KeyRoute::Act(Action::Up) } else { KeyRoute::Ignore },
            KeyCode::Down => if mode == Mode::Search { KeyRoute::Act(Action::Down) } else { KeyRoute::Ignore },
            _ => KeyRoute::Ignore,
        }
    } else {
        match key_to_action(key) {
            Some(a) => KeyRoute::Act(a),
            None => KeyRoute::Ignore,
        }
    }
}

} // verus!
