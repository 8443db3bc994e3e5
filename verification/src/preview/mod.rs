//! Previews: the results that handlers produce, handler selection, and the
//! decisions each handler makes about a file.
use vstd::prelude::*;
use crate::config::Config;
use crate::error::{error_message, PreviewError};
use crate::order::{key_lt, lemma_stably_sorted_members, stable_sort_by_key, stably_sorted_by};
use crate::textfmt::seq_lt;
use crate::textfmt::{chars_of, push_char};
use self::audio::{audio_outcome, audio_priority, AudioHandler};
use self::csv::{csv_outcome, csv_priority, CsvHandler};
use self::images::{image_outcome, image_priority, ImageHandler};
use self::office::{office_outcome, office_priority, OfficeHandler};
use self::pdf::{pdf_outcome, pdf_priority, PdfHandler};
use self::text::{text_outcome, text_preview, text_priority, TextHandler};
use self::video::{video_outcome, video_priority, VideoHandler};

pub mod audio;
pub mod csv;
pub mod images;
pub mod meta;
pub mod office;
pub mod pdf;
pub mod text;
pub mod video;

verus! {

/// A decoded image, carried from the decoder to the renderer.
#[verifier::external_type_specification]
#[verifier::external_body]
pub struct ExDynamicImage(image::DynamicImage);

/// A point in time, carried for display.
#[verifier::external_type_specification]
#[verifier::external_body]
pub struct ExSystemTime(std::time::SystemTime);

/// `Duration` is `Copy`: its clone is the same duration.
pub assume_specification[ <std::time::Duration as std::clone::Clone>::clone ](d: &std::time::Duration) -> (res: std::time::Duration)
    ensures
        res == *d,
;

/// `SystemTime` is `Copy`: its clone is the same time.
pub assume_specification[ <std::time::SystemTime as std::clone::Clone>::clone ](t: &std::time::SystemTime) -> (res: std::time::SystemTime)
    ensures
        res == *t,
;

/// `DynamicImage::clone` copies the pixel buffer; nothing is stated of it.
pub assume_specification[ <image::DynamicImage as std::clone::Clone>::clone ](img: &image::DynamicImage) -> image::DynamicImage;

/// A terminal color.
#[derive(Debug, Clone, Copy, PartialEq, Eq, Structural)]
pub enum Color {
    Reset,
    Black,
    Red,
    Green,
    Yellow,
    Blue,
    Magenta,
    Cyan,
    Gray,
    DarkGray,
    White,
    Rgb(u8, u8, u8),
}

/// How a run of text is drawn.
#[derive(Debug, Clone, Copy, PartialEq, Eq, Structural)]
pub struct Style {
    pub fg: Option<Color>,
    pub bg: Option<Color>,
    pub bold: bool,
    pub italic: bool,
}

/// A run of text in one style.
#[derive(Debug, Clone)]
pub struct Span {
    pub content: String,
    pub style: Style,
}

/// One line of styled text.
#[derive(Debug, Clone)]
pub struct Line {
    pub spans: Vec<Span>,
}

/// The plain style.
pub open spec fn plain() -> Style {
    Style { fg: None, bg: None, bold: false, italic: false }
}

/// Plain style with a foreground color.
pub open spec fn fg_style(c: Color) -> Style {
    Style { fg: Some(c), bg: None, bold: false, italic: false }
}

/// Bold style with a foreground color.
pub open spec fn bold_style(c: Color) -> Style {
    Style { fg: Some(c), bg: None, bold: true, italic: false }
}

pub fn style_plain() -> (res: Style)
    ensures
        res == plain(),
{
    Style { fg: None, bg: None, bold: false, italic: false }
}

pub fn style_fg(c: Color) -> (res: Style)
    ensures
        res == fg_style(c),
{
    Style { fg: Some(c), bg: None, bold: false, italic: false }
}

pub fn style_bold(c: Color) -> (res: Style)
    ensures
        res == bold_style(c),
{
    Style { fg: Some(c), bg: None, bold: true, italic: false }
}

/// The text of a line, as a sequence of (text, style) runs.
pub open spec fn line_runs(l: Line) -> Seq<(Seq<char>, Style)> {
    l.spans@.map_values(|s: Span| (s.content@, s.style))
}

/// A line made of one run.
pub fn line_styled(text: String, style: Style) -> (res: Line)
    ensures
        line_runs(res) == seq![(text@, style)],
{
    let l = Line { spans: vec![Span { content: text, style }] };
    assert(line_runs(l) =~= seq![(text@, style)]);
    l
}

/// A copy of a line with the same runs.
pub fn copy_line(l: &Line) -> (res: Line)
    ensures
        line_runs(res) == line_runs(*l),
{
    let mut spans: Vec<Span> = Vec::new();
    let mut i: usize = 0;
    while i < l.spans.len()
        invariant
            0 <= i <= l.spans@.len(),
            spans@.map_values(|s: Span| (s.content@, s.style)) == line_runs(*l).take(i as int),
        decreases l.spans.len() - i,
    {
        let s = &l.spans[i];
        let ghost before = spans@.map_values(|s: Span| (s.content@, s.style));
        let c = s.content.clone();
        assert(c@ == s.content@);
        spans.push(Span { content: c, style: s.style });
        assert(spans@.map_values(|s: Span| (s.content@, s.style)) =~= before.push((s.content@, s.style)));
        assert(line_runs(*l)[i as int] == (s.content@, s.style));
        i = i + 1;
        assert(spans@.map_values(|s: Span| (s.content@, s.style)) =~= line_runs(*l).take(i as int));
    }
    let res = Line { spans };
    assert(line_runs(*l).take(l.spans@.len() as int) =~= line_runs(*l));
    res
}

/// A line of two runs.
pub fn line_two(a: String, sa: Style, b: String, sb: Style) -> (res: Line)
    ensures
        line_runs(res) == seq![(a@, sa), (b@, sb)],
{
    let l = Line { spans: vec![Span { content: a, style: sa }, Span { content: b, style: sb }] };
    assert(line_runs(l) =~= seq![(a@, sa), (b@, sb)]);
    l
}

/// The empty line (no runs).
pub fn line_empty() -> (res: Line)
    ensures
        line_runs(res) == Seq::<(Seq<char>, Style)>::empty(),
{
    let l = Line { spans: Vec::new() };
    assert(line_runs(l) =~= Seq::<(Seq<char>, Style)>::empty());
    l
}

/// Metadata shown with a preview.
#[derive(Debug, Clone)]
pub struct FileMeta {
    pub size: u64,
    pub mtime: std::time::SystemTime,
    pub mime: String,
    pub dims: Option<(u32, u32)>,
}

/// Tags and length of an audio file.
#[derive(Debug, Clone)]
pub struct AudioMeta {
    pub title: Option<String>,
    pub artist: Option<String>,
    pub duration: std::time::Duration,
}

/// One member of an archive.
#[derive(Debug, Clone)]
pub struct ArchiveEntry {
    pub name: String,
    pub size: u64,
    pub compressed_size: u64,
}

/// One row of a directory preview.
#[derive(Debug, Clone)]
pub struct EntrySummary {
    pub name: String,
    pub is_dir: bool,
}

/// What the preview pane shows for a file.
#[derive(Debug)]
pub enum PreviewResult {
    Text { lines: Vec<Line>, title: String, meta: FileMeta },
    Table { rows: Vec<Vec<String>>, headers: Vec<String>, meta: FileMeta },
    Image { rgba: image::DynamicImage, meta: FileMeta },
    Audio { meta: AudioMeta, waveform: Vec<u8>, duration: std::time::Duration },
    Archive { entries: Vec<ArchiveEntry>, meta: FileMeta },
    Directory { entries: Vec<EntrySummary> },
    Error { msg: String, fallback: Option<Box<PreviewResult>> },
}

impl Clone for PreviewResult {
    fn clone(&self) -> (res: Self)
        decreases self,
    {
        match self {
            PreviewResult::Text { lines, title, meta } => PreviewResult::Text { lines: lines.clone(), title: title.clone(), meta: meta.clone() },
            PreviewResult::Table { rows, headers, meta } => PreviewResult::Table { rows: rows.clone(), headers: headers.clone(), meta: meta.clone() },
            PreviewResult::Image { rgba, meta } => PreviewResult::Image { rgba: rgba.clone(), meta: meta.clone() },
            PreviewResult::Audio { meta, waveform, duration } => PreviewResult::Audio { meta: meta.clone(), waveform: waveform.clone(), duration: duration.clone() },
            PreviewResult::Archive { entries, meta } => PreviewResult::Archive { entries: entries.clone(), meta: meta.clone() },
            PreviewResult::Directory { entries } => PreviewResult::Directory { entries: entries.clone() },
            PreviewResult::Error { msg, fallback } => {
                let fb = match fallback {
                    Some(b) => Some(Box::new((**b).clone())),
                    None => None,
                };
                PreviewResult::Error { msg: msg.clone(), fallback: fb }
            }
        }
    }
}


// ---------------------------------------------------------------------------
// Handlers and routing
// ---------------------------------------------------------------------------

/// What `mime_guess` infers for a path from its extension: the first
/// guessed type, or `application/octet-stream` (a function of the path
/// alone).
pub uninterp spec fn mime_of(path: Seq<char>) -> Seq<char>;

/// The MIME type guessed from a path's extension
/// (`mime_guess::from_path(..).first_or_octet_stream()`).
#[verifier::external_body]
pub(crate) fn guess_mime(path: &str) -> (res: String)
    ensures
        res@ == mime_of(path@),
{
    mime_guess::from_path(path).first_or_octet_stream().to_string()
}

/// The handlers a router can choose from.
#[derive(Debug, Clone, Copy, PartialEq, Eq, Structural)]
pub enum HandlerKind {
    Csv,
    Audio,
    Image,
    Pdf,
    Office,
    Text,
    Video,
    Fallback,
}

/// How strongly a handler claims a file (0-255), from its path, guessed
/// MIME type and first bytes.
pub open spec fn handler_priority(h: HandlerKind, path: Seq<char>, mime: Seq<char>, magic: Seq<u8>) -> u8 {
    match h {
        HandlerKind::Csv => csv_priority(path),
        HandlerKind::Audio => audio_priority(path, mime, magic),
        HandlerKind::Image => image_priority(path, mime, magic),
        HandlerKind::Pdf => pdf_priority(path, mime, magic),
        HandlerKind::Office => office_priority(path),
        HandlerKind::Text => text_priority(path, mime),
        HandlerKind::Video => video_priority(path, mime, magic),
        HandlerKind::Fallback => 10,
    }
}

/// The name of a handler.
pub open spec fn handler_name(h: HandlerKind) -> Seq<char> {
    match h {
        HandlerKind::Csv => "csv"@,
        HandlerKind::Audio => "audio"@,
        HandlerKind::Image => "image"@,
        HandlerKind::Pdf => "pdf"@,
        HandlerKind::Office => "office"@,
        HandlerKind::Text => "text"@,
        HandlerKind::Video => "video"@,
        HandlerKind::Fallback => "fallback"@,
    }
}

impl HandlerKind {
    pub fn name(&self) -> (res: &'static str)
        ensures
            res@ == handler_name(*self),
    {
        match self {
            HandlerKind::Csv => CsvHandler.name(),
            HandlerKind::Audio => AudioHandler.name(),
            HandlerKind::Image => ImageHandler.name(),
            HandlerKind::Pdf => PdfHandler.name(),
            HandlerKind::Office => OfficeHandler.name(),
            HandlerKind::Text => TextHandler.name(),
            HandlerKind::Video => VideoHandler.name(),
            HandlerKind::Fallback => "fallback",
        }
    }

    pub fn priority(&self, path: &str, mime: &str, magic: &[u8]) -> (res: u8)
        ensures
            res == handler_priority(*self, path@, mime@, magic@),
    {
        match self {
            HandlerKind::Csv => CsvHandler.priority(path, mime, magic),
            HandlerKind::Audio => AudioHandler.priority(path, mime, magic),
            HandlerKind::Image => ImageHandler.priority(path, mime, magic),
            HandlerKind::Pdf => PdfHandler.priority(path, mime, magic),
            HandlerKind::Office => OfficeHandler.priority(path, mime, magic),
            HandlerKind::Text => TextHandler.priority(path, mime, magic),
            HandlerKind::Video => VideoHandler.priority(path, mime, magic),
            HandlerKind::Fallback => 10,
        }
    }

    /// The largest file the handler previews without being forced.
    pub fn file_size_limit(&self) -> (res: u64)
        ensures
            res == size_limit(*self),
    {
        match self {
            HandlerKind::Csv => CsvHandler.file_size_limit(),
            HandlerKind::Audio => AudioHandler.file_size_limit(),
            HandlerKind::Image => ImageHandler.file_size_limit(),
            HandlerKind::Pdf => PdfHandler.file_size_limit(),
            HandlerKind::Office => OfficeHandler.file_size_limit(),
            HandlerKind::Text => TextHandler.file_size_limit(),
            HandlerKind::Video => VideoHandler.file_size_limit(),
            HandlerKind::Fallback => u64::MAX,
        }
    }
}

/// The largest file each handler previews without being forced: 4 MB of
/// text, 10 MB of CSV, 50 MB of image, 100 MB of PDF or office document,
/// 200 MB of audio, 500 MB of video, and no limit for the fallback.
pub open spec fn size_limit(kind: HandlerKind) -> u64 {
    match kind {
        HandlerKind::Text => (2 * text::MAX_BYTES) as u64,
        HandlerKind::Csv => (10 * 1024 * 1024) as u64,
        HandlerKind::Image => (50 * 1024 * 1024) as u64,
        HandlerKind::Pdf => (100 * 1024 * 1024) as u64,
        HandlerKind::Office => (100 * 1024 * 1024) as u64,
        HandlerKind::Audio => (200 * 1024 * 1024) as u64,
        HandlerKind::Video => (500 * 1024 * 1024) as u64,
        HandlerKind::Fallback => u64::MAX,
    }
}

/// Chooses the handler for each file.
pub struct Router {
    handlers: Vec<HandlerKind>,
}

/// `i` is the first position of the highest priority in `ps`.
pub open spec fn is_first_max(ps: Seq<u8>, i: int) -> bool {
    &&& 0 <= i < ps.len()
    &&& forall|j: int| 0 <= j < ps.len() ==> ps[j] <= ps[i]
    &&& forall|j: int| 0 <= j < i ==> ps[j] < ps[i]
}

/// The priorities that the handlers give a file.
pub open spec fn priorities(hs: Seq<HandlerKind>, path: Seq<char>, magic: Seq<u8>) -> Seq<u8> {
    hs.map_values(|h: HandlerKind| handler_priority(h, path, mime_of(path), magic))
}

impl Router {
    pub closed spec fn handlers_spec(&self) -> Seq<HandlerKind> {
        self.handlers@
    }

    /// A router over the given handlers, tried in this order.
    pub fn new(handlers: Vec<HandlerKind>) -> (res: Self)
        ensures
            res.handlers_spec() == handlers@,
    {
        Router { handlers }
    }

    /// The handler with the highest priority for a file, the earliest
    /// registered one among equals. `magic` holds the file's first bytes
    /// (up to 512).
    pub fn route(&self, path: &str, magic: &[u8]) -> (res: HandlerKind)
        requires
            self.handlers_spec().len() > 0,
        ensures
            exists|i: int| is_first_max(priorities(self.handlers_spec(), path@, magic@), i)
                && res == #[trigger] self.handlers_spec()[i],
    {
        let mime = guess_mime(path);
        let ghost ps = priorities(self.handlers@, path@, magic@);
        let mut best_p: u8 = 0;
        let mut best_i: usize = 0;
        let mut i: usize = 0;
        while i < self.handlers.len()
            invariant
                ps == priorities(self.handlers@, path@, magic@),
                mime@ == mime_of(path@),
                0 <= i <= self.handlers@.len(),
                self.handlers@.len() > 0,
                best_i < self.handlers@.len(),
                i > 0 ==> best_i < i && best_p == ps[best_i as int],
                i == 0 ==> best_i == 0 && best_p == 0,
                forall|j: int| 0 <= j < i ==> ps[j] <= best_p,
                forall|j: int| 0 <= j < best_i ==> ps[j] < best_p,
            decreases self.handlers.len() - i,
        {
            let p = self.handlers[i].priority(path, mime.as_str(), magic);
            assert(p == ps[i as int]);
            if p > best_p {
                best_p = p;
                best_i = i;
            }
            i = i + 1;
        }
        proof {
            if best_i == 0 {
                assert(ps[0] <= best_p);
                if ps[0] < best_p {
                    assert(false);
                }
            }
            assert(is_first_max(ps, best_i as int));
        }
        self.handlers[best_i]
    }
}

/// The handlers in use, in registration order: CSV, audio, image, PDF,
/// office, text, and the fallback.
pub open spec fn default_handlers() -> Seq<HandlerKind> {
    seq![HandlerKind::Csv, HandlerKind::Audio, HandlerKind::Image, HandlerKind::Pdf,
        HandlerKind::Office, HandlerKind::Text, HandlerKind::Fallback]
}

/// The router with every handler in use (the configuration does not change
/// the set).
pub fn build_router(config: &Config) -> (res: Router)
    ensures
        res.handlers_spec() == default_handlers(),
{
    let handlers = vec![HandlerKind::Csv, HandlerKind::Audio, HandlerKind::Image, HandlerKind::Pdf,
        HandlerKind::Office, HandlerKind::Text, HandlerKind::Fallback];
    assert(handlers@ =~= default_handlers());
    Router::new(handlers)
}

/// Every file gets a handler that claims it at least as strongly as the
/// fallback (priority 10): the chosen handler is never below 10.
pub proof fn lemma_default_route_at_least_fallback(path: Seq<char>, magic: Seq<u8>, i: int)
    requires
        is_first_max(priorities(default_handlers(), path, magic), i),
    ensures
        priorities(default_handlers(), path, magic)[i] >= 10,
{
    assert(priorities(default_handlers(), path, magic)[6] == 10);
}

/// A file whose lower-cased extension is `csv` or `tsv` goes to the CSV
/// handler under the default router, unless its content or type marks it
/// as an image or a PDF (handlers that claim it more strongly).
pub proof fn lemma_tables_route_to_csv(path: Seq<char>, magic: Seq<u8>, i: int)
    requires
        crate::textfmt::lower_extension(path) == "csv"@ || crate::textfmt::lower_extension(path) == "tsv"@,
        !self::images::looks_like_image(mime_of(path), magic),
        mime_of(path) != "application/pdf"@,
        !crate::textfmt::bytes_have_prefix(magic, seq![0x25u8, 0x50u8, 0x44u8, 0x46u8]),
        is_first_max(priorities(default_handlers(), path, magic), i),
    ensures
        default_handlers()[i] == HandlerKind::Csv,
{
    let ext = crate::textfmt::lower_extension(path);
    reveal_strlit("csv");
    reveal_strlit("tsv");
    reveal_strlit("psv");
    reveal_strlit("png");
    reveal_strlit("jpg");
    reveal_strlit("jpeg");
    reveal_strlit("gif");
    reveal_strlit("webp");
    reveal_strlit("bmp");
    reveal_strlit("svg");
    reveal_strlit("ico");
    reveal_strlit("tiff");
    reveal_strlit("pdf");
    reveal_strlit("docx");
    reveal_strlit("xlsx");
    reveal_strlit("xls");
    reveal_strlit("ods");
    reveal_strlit("pptx");
    reveal_strlit("ppt");
    let ps = priorities(default_handlers(), path, magic);
    assert(ext.len() == 3);
    assert(ext[0] == 'c' || ext[0] == 't');
    assert(!self::images::image_extensions().contains(ext)) by {
        if self::images::image_extensions().contains(ext) {
            let k = choose|k: int| 0 <= k < 9 && self::images::image_extensions()[k] == ext;
            assert(self::images::image_extensions()[k][0] == ext[0]);
        }
    }
    assert(ps[0] == 85);
    assert(ps[2] == 2);
    assert(ps[3] == 2) by {
        assert("pdf"@[0] == 'p');
    }
    assert(ps[4] == 2) by {
        assert("docx"@[0] == 'd');
        assert("xlsx"@[0] == 'x');
        assert("xls"@[0] == 'x');
        assert("ods"@[0] == 'o');
        assert("pptx"@[0] == 'p');
        assert("ppt"@[0] == 'p');
    }
    assert(ps[1] <= 85);
    assert(ps[5] <= 70);
    assert(ps[6] == 10);
    if i > 0 {
        assert(ps[0] < ps[i]);
    }
}

/// Files whose lower-cased extension is png, jpg, jpeg, gif, webp, bmp,
/// svg, ico or tiff go to the image handler under the default router,
/// whatever they hold.
pub proof fn lemma_images_route_to_image(path: Seq<char>, magic: Seq<u8>, i: int)
    requires
        ({
            let e = crate::textfmt::lower_extension(path);
            e == "png"@ || e == "jpg"@ || e == "jpeg"@ || e == "gif"@ || e == "webp"@ || e == "bmp"@
                || e == "svg"@ || e == "ico"@ || e == "tiff"@
        }),
        is_first_max(priorities(default_handlers(), path, magic), i),
    ensures
        default_handlers()[i] == HandlerKind::Image,
{
    let e = crate::textfmt::lower_extension(path);
    let ims = self::images::image_extensions();
    assert(ims.contains(e)) by {
        if e == "png"@ { assert(ims[0] == e); }
        else if e == "jpg"@ { assert(ims[1] == e); }
        else if e == "jpeg"@ { assert(ims[2] == e); }
        else if e == "gif"@ { assert(ims[3] == e); }
        else if e == "webp"@ { assert(ims[4] == e); }
        else if e == "bmp"@ { assert(ims[5] == e); }
        else if e == "svg"@ { assert(ims[6] == e); }
        else if e == "ico"@ { assert(ims[7] == e); }
        else { assert(ims[8] == e); }
    }
    let ps = priorities(default_handlers(), path, magic);
    assert(ps[2] == 100);
    assert(ps[0] <= 85 && ps[1] <= 85);
    if i < 2 {
        assert(ps[i] < ps[2]);
    } else if i > 2 {
        assert(ps[2] < ps[i]);
    }
}

/// Files whose lower-cased extension is pdf go to the PDF handler under
/// the default router, unless their content or type marks them as images.
pub proof fn lemma_pdfs_route_to_pdf(path: Seq<char>, magic: Seq<u8>, i: int)
    requires
        crate::textfmt::lower_extension(path) == "pdf"@,
        !self::images::looks_like_image(mime_of(path), magic),
        is_first_max(priorities(default_handlers(), path, magic), i),
    ensures
        default_handlers()[i] == HandlerKind::Pdf,
{
    let e = crate::textfmt::lower_extension(path);
    reveal_strlit("pdf");
    reveal_strlit("png");
    reveal_strlit("jpg");
    reveal_strlit("jpeg");
    reveal_strlit("gif");
    reveal_strlit("webp");
    reveal_strlit("bmp");
    reveal_strlit("svg");
    reveal_strlit("ico");
    reveal_strlit("tiff");
    let ims = self::images::image_extensions();
    assert(!ims.contains(e)) by {
        if ims.contains(e) {
            let k = choose|k: int| 0 <= k < ims.len() && ims[k] == e;
            assert(ims[k][0] == e[0]);
            assert(ims[k].len() == e.len());
            assert(ims[k][1] == e[1]);
        }
    }
    let ps = priorities(default_handlers(), path, magic);
    assert(ps[3] == 95);
    assert(ps[2] == 2);
    assert(ps[0] <= 85 && ps[1] <= 85);
    if i < 3 {
        assert(ps[i] < ps[3]);
    } else if i > 3 {
        assert(ps[3] < ps[i]);
    }
}

/// Documents, spreadsheets and presentations (lower-cased extension docx,
/// xlsx, xls, ods, pptx or ppt) go to the office handler under the default
/// router, unless their content or type marks them as images or PDFs.
pub proof fn lemma_office_files_route_to_office(path: Seq<char>, magic: Seq<u8>, i: int)
    requires
        ({
            let e = crate::textfmt::lower_extension(path);
            e == "docx"@ || e == "xlsx"@ || e == "xls"@ || e == "ods"@ || e == "pptx"@ || e == "ppt"@
        }),
        !self::images::looks_like_image(mime_of(path), magic),
        mime_of(path) != "application/pdf"@,
        !crate::textfmt::bytes_have_prefix(magic, seq![0x25u8, 0x50u8, 0x44u8, 0x46u8]),
        is_first_max(priorities(default_handlers(), path, magic), i),
    ensures
        default_handlers()[i] == HandlerKind::Office,
{
    let e = crate::textfmt::lower_extension(path);
    reveal_strlit("csv");
    reveal_strlit("tsv");
    reveal_strlit("psv");
    reveal_strlit("png");
    reveal_strlit("jpg");
    reveal_strlit("jpeg");
    reveal_strlit("gif");
    reveal_strlit("webp");
    reveal_strlit("bmp");
    reveal_strlit("svg");
    reveal_strlit("ico");
    reveal_strlit("tiff");
    reveal_strlit("pdf");
    reveal_strlit("docx");
    reveal_strlit("xlsx");
    reveal_strlit("xls");
    reveal_strlit("ods");
    reveal_strlit("pptx");
    reveal_strlit("ppt");
    reveal_strlit("mp3");
    reveal_strlit("flac");
    reveal_strlit("wav");
    reveal_strlit("ogg");
    reveal_strlit("m4a");
    reveal_strlit("aac");
    reveal_strlit("opus");
    reveal_strlit("wma");
    reveal_strlit("aiff");
    reveal_strlit("txt");
    reveal_strlit("md");
    reveal_strlit("rs");
    reveal_strlit("py");
    reveal_strlit("js");
    reveal_strlit("markdown");
    let ims = self::images::image_extensions();
    assert(!ims.contains(e)) by {
        if ims.contains(e) {
            let k = choose|k: int| 0 <= k < ims.len() && ims[k] == e;
            assert(ims[k].len() == e.len());
            assert(ims[k][0] == e[0]);
            assert(ims[k][1] == e[1]);
        }
    }
    let ps = priorities(default_handlers(), path, magic);
    assert(e != "pdf"@) by { assert(e[0] != 'p' || e[1] != 'd'); }
    assert(ps[4] == 90);
    assert(ps[3] == 2);
    assert(ps[2] == 2);
    assert(ps[0] <= 85 && ps[1] <= 85);
    if i < 4 {
        assert(ps[i] < ps[4]);
    } else if i > 4 {
        assert(ps[4] < ps[i]);
    }
}

/// Audio files (lower-cased extension mp3, flac, wav, ogg, m4a, aac, opus,
/// wma or aiff) go to the audio handler under the default router, unless
/// their content or type marks them as images or PDFs.
pub proof fn lemma_audio_files_route_to_audio(path: Seq<char>, magic: Seq<u8>, i: int)
    requires
        ({
            let e = crate::textfmt::lower_extension(path);
            e == "mp3"@ || e == "flac"@ || e == "wav"@ || e == "ogg"@ || e == "m4a"@ || e == "aac"@ || e == "opus"@
                || e == "wma"@ || e == "aiff"@
        }),
        !self::images::looks_like_image(mime_of(path), magic),
        mime_of(path) != "application/pdf"@,
        !crate::textfmt::bytes_have_prefix(magic, seq![0x25u8, 0x50u8, 0x44u8, 0x46u8]),
        is_first_max(priorities(default_handlers(), path, magic), i),
    ensures
        default_handlers()[i] == HandlerKind::Audio,
{
    let e = crate::textfmt::lower_extension(path);
    reveal_strlit("csv");
    reveal_strlit("tsv");
    reveal_strlit("psv");
    reveal_strlit("png");
    reveal_strlit("jpg");
    reveal_strlit("jpeg");
    reveal_strlit("gif");
    reveal_strlit("webp");
    reveal_strlit("bmp");
    reveal_strlit("svg");
    reveal_strlit("ico");
    reveal_strlit("tiff");
    reveal_strlit("pdf");
    reveal_strlit("docx");
    reveal_strlit("xlsx");
    reveal_strlit("xls");
    reveal_strlit("ods");
    reveal_strlit("pptx");
    reveal_strlit("ppt");
    reveal_strlit("mp3");
    reveal_strlit("flac");
    reveal_strlit("wav");
    reveal_strlit("ogg");
    reveal_strlit("m4a");
    reveal_strlit("aac");
    reveal_strlit("opus");
    reveal_strlit("wma");
    reveal_strlit("aiff");
    reveal_strlit("txt");
    reveal_strlit("md");
    reveal_strlit("rs");
    reveal_strlit("py");
    reveal_strlit("js");
    reveal_strlit("markdown");
    let ims = self::images::image_extensions();
    assert(!ims.contains(e)) by {
        if ims.contains(e) {
            let k = choose|k: int| 0 <= k < ims.len() && ims[k] == e;
            assert(ims[k].len() == e.len());
            assert(ims[k][0] == e[0]);
            assert(ims[k][1] == e[1]);
        }
    }
    let aus = self::audio::audio_extensions();
    assert(aus.contains(e)) by {
        if e == "mp3"@ { assert(aus[0] == e); }
        else if e == "flac"@ { assert(aus[1] == e); }
        else if e == "wav"@ { assert(aus[2] == e); }
        else if e == "ogg"@ { assert(aus[3] == e); }
        else if e == "m4a"@ { assert(aus[4] == e); }
        else if e == "aac"@ { assert(aus[5] == e); }
        else if e == "opus"@ { assert(aus[6] == e); }
        else if e == "wma"@ { assert(aus[7] == e); }
        else { assert(aus[8] == e); }
    }
    let ps = priorities(default_handlers(), path, magic);
    assert(e != "csv"@) by { if e == "csv"@ { assert(e.len() == "csv"@.len() && e[0] == "csv"@[0] && e[1] == "csv"@[1]); } }
    assert(e != "tsv"@) by { if e == "tsv"@ { assert(e.len() == "tsv"@.len() && e[0] == "tsv"@[0] && e[1] == "tsv"@[1]); } }
    assert(e != "psv"@) by { if e == "psv"@ { assert(e.len() == "psv"@.len() && e[0] == "psv"@[0] && e[1] == "psv"@[1]); } }
    assert(e != "pdf"@) by { if e == "pdf"@ { assert(e.len() == "pdf"@.len() && e[0] == "pdf"@[0] && e[1] == "pdf"@[1]); } }
    assert(e != "docx"@) by { if e == "docx"@ { assert(e.len() == "docx"@.len() && e[0] == "docx"@[0] && e[1] == "docx"@[1]); } }
    assert(e != "xlsx"@) by { if e == "xlsx"@ { assert(e.len() == "xlsx"@.len() && e[0] == "xlsx"@[0] && e[1] == "xlsx"@[1]); } }
    assert(e != "xls"@) by { if e == "xls"@ { assert(e.len() == "xls"@.len() && e[0] == "xls"@[0] && e[1] == "xls"@[1]); } }
    assert(e != "ods"@) by { if e == "ods"@ { assert(e.len() == "ods"@.len() && e[0] == "ods"@[0] && e[1] == "ods"@[1]); } }
    assert(e != "pptx"@) by { if e == "pptx"@ { assert(e.len() == "pptx"@.len() && e[0] == "pptx"@[0] && e[1] == "pptx"@[1]); } }
    assert(e != "ppt"@) by { if e == "ppt"@ { assert(e.len() == "ppt"@.len() && e[0] == "ppt"@[0] && e[1] == "ppt"@[1]); } }
    assert(ps[0] == 2);
    assert(ps[1] == 85);
    assert(ps[2] == 2);
    assert(ps[3] == 2);
    assert(ps[4] == 2);
    assert(ps[5] <= 70);
    if i < 1 {
        assert(ps[i] < ps[1]);
    } else if i > 1 {
        assert(ps[1] < ps[i]);
    }
}

/// Text and source files (lower-cased extension txt, md, markdown, rs, py
/// or js) go to the text handler under the default router, unless their
/// content or type marks them as images, PDFs or audio.
pub proof fn lemma_text_files_route_to_text(path: Seq<char>, magic: Seq<u8>, i: int)
    requires
        ({
            let e = crate::textfmt::lower_extension(path);
            e == "txt"@ || e == "md"@ || e == "markdown"@ || e == "rs"@ || e == "py"@ || e == "js"@
        }),
        !self::images::looks_like_image(mime_of(path), magic),
        mime_of(path) != "application/pdf"@,
        !crate::textfmt::bytes_have_prefix(magic, seq![0x25u8, 0x50u8, 0x44u8, 0x46u8]),
        !crate::textfmt::has_prefix(mime_of(path), "audio/"@),
        !crate::textfmt::bytes_have_prefix(magic, seq![0x49u8, 0x44u8, 0x33u8]),
        !crate::textfmt::bytes_have_prefix(magic, seq![0x4Fu8, 0x67u8, 0x67u8, 0x53u8]),
        !crate::textfmt::bytes_have_prefix(magic, seq![0x52u8, 0x49u8, 0x46u8, 0x46u8]),
        is_first_max(priorities(default_handlers(), path, magic), i),
    ensures
        default_handlers()[i] == HandlerKind::Text,
{
    let e = crate::textfmt::lower_extension(path);
    reveal_strlit("csv");
    reveal_strlit("tsv");
    reveal_strlit("psv");
    reveal_strlit("png");
    reveal_strlit("jpg");
    reveal_strlit("jpeg");
    reveal_strlit("gif");
    reveal_strlit("webp");
    reveal_strlit("bmp");
    reveal_strlit("svg");
    reveal_strlit("ico");
    reveal_strlit("tiff");
    reveal_strlit("pdf");
    reveal_strlit("docx");
    reveal_strlit("xlsx");
    reveal_strlit("xls");
    reveal_strlit("ods");
    reveal_strlit("pptx");
    reveal_strlit("ppt");
    reveal_strlit("mp3");
    reveal_strlit("flac");
    reveal_strlit("wav");
    reveal_strlit("ogg");
    reveal_strlit("m4a");
    reveal_strlit("aac");
    reveal_strlit("opus");
    reveal_strlit("wma");
    reveal_strlit("aiff");
    reveal_strlit("txt");
    reveal_strlit("md");
    reveal_strlit("rs");
    reveal_strlit("py");
    reveal_strlit("js");
    reveal_strlit("markdown");
    let ims = self::images::image_extensions();
    assert(!ims.contains(e)) by {
        if ims.contains(e) {
            let k = choose|k: int| 0 <= k < ims.len() && ims[k] == e;
            assert(ims[k].len() == e.len());
            assert(ims[k][0] == e[0]);
            assert(ims[k][1] == e[1]);
        }
    }
    let aus = self::audio::audio_extensions();
    assert(!aus.contains(e)) by {
        if aus.contains(e) {
            let k = choose|k: int| 0 <= k < aus.len() && aus[k] == e;
            assert(aus[k].len() == e.len());
            assert(aus[k][0] == e[0]);
            assert(aus[k][1] == e[1]);
        }
    }
    let txs = self::text::text_extensions();
    assert(txs.contains(e)) by {
        if e == "txt"@ { assert(txs[0] == e); }
        else if e == "md"@ { assert(txs[1] == e); }
        else if e == "markdown"@ { assert(txs[2] == e); }
        else if e == "rs"@ { assert(txs[3] == e); }
        else if e == "py"@ { assert(txs[4] == e); }
        else { assert(txs[5] == e); }
    }
    let ps = priorities(default_handlers(), path, magic);
    assert(e != "csv"@) by { if e == "csv"@ { assert(e.len() == "csv"@.len() && e[0] == "csv"@[0] && e[1] == "csv"@[1]); } }
    assert(e != "tsv"@) by { if e == "tsv"@ { assert(e.len() == "tsv"@.len() && e[0] == "tsv"@[0] && e[1] == "tsv"@[1]); } }
    assert(e != "psv"@) by { if e == "psv"@ { assert(e.len() == "psv"@.len() && e[0] == "psv"@[0] && e[1] == "psv"@[1]); } }
    assert(e != "pdf"@) by { if e == "pdf"@ { assert(e.len() == "pdf"@.len() && e[0] == "pdf"@[0] && e[1] == "pdf"@[1]); } }
    assert(e != "docx"@) by { if e == "docx"@ { assert(e.len() == "docx"@.len() && e[0] == "docx"@[0] && e[1] == "docx"@[1]); } }
    assert(e != "xlsx"@) by { if e == "xlsx"@ { assert(e.len() == "xlsx"@.len() && e[0] == "xlsx"@[0] && e[1] == "xlsx"@[1]); } }
    assert(e != "xls"@) by { if e == "xls"@ { assert(e.len() == "xls"@.len() && e[0] == "xls"@[0] && e[1] == "xls"@[1]); } }
    assert(e != "ods"@) by { if e == "ods"@ { assert(e.len() == "ods"@.len() && e[0] == "ods"@[0] && e[1] == "ods"@[1]); } }
    assert(e != "pptx"@) by { if e == "pptx"@ { assert(e.len() == "pptx"@.len() && e[0] == "pptx"@[0] && e[1] == "pptx"@[1]); } }
    assert(e != "ppt"@) by { if e == "ppt"@ { assert(e.len() == "ppt"@.len() && e[0] == "ppt"@[0] && e[1] == "ppt"@[1]); } }
    assert(ps[0] == 2);
    assert(ps[1] == 2);
    assert(ps[2] == 2);
    assert(ps[3] == 2);
    assert(ps[4] == 2);
    assert(ps[5] == 70);
    assert(ps[6] == 10);
    if i < 5 {
        assert(ps[i] < ps[5]);
    } else if i > 5 {
        assert(ps[5] < ps[i]);
    }
}

// ---------------------------------------------------------------------------
// Outcomes
// ---------------------------------------------------------------------------

/// The hint added to a "too large" error.
pub open spec fn force_hint(e: PreviewError) -> Seq<char> {
    if e is TooLarge { " — Press Enter to force preview"@ } else { Seq::empty() }
}

/// The error message shown for a failed preview: handler name, error, and
/// for a "too large" error the hint that Enter forces the preview.
pub open spec fn failure_message(name: Seq<char>, e: PreviewError, text: Seq<char>) -> Seq<char> {
    name + ": "@ + text + force_hint(e)
}

/// Turns a handler's result into what the pane shows: the preview, or an
/// error pane naming the handler, with the forcing hint for oversized files.
pub fn finish_preview(name: &str, res: Result<PreviewResult, PreviewError>) -> (out: PreviewResult)
    ensures
        res is Ok ==> out == res->Ok_0,
        res matches Err(e) ==> (out matches PreviewResult::Error { msg, fallback } && fallback is None
            && exists|t: Seq<char>| msg@ == failure_message(name@, e, error_message(e) + t)
                && (!(e is Io) ==> t.len() == 0)),
{
    match res {
        Ok(r) => r,
        Err(e) => {
            let text = e.message();
            let mut msg = String::from_str(name);
            msg.append(": ");
            msg.append(text.as_str());
            let too_large = match e {
                PreviewError::TooLarge(_, _) => true,
                _ => false,
            };
            if too_large {
                msg.append(" — Press Enter to force preview");
            }
            proof {
                if e is Io {
                    let t = choose|t: Seq<char>| text@ == error_message(e) + t;
                    assert(msg@ =~= failure_message(name@, e, error_message(e) + t));
                } else {
                    assert(text@ =~= error_message(e) + Seq::<char>::empty());
                    assert(msg@ =~= failure_message(name@, e, error_message(e) + Seq::<char>::empty()));
                }
            }
            PreviewResult::Error { msg, fallback: None }
        }
    }
}

/// How a dispatched preview job ended.
#[derive(Debug)]
pub enum DispatchOutcome {
    /// The handler returned.
    Finished(Result<PreviewResult, PreviewError>),
    /// The handler panicked.
    Panicked,
    /// The job could not be joined; the text describes why.
    JoinFailed(String),
    /// The 5-second limit passed.
    TimedOut,
}

/// The pane content for a dispatched job: the preview; or an error naming
/// the handler and its error; or that the handler panicked on a malformed
/// file; or the join error; or the time-out.
pub fn dispatch_result(name: &str, outcome: DispatchOutcome) -> (out: PreviewResult)
    ensures
        match outcome {
            DispatchOutcome::Finished(Ok(r)) => out == r,
            DispatchOutcome::Finished(Err(e)) => out matches PreviewResult::Error { msg, fallback }
                && fallback is None
                && exists|t: Seq<char>| msg@ == name@ + ": "@ + error_message(e) + t && (!(e is Io) ==> t.len() == 0),
            DispatchOutcome::Panicked => out matches PreviewResult::Error { msg, fallback }
                && fallback is None && msg@ == name@ + ": handler panicked (malformed file)"@,
            DispatchOutcome::JoinFailed(j) => out matches PreviewResult::Error { msg, fallback }
                && fallback is None && msg@ == "join error: "@ + j@,
            DispatchOutcome::TimedOut => out matches PreviewResult::Error { msg, fallback }
                && fallback is None && msg@ == "preview timed out (5s)"@,
        },
{
    match outcome {
        DispatchOutcome::Finished(Ok(r)) => r,
        DispatchOutcome::Finished(Err(e)) => {
            let text = e.message();
            let mut msg = String::from_str(name);
            msg.append(": ");
            msg.append(text.as_str());
            proof {
                if e is Io {
                    let t = choose|t: Seq<char>| text@ == error_message(e) + t;
                    assert(msg@ =~= name@ + ": "@ + error_message(e) + t);
                } else {
                    assert(msg@ =~= name@ + ": "@ + error_message(e) + Seq::<char>::empty());
                }
            }
            PreviewResult::Error { msg, fallback: None }
        }
        DispatchOutcome::Panicked => {
            let mut msg = String::from_str(name);
            msg.append(": handler panicked (malformed file)");
            PreviewResult::Error { msg, fallback: None }
        }
        DispatchOutcome::JoinFailed(j) => {
            let mut msg = String::from_str("join error: ");
            msg.append(j.as_str());
            PreviewResult::Error { msg, fallback: None }
        }
        DispatchOutcome::TimedOut => PreviewResult::Error { msg: String::from_str("preview timed out (5s)"), fallback: None },
    }
}

/// What the fallback handler shows: that no handler claims the file.
pub fn fallback_preview(path: &str) -> (out: PreviewResult)
    ensures
        out matches PreviewResult::Error { msg, fallback } && fallback is None && msg@ == "no handler for "@ + path@,
{
    let mut msg = String::from_str("no handler for ");
    msg.append(path);
    PreviewResult::Error { msg, fallback: None }
}

/// Whether a file of `size` bytes exceeds a handler's limit without being
/// forced: `TooLarge(size, limit)` then, nothing otherwise.
pub fn check_size(size: u64, limit: u64, forced: bool) -> (res: Result<(), PreviewError>)
    ensures
        (size > limit && !forced) ==> res == Err::<(), PreviewError>(PreviewError::TooLarge(size, limit)),
        !(size > limit && !forced) ==> res is Ok,
{
    if size > limit && !forced {
        Err(PreviewError::TooLarge(size, limit))
    } else {
        Ok(())
    }
}

// ---------------------------------------------------------------------------
// Directories
// ---------------------------------------------------------------------------

/// The ordering key of a directory row: directories first, then the name.
pub open spec fn summary_key(e: EntrySummary) -> (bool, Seq<char>) {
    (e.is_dir, e.name@)
}

/// How many rows a directory preview lists.
pub const DIR_PREVIEW_ROWS: usize = 50;

/// A directory preview of entries in reading order lists the first 50 of
/// them, no more and no other, each as often as read (so each once for a
/// directory's distinct entries), directories first and then by name.
pub proof fn lemma_directory_rows(items: Seq<EntrySummary>, entries: Seq<EntrySummary>)
    requires
        stably_sorted_by(entries, items.take(if items.len() < 50 { items.len() as int } else { 50 }), |e: EntrySummary| summary_key(e)),
    ensures
        entries.len() == if items.len() < 50 { items.len() } else { 50 },
        forall|e: EntrySummary| entries.contains(e)
            <==> items.take(if items.len() < 50 { items.len() as int } else { 50 }).contains(e),
        (forall|i: int, j: int| 0 <= i < j < items.len() ==> items[i] != items[j])
            ==> (forall|i: int, j: int| 0 <= i < j < entries.len() ==> entries[i] != entries[j]),
        forall|i: int, j: int| 0 <= i < j < entries.len() ==>
            (entries[i].is_dir && !entries[j].is_dir)
            || (entries[i].is_dir == entries[j].is_dir && !seq_lt(entries[j].name@, entries[i].name@)),
{
    let first = items.take(if items.len() < 50 { items.len() as int } else { 50 });
    lemma_stably_sorted_members(entries, first, |e: EntrySummary| summary_key(e));
    if forall|i: int, j: int| 0 <= i < j < items.len() ==> items[i] != items[j] {
        assert forall|i: int, j: int| 0 <= i < j < first.len() implies first[i] != first[j] by {
            assert(first[i] == items[i] && first[j] == items[j]);
        }
    }
    assert forall|i: int, j: int| 0 <= i < j < entries.len() implies
        (entries[i].is_dir && !entries[j].is_dir)
        || (entries[i].is_dir == entries[j].is_dir && !seq_lt(entries[j].name@, entries[i].name@)) by {
        assert(!key_lt(summary_key(entries[j]), summary_key(entries[i])));
    }
}

/// The preview of a directory from its entries in reading order: the first
/// 50, sorted directories first and then by name (stable).
pub fn directory_preview(items: Vec<EntrySummary>) -> (out: PreviewResult)
    ensures
        out matches PreviewResult::Directory { entries }
            && stably_sorted_by(entries@, items@.take(if items@.len() < 50 { items@.len() as int } else { 50 }), |e: EntrySummary| summary_key(e)),
{
    let ghost orig = items@;
    let mut rest = items;
    let mut first: Vec<EntrySummary> = Vec::new();
    let mut keys: Vec<(bool, Vec<char>)> = Vec::new();
    let ghost limit: int = if orig.len() < 50 { orig.len() as int } else { 50 };
    let mut k: usize = 0;
    while k < DIR_PREVIEW_ROWS && rest.len() > 0
        invariant
            0 <= k <= 50,
            k <= orig.len(),
            rest@ == orig.skip(k as int),
            first@ == orig.take(k as int),
            keys@.len() == k,
            forall|i: int| 0 <= i < k ==> (#[trigger] keys@[i]).0 == summary_key(first@[i]).0 && keys@[i].1@ == summary_key(first@[i]).1,
        decreases rest.len(),
    {
        let e = rest.remove(0);
        let key = (e.is_dir, chars_of(e.name.as_str()));
        first.push(e);
        keys.push(key);
        k = k + 1;
        assert(rest@ =~= orig.skip(k as int));
        assert(first@ =~= orig.take(k as int));
    }
    assert(k as int == limit);
    let entries = stable_sort_by_key(first, keys, Ghost(|e: EntrySummary| summary_key(e)));
    PreviewResult::Directory { entries }
}


// ---------------------------------------------------------------------------
// Running a handler
// ---------------------------------------------------------------------------

/// What a handler works from: the file's path, its bytes (for the text
/// handler at most the read limit), its size, whether the preview is
/// forced, its metadata, and what the caller made that the library cannot:
/// an SVG's rendering with its size (or why it failed) and its source
/// text, and an audio file's waveform.
pub struct PreviewInput {
    pub path: String,
    pub data: Vec<u8>,
    pub size: u64,
    pub forced: bool,
    pub meta: FileMeta,
    pub svg: Result<(image::DynamicImage, u32, u32), String>,
    pub svg_source: Result<String, String>,
    pub waveform: Vec<u8>,
}

/// What handler `kind` gives for an input; `None` where the handler
/// panics (the PDF handler cutting a character) or its text extraction
/// stopped on malformed data.
pub open spec fn handler_outcome(kind: HandlerKind, input: PreviewInput, res: Option<Result<PreviewResult, PreviewError>>) -> bool {
    match kind {
        HandlerKind::Csv => res matches Some(r) && csv_outcome(input.data@, input.meta, r),
        HandlerKind::Text => res matches Some(r) && text_outcome(input.path@, input.data@, input.size, input.meta, r),
        HandlerKind::Pdf => pdf_outcome(input.path@, input.data@, input.size, input.forced, input.meta, res),
        HandlerKind::Office => res matches Some(r) && office_outcome(input.path@, input.data@, input.size, input.forced, input.meta, r),
        HandlerKind::Image => res matches Some(r) && image_outcome(input.path@, input.data@, input.size, input.forced,
            input.svg, input.svg_source, input.meta, r),
        HandlerKind::Audio => res matches Some(r) && audio_outcome(input.path@, input.data@, input.size, input.forced, input.waveform@, r),
        HandlerKind::Video => res matches Some(r) && video_outcome(input.path@, input.size, input.forced, input.meta, r),
        HandlerKind::Fallback => res matches Some(Ok(PreviewResult::Error { msg, fallback }))
            && fallback is None && msg@ == "no handler for "@ + input.path@,
    }
}

/// The size guard: the image, PDF, office, audio and video handlers refuse
/// a file larger than their limit, unless forced, with `TooLarge` carrying
/// the size and the limit.
pub proof fn lemma_size_guard(kind: HandlerKind, input: PreviewInput, res: Option<Result<PreviewResult, PreviewError>>)
    requires
        handler_outcome(kind, input, res),
        kind == HandlerKind::Image || kind == HandlerKind::Pdf || kind == HandlerKind::Office
            || kind == HandlerKind::Audio || kind == HandlerKind::Video,
        input.size > size_limit(kind),
        !input.forced,
    ensures
        res == Some(Err::<PreviewResult, PreviewError>(PreviewError::TooLarge(input.size, size_limit(kind)))),
{
}

/// Whether handler `kind` refuses files over its size limit unless forced.
pub open spec fn size_guarded(kind: HandlerKind) -> bool {
    kind == HandlerKind::Image || kind == HandlerKind::Pdf || kind == HandlerKind::Office
        || kind == HandlerKind::Audio || kind == HandlerKind::Video
}

/// The documented size guards: unless forced, an image over 50 MB, a PDF
/// or office file over 100 MB, an audio file over 200 MB and a video over
/// 500 MB are refused as too large, with the size and that limit.
pub proof fn lemma_documented_size_limits(kind: HandlerKind, input: PreviewInput, res: Option<Result<PreviewResult, PreviewError>>)
    requires
        handler_outcome(kind, input, res),
        !input.forced,
    ensures
        kind == HandlerKind::Image && input.size > 52428800 ==> res == Some(Err::<PreviewResult, PreviewError>(PreviewError::TooLarge(input.size, 52428800))),
        kind == HandlerKind::Pdf && input.size > 104857600 ==> res == Some(Err::<PreviewResult, PreviewError>(PreviewError::TooLarge(input.size, 104857600))),
        kind == HandlerKind::Office && input.size > 104857600 ==> res == Some(Err::<PreviewResult, PreviewError>(PreviewError::TooLarge(input.size, 104857600))),
        kind == HandlerKind::Audio && input.size > 209715200 ==> res == Some(Err::<PreviewResult, PreviewError>(PreviewError::TooLarge(input.size, 209715200))),
        kind == HandlerKind::Video && input.size > 524288000 ==> res == Some(Err::<PreviewResult, PreviewError>(PreviewError::TooLarge(input.size, 524288000))),
{
}

/// How many bytes of a file of `size` bytes handler `kind` reads: nothing
/// when the handler refuses the file as too large (not forced); else the
/// text handler its first `text::MAX_BYTES`, the others the whole file.
pub fn read_limit(kind: HandlerKind, size: u64, forced: bool) -> (res: usize)
    ensures
        res == if size_guarded(kind) && size > size_limit(kind) && !forced {
            0
        } else if kind == HandlerKind::Text {
            text::MAX_BYTES
        } else {
            usize::MAX
        },
{
    let limit: u64 = match kind {
        HandlerKind::Image => 50 * 1024 * 1024,
        HandlerKind::Pdf => 100 * 1024 * 1024,
        HandlerKind::Office => 100 * 1024 * 1024,
        HandlerKind::Audio => 200 * 1024 * 1024,
        HandlerKind::Video => 500 * 1024 * 1024,
        _ => u64::MAX,
    };
    let guarded = kind == HandlerKind::Image || kind == HandlerKind::Pdf || kind == HandlerKind::Office
        || kind == HandlerKind::Audio || kind == HandlerKind::Video;
    if guarded && size > limit && !forced {
        0
    } else if kind == HandlerKind::Text {
        text::MAX_BYTES
    } else {
        usize::MAX
    }
}

/// Whether a file that cannot be read is reported as an I/O error for
/// handler `kind`: for all but the fallback and the video handler, which
/// use no content (they get empty data instead).
pub fn read_error_reported(kind: HandlerKind) -> (res: bool)
    ensures
        res == !(kind == HandlerKind::Fallback || kind == HandlerKind::Video),
{
    !(kind == HandlerKind::Fallback || kind == HandlerKind::Video)
}

/// Runs handler `kind` on an input.
pub fn run_handler(kind: HandlerKind, input: PreviewInput) -> (res: Option<Result<PreviewResult, PreviewError>>)
    ensures
        handler_outcome(kind, input, res),
{
    let PreviewInput { path, data, size, forced, meta, svg, svg_source, waveform } = input;
    match kind {
        HandlerKind::Csv => Some(CsvHandler.preview(data.as_slice(), meta)),
        HandlerKind::Text => Some(text_preview(path.as_str(), data.as_slice(), size, meta)),
        HandlerKind::Pdf => PdfHandler.preview(path.as_str(), data.as_slice(), size, forced, meta),
        HandlerKind::Office => Some(OfficeHandler.preview(path.as_str(), data.as_slice(), size, forced, meta)),
        HandlerKind::Image => Some(ImageHandler.preview(path.as_str(), data.as_slice(), size, forced, svg, svg_source, meta)),
        HandlerKind::Audio => Some(AudioHandler.preview(path.as_str(), data.as_slice(), size, forced, waveform)),
        HandlerKind::Video => Some(VideoHandler.preview(path.as_str(), size, forced, meta)),
        HandlerKind::Fallback => Some(Ok(fallback_preview(path.as_str()))),
    }
}


/// The pane content of a paged office preview (a sheet or a slide): the
/// preview, or "office: " and the error's message.
pub fn office_page_result(res: Result<PreviewResult, PreviewError>) -> (out: PreviewResult)
    ensures
        res is Ok ==> out == res->Ok_0,
        res matches Err(e) ==> (out matches PreviewResult::Error { msg, fallback } && fallback is None
            && exists|t: Seq<char>| msg@ == "office: "@ + error_message(e) + t && (!(e is Io) ==> t.len() == 0)),
{
    match res {
        Ok(r) => r,
        Err(e) => {
            let text = e.message();
            let mut msg = String::from_str("office: ");
            msg.append(text.as_str());
            proof {
                if e is Io {
                    let t = choose|t: Seq<char>| text@ == error_message(e) + t;
                    assert(msg@ =~= "office: "@ + error_message(e) + t);
                } else {
                    assert(msg@ =~= "office: "@ + error_message(e) + Seq::<char>::empty());
                }
            }
            PreviewResult::Error { msg, fallback: None }
        }
    }
}

} // verus!
