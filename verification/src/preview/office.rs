//! The office handler: DOCX text, spreadsheet sheets and PPTX slides.
use vstd::prelude::*;
use crate::error::PreviewError;
use crate::order::{stable_sort_by_key, stably_sorted_by};
use crate::preview::csv::record_view;
use crate::preview::text::{lines_view, Run};
use crate::preview::meta::{human_size, human_size_spec};
use crate::preview::{bold_style, fg_style, line_empty, line_styled, Color, FileMeta, Line, PreviewResult, Style};
use crate::textfmt::{
    chars_of, contains_seq, decimal, has_prefix, push_char, str_contains, has_suffix, lower_extension, lower_extension_of, push_decimal, str_ends_with,
    str_eq, str_starts_with, trim_text, trimmed, extension_of, path_extension,
};
use quick_xml::events::Event as XmlEv;
use calamine::{open_workbook_from_rs, Error as CalamineError, Reader, Sheets};
use std::io::Cursor;
use std::sync::mpsc::channel;
use tokio::runtime::Builder;
use WorkbookFormat::{Ods, Xls, Xlsb, Xlsx};
use docx_rs::{DocumentChild, ParagraphChild, RunChild, TableCellContent, TableChild, TableRowChild};

verus! {

/// Previews office documents.
pub struct OfficeHandler;

/// Which office format an extension names.
pub open spec fn is_docx_ext(ext: Seq<char>) -> bool { ext == "docx"@ }
pub open spec fn is_sheet_ext(ext: Seq<char>) -> bool { ext == "xlsx"@ || ext == "xls"@ || ext == "ods"@ }
pub open spec fn is_slides_ext(ext: Seq<char>) -> bool { ext == "pptx"@ || ext == "ppt"@ }

/// 90 for DOCX, spreadsheets and presentations, 2 otherwise.
pub open spec fn office_priority(path: Seq<char>) -> u8 {
    let ext = lower_extension(path);
    if is_docx_ext(ext) || is_sheet_ext(ext) || is_slides_ext(ext) { 90 } else { 2 }
}

pub fn ext_is_sheet(ext: &str) -> (res: bool)
    ensures
        res == is_sheet_ext(ext@),
{
    str_eq(ext, "xlsx") || str_eq(ext, "xls") || str_eq(ext, "ods")
}

pub fn ext_is_slides(ext: &str) -> (res: bool)
    ensures
        res == is_slides_ext(ext@),
{
    str_eq(ext, "pptx") || str_eq(ext, "ppt")
}

impl OfficeHandler {
    pub fn name(&self) -> (res: &'static str)
        ensures
            res@ == "office"@,
    {
        "office"
    }

    pub fn priority(&self, path: &str, _mime: &str, _magic: &[u8]) -> (res: u8)
        ensures
            res == office_priority(path@),
    {
        let ext = lower_extension_of(path);
        if str_eq(ext.as_str(), "docx") || ext_is_sheet(ext.as_str()) || ext_is_slides(ext.as_str()) { 90 } else { 2 }
    }

    /// 100 MB.
    pub fn file_size_limit(&self) -> (res: u64)
        ensures
            res == 100 * 1024 * 1024,
    {
        100 * 1024 * 1024
    }
}


// ---------------------------------------------------------------------------
// Spreadsheets
// ---------------------------------------------------------------------------

/// The rows of a sheet as text.
pub open spec fn rows_view(rows: Seq<Vec<String>>) -> Seq<Seq<Seq<char>>> {
    rows.map_values(|r: Vec<String>| record_view(r))
}

/// The reader a spreadsheet is opened with.
#[derive(Clone, Copy, Debug, PartialEq, Eq, Structural)]
pub enum WorkbookFormat {
    Xls,
    Xlsx,
    Xlsb,
    Ods,
}

/// The reader `calamine::open_workbook_auto` picks by a file's extension (as
/// written, case and all): XLS for "xls" and "xla", XLSX for "xlsx", "xlsm"
/// and "xlam", XLSB for "xlsb", ODS for "ods"; none for any other extension,
/// or none at all, where it tries the readers in turn.
pub open spec fn workbook_format(ext: Option<Seq<char>>) -> Option<WorkbookFormat> {
    match ext {
        Some(e) => if e == "xls"@ || e == "xla"@ {
            Some(WorkbookFormat::Xls)
        } else if e == "xlsx"@ || e == "xlsm"@ || e == "xlam"@ {
            Some(WorkbookFormat::Xlsx)
        } else if e == "xlsb"@ {
            Some(WorkbookFormat::Xlsb)
        } else if e == "ods"@ {
            Some(WorkbookFormat::Ods)
        } else {
            None
        },
        None => None,
    }
}

/// The reader for a spreadsheet at `path`, by its extension.
pub fn workbook_format_for(path: &str) -> (res: Option<WorkbookFormat>)
    ensures
        res == workbook_format(path_extension(path@)),
{
    match extension_of(path) {
        Some(e) => {
            let e = e.as_str();
            if str_eq(e, "xls") || str_eq(e, "xla") {
                Some(WorkbookFormat::Xls)
            } else if str_eq(e, "xlsx") || str_eq(e, "xlsm") || str_eq(e, "xlam") {
                Some(WorkbookFormat::Xlsx)
            } else if str_eq(e, "xlsb") {
                Some(WorkbookFormat::Xlsb)
            } else if str_eq(e, "ods") {
                Some(WorkbookFormat::Ods)
            } else {
                None
            }
        }
        None => None,
    }
}

/// What calamine gives for spreadsheet data opened with reader `format`
/// (`open_workbook_from_rs`, its error as calamine's `Error`): the
/// `sheet_names` in order, or the error's text.
pub uninterp spec fn sheet_names_of(data: Seq<u8>, format: WorkbookFormat) -> Result<Seq<Seq<char>>, Seq<char>>;

/// What calamine gives for sheet `name` of spreadsheet data opened with
/// reader `format` (`open_workbook_from_rs`, then `worksheet_range`, each
/// cell rendered with `Display`): the rows in order, or the error's text.
pub uninterp spec fn sheet_rows_of(data: Seq<u8>, format: WorkbookFormat, name: Seq<char>) -> Result<Seq<Seq<Seq<char>>>, Seq<char>>;

/// The sheet names of spreadsheet data, read with calamine's reader
/// `format` on a worker thread of its own: calamine's parsers index record
/// data without checking its length and can panic on malformed data, and
/// such a panic ends that thread only. `None` when the reading did not
/// complete that way, or no runtime could be built for it. Left unsaid:
/// tokio itself panics when the operating system cannot start a thread.
#[verifier::external_body]
fn read_sheet_names(data: &[u8], format: WorkbookFormat) -> (res: Option<Result<Vec<String>, String>>)
    ensures
        res matches Some(r) ==> names_view(r) == sheet_names_of(data@, format),
{
    let (tx, rx) = channel();
    let c = Cursor::new(data.to_vec());
    let rt = Builder::new_current_thread().build().ok()?;
    rt.spawn_blocking(move || tx.send((|| -> Result<_, CalamineError> {
        Ok(match format {
            Xls => Sheets::Xls(open_workbook_from_rs(c)?), Xlsx => Sheets::Xlsx(open_workbook_from_rs(c)?),
            Xlsb => Sheets::Xlsb(open_workbook_from_rs(c)?), Ods => Sheets::Ods(open_workbook_from_rs(c)?),
        }.sheet_names())
    })().map_err(|e| e.to_string())));
    let res = rx.recv().ok();
    rt.shutdown_background();
    res
}

/// The rows of sheet `name` of spreadsheet data, read with calamine's
/// reader `format` on a worker thread of its own, as `read_sheet_names`
/// does. `None` when the reading did not complete.
#[verifier::external_body]
fn read_sheet_rows(data: &[u8], format: WorkbookFormat, name: String) -> (res: Option<Result<Vec<Vec<String>>, String>>)
    ensures
        res matches Some(r) ==> sheet_rows_view(r) == sheet_rows_of(data@, format, name@),
{
    let (tx, rx) = channel();
    let c = Cursor::new(data.to_vec());
    let rt = Builder::new_current_thread().build().ok()?;
    rt.spawn_blocking(move || tx.send((|| -> Result<_, CalamineError> {
        Ok(match format {
            Xls => Sheets::Xls(open_workbook_from_rs(c)?), Xlsx => Sheets::Xlsx(open_workbook_from_rs(c)?),
            Xlsb => Sheets::Xlsb(open_workbook_from_rs(c)?), Ods => Sheets::Ods(open_workbook_from_rs(c)?),
        }.worksheet_range(&name)?.rows().map(|row| row.iter().map(ToString::to_string).collect()).collect())
    })().map_err(|e| e.to_string())));
    let res = rx.recv().ok();
    rt.shutdown_background();
    res
}

/// The text of sheet names as read.
pub open spec fn names_view(r: Result<Vec<String>, String>) -> Result<Seq<Seq<char>>, Seq<char>> {
    match r {
        Ok(v) => Ok(v@.map_values(|s: String| s@)),
        Err(e) => Err(e@),
    }
}

/// The text of a sheet's rows as read.
pub open spec fn sheet_rows_view(r: Result<Vec<Vec<String>>, String>) -> Result<Seq<Seq<Seq<char>>>, Seq<char>> {
    match r {
        Ok(v) => Ok(rows_view(v@)),
        Err(e) => Err(e@),
    }
}

/// The readers tried in turn when the extension names none.
pub open spec fn detect_order() -> Seq<WorkbookFormat> {
    seq![WorkbookFormat::Xls, WorkbookFormat::Xlsx, WorkbookFormat::Xlsb, WorkbookFormat::Ods]
}

/// The first of `formats` that opens the data, with its sheet names;
/// "Cannot detect file format" when none does.
pub open spec fn detect_workbook(data: Seq<u8>, formats: Seq<WorkbookFormat>) -> Result<(WorkbookFormat, Seq<Seq<char>>), Seq<char>>
    decreases formats.len(),
{
    if formats.len() == 0 {
        Err("Cannot detect file format"@)
    } else {
        match sheet_names_of(data, formats[0]) {
            Ok(n) => Ok((formats[0], n)),
            Err(_) => detect_workbook(data, formats.drop_first()),
        }
    }
}

/// How spreadsheet data of a file with extension `ext` opens: with the
/// reader its extension names, else with the first reader that opens it;
/// the reader and the sheet names, or the error's text.
pub open spec fn workbook_opened(data: Seq<u8>, ext: Option<Seq<char>>) -> Result<(WorkbookFormat, Seq<Seq<char>>), Seq<char>> {
    match workbook_format(ext) {
        Some(f) => match sheet_names_of(data, f) {
            Ok(n) => Ok((f, n)),
            Err(e) => Err(e),
        },
        None => detect_workbook(data, detect_order()),
    }
}

/// The content of an opened workbook.
pub open spec fn opened_view(r: Result<(WorkbookFormat, Vec<String>), String>) -> Result<(WorkbookFormat, Seq<Seq<char>>), Seq<char>> {
    match r {
        Ok((f, n)) => Ok((f, n@.map_values(|s: String| s@))),
        Err(e) => Err(e@),
    }
}

/// Opens spreadsheet data of the file at `path` as `workbook_opened`
/// says; `None` when a reader did not complete.
pub fn open_workbook(data: &[u8], path: &str) -> (res: Option<Result<(WorkbookFormat, Vec<String>), String>>)
    ensures
        res matches Some(r) ==> opened_view(r) == workbook_opened(data@, path_extension(path@)),
{
    match workbook_format_for(path) {
        Some(f) => match read_sheet_names(data, f) {
            None => None,
            Some(Ok(n)) => Some(Ok((f, n))),
            Some(Err(e)) => Some(Err(e)),
        },
        None => {
            let order = vec![WorkbookFormat::Xls, WorkbookFormat::Xlsx, WorkbookFormat::Xlsb, WorkbookFormat::Ods];
            assert(order@ =~= detect_order());
            assert(order@.skip(0) =~= order@);
            let mut i: usize = 0;
            while i < order.len()
                invariant
                    0 <= i <= order@.len(),
                    order@ == detect_order(),
                    workbook_format(path_extension(path@)) is None,
                    workbook_opened(data@, path_extension(path@)) == detect_workbook(data@, order@.skip(i as int)),
                decreases order.len() - i,
            {
                let f = order[i];
                assert(order@.skip(i as int)[0] == f);
                assert(order@.skip(i as int).drop_first() =~= order@.skip(i + 1));
                match read_sheet_names(data, f) {
                    None => return None,
                    Some(Ok(n)) => return Some(Ok((f, n))),
                    Some(Err(_)) => {},
                }
                i = i + 1;
            }
            assert(order@.skip(i as int) =~= Seq::<WorkbookFormat>::empty());
            Some(Err(String::from_str("Cannot detect file format")))
        }
    }
}

/// The table of sheet `idx` (clamped to the last sheet) of an opened
/// workbook: the first 101 rows read, the first of them as header and the
/// rest as rows; or the message of why there is none.
pub open spec fn sheet_table(data: Seq<u8>, opened: Result<(WorkbookFormat, Seq<Seq<char>>), Seq<char>>, idx: nat)
    -> Result<(Seq<Seq<char>>, Seq<Seq<Seq<char>>>), Seq<char>>
{
    match opened {
        Err(e) => Err("calamine open: "@ + e),
        Ok((f, names)) => if names.len() == 0 {
            Err("no sheets"@)
        } else {
            let i = if idx < names.len() - 1 { idx as int } else { names.len() - 1 };
            match sheet_rows_of(data, f, names[i]) {
                Err(e) => Err("worksheet_range: "@ + e),
                Ok(all) => {
                    let rows = all.take(if all.len() < 101 { all.len() as int } else { 101 });
                    if rows.len() == 0 { Ok((Seq::empty(), Seq::empty())) } else { Ok((rows[0], rows.drop_first())) }
                },
            }
        },
    }
}

/// Which sheet of a workbook with sheets `names` is shown for index `idx`:
/// "no sheets" for a workbook without any, else the sheet at `idx`, clamped
/// to the last one.
pub open spec fn sheet_choice(names: Seq<Seq<char>>, idx: nat) -> Result<Seq<char>, Seq<char>> {
    if names.len() == 0 {
        Err("no sheets"@)
    } else {
        Ok(names[if idx < names.len() - 1 { idx as int } else { names.len() - 1 }])
    }
}

/// The sheet to read among `names` for index `sheet_idx` (see
/// `sheet_choice`).
pub fn sheet_to_read(names: &Vec<String>, sheet_idx: usize) -> (res: Result<String, String>)
    ensures
        match sheet_choice(names@.map_values(|s: String| s@), sheet_idx as nat) {
            Ok(n) => res matches Ok(r) && r@ == n,
            Err(e) => res matches Err(m) && m@ == e,
        },
{
    if names.len() == 0 {
        Err(String::from_str("no sheets"))
    } else {
        let idx = if sheet_idx < names.len() - 1 { sheet_idx } else { names.len() - 1 };
        Ok(names[idx].clone())
    }
}

/// The header and body of a table whose rows were read in order: the
/// first row as header and the next 100 rows as body (no header and no body
/// for no rows).
pub open spec fn table_parts(all: Seq<Seq<Seq<char>>>) -> (Seq<Seq<char>>, Seq<Seq<Seq<char>>>) {
    let rows = all.take(if all.len() < 101 { all.len() as int } else { 101 });
    if rows.len() == 0 { (Seq::empty(), Seq::empty()) } else { (rows[0], rows.drop_first()) }
}

/// The table preview of a sheet's rows as read (see `table_parts`).
pub fn table_from_rows(rows: Vec<Vec<String>>, meta: FileMeta) -> (res: PreviewResult)
    ensures
        res matches PreviewResult::Table { headers, rows: r, meta: m }
            && (record_view(headers), rows_view(r@)) == table_parts(rows_view(rows@)) && m == meta,
{
    let mut rows = rows;
    let ghost all = rows_view(rows@);
    if rows.len() > 101 {
        rows.truncate(101);
    }
    assert(rows_view(rows@) =~= all.take(if all.len() < 101 { all.len() as int } else { 101 }));
    let ghost rv = rows_view(rows@);
    if rows.len() == 0 {
        let headers: Vec<String> = Vec::new();
        assert(record_view(headers) =~= Seq::<Seq<char>>::empty());
        assert(rows_view(rows@) =~= Seq::<Seq<Seq<char>>>::empty());
        PreviewResult::Table { headers, rows, meta }
    } else {
        let headers = rows.remove(0);
        assert(rows_view(rows@) =~= rv.drop_first());
        PreviewResult::Table { headers, rows, meta }
    }
}

/// The error of a spreadsheet preview: `stage`, then the reader's message.
pub fn sheet_error(stage: &str, e: &str) -> (res: PreviewError)
    ensures
        res matches PreviewError::Decode(m) && m@ == stage@ + e@,
{
    let mut m = String::from_str(stage);
    m.append(e);
    PreviewError::Decode(m)
}

/// The table preview of sheet `sheet_idx` of spreadsheet data (XLSX, XLS,
/// ODS) read from `path`: its header and up to 100 rows. A reader that
/// stops on malformed data instead of returning gives `Panicked`; what the
/// reads give is turned into the result by `sheet_to_read`,
/// `table_from_rows` and `sheet_error`.
pub fn preview_xlsx_with_sheet(path: &str, data: &[u8], sheet_idx: usize, meta: FileMeta) -> (res: Result<PreviewResult, PreviewError>)
    ensures
        res matches Err(PreviewError::Panicked)
        || match sheet_table(data@, workbook_opened(data@, path_extension(path@)), sheet_idx as nat) {
            Ok((h, rows)) => res matches Ok(PreviewResult::Table { headers, rows: r, meta: m })
                && record_view(headers) == h && rows_view(r@) == rows && m == meta,
            Err(msg) => res matches Err(PreviewError::Decode(m)) && m@ == msg,
        },
{
    let opened = match open_workbook(data, path) {
        None => return Err(PreviewError::Panicked),
        Some(o) => o,
    };
    match opened {
        Err(e) => Err(sheet_error("calamine open: ", e.as_str())),
        Ok((f, names)) => {
            let name = match sheet_to_read(&names, sheet_idx) {
                Err(e) => return Err(PreviewError::Decode(e)),
                Ok(n) => n,
            };
            match read_sheet_rows(data, f, name) {
                None => Err(PreviewError::Panicked),
                Some(Err(e)) => Err(sheet_error("worksheet_range: ", e.as_str())),
                Some(Ok(rows)) => Ok(table_from_rows(rows, meta)),
            }
        }
    }
}

/// The sheet names of spreadsheet data read from `path`, in order (none
/// when it cannot be opened, or a reader stops on malformed data).
pub fn xlsx_sheet_names(path: &str, data: &[u8]) -> (res: Vec<String>)
    ensures
        res@.len() == 0 || (workbook_opened(data@, path_extension(path@)) matches Ok((_, n)) && res@.map_values(|s: String| s@) == n),
        workbook_opened(data@, path_extension(path@)) is Err ==> res@.len() == 0,
{
    workbook_names(open_workbook(data, path))
}

/// The sheet names of a workbook as opened: its names, none when it could
/// not be opened or the reader stopped on malformed data (`None`).
pub fn workbook_names(opened: Option<Result<(WorkbookFormat, Vec<String>), String>>) -> (res: Vec<String>)
    ensures
        match opened {
            Some(Ok((_, n))) => res == n,
            _ => res@.len() == 0,
        },
{
    match opened {
        Some(Ok((_, names))) => names,
        _ => Vec::new(),
    }
}

// ---------------------------------------------------------------------------
// Presentations
// ---------------------------------------------------------------------------

/// The names of the members of a ZIP archive as `zip` lists them by index
/// (`ZipArchive::new`, then `by_index` for each index; `None` where that
/// fails), or the error's text when the data is no archive.
pub uninterp spec fn zip_names_of(data: Seq<u8>) -> Result<Seq<Option<Seq<char>>>, Seq<char>>;

/// The member names of ZIP data.
#[verifier::external_body]
fn zip_entry_names(data: &[u8]) -> (res: Result<Vec<Option<String>>, String>)
    ensures
        match res {
            Ok(v) => zip_names_of(data@) == Ok::<Seq<Option<Seq<char>>>, Seq<char>>(
                v@.map_values(|n: Option<String>| match n { Some(s) => Some(s@), None => None })),
            Err(e) => zip_names_of(data@) == Err::<Seq<Option<Seq<char>>>, Seq<char>>(e@),
        },
{
    let mut zip = zip::ZipArchive::new(std::io::Cursor::new(data.to_vec())).map_err(|e| e.to_string())?;
    Ok((0..zip.len()).map(|i| zip.by_index(i).ok().and_then(|f| f.name().ok().map(|n| n.into_owned()))).collect())
}

/// How reading one member of a ZIP archive as text ends.
#[derive(Debug)]
pub enum ZipText {
    /// The data is no archive (the error's text).
    OpenFailed(String),
    /// The archive has no such member, or it cannot be opened (the error's text).
    EntryFailed(String),
    /// The member cannot be read as UTF-8 text (the error's text).
    ReadFailed(String),
    /// The member's text.
    Text(String),
}

/// The content of a `ZipText`.
pub enum ZipTextView {
    OpenFailed(Seq<char>),
    EntryFailed(Seq<char>),
    ReadFailed(Seq<char>),
    Text(Seq<char>),
}

impl View for ZipText {
    type V = ZipTextView;

    open spec fn view(&self) -> ZipTextView {
        match self {
            ZipText::OpenFailed(e) => ZipTextView::OpenFailed(e@),
            ZipText::EntryFailed(e) => ZipTextView::EntryFailed(e@),
            ZipText::ReadFailed(e) => ZipTextView::ReadFailed(e@),
            ZipText::Text(t) => ZipTextView::Text(t@),
        }
    }
}

/// What reading member `name` of ZIP data as text gives (`ZipArchive::new`,
/// `by_name`, `read_to_string`).
pub uninterp spec fn zip_text_of(data: Seq<u8>, name: Seq<char>) -> ZipTextView;

/// Reads one member of ZIP data as text.
#[verifier::external_body]
fn zip_entry_text(data: &[u8], name: &str) -> (res: ZipText)
    ensures
        res@ == zip_text_of(data@, name@),
{
    let mut zip = match zip::ZipArchive::new(std::io::Cursor::new(data.to_vec())) {
        Ok(z) => z,
        Err(e) => return ZipText::OpenFailed(e.to_string()),
    };
    let mut f = match zip.by_name(name) { Ok(f) => f, Err(e) => return ZipText::EntryFailed(e.to_string()) };
    let mut s = String::new();
    match std::io::Read::read_to_string(&mut f, &mut s) { Ok(_) => ZipText::Text(s), Err(e) => ZipText::ReadFailed(e.to_string()) }
}

/// An XML parser event, as slide text extraction tells them apart.
#[derive(Debug)]
pub enum XmlEvent {
    /// A start tag with its qualified name.
    Start(String),
    /// An end tag with its qualified name.
    End(String),
    /// Text content.
    Text(String),
    /// A character or entity reference, by its name (`amp`, `#38`, …).
    Ref(String),
    /// The end of the document.
    Eof,
    /// A syntax error.
    Error,
    Other,
}

/// The content of an `XmlEvent`.
pub enum XmlEventView {
    Start(Seq<char>),
    End(Seq<char>),
    Text(Seq<char>),
    Ref(Seq<char>),
    Eof,
    Error,
    Other,
}

impl View for XmlEvent {
    type V = XmlEventView;

    open spec fn view(&self) -> XmlEventView {
        match self {
            XmlEvent::Start(n) => XmlEventView::Start(n@),
            XmlEvent::End(n) => XmlEventView::End(n@),
            XmlEvent::Text(t) => XmlEventView::Text(t@),
            XmlEvent::Ref(n) => XmlEventView::Ref(n@),
            XmlEvent::Eof => XmlEventView::Eof,
            XmlEvent::Error => XmlEventView::Error,
            XmlEvent::Other => XmlEventView::Other,
        }
    }
}

/// The events `quick_xml::Reader` reads from a document, up to and
/// including the first end-of-file or error; text as its XML 1.0 content,
/// and references by name.
pub uninterp spec fn xml_events_of(xml: Seq<char>) -> Seq<XmlEventView>;

/// Reads the events of an XML document with quick-xml.
#[verifier::external_body]
fn xml_events(xml: &str) -> (res: Vec<XmlEvent>)
    ensures
        res@.map_values(|e: XmlEvent| e@) == xml_events_of(xml@),
{
    let mut reader = quick_xml::Reader::from_str(xml);
    let mut out = Vec::new();
    loop {
        let ev = match reader.read_event() {
            Ok(XmlEv::Start(e)) => XmlEvent::Start(e.name().as_ref().to_string()),
            Ok(XmlEv::End(e)) => XmlEvent::End(e.name().as_ref().to_string()),
            Ok(XmlEv::Text(t)) => XmlEvent::Text(t.xml10_content().into_owned()),
            Ok(XmlEv::GeneralRef(r)) => XmlEvent::Ref(r.to_string()),
            Ok(XmlEv::Eof) => { out.push(XmlEvent::Eof); return out; }
            Err(_) => { out.push(XmlEvent::Error); return out; }
            Ok(_) => XmlEvent::Other,
        };
        out.push(ev);
    }
}

/// The qualified name `a:t` of a DrawingML text run.
pub open spec fn a_t() -> Seq<char> {
    "a:t"@
}

/// What `quick_xml::escape::unescape` gives for escaped text: the text with
/// its character and predefined entity references replaced, or `None` for
/// a malformed or unknown reference.
pub uninterp spec fn xml_unescape_of(raw: Seq<char>) -> Option<Seq<char>>;

/// Unescapes text with `quick_xml::escape::unescape`.
#[verifier::external_body]
fn xml_unescape(raw: &str) -> (res: Option<String>)
    ensures
        match res {
            Some(u) => xml_unescape_of(raw@) == Some(u@),
            None => xml_unescape_of(raw@) is None,
        },
{
    quick_xml::escape::unescape(raw).ok().map(|c| c.into_owned())
}

/// The white space of XML: space, tab, carriage return and line feed.
pub open spec fn is_xml_space(c: char) -> bool {
    c == ' ' || c == '\t' || c == '\r' || c == '\n'
}

/// The text without its leading XML white space.
pub open spec fn xml_trim_start(s: Seq<char>) -> Seq<char>
    decreases s.len(),
{
    if s.len() > 0 && is_xml_space(s[0]) { xml_trim_start(s.drop_first()) } else { s }
}

/// The text without its trailing XML white space.
pub open spec fn xml_trim_end(s: Seq<char>) -> Seq<char>
    decreases s.len(),
{
    if s.len() > 0 && is_xml_space(s.last()) { xml_trim_end(s.drop_last()) } else { s }
}

/// The text without leading and trailing XML white space.
pub open spec fn xml_trimmed(s: Seq<char>) -> Seq<char> {
    xml_trim_end(xml_trim_start(s))
}

fn xml_space(c: char) -> (res: bool)
    ensures
        res == is_xml_space(c),
{
    c == ' ' || c == '\t' || c == '\r' || c == '\n'
}

/// The text without leading and trailing XML white space.
pub fn xml_trim(s: &str) -> (res: String)
    ensures
        res@ == xml_trimmed(s@),
{
    let cs = chars_of(s);
    let n = cs.len();
    let ghost sv = s@;
    let mut i: usize = 0;
    assert(sv.subrange(0, n as int) =~= sv);
    while i < n && xml_space(cs[i])
        invariant
            cs@ == sv,
            n == sv.len(),
            i <= n,
            xml_trim_start(sv) == xml_trim_start(sv.subrange(i as int, n as int)),
        decreases n - i,
    {
        assert(sv.subrange(i as int, n as int).drop_first() =~= sv.subrange(i + 1, n as int));
        i = i + 1;
    }
    assert(xml_trim_start(sv) == sv.subrange(i as int, n as int));
    let mut j: usize = n;
    while j > i && xml_space(cs[j - 1])
        invariant
            cs@ == sv,
            n == sv.len(),
            i <= j <= n,
            xml_trimmed(sv) == xml_trim_end(sv.subrange(i as int, j as int)),
        decreases j,
    {
        assert(sv.subrange(i as int, j as int).drop_last() =~= sv.subrange(i as int, j - 1));
        j = j - 1;
    }
    assert(xml_trimmed(sv) == sv.subrange(i as int, j as int));
    let mut out = String::new();
    let mut k: usize = i;
    while k < j
        invariant
            cs@ == sv,
            n == sv.len(),
            i <= k <= j <= n,
            out@ == sv.subrange(i as int, k as int),
        decreases j - k,
    {
        push_char(&mut out, cs[k]);
        assert(out@ =~= sv.subrange(i as int, k + 1));
        k = k + 1;
    }
    out
}

/// Where the extraction of `a:t` texts stands: the texts so far, whether
/// inside `a:t`, whether reading stopped, and the escaped text of the run
/// of text and references being read.
pub struct ATState {
    pub texts: Seq<Seq<char>>,
    pub inside: bool,
    pub stopped: bool,
    pub pending: Seq<char>,
}

/// The end of a run of text: with its XML white space trimmed, a run inside
/// `a:t` that is not empty is unescaped and kept (dropped when it does not
/// unescape).
pub open spec fn flush_run(st: ATState) -> ATState {
    let r = xml_trimmed(st.pending);
    let texts = if st.inside && r.len() > 0 {
        match xml_unescape_of(r) { Some(u) => st.texts.push(u), None => st.texts }
    } else {
        st.texts
    };
    ATState { texts, pending: Seq::empty(), ..st }
}

/// One event: text and references extend the current run; any other event
/// ends it; a start or end tag `a:t` enters or leaves a text element; the
/// end of the document or an error stops the reading.
pub open spec fn a_t_step(st: ATState, e: XmlEventView) -> ATState {
    if st.stopped {
        st
    } else {
        match e {
            XmlEventView::Text(t) => ATState { pending: st.pending + t, ..st },
            XmlEventView::Ref(n) => ATState { pending: st.pending + "&"@ + n + ";"@, ..st },
            XmlEventView::Start(n) => if n == a_t() { ATState { inside: true, ..flush_run(st) } } else { flush_run(st) },
            XmlEventView::End(n) => if n == a_t() { ATState { inside: false, ..flush_run(st) } } else { flush_run(st) },
            XmlEventView::Eof => ATState { stopped: true, ..flush_run(st) },
            XmlEventView::Error => ATState { stopped: true, ..flush_run(st) },
            XmlEventView::Other => flush_run(st),
        }
    }
}

/// The texts of `a:t` elements among XML events: each run of text and
/// references read inside an `a:t` element, XML-trimmed and unescaped, empty
/// runs left out, up to the end of the document or the first error.
pub open spec fn a_t_run(evs: Seq<XmlEventView>) -> ATState
    decreases evs.len(),
{
    if evs.len() == 0 {
        ATState { texts: Seq::empty(), inside: false, stopped: false, pending: Seq::empty() }
    } else {
        a_t_step(a_t_run(evs.drop_last()), evs.last())
    }
}

fn flush_pending(texts: &mut Vec<String>, inside: bool, pending: &mut String)
    ensures
        flush_run(ATState { texts: old(texts)@.map_values(|s: String| s@), inside, stopped: false, pending: old(pending)@ })
            == (ATState { texts: final(texts)@.map_values(|s: String| s@), inside, stopped: false, pending: final(pending)@ }),
{
    let ghost before = texts@.map_values(|s: String| s@);
    let r = xml_trim(pending.as_str());
    if inside && r.unicode_len() > 0 {
        match xml_unescape(r.as_str()) {
            Some(u) => {
                let ghost uv = u@;
                texts.push(u);
                assert(texts@.map_values(|s: String| s@) =~= before.push(uv));
            }
            None => {}
        }
    }
    *pending = String::new();
}

fn is_a_t(n: &String) -> (res: bool)
    ensures
        res == (n@ == a_t()),
{
    str_eq(n.as_str(), "a:t")
}

/// The `a:t` texts among XML events.
pub fn extract_a_t_events(events: &Vec<XmlEvent>) -> (res: Vec<String>)
    ensures
        res@.map_values(|s: String| s@) == a_t_run(events@.map_values(|e: XmlEvent| e@)).texts,
{
    let ghost evs = events@.map_values(|e: XmlEvent| e@);
    let mut texts: Vec<String> = Vec::new();
    let mut inside = false;
    let mut pending = String::new();
    let mut i: usize = 0;
    assert(texts@.map_values(|s: String| s@) =~= Seq::<Seq<char>>::empty());
    while i < events.len()
        invariant
            0 <= i <= events@.len(),
            evs == events@.map_values(|e: XmlEvent| e@),
            a_t_run(evs.take(i as int))
                == (ATState { texts: texts@.map_values(|s: String| s@), inside, stopped: false, pending: pending@ }),
        decreases events.len() - i,
    {
        proof {
            assert(evs.take(i + 1).drop_last() =~= evs.take(i as int));
            assert(evs.take(i + 1).last() == events@[i as int]@);
        }
        match &events[i] {
            XmlEvent::Text(t) => {
                pending.append(t.as_str());
            }
            XmlEvent::Ref(n) => {
                pending.append("&");
                pending.append(n.as_str());
                pending.append(";");
                proof {
                    reveal_strlit("&");
                    reveal_strlit(";");
                }
            }
            XmlEvent::Start(n) => {
                flush_pending(&mut texts, inside, &mut pending);
                if is_a_t(n) {
                    inside = true;
                }
            }
            XmlEvent::End(n) => {
                flush_pending(&mut texts, inside, &mut pending);
                if is_a_t(n) {
                    inside = false;
                }
            }
            XmlEvent::Eof | XmlEvent::Error => {
                flush_pending(&mut texts, inside, &mut pending);
                proof {
                    lemma_a_t_stopped(evs, i as int + 1);
                }
                return texts;
            }
            XmlEvent::Other => {
                flush_pending(&mut texts, inside, &mut pending);
            }
        }
        i = i + 1;
    }
    assert(evs.take(events@.len() as int) =~= evs);
    texts
}

/// Once stopped, later events change nothing.
proof fn lemma_a_t_stopped(evs: Seq<XmlEventView>, k: int)
    requires
        0 <= k <= evs.len(),
        a_t_run(evs.take(k)).stopped,
    ensures
        a_t_run(evs) == a_t_run(evs.take(k)),
    decreases evs.len() - k,
{
    if k < evs.len() {
        assert(evs.take(k + 1).drop_last() =~= evs.take(k));
        lemma_a_t_stopped(evs, k + 1);
    } else {
        assert(evs.take(k) =~= evs);
    }
}

/// The `a:t` texts of an XML document.
pub fn extract_a_t(xml: &str) -> (res: Vec<String>)
    ensures
        res@.map_values(|s: String| s@) == a_t_run(xml_events_of(xml@)).texts,
{
    let events = xml_events(xml);
    extract_a_t_events(&events)
}

/// Whether a member name is that of a slide (`ppt/slides/slide*.xml`).
pub open spec fn is_slide_name(n: Seq<char>) -> bool {
    has_prefix(n, "ppt/slides/slide"@) && has_suffix(n, ".xml"@)
}

/// The slide member names among the listed members, in archive order.
pub open spec fn slide_names(entries: Seq<Option<Seq<char>>>) -> Seq<Seq<char>>
    decreases entries.len(),
{
    if entries.len() == 0 {
        Seq::empty()
    } else {
        let rest = slide_names(entries.drop_last());
        match entries.last() {
            Some(n) => if is_slide_name(n) { rest.push(n) } else { rest },
            None => rest,
        }
    }
}

/// Collects the slide names among member names.
fn collect_slide_names(entries: Vec<Option<String>>) -> (res: Vec<String>)
    ensures
        res@.map_values(|s: String| s@) == slide_names(entries@.map_values(|n: Option<String>| match n { Some(s) => Some(s@), None => None })),
{
    let ghost ev = entries@.map_values(|n: Option<String>| match n { Some(s) => Some(s@), None => None });
    let mut names: Vec<String> = Vec::new();
    let mut i: usize = 0;
    while i < entries.len()
        invariant
            0 <= i <= entries@.len(),
            ev == entries@.map_values(|n: Option<String>| match n { Some(s) => Some(s@), None => None }),
            names@.map_values(|s: String| s@) == slide_names(ev.take(i as int)),
        decreases entries.len() - i,
    {
        let ghost before = names@.map_values(|s: String| s@);
        assert(ev.take(i + 1).drop_last() =~= ev.take(i as int));
        match &entries[i] {
            Some(n) => {
                if str_starts_with(n.as_str(), "ppt/slides/slide") && str_ends_with(n.as_str(), ".xml") {
                    names.push(n.clone());
                    assert(names@.map_values(|s: String| s@) =~= before.push(n@));
                }
            }
            None => {}
        }
        i = i + 1;
    }
    assert(ev.take(entries@.len() as int) =~= ev);
    names
}

/// The number of slides in presentation data (0 when it is no archive).
pub fn pptx_slide_count(data: &[u8]) -> (res: usize)
    ensures
        match zip_names_of(data@) {
            Ok(entries) => res == slide_names(entries).len(),
            Err(_) => res == 0,
        },
{
    match zip_entry_names(data) {
        Ok(entries) => collect_slide_names(entries).len(),
        Err(_) => 0,
    }
}

/// The ordering key of a slide name (plain text order).
pub open spec fn name_key(s: String) -> (bool, Seq<char>) {
    (false, s@)
}

/// The heading line of a slide.
pub open spec fn pptx_header(path: Seq<char>, n: nat, total: nat) -> Seq<char> {
    "PPTX "@ + seq!['\u{2022}', ' '] + path + seq![' ', '\u{2022}'] + " Slide "@ + decimal(n) + "/"@ + decimal(total)
        + seq![' ', '\u{2022}'] + " n/p to paginate"@
}

/// The closing line of a slide.
pub open spec fn pptx_footer(n: nat) -> Seq<char> {
    seq!['\u{2014}'] + " End slide "@ + decimal(n) + " "@ + seq!['\u{2014}'] + " Tab: N/A  n/p to navigate"@
}

/// The title of a slide preview.
pub open spec fn pptx_title(path: Seq<char>, n: nat, total: nat) -> Seq<char> {
    path + " [Slide "@ + decimal(n) + "/"@ + decimal(total) + "]"@
}

/// The lines of the first `n` texts of a slide: each trimmed text that is
/// not empty, the first text (index 0) in bold cyan, the others white.
pub open spec fn slide_body(texts: Seq<Seq<char>>, n: nat) -> Seq<Seq<Run>>
    decreases n,
{
    if n == 0 {
        Seq::empty()
    } else {
        let prev = slide_body(texts, (n - 1) as nat);
        let t = trimmed(texts[n - 1]);
        if t.len() == 0 {
            prev
        } else {
            prev.push(seq![(t, if n - 1 == 0 { bold_style(Color::Cyan) } else { fg_style(Color::White) })])
        }
    }
}

/// The lines of slide number `n` of `total` with the given texts.
pub open spec fn slide_lines(path: Seq<char>, n: nat, total: nat, texts: Seq<Seq<char>>) -> Seq<Seq<Run>> {
    seq![seq![(pptx_header(path, n, total), bold_style(Color::Cyan))], Seq::empty()]
        + (if texts.len() == 0 {
            seq![seq![("(no text runs <a:t> in slide)"@, fg_style(Color::DarkGray))]]
        } else {
            slide_body(texts, texts.len())
        })
        + seq![Seq::empty(), seq![(pptx_footer(n), fg_style(Color::DarkGray))]]
}

/// The preview of slide `idx` (clamped) given the sorted slide names.
pub open spec fn slide_outcome(data: Seq<u8>, path: Seq<char>, idx: nat, names: Seq<Seq<char>>)
    -> Result<(Seq<Seq<Run>>, Seq<char>), Seq<char>>
{
    if names.len() == 0 {
        Err("no slides found in pptx"@)
    } else {
        let i = if idx < names.len() - 1 { idx as int } else { names.len() - 1 };
        let total = names.len();
        match zip_text_of(data, names[i]) {
            ZipTextView::OpenFailed(e) => Err("zip open 2: "@ + e),
            ZipTextView::EntryFailed(e) => Err("slide "@ + names[i] + ": "@ + e),
            ZipTextView::ReadFailed(e) => Err("read slide: "@ + e),
            ZipTextView::Text(xml) => Ok((slide_lines(path, (i + 1) as nat, total, a_t_run(xml_events_of(xml)).texts),
                pptx_title(path, (i + 1) as nat, total))),
        }
    }
}

/// The styled lines of slide texts.
fn slide_text_lines(texts: &Vec<String>) -> (res: Vec<Line>)
    ensures
        lines_view(res@) == slide_body(texts@.map_values(|s: String| s@), texts@.len()),
{
    let ghost tv = texts@.map_values(|s: String| s@);
    let mut out: Vec<Line> = Vec::new();
    let mut i: usize = 0;
    while i < texts.len()
        invariant
            0 <= i <= texts@.len(),
            tv == texts@.map_values(|s: String| s@),
            lines_view(out@) == slide_body(tv, i as nat),
        decreases texts.len() - i,
    {
        let ghost before = lines_view(out@);
        let t = trim_text(texts[i].as_str());
        assert(tv[i as int] == texts@[i as int]@);
        if !t.as_str().is_empty() {
            let style = if i == 0 {
                Style { fg: Some(Color::Cyan), bg: None, bold: true, italic: false }
            } else {
                Style { fg: Some(Color::White), bg: None, bold: false, italic: false }
            };
            let ghost tt = t@;
            out.push(line_styled(t, style));
            assert(lines_view(out@) =~= before.push(seq![(tt, style)]));
        }
        i = i + 1;
    }
    out
}

/// The lines and title of slide `n` of `total` with the given texts.
fn slide_preview(path: &str, n: usize, total: usize, texts: &Vec<String>) -> (res: (Vec<Line>, String))
    ensures
        lines_view(res.0@) == slide_lines(path@, n as nat, total as nat, texts@.map_values(|s: String| s@)),
        res.1@ == pptx_title(path@, n as nat, total as nat),
{
    let ghost tv = texts@.map_values(|s: String| s@);
    let mut header = String::from_str("PPTX \u{2022} ");
    header.append(path);
    header.append(" \u{2022} Slide ");
    push_decimal(&mut header, n as u64);
    header.append("/");
    push_decimal(&mut header, total as u64);
    header.append(" \u{2022} n/p to paginate");
    proof {
        reveal_strlit("PPTX \u{2022} ");
        reveal_strlit(" \u{2022} Slide ");
        reveal_strlit(" \u{2022} n/p to paginate");
        reveal_strlit("PPTX ");
        reveal_strlit(" Slide ");
        reveal_strlit(" n/p to paginate");
    }
    assert(header@ =~= pptx_header(path@, n as nat, total as nat));
    let mut lines: Vec<Line> = Vec::new();
    lines.push(line_styled(header, Style { fg: Some(Color::Cyan), bg: None, bold: true, italic: false }));
    lines.push(line_empty());
    let ghost head = lines_view(lines@);
    let body = if texts.len() == 0 {
        let v = vec![line_styled(String::from_str("(no text runs <a:t> in slide)"),
            Style { fg: Some(Color::DarkGray), bg: None, bold: false, italic: false })];
        assert(lines_view(v@) =~= seq![seq![("(no text runs <a:t> in slide)"@, fg_style(Color::DarkGray))]]);
        v
    } else {
        slide_text_lines(texts)
    };
    let mut body = body;
    lines.append(&mut body);
    let mut footer = String::from_str("\u{2014} End slide ");
    push_decimal(&mut footer, n as u64);
    footer.append(" \u{2014} Tab: N/A  n/p to navigate");
    proof {
        reveal_strlit("\u{2014} End slide ");
        reveal_strlit(" \u{2014} Tab: N/A  n/p to navigate");
        reveal_strlit(" End slide ");
        reveal_strlit(" ");
        reveal_strlit(" Tab: N/A  n/p to navigate");
    }
    assert(footer@ =~= pptx_footer(n as nat));
    lines.push(line_empty());
    lines.push(line_styled(footer, Style { fg: Some(Color::DarkGray), bg: None, bold: false, italic: false }));
    let mut title = String::new();
    title.append(path);
    title.append(" [Slide ");
    push_decimal(&mut title, n as u64);
    title.append("/");
    push_decimal(&mut title, total as u64);
    title.append("]");
    assert(title@ =~= pptx_title(path@, n as nat, total as nat));
    assert(head =~= seq![seq![(pptx_header(path@, n as nat, total as nat), bold_style(Color::Cyan))], Seq::empty()]);
    assert(lines_view(lines@) =~= slide_lines(path@, n as nat, total as nat, tv));
    (lines, title)
}

/// The names' texts of a stably sorted list of strings are the texts
/// stably sorted.
proof fn lemma_sorted_texts(out: Seq<String>, inp: Seq<String>)
    requires
        stably_sorted_by(out, inp, |s: String| name_key(s)),
    ensures
        stably_sorted_by(out.map_values(|s: String| s@), inp.map_values(|s: String| s@), |s: Seq<char>| (false, s)),
{
    let kf = |s: String| name_key(s);
    let p = choose|p: Seq<int>| {
        &&& #[trigger] crate::order::is_permutation_map(p, inp.len())
        &&& out.len() == inp.len()
        &&& forall|k: int| 0 <= k < out.len() ==> out[k] == inp[#[trigger] p[k]]
        &&& forall|i: int, j: int| 0 <= i < j < out.len() ==> {
            &&& !crate::order::key_lt(kf(#[trigger] out[j]), kf(#[trigger] out[i]))
            &&& (!crate::order::key_lt(kf(out[i]), kf(out[j])) ==> p[i] < p[j])
        }
    };
    let ov = out.map_values(|s: String| s@);
    let iv = inp.map_values(|s: String| s@);
    assert(crate::order::is_permutation_map(p, iv.len()));
    assert forall|k: int| 0 <= k < ov.len() implies ov[k] == iv[#[trigger] p[k]] by {
        assert(out[k] == inp[p[k]]);
    }
    assert forall|i: int, j: int| 0 <= i < j < ov.len() implies {
        &&& !crate::order::key_lt((false, #[trigger] ov[j]), (false, #[trigger] ov[i]))
        &&& (!crate::order::key_lt((false, ov[i]), (false, ov[j])) ==> p[i] < p[j])
    } by {
        assert(kf(out[i]) == (false, ov[i]));
        assert(kf(out[j]) == (false, ov[j]));
    }
}

/// The preview of slide `slide_idx` (clamped to the last slide) of
/// presentation data: a heading with the slide number, the slide's texts
/// and a closing line; or why there is none.
pub fn preview_pptx(path: &str, data: &[u8], slide_idx: usize, meta: FileMeta) -> (res: Result<PreviewResult, PreviewError>)
    ensures
        match zip_names_of(data@) {
            Err(e) => res matches Err(PreviewError::Decode(m)) && m@ == "zip open pptx: "@ + e,
            Ok(entries) => exists|names: Seq<Seq<char>>| {
                &&& stably_sorted_by(names, slide_names(entries), |s: Seq<char>| (false, s))
                &&& match #[trigger] slide_outcome(data@, path@, slide_idx as nat, names) {
                    Ok((ls, t)) => res matches Ok(PreviewResult::Text { lines, title, meta: m })
                        && lines_view(lines@) == ls && title@ == t && m == meta,
                    Err(msg) => res matches Err(PreviewError::Decode(m)) && m@ == msg,
                }
            },
        },
{
    let entries = match zip_entry_names(data) {
        Err(e) => {
            let mut m = String::from_str("zip open pptx: ");
            m.append(e.as_str());
            return Err(PreviewError::Decode(m));
        }
        Ok(v) => v,
    };
    let ghost ev = entries@.map_values(|n: Option<String>| match n { Some(s) => Some(s@), None => None });
    let names = collect_slide_names(entries);
    let mut keys: Vec<(bool, Vec<char>)> = Vec::new();
    let mut k: usize = 0;
    while k < names.len()
        invariant
            0 <= k <= names@.len(),
            keys@.len() == k,
            forall|i: int| 0 <= i < k ==> (#[trigger] keys@[i]).0 == name_key(names@[i]).0 && keys@[i].1@ == name_key(names@[i]).1,
        decreases names.len() - k,
    {
        keys.push((false, chars_of(names[k].as_str())));
        k = k + 1;
    }
    let ghost nv = names@;
    let sorted = stable_sort_by_key(names, keys, Ghost(|s: String| name_key(s)));
    let ghost sv = sorted@.map_values(|s: String| s@);
    proof {
        lemma_sorted_texts(sorted@, nv);
        assert(nv.map_values(|s: String| s@) == slide_names(ev));
    }
    if sorted.len() == 0 {
        assert(sv.len() == 0);
        return Err(PreviewError::Decode(String::from_str("no slides found in pptx")));
    }
    let total = sorted.len();
    let idx = if slide_idx < total - 1 { slide_idx } else { total - 1 };
    let slide = &sorted[idx];
    assert(slide@ == sv[idx as int]);
    match zip_entry_text(data, slide.as_str()) {
        ZipText::OpenFailed(e) => {
            let mut m = String::from_str("zip open 2: ");
            m.append(e.as_str());
            Err(PreviewError::Decode(m))
        }
        ZipText::EntryFailed(e) => {
            let mut m = String::from_str("slide ");
            m.append(slide.as_str());
            m.append(": ");
            m.append(e.as_str());
            Err(PreviewError::Decode(m))
        }
        ZipText::ReadFailed(e) => {
            let mut m = String::from_str("read slide: ");
            m.append(e.as_str());
            Err(PreviewError::Decode(m))
        }
        ZipText::Text(xml) => {
            let texts = extract_a_t(xml.as_str());
            let (lines, title) = slide_preview(path, idx + 1, total, &texts);
            proof {
                assert(slide_outcome(data@, path@, slide_idx as nat, sv) == Ok::<(Seq<Seq<Run>>, Seq<char>), Seq<char>>(
                    (slide_lines(path@, (idx + 1) as nat, total as nat, texts@.map_values(|s: String| s@)),
                    pptx_title(path@, (idx + 1) as nat, total as nat))));
            }
            Ok(PreviewResult::Text { lines, title, meta })
        }
    }
}


// ---------------------------------------------------------------------------
// Word documents
// ---------------------------------------------------------------------------

/// A paragraph of a Word document, read by `docx-rs`.
#[verifier::external_type_specification]
#[verifier::external_body]
pub struct ExDocxParagraph(docx_rs::Paragraph);

/// A table of a Word document, read by `docx-rs`.
#[verifier::external_type_specification]
#[verifier::external_body]
pub struct ExDocxTable(docx_rs::Table);

/// A child of a run: text, or something else (tab, break, drawing, …).
#[derive(Debug)]
pub enum DocRun {
    Text(String),
    Other,
}

/// A child of a paragraph: a run with its children, or something else.
#[derive(Debug)]
pub enum DocInline {
    Run(Vec<DocRun>),
    Other,
}

/// A paragraph: its children and its style name, if any.
#[derive(Debug)]
pub struct DocPara {
    pub children: Vec<DocInline>,
    pub style: Option<String>,
}

/// A content item of a table cell: a paragraph, or something else.
#[derive(Debug)]
pub enum DocCell {
    Paragraph(DocPara),
    Other,
}

/// A block of a document body: a paragraph, a table (rows of cells of
/// contents), or something else.
#[derive(Debug)]
pub enum DocBlock {
    Paragraph(DocPara),
    Table(Vec<Vec<Vec<DocCell>>>),
    Other,
}

/// The content of a `DocRun`.
pub enum DocRunView {
    Text(Seq<char>),
    Other,
}

/// The content of a `DocInline`.
pub enum DocInlineView {
    Run(Seq<DocRunView>),
    Other,
}

/// The content of a `DocPara`.
pub struct DocParaView {
    pub children: Seq<DocInlineView>,
    pub style: Option<Seq<char>>,
}

/// The content of a `DocCell`.
pub enum DocCellView {
    Paragraph(DocParaView),
    Other,
}

/// The content of a `DocBlock`.
pub enum DocBlockView {
    Paragraph(DocParaView),
    Table(Seq<Seq<Seq<DocCellView>>>),
    Other,
}

pub open spec fn run_view(r: DocRun) -> DocRunView {
    match r {
        DocRun::Text(t) => DocRunView::Text(t@),
        DocRun::Other => DocRunView::Other,
    }
}

pub open spec fn inline_view(c: DocInline) -> DocInlineView {
    match c {
        DocInline::Run(rs) => DocInlineView::Run(rs@.map_values(|r: DocRun| run_view(r))),
        DocInline::Other => DocInlineView::Other,
    }
}

pub open spec fn para_view(p: DocPara) -> DocParaView {
    DocParaView {
        children: p.children@.map_values(|c: DocInline| inline_view(c)),
        style: match p.style { Some(s) => Some(s@), None => None },
    }
}

pub open spec fn cell_view(c: DocCell) -> DocCellView {
    match c {
        DocCell::Paragraph(p) => DocCellView::Paragraph(para_view(p)),
        DocCell::Other => DocCellView::Other,
    }
}

pub open spec fn table_view(rows: Seq<Vec<Vec<DocCell>>>) -> Seq<Seq<Seq<DocCellView>>> {
    rows.map_values(|r: Vec<Vec<DocCell>>| r@.map_values(|c: Vec<DocCell>| c@.map_values(|x: DocCell| cell_view(x))))
}

pub open spec fn block_view(b: DocBlock) -> DocBlockView {
    match b {
        DocBlock::Paragraph(p) => DocBlockView::Paragraph(para_view(p)),
        DocBlock::Table(rows) => DocBlockView::Table(table_view(rows@)),
        DocBlock::Other => DocBlockView::Other,
    }
}

/// The body of a Word document as `docx_rs::read_docx` reads it (the
/// document's children, with paragraphs' run texts and style names and
/// tables' cell contents), or the error's text.
pub uninterp spec fn docx_blocks_of(data: Seq<u8>) -> Result<Seq<DocBlockView>, Seq<char>>;

/// Part of `read_docx_blocks`'s conversion: a `docx-rs` paragraph's style
/// name and its children, runs with their texts, one for one.
#[verifier::external_body]
fn docx_para(p: &docx_rs::Paragraph) -> DocPara {
    DocPara {
        style: p.property.style.as_ref().map(|s| s.val.clone()),
        children: p.children.iter().map(|c| match c {
            ParagraphChild::Run(r) => DocInline::Run(r.children.iter().map(|x| match x {
                RunChild::Text(t) => DocRun::Text(t.text.clone()), _ => DocRun::Other }).collect()),
            _ => DocInline::Other,
        }).collect(),
    }
}

/// Part of `read_docx_blocks`'s conversion: a `docx-rs` table's rows of
/// cells of contents, one for one.
#[verifier::external_body]
fn docx_table(t: &docx_rs::Table) -> Vec<Vec<Vec<DocCell>>> {
    t.rows.iter().map(|TableChild::TableRow(r)| r.cells.iter().map(|TableRowChild::TableCell(c)| c.children.iter()
        .map(|x| match x { TableCellContent::Paragraph(p) => DocCell::Paragraph(docx_para(p)), _ => DocCell::Other })
        .collect()).collect()).collect()
}

/// Reads the body of a Word document with `docx_rs::read_docx`, on a
/// worker thread of its own: `docx-rs` unwraps the result of reading each
/// ZIP member and so panics on a corrupt compressed member, and such a
/// panic ends that thread only. `None` when the reading did not complete
/// that way, or no runtime could be built for it. Left unsaid: tokio itself
/// panics when the operating system cannot start a thread.
#[verifier::external_body]
fn read_docx_blocks(data: &[u8]) -> (res: Option<Result<Vec<DocBlock>, String>>)
    ensures
        res matches Some(r) ==> match r {
            Ok(v) => docx_blocks_of(data@) == Ok::<Seq<DocBlockView>, Seq<char>>(v@.map_values(|b: DocBlock| block_view(b))),
            Err(e) => docx_blocks_of(data@) == Err::<Seq<DocBlockView>, Seq<char>>(e@),
        },
{
    let ((tx, rx), data) = (channel(), data.to_vec());
    let rt = Builder::new_current_thread().build().ok()?;
    rt.spawn_blocking(move || tx.send(docx_rs::read_docx(&data).map_err(|e| e.to_string()).map(|d| d.document.children.iter()
        .map(|c| match c {
            DocumentChild::Paragraph(p) => DocBlock::Paragraph(docx_para(p)),
            DocumentChild::Table(t) => DocBlock::Table(docx_table(t)),
            _ => DocBlock::Other,
        }).collect())));
    let res = rx.recv().ok();
    rt.shutdown_background();
    res
}

/// The texts of a run's children, concatenated.
pub open spec fn run_text(rs: Seq<DocRunView>) -> Seq<char>
    decreases rs.len(),
{
    if rs.len() == 0 {
        Seq::empty()
    } else {
        run_text(rs.drop_last()) + match rs.last() { DocRunView::Text(t) => t, DocRunView::Other => Seq::empty() }
    }
}

/// The texts of a paragraph's runs, concatenated.
pub open spec fn inline_text(cs: Seq<DocInlineView>) -> Seq<char>
    decreases cs.len(),
{
    if cs.len() == 0 {
        Seq::empty()
    } else {
        inline_text(cs.drop_last()) + match cs.last() { DocInlineView::Run(rs) => run_text(rs), DocInlineView::Other => Seq::empty() }
    }
}

/// The text of a paragraph.
pub open spec fn para_text(p: DocParaView) -> Seq<char> {
    inline_text(p.children)
}

/// Whether a paragraph is a heading: its style name contains "Heading".
pub open spec fn is_heading_para(p: DocParaView) -> bool {
    match p.style { Some(s) => contains_seq(s, "Heading"@), None => false }
}

/// The text of a table cell: each paragraph's text followed by a space,
/// trimmed.
pub open spec fn cell_raw(cs: Seq<DocCellView>) -> Seq<char>
    decreases cs.len(),
{
    if cs.len() == 0 {
        Seq::empty()
    } else {
        cell_raw(cs.drop_last()) + match cs.last() { DocCellView::Paragraph(p) => para_text(p).push(' '), DocCellView::Other => Seq::empty() }
    }
}

/// Texts joined with " | ".
pub open spec fn join_cells(ts: Seq<Seq<char>>) -> Seq<char>
    decreases ts.len(),
{
    if ts.len() == 0 {
        Seq::empty()
    } else if ts.len() == 1 {
        ts[0]
    } else {
        join_cells(ts.drop_last()) + " | "@ + ts.last()
    }
}

/// The line of a table row: "  | a | b |" in white, or none when every cell
/// is empty.
pub open spec fn row_line(row: Seq<Seq<DocCellView>>) -> Seq<Seq<Run>> {
    let texts = row.map_values(|c: Seq<DocCellView>| trimmed(cell_raw(c)));
    if forall|i: int| 0 <= i < texts.len() ==> texts[i].len() == 0 {
        Seq::empty()
    } else {
        seq![seq![("  | "@ + join_cells(texts) + " |"@, fg_style(Color::White))]]
    }
}

/// The lines of a table: its row count, then a line per row with text.
pub open spec fn table_lines(rows: Seq<Seq<Seq<DocCellView>>>) -> Seq<Seq<Run>> {
    seq![seq![("  [Table "@ + decimal(rows.len()) + " rows]"@, fg_style(Color::DarkGray))]]
        + rows_lines(rows)
}

pub open spec fn rows_lines(rows: Seq<Seq<Seq<DocCellView>>>) -> Seq<Seq<Run>>
    decreases rows.len(),
{
    if rows.len() == 0 { Seq::empty() } else { rows_lines(rows.drop_last()) + row_line(rows.last()) }
}

/// How many paragraphs a preview shows before it stops.
pub const DOCX_MAX_PARAS: usize = 400;

/// The state of the body rendering: lines, paragraphs shown, stopped.
pub type DocxState = (Seq<Seq<Run>>, nat, bool);

/// One block's effect: a paragraph with text becomes a line (cyan bold for
/// a heading, white otherwise), and after the 401st the preview stops with
/// a note; a table shows its row count and its rows.
pub open spec fn docx_step(st: DocxState, b: DocBlockView) -> DocxState {
    let (lines, count, stopped) = st;
    if stopped {
        st
    } else {
        match b {
            DocBlockView::Paragraph(p) => {
                let t = trimmed(para_text(p));
                if t.len() == 0 {
                    st
                } else {
                    let style = if is_heading_para(p) { bold_style(Color::Cyan) } else { fg_style(Color::White) };
                    let l2 = lines.push(seq![(t, style)]);
                    if count + 1 > DOCX_MAX_PARAS {
                        (l2.push(seq![(seq!['\u{2026}'] + " truncated (400 paras)"@, fg_style(Color::Yellow))]), count + 1, true)
                    } else {
                        (l2, count + 1, false)
                    }
                }
            },
            DocBlockView::Table(rows) => (lines + table_lines(rows), count, false),
            DocBlockView::Other => st,
        }
    }
}

pub open spec fn docx_run(bs: Seq<DocBlockView>) -> DocxState
    decreases bs.len(),
{
    if bs.len() == 0 { (Seq::empty(), 0, false) } else { docx_step(docx_run(bs.drop_last()), bs.last()) }
}

/// The heading line of a Word document preview.
pub open spec fn docx_header(path: Seq<char>, size: nat) -> Seq<char> {
    "DOCX "@ + seq!['\u{2022}', ' '] + path + seq![' ', '\u{2022}', ' '] + human_size_spec(size, 4)
}

/// The lines of a Word document preview: heading, empty line, the body
/// (or a note when it has no paragraph and no other line), an empty line
/// and the key hint.
pub open spec fn docx_lines(path: Seq<char>, size: nat, bs: Seq<DocBlockView>) -> Seq<Seq<Run>> {
    let (body, count, _stopped) = docx_run(bs);
    seq![seq![(docx_header(path, size), bold_style(Color::Cyan))], Seq::empty()]
        + body
        + (if count == 0 && body.len() == 0 {
            seq![seq![("(empty document or no paragraphs found)"@, fg_style(Color::DarkGray))]]
        } else {
            Seq::empty()
        })
        + seq![Seq::empty(), seq![("Tab: sheets N/A  n/p: disabled"@, fg_style(Color::DarkGray))]]
}

fn doc_run_text(rs: &Vec<DocRun>, out: &mut String)
    ensures
        final(out)@ == old(out)@ + run_text(rs@.map_values(|r: DocRun| run_view(r))),
{
    let ghost rv = rs@.map_values(|r: DocRun| run_view(r));
    let ghost start = out@;
    let mut i: usize = 0;
    while i < rs.len()
        invariant
            0 <= i <= rs@.len(),
            rv == rs@.map_values(|r: DocRun| run_view(r)),
            out@ == start + run_text(rv.take(i as int)),
        decreases rs.len() - i,
    {
        assert(rv.take(i + 1).drop_last() =~= rv.take(i as int));
        match &rs[i] {
            DocRun::Text(t) => {
                out.append(t.as_str());
            }
            DocRun::Other => {}
        }
        i = i + 1;
        assert(out@ =~= start + run_text(rv.take(i as int)));
    }
    assert(rv.take(rs@.len() as int) =~= rv);
}

/// Appends the text of a paragraph.
fn doc_para_text(p: &DocPara, out: &mut String)
    ensures
        final(out)@ == old(out)@ + para_text(para_view(*p)),
{
    let ghost cv = p.children@.map_values(|c: DocInline| inline_view(c));
    let ghost start = out@;
    let mut i: usize = 0;
    while i < p.children.len()
        invariant
            0 <= i <= p.children@.len(),
            cv == p.children@.map_values(|c: DocInline| inline_view(c)),
            out@ == start + inline_text(cv.take(i as int)),
        decreases p.children.len() - i,
    {
        assert(cv.take(i + 1).drop_last() =~= cv.take(i as int));
        let ghost mid = out@;
        match &p.children[i] {
            DocInline::Run(rs) => {
                doc_run_text(rs, out);
            }
            DocInline::Other => {}
        }
        i = i + 1;
        assert(out@ =~= start + inline_text(cv.take(i as int)));
    }
    assert(cv.take(p.children@.len() as int) =~= cv);
}

/// The trimmed text of a table cell.
fn doc_cell_text(cs: &Vec<DocCell>) -> (res: String)
    ensures
        res@ == trimmed(cell_raw(cs@.map_values(|x: DocCell| cell_view(x)))),
{
    let ghost cv = cs@.map_values(|x: DocCell| cell_view(x));
    let mut raw = String::new();
    let mut i: usize = 0;
    while i < cs.len()
        invariant
            0 <= i <= cs@.len(),
            cv == cs@.map_values(|x: DocCell| cell_view(x)),
            raw@ == cell_raw(cv.take(i as int)),
        decreases cs.len() - i,
    {
        assert(cv.take(i + 1).drop_last() =~= cv.take(i as int));
        let ghost mid = raw@;
        match &cs[i] {
            DocCell::Paragraph(p) => {
                doc_para_text(p, &mut raw);
                push_char(&mut raw, ' ');
            }
            DocCell::Other => {}
        }
        i = i + 1;
        assert(raw@ =~= cell_raw(cv.take(i as int)));
    }
    assert(cv.take(cs@.len() as int) =~= cv);
    trim_text(raw.as_str())
}

/// The lines of one table row (none or one).
fn doc_row_line(row: &Vec<Vec<DocCell>>) -> (res: Vec<Line>)
    ensures
        lines_view(res@) == row_line(row@.map_values(|c: Vec<DocCell>| c@.map_values(|x: DocCell| cell_view(x)))),
{
    let ghost rv = row@.map_values(|c: Vec<DocCell>| c@.map_values(|x: DocCell| cell_view(x)));
    let ghost texts = rv.map_values(|c: Seq<DocCellView>| trimmed(cell_raw(c)));
    let mut joined = String::new();
    let mut any = false;
    let mut i: usize = 0;
    while i < row.len()
        invariant
            0 <= i <= row@.len(),
            rv == row@.map_values(|c: Vec<DocCell>| c@.map_values(|x: DocCell| cell_view(x))),
            texts == rv.map_values(|c: Seq<DocCellView>| trimmed(cell_raw(c))),
            joined@ == join_cells(texts.take(i as int)),
            any == exists|j: int| 0 <= j < i && texts[j].len() != 0,
        decreases row.len() - i,
    {
        let t = doc_cell_text(&row[i]);
        assert(t@ == texts[i as int]);
        if i > 0 {
            joined.append(" | ");
        }
        joined.append(t.as_str());
        if !t.as_str().is_empty() {
            any = true;
        }
        proof {
            let nt = texts.take(i + 1);
            assert(nt.drop_last() =~= texts.take(i as int));
            if i == 0 {
                assert(joined@ =~= nt[0]);
            } else {
                assert(joined@ =~= join_cells(texts.take(i as int)) + " | "@ + nt.last());
            }
        }
        i = i + 1;
    }
    assert(texts.take(row@.len() as int) =~= texts);
    if any {
        let mut s = String::from_str("  | ");
        s.append(joined.as_str());
        s.append(" |");
        let v = vec![line_styled(s, Style { fg: Some(Color::White), bg: None, bold: false, italic: false })];
        assert(lines_view(v@) =~= row_line(rv));
        v
    } else {
        let v: Vec<Line> = Vec::new();
        assert(lines_view(v@) =~= row_line(rv));
        v
    }
}

/// The lines of a table.
fn doc_table_lines(rows: &Vec<Vec<Vec<DocCell>>>) -> (res: Vec<Line>)
    ensures
        lines_view(res@) == table_lines(table_view(rows@)),
{
    let ghost tv = table_view(rows@);
    let mut s = String::from_str("  [Table ");
    push_decimal(&mut s, rows.len() as u64);
    s.append(" rows]");
    let mut out = vec![line_styled(s, Style { fg: Some(Color::DarkGray), bg: None, bold: false, italic: false })];
    let ghost head = lines_view(out@);
    let mut i: usize = 0;
    while i < rows.len()
        invariant
            0 <= i <= rows@.len(),
            tv == table_view(rows@),
            tv.len() == rows@.len(),
            lines_view(out@) == head + rows_lines(tv.take(i as int)),
        decreases rows.len() - i,
    {
        assert(tv.take(i + 1).drop_last() =~= tv.take(i as int));
        let mut rl = doc_row_line(&rows[i]);
        let ghost before = lines_view(out@);
        let ghost rlv = lines_view(rl@);
        out.append(&mut rl);
        assert(lines_view(out@) =~= before + rlv);
        i = i + 1;
        assert(lines_view(out@) =~= head + rows_lines(tv.take(i as int)));
    }
    assert(tv.take(rows@.len() as int) =~= tv);
    assert(lines_view(out@) =~= table_lines(tv));
    out
}

/// The lines of a Word document preview from its body blocks, for a file
/// `path` of `size` bytes.
pub fn docx_preview_lines(path: &str, size: u64, blocks: &Vec<DocBlock>) -> (res: Vec<Line>)
    ensures
        lines_view(res@) == docx_lines(path@, size as nat, blocks@.map_values(|b: DocBlock| block_view(b))),
{
    let ghost bv = blocks@.map_values(|b: DocBlock| block_view(b));
    let mut header = String::from_str("DOCX \u{2022} ");
    header.append(path);
    header.append(" \u{2022} ");
    let hs = human_size(size);
    header.append(hs.as_str());
    proof {
        reveal_strlit("DOCX \u{2022} ");
        reveal_strlit(" \u{2022} ");
        reveal_strlit("DOCX ");
    }
    assert(header@ =~= docx_header(path@, size as nat));
    let mut body: Vec<Line> = Vec::new();
    let mut count: usize = 0;
    let mut stopped = false;
    let mut i: usize = 0;
    while i < blocks.len() && !stopped
        invariant
            0 <= i <= blocks@.len(),
            bv == blocks@.map_values(|b: DocBlock| block_view(b)),
            count <= i,
            docx_run(bv.take(i as int)) == (lines_view(body@), count as nat, stopped),
        decreases blocks.len() - i,
    {
        assert(bv.take(i + 1).drop_last() =~= bv.take(i as int));
        let ghost before = lines_view(body@);
        match &blocks[i] {
            DocBlock::Paragraph(p) => {
                let mut raw = String::new();
                doc_para_text(p, &mut raw);
                let t = trim_text(raw.as_str());
                if !t.as_str().is_empty() {
                    let heading = match &p.style {
                        Some(st) => str_contains(st.as_str(), "Heading"),
                        None => false,
                    };
                    let style = if heading {
                        Style { fg: Some(Color::Cyan), bg: None, bold: true, italic: false }
                    } else {
                        Style { fg: Some(Color::White), bg: None, bold: false, italic: false }
                    };
                    let ghost tt = t@;
                    body.push(line_styled(t, style));
                    count = count + 1;
                    assert(lines_view(body@) =~= before.push(seq![(tt, style)]));
                    if count > DOCX_MAX_PARAS {
                        let mut note = String::new();
                        push_char(&mut note, '\u{2026}');
                        note.append(" truncated (400 paras)");
                        let ghost mid = lines_view(body@);
                        let ghost nv = note@;
                        body.push(line_styled(note, Style { fg: Some(Color::Yellow), bg: None, bold: false, italic: false }));
                        assert(nv =~= seq!['\u{2026}'] + " truncated (400 paras)"@);
                        assert(lines_view(body@) =~= mid.push(seq![(nv, fg_style(Color::Yellow))]));
                        stopped = true;
                    }
                }
            }
            DocBlock::Table(rows) => {
                let mut tl = doc_table_lines(rows);
                let ghost tlv = lines_view(tl@);
                body.append(&mut tl);
                assert(lines_view(body@) =~= before + tlv);
            }
            DocBlock::Other => {}
        }
        i = i + 1;
    }
    proof {
        if stopped {
            lemma_docx_stopped(bv, i as int);
        } else {
            assert(bv.take(blocks@.len() as int) =~= bv);
        }
    }
    let mut out: Vec<Line> = Vec::new();
    out.push(line_styled(header, Style { fg: Some(Color::Cyan), bg: None, bold: true, italic: false }));
    out.push(line_empty());
    let ghost head = lines_view(out@);
    let ghost bodyv = lines_view(body@);
    let no_body = count == 0 && body.len() == 0;
    out.append(&mut body);
    let ghost mid = lines_view(out@);
    assert(mid =~= head + bodyv);
    if no_body {
        out.push(line_styled(String::from_str("(empty document or no paragraphs found)"),
            Style { fg: Some(Color::DarkGray), bg: None, bold: false, italic: false }));
    }
    out.push(line_empty());
    out.push(line_styled(String::from_str("Tab: sheets N/A  n/p: disabled"),
        Style { fg: Some(Color::DarkGray), bg: None, bold: false, italic: false }));
    assert(lines_view(out@) =~= docx_lines(path@, size as nat, bv));
    out
}

/// Once stopped, later blocks change nothing.
proof fn lemma_docx_stopped(bs: Seq<DocBlockView>, k: int)
    requires
        0 <= k <= bs.len(),
        docx_run(bs.take(k)).2,
    ensures
        docx_run(bs) == docx_run(bs.take(k)),
    decreases bs.len() - k,
{
    if k < bs.len() {
        assert(bs.take(k + 1).drop_last() =~= bs.take(k));
        lemma_docx_stopped(bs, k + 1);
    } else {
        assert(bs.take(k) =~= bs);
    }
}

/// The preview of a Word document of `size` bytes: its paragraphs and
/// tables as text; or the read error. A reader that stops on malformed
/// data instead of returning gives `Panicked`.
pub fn preview_docx(path: &str, data: &[u8], size: u64, meta: FileMeta) -> (res: Result<PreviewResult, PreviewError>)
    ensures
        res matches Err(PreviewError::Panicked) || match docx_blocks_of(data@) {
            Err(e) => res matches Err(PreviewError::Decode(m)) && m@ == "docx read: "@ + e,
            Ok(bs) => res matches Ok(PreviewResult::Text { lines, title, meta: m })
                && lines_view(lines@) == docx_lines(path@, size as nat, bs) && title@ == path@ && m == meta,
        },
{
    let read = match read_docx_blocks(data) {
        None => return Err(PreviewError::Panicked),
        Some(r) => r,
    };
    match read {
        Err(e) => {
            let mut m = String::from_str("docx read: ");
            m.append(e.as_str());
            Err(PreviewError::Decode(m))
        }
        Ok(blocks) => {
            let lines = docx_preview_lines(path, size, &blocks);
            let mut title = String::new();
            title.append(path);
            Ok(PreviewResult::Text { lines, title, meta })
        }
    }
}


// ---------------------------------------------------------------------------
// The office preview
// ---------------------------------------------------------------------------

/// What the office preview gives: "too large" above 100 MB unless forced;
/// by extension the DOCX text, the first sheet or the first slide; else
/// "unsupported".
pub open spec fn office_outcome(path: Seq<char>, data: Seq<u8>, size: u64, forced: bool, meta: FileMeta, res: Result<PreviewResult, PreviewError>) -> bool {
    &&& (size > 100 * 1024 * 1024 && !forced ==> res == Err::<PreviewResult, PreviewError>(PreviewError::TooLarge(size, (100 * 1024 * 1024) as u64)))
    &&& (!(size > 100 * 1024 * 1024 && !forced) && is_docx_ext(lower_extension(path))
        ==> res matches Err(PreviewError::Panicked) || match docx_blocks_of(data) {
        Err(e) => res matches Err(PreviewError::Decode(m)) && m@ == "docx read: "@ + e,
        Ok(bs) => res matches Ok(PreviewResult::Text { lines, title, meta: m })
            && lines_view(lines@) == docx_lines(path, size as nat, bs) && title@ == path && m == meta,
    })
    &&& (!(size > 100 * 1024 * 1024 && !forced) && is_sheet_ext(lower_extension(path))
        ==> res matches Err(PreviewError::Panicked)
        || match sheet_table(data, workbook_opened(data, path_extension(path)), 0) {
        Ok((h, rows)) => res matches Ok(PreviewResult::Table { headers, rows: r, meta: m })
            && record_view(headers) == h && rows_view(r@) == rows && m == meta,
        Err(msg) => res matches Err(PreviewError::Decode(m)) && m@ == msg,
    })
    &&& (!(size > 100 * 1024 * 1024 && !forced) && is_slides_ext(lower_extension(path)) ==> match zip_names_of(data) {
        Err(e) => res matches Err(PreviewError::Decode(m)) && m@ == "zip open pptx: "@ + e,
        Ok(entries) => exists|names: Seq<Seq<char>>| {
            &&& stably_sorted_by(names, slide_names(entries), |s: Seq<char>| (false, s))
            &&& match #[trigger] slide_outcome(data, path, 0, names) {
                Ok((ls, t)) => res matches Ok(PreviewResult::Text { lines, title, meta: m })
                    && lines_view(lines@) == ls && title@ == t && m == meta,
                Err(msg) => res matches Err(PreviewError::Decode(m)) && m@ == msg,
            }
        },
    })
    &&& (!(size > 100 * 1024 * 1024 && !forced) && !is_docx_ext(lower_extension(path)) && !is_sheet_ext(lower_extension(path))
        && !is_slides_ext(lower_extension(path))
        ==> (res matches Err(PreviewError::Unsupported(m)) && m@ == "office ext "@ + lower_extension(path)))
}

/// No extension names two office formats.
proof fn lemma_office_exts_disjoint(ext: Seq<char>)
    ensures
        !(is_docx_ext(ext) && is_sheet_ext(ext)),
        !(is_docx_ext(ext) && is_slides_ext(ext)),
        !(is_sheet_ext(ext) && is_slides_ext(ext)),
{
    reveal_strlit("docx");
    reveal_strlit("xlsx");
    reveal_strlit("xls");
    reveal_strlit("ods");
    reveal_strlit("pptx");
    reveal_strlit("ppt");
    assert("docx"@[0] == 'd');
    assert("xlsx"@[0] == 'x');
    assert("xls"@[0] == 'x');
    assert("ods"@[0] == 'o');
    assert("pptx"@[0] == 'p');
    assert("ppt"@[0] == 'p');
}

impl OfficeHandler {
    /// The preview of an office file of `size` bytes: "too large" above the
    /// limit unless forced; DOCX text, the first sheet of a spreadsheet or
    /// the first slide of a presentation by extension; "unsupported"
    /// otherwise.
    pub fn preview(&self, path: &str, data: &[u8], size: u64, forced: bool, meta: FileMeta) -> (res: Result<PreviewResult, PreviewError>)
        ensures
            office_outcome(path@, data@, size, forced, meta, res),
    {
        if let Err(e) = crate::preview::check_size(size, self.file_size_limit(), forced) {
            return Err(e);
        }
        let ext = lower_extension_of(path);
        proof {
            lemma_office_exts_disjoint(ext@);
        }
        if str_eq(ext.as_str(), "docx") {
            preview_docx(path, data, size, meta)
        } else if ext_is_sheet(ext.as_str()) {
            preview_xlsx_with_sheet(path, data, 0, meta)
        } else if ext_is_slides(ext.as_str()) {
            preview_pptx(path, data, 0, meta)
        } else {
            let mut m = String::from_str("office ext ");
            m.append(ext.as_str());
            Err(PreviewError::Unsupported(m))
        }
    }
}

} // verus!
