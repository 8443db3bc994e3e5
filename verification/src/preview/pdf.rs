//! The PDF handler: page count and the text of the first pages.
use vstd::prelude::*;
use vstd::string::StringSliceAdditionalSpecFns;
use vstd::utf8::{decode_utf8, encode_utf8, is_char_boundary};
use crate::error::PreviewError;
use crate::preview::meta::{human_size, human_size_spec};
use crate::preview::text::{lines_view, Run};
use crate::preview::{bold_style, check_size, fg_style, line_empty, line_styled, Color, FileMeta, Line, PreviewResult, Style};
use crate::textfmt::{
    bytes_have_prefix, bytes_start_with, decimal, lower_extension, lower_extension_of, push_char, push_decimal, split_lines,
    str_eq, string_views, text_lines,
};

verus! {

/// Previews PDF documents.
pub struct PdfHandler;

/// 95 for PDF files (by extension, type or `%PDF` header), 2 otherwise.
pub open spec fn pdf_priority(path: Seq<char>, mime: Seq<char>, magic: Seq<u8>) -> u8 {
    if lower_extension(path) == "pdf"@ || mime == "application/pdf"@
        || bytes_have_prefix(magic, seq![0x25u8, 0x50u8, 0x44u8, 0x46u8]) { 95 } else { 2 }
}

impl PdfHandler {
    pub fn name(&self) -> (res: &'static str)
        ensures
            res@ == "pdf"@,
    {
        "pdf"
    }

    pub fn priority(&self, path: &str, mime: &str, magic: &[u8]) -> (res: u8)
        ensures
            res == pdf_priority(path@, mime@, magic@),
    {
        let ext = lower_extension_of(path);
        let sig = [0x25u8, 0x50u8, 0x44u8, 0x46u8];
        assert(sig@ =~= seq![0x25u8, 0x50u8, 0x44u8, 0x46u8]);
        let is_pdf = str_eq(ext.as_str(), "pdf") || str_eq(mime, "application/pdf") || bytes_start_with(magic, &sig);
        if is_pdf { 95 } else { 2 }
    }

    /// 100 MB.
    pub fn file_size_limit(&self) -> (res: u64)
        ensures
            res == 100 * 1024 * 1024,
    {
        100 * 1024 * 1024
    }
}


// ---------------------------------------------------------------------------
// The PDF preview
// ---------------------------------------------------------------------------

/// The number of pages lopdf finds in PDF data (`Document::load_mem`, then
/// `get_pages().len()`), or `None` when it cannot load the data.
pub uninterp spec fn pdf_pages_of(data: Seq<u8>) -> Option<usize>;

/// Counts the pages of PDF data with lopdf, on a worker thread of its own,
/// as `extract_pdf_text` does, so that a panic in lopdf's loader on
/// malformed data ends that thread only. `None` when the count did not
/// complete that way, or no runtime could be built for it. Left unsaid:
/// tokio itself panics when the operating system cannot start a thread.
#[verifier::external_body]
fn pdf_pages(data: &[u8]) -> (res: Option<Option<usize>>)
    ensures
        res matches Some(n) ==> n == pdf_pages_of(data@),
{
    let ((tx, rx), data) = (std::sync::mpsc::channel(), data.to_vec());
    let rt = tokio::runtime::Builder::new_current_thread().build().ok()?;
    rt.spawn_blocking(move || tx.send(lopdf::Document::load_mem(&data).ok().map(|d| d.get_pages().len())));
    let res = rx.recv().ok();
    rt.shutdown_background();
    res
}

/// The text `pdf_extract::extract_text_from_mem` extracts from PDF data, or
/// the error's text.
pub uninterp spec fn pdf_text_of(data: Seq<u8>) -> Result<Seq<char>, Seq<char>>;

/// Extracts the text of PDF data with pdf-extract, on a worker thread of
/// its own: pdf-extract panics on some malformed or unexpected input (an
/// unexpected font encoding, for one), and such a panic ends that thread
/// only. `None` when the extraction did not complete that way, or no
/// runtime could be built for it. Left unsaid: tokio itself panics when the
/// operating system cannot start a thread.
#[verifier::external_body]
fn extract_pdf_text(data: &[u8]) -> (res: Option<Result<String, String>>)
    ensures
        res matches Some(r) ==> match r {
            Ok(t) => pdf_text_of(data@) == Ok::<Seq<char>, Seq<char>>(t@),
            Err(e) => pdf_text_of(data@) == Err::<Seq<char>, Seq<char>>(e@),
        },
{
    let ((tx, rx), data) = (std::sync::mpsc::channel(), data.to_vec());
    let rt = tokio::runtime::Builder::new_current_thread().build().ok()?;
    rt.spawn_blocking(move || tx.send(pdf_extract::extract_text_from_mem(&data).map_err(|e| e.to_string())));
    let res = rx.recv().ok();
    rt.shutdown_background();
    res
}

/// How many pages of text a preview keeps, and the bytes kept per page.
pub const PDF_MAX_PAGES: usize = 2;
pub const PDF_PAGE_BYTES: usize = 4000;

/// The kept text: at most 8000 bytes of UTF-8, cut text marked with
/// "…\n[truncated to 2 pages]"; `None` when the cut would fall inside a
/// character (where slicing the text panics).
pub open spec fn pdf_limited(text: Seq<char>) -> Option<Seq<char>> {
    let b = encode_utf8(text);
    if b.len() > PDF_MAX_PAGES * PDF_PAGE_BYTES {
        if is_char_boundary(b, (PDF_MAX_PAGES * PDF_PAGE_BYTES) as int) {
            Some(decode_utf8(b.take((PDF_MAX_PAGES * PDF_PAGE_BYTES) as int)) + seq!['\u{2026}', '\n'] + "[truncated to "@
                + decimal(PDF_MAX_PAGES as nat) + " pages]"@)
        } else {
            None
        }
    } else {
        Some(text)
    }
}

/// Keeps the first two pages' worth (8000 bytes) of extracted text.
pub fn pdf_text_limited(text: String) -> (res: Option<String>)
    ensures
        match pdf_limited(text@) {
            Some(t) => res matches Some(r) && r@ == t,
            None => res is None,
        },
{
    let limit = PDF_MAX_PAGES * PDF_PAGE_BYTES;
    let ts = text.as_str();
    proof {
        broadcast use vstd::utf8::group_utf8_lib;
        assert(ts.spec_bytes() == encode_utf8(text@));
        assert(vstd::utf8::valid_utf8(encode_utf8(text@)));
    }
    if ts.as_bytes().len() > limit {
        if ts.is_char_boundary(limit) {
            let (head, _tail) = ts.split_at(limit);
            proof {
                broadcast use vstd::utf8::group_utf8_lib;
                assert(head.spec_bytes() == encode_utf8(head@));
                assert(decode_utf8(encode_utf8(head@)) == head@);
                assert(head.spec_bytes() =~= encode_utf8(text@).take(limit as int));
                assert(head@ == decode_utf8(encode_utf8(text@).take(limit as int)));
            }
            let mut out = String::new();
            out.append(head);
            push_char(&mut out, '\u{2026}');
            push_char(&mut out, '\n');
            out.append("[truncated to ");
            push_decimal(&mut out, PDF_MAX_PAGES as u64);
            out.append(" pages]");
            assert(out@ =~= pdf_limited(text@)->0);
            assert(pdf_limited(text@) is Some);
            Some(out)
        } else {
            assert(pdf_limited(text@) is None);
            None
        }
    } else {
        assert(pdf_limited(text@) == Some(text@));
        Some(text)
    }
}

/// The text a PDF preview shows: the kept text, or the extraction error;
/// `None` when keeping the text would panic.
pub open spec fn pdf_shown_text(data: Seq<u8>) -> Option<Seq<char>> {
    match pdf_text_of(data) {
        Ok(t) => pdf_limited(t),
        Err(e) => Some("(pdf text extract failed: "@ + e + ")"@),
    }
}

/// How many lines of text a PDF preview shows.
pub const PDF_MAX_LINES: usize = 200;

/// The page count shown (0 when lopdf cannot load the data).
pub open spec fn pdf_page_total(data: Seq<u8>) -> nat {
    match pdf_pages_of(data) { Some(n) => n as nat, None => 0 }
}

/// The heading line of a PDF preview.
pub open spec fn pdf_header(pages: nat, size: nat) -> Seq<char> {
    "PDF "@ + seq!['\u{2022}', ' '] + decimal(pages) + " pages "@ + seq!['\u{2022}', ' '] + human_size_spec(size, 4)
        + seq![' ', '\u{2022}'] + " Press n/p to paginate"@
}

/// The lines of a PDF preview: heading, file line, empty line, the first 200
/// lines of text in white, and a note when there are more.
pub open spec fn pdf_lines(path: Seq<char>, pages: nat, size: nat, text: Seq<char>) -> Seq<Seq<Run>> {
    let all = text_lines(text);
    let shown = all.take(if all.len() < PDF_MAX_LINES { all.len() as int } else { PDF_MAX_LINES as int });
    seq![seq![(pdf_header(pages, size), bold_style(Color::Cyan))], seq![("File: "@ + path, fg_style(Color::DarkGray))], Seq::empty()]
        + shown.map_values(|l: Seq<char>| seq![(l, fg_style(Color::White))])
        + (if all.len() > PDF_MAX_LINES {
            seq![seq![(seq!['\u{2026}'] + " truncated (first 200 lines of 2 pages shown)"@, fg_style(Color::Yellow))]]
        } else {
            Seq::empty()
        })
}

/// A PDF preview shows a heading, the file line, an empty line and then at
/// most 200 lines of text; a text of more lines adds a note that it was
/// cut.
pub proof fn lemma_pdf_line_count(path: Seq<char>, pages: nat, size: nat, text: Seq<char>)
    ensures
        text_lines(text).len() <= 200 ==> pdf_lines(path, pages, size, text).len() == 3 + text_lines(text).len(),
        text_lines(text).len() > 200 ==> pdf_lines(path, pages, size, text).len() == 204,
{
}

/// The title of a PDF preview.
pub open spec fn pdf_title(path: Seq<char>, pages: nat) -> Seq<char> {
    path + " ("@ + decimal(pages) + " pages)"@
}

/// What the PDF preview gives: "too large" above 100 MB unless forced;
/// otherwise the page count and text lines, or nothing where keeping the
/// text would cut a character or the text extraction stopped on malformed
/// data instead of returning.
pub open spec fn pdf_outcome(path: Seq<char>, data: Seq<u8>, size: u64, forced: bool, meta: FileMeta, res: Option<Result<PreviewResult, PreviewError>>) -> bool {
    &&& (size > 100 * 1024 * 1024 && !forced ==> res == Some(Err::<PreviewResult, PreviewError>(PreviewError::TooLarge(size, (100 * 1024 * 1024) as u64))))
    &&& (!(size > 100 * 1024 * 1024 && !forced) ==> match pdf_shown_text(data) {
        None => res is None,
        Some(t) => res is None || (res matches Some(Ok(PreviewResult::Text { lines, title, meta: m }))
            && lines_view(lines@) == pdf_lines(path, pdf_page_total(data), size as nat, t)
            && title@ == pdf_title(path, pdf_page_total(data)) && m == meta),
    })
}

/// The text a PDF preview shows for what the extraction gave: the kept
/// text (`None` when keeping it would cut a character), or the error.
pub fn pdf_text_shown(extracted: Result<String, String>) -> (res: Option<String>)
    ensures
        match extracted {
            Ok(t) => match pdf_limited(t@) {
                Some(k) => res matches Some(r) && r@ == k,
                None => res is None,
            },
            Err(e) => res matches Some(r) && r@ == "(pdf text extract failed: "@ + e@ + ")"@,
        },
{
    match extracted {
        Ok(t) => pdf_text_limited(t),
        Err(e) => {
            let mut m = String::from_str("(pdf text extract failed: ");
            m.append(e.as_str());
            m.append(")");
            Some(m)
        }
    }
}

/// The PDF preview of a file at `path` of `size` bytes with `pages` pages
/// and the text shown: the lines `pdf_lines` gives and the title.
pub fn pdf_preview_from(path: &str, pages: usize, size: u64, text: String, meta: FileMeta) -> (res: PreviewResult)
    ensures
        res matches PreviewResult::Text { lines, title, meta: m }
            && lines_view(lines@) == pdf_lines(path@, pages as nat, size as nat, text@)
            && title@ == pdf_title(path@, pages as nat) && m == meta,
{
    let ghost tv = text@;
    let mut header = String::from_str("PDF \u{2022} ");
    push_decimal(&mut header, pages as u64);
    header.append(" pages \u{2022} ");
    let hs = human_size(size);
    header.append(hs.as_str());
    header.append(" \u{2022} Press n/p to paginate");
    proof {
        reveal_strlit("PDF \u{2022} ");
        reveal_strlit(" pages \u{2022} ");
        reveal_strlit(" \u{2022} Press n/p to paginate");
        reveal_strlit("PDF ");
        reveal_strlit(" pages ");
        reveal_strlit(" Press n/p to paginate");
    }
    assert(header@ =~= pdf_header(pages as nat, size as nat));
    let mut file_line = String::from_str("File: ");
    file_line.append(path);
    let mut lines: Vec<Line> = Vec::new();
    lines.push(line_styled(header, Style { fg: Some(Color::Cyan), bg: None, bold: true, italic: false }));
    lines.push(line_styled(file_line, Style { fg: Some(Color::DarkGray), bg: None, bold: false, italic: false }));
    lines.push(line_empty());
    let ghost head = lines_view(lines@);
    let all = split_lines(text.as_str());
    let ghost av = string_views(all@);
    let n = if all.len() < PDF_MAX_LINES { all.len() } else { PDF_MAX_LINES };
    let mut i: usize = 0;
    while i < n
        invariant
            0 <= i <= n <= all@.len(),
            av == string_views(all@),
            lines_view(lines@) == head + av.take(i as int).map_values(|l: Seq<char>| seq![(l, fg_style(Color::White))]),
        decreases n - i,
    {
        let ghost before = lines_view(lines@);
        let l = all[i].clone();
        assert(l@ == av[i as int]);
        lines.push(line_styled(l, Style { fg: Some(Color::White), bg: None, bold: false, italic: false }));
        assert(lines_view(lines@) =~= before.push(seq![(av[i as int], fg_style(Color::White))]));
        assert(av.take(i + 1).map_values(|l: Seq<char>| seq![(l, fg_style(Color::White))])
            =~= av.take(i as int).map_values(|l: Seq<char>| seq![(l, fg_style(Color::White))]).push(seq![(av[i as int], fg_style(Color::White))]));
        i = i + 1;
        assert(lines_view(lines@) =~= head + av.take(i as int).map_values(|l: Seq<char>| seq![(l, fg_style(Color::White))]));
    }
    let ghost body = lines_view(lines@);
    if all.len() > PDF_MAX_LINES {
        let mut note = String::new();
        push_char(&mut note, '\u{2026}');
        note.append(" truncated (first 200 lines of 2 pages shown)");
        let ghost nv = note@;
        lines.push(line_styled(note, Style { fg: Some(Color::Yellow), bg: None, bold: false, italic: false }));
        assert(nv =~= seq!['\u{2026}'] + " truncated (first 200 lines of 2 pages shown)"@);
        assert(lines_view(lines@) =~= body.push(seq![(nv, fg_style(Color::Yellow))]));
    }
    assert(lines_view(lines@) =~= pdf_lines(path@, pages as nat, size as nat, tv));
    let mut title = String::new();
    title.append(path);
    title.append(" (");
    push_decimal(&mut title, pages as u64);
    title.append(" pages)");
    assert(title@ =~= pdf_title(path@, pages as nat));
    PreviewResult::Text { lines, title, meta }
}

impl PdfHandler {
    /// The preview of PDF data of `size` bytes: "too large" above the
    /// limit unless forced; otherwise the page count and the first pages'
    /// text, as `pdf_text_shown` and `pdf_preview_from` make them from what
    /// lopdf and pdf-extract give. `None` when keeping the text would cut a
    /// character (the handler panics there), or lopdf or the text
    /// extraction stopped on malformed data instead of returning.
    pub fn preview(&self, path: &str, data: &[u8], size: u64, forced: bool, meta: FileMeta) -> (res: Option<Result<PreviewResult, PreviewError>>)
        ensures
            pdf_outcome(path@, data@, size, forced, meta, res),
    {
        if let Err(e) = check_size(size, self.file_size_limit(), forced) {
            return Some(Err(e));
        }
        let pages: usize = match pdf_pages(data) {
            None => return None,
            Some(Some(n)) => n,
            Some(None) => 0,
        };
        let extracted = match extract_pdf_text(data) {
            None => return None,
            Some(r) => r,
        };
        match pdf_text_shown(extracted) {
            None => None,
            Some(text) => Some(Ok(pdf_preview_from(path, pages, size, text, meta))),
        }
    }
}

} // verus!
