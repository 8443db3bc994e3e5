//! The text handler: plain text, source code and Markdown.
use vstd::prelude::*;
use vstd::utf8::{decode_utf8, valid_utf8};
use crate::error::PreviewError;
use crate::preview::meta::{human_size, human_size_spec};
use crate::preview::{bold_style, fg_style, line_runs, plain, Color, FileMeta, Line, PreviewResult, Span, Style};
use crate::textfmt::{
    bytes_have_prefix, bytes_start_with, decimal, has_prefix, join_lines, join_with_newlines, lower_extension, lower_extension_of,
    push_char, push_decimal, split_lines, str_eq, str_in_list, str_starts_with, string_views, text_lines, texts,
};
use syntect::highlighting::FontStyle;
use pulldown_cmark::{Event, Parser, TagEnd};

verus! {

/// Files read beyond this many bytes are truncated.
pub const MAX_BYTES: usize = 2097152;
/// Files with more lines are truncated.
pub const MAX_LINES: usize = 5000;

/// Previews text files.
pub struct TextHandler;

/// Extensions of text and source files.
pub open spec fn text_extensions() -> Seq<Seq<char>> {
    seq!["txt"@, "md"@, "markdown"@, "rs"@, "py"@, "js"@, "ts"@, "tsx"@, "jsx"@, "json"@,
        "toml"@, "yaml"@, "yml"@, "sh"@, "bash"@, "zsh"@, "ps1"@, "log"@, "ini"@, "conf"@,
        "css"@, "html"@, "xml"@, "c"@, "cpp"@, "h"@, "hpp"@, "go"@, "java"@, "kt"@, "rb"@,
        "php"@, "swift"@, "dart"@, "r"@, "sql"@, "env"@]
}

/// 70 for a known text extension, 60 for another `text/*` type, 5 otherwise.
pub open spec fn text_priority(path: Seq<char>, mime: Seq<char>) -> u8 {
    if text_extensions().contains(lower_extension(path)) {
        70
    } else if has_prefix(mime, "text/"@) {
        60
    } else {
        5
    }
}

impl TextHandler {
    pub fn name(&self) -> (res: &'static str)
        ensures
            res@ == "text"@,
    {
        "text"
    }

    pub fn priority(&self, path: &str, mime: &str, _magic: &[u8]) -> (res: u8)
        ensures
            res == text_priority(path@, mime@),
    {
        let ext = lower_extension_of(path);
        let list = vec!["txt", "md", "markdown", "rs", "py", "js", "ts", "tsx", "jsx", "json",
            "toml", "yaml", "yml", "sh", "bash", "zsh", "ps1", "log", "ini", "conf",
            "css", "html", "xml", "c", "cpp", "h", "hpp", "go", "java", "kt", "rb",
            "php", "swift", "dart", "r", "sql", "env"];
        assert(texts(list@) =~= text_extensions());
        if str_in_list(ext.as_str(), &list) {
            70
        } else if str_starts_with(mime, "text/") {
            60
        } else {
            5
        }
    }

    /// Twice the read limit.
    pub fn file_size_limit(&self) -> (res: u64)
        ensures
            res == 2 * MAX_BYTES,
    {
        MAX_BYTES as u64 * 2
    }
}


// ---------------------------------------------------------------------------
// Styled runs
// ---------------------------------------------------------------------------

/// A run of text with its style.
pub type Run = (Seq<char>, Style);

/// The runs of each line.
pub open spec fn lines_view(v: Seq<Line>) -> Seq<Seq<Run>> {
    v.map_values(|l: Line| line_runs(l))
}

/// The runs of a list of spans.
pub open spec fn spans_view(v: Seq<Span>) -> Seq<Run> {
    v.map_values(|s: Span| (s.content@, s.style))
}

/// Green on a dark background, for code blocks.
pub open spec fn code_block_style() -> Style {
    Style { fg: Some(Color::Green), bg: Some(Color::Rgb(30, 30, 30)), bold: false, italic: false }
}

/// Yellow italic, for the truncation hint.
pub open spec fn hint_style() -> Style {
    Style { fg: Some(Color::Yellow), bg: None, bold: false, italic: true }
}

fn span(text: String, style: Style) -> (res: Span)
    ensures
        res.content@ == text@,
        res.style == style,
{
    Span { content: text, style }
}

fn one_run_line(text: String, style: Style) -> (res: Line)
    ensures
        line_runs(res) == seq![(text@, style)],
{
    let l = Line { spans: vec![span(text, style)] };
    assert(line_runs(l) =~= seq![(text@, style)]);
    l
}

// ---------------------------------------------------------------------------
// Markdown
// ---------------------------------------------------------------------------

/// A Markdown block tag, as the renderer tells them apart.
#[derive(Debug, Clone, Copy, PartialEq, Eq, Structural)]
pub enum MdTag {
    /// A heading of the given level (1 to 6).
    Heading(u8),
    CodeBlock,
    List,
    Item,
    Paragraph,
    Other,
}

/// A Markdown parser event, as the renderer tells them apart.
#[derive(Debug, Clone)]
pub enum MdEvent {
    Start(MdTag),
    End(MdTag),
    Text(String),
    Code(String),
    SoftBreak,
    HardBreak,
    Other,
}

/// The text-level content of a Markdown event.
pub enum MdEventView {
    Start(MdTag),
    End(MdTag),
    Text(Seq<char>),
    Code(Seq<char>),
    SoftBreak,
    HardBreak,
    Other,
}

impl View for MdEvent {
    type V = MdEventView;

    open spec fn view(&self) -> MdEventView {
        match self {
            MdEvent::Start(t) => MdEventView::Start(*t),
            MdEvent::End(t) => MdEventView::End(*t),
            MdEvent::Text(s) => MdEventView::Text(s@),
            MdEvent::Code(s) => MdEventView::Code(s@),
            MdEvent::SoftBreak => MdEventView::SoftBreak,
            MdEvent::HardBreak => MdEventView::HardBreak,
            MdEvent::Other => MdEventView::Other,
        }
    }
}

/// The events `pulldown_cmark::Parser::new` (default options) yields for a
/// Markdown text, a function of the text alone.
pub uninterp spec fn markdown_events_of(md: Seq<char>) -> Seq<MdEventView>;

/// The events of the CommonMark parser for `md`, each reduced to what the
/// renderer distinguishes (a start tag by its end tag).
#[verifier::external_body]
fn markdown_events(md: &str) -> (res: Vec<MdEvent>)
    ensures
        res@.map_values(|e: MdEvent| e@) == markdown_events_of(md@),
{
    let tag = |t: TagEnd| match t {
        TagEnd::Heading(l) => MdTag::Heading(l as u8), TagEnd::CodeBlock => MdTag::CodeBlock,
        TagEnd::List(_) => MdTag::List, TagEnd::Item => MdTag::Item,
        TagEnd::Paragraph => MdTag::Paragraph, _ => MdTag::Other,
    };
    Parser::new(md).map(|ev| match ev {
        Event::Start(t) => MdEvent::Start(tag(t.to_end())),
        Event::End(t) => MdEvent::End(tag(t)),
        Event::Text(t) => MdEvent::Text(t.to_string()),
        Event::Code(c) => MdEvent::Code(c.to_string()),
        Event::SoftBreak => MdEvent::SoftBreak, Event::HardBreak => MdEvent::HardBreak,
        _ => MdEvent::Other,
    }).collect()
}

/// The renderer's state: finished lines, the runs of the line being built,
/// whether inside a heading, whether inside a code block, list depth.
pub type MdState = (Seq<Seq<Run>>, Seq<Run>, bool, bool, nat);

/// `level` hash signs.
pub open spec fn hashes(level: nat) -> Seq<char> {
    Seq::new(level, |i: int| '#')
}

/// The style of plain text: cyan bold in a heading, green on dark in a code
/// block, white elsewhere.
pub open spec fn md_text_style(heading: bool, code: bool) -> Style {
    if heading {
        bold_style(Color::Cyan)
    } else if code {
        code_block_style()
    } else {
        fg_style(Color::White)
    }
}

/// One event's effect on the renderer: a heading starts with its hashes; a
/// heading, code block, list item or break ends the current line; a
/// paragraph that has text ends its line and adds an empty one; a list item
/// starts with a bullet; inline code is shown between back-quotes.
pub open spec fn md_step(st: MdState, ev: MdEventView) -> MdState {
    let (lines, cur, heading, code, depth) = st;
    match ev {
        MdEventView::Start(MdTag::Heading(level)) =>
            (lines, cur.push((hashes(level as nat).push(' '), bold_style(Color::Cyan))), true, code, depth),
        MdEventView::End(MdTag::Heading(_)) => (lines.push(cur), Seq::empty(), false, code, depth),
        MdEventView::Start(MdTag::CodeBlock) => (lines, cur, heading, true, depth),
        MdEventView::End(MdTag::CodeBlock) => (lines.push(cur), Seq::empty(), heading, false, depth),
        MdEventView::Start(MdTag::List) => (lines, cur, heading, code, depth + 1),
        MdEventView::End(MdTag::List) => (lines, cur, heading, code, if depth > 0 { (depth - 1) as nat } else { 0 }),
        MdEventView::Start(MdTag::Item) => (lines, cur.push((seq!['\u{2022}', ' '], fg_style(Color::Yellow))), heading, code, depth),
        MdEventView::End(MdTag::Item) => (lines.push(cur), Seq::empty(), heading, code, depth),
        MdEventView::End(MdTag::Paragraph) =>
            if cur.len() > 0 { (lines.push(cur).push(Seq::empty()), Seq::empty(), heading, code, depth) } else { st },
        MdEventView::Text(t) => (lines, cur.push((t, md_text_style(heading, code))), heading, code, depth),
        MdEventView::Code(c) => (lines, cur.push((seq!['`'] + c + seq!['`'], fg_style(Color::Green))), heading, code, depth),
        MdEventView::SoftBreak => (lines.push(cur), Seq::empty(), heading, code, depth),
        MdEventView::HardBreak => (lines.push(cur), Seq::empty(), heading, code, depth),
        _ => st,
    }
}

/// The renderer's state after a sequence of events.
pub open spec fn md_run(evs: Seq<MdEventView>) -> MdState
    decreases evs.len(),
{
    if evs.len() == 0 {
        (Seq::empty(), Seq::empty(), false, false, 0)
    } else {
        md_step(md_run(evs.drop_last()), evs.last())
    }
}

/// The rendered lines of a Markdown text from its events: the finished lines
/// and the unfinished one if it has runs; when that is nothing, the whole
/// text as one white line.
pub open spec fn markdown_lines(md: Seq<char>, evs: Seq<MdEventView>) -> Seq<Seq<Run>> {
    let (lines, cur, _h, _c, _d) = md_run(evs);
    let all = if cur.len() > 0 { lines.push(cur) } else { lines };
    if all.len() == 0 { seq![seq![(md, fg_style(Color::White))]] } else { all }
}

/// Renders Markdown from its parser events.
pub fn render_markdown_events(md: &str, events: Vec<MdEvent>) -> (res: Vec<Line>)
    ensures
        lines_view(res@) == markdown_lines(md@, events@.map_values(|e: MdEvent| e@)),
{
    let ghost evs = events@.map_values(|e: MdEvent| e@);
    let mut lines: Vec<Line> = Vec::new();
    let mut cur: Vec<Span> = Vec::new();
    let mut heading = false;
    let mut code = false;
    let mut depth: usize = 0;
    let mut i: usize = 0;
    while i < events.len()
        invariant
            0 <= i <= events@.len(),
            evs == events@.map_values(|e: MdEvent| e@),
            depth <= i,
            md_run(evs.take(i as int)) == (lines_view(lines@), spans_view(cur@), heading, code, depth as nat),
        decreases events.len() - i,
    {
        let ghost st = (lines_view(lines@), spans_view(cur@), heading, code, depth as nat);
        let ghost lv = lines_view(lines@);
        let ghost cv = spans_view(cur@);
        proof {
            assert(evs.take(i + 1).drop_last() =~= evs.take(i as int));
            assert(evs.take(i + 1).last() == events@[i as int]@);
        }
        match &events[i] {
            MdEvent::Start(MdTag::Heading(level)) => {
                let mut h = String::new();
                let mut k: u8 = 0;
                while k < *level
                    invariant
                        k <= *level,
                        h@ == hashes(k as nat),
                    decreases *level - k,
                {
                    push_char(&mut h, '#');
                    k = k + 1;
                    assert(h@ =~= hashes(k as nat));
                }
                push_char(&mut h, ' ');
                cur.push(span(h, Style { fg: Some(Color::Cyan), bg: None, bold: true, italic: false }));
                heading = true;
                assert(spans_view(cur@) =~= cv.push((hashes(*level as nat).push(' '), bold_style(Color::Cyan))));
            }
            MdEvent::End(MdTag::Heading(_)) => {
                let done = Line { spans: cur };
                cur = Vec::new();
                lines.push(done);
                heading = false;
                assert(lines_view(lines@) =~= lv.push(cv));
                assert(spans_view(cur@) =~= Seq::<Run>::empty());
            }
            MdEvent::Start(MdTag::CodeBlock) => {
                code = true;
            }
            MdEvent::End(MdTag::CodeBlock) => {
                let done = Line { spans: cur };
                cur = Vec::new();
                lines.push(done);
                code = false;
                assert(lines_view(lines@) =~= lv.push(cv));
                assert(spans_view(cur@) =~= Seq::<Run>::empty());
            }
            MdEvent::Start(MdTag::List) => {
                depth = depth + 1;
            }
            MdEvent::End(MdTag::List) => {
                if depth > 0 {
                    depth = depth - 1;
                }
            }
            MdEvent::Start(MdTag::Item) => {
                let mut b = String::new();
                push_char(&mut b, '\u{2022}');
                push_char(&mut b, ' ');
                assert(b@ =~= seq!['\u{2022}', ' ']);
                cur.push(span(b, Style { fg: Some(Color::Yellow), bg: None, bold: false, italic: false }));
                assert(spans_view(cur@) =~= cv.push((seq!['\u{2022}', ' '], fg_style(Color::Yellow))));
            }
            MdEvent::End(MdTag::Item) => {
                let done = Line { spans: cur };
                cur = Vec::new();
                lines.push(done);
                assert(lines_view(lines@) =~= lv.push(cv));
                assert(spans_view(cur@) =~= Seq::<Run>::empty());
            }
            MdEvent::End(MdTag::Paragraph) => {
                if cur.len() > 0 {
                    let done = Line { spans: cur };
                    cur = Vec::new();
                    lines.push(done);
                    let blank = Line { spans: Vec::new() };
                    assert(line_runs(blank) =~= Seq::<Run>::empty());
                    lines.push(blank);
                    assert(lines_view(lines@) =~= lv.push(cv).push(Seq::empty()));
                    assert(spans_view(cur@) =~= Seq::<Run>::empty());
                }
            }
            MdEvent::Text(t) => {
                let style = if heading {
                    Style { fg: Some(Color::Cyan), bg: None, bold: true, italic: false }
                } else if code {
                    Style { fg: Some(Color::Green), bg: Some(Color::Rgb(30, 30, 30)), bold: false, italic: false }
                } else {
                    Style { fg: Some(Color::White), bg: None, bold: false, italic: false }
                };
                cur.push(span(t.clone(), style));
                assert(spans_view(cur@) =~= cv.push((t@, md_text_style(heading, code))));
            }
            MdEvent::Code(c) => {
                let mut s = String::new();
                push_char(&mut s, '`');
                s.append(c.as_str());
                push_char(&mut s, '`');
                assert(s@ =~= seq!['`'] + c@ + seq!['`']);
                cur.push(span(s, Style { fg: Some(Color::Green), bg: None, bold: false, italic: false }));
                assert(spans_view(cur@) =~= cv.push((seq!['`'] + c@ + seq!['`'], fg_style(Color::Green))));
            }
            MdEvent::SoftBreak | MdEvent::HardBreak => {
                let done = Line { spans: cur };
                cur = Vec::new();
                lines.push(done);
                assert(lines_view(lines@) =~= lv.push(cv));
                assert(spans_view(cur@) =~= Seq::<Run>::empty());
            }
            _ => {}
        }
        i = i + 1;
    }
    assert(evs.take(events@.len() as int) =~= evs);
    if cur.len() > 0 {
        let ghost lv = lines_view(lines@);
        let done = Line { spans: cur };
        lines.push(done);
        assert(lines_view(lines@) =~= lv.push(spans_view(done.spans@)));
    }
    if lines.len() == 0 {
        let mut t = String::new();
        t.append(md);
        lines.push(one_run_line(t, Style { fg: Some(Color::White), bg: None, bold: false, italic: false }));
        assert(lines_view(lines@) =~= seq![seq![(md@, fg_style(Color::White))]]);
    }
    lines
}

/// Renders a Markdown text as styled lines (headings, lists, code).
pub fn render_markdown(md: &str) -> (res: Vec<Line>)
    ensures
        lines_view(res@) == markdown_lines(md@, markdown_events_of(md@)),
{
    let events = markdown_events(md);
    render_markdown_events(md, events)
}


// ---------------------------------------------------------------------------
// Syntax highlighting
// ---------------------------------------------------------------------------

/// A highlighted run: text, foreground color (red, green, blue), bold,
/// italic.
pub type HlRun = (String, (u8, u8, u8), bool, bool);

/// The content of a highlighted run.
pub type HlRunView = (Seq<char>, (u8, u8, u8), bool, bool);

/// The content of the highlighted runs of each line.
pub open spec fn hl_lines_view(v: Seq<Vec<HlRun>>) -> Seq<Seq<HlRunView>> {
    v.map_values(|l: Vec<HlRun>| l@.map_values(|r: HlRun| (r.0@, r.1, r.2, r.3)))
}

/// The runs syntect gives each line when highlighting them in order with
/// one highlighter, from its default syntaxes (with newlines) and default
/// themes: `None` when no default syntax has extension `ext` (compared
/// ignoring ASCII case) or no default theme is named `theme`; a line whose
/// highlighting fails has no runs. A function of the lines, the extension
/// and the theme's name.
pub uninterp spec fn syntect_runs_of(lines: Seq<Seq<char>>, ext: Seq<char>, theme: Seq<char>) -> Option<Seq<Seq<HlRunView>>>;

/// Highlights lines with syntect's syntax for extension `ext` and its theme
/// named `theme`, one list of runs per line.
#[verifier::external_body]
fn syntect_runs(lines: &Vec<String>, ext: &str, theme: &str) -> (res: Option<Vec<Vec<HlRun>>>)
    ensures
        res matches Some(r) ==> r@.len() == lines@.len(),
        (match res {
            Some(r) => syntect_runs_of(string_views(lines@), ext@, theme@) == Some(hl_lines_view(r@)),
            None => syntect_runs_of(string_views(lines@), ext@, theme@) is None,
        }),
{
    let ss = syntect::parsing::SyntaxSet::load_defaults_newlines();
    let ts = syntect::highlighting::ThemeSet::load_defaults();
    let mut h = syntect::easy::HighlightLines::new(ss.find_syntax_by_extension(ext)?, ts.themes.get(theme)?);
    Some(lines.iter().map(|l| h.highlight_line(l, &ss).unwrap_or_default().into_iter()
        .map(|(st, t)| (t.to_string(), (st.foreground.r, st.foreground.g, st.foreground.b),
            st.font_style.contains(FontStyle::BOLD), st.font_style.contains(FontStyle::ITALIC)))
        .collect()).collect())
}

/// The theme code is highlighted with.
pub open spec fn highlight_theme() -> Seq<char> {
    "base16-ocean.dark"@
}

/// The runs of highlighted code with extension `ext`: those of its syntax,
/// else those of the syntax for "txt"; with neither (or no such theme) the
/// lines have no runs and stay as they are.
pub open spec fn highlight_runs(lines: Seq<Seq<char>>, ext: Seq<char>) -> Seq<Seq<HlRunView>> {
    match syntect_runs_of(lines, ext, highlight_theme()) {
        Some(r) => r,
        None => match syntect_runs_of(lines, "txt"@, highlight_theme()) {
            Some(r) => r,
            None => Seq::empty(),
        },
    }
}

/// Highlights `lines` of code with extension `ext`.
pub fn highlight_code(lines: &Vec<String>, ext: &str) -> (res: Vec<Vec<HlRun>>)
    ensures
        hl_lines_view(res@) == highlight_runs(string_views(lines@), ext@),
{
    let theme = "base16-ocean.dark";
    match syntect_runs(lines, ext, theme) {
        Some(r) => r,
        None => match syntect_runs(lines, "txt", theme) {
            Some(r) => r,
            None => {
                let empty: Vec<Vec<HlRun>> = Vec::new();
                assert(hl_lines_view(empty@) =~= Seq::empty());
                empty
            },
        },
    }
}

/// The style of a highlighted run: its color, bold and italic as given.
pub open spec fn hl_style(r: HlRunView) -> Style {
    Style { fg: Some(Color::Rgb(r.1.0, r.1.1, r.1.2)), bg: None, bold: r.2, italic: r.3 }
}

/// A highlighted line: its runs, or the raw line when it has none.
pub open spec fn highlighted_line(line: Seq<char>, runs: Seq<HlRunView>) -> Seq<Run> {
    if runs.len() == 0 {
        seq![(line, plain())]
    } else {
        runs.map_values(|r: HlRunView| (r.0, hl_style(r)))
    }
}

/// The runs of line `i`, none when there are fewer lists than lines.
pub open spec fn runs_at(runs: Seq<Seq<HlRunView>>, i: int) -> Seq<HlRunView> {
    if i < runs.len() { runs[i] } else { Seq::empty() }
}

/// The hint that ends a truncated text: "… truncated (T lines total, S
/// shown[, file >2MB])".
pub open spec fn truncation_hint(total: nat, shown: nat, big: bool) -> Seq<char> {
    seq!['\u{2026}'] + " truncated ("@ + decimal(total) + " lines total, "@ + decimal(shown) + " shown"@
        + (if big { ", file >2MB"@ } else { Seq::empty() }) + ")"@
}

/// The lines of a highlighted text: each shown line highlighted, then the
/// truncation hint (yellow italic) when the text had more than 5000 lines
/// or the file more than 2 MB.
pub open spec fn code_lines(lines: Seq<Seq<char>>, runs: Seq<Seq<HlRunView>>, total: nat, big: bool) -> Seq<Seq<Run>> {
    let body = Seq::new(lines.len(), |i: int| highlighted_line(lines[i], runs_at(runs, i)));
    if total > MAX_LINES || big {
        body.push(seq![(truncation_hint(total, lines.len(), big), hint_style())])
    } else {
        body
    }
}

/// The styled lines of a text from its highlighted runs, with the
/// truncation hint when `total` exceeds the line limit or `big` is set.
pub fn code_text_lines(lines: &Vec<String>, runs: Vec<Vec<HlRun>>, total: usize, big: bool) -> (res: Vec<Line>)
    ensures
        lines_view(res@) == code_lines(string_views(lines@), hl_lines_view(runs@), total as nat, big),
{
    let ghost lv = string_views(lines@);
    let ghost rv = hl_lines_view(runs@);
    let mut out: Vec<Line> = Vec::new();
    let mut i: usize = 0;
    while i < lines.len()
        invariant
            0 <= i <= lines@.len(),
            lv == string_views(lines@),
            rv == hl_lines_view(runs@),
            lines_view(out@) == Seq::new(i as nat, |j: int| highlighted_line(lv[j], runs_at(rv, j))),
        decreases lines.len() - i,
    {
        let ghost prev = lines_view(out@);
        let ghost expected = highlighted_line(lv[i as int], runs_at(rv, i as int));
        let line = if i < runs.len() && runs[i].len() > 0 {
            let rs = &runs[i];
            let ghost rsv = rv[i as int];
            assert(rsv == rs@.map_values(|r: HlRun| (r.0@, r.1, r.2, r.3)));
            let mut spans: Vec<Span> = Vec::new();
            let mut k: usize = 0;
            while k < rs.len()
                invariant
                    0 <= k <= rs@.len(),
                    rsv == rs@.map_values(|r: HlRun| (r.0@, r.1, r.2, r.3)),
                    spans_view(spans@) == rsv.take(k as int).map_values(|r: HlRunView| (r.0, hl_style(r))),
                decreases rs.len() - k,
            {
                let ghost sp = spans_view(spans@);
                let r = &rs[k];
                let (rc, gc, bc) = r.1;
                let text = r.0.clone();
                let st = Style { fg: Some(Color::Rgb(rc, gc, bc)), bg: None, bold: r.2, italic: r.3 };
                assert(rsv[k as int] == (r.0@, r.1, r.2, r.3));
                assert(st == hl_style(rsv[k as int]));
                spans.push(span(text, st));
                assert(spans_view(spans@) =~= sp.push((rsv[k as int].0, hl_style(rsv[k as int]))));
                assert(rsv.take(k + 1).map_values(|r: HlRunView| (r.0, hl_style(r)))
                    =~= rsv.take(k as int).map_values(|r: HlRunView| (r.0, hl_style(r))).push((rsv[k as int].0, hl_style(rsv[k as int]))));
                k = k + 1;
            }
            assert(rsv.take(rs@.len() as int) =~= rsv);
            let l = Line { spans };
            assert(line_runs(l) == expected);
            l
        } else {
            let l = one_run_line(lines[i].clone(), Style { fg: None, bg: None, bold: false, italic: false });
            assert(runs_at(rv, i as int).len() == 0);
            assert(line_runs(l) =~= expected);
            l
        };
        assert(line_runs(line) == expected);
        out.push(line);
        assert(lines_view(out@) =~= prev.push(expected));
        i = i + 1;
        assert(lines_view(out@) =~= Seq::new(i as nat, |j: int| highlighted_line(lv[j], runs_at(rv, j))));
    }
    if total > MAX_LINES || big {
        let mut hint = String::new();
        push_char(&mut hint, '\u{2026}');
        hint.append(" truncated (");
        push_decimal(&mut hint, total as u64);
        hint.append(" lines total, ");
        push_decimal(&mut hint, out.len() as u64);
        hint.append(" shown");
        if big {
            hint.append(", file >2MB");
        }
        hint.append(")");
        assert(hint@ =~= truncation_hint(total as nat, lines@.len(), big));
        let ghost prev = lines_view(out@);
        out.push(one_run_line(hint, Style { fg: Some(Color::Yellow), bg: None, bold: false, italic: true }));
        assert(lines_view(out@) =~= prev.push(seq![(truncation_hint(total as nat, lines@.len(), big), hint_style())]));
    }
    out
}

// ---------------------------------------------------------------------------
// Decoding
// ---------------------------------------------------------------------------

/// What `content_inspector::inspect` reports as binary: data that starts
/// with none of the UTF-8, UTF-32 BE, UTF-16 BE or UTF-16 LE byte order
/// marks (the UTF-32 LE mark starts with the UTF-16 LE one) and that has a
/// zero byte in its first 1024 bytes or starts with `%PDF` or `\x89PNG`.
pub open spec fn inspected_binary(buf: Seq<u8>) -> bool {
    let scan = buf.take(if buf.len() < 1024 { buf.len() as int } else { 1024 });
    !(bytes_have_prefix(buf, seq![0xEFu8, 0xBBu8, 0xBFu8]) || bytes_have_prefix(buf, seq![0u8, 0u8, 0xFEu8, 0xFFu8])
        || bytes_have_prefix(buf, seq![0xFEu8, 0xFFu8]) || bytes_have_prefix(buf, seq![0xFFu8, 0xFEu8]))
    && (scan.contains(0u8) || bytes_have_prefix(buf, seq![0x25u8, 0x50u8, 0x44u8, 0x46u8])
        || bytes_have_prefix(buf, seq![0x89u8, 0x50u8, 0x4Eu8, 0x47u8]))
}

/// Whether `content_inspector::inspect` classifies the bytes as binary:
/// its whole rule, as `inspected_binary` states it.
fn inspect_is_binary(buf: &[u8]) -> (res: bool)
    ensures
        res == inspected_binary(buf@),
{
    let boms = bytes_start_with(buf, &[0xEFu8, 0xBBu8, 0xBFu8]) || bytes_start_with(buf, &[0u8, 0u8, 0xFEu8, 0xFFu8])
        || bytes_start_with(buf, &[0xFEu8, 0xFFu8]) || bytes_start_with(buf, &[0xFFu8, 0xFEu8]);
    if boms {
        return false;
    }
    assert([0xEFu8, 0xBBu8, 0xBFu8]@ =~= seq![0xEFu8, 0xBBu8, 0xBFu8]);
    assert([0u8, 0u8, 0xFEu8, 0xFFu8]@ =~= seq![0u8, 0u8, 0xFEu8, 0xFFu8]);
    assert([0xFEu8, 0xFFu8]@ =~= seq![0xFEu8, 0xFFu8]);
    assert([0xFFu8, 0xFEu8]@ =~= seq![0xFFu8, 0xFEu8]);
    let n: usize = if buf.len() < 1024 { buf.len() } else { 1024 };
    let ghost scan = buf@.take(n as int);
    let mut i: usize = 0;
    while i < n
        invariant
            0 <= i <= n <= buf@.len(),
            n as int == if buf@.len() < 1024 { buf@.len() as int } else { 1024 },
            scan == buf@.take(n as int),
            forall|k: int| 0 <= k < i ==> buf@[k] != 0u8,
            !(bytes_have_prefix(buf@, seq![0xEFu8, 0xBBu8, 0xBFu8]) || bytes_have_prefix(buf@, seq![0u8, 0u8, 0xFEu8, 0xFFu8])
                || bytes_have_prefix(buf@, seq![0xFEu8, 0xFFu8]) || bytes_have_prefix(buf@, seq![0xFFu8, 0xFEu8])),
        decreases n - i,
    {
        if buf[i] == 0u8 {
            assert(scan[i as int] == 0u8);
            assert(scan.contains(0u8));
            assert(scan =~= buf@.take(if buf@.len() < 1024 { buf@.len() as int } else { 1024 }));
            return true;
        }
        i = i + 1;
    }
    assert(scan =~= buf@.take(if buf@.len() < 1024 { buf@.len() as int } else { 1024 }));
    assert(!scan.contains(0u8)) by {
        if scan.contains(0u8) {
            let k = choose|k: int| 0 <= k < scan.len() && scan[k] == 0u8;
            assert(buf@[k] == 0u8);
        }
    }
    bytes_start_with(buf, &[0x25u8, 0x50u8, 0x44u8, 0x46u8]) || bytes_start_with(buf, &[0x89u8, 0x50u8, 0x4Eu8, 0x47u8])
}

/// `String::from_utf8`: the decoded text exactly when the bytes are valid
/// UTF-8.
#[verifier::external_body]
fn utf8_text(bytes: &[u8]) -> (res: Option<String>)
    ensures
        res is Some <==> valid_utf8(bytes@),
        res matches Some(s) ==> s@ == decode_utf8(bytes@),
{
    String::from_utf8(bytes.to_vec()).ok()
}

/// What `encoding_rs::WINDOWS_1252.decode` gives for some bytes (after its
/// byte-order-mark sniffing): the text and whether malformed input was
/// replaced.
pub uninterp spec fn windows_1252_decode_of(bytes: Seq<u8>) -> (Seq<char>, bool);

/// Decodes bytes as Windows-1252 with `encoding_rs`.
#[verifier::external_body]
fn decode_windows_1252(bytes: &[u8]) -> (res: (String, bool))
    ensures
        (res.0@, res.1) == windows_1252_decode_of(bytes@),
{
    let (text, _, had_errors) = encoding_rs::WINDOWS_1252.decode(bytes);
    (text.into_owned(), had_errors)
}

/// What `String::from_utf8_lossy` gives: the bytes decoded as UTF-8 with
/// each invalid sequence replaced by U+FFFD.
pub uninterp spec fn utf8_lossy_of(bytes: Seq<u8>) -> Seq<char>;

/// `String::from_utf8_lossy`.
#[verifier::external_body]
fn utf8_lossy(bytes: &[u8]) -> (res: String)
    ensures
        res@ == utf8_lossy_of(bytes@),
{
    String::from_utf8_lossy(bytes).into_owned()
}

/// The text of a file: UTF-8 when valid, else Windows-1252, else (when that
/// decoding reports errors) UTF-8 with replacement characters.
pub open spec fn decoded_text(bytes: Seq<u8>) -> Seq<char> {
    if valid_utf8(bytes) {
        decode_utf8(bytes)
    } else if windows_1252_decode_of(bytes).1 {
        utf8_lossy_of(bytes)
    } else {
        windows_1252_decode_of(bytes).0
    }
}

/// Decodes a file's bytes as text.
pub fn decode_text(bytes: &[u8]) -> (res: String)
    ensures
        res@ == decoded_text(bytes@),
{
    match utf8_text(bytes) {
        Some(s) => s,
        None => {
            let (t, had_errors) = decode_windows_1252(bytes);
            if had_errors {
                utf8_lossy(bytes)
            } else {
                t
            }
        }
    }
}

// ---------------------------------------------------------------------------
// The text preview
// ---------------------------------------------------------------------------

/// Whether an extension marks Markdown.
pub open spec fn is_markdown_ext(ext: Seq<char>) -> bool {
    ext == "md"@ || ext == "markdown"@
}

/// The lines shown of a text: the first 5000.
pub open spec fn shown_lines(text: Seq<char>) -> Seq<Seq<char>> {
    let all = text_lines(text);
    all.take(if all.len() < MAX_LINES { all.len() as int } else { MAX_LINES as int })
}

/// The styled lines of a text preview: Markdown files rendered (no hint),
/// other files highlighted with the truncation hint when more than 5000
/// lines or the file is over 2 MB (`file_len`).
pub open spec fn text_view(path: Seq<char>, text: Seq<char>, file_len: nat) -> Seq<Seq<Run>> {
    let shown = shown_lines(text);
    let ext = lower_extension(path);
    if is_markdown_ext(ext) {
        markdown_lines(join_lines(shown), markdown_events_of(join_lines(shown)))
    } else {
        code_lines(shown, highlight_runs(shown, ext), text_lines(text).len(), file_len > MAX_BYTES)
    }
}

/// A text of more than 5000 lines that is not Markdown, from a file of at
/// most 2 MB, shows 5001 lines: its first 5000 lines, each highlighted, and
/// then "… truncated (N lines total, 5000 shown)" for its N lines.
pub proof fn lemma_text_cut(path: Seq<char>, text: Seq<char>, file_len: nat)
    requires
        !is_markdown_ext(lower_extension(path)),
        text_lines(text).len() > 5000,
        file_len <= 2 * 1024 * 1024,
    ensures
        text_view(path, text, file_len).len() == 5001,
        forall|i: int| 0 <= i < 5000 ==> #[trigger] text_view(path, text, file_len)[i]
            == highlighted_line(text_lines(text)[i], runs_at(highlight_runs(shown_lines(text), lower_extension(path)), i)),
        text_view(path, text, file_len)[5000]
            == seq![(seq!['\u{2026}'] + " truncated ("@ + decimal(text_lines(text).len()) + " lines total, "@ + decimal(5000)
                + " shown)"@,
                Style { fg: Some(Color::Yellow), bg: None, bold: false, italic: true })],
{
    let shown = shown_lines(text);
    assert(shown.len() == MAX_LINES);
    assert forall|i: int| 0 <= i < MAX_LINES implies shown[i] == text_lines(text)[i] by {}
    reveal_strlit(" shown)");
    reveal_strlit(" shown");
    reveal_strlit(")");
    assert(truncation_hint(text_lines(text).len(), 5000, false) =~= seq!['\u{2026}'] + " truncated ("@
        + decimal(text_lines(text).len()) + " lines total, "@ + decimal(5000) + " shown)"@);
}

/// The preview of a decoded text read from `path` (the whole file being
/// `file_len` bytes long).
pub fn text_preview_decoded(path: &str, text: &str, file_len: u64, meta: FileMeta) -> (res: PreviewResult)
    ensures
        res matches PreviewResult::Text { lines, title, meta: m }
            && lines_view(lines@) == text_view(path@, text@, file_len as nat)
            && title@ == path@ && m == meta,
{
    let mut shown = split_lines(text);
    let total = shown.len();
    let ghost all = string_views(shown@);
    if total > MAX_LINES {
        shown.truncate(MAX_LINES);
    }
    assert(string_views(shown@) =~= shown_lines(text@));
    let big = file_len > MAX_BYTES as u64;
    let ext = lower_extension_of(path);
    let mut title = String::new();
    title.append(path);
    if str_eq(ext.as_str(), "md") || str_eq(ext.as_str(), "markdown") {
        let md = join_with_newlines(&shown);
        let lines = render_markdown(md.as_str());
        PreviewResult::Text { lines, title, meta }
    } else {
        let runs = highlight_code(&shown, ext.as_str());
        let lines = code_text_lines(&shown, runs, total, big);
        PreviewResult::Text { lines, title, meta }
    }
}

/// The message for a binary file of `len` bytes.
pub open spec fn binary_message(len: nat) -> Seq<char> {
    "binary file "@ + seq!['\u{2022}', ' '] + human_size_spec(len, 4) + seq![' ', '\u{2022}'] + " not text previewable"@
}

/// What the text preview gives: "(empty file)" for no bytes; a decode error
/// for binary content; otherwise the decoded text's preview.
pub open spec fn text_outcome(path: Seq<char>, bytes: Seq<u8>, file_len: u64, meta: FileMeta, res: Result<PreviewResult, PreviewError>) -> bool {
    &&& (bytes.len() == 0 ==> (res matches Ok(PreviewResult::Text { lines, title, meta: m })
        && lines_view(lines@) == seq![seq![("(empty file)"@, fg_style(Color::DarkGray))]]
        && title@ == path && m == meta))
    &&& (bytes.len() > 0 && inspected_binary(bytes.take(if bytes.len() < 1024 { bytes.len() as int } else { 1024 }))
        ==> (res matches Err(PreviewError::Decode(msg)) && msg@ == binary_message(bytes.len())))
    &&& (bytes.len() > 0 && !inspected_binary(bytes.take(if bytes.len() < 1024 { bytes.len() as int } else { 1024 }))
        ==> (res matches Ok(PreviewResult::Text { lines, title, meta: m })
            && lines_view(lines@) == text_view(path, decoded_text(bytes), file_len as nat)
            && title@ == path && m == meta))
}

/// The text preview of a file from its first bytes (`bytes`, at most the
/// read limit) and its full length: "(empty file)" for no bytes; a decode
/// error for binary content (judged on the first 1024 bytes); otherwise the
/// decoded text's preview.
pub fn text_preview(path: &str, bytes: &[u8], file_len: u64, meta: FileMeta) -> (res: Result<PreviewResult, PreviewError>)
    ensures
        text_outcome(path@, bytes@, file_len, meta, res),
{
    let mut title = String::new();
    title.append(path);
    if bytes.len() == 0 {
        let line = one_run_line(String::from_str("(empty file)"), Style { fg: Some(Color::DarkGray), bg: None, bold: false, italic: false });
        let lines = vec![line];
        assert(lines_view(lines@) =~= seq![seq![("(empty file)"@, fg_style(Color::DarkGray))]]);
        return Ok(PreviewResult::Text { lines, title, meta });
    }
    let n: usize = if bytes.len() < 1024 { bytes.len() } else { 1024 };
    let mut head: Vec<u8> = Vec::new();
    let mut i: usize = 0;
    while i < n
        invariant
            n <= bytes@.len(),
            0 <= i <= n,
            head@ == bytes@.take(i as int),
        decreases n - i,
    {
        head.push(bytes[i]);
        i = i + 1;
        assert(head@ =~= bytes@.take(i as int));
    }
    if inspect_is_binary(head.as_slice()) {
        let mut msg = String::from_str("binary file ");
        push_char(&mut msg, '\u{2022}');
        push_char(&mut msg, ' ');
        let size = human_size(bytes.len() as u64);
        msg.append(size.as_str());
        push_char(&mut msg, ' ');
        push_char(&mut msg, '\u{2022}');
        msg.append(" not text previewable");
        assert(msg@ =~= binary_message(bytes@.len()));
        return Err(PreviewError::Decode(msg));
    }
    let text = decode_text(bytes);
    Ok(text_preview_decoded(path, text.as_str(), file_len, meta))
}

} // verus!
