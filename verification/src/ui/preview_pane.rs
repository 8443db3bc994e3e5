//! What the preview pane shows for a preview result.
use vstd::prelude::*;
use crate::preview::meta::{format_mtime, human_size, human_size_spec, mtime_text};
use crate::preview::text::{lines_view, Run};
use crate::preview::{
    bold_style, copy_line, fg_style, line_empty, line_runs, line_styled, line_two, ArchiveEntry, Color, EntrySummary, Line, PreviewResult,
    Span, Style,
};
use crate::textfmt::{decimal, decimal2, push_char, push_decimal, push_decimal2};

verus! {

/// What `Duration::as_secs` gives: the whole seconds of a duration.
pub uninterp spec fn whole_secs(d: std::time::Duration) -> u64;

/// `Duration::as_secs`, documented to return the number of whole seconds.
pub assume_specification[ std::time::Duration::as_secs ](d: &std::time::Duration) -> (res: u64)
    ensures
        res == whole_secs(*d),
;

/// What the pane draws inside its border.
#[derive(Debug)]
pub enum PaneView {
    /// Nothing: the inner area is empty.
    Nothing,
    /// The loading indicator (the border turns yellow, titled "Preview (loading…)").
    Loading,
    /// Lines of text, wrapped.
    Lines(Vec<Line>),
    /// Lines of text, not wrapped.
    Unwrapped(Vec<Line>),
    /// A table with 20-column cells: header cells in cyan bold, then rows.
    Table { headers: Vec<String>, rows: Vec<Vec<String>> },
    /// A one-line header above the image.
    Image { header: Line },
}

/// The hint shown when there is no preview.
pub open spec fn no_preview_lines() -> Seq<Seq<Run>> {
    seq![seq![("No preview yet."@, fg_style(Color::DarkGray))], seq![("Select a file."@, fg_style(Color::DarkGray))]]
}

/// The lines of an error: the message in red bold after a warning sign;
/// then the fallback's lines (or "no fallback"), or else the selected
/// file's path, size, modification time and type.
pub open spec fn error_lines(msg: Seq<char>, fallback: Option<Seq<Seq<Run>>>, has_fallback: bool,
    selected: Option<(Seq<char>, u64, Seq<char>, Option<u64>)>) -> Seq<Seq<Run>>
{
    let head = seq![seq![(seq!['\u{26a0}', ' '] + msg, Style { fg: Some(Color::Red), bg: None, bold: true, italic: false })]];
    if has_fallback {
        head.push(Seq::empty()) + match fallback {
            Some(ls) => ls,
            None => seq![seq![("no fallback"@, fg_style(Color::DarkGray))]],
        }
    } else {
        match selected {
            Some((p, size, mime, mtime)) => head + seq![
                Seq::empty(),
                seq![("File: "@ + p, fg_style(Color::White))],
                seq![("Size: "@ + human_size_spec(size as nat, 4), fg_style(Color::Cyan))],
                seq![("Modified: "@ + mtime_text(mtime), fg_style(Color::Cyan))],
                seq![("MIME: "@ + mime, fg_style(Color::Cyan))]
            ],
            None => head,
        }
    }
}

/// The first `n` items of a sequence (all when it is shorter).
pub open spec fn first_n<T>(s: Seq<T>, n: nat) -> Seq<T> {
    s.take(if s.len() < n { s.len() as int } else { n as int })
}

/// `a - b`, or 0 when `b` is larger.
pub open spec fn sat_sub(a: nat, b: nat) -> nat {
    if a >= b { (a - b) as nat } else { 0 }
}

/// The lines of a text preview: a header with the title (cyan bold) and
/// size and type (dark gray), an empty line, and as many lines as fit below.
pub open spec fn text_pane_lines(lines: Seq<Seq<Run>>, title: Seq<char>, size: u64, mime: Seq<char>, height: nat) -> Seq<Seq<Run>> {
    seq![
        seq![
            (" "@ + title + " "@, bold_style(Color::Cyan)),
            (seq![' ', '\u{2022}', ' '] + human_size_spec(size as nat, 4) + seq![' ', '\u{2022}', ' '] + mime, fg_style(Color::DarkGray))
        ],
        Seq::empty()
    ] + first_n(lines, sat_sub(height, 2))
}

/// A directory row: folder or page icon, then the name, cyan for folders.
pub open spec fn dir_row(e: EntrySummary) -> Seq<Run> {
    if e.is_dir {
        seq![(seq!['\u{1f4c1}', ' '] + e.name@, fg_style(Color::Cyan))]
    } else {
        seq![(seq!['\u{1f4c4}', ' '] + e.name@, fg_style(Color::White))]
    }
}

/// The lines of a directory preview: the entry count, an empty line and the
/// entries that fit (the height less two).
pub open spec fn directory_pane_lines(entries: Seq<EntrySummary>, height: nat) -> Seq<Seq<Run>> {
    seq![seq![("Directory "@ + seq!['\u{2022}', ' '] + decimal(entries.len()) + " entries"@, bold_style(Color::Cyan))], Seq::empty()]
        + first_n(entries, (height - 2) as nat).map_values(|e: EntrySummary| dir_row(e))
}

/// An archive row: the name and size in KiB.
pub open spec fn archive_row(e: ArchiveEntry) -> Seq<Run> {
    seq![("  "@ + e.name@ + "  "@ + decimal(e.size as nat / 1024) + " KB"@, fg_style(Color::White))]
}

/// The lines of an archive preview.
pub open spec fn archive_pane_lines(entries: Seq<ArchiveEntry>, size: u64, mime: Seq<char>, height: nat) -> Seq<Seq<Run>> {
    seq![seq![(" Archive "@ + seq!['\u{2022}', ' '] + decimal(entries.len()) + " entries "@ + seq!['\u{2022}', ' ']
        + human_size_spec(size as nat, 4) + seq![' ', '\u{2022}', ' '] + mime + " "@, bold_style(Color::Cyan))], Seq::empty()]
        + first_n(entries, sat_sub(height, 3)).map_values(|e: ArchiveEntry| archive_row(e))
}

/// The heading of an audio preview: title ("Audio"), artist ("Unknown"),
/// duration as mm:ss and the number of bars.
pub open spec fn audio_heading(title: Option<Seq<char>>, artist: Option<Seq<char>>, secs: nat, bars: nat) -> Seq<char> {
    seq!['\u{266a}', ' '] + (match title { Some(t) => t, None => "Audio"@ }) + seq![' ', '\u{2014}', ' ']
        + (match artist { Some(a) => a, None => "Unknown"@ }) + seq![' ', '\u{2022}', ' '] + decimal2(secs / 60) + ":"@
        + decimal2(secs % 60) + seq![' ', '\u{2022}', ' '] + decimal(bars) + " bars"@
}

/// The lines of an audio preview: heading, key hint, empty line, the
/// waveform drawn as `spark` (magenta) or a note when there is none, empty
/// line, and a tip.
pub open spec fn audio_pane_lines(title: Option<Seq<char>>, artist: Option<Seq<char>>, secs: nat, bars: nat, spark: Seq<char>) -> Seq<Seq<Run>> {
    seq![
        seq![(audio_heading(title, artist, secs, bars), bold_style(Color::Cyan))],
        seq![("Space: play/pause  s: stop  (rodio + symphonia)"@, fg_style(Color::DarkGray))],
        Seq::empty(),
        if bars > 0 {
            seq![(spark, fg_style(Color::Magenta))]
        } else {
            seq![("(no waveform "@ + seq!['\u{2014}'] + " empty or unsupported codec)"@, fg_style(Color::DarkGray))]
        },
        Seq::empty(),
        seq![("Tip: navigate away auto-stops audio"@, fg_style(Color::DarkGray))]
    ]
}

/// The header above an image: its dimensions ("?" when unknown), size and
/// type.
pub open spec fn image_header(dims: Option<(u32, u32)>, size: u64, mime: Seq<char>) -> Seq<char> {
    " "@ + (match dims { Some((w, h)) => decimal(w as nat) + seq!['\u{d7}'] + decimal(h as nat), None => "?"@ })
        + seq![' ', '\u{2022}', ' '] + human_size_spec(size as nat, 4) + seq![' ', '\u{2022}', ' '] + mime + " "@
}

/// The lines of a preview result's text, when it is one.
pub open spec fn text_of(r: PreviewResult) -> Option<Seq<Seq<Run>>> {
    match r {
        PreviewResult::Text { lines, .. } => Some(lines_view(lines@)),
        _ => None,
    }
}

/// The text of an optional string.
pub open spec fn opt_str(o: Option<String>) -> Option<Seq<char>> {
    match o { Some(s) => Some(s@), None => None }
}

/// What the pane draws: the loading indicator while loading without a
/// preview; nothing in an empty area; otherwise by the result.
pub open spec fn pane_spec(loading: bool, result: Option<PreviewResult>, width: nat, height: nat,
    selected: Option<(Seq<char>, u64, Seq<char>, Option<u64>)>, spark: Seq<char>, res: PaneView) -> bool
{
    if loading && result is None {
        res is Loading
    } else if width == 0 || height == 0 {
        res is Nothing
    } else {
        match result {
            None => res matches PaneView::Lines(ls) && lines_view(ls@) == no_preview_lines(),
            Some(PreviewResult::Error { msg, fallback }) => res matches PaneView::Lines(ls) && lines_view(ls@) == error_lines(msg@,
                match fallback { Some(b) => text_of(*b), None => None }, fallback is Some, selected),
            Some(PreviewResult::Text { lines, title, meta }) => res matches PaneView::Lines(ls)
                && lines_view(ls@) == text_pane_lines(lines_view(lines@), title@, meta.size, meta.mime@, height),
            Some(PreviewResult::Table { headers, rows, .. }) => res matches PaneView::Table { headers: h, rows: r }
                && h@ == headers@ && r@.len() == rows@.len() && forall|i: int| 0 <= i < rows@.len() ==> #[trigger] r@[i]@ == rows@[i]@,
            Some(PreviewResult::Image { meta, .. }) => res matches PaneView::Image { header }
                && line_runs(header) == seq![(image_header(meta.dims, meta.size, meta.mime@), fg_style(Color::Cyan))],
            Some(PreviewResult::Directory { entries }) => res matches PaneView::Unwrapped(ls)
                && lines_view(ls@) == directory_pane_lines(entries@, height),
            Some(PreviewResult::Archive { entries, meta }) => res matches PaneView::Lines(ls)
                && lines_view(ls@) == archive_pane_lines(entries@, meta.size, meta.mime@, height),
            Some(PreviewResult::Audio { meta, waveform, duration }) => res matches PaneView::Lines(ls)
                && lines_view(ls@) == audio_pane_lines(opt_str(meta.title), opt_str(meta.artist), whole_secs(duration) as nat,
                    waveform@.len(), spark),
        }
    }
}

fn styled(text: String, fg: Color, bold: bool) -> (res: Line)
    ensures
        line_runs(res) == seq![(text@, Style { fg: Some(fg), bg: None, bold: bold, italic: false })],
{
    line_styled(text, Style { fg: Some(fg), bg: None, bold, italic: false })
}

/// Appends `v[..n]` (clones) to `out`.
fn push_first_lines(out: &mut Vec<Line>, v: &Vec<Line>, n: usize)
    requires
        n <= v@.len(),
    ensures
        lines_view(final(out)@) == lines_view(old(out)@) + lines_view(v@).take(n as int),
{
    let ghost start = lines_view(out@);
    let mut i: usize = 0;
    while i < n
        invariant
            0 <= i <= n <= v@.len(),
            lines_view(out@) == start + lines_view(v@).take(i as int),
        decreases n - i,
    {
        let l = copy_line(&v[i]);
        let ghost before = lines_view(out@);
        out.push(l);
        assert(lines_view(out@) =~= before.push(line_runs(v@[i as int])));
        assert(lines_view(v@).take(i + 1) =~= lines_view(v@).take(i as int).push(line_runs(v@[i as int])));
        i = i + 1;
        assert(lines_view(out@) =~= start + lines_view(v@).take(i as int));
    }
}

fn error_view(msg: &String, fallback: &Option<Box<PreviewResult>>, selected: Option<(String, u64, String, Option<u64>)>) -> (res: Vec<Line>)
    ensures
        lines_view(res@) == error_lines(msg@, match *fallback { Some(b) => text_of(*b), None => None }, fallback is Some,
            match selected { Some((p, s, m, t)) => Some((p@, s, m@, t)), None => None }),
{
    let mut head = String::new();
    push_char(&mut head, '\u{26a0}');
    push_char(&mut head, ' ');
    head.append(msg.as_str());
    assert(head@ =~= seq!['\u{26a0}', ' '] + msg@);
    let mut out: Vec<Line> = vec![styled(head, Color::Red, true)];
    assert(lines_view(out@) =~= seq![seq![(seq!['\u{26a0}', ' '] + msg@, Style { fg: Some(Color::Red), bg: None, bold: true, italic: false })]]);
    let ghost h = lines_view(out@);
    match fallback {
        Some(fb) => {
            out.push(line_empty());
            match &**fb {
                PreviewResult::Text { lines, .. } => {
                    push_first_lines(&mut out, lines, lines.len());
                    assert(lines_view(lines@).take(lines@.len() as int) =~= lines_view(lines@));
                }
                _ => {
                    out.push(styled(String::from_str("no fallback"), Color::DarkGray, false));
                }
            }
            assert(lines_view(out@) =~= error_lines(msg@, text_of(**fb), true, match selected { Some((p, s, m, t)) => Some((p@, s, m@, t)), None => None }));
        }
        None => {
            match selected {
                Some((p, size, mime, mtime)) => {
                    out.push(line_empty());
                    let mut f = String::from_str("File: ");
                    f.append(p.as_str());
                    out.push(styled(f, Color::White, false));
                    let mut sz = String::from_str("Size: ");
                    let hs = human_size(size);
                    sz.append(hs.as_str());
                    out.push(styled(sz, Color::Cyan, false));
                    let mut mt = String::from_str("Modified: ");
                    let mts = format_mtime(mtime);
                    mt.append(mts.as_str());
                    out.push(styled(mt, Color::Cyan, false));
                    let mut mm = String::from_str("MIME: ");
                    mm.append(mime.as_str());
                    out.push(styled(mm, Color::Cyan, false));
                    assert(lines_view(out@) =~= error_lines(msg@, None, false, Some((p@, size, mime@, mtime))));
                }
                None => {
                    assert(lines_view(out@) =~= error_lines(msg@, None, false, None));
                }
            }
        }
    }
    out
}

/// A copy of a list of strings.
fn copy_strings(v: &Vec<String>) -> (res: Vec<String>)
    ensures
        res@ == v@,
{
    let mut out: Vec<String> = Vec::new();
    let mut i: usize = 0;
    while i < v.len()
        invariant
            0 <= i <= v@.len(),
            out@ == v@.take(i as int),
        decreases v.len() - i,
    {
        out.push(v[i].clone());
        i = i + 1;
        assert(out@ =~= v@.take(i as int));
    }
    assert(v@.take(v@.len() as int) =~= v@);
    out
}

/// A copy of table rows.
fn copy_rows(v: &Vec<Vec<String>>) -> (res: Vec<Vec<String>>)
    ensures
        res@.len() == v@.len(),
        forall|i: int| 0 <= i < v@.len() ==> #[trigger] res@[i]@ == v@[i]@,
{
    let mut out: Vec<Vec<String>> = Vec::new();
    let mut i: usize = 0;
    while i < v.len()
        invariant
            0 <= i <= v@.len(),
            out@.len() == i,
            forall|k: int| 0 <= k < i ==> #[trigger] out@[k]@ == v@[k]@,
        decreases v.len() - i,
    {
        out.push(copy_strings(&v[i]));
        i = i + 1;
    }
    out
}

/// The pane lines of a text preview.
fn text_pane(lines: &Vec<Line>, title: &String, meta: &crate::preview::FileMeta, height: u16) -> (res: Vec<Line>)
    ensures
        lines_view(res@) == text_pane_lines(lines_view(lines@), title@, meta.size, meta.mime@, height as nat),
{
    let mut t = String::from_str(" ");
    t.append(title.as_str());
    t.append(" ");
    let mut info = String::from_str(" \u{2022} ");
    let hs = human_size(meta.size);
    info.append(hs.as_str());
    info.append(" \u{2022} ");
    info.append(meta.mime.as_str());
    proof {
        reveal_strlit(" \u{2022} ");
    }
    let ghost tv = t@;
    let ghost iv = info@;
    assert(tv =~= " "@ + title@ + " "@);
    assert(iv =~= seq![' ', '\u{2022}', ' '] + human_size_spec(meta.size as nat, 4) + seq![' ', '\u{2022}', ' '] + meta.mime@);
    let header = line_two(t, Style { fg: Some(Color::Cyan), bg: None, bold: true, italic: false },
        info, Style { fg: Some(Color::DarkGray), bg: None, bold: false, italic: false });
    let mut out = vec![header, line_empty()];
    assert(lines_view(out@) =~= seq![
        seq![(tv, bold_style(Color::Cyan)), (iv, fg_style(Color::DarkGray))], Seq::empty()]);
    let avail: usize = if height >= 2 { (height - 2) as usize } else { 0 };
    let n = if lines.len() < avail { lines.len() } else { avail };
    push_first_lines(&mut out, lines, n);
    assert(lines_view(lines@).take(n as int) =~= first_n(lines_view(lines@), sat_sub(height as nat, 2)));
    assert(lines_view(out@) =~= text_pane_lines(lines_view(lines@), title@, meta.size, meta.mime@, height as nat));
    out
}

/// The header line above an image.
fn image_header_line(meta: &crate::preview::FileMeta) -> (res: Line)
    ensures
        line_runs(res) == seq![(image_header(meta.dims, meta.size, meta.mime@), fg_style(Color::Cyan))],
{
    let mut h = String::from_str(" ");
    match meta.dims {
        Some((w, hh)) => {
            push_decimal(&mut h, w as u64);
            push_char(&mut h, '\u{d7}');
            push_decimal(&mut h, hh as u64);
        }
        None => h.append("?"),
    }
    h.append(" \u{2022} ");
    let hs = human_size(meta.size);
    h.append(hs.as_str());
    h.append(" \u{2022} ");
    h.append(meta.mime.as_str());
    h.append(" ");
    proof {
        reveal_strlit(" \u{2022} ");
    }
    assert(h@ =~= image_header(meta.dims, meta.size, meta.mime@));
    styled(h, Color::Cyan, false)
}

/// The pane lines of a directory preview.
fn directory_pane(entries: &Vec<EntrySummary>, height: u16) -> (res: Vec<Line>)
    requires
        height >= 2,
    ensures
        lines_view(res@) == directory_pane_lines(entries@, height as nat),
{
    let mut t = String::from_str("Directory \u{2022} ");
    push_decimal(&mut t, entries.len() as u64);
    t.append(" entries");
    proof {
        reveal_strlit("Directory \u{2022} ");
        reveal_strlit("Directory ");
    }
    assert(t@ =~= "Directory "@ + seq!['\u{2022}', ' '] + decimal(entries@.len()) + " entries"@);
    let mut out = vec![styled(t, Color::Cyan, true), line_empty()];
    let ghost head = lines_view(out@);
    let avail: usize = (height - 2) as usize;
    let n = if entries.len() < avail { entries.len() } else { avail };
    let mut i: usize = 0;
    while i < n
        invariant
            0 <= i <= n <= entries@.len(),
            lines_view(out@) == head + entries@.take(i as int).map_values(|e: EntrySummary| dir_row(e)),
        decreases n - i,
    {
        let e = &entries[i];
        let mut s = String::new();
        if e.is_dir {
            push_char(&mut s, '\u{1f4c1}');
        } else {
            push_char(&mut s, '\u{1f4c4}');
        }
        push_char(&mut s, ' ');
        s.append(e.name.as_str());
        assert(s@ =~= seq![if e.is_dir { '\u{1f4c1}' } else { '\u{1f4c4}' }, ' '] + e.name@);
        let l = if e.is_dir { styled(s, Color::Cyan, false) } else { styled(s, Color::White, false) };
        assert(line_runs(l) == dir_row(*e));
        let ghost before = lines_view(out@);
        out.push(l);
        assert(lines_view(out@) =~= before.push(dir_row(entries@[i as int])));
        assert(entries@.take(i + 1).map_values(|e: EntrySummary| dir_row(e))
            =~= entries@.take(i as int).map_values(|e: EntrySummary| dir_row(e)).push(dir_row(entries@[i as int])));
        i = i + 1;
        assert(lines_view(out@) =~= head + entries@.take(i as int).map_values(|e: EntrySummary| dir_row(e)));
    }
    assert(lines_view(out@) =~= directory_pane_lines(entries@, height as nat));
    out
}

/// The pane lines of an archive preview.
fn archive_pane(entries: &Vec<ArchiveEntry>, meta: &crate::preview::FileMeta, height: u16) -> (res: Vec<Line>)
    ensures
        lines_view(res@) == archive_pane_lines(entries@, meta.size, meta.mime@, height as nat),
{
    let mut t = String::from_str(" Archive \u{2022} ");
    push_decimal(&mut t, entries.len() as u64);
    t.append(" entries \u{2022} ");
    let hs = human_size(meta.size);
    t.append(hs.as_str());
    t.append(" \u{2022} ");
    t.append(meta.mime.as_str());
    t.append(" ");
    proof {
        reveal_strlit(" Archive \u{2022} ");
        reveal_strlit(" entries \u{2022} ");
        reveal_strlit(" \u{2022} ");
        reveal_strlit(" Archive ");
        reveal_strlit(" entries ");
    }
    let ghost tv = t@;
    let mut out = vec![styled(t, Color::Cyan, true), line_empty()];
    let ghost head = lines_view(out@);
    let avail: usize = if height >= 3 { (height - 3) as usize } else { 0 };
    let n = if entries.len() < avail { entries.len() } else { avail };
    let mut i: usize = 0;
    while i < n
        invariant
            0 <= i <= n <= entries@.len(),
            lines_view(out@) == head + entries@.take(i as int).map_values(|e: ArchiveEntry| archive_row(e)),
        decreases n - i,
    {
        let e = &entries[i];
        let mut s = String::from_str("  ");
        s.append(e.name.as_str());
        s.append("  ");
        push_decimal(&mut s, e.size / 1024);
        s.append(" KB");
        let l = styled(s, Color::White, false);
        assert(line_runs(l) == archive_row(*e));
        let ghost before = lines_view(out@);
        out.push(l);
        assert(lines_view(out@) =~= before.push(archive_row(entries@[i as int])));
        assert(entries@.take(i + 1).map_values(|e: ArchiveEntry| archive_row(e))
            =~= entries@.take(i as int).map_values(|e: ArchiveEntry| archive_row(e)).push(archive_row(entries@[i as int])));
        i = i + 1;
        assert(lines_view(out@) =~= head + entries@.take(i as int).map_values(|e: ArchiveEntry| archive_row(e)));
    }
    assert(tv =~= " Archive "@ + seq!['\u{2022}', ' '] + decimal(entries@.len()) + " entries "@ + seq!['\u{2022}', ' ']
        + human_size_spec(meta.size as nat, 4) + seq![' ', '\u{2022}', ' '] + meta.mime@ + " "@);
    assert(lines_view(out@) =~= archive_pane_lines(entries@, meta.size, meta.mime@, height as nat));
    out
}

/// The pane lines of an audio preview.
fn audio_pane(meta: &crate::preview::AudioMeta, waveform: &Vec<u8>, duration: &std::time::Duration, spark: &str) -> (res: Vec<Line>)
    ensures
        lines_view(res@) == audio_pane_lines(opt_str(meta.title), opt_str(meta.artist), whole_secs(*duration) as nat, waveform@.len(), spark@),
{
    let secs = duration.as_secs();
    let mut t = String::new();
    push_char(&mut t, '\u{266a}');
    push_char(&mut t, ' ');
    match &meta.title {
        Some(x) => t.append(x.as_str()),
        None => t.append("Audio"),
    }
    t.append(" \u{2014} ");
    match &meta.artist {
        Some(x) => t.append(x.as_str()),
        None => t.append("Unknown"),
    }
    t.append(" \u{2022} ");
    push_decimal2(&mut t, secs / 60);
    t.append(":");
    push_decimal2(&mut t, secs % 60);
    t.append(" \u{2022} ");
    push_decimal(&mut t, waveform.len() as u64);
    t.append(" bars");
    proof {
        reveal_strlit(" \u{2014} ");
        reveal_strlit(" \u{2022} ");
    }
    assert(t@ =~= audio_heading(opt_str(meta.title), opt_str(meta.artist), secs as nat, waveform@.len()));
    let mut out = vec![styled(t, Color::Cyan, true),
        styled(String::from_str("Space: play/pause  s: stop  (rodio + symphonia)"), Color::DarkGray, false),
        line_empty()];
    if waveform.len() > 0 {
        let mut s = String::new();
        s.append(spark);
        out.push(styled(s, Color::Magenta, false));
    } else {
        let mut s = String::from_str("(no waveform \u{2014} empty or unsupported codec)");
        proof {
            reveal_strlit("(no waveform \u{2014} empty or unsupported codec)");
            reveal_strlit("(no waveform ");
            reveal_strlit(" empty or unsupported codec)");
        }
        assert(s@ =~= "(no waveform "@ + seq!['\u{2014}'] + " empty or unsupported codec)"@);
        out.push(styled(s, Color::DarkGray, false));
    }
    out.push(line_empty());
    out.push(styled(String::from_str("Tip: navigate away auto-stops audio"), Color::DarkGray, false));
    assert(lines_view(out@) =~= audio_pane_lines(opt_str(meta.title), opt_str(meta.artist), secs as nat, waveform@.len(), spark@));
    out
}

/// What the preview pane draws (`loading`: a preview is being made;
/// `width`, `height`: the area inside the border; `selected`: path, size, type
/// and modification time (seconds since 1970) of the selected file; `spark`: the waveform drawn as text).
pub fn pane_view(loading: bool, result: &Option<PreviewResult>, width: u16, height: u16,
    selected: Option<(String, u64, String, Option<u64>)>, spark: &str) -> (res: PaneView)
    requires
        !(result matches Some(PreviewResult::Directory { .. }) && !(loading && result is None) && width > 0 && height == 1),
    ensures
        pane_spec(loading, *result, width as nat, height as nat,
            match selected { Some((p, s, m, t)) => Some((p@, s, m@, t)), None => None }, spark@, res),
{
    if loading && result.is_none() {
        return PaneView::Loading;
    }
    if width == 0 || height == 0 {
        return PaneView::Nothing;
    }
    match result {
        None => {
            let v = vec![styled(String::from_str("No preview yet."), Color::DarkGray, false),
                styled(String::from_str("Select a file."), Color::DarkGray, false)];
            assert(lines_view(v@) =~= no_preview_lines());
            let r = PaneView::Lines(v);
            assert(pane_spec(loading, *result, width as nat, height as nat,
                match selected { Some((p, s, m, t)) => Some((p@, s, m@, t)), None => None }, spark@, r));
            r
        }
        Some(PreviewResult::Error { msg, fallback }) => PaneView::Lines(error_view(msg, fallback, selected)),
        Some(PreviewResult::Text { lines, title, meta }) => PaneView::Lines(text_pane(lines, title, meta, height)),
        Some(PreviewResult::Table { headers, rows, .. }) => PaneView::Table { headers: copy_strings(headers), rows: copy_rows(rows) },
        Some(PreviewResult::Image { meta, .. }) => PaneView::Image { header: image_header_line(meta) },
        Some(PreviewResult::Directory { entries }) => PaneView::Unwrapped(directory_pane(entries, height)),
        Some(PreviewResult::Archive { entries, meta }) => PaneView::Lines(archive_pane(entries, meta, height)),
        Some(PreviewResult::Audio { meta, waveform, duration }) => PaneView::Lines(audio_pane(meta, waveform, duration, spark)),
    }
}

} // verus!
