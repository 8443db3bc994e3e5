//! The video handler: container metadata.
use vstd::prelude::*;
use crate::error::PreviewError;
use crate::preview::meta::{human_size, human_size_spec};
use crate::preview::text::{lines_view, Run};
use crate::preview::{bold_style, check_size, fg_style, line_empty, line_styled, Color, FileMeta, Line, PreviewResult, Style};
use crate::textfmt::{decimal, push_decimal, bytes_contain, bytes_contain_spec, bytes_have_prefix, bytes_start_with, has_prefix, lower_extension, lower_extension_of, str_in_list, str_starts_with, texts};

verus! {

/// Previews video files.
pub struct VideoHandler;

/// Extensions of video files.
pub open spec fn video_extensions() -> Seq<Seq<char>> {
    seq!["mp4"@, "mkv"@, "webm"@, "avi"@, "mov"@, "m4v"@, "flv"@]
}

/// `ftyp`, the tag of an MP4/QuickTime file-type box.
pub open spec fn ftyp() -> Seq<u8> { seq![0x66u8, 0x74u8, 0x79u8, 0x70u8] }

/// 85 for video (by extension, `video/*` type, or an `ftyp` box in the
/// header), 2 otherwise.
pub open spec fn video_priority(path: Seq<char>, mime: Seq<char>, magic: Seq<u8>) -> u8 {
    if video_extensions().contains(lower_extension(path)) || has_prefix(mime, "video/"@)
        || bytes_have_prefix(magic, seq![0u8, 0u8, 0u8, 0x18u8].add(ftyp()))
        || bytes_contain_spec(magic, ftyp()) { 85 } else { 2 }
}

impl VideoHandler {
    pub fn name(&self) -> (res: &'static str)
        ensures
            res@ == "video"@,
    {
        "video"
    }

    pub fn priority(&self, path: &str, mime: &str, magic: &[u8]) -> (res: u8)
        ensures
            res == video_priority(path@, mime@, magic@),
    {
        let ext = lower_extension_of(path);
        let list = vec!["mp4", "mkv", "webm", "avi", "mov", "m4v", "flv"];
        assert(texts(list@) =~= video_extensions());
        let head = [0u8, 0u8, 0u8, 0x18u8, 0x66u8, 0x74u8, 0x79u8, 0x70u8];
        let tag = [0x66u8, 0x74u8, 0x79u8, 0x70u8];
        assert(head@ =~= seq![0u8, 0u8, 0u8, 0x18u8].add(ftyp()));
        assert(tag@ =~= ftyp());
        let is_video = str_in_list(ext.as_str(), &list) || str_starts_with(mime, "video/")
            || bytes_start_with(magic, &head) || bytes_contain(magic, &tag);
        if is_video { 85 } else { 2 }
    }

    /// 500 MB.
    pub fn file_size_limit(&self) -> (res: u64)
        ensures
            res == 500 * 1024 * 1024,
    {
        500 * 1024 * 1024
    }
}


// ---------------------------------------------------------------------------
// The video preview
// ---------------------------------------------------------------------------

/// What is known of a video's stream.
#[derive(Debug, Clone)]
pub struct Mp4Info {
    pub width: u32,
    pub height: u32,
    pub duration_secs: u64,
    pub fps: String,
    pub codec: String,
}

/// The stream information without a container parser: size unknown,
/// duration estimated as one second per MiB, frame rate "?", codec
/// "unknown".
pub fn mp4_header_info(size: u64) -> (res: Mp4Info)
    ensures
        res.width == 0 && res.height == 0,
        res.duration_secs == size / 1048576u64,
        res.fps@ == "?"@,
        res.codec@ == "unknown"@,
{
    Mp4Info { width: 0, height: 0, duration_secs: size / (1024 * 1024), fps: String::from_str("?"), codec: String::from_str("unknown") }
}

/// The heading line of a video preview.
pub open spec fn video_header(path: Seq<char>, size: nat, w: nat, h: nat, fps: Seq<char>, codec: Seq<char>) -> Seq<char> {
    "Video "@ + seq!['\u{2022}', ' '] + path + seq![' ', '\u{2022}', ' '] + human_size_spec(size, 4) + seq![' ', '\u{2022}', ' ']
        + decimal(w) + "x"@ + decimal(h) + seq![' ', '\u{2022}', ' '] + fps + " fps "@ + seq!['\u{2022}'] + " codec: "@ + codec
}

/// The lines of a video preview: heading, duration with the thumbnail
/// hint, an empty line, the hint to open it externally, and the type.
pub open spec fn video_lines(path: Seq<char>, size: nat, mime: Seq<char>) -> Seq<Seq<Run>> {
    seq![
        seq![(video_header(path, size, 0, 0, "?"@, "unknown"@), bold_style(Color::Cyan))],
        seq![("Duration: "@ + decimal(size / (1024 * 1024)) + "s "@ + seq!['\u{2022}']
            + " build with --features video for thumbnails (ffmpeg)"@, fg_style(Color::White))],
        Seq::empty(),
        seq![("Press o to open externally (mpv/vlc)"@, fg_style(Color::DarkGray))],
        seq![("MIME: "@ + mime + seq![' ', '\u{2022}'] + " Magic: ftyp"@, fg_style(Color::DarkGray))]
    ]
}

/// What the video preview gives: "too large" above 500 MB unless forced;
/// otherwise the metadata lines titled "<path> (video)".
pub open spec fn video_outcome(path: Seq<char>, size: u64, forced: bool, meta: FileMeta, res: Result<PreviewResult, PreviewError>) -> bool {
    &&& (size > 500 * 1024 * 1024 && !forced ==> res == Err::<PreviewResult, PreviewError>(PreviewError::TooLarge(size, (500 * 1024 * 1024) as u64)))
    &&& (!(size > 500 * 1024 * 1024 && !forced) ==> (res matches Ok(PreviewResult::Text { lines, title, meta: m })
        && lines_view(lines@) == video_lines(path, size as nat, meta.mime@)
        && title@ == path + " (video)"@ && m == meta))
}

impl VideoHandler {
    /// The preview of a video of `size` bytes: "too large" above the limit
    /// unless forced; otherwise its metadata as text.
    pub fn preview(&self, path: &str, size: u64, forced: bool, meta: FileMeta) -> (res: Result<PreviewResult, PreviewError>)
        ensures
            video_outcome(path@, size, forced, meta, res),
    {
        if let Err(e) = check_size(size, self.file_size_limit(), forced) {
            return Err(e);
        }
        let info = mp4_header_info(size);
        let mut head = String::from_str("Video \u{2022} ");
        head.append(path);
        head.append(" \u{2022} ");
        let hs = human_size(size);
        head.append(hs.as_str());
        head.append(" \u{2022} ");
        push_decimal(&mut head, info.width as u64);
        head.append("x");
        push_decimal(&mut head, info.height as u64);
        head.append(" \u{2022} ");
        head.append(info.fps.as_str());
        head.append(" fps \u{2022} codec: ");
        head.append(info.codec.as_str());
        proof {
            reveal_strlit("Video \u{2022} ");
            reveal_strlit(" \u{2022} ");
            reveal_strlit(" fps \u{2022} codec: ");
            reveal_strlit("Video ");
            reveal_strlit(" fps ");
            reveal_strlit(" codec: ");
        }
        assert(head@ =~= video_header(path@, size as nat, 0, 0, "?"@, "unknown"@));
        let mut dur = String::from_str("Duration: ");
        push_decimal(&mut dur, info.duration_secs);
        dur.append("s \u{2022} build with --features video for thumbnails (ffmpeg)");
        proof {
            reveal_strlit("s \u{2022} build with --features video for thumbnails (ffmpeg)");
            reveal_strlit("s ");
            reveal_strlit(" build with --features video for thumbnails (ffmpeg)");
        }
        assert(dur@ =~= "Duration: "@ + decimal(size as nat / (1024 * 1024)) + "s "@ + seq!['\u{2022}']
            + " build with --features video for thumbnails (ffmpeg)"@);
        let mut mime_line = String::from_str("MIME: ");
        mime_line.append(meta.mime.as_str());
        mime_line.append(" \u{2022} Magic: ftyp");
        proof {
            reveal_strlit(" \u{2022} Magic: ftyp");
            reveal_strlit(" Magic: ftyp");
        }
        assert(mime_line@ =~= "MIME: "@ + meta.mime@ + seq![' ', '\u{2022}'] + " Magic: ftyp"@);
        let mut lines: Vec<Line> = Vec::new();
        lines.push(line_styled(head, Style { fg: Some(Color::Cyan), bg: None, bold: true, italic: false }));
        lines.push(line_styled(dur, Style { fg: Some(Color::White), bg: None, bold: false, italic: false }));
        lines.push(line_empty());
        lines.push(line_styled(String::from_str("Press o to open externally (mpv/vlc)"), Style { fg: Some(Color::DarkGray), bg: None, bold: false, italic: false }));
        lines.push(line_styled(mime_line, Style { fg: Some(Color::DarkGray), bg: None, bold: false, italic: false }));
        assert(lines_view(lines@) =~= video_lines(path@, size as nat, meta.mime@));
        let mut title = String::new();
        title.append(path);
        title.append(" (video)");
        Ok(PreviewResult::Text { lines, title, meta })
    }
}

} // verus!
