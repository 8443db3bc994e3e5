use tui_preview::preview::{read_error_reported, read_limit};
use tui_preview::preview::office::{extract_a_t, xml_trim};
use std::time::{Duration, SystemTime};
use tui_preview::config::Config;
use tui_preview::error::PreviewError;
use tui_preview::preview::csv::sniff_delimiter;
use tui_preview::preview::images::{svg_dims_check, svg_precheck};
use tui_preview::preview::pdf::pdf_text_limited;
use tui_preview::preview::text::{
    code_text_lines, decode_text, highlight_code, render_markdown, render_markdown_events, text_preview, MdEvent, MdTag,
};
use tui_preview::preview::video::mp4_header_info;
use tui_preview::preview::{
    build_router, check_size, dispatch_result, fallback_preview, finish_preview, Color, DispatchOutcome, FileMeta,
    HandlerKind, Line, PreviewResult,
};
use tui_preview::preview::audio::{waveform_ranges, AudioHandler};
use tui_preview::preview::images::ImageHandler;
use tui_preview::preview::video::VideoHandler;
use tui_preview::textfmt::{join_with_newlines, split_lines};

fn meta() -> FileMeta {
    FileMeta { size: 0, mtime: SystemTime::UNIX_EPOCH, mime: "text/plain".to_string(), dims: None }
}

fn text(l: &Line) -> String {
    l.spans.iter().map(|s| s.content.as_str()).collect()
}

#[test]
fn lines_split_like_str_lines() {
    for s in ["", "a", "a\n", "a\r\nb", "a\n\nb\n", "x\r", "\n", "one\r\ntwo\r\n", "\r\n\r\n"] {
        let expected: Vec<String> = s.lines().map(|l| l.to_string()).collect();
        assert_eq!(split_lines(s), expected, "text {:?}", s);
    }
}

#[test]
fn join_puts_line_feeds_between() {
    let v = vec!["a".to_string(), "".to_string(), "b".to_string()];
    assert_eq!(join_with_newlines(&v), "a\n\nb");
    assert_eq!(join_with_newlines(&Vec::new()), "");
}

#[test]
fn empty_file_preview() {
    match text_preview("e.txt", b"", 0, meta()).unwrap() {
        PreviewResult::Text { lines, .. } => {
            assert_eq!(lines.len(), 1);
            assert_eq!(text(&lines[0]), "(empty file)");
            assert_eq!(lines[0].spans[0].style.fg, Some(Color::DarkGray));
        }
        other => panic!("unexpected {:?}", other),
    }
}

#[test]
fn binary_file_message() {
    match text_preview("b.txt", &[1, 0, 2], 3, meta()) {
        Err(PreviewError::Decode(m)) => assert_eq!(m, "binary file \u{2022} 3 B \u{2022} not text previewable"),
        other => panic!("unexpected {:?}", other),
    }
    match text_preview("doc.txt", b"%PDF-1.4 text", 13, meta()) {
        Err(PreviewError::Decode(_)) => {}
        other => panic!("a PDF header is binary, got {:?}", other),
    }
    assert!(text_preview("bom.txt", &[0xEF, 0xBB, 0xBF, b'h', 0, b'i'], 6, meta()).is_ok());
}

#[test]
fn invalid_utf8_is_read_as_windows_1252() {
    assert_eq!(decode_text(&[0x63, 0x61, 0x66, 0xE9]), "caf\u{e9}");
    assert_eq!(decode_text("d\u{e9}j\u{e0}".as_bytes()), "d\u{e9}j\u{e0}");
    assert_eq!(decode_text(&[0x80]), "\u{20ac}");
}

#[test]
fn long_text_gets_truncation_hint() {
    let mut s = String::new();
    for i in 0..5003 {
        s.push_str(&format!("line {}\n", i));
    }
    match text_preview("big.log", s.as_bytes(), s.len() as u64, meta()).unwrap() {
        PreviewResult::Text { lines, .. } => {
            assert_eq!(lines.len(), 5001);
            let hint = &lines[5000];
            assert_eq!(text(hint), "\u{2026} truncated (5003 lines total, 5000 shown)");
            assert!(hint.spans[0].style.italic);
            assert_eq!(hint.spans[0].style.fg, Some(Color::Yellow));
            assert_eq!(text(&lines[4999]), "line 4999");
        }
        other => panic!("unexpected {:?}", other),
    }
    match text_preview("small.txt", b"a\nb", 3 * 1024 * 1024, meta()).unwrap() {
        PreviewResult::Text { lines, .. } => {
            assert_eq!(text(&lines[2]), "\u{2026} truncated (2 lines total, 2 shown, file >2MB)");
        }
        other => panic!("unexpected {:?}", other),
    }
}

#[test]
fn highlighted_lines_fall_back_to_raw_text() {
    let lines = vec!["fn main() {}".to_string(), "x".to_string()];
    let runs = vec![vec![("fn".to_string(), (1, 2, 3), true, false), (" main() {}".to_string(), (4, 5, 6), false, true)]];
    let out = code_text_lines(&lines, runs, 2, false);
    assert_eq!(out.len(), 2);
    assert_eq!(out[0].spans.len(), 2);
    assert_eq!(out[0].spans[0].style.fg, Some(Color::Rgb(1, 2, 3)));
    assert!(out[0].spans[0].style.bold);
    assert!(out[0].spans[1].style.italic);
    assert_eq!(text(&out[1]), "x");
    assert_eq!(out[1].spans[0].style.fg, None);
}

#[test]
fn syntax_highlighting_keeps_the_text() {
    match text_preview("main.rs", b"fn main() {\n    let x = 1;\n}\n", 30, meta()).unwrap() {
        PreviewResult::Text { lines, .. } => {
            let t: Vec<String> = lines.iter().map(text).collect();
            assert_eq!(t, vec!["fn main() {", "    let x = 1;", "}"]);
            assert!(lines[0].spans.iter().all(|s| matches!(s.style.fg, Some(Color::Rgb(_, _, _)))));
        }
        other => panic!("unexpected {:?}", other),
    }
}

#[test]
fn markdown_renderer_state_machine() {
    let events = vec![
        MdEvent::Start(MdTag::Heading(2)),
        MdEvent::Text("Title".to_string()),
        MdEvent::End(MdTag::Heading(2)),
        MdEvent::Start(MdTag::Paragraph),
        MdEvent::Text("para".to_string()),
        MdEvent::Code("x".to_string()),
        MdEvent::End(MdTag::Paragraph),
        MdEvent::Start(MdTag::List),
        MdEvent::Start(MdTag::Item),
        MdEvent::Text("it".to_string()),
        MdEvent::End(MdTag::Item),
        MdEvent::End(MdTag::List),
        MdEvent::Start(MdTag::CodeBlock),
        MdEvent::Text("code".to_string()),
        MdEvent::End(MdTag::CodeBlock),
    ];
    let out = render_markdown_events("src", events);
    let t: Vec<String> = out.iter().map(text).collect();
    assert_eq!(t, vec!["## Title", "para`x`", "", "\u{2022} it", "code"]);
    assert!(out[0].spans[1].style.bold);
    assert_eq!(out[4].spans[0].style.bg, Some(Color::Rgb(30, 30, 30)));
    assert_eq!(out[2].spans.len(), 0);
    let fallback = render_markdown_events("raw text", vec![MdEvent::Other]);
    assert_eq!(fallback.len(), 1);
    assert_eq!(text(&fallback[0]), "raw text");
}

#[test]
fn markdown_through_the_parser() {
    let out = render_markdown("# Hi\n\nA line\nnext");
    let t: Vec<String> = out.iter().map(text).collect();
    assert_eq!(t, vec!["# Hi", "A line", "next", ""]);
}

#[test]
fn delimiter_sniffing() {
    assert_eq!(sniff_delimiter(b"a;b;c\n1;2;3"), b';');
    assert_eq!(sniff_delimiter(b"a\tb\n"), b'\t');
    assert_eq!(sniff_delimiter(b"a|b,c|d"), b'|');
    assert_eq!(sniff_delimiter(b"abc"), b',');
    assert_eq!(sniff_delimiter(b"a,b;c"), b',');
}

#[test]
fn pdf_text_is_cut_at_eight_thousand_bytes() {
    assert_eq!(pdf_text_limited("short".to_string()), Some("short".to_string()));
    let long = "a".repeat(8001);
    let cut = pdf_text_limited(long).unwrap();
    assert_eq!(cut, format!("{}\u{2026}\n[truncated to 2 pages]", "a".repeat(8000)));
    let mut mid_char = "a".repeat(7999);
    mid_char.push('\u{e9}');
    mid_char.push('b');
    assert_eq!(pdf_text_limited(mid_char), None);
}

#[test]
fn svg_guards() {
    assert!(svg_precheck("<svg></svg>").is_ok());
    assert_eq!(svg_precheck(&"<".repeat(50001)), Err("SVG too many nodes".to_string()));
    assert_eq!(svg_precheck(&"x".repeat(2 * 1024 * 1024 + 1)), Err("SVG too large (>2MB)".to_string()));
    assert_eq!(svg_dims_check(0, 5), Err("SVG zero size".to_string()));
    assert_eq!(svg_dims_check(10001, 5), Err("SVG dims 10001x5 too large".to_string()));
    assert!(svg_dims_check(10000, 10000).is_ok());
}

#[test]
fn svg_failure_shows_source() {
    let r = ImageHandler.preview("a.svg", b"", 10, false, Err("bad".to_string()), Ok("<svg/>".to_string()), meta()).unwrap();
    match r {
        PreviewResult::Text { lines, title, .. } => {
            assert_eq!(title, "a.svg");
            assert_eq!(text(&lines[0]), "SVG preview failed: bad \u{2014} showing source (first 2000 chars):\n<svg/>");
        }
        other => panic!("unexpected {:?}", other),
    }
    let r2 = ImageHandler.preview("a.svg", b"", 10, false, Err("bad".to_string()), Err("io".to_string()), meta()).unwrap();
    match r2 {
        PreviewResult::Text { lines, .. } => assert!(text(&lines[0]).ends_with("\nsvg read error: bad")),
        other => panic!("unexpected {:?}", other),
    }
}

#[test]
fn size_limits_and_forcing() {
    assert!(matches!(check_size(11, 10, false), Err(PreviewError::TooLarge(11, 10))));
    assert!(check_size(11, 10, true).is_ok());
    assert!(check_size(10, 10, false).is_ok());
    let big = 600 * 1024 * 1024;
    assert!(matches!(VideoHandler.preview("v.mp4", big, false, meta()), Err(PreviewError::TooLarge(_, _))));
    assert!(matches!(AudioHandler.preview("big.wav", b"", 300 * 1024 * 1024, false, vec![]), Err(PreviewError::TooLarge(_, _))));
}

#[test]
fn video_metadata_lines() {
    let info = mp4_header_info(5 * 1024 * 1024 + 3);
    assert_eq!(info.duration_secs, 5);
    match VideoHandler.preview("clip.mp4", 2 * 1024 * 1024, false, meta()).unwrap() {
        PreviewResult::Text { lines, title, .. } => {
            assert_eq!(title, "clip.mp4 (video)");
            assert_eq!(text(&lines[0]), "Video \u{2022} clip.mp4 \u{2022} 2.0 MB \u{2022} 0x0 \u{2022} ? fps \u{2022} codec: unknown");
            assert_eq!(text(&lines[1]), "Duration: 2s \u{2022} build with --features video for thumbnails (ffmpeg)");
            assert_eq!(text(&lines[4]), "MIME: text/plain \u{2022} Magic: ftyp");
        }
        other => panic!("unexpected {:?}", other),
    }
}

#[test]
fn audio_errors_are_reported() {
    match AudioHandler.preview("noise.mp3", b"not audio at all", 16, false, vec![1, 2]) {
        Err(PreviewError::Decode(m)) => assert!(m.starts_with("lofty: ")),
        other => panic!("unexpected {:?}", other),
    }
}

#[test]
fn outcomes_of_a_dispatched_job() {
    let e = finish_preview("text", Err(PreviewError::TooLarge(5, 4)));
    match e {
        PreviewResult::Error { msg, .. } => assert_eq!(msg, "text: too large: 5 > 4 \u{2014} Press Enter to force preview"),
        other => panic!("unexpected {:?}", other),
    }
    match dispatch_result("pdf", DispatchOutcome::Panicked) {
        PreviewResult::Error { msg, .. } => assert_eq!(msg, "pdf: handler panicked (malformed file)"),
        other => panic!("unexpected {:?}", other),
    }
    match dispatch_result("x", DispatchOutcome::TimedOut) {
        PreviewResult::Error { msg, .. } => assert_eq!(msg, "preview timed out (5s)"),
        other => panic!("unexpected {:?}", other),
    }
    match dispatch_result("x", DispatchOutcome::Finished(Err(PreviewError::Decode("bad".to_string())))) {
        PreviewResult::Error { msg, .. } => assert_eq!(msg, "x: decode: bad"),
        other => panic!("unexpected {:?}", other),
    }
    match fallback_preview("/a/b") {
        PreviewResult::Error { msg, .. } => assert_eq!(msg, "no handler for /a/b"),
        other => panic!("unexpected {:?}", other),
    }
}

#[test]
fn routing_by_extension_and_magic() {
    let r = build_router(&Config::default());
    assert_eq!(r.route("a.csv", b""), HandlerKind::Csv);
    assert_eq!(r.route("a.PNG", b""), HandlerKind::Image);
    assert_eq!(r.route("noext", &[0x89, 0x50, 0x4E, 0x47]), HandlerKind::Image);
    assert_eq!(r.route("report", b"%PDF-1.7"), HandlerKind::Pdf);
    assert_eq!(r.route("a.docx", b""), HandlerKind::Office);
    assert_eq!(r.route("song.mp3", b""), HandlerKind::Audio);
    assert_eq!(r.route("main.rs", b""), HandlerKind::Text);
    assert_eq!(r.route("data.bin", b""), HandlerKind::Fallback);
    assert_eq!(r.route("clip.mp4", b""), HandlerKind::Fallback);
    let _ = Duration::from_secs(1);
}

fn wav_bytes(seconds: u32) -> Vec<u8> {
    let rate: u32 = 8000;
    let data_len = rate * 2 * seconds;
    let mut v = Vec::new();
    v.extend_from_slice(b"RIFF");
    v.extend_from_slice(&(36 + data_len).to_le_bytes());
    v.extend_from_slice(b"WAVEfmt ");
    v.extend_from_slice(&16u32.to_le_bytes());
    v.extend_from_slice(&1u16.to_le_bytes());
    v.extend_from_slice(&1u16.to_le_bytes());
    v.extend_from_slice(&rate.to_le_bytes());
    v.extend_from_slice(&(rate * 2).to_le_bytes());
    v.extend_from_slice(&2u16.to_le_bytes());
    v.extend_from_slice(&16u16.to_le_bytes());
    v.extend_from_slice(b"data");
    v.extend_from_slice(&data_len.to_le_bytes());
    v.resize(v.len() + data_len as usize, 0);
    v
}

#[test]
fn audio_duration_and_waveform() {
    let data = wav_bytes(2);
    match AudioHandler.preview("tone.wav", &data, data.len() as u64, false, vec![3, 4]) {
        Ok(PreviewResult::Audio { meta, waveform, duration }) => {
            assert_eq!(duration.as_secs(), 2);
            assert_eq!(meta.duration, duration);
            assert_eq!(meta.title, None);
            assert_eq!(waveform, vec![3, 4]);
        }
        other => panic!("unexpected {:?}", other),
    }
}

#[test]
fn slide_text_keeps_entities_and_inner_spaces() {
    let xml = "<p:sld><a:t> Fish &amp; chips </a:t><a:t>&#65;&lt;b&gt;</a:t><a:t>   </a:t><a:t>x &bogus; y</a:t><a:t>&#x263A;!</a:t></p:sld>";
    assert_eq!(extract_a_t(xml), vec!["Fish & chips".to_string(), "A<b>".to_string(), "\u{263a}!".to_string()]);
}

#[test]
fn read_plan_per_handler() {
    assert_eq!(read_limit(HandlerKind::Text, 10, false), 2 * 1024 * 1024);
    assert_eq!(read_limit(HandlerKind::Pdf, 10, false), usize::MAX);
    assert_eq!(read_limit(HandlerKind::Pdf, 200 * 1024 * 1024, false), 0);
    assert_eq!(read_limit(HandlerKind::Pdf, 200 * 1024 * 1024, true), usize::MAX);
    assert_eq!(read_limit(HandlerKind::Text, 200 * 1024 * 1024, false), 2 * 1024 * 1024);
    assert!(read_error_reported(HandlerKind::Image));
    assert!(!read_error_reported(HandlerKind::Video));
    assert!(!read_error_reported(HandlerKind::Fallback));
}

#[test]
fn slide_text_trims_xml_white_space_only() {
    assert_eq!(xml_trim(" \t\r\n\u{a0}x y\n "), "\u{a0}x y");
    assert_eq!(xml_trim("  "), "");
    let xml = "<p:sld><a:t>\u{a0}</a:t><a:t>\n Next \t</a:t></p:sld>";
    assert_eq!(extract_a_t(xml), vec!["\u{a0}".to_string(), "Next".to_string()]);
}

#[test]
fn unknown_code_is_highlighted_as_plain_text() {
    let lines = vec!["fn main() {}".to_string(), "let x = 1;".to_string()];
    let runs = highlight_code(&lines, "rs");
    assert_eq!(runs.len(), 2);
    assert!(!runs[0].is_empty());
    assert_eq!(highlight_code(&lines, "zzz-unknown"), highlight_code(&lines, "txt"));
}

#[test]
fn audio_type_follows_the_extension() {
    let data = wav_bytes(1);
    match AudioHandler.preview("tone", &data, data.len() as u64, false, vec![]) {
        Err(PreviewError::Decode(m)) => assert!(m.starts_with("lofty: "), "{}", m),
        other => panic!("unexpected {:?}", other),
    }
    assert!(AudioHandler.preview("TONE.WAV", &data, data.len() as u64, false, vec![]).is_ok());
}

#[test]
fn waveform_bars_cover_the_samples_in_chunks() {
    assert_eq!(waveform_ranges(10, 3), vec![(0, 3), (3, 6), (6, 9)]);
    assert_eq!(waveform_ranges(2, 4), vec![(0, 1), (1, 2), (2, 2), (3, 2)]);
    assert_eq!(waveform_ranges(0, 2), vec![(0, 0), (1, 0)]);
}

#[test]
fn byte_order_marks_mean_text() {
    assert!(text_preview("w.txt", &[0xFF, 0xFE, b'a', 0], 4, meta()).is_ok());
    assert!(text_preview("u.txt", &[0xEF, 0xBB, 0xBF, b'a', 0], 5, meta()).is_ok());
    assert!(matches!(text_preview("p.txt", b"\x89PNG....", 8, meta()), Err(PreviewError::Decode(_))));
}
