use std::io::{Cursor, Write};
use lopdf::content::{Content, Operation};
use lopdf::{Dictionary, Document, Object, Stream};
use std::time::SystemTime;
use tui_preview::config::Config;
use tui_preview::preview::office::{
    pptx_slide_count, preview_pptx, preview_xlsx_with_sheet, workbook_format_for, xlsx_sheet_names, WorkbookFormat,
};
use tui_preview::error::PreviewError;
use tui_preview::preview::{
    build_router, directory_preview, dispatch_result, finish_preview, run_handler, DispatchOutcome,
    EntrySummary, FileMeta, HandlerKind, Line, PreviewInput, PreviewResult,
};

fn meta(size: u64, mime: &str) -> FileMeta {
    FileMeta { size, mtime: SystemTime::UNIX_EPOCH, mime: mime.to_string(), dims: None }
}

fn kind_of(path: &str, data: &[u8]) -> HandlerKind {
    let router = build_router(&Config::default());
    let magic: Vec<u8> = data.iter().take(512).cloned().collect();
    router.route(path, &magic)
}

fn preview_bytes(path: &str, data: Vec<u8>) -> PreviewResult {
    let kind = kind_of(path, &data);
    let name = kind.name();
    let mime = tui_preview::preview::meta::file_meta(path, 0, std::time::SystemTime::UNIX_EPOCH).mime;
    let size = data.len() as u64;
    let input = PreviewInput {
        path: path.to_string(),
        data,
        size,
        forced: false,
        meta: meta(size, &mime),
        svg: Err("not rendered".to_string()),
        svg_source: Err("not read".to_string()),
        waveform: Vec::new(),
    };
    match run_handler(kind, input) {
        Some(r) => finish_preview(name, r),
        None => dispatch_result(name, DispatchOutcome::Panicked),
    }
}

fn line_text(l: &Line) -> String {
    l.spans.iter().map(|s| s.content.as_str()).collect()
}

fn texts(lines: &[Line]) -> Vec<String> {
    lines.iter().map(line_text).collect()
}

fn zip_bytes(files: &[(&str, &str)]) -> Vec<u8> {
    let mut w = zip::ZipWriter::new(Cursor::new(Vec::new()));
    let opts = zip::write::SimpleFileOptions::default().compression_method(zip::CompressionMethod::Stored);
    for (name, body) in files {
        w.start_file(*name, opts).unwrap();
        w.write_all(body.as_bytes()).unwrap();
    }
    w.finish().unwrap().into_inner()
}

fn png_bytes(w: u32, h: u32) -> Vec<u8> {
    let img = image::DynamicImage::ImageRgba8(image::RgbaImage::new(w, h));
    let mut out = Cursor::new(Vec::new());
    img.write_to(&mut out, image::ImageFormat::Png).unwrap();
    out.into_inner()
}

fn docx_bytes() -> Vec<u8> {
    let para = |t: &str| docx_rs::Paragraph::new().add_run(docx_rs::Run::new().add_text(t));
    let table = docx_rs::Table::new(vec![docx_rs::TableRow::new(vec![
        docx_rs::TableCell::new().add_paragraph(para("A1")),
        docx_rs::TableCell::new().add_paragraph(para("B1")),
    ])]);
    let doc = docx_rs::Docx::new()
        .add_paragraph(para("Quarterly report").style("Heading1"))
        .add_paragraph(para("  Sales grew.  "))
        .add_paragraph(para("   "))
        .add_table(table);
    let mut buf = Cursor::new(Vec::new());
    doc.build().pack(&mut buf).unwrap();
    buf.into_inner()
}

fn pdf_bytes(text: &str) -> Vec<u8> {
    let mut doc = Document::with_version("1.5");
    let pages_id = doc.new_object_id();
    let mut font = Dictionary::new();
    font.set("Type", "Font");
    font.set("Subtype", "Type1");
    font.set("BaseFont", "Courier");
    let font_id = doc.add_object(font);
    let mut fonts = Dictionary::new();
    fonts.set("F1", font_id);
    let mut resources = Dictionary::new();
    resources.set("Font", fonts);
    let resources_id = doc.add_object(resources);
    let content = Content {
        operations: vec![
            Operation::new("BT", vec![]),
            Operation::new("Tf", vec!["F1".into(), 24.into()]),
            Operation::new("Td", vec![100.into(), 600.into()]),
            Operation::new("Tj", vec![Object::string_literal(text)]),
            Operation::new("ET", vec![]),
        ],
    };
    let content_id = doc.add_object(Stream::new(Dictionary::new(), content.encode().unwrap()));
    let mut page = Dictionary::new();
    page.set("Type", "Page");
    page.set("Parent", pages_id);
    page.set("Contents", content_id);
    let page_id = doc.add_object(page);
    let mut pages = Dictionary::new();
    pages.set("Type", "Pages");
    pages.set("Kids", vec![Object::from(page_id)]);
    pages.set("Count", 1);
    pages.set("Resources", resources_id);
    pages.set("MediaBox", vec![Object::from(0), Object::from(0), Object::from(595), Object::from(842)]);
    doc.objects.insert(pages_id, Object::Dictionary(pages));
    let mut catalog = Dictionary::new();
    catalog.set("Type", "Catalog");
    catalog.set("Pages", pages_id);
    let catalog_id = doc.add_object(catalog);
    doc.trailer.set("Root", catalog_id);
    let mut out = Vec::new();
    doc.save_to(&mut out).unwrap();
    out
}

const NS: &str = "http://schemas.openxmlformats.org/spreadsheetml/2006/main";
const REL: &str = "http://schemas.openxmlformats.org/officeDocument/2006/relationships";

fn sheet_xml(rows: &[&[&str]]) -> String {
    let mut s = format!("<?xml version=\"1.0\" encoding=\"UTF-8\"?><worksheet xmlns=\"{}\"><sheetData>", NS);
    for (r, row) in rows.iter().enumerate() {
        s.push_str(&format!("<row r=\"{}\">", r + 1));
        for (c, v) in row.iter().enumerate() {
            let col = (b'A' + c as u8) as char;
            s.push_str(&format!("<c r=\"{}{}\" t=\"inlineStr\"><is><t>{}</t></is></c>", col, r + 1, v));
        }
        s.push_str("</row>");
    }
    s.push_str("</sheetData></worksheet>");
    s
}

fn xlsx_bytes() -> Vec<u8> {
    let types = "<?xml version=\"1.0\" encoding=\"UTF-8\"?><Types xmlns=\"http://schemas.openxmlformats.org/package/2006/content-types\">\
<Default Extension=\"rels\" ContentType=\"application/vnd.openxmlformats-package.relationships+xml\"/>\
<Default Extension=\"xml\" ContentType=\"application/xml\"/>\
<Override PartName=\"/xl/workbook.xml\" ContentType=\"application/vnd.openxmlformats-officedocument.spreadsheetml.sheet.main+xml\"/>\
<Override PartName=\"/xl/worksheets/sheet1.xml\" ContentType=\"application/vnd.openxmlformats-officedocument.spreadsheetml.worksheet+xml\"/>\
<Override PartName=\"/xl/worksheets/sheet2.xml\" ContentType=\"application/vnd.openxmlformats-officedocument.spreadsheetml.worksheet+xml\"/>\
</Types>";
    let root_rels = format!("<?xml version=\"1.0\" encoding=\"UTF-8\"?><Relationships xmlns=\"http://schemas.openxmlformats.org/package/2006/relationships\">\
<Relationship Id=\"rId1\" Type=\"{}/officeDocument\" Target=\"xl/workbook.xml\"/></Relationships>", REL);
    let workbook = format!("<?xml version=\"1.0\" encoding=\"UTF-8\"?><workbook xmlns=\"{}\" xmlns:r=\"{}\"><sheets>\
<sheet name=\"Sales\" sheetId=\"1\" r:id=\"rId1\"/><sheet name=\"Notes\" sheetId=\"2\" r:id=\"rId2\"/></sheets></workbook>", NS, REL);
    let wb_rels = format!("<?xml version=\"1.0\" encoding=\"UTF-8\"?><Relationships xmlns=\"http://schemas.openxmlformats.org/package/2006/relationships\">\
<Relationship Id=\"rId1\" Type=\"{r}/worksheet\" Target=\"worksheets/sheet1.xml\"/>\
<Relationship Id=\"rId2\" Type=\"{r}/worksheet\" Target=\"worksheets/sheet2.xml\"/></Relationships>", r = REL);
    let s1 = sheet_xml(&[&["Product", "Qty"], &["Apple", "3"], &["Pear", "5"]]);
    let s2 = sheet_xml(&[&["Note"], &["hello"]]);
    zip_bytes(&[
        ("[Content_Types].xml", types),
        ("_rels/.rels", &root_rels),
        ("xl/workbook.xml", &workbook),
        ("xl/_rels/workbook.xml.rels", &wb_rels),
        ("xl/worksheets/sheet1.xml", &s1),
        ("xl/worksheets/sheet2.xml", &s2),
    ])
}

fn slide_xml(texts: &[&str]) -> String {
    let mut s = String::from("<p:sld xmlns:a=\"http://schemas.openxmlformats.org/drawingml/2006/main\" xmlns:p=\"http://schemas.openxmlformats.org/presentationml/2006/main\"><p:cSld><p:spTree>");
    for t in texts {
        s.push_str(&format!("<p:sp><p:txBody><a:p><a:r><a:t>{}</a:t></a:r></a:p></p:txBody></p:sp>", t));
    }
    s.push_str("</p:spTree></p:cSld></p:sld>");
    s
}

fn pptx_bytes() -> Vec<u8> {
    let s1 = slide_xml(&["Welcome", "First point"]);
    let s2 = slide_xml(&["Second slide", "  ", "More"]);
    let s3 = slide_xml(&[]);
    zip_bytes(&[
        ("ppt/slides/slide2.xml", &s2),
        ("ppt/slides/slide1.xml", &s1),
        ("ppt/slides/_rels/slide1.xml.rels", "<Relationships/>"),
        ("ppt/slides/slide3.xml", &s3),
        ("ppt/presentation.xml", "<p:presentation/>"),
    ])
}

#[test]
fn preview_text_fixture() {
    let res = preview_bytes("fixtures/sample.txt", b"hello world\nsecond line\n".to_vec());
    match res {
        PreviewResult::Text { lines, title, .. } => {
            assert_eq!(title, "fixtures/sample.txt");
            assert_eq!(texts(&lines), vec!["hello world", "second line"]);
        }
        other => panic!("expected Text, got {:?}", other),
    }
}

#[test]
fn preview_csv_fixture() {
    let data = b"name,age,city\nAlice,30,Paris\nBob,25,Berlin\nCarol,35,Rome\n".to_vec();
    let res = preview_bytes("fixtures/sample.csv", data);
    match res {
        PreviewResult::Table { headers, rows, .. } => {
            assert_eq!(headers, vec!["name", "age", "city"]);
            assert_eq!(rows.len(), 3);
        }
        other => panic!("expected Table, got {:?}", other),
    }
}

#[test]
fn preview_markdown_fixture() {
    let md = b"# Notes\n\nSome *text* and `code`.\n\n- one\n- two\n".to_vec();
    let res = preview_bytes("fixtures/notes.md", md);
    match res {
        PreviewResult::Text { lines, .. } => {
            assert!(!lines.is_empty());
            let t = texts(&lines);
            assert_eq!(t[0], "# Notes");
            assert!(t.iter().any(|l| l.contains("`code`")));
            assert!(t.iter().any(|l| l == "\u{2022} one"));
        }
        other => panic!("expected Text for md, got {:?}", other),
    }
}

#[test]
fn preview_image_fixture() {
    let res = preview_bytes("fixtures/sample.png", png_bytes(3, 2));
    match res {
        PreviewResult::Image { meta, .. } => assert_eq!(meta.dims, Some((3, 2))),
        other => panic!("expected Image, got {:?}", other),
    }
}

#[test]
fn preview_directory_fixture() {
    let items = vec![
        EntrySummary { name: "z.txt".to_string(), is_dir: false },
        EntrySummary { name: "sub".to_string(), is_dir: true },
        EntrySummary { name: "a.txt".to_string(), is_dir: false },
    ];
    match directory_preview(items) {
        PreviewResult::Directory { entries } => {
            let names: Vec<&str> = entries.iter().map(|e| e.name.as_str()).collect();
            assert_eq!(names, vec!["sub", "a.txt", "z.txt"]);
        }
        other => panic!("expected Directory, got {:?}", other),
    }
}

#[test]
fn preview_binary_guard() {
    let res = preview_bytes("bin.dat", vec![0u8, 1, 2, 255, 254, 0, 10]);
    match res {
        PreviewResult::Error { .. } => {}
        other => panic!("expected Error for binary, got {:?}", other),
    }
}

#[test]
fn preview_pdf_fixture() {
    let res = preview_bytes("fixtures/report.pdf", pdf_bytes("Hello PDF"));
    match res {
        PreviewResult::Text { lines, title, .. } => {
            assert!(!lines.is_empty(), "pdf lines empty");
            let t = texts(&lines);
            assert!(t[0].starts_with("PDF \u{2022} 1 pages \u{2022} "), "{}", t[0]);
            assert_eq!(t[1], "File: fixtures/report.pdf");
            assert_eq!(title, "fixtures/report.pdf (1 pages)");
        }
        other => panic!("expected Text for pdf, got {:?}", other),
    }
}

#[test]
fn preview_docx_fixture() {
    let res = preview_bytes("fixtures/sample.docx", docx_bytes());
    match res {
        PreviewResult::Text { lines, .. } => {
            assert!(!lines.is_empty());
            let t = texts(&lines);
            assert!(t[0].starts_with("DOCX \u{2022} fixtures/sample.docx \u{2022} "));
            assert_eq!(t[2], "Quarterly report");
            assert_eq!(t[3], "Sales grew.");
            assert_eq!(t[4], "  [Table 1 rows]");
            assert_eq!(t[5], "  | A1 | B1 |");
            assert_eq!(t[t.len() - 1], "Tab: sheets N/A  n/p: disabled");
            assert!(lines[2].spans[0].style.bold);
        }
        other => panic!("expected Text for docx, got {:?}", other),
    }
}

#[test]
fn preview_xlsx_fixture() {
    let data = xlsx_bytes();
    let res = preview_xlsx_with_sheet("fixtures/sales.xlsx", &data, 0, meta(data.len() as u64, "application/xlsx")).expect("xlsx sheet 0");
    match res {
        PreviewResult::Table { headers, rows, .. } => {
            assert!(headers.contains(&"Product".to_string()));
            assert!(rows.len() >= 2);
        }
        other => panic!("expected Table for xlsx, got {:?}", other),
    }
    let res2 = preview_xlsx_with_sheet("fixtures/sales.xlsx", &data, 1, meta(data.len() as u64, "application/xlsx")).expect("xlsx sheet 1");
    match res2 {
        PreviewResult::Table { headers, .. } => assert_eq!(headers, vec!["Note"]),
        other => panic!("expected Table for sheet 1, got {:?}", other),
    }
    let clamped = preview_xlsx_with_sheet("fixtures/sales.xlsx", &data, 9, meta(0, "")).expect("clamped sheet");
    assert!(matches!(clamped, PreviewResult::Table { ref headers, .. } if headers == &vec!["Note".to_string()]));
    assert_eq!(xlsx_sheet_names("fixtures/sales.xlsx", &data), vec!["Sales", "Notes"]);
}

#[test]
fn preview_pptx_fixture() {
    let data = pptx_bytes();
    let res = preview_pptx("fixtures/deck.pptx", &data, 0, meta(0, "")).expect("pptx slide 0");
    match res {
        PreviewResult::Text { lines, title, .. } => {
            assert!(!lines.is_empty());
            let t = texts(&lines);
            assert_eq!(t[0], "PPTX \u{2022} fixtures/deck.pptx \u{2022} Slide 1/3 \u{2022} n/p to paginate");
            assert_eq!(t[2], "Welcome");
            assert_eq!(t[3], "First point");
            assert_eq!(t[5], "\u{2014} End slide 1 \u{2014} Tab: N/A  n/p to navigate");
            assert_eq!(title, "fixtures/deck.pptx [Slide 1/3]");
        }
        other => panic!("expected Text for pptx, got {:?}", other),
    }
    let cnt = pptx_slide_count(&data);
    assert!(cnt >= 3, "slide count {}", cnt);
    let res2 = preview_pptx("fixtures/deck.pptx", &data, 1, meta(0, "")).expect("pptx slide 1");
    match res2 {
        PreviewResult::Text { lines, .. } => {
            let t = texts(&lines);
            assert_eq!(t[2], "Second slide");
            assert_eq!(t[3], "More");
        }
        other => panic!("expected Text slide 1, got {:?}", other),
    }
    let last = preview_pptx("p.pptx", &data, 99, meta(0, "")).expect("clamped slide");
    match last {
        PreviewResult::Text { lines, .. } => assert_eq!(line_text(&lines[2]), "(no text runs <a:t> in slide)"),
        other => panic!("expected Text, got {:?}", other),
    }
}

#[test]
fn spreadsheet_reader_follows_the_extension() {
    assert_eq!(workbook_format_for("a.xlsx"), Some(WorkbookFormat::Xlsx));
    assert_eq!(workbook_format_for("a.xlsm"), Some(WorkbookFormat::Xlsx));
    assert_eq!(workbook_format_for("a.xla"), Some(WorkbookFormat::Xls));
    assert_eq!(workbook_format_for("a.xlsb"), Some(WorkbookFormat::Xlsb));
    assert_eq!(workbook_format_for("a.ods"), Some(WorkbookFormat::Ods));
    assert_eq!(workbook_format_for("a.XLSX"), None);
    assert_eq!(workbook_format_for("a"), None);
    let data = xlsx_bytes();
    // XLSX content named as XLS is read with the XLS reader, which refuses it.
    match preview_xlsx_with_sheet("fixtures/sales.xls", &data, 0, meta(0, "")) {
        Err(PreviewError::Decode(m)) => assert!(m.starts_with("calamine open: Xls error: "), "{}", m),
        other => panic!("unexpected {:?}", other),
    }
    // With an extension that names no reader, each is tried in turn.
    assert!(matches!(preview_xlsx_with_sheet("fixtures/sales.XLSX", &data, 0, meta(0, "")), Ok(PreviewResult::Table { .. })));
    assert_eq!(xlsx_sheet_names("fixtures/sales", &data), vec!["Sales", "Notes"]);
    match preview_xlsx_with_sheet("fixtures/notes.bin", b"plain words", 0, meta(0, "")) {
        Err(PreviewError::Decode(m)) => assert_eq!(m, "calamine open: Cannot detect file format"),
        other => panic!("unexpected {:?}", other),
    }
    assert!(xlsx_sheet_names("fixtures/notes.bin", b"plain words").is_empty());
}

#[test]
fn image_format_follows_the_extension() {
    match preview_bytes("fixtures/photo.jpg", png_bytes(3, 2)) {
        PreviewResult::Error { msg, .. } => assert!(msg.starts_with("image: decode: image open: "), "{}", msg),
        other => panic!("expected an error, got {:?}", other),
    }
    match preview_bytes("fixtures/picture", png_bytes(3, 2)) {
        PreviewResult::Error { msg, .. } => {
            assert_eq!(msg, "image: decode: image open: The image format could not be determined")
        }
        other => panic!("expected an error, got {:?}", other),
    }
}

#[test]
fn a_parser_panic_is_reported_as_such() {
    assert_eq!(PreviewError::Panicked.message(), "handler panicked (malformed file)");
    match finish_preview("office", Err(PreviewError::Panicked)) {
        PreviewResult::Error { msg, .. } => assert_eq!(msg, "office: handler panicked (malformed file)"),
        other => panic!("unexpected {:?}", other),
    }
}

#[test]
fn directory_preview_keeps_the_first_fifty_sorted() {
    let mut items = Vec::new();
    for i in 0..60 {
        items.push(EntrySummary { name: format!("f{:02}", 59 - i), is_dir: i % 7 == 0 });
    }
    match directory_preview(items.clone()) {
        PreviewResult::Directory { entries } => {
            assert_eq!(entries.len(), 50);
            for w in entries.windows(2) {
                assert!((w[0].is_dir && !w[1].is_dir) || (w[0].is_dir == w[1].is_dir && w[0].name < w[1].name));
            }
            for e in &entries {
                assert!(items[..50].iter().any(|x| x.name == e.name && x.is_dir == e.is_dir));
            }
        }
        other => panic!("expected Directory, got {:?}", other),
    }
}
