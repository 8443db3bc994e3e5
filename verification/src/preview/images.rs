//! The image handler: raster images and SVG, with size and dimension
//! guards.
use vstd::prelude::*;
use vstd::string::StringSliceAdditionalSpecFns;
use crate::error::PreviewError;
use crate::preview::text::lines_view;
use crate::preview::{check_size, fg_style, line_styled, Color, FileMeta, PreviewResult, Style};
use crate::textfmt::{
    bytes_have_prefix, bytes_start_with, chars_of, decimal, has_prefix, lower_extension, lower_extension_of, push_char,
    push_decimal, str_eq, str_in_list, str_starts_with, texts, extension_of, path_extension,
};

verus! {

/// Previews images.
pub struct ImageHandler;

/// Extensions of image files.
pub open spec fn image_extensions() -> Seq<Seq<char>> {
    seq!["png"@, "jpg"@, "jpeg"@, "gif"@, "webp"@, "bmp"@, "svg"@, "ico"@, "tiff"@]
}

/// The file starts like a PNG, JPEG, GIF or BMP image, or its type is
/// `image/*`.
pub open spec fn looks_like_image(mime: Seq<char>, magic: Seq<u8>) -> bool {
    bytes_have_prefix(magic, seq![0x89u8, 0x50u8, 0x4Eu8, 0x47u8])
        || bytes_have_prefix(magic, seq![0xFFu8, 0xD8u8, 0xFFu8])
        || bytes_have_prefix(magic, seq![0x47u8, 0x49u8, 0x46u8, 0x38u8])
        || bytes_have_prefix(magic, seq![0x42u8, 0x4Du8])
        || has_prefix(mime, "image/"@)
}

/// 100 for images (by content, type or extension), 2 otherwise.
pub open spec fn image_priority(path: Seq<char>, mime: Seq<char>, magic: Seq<u8>) -> u8 {
    if looks_like_image(mime, magic) || image_extensions().contains(lower_extension(path)) { 100 } else { 2 }
}

impl ImageHandler {
    pub fn name(&self) -> (res: &'static str)
        ensures
            res@ == "image"@,
    {
        "image"
    }

    pub fn priority(&self, path: &str, mime: &str, magic: &[u8]) -> (res: u8)
        ensures
            res == image_priority(path@, mime@, magic@),
    {
        let png = [0x89u8, 0x50u8, 0x4Eu8, 0x47u8];
        let jpeg = [0xFFu8, 0xD8u8, 0xFFu8];
        let gif = [0x47u8, 0x49u8, 0x46u8, 0x38u8];
        let bmp = [0x42u8, 0x4Du8];
        assert(png@ =~= seq![0x89u8, 0x50u8, 0x4Eu8, 0x47u8]);
        assert(jpeg@ =~= seq![0xFFu8, 0xD8u8, 0xFFu8]);
        assert(gif@ =~= seq![0x47u8, 0x49u8, 0x46u8, 0x38u8]);
        assert(bmp@ =~= seq![0x42u8, 0x4Du8]);
        let is_magic_image = bytes_start_with(magic, &png) || bytes_start_with(magic, &jpeg)
            || bytes_start_with(magic, &gif) || bytes_start_with(magic, &bmp) || str_starts_with(mime, "image/");
        let ext = lower_extension_of(path);
        let list = vec!["png", "jpg", "jpeg", "gif", "webp", "bmp", "svg", "ico", "tiff"];
        assert(texts(list@) =~= image_extensions());
        let is_ext_image = str_in_list(ext.as_str(), &list);
        if is_magic_image || is_ext_image { 100 } else { 2 }
    }

    /// 50 MB.
    pub fn file_size_limit(&self) -> (res: u64)
        ensures
            res == 50 * 1024 * 1024,
    {
        50 * 1024 * 1024
    }
}


// ---------------------------------------------------------------------------
// Raster images
// ---------------------------------------------------------------------------

/// What the `image` crate decodes from image data read as the format that
/// the file extension `ext` names (`ImageFormat::from_extension`, then
/// `ImageReader::decode`, as `image::open` does), then `dimensions`: width
/// and height, or the error's text (for an extension that names no format,
/// that of the `Unsupported` error naming the extension).
pub uninterp spec fn image_decode_of(data: Seq<u8>, ext: Seq<char>) -> Result<(u32, u32), Seq<char>>;

/// Decodes image data with the `image` crate as the format extension `ext`
/// names.
#[verifier::external_body]
fn decode_image(data: &[u8], ext: &str) -> (res: Result<(image::DynamicImage, u32, u32), String>)
    ensures
        match res {
            Ok((_, w, h)) => image_decode_of(data@, ext@) == Ok::<(u32, u32), Seq<char>>((w, h)),
            Err(e) => image_decode_of(data@, ext@) == Err::<(u32, u32), Seq<char>>(e@),
        },
{
    let hint = image::error::ImageFormatHint::PathExtension(ext.into());
    let f = image::ImageFormat::from_extension(ext).ok_or(image::ImageError::Unsupported(hint.into()));
    let mut r = image::ImageReader::new(std::io::Cursor::new(data));
    r.set_format(f.map_err(|e| e.to_string())?);
    let img = r.decode().map_err(|e| e.to_string())?;
    let (w, h) = image::GenericImageView::dimensions(&img);
    Ok((img, w, h))
}

/// The `image` crate's error for data of no known format: an
/// `ImageReader` with no format set fails to decode with "The image format
/// could not be determined".
#[verifier::external_body]
fn undetermined_format_error(data: &[u8]) -> (res: String)
    ensures
        res@ == "The image format could not be determined"@,
{
    image::ImageReader::new(std::io::Cursor::new(data)).decode().err().map(|e| e.to_string()).unwrap_or_default()
}

/// What `image::open` decodes from a file with extension `ext` holding
/// `data`: a file without an extension (or with an empty one) has no
/// format to decode as.
pub open spec fn image_decoded(data: Seq<u8>, ext: Option<Seq<char>>) -> Result<(u32, u32), Seq<char>> {
    match ext {
        Some(e) => if e.len() > 0 {
            image_decode_of(data, e)
        } else {
            Err("The image format could not be determined"@)
        },
        None => Err("The image format could not be determined"@),
    }
}

/// Decodes the image data of the file at `path` as `image_decoded` says.
fn decode_image_file(path: &str, data: &[u8]) -> (res: Result<(image::DynamicImage, u32, u32), String>)
    ensures
        match res {
            Ok((_, w, h)) => image_decoded(data@, path_extension(path@)) == Ok::<(u32, u32), Seq<char>>((w, h)),
            Err(e) => image_decoded(data@, path_extension(path@)) == Err::<(u32, u32), Seq<char>>(e@),
        },
{
    match extension_of(path) {
        Some(e) => if e.as_str().unicode_len() > 0 {
            decode_image(data, e.as_str())
        } else {
            Err(undetermined_format_error(data))
        },
        None => Err(undetermined_format_error(data)),
    }
}

/// The largest width and height previewed.
pub const MAX_DIM: u32 = 10000;

/// The message for an image whose dimensions exceed the limit.
pub open spec fn dims_message(w: u32, h: u32) -> Seq<char> {
    "image dims too large "@ + decimal(w as nat) + "x"@ + decimal(h as nat)
}

// ---------------------------------------------------------------------------
// SVG
// ---------------------------------------------------------------------------

/// How often `c` occurs in `s`.
pub open spec fn count_char(s: Seq<char>, c: char) -> nat
    decreases s.len(),
{
    if s.len() == 0 { 0 } else { count_char(s.drop_last(), c) + if s.last() == c { 1nat } else { 0nat } }
}

/// The largest SVG source rendered, in bytes, and the most `<` it may hold.
pub const SVG_MAX_BYTES: usize = 2097152;
pub const SVG_MAX_NODES: usize = 50000;

/// The guards before an SVG source is parsed: at most 2 MB (`len_bytes`,
/// its UTF-8 length) and at most 50000 `<`.
pub open spec fn svg_source_check(src: Seq<char>, len_bytes: nat) -> Result<(), Seq<char>> {
    if len_bytes > SVG_MAX_BYTES {
        Err("SVG too large (>2MB)"@)
    } else if count_char(src, '<') > SVG_MAX_NODES {
        Err("SVG too many nodes"@)
    } else {
        Ok(())
    }
}

/// Checks an SVG source before parsing.
pub fn svg_precheck(src: &str) -> (res: Result<(), String>)
    ensures
        match res {
            Ok(()) => svg_source_check(src@, src.spec_bytes().len()) is Ok,
            Err(e) => svg_source_check(src@, src.spec_bytes().len()) == Err::<(), Seq<char>>(e@),
        },
{
    if src.as_bytes().len() > SVG_MAX_BYTES {
        return Err(String::from_str("SVG too large (>2MB)"));
    }
    let cs = chars_of(src);
    let mut n: usize = 0;
    let mut i: usize = 0;
    while i < cs.len()
        invariant
            0 <= i <= cs@.len(),
            cs@ == src@,
            n == count_char(cs@.take(i as int), '<'),
            n <= i,
        decreases cs.len() - i,
    {
        assert(cs@.take(i + 1).drop_last() =~= cs@.take(i as int));
        if cs[i] == '<' {
            n = n + 1;
        }
        i = i + 1;
    }
    assert(cs@.take(cs@.len() as int) =~= cs@);
    if n > SVG_MAX_NODES {
        return Err(String::from_str("SVG too many nodes"));
    }
    Ok(())
}

/// The guards on a parsed SVG's size (rounded up to whole pixels).
pub open spec fn svg_size_check(w: u32, h: u32) -> Result<(), Seq<char>> {
    if w == 0 || h == 0 {
        Err("SVG zero size"@)
    } else if w > MAX_DIM || h > MAX_DIM {
        Err("SVG dims "@ + decimal(w as nat) + "x"@ + decimal(h as nat) + " too large"@)
    } else {
        Ok(())
    }
}

/// Checks the size of a parsed SVG.
pub fn svg_dims_check(w: u32, h: u32) -> (res: Result<(), String>)
    ensures
        match res {
            Ok(()) => svg_size_check(w, h) is Ok,
            Err(e) => svg_size_check(w, h) == Err::<(), Seq<char>>(e@),
        },
{
    if w == 0 || h == 0 {
        return Err(String::from_str("SVG zero size"));
    }
    if w > MAX_DIM || h > MAX_DIM {
        let mut m = String::from_str("SVG dims ");
        push_decimal(&mut m, w as u64);
        m.append("x");
        push_decimal(&mut m, h as u64);
        m.append(" too large");
        return Err(m);
    }
    Ok(())
}

/// How many characters of SVG source the fallback shows.
pub const SVG_SOURCE_CHARS: usize = 2000;

/// The text shown when an SVG cannot be rendered: the error and the first
/// 2000 characters of the source (or, when it cannot be read, "svg read
/// error: " and the render error), in yellow.
pub open spec fn svg_fallback_text(source: Result<Seq<char>, Seq<char>>, err: Seq<char>) -> Seq<char> {
    let txt = match source { Ok(t) => t, Err(_) => "svg read error: "@ + err };
    let shown = txt.take(if txt.len() < SVG_SOURCE_CHARS { txt.len() as int } else { SVG_SOURCE_CHARS as int });
    "SVG preview failed: "@ + err + seq![' ', '\u{2014}'] + " showing source (first 2000 chars):"@ + seq!['\n'] + shown
}

/// The text of a read result.
pub open spec fn source_view(r: Result<String, String>) -> Result<Seq<char>, Seq<char>> {
    match r {
        Ok(t) => Ok(t@),
        Err(e) => Err(e@),
    }
}

/// What the image preview gives: "too large" above 50 MB unless forced;
/// for SVG the rendering (with its size) or the source as text; for other
/// images the decoded image (refused above 10000 pixels a side) or the
/// decoder's error.
pub open spec fn image_outcome(path: Seq<char>, data: Seq<u8>, size: u64, forced: bool, svg: Result<(image::DynamicImage, u32, u32), String>, svg_source: Result<String, String>, meta: FileMeta, res: Result<PreviewResult, PreviewError>) -> bool {
    &&& (size > 50 * 1024 * 1024 && !forced ==> res == Err::<PreviewResult, PreviewError>(PreviewError::TooLarge(size, (50 * 1024 * 1024) as u64)))
    &&& (!(size > 50 * 1024 * 1024 && !forced) && lower_extension(path) == "svg"@ ==> match svg {
        Ok((_, w, h)) => res matches Ok(PreviewResult::Image { rgba, meta: m })
            && m.dims == Some((w, h)) && m.size == meta.size && m.mtime == meta.mtime && m.mime == meta.mime,
        Err(e) => res matches Ok(PreviewResult::Text { lines, title, meta: m })
            && lines_view(lines@) == seq![seq![(svg_fallback_text(source_view(svg_source), e@), fg_style(Color::Yellow))]]
            && title@ == path && m == meta,
    })
    &&& (!(size > 50 * 1024 * 1024 && !forced) && lower_extension(path) != "svg"@ ==> match image_decoded(data, path_extension(path)) {
        Err(e) => res matches Err(PreviewError::Decode(m)) && m@ == "image open: "@ + e,
        Ok((w, h)) => if w > MAX_DIM || h > MAX_DIM {
            res matches Err(PreviewError::Decode(m)) && m@ == dims_message(w, h)
        } else {
            res matches Ok(PreviewResult::Image { rgba, meta: m })
                && m.dims == Some((w, h)) && m.size == meta.size && m.mtime == meta.mtime && m.mime == meta.mime
        },
    })
}

impl ImageHandler {
    /// The preview of image data of `size` bytes: "too large" above the
    /// limit unless forced. An SVG file shows its rendering (`svg`, made by
    /// the caller), or on failure its source as text. Other images are
    /// decoded; dimensions above 10000 are refused.
    pub fn preview(&self, path: &str, data: &[u8], size: u64, forced: bool,
        svg: Result<(image::DynamicImage, u32, u32), String>, svg_source: Result<String, String>, meta: FileMeta)
        -> (res: Result<PreviewResult, PreviewError>)
        ensures
            image_outcome(path@, data@, size, forced, svg, svg_source, meta, res),
    {
        if let Err(e) = check_size(size, self.file_size_limit(), forced) {
            return Err(e);
        }
        let ext = lower_extension_of(path);
        if str_eq(ext.as_str(), "svg") {
            match svg {
                Ok((img, w, h)) => {
                    let meta2 = crate::preview::FileMeta { size: meta.size, mtime: meta.mtime, mime: meta.mime, dims: Some((w, h)) };
                    Ok(PreviewResult::Image { rgba: img, meta: meta2 })
                }
                Err(e) => {
                    let ghost src_v = source_view(svg_source);
                    let txt = match svg_source {
                        Ok(t) => t,
                        Err(_) => {
                            let mut t = String::from_str("svg read error: ");
                            t.append(e.as_str());
                            t
                        }
                    };
                    let cs = chars_of(txt.as_str());
                    let n = if cs.len() < SVG_SOURCE_CHARS { cs.len() } else { SVG_SOURCE_CHARS };
                    let mut msg = String::from_str("SVG preview failed: ");
                    msg.append(e.as_str());
                    msg.append(" \u{2014} showing source (first 2000 chars):\n");
                    let ghost prefix = msg@;
                    let mut i: usize = 0;
                    while i < n
                        invariant
                            0 <= i <= n <= cs@.len(),
                            msg@ == prefix + cs@.take(i as int),
                        decreases n - i,
                    {
                        push_char(&mut msg, cs[i]);
                        i = i + 1;
                        assert(msg@ =~= prefix + cs@.take(i as int));
                    }
                    proof {
                        reveal_strlit(" \u{2014} showing source (first 2000 chars):\n");
                        reveal_strlit(" showing source (first 2000 chars):");
                    }
                    assert(msg@ =~= svg_fallback_text(src_v, e@));
                    let ghost mv = msg@;
                    let lines = vec![line_styled(msg, Style { fg: Some(Color::Yellow), bg: None, bold: false, italic: false })];
                    assert(lines_view(lines@) =~= seq![seq![(mv, fg_style(Color::Yellow))]]);
                    let mut title = String::new();
                    title.append(path);
                    Ok(PreviewResult::Text { lines, title, meta })
                }
            }
        } else {
            match decode_image_file(path, data) {
                Err(e) => {
                    let mut m = String::from_str("image open: ");
                    m.append(e.as_str());
                    Err(PreviewError::Decode(m))
                }
                Ok((img, w, h)) => {
                    if w > MAX_DIM || h > MAX_DIM {
                        let mut m = String::from_str("image dims too large ");
                        push_decimal(&mut m, w as u64);
                        m.append("x");
                        push_decimal(&mut m, h as u64);
                        return Err(PreviewError::Decode(m));
                    }
                    let meta2 = crate::preview::FileMeta { size: meta.size, mtime: meta.mtime, mime: meta.mime, dims: Some((w, h)) };
                    Ok(PreviewResult::Image { rgba: img, meta: meta2 })
                }
            }
        }
    }
}

} // verus!
