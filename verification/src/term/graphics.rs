//! Images on a character terminal: each cell shows two pixels stacked, the
//! upper one as the foreground of "▀" and the lower one as the background.
use vstd::prelude::*;
use crate::preview::Color;
use crate::term::capabilities::Capabilities;

verus! {

/// The RGBA bytes, row by row, of `img` resized to `width`×`height` with
/// the triangle filter (`image::imageops::resize`). The buffer's shape is
/// stated; the values of the resampled pixels are not.
#[verifier::external_body]
fn resize_rgba(img: &image::DynamicImage, width: u32, height: u32) -> (res: Vec<u8>)
    requires
        4 * width * height <= usize::MAX,
    ensures
        res@.len() == 4 * width * height,
{
    image::imageops::resize(img, width, height, image::imageops::FilterType::Triangle).into_raw()
}

/// The color of pixel (`x`, `y`) of RGBA bytes laid out in rows of `row`
/// pixels; the alpha byte is ignored.
pub open spec fn pixel_color(px: Seq<u8>, row: nat, x: nat, y: nat) -> Color {
    let i: int = ((y * row + x) * 4) as int;
    Color::Rgb(px[i], px[i + 1], px[i + 2])
}

/// The cells of a `width`×`height` area drawn from pixels twice as wide and
/// twice as high: the cell in column `x` of row `y` takes pixel (2x, 2y) on
/// top and pixel (2x, 2y + 1) below it.
pub open spec fn halfblock_spec(px: Seq<u8>, width: nat, height: nat) -> Seq<Seq<(Color, Color)>> {
    Seq::new(height, |y: int| Seq::new(width, |x: int|
        (pixel_color(px, 2 * width, (2 * x) as nat, (2 * y) as nat),
         pixel_color(px, 2 * width, (2 * x) as nat, (2 * y + 1) as nat))))
}

/// The rows of cells, each as a sequence.
pub open spec fn cells_view(rows: Seq<Vec<(Color, Color)>>) -> Seq<Seq<(Color, Color)>> {
    Seq::new(rows.len(), |y: int| rows[y]@)
}

proof fn lemma_pixel_in_bounds(w: int, h: int, x: int, y: int)
    requires
        0 <= x < w,
        0 <= y < h,
    ensures
        ((2 * y + 1) * (2 * w) + 2 * x) * 4 + 2 < 4 * (2 * w) * (2 * h),
        (2 * y) * (2 * w) <= (2 * y + 1) * (2 * w) <= ((2 * y + 1) * (2 * w) + 2 * x) * 4,
        ((2 * y) * (2 * w) + 2 * x) * 4 + 2 < 4 * (2 * w) * (2 * h),
        0 <= ((2 * y) * (2 * w) + 2 * x) * 4,
{
    assert((2 * y + 1) * (2 * w) + 2 * x < (2 * y + 2) * (2 * w)) by (nonlinear_arith)
        requires 0 <= x < w;
    assert((2 * y + 2) * (2 * w) <= (2 * h) * (2 * w)) by (nonlinear_arith)
        requires 0 <= y < h, 0 < w;
    assert(4 * (2 * w) * (2 * h) == 4 * ((2 * h) * (2 * w))) by (nonlinear_arith);
    assert(0 <= (2 * y) * (2 * w)) by (nonlinear_arith)
        requires 0 <= y, 0 < w;
    assert((2 * y) * (2 * w) <= (2 * y + 1) * (2 * w)) by (nonlinear_arith)
        requires 0 <= y, 0 < w;
}

/// The cells of a `width`×`height` area from the RGBA bytes of an image of
/// twice its width and height.
pub fn halfblock_cells(px: &Vec<u8>, width: u16, height: u16) -> (res: Vec<Vec<(Color, Color)>>)
    requires
        px@.len() == 4 * (2 * width) * (2 * height),
    ensures
        cells_view(res@) == halfblock_spec(px@, width as nat, height as nat),
{
    let w: usize = width as usize;
    let h: usize = height as usize;
    let row: usize = 2 * w;
    let mut out: Vec<Vec<(Color, Color)>> = Vec::new();
    let mut y: usize = 0;
    while y < h
        invariant
            w == width,
            h == height,
            row == 2 * w,
            px@.len() == 4 * (2 * width) * (2 * height),
            0 <= y <= h,
            cells_view(out@) == halfblock_spec(px@, width as nat, height as nat).take(y as int),
        decreases h - y,
    {
        let mut cells: Vec<(Color, Color)> = Vec::new();
        let mut x: usize = 0;
        while x < w
            invariant
                w == width,
                h == height,
                row == 2 * w,
                px@.len() == 4 * (2 * width) * (2 * height),
                0 <= y < h,
                0 <= x <= w,
                cells@.len() == x,
                cells_view(out@) == halfblock_spec(px@, width as nat, height as nat).take(y as int),
                forall|k: int| 0 <= k < x ==> #[trigger] cells@[k] == halfblock_spec(px@, width as nat, height as nat)[y as int][k],
            decreases w - x,
        {
            proof {
                lemma_pixel_in_bounds(w as int, h as int, x as int, y as int);
                assert(px@.len() == px.len());
            }
            let top: usize = ((2 * y) * row + 2 * x) * 4;
            let bottom: usize = ((2 * y + 1) * row + 2 * x) * 4;
            let cell = (Color::Rgb(px[top], px[top + 1], px[top + 2]), Color::Rgb(px[bottom], px[bottom + 1], px[bottom + 2]));
            cells.push(cell);
            x = x + 1;
        }
        let ghost before = out@;
        proof {
            assert(cells_view(before).len() == before.len());
            assert(halfblock_spec(px@, width as nat, height as nat).take(y as int).len() == y);
            assert(before.len() == y);
            assert(cells@ =~= halfblock_spec(px@, width as nat, height as nat)[y as int]);
        }
        out.push(cells);
        proof {
            let spec = halfblock_spec(px@, width as nat, height as nat);
            assert forall|k: int| 0 <= k <= y implies #[trigger] cells_view(out@)[k] == spec.take(y + 1)[k] by {
                if k < y {
                    assert(out@[k] == before[k]);
                    assert(cells_view(before)[k] == spec.take(y as int)[k]);
                }
            }
            assert(cells_view(out@) =~= spec.take(y + 1));
        }
        y = y + 1;
    }
    assert(halfblock_spec(px@, width as nat, height as nat).take(h as int) =~= halfblock_spec(px@, width as nat, height as nat));
    out
}

/// The cells that draw `img` in a `width`×`height` area: none when the area
/// is empty; otherwise the image is resized to twice the area's width and
/// height, and the cells are taken from that as `halfblock_spec` says.
pub fn render_image_halfblock(img: &image::DynamicImage, width: u16, height: u16) -> (res: Vec<Vec<(Color, Color)>>)
    requires
        4 * (2 * width) * (2 * height) <= usize::MAX,
    ensures
        width == 0 || height == 0 ==> res@.len() == 0,
        width > 0 && height > 0 ==> exists|px: Seq<u8>| px.len() == 4 * (2 * width) * (2 * height)
            && cells_view(res@) == #[trigger] halfblock_spec(px, width as nat, height as nat),
{
    if width == 0 || height == 0 {
        return Vec::new();
    }
    let tw: u32 = (width as u32) * 2;
    let th: u32 = (height as u32) * 2;
    let px = resize_rgba(img, tw, th);
    assert(px@.len() == 4 * (2 * width) * (2 * height));
    halfblock_cells(&px, width, height)
}

/// How an image is drawn for the detected capabilities: every terminal gets
/// the half-block drawing.
pub fn render_image_dispatch(img: &image::DynamicImage, caps: Capabilities, width: u16, height: u16) -> (res: Vec<Vec<(Color, Color)>>)
    requires
        4 * (2 * width) * (2 * height) <= usize::MAX,
    ensures
        width == 0 || height == 0 ==> res@.len() == 0,
        width > 0 && height > 0 ==> exists|px: Seq<u8>| px.len() == 4 * (2 * width) * (2 * height)
            && cells_view(res@) == #[trigger] halfblock_spec(px, width as nat, height as nat),
{
    let _ = caps;
    render_image_halfblock(img, width, height)
}

/// The base64 digit for a value below 64 in the standard alphabet.
pub open spec fn base64_digit(v: int) -> char {
    if v < 26 {
        (65 + v) as char
    } else if v < 52 {
        (97 + v - 26) as char
    } else if v < 62 {
        (48 + v - 52) as char
    } else if v == 62 {
        '+'
    } else {
        '/'
    }
}

/// Base64 with the standard alphabet and "=" padding (RFC 4648, section 4):
/// each group of three bytes becomes four digits of six bits each; a last
/// group of one or two bytes is padded to four characters.
pub open spec fn base64_spec(d: Seq<u8>) -> Seq<char>
    decreases d.len(),
{
    if d.len() == 0 {
        Seq::empty()
    } else {
        let a = d[0] as int;
        let b = if d.len() > 1 { d[1] as int } else { 0 };
        let c = if d.len() > 2 { d[2] as int } else { 0 };
        if d.len() == 1 {
            seq![base64_digit(a / 4), base64_digit((a % 4) * 16), '=', '=']
        } else if d.len() == 2 {
            seq![base64_digit(a / 4), base64_digit((a % 4) * 16 + b / 16), base64_digit((b % 16) * 4), '=']
        } else {
            seq![base64_digit(a / 4), base64_digit((a % 4) * 16 + b / 16), base64_digit((b % 16) * 4 + c / 64), base64_digit(c % 64)]
                + base64_spec(d.subrange(3, d.len() as int))
        }
    }
}

/// `base64::engine::general_purpose::STANDARD.encode`: base64 with the
/// standard alphabet and padding.
#[verifier::external_body]
fn base64_standard(data: &[u8]) -> (res: String)
    requires
        data@.len() / 3 * 4 + 4 <= usize::MAX,
    ensures
        res@ == base64_spec(data@),
{
    base64::Engine::encode(&base64::engine::general_purpose::STANDARD, data)
}

/// The bytes the `image` crate's PNG encoder writes for an RGBA image of
/// `width`×`height` pixels given row by row (`PngEncoder::new`, then
/// `write_image` with `ExtendedColorType::Rgba8`, the encoder
/// `DynamicImage::write_to` uses for PNG); what was written before an
/// encoding error is kept. A function of the pixels and the size.
pub uninterp spec fn png_of(rgba: Seq<u8>, width: u32, height: u32) -> Seq<u8>;

/// Encodes RGBA pixels as PNG into memory. The encoder asserts that the
/// buffer holds four bytes per pixel, hence the precondition; every
/// `Vec<u8>` holds at most `isize::MAX` bytes.
#[verifier::external_body]
fn encode_png(rgba: &[u8], width: u32, height: u32) -> (res: Vec<u8>)
    requires
        rgba@.len() == 4 * width * height,
    ensures
        res@ == png_of(rgba@, width, height),
        res@.len() <= isize::MAX,
{
    let mut buf = Vec::new();
    let png = image::codecs::png::PngEncoder::new(&mut buf);
    let _ = image::ImageEncoder::write_image(png, rgba, width, height, image::ExtendedColorType::Rgba8);
    buf
}

/// The PNG encoding, in base64, of an RGBA image of `width`×`height`
/// pixels given row by row, as inline-image protocols carry it.
pub fn encode_png_base64(rgba: &[u8], width: u32, height: u32) -> (res: String)
    requires
        rgba@.len() == 4 * width * height,
    ensures
        res@ == base64_spec(png_of(rgba@, width, height)),
{
    let png = encode_png(rgba, width, height);
    assert(png@.len() / 3 * 4 + 4 <= usize::MAX) by (nonlinear_arith)
        requires png@.len() <= isize::MAX, isize::MAX * 2 + 1 == usize::MAX;
    base64_standard(png.as_slice())
}

} // verus!
