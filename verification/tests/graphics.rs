use tui_preview::preview::Color;
use tui_preview::term::capabilities::Capabilities;
use tui_preview::term::graphics::{encode_png_base64, halfblock_cells, render_image_dispatch, render_image_halfblock};

fn solid(w: u32, h: u32, px: [u8; 4]) -> image::DynamicImage {
    image::DynamicImage::ImageRgba8(image::RgbaImage::from_pixel(w, h, image::Rgba(px)))
}

#[test]
fn halfblock_takes_even_columns_and_row_pairs() {
    // 4×2 pixels for a 2×1 area: pixel (x, y) has red = 10 * x + y.
    let mut px = Vec::new();
    for y in 0..2u8 {
        for x in 0..4u8 {
            px.extend_from_slice(&[10 * x + y, 1, 2, 255]);
        }
    }
    let cells = halfblock_cells(&px, 2, 1);
    assert_eq!(cells.len(), 1);
    assert_eq!(cells[0], vec![
        (Color::Rgb(0, 1, 2), Color::Rgb(1, 1, 2)),
        (Color::Rgb(20, 1, 2), Color::Rgb(21, 1, 2)),
    ]);
}

#[test]
fn halfblock_of_solid_image() {
    let img = solid(2, 2, [200, 10, 30, 255]);
    let cells = render_image_halfblock(&img, 1, 1);
    assert_eq!(cells, vec![vec![(Color::Rgb(200, 10, 30), Color::Rgb(200, 10, 30))]]);
    let big = render_image_halfblock(&solid(5, 3, [7, 8, 9, 255]), 3, 2);
    assert_eq!(big.len(), 2);
    assert!(big.iter().all(|row| row.len() == 3 && row.iter().all(|c| *c == (Color::Rgb(7, 8, 9), Color::Rgb(7, 8, 9)))));
}

#[test]
fn halfblock_of_empty_area() {
    let img = solid(2, 2, [1, 2, 3, 255]);
    assert!(render_image_halfblock(&img, 0, 5).is_empty());
    assert!(render_image_halfblock(&img, 4, 0).is_empty());
}

#[test]
fn dispatch_draws_half_blocks() {
    let img = solid(4, 4, [0, 255, 0, 255]);
    let caps = Capabilities { kitty: true, sixel: false, iterm2: false, truecolor: true, unicode: true };
    assert_eq!(render_image_dispatch(&img, caps, 2, 2), render_image_halfblock(&img, 2, 2));
}

#[test]
fn png_base64_has_png_signature() {
    let s = encode_png_base64(&[0, 0, 0, 255], 1, 1);
    assert!(s.starts_with("iVBORw0KGgo"), "{}", s);
    assert_eq!(s.len() % 4, 0);
}

#[test]
fn png_base64_is_the_encoders_output() {
    let px = [10u8, 20, 30, 255, 40, 50, 60, 128];
    let mut png = Vec::new();
    image::ImageEncoder::write_image(image::codecs::png::PngEncoder::new(&mut png), &px, 2, 1, image::ExtendedColorType::Rgba8).unwrap();
    let s = encode_png_base64(&px, 2, 1);
    assert_eq!(s, base64::Engine::encode(&base64::engine::general_purpose::STANDARD, &png));
}
