use ab_glyph::{FontVec, PxScale};
use glyph_brush_draw_cache::CacheWriteErr;
use image::{GenericImageView, Rgba};
use lovett::color::Color;
use lovett::fb::FB;
use lovett::shapes::{Draw, Drawable};
use lovett::canvas::Layer;
use lovett::gui_tk::{button_layers, text_block_layers, text_fits, Frame, Palette, StateGroups};
use lovett::shapes::Rect;
use lovett::atlas::{AtlasRect, GlyphPlacement};
use lovett::glyphs::Packer;
use lovett::text::{all_fit, cache_error, get_font, kept_placements, parsed_font, LayoutError, Text};

// A font of 21 glyphs: an empty one, and for each letter from 'A' to 'T' a
// box of 400 by 700 units with an advance of 600 units. 1000 units to the
// em, ascent 800, descent 200.
const FONT: [u8; 1332] = [
    0, 1, 0, 0, 0, 7, 0, 64, 0, 2, 0, 48, 99, 109, 97, 112, 0, 0, 0, 0, 0, 0, 0, 124,
    0, 0, 1, 18, 103, 108, 121, 102, 0, 0, 0, 0, 0, 0, 1, 144, 0, 0, 2, 168, 104, 101, 97, 100,
    0, 0, 0, 0, 0, 0, 4, 56, 0, 0, 0, 54, 104, 104, 101, 97, 0, 0, 0, 0, 0, 0, 4, 112,
    0, 0, 0, 36, 104, 109, 116, 120, 0, 0, 0, 0, 0, 0, 4, 148, 0, 0, 0, 84, 108, 111, 99, 97,
    0, 0, 0, 0, 0, 0, 4, 232, 0, 0, 0, 44, 109, 97, 120, 112, 0, 0, 0, 0, 0, 0, 5, 20,
    0, 0, 0, 32, 0, 0, 0, 1, 0, 0, 0, 3, 0, 0, 0, 12, 0, 0, 1, 6, 0, 0, 0, 0,
    0, 0, 0, 0, 0, 0, 0, 0, 0, 0, 0, 0, 0, 0, 0, 0, 0, 0, 0, 0, 0, 0, 0, 0,
    0, 0, 0, 0, 0, 0, 0, 0, 0, 0, 0, 0, 0, 0, 0, 0, 0, 0, 0, 0, 0, 0, 0, 0,
    0, 0, 0, 0, 0, 0, 0, 0, 0, 0, 0, 0, 0, 0, 0, 1, 2, 3, 4, 5, 6, 7, 8, 9,
    10, 11, 12, 13, 14, 15, 16, 17, 18, 19, 20, 0, 0, 0, 0, 0, 0, 0, 0, 0, 0, 0, 0, 0,
    0, 0, 0, 0, 0, 0, 0, 0, 0, 0, 0, 0, 0, 0, 0, 0, 0, 0, 0, 0, 0, 0, 0, 0,
    0, 0, 0, 0, 0, 0, 0, 0, 0, 0, 0, 0, 0, 0, 0, 0, 0, 0, 0, 0, 0, 0, 0, 0,
    0, 0, 0, 0, 0, 0, 0, 0, 0, 0, 0, 0, 0, 0, 0, 0, 0, 0, 0, 0, 0, 0, 0, 0,
    0, 0, 0, 0, 0, 0, 0, 0, 0, 0, 0, 0, 0, 0, 0, 0, 0, 0, 0, 0, 0, 0, 0, 0,
    0, 0, 0, 0, 0, 0, 0, 0, 0, 0, 0, 0, 0, 0, 0, 0, 0, 0, 0, 0, 0, 0, 0, 0,
    0, 0, 0, 0, 0, 0, 0, 0, 0, 0, 0, 0, 0, 0, 0, 0, 0, 0, 0, 0, 0, 0, 0, 0,
    0, 0, 0, 0, 0, 0, 0, 0, 0, 0, 0, 0, 0, 0, 0, 0, 0, 1, 0, 100, 0, 0, 1, 244,
    2, 188, 0, 3, 0, 0, 1, 1, 1, 1, 0, 100, 0, 0, 1, 144, 0, 0, 0, 0, 2, 188, 0, 0,
    253, 68, 0, 1, 0, 100, 0, 0, 1, 244, 2, 188, 0, 3, 0, 0, 1, 1, 1, 1, 0, 100, 0, 0,
    1, 144, 0, 0, 0, 0, 2, 188, 0, 0, 253, 68, 0, 1, 0, 100, 0, 0, 1, 244, 2, 188, 0, 3,
    0, 0, 1, 1, 1, 1, 0, 100, 0, 0, 1, 144, 0, 0, 0, 0, 2, 188, 0, 0, 253, 68, 0, 1,
    0, 100, 0, 0, 1, 244, 2, 188, 0, 3, 0, 0, 1, 1, 1, 1, 0, 100, 0, 0, 1, 144, 0, 0,
    0, 0, 2, 188, 0, 0, 253, 68, 0, 1, 0, 100, 0, 0, 1, 244, 2, 188, 0, 3, 0, 0, 1, 1,
    1, 1, 0, 100, 0, 0, 1, 144, 0, 0, 0, 0, 2, 188, 0, 0, 253, 68, 0, 1, 0, 100, 0, 0,
    1, 244, 2, 188, 0, 3, 0, 0, 1, 1, 1, 1, 0, 100, 0, 0, 1, 144, 0, 0, 0, 0, 2, 188,
    0, 0, 253, 68, 0, 1, 0, 100, 0, 0, 1, 244, 2, 188, 0, 3, 0, 0, 1, 1, 1, 1, 0, 100,
    0, 0, 1, 144, 0, 0, 0, 0, 2, 188, 0, 0, 253, 68, 0, 1, 0, 100, 0, 0, 1, 244, 2, 188,
    0, 3, 0, 0, 1, 1, 1, 1, 0, 100, 0, 0, 1, 144, 0, 0, 0, 0, 2, 188, 0, 0, 253, 68,
    0, 1, 0, 100, 0, 0, 1, 244, 2, 188, 0, 3, 0, 0, 1, 1, 1, 1, 0, 100, 0, 0, 1, 144,
    0, 0, 0, 0, 2, 188, 0, 0, 253, 68, 0, 1, 0, 100, 0, 0, 1, 244, 2, 188, 0, 3, 0, 0,
    1, 1, 1, 1, 0, 100, 0, 0, 1, 144, 0, 0, 0, 0, 2, 188, 0, 0, 253, 68, 0, 1, 0, 100,
    0, 0, 1, 244, 2, 188, 0, 3, 0, 0, 1, 1, 1, 1, 0, 100, 0, 0, 1, 144, 0, 0, 0, 0,
    2, 188, 0, 0, 253, 68, 0, 1, 0, 100, 0, 0, 1, 244, 2, 188, 0, 3, 0, 0, 1, 1, 1, 1,
    0, 100, 0, 0, 1, 144, 0, 0, 0, 0, 2, 188, 0, 0, 253, 68, 0, 1, 0, 100, 0, 0, 1, 244,
    2, 188, 0, 3, 0, 0, 1, 1, 1, 1, 0, 100, 0, 0, 1, 144, 0, 0, 0, 0, 2, 188, 0, 0,
    253, 68, 0, 1, 0, 100, 0, 0, 1, 244, 2, 188, 0, 3, 0, 0, 1, 1, 1, 1, 0, 100, 0, 0,
    1, 144, 0, 0, 0, 0, 2, 188, 0, 0, 253, 68, 0, 1, 0, 100, 0, 0, 1, 244, 2, 188, 0, 3,
    0, 0, 1, 1, 1, 1, 0, 100, 0, 0, 1, 144, 0, 0, 0, 0, 2, 188, 0, 0, 253, 68, 0, 1,
    0, 100, 0, 0, 1, 244, 2, 188, 0, 3, 0, 0, 1, 1, 1, 1, 0, 100, 0, 0, 1, 144, 0, 0,
    0, 0, 2, 188, 0, 0, 253, 68, 0, 1, 0, 100, 0, 0, 1, 244, 2, 188, 0, 3, 0, 0, 1, 1,
    1, 1, 0, 100, 0, 0, 1, 144, 0, 0, 0, 0, 2, 188, 0, 0, 253, 68, 0, 1, 0, 100, 0, 0,
    1, 244, 2, 188, 0, 3, 0, 0, 1, 1, 1, 1, 0, 100, 0, 0, 1, 144, 0, 0, 0, 0, 2, 188,
    0, 0, 253, 68, 0, 1, 0, 100, 0, 0, 1, 244, 2, 188, 0, 3, 0, 0, 1, 1, 1, 1, 0, 100,
    0, 0, 1, 144, 0, 0, 0, 0, 2, 188, 0, 0, 253, 68, 0, 1, 0, 100, 0, 0, 1, 244, 2, 188,
    0, 3, 0, 0, 1, 1, 1, 1, 0, 100, 0, 0, 1, 144, 0, 0, 0, 0, 2, 188, 0, 0, 253, 68,
    0, 1, 0, 0, 0, 1, 0, 0, 0, 0, 0, 0, 95, 15, 60, 245, 0, 0, 3, 232, 0, 0, 0, 0,
    0, 0, 0, 0, 0, 0, 0, 0, 0, 0, 0, 0, 0, 0, 0, 0, 2, 88, 3, 32, 0, 0, 0, 8,
    0, 2, 0, 0, 0, 0, 0, 0, 0, 1, 0, 0, 3, 32, 255, 56, 0, 0, 2, 88, 0, 0, 0, 0,
    2, 88, 0, 1, 0, 0, 0, 0, 0, 0, 0, 0, 0, 0, 0, 0, 0, 0, 0, 21, 2, 88, 0, 0,
    2, 88, 0, 100, 2, 88, 0, 100, 2, 88, 0, 100, 2, 88, 0, 100, 2, 88, 0, 100, 2, 88, 0, 100,
    2, 88, 0, 100, 2, 88, 0, 100, 2, 88, 0, 100, 2, 88, 0, 100, 2, 88, 0, 100, 2, 88, 0, 100,
    2, 88, 0, 100, 2, 88, 0, 100, 2, 88, 0, 100, 2, 88, 0, 100, 2, 88, 0, 100, 2, 88, 0, 100,
    2, 88, 0, 100, 2, 88, 0, 100, 0, 0, 0, 0, 0, 17, 0, 34, 0, 51, 0, 68, 0, 85, 0, 102,
    0, 119, 0, 136, 0, 153, 0, 170, 0, 187, 0, 204, 0, 221, 0, 238, 0, 255, 1, 16, 1, 33, 1, 50,
    1, 67, 1, 84, 0, 1, 0, 0, 0, 21, 0, 0, 0, 0, 0, 0, 0, 0, 0, 0, 0, 0, 0, 0,
    0, 0, 0, 0, 0, 0, 0, 0, 0, 0, 0, 0,
];

fn font() -> FontVec {
    get_font(FONT.to_vec()).unwrap()
}

fn white() -> Color {
    Color::new(255, 255, 255)
}

fn ok_text(x: i32, y: i32) -> Text {
    Text::new(x, y, PxScale::from(20.0), String::from("OK"), font(), white(), 2, (24, 20)).unwrap()
}

#[test]
fn font_is_parsed_from_bytes() {
    assert!(get_font(FONT.to_vec()).is_some());
    assert!(get_font(vec![1, 2, 3]).is_none());
    assert!(get_font(vec![]).is_none());
}

#[test]
fn new_text_has_the_padded_extent() {
    let t = ok_text(5, 6);
    assert_eq!((t.x, t.y, t.w, t.h), (5, 6, 26, 22));
    assert_eq!(t.content(), "OK");
}

#[test]
fn new_text_rejects_a_bitmap_without_pixels() {
    let r = Text::new(0, 0, PxScale::from(20.0), String::from("OK"), font(), white(), 0, (0, 20));
    assert_eq!(r.err(), Some(LayoutError::BadSize));
    let r = Text::new(0, 0, PxScale::from(20.0), String::from("OK"), font(), white(), 0, (24, 0));
    assert_eq!(r.err(), Some(LayoutError::BadSize));
    let r = Text::new(0, 0, PxScale::from(20.0), String::from("OK"), font(), white(), 1, (0, 0));
    assert!(r.is_ok());
}

#[test]
fn new_text_rejects_a_bitmap_that_is_too_large() {
    let r = Text::new(0, 0, PxScale::from(20.0), String::from("OK"), font(), white(), 2, (u32::MAX, 20));
    assert_eq!(r.err(), Some(LayoutError::BadSize));
    let r = Text::new(0, 0, PxScale::from(20.0), String::from("OK"), font(), white(), 2, (i32::MAX as u32 - 1, 20));
    assert_eq!(r.err(), Some(LayoutError::BadSize));
}

#[test]
fn glyph_larger_than_the_atlas_is_an_error() {
    let r = Text::new(0, 0, PxScale::from(400.0), String::from("O"), font(), white(), 2, (240, 400));
    assert_eq!(r.err(), Some(LayoutError::GlyphTooLarge));
}

#[test]
fn glyph_with_its_margin_must_be_smaller_than_the_atlas() {
    // at 360 pixels a box is 144 by 252 pixels, 254 high with its margin
    let r = Text::new(0, 0, PxScale::from(360.0), String::from("O"), font(), white(), 2, (216, 360));
    assert!(r.is_ok());
    // at 364 pixels it is 255 high, 257 with its margin
    let r = Text::new(0, 0, PxScale::from(364.0), String::from("O"), font(), white(), 2, (219, 364));
    assert_eq!(r.err(), Some(LayoutError::GlyphTooLarge));
    // a glyph of any size is refused, and nothing fails
    let r = Text::new(0, 0, PxScale::from(1.0e12), String::from("O"), font(), white(), 2, (24, 20));
    assert_eq!(r.err(), Some(LayoutError::GlyphTooLarge));
}

#[test]
fn glyph_that_is_too_large_is_not_queued() {
    let mut cache = Packer::new(font());
    let mut texture = vec![7u8; 256 * 256];
    let large = PxScale::from(400.0);
    let r = Text::layout_string(0, 0, &white(), &String::from("KO"), &large, (480, 400), 2, &mut cache, &mut texture);
    assert_eq!(r.err(), Some(LayoutError::GlyphTooLarge));
    assert!(texture.iter().all(|b| *b == 7));
    // were the large glyphs queued, the packer would meet them again here
    let small = PxScale::from(20.0);
    let r = Text::layout_string(0, 0, &white(), &String::from("KO"), &small, (24, 20), 2, &mut cache, &mut texture);
    assert!(r.is_ok());
}

#[test]
fn sizes_fit_that_leave_the_margin_inside_the_atlas() {
    assert!(all_fit(&vec![]));
    assert!(all_fit(&vec![None, None]));
    assert!(all_fit(&vec![Some((253, 253)), None, Some((0, 0)), Some((8, 14))]));
    assert!(!all_fit(&vec![Some((254, 1))]));
    assert!(!all_fit(&vec![Some((1, 254))]));
    assert!(!all_fit(&vec![Some((8, 14)), None, Some((8, 254))]));
    assert!(!all_fit(&vec![Some((u32::MAX, u32::MAX))]));
    assert!(!all_fit(&vec![Some((u32::MAX - 1, 0))]));
}

#[test]
fn laid_out_text_has_its_glyphs_in_the_text_color() {
    // at 20 pixels the baseline is 16 pixels down and a box 8 by 14 pixels:
    // the first from (2, 2) to (10, 16), the second 12 pixels further right
    let mut cache = Packer::new(font());
    let mut texture = vec![0u8; 256 * 256];
    let color = Color::new(10, 200, 30);
    let (image, _, _, w, h) = Text::layout_string(
        0,
        0,
        &color,
        &String::from("OK"),
        &PxScale::from(20.0),
        (24, 20),
        2,
        &mut cache,
        &mut texture,
    )
    .unwrap();
    assert_eq!((w, h), (26, 22));
    let ink = Rgba([10, 200, 30, 255]);
    for (x, y) in [(3, 3), (5, 8), (8, 14), (15, 3), (17, 8), (20, 14)] {
        assert_eq!(image.get_pixel(x, y), ink, "at ({}, {})", x, y);
    }
    for (x, y) in [(0, 0), (5, 0), (0, 8), (11, 8), (12, 8), (23, 8), (5, 17), (25, 21)] {
        assert_eq!(image.get_pixel(x, y)[3], 0, "at ({}, {})", x, y);
    }
    let inked = (0..w)
        .flat_map(|x| (0..h).map(move |y| (x, y)))
        .filter(|(x, y)| image.get_pixel(*x, *y) == ink)
        .count();
    assert!(inked >= 2 * 6 * 12 && inked <= 2 * 8 * 14, "{} pixels", inked);
}

#[test]
fn text_is_drawn_onto_the_surface() {
    let mut fb = FB::new(40, 30, 80, 2).unwrap();
    let t = ok_text(4, 3);
    assert!(t.drawable_on(&fb));
    t.draw(&mut fb);
    let white16 = white().to_16b().to_le_bytes();
    let pixel = |fb: &FB, x: usize, y: usize| {
        let at = y * 80 + 2 * x;
        [fb.frame()[at], fb.frame()[at + 1]]
    };
    // inside the first box, which the text's position moved
    assert_eq!(pixel(&fb, 4 + 5, 3 + 8), white16);
    assert_eq!(pixel(&fb, 4 + 17, 3 + 8), white16);
    // between the boxes and outside the text
    assert_eq!(pixel(&fb, 4 + 12, 3 + 8), [0, 0]);
    assert_eq!(pixel(&fb, 0, 0), [0, 0]);
    assert_eq!(pixel(&fb, 39, 29), [0, 0]);
}

#[test]
fn glyphs_that_do_not_fit_the_atlas_together_are_an_error() {
    // at 100 pixels a box takes 42 by 72 pixels of the atlas with its margin:
    // 18 of them fit, 20 do not
    let content = String::from("ABCDEFGHIJKLMNOPQRST");
    let r = Text::new(0, 0, PxScale::from(100.0), content, font(), white(), 2, (1200, 100));
    assert_eq!(r.err(), Some(LayoutError::NoRoomForWholeQueue));
    let content = String::from("ABCDEFGHIJKLMNOPQR");
    let r = Text::new(0, 0, PxScale::from(100.0), content, font(), white(), 2, (1080, 100));
    assert!(r.is_ok());
}

#[test]
fn packer_errors_map_one_to_one() {
    assert_eq!(cache_error(CacheWriteErr::GlyphTooLarge), LayoutError::GlyphTooLarge);
    assert_eq!(cache_error(CacheWriteErr::NoRoomForWholeQueue), LayoutError::NoRoomForWholeQueue);
}

#[test]
fn update_with_the_same_text_does_nothing() {
    let mut t = ok_text(5, 6);
    // were the bitmap made again, it would take the new extent
    assert_eq!(t.update_text(String::from("OK"), (99, 77)), Ok(()));
    assert_eq!((t.x, t.y, t.w, t.h), (5, 6, 26, 22));
    assert_eq!(t.content(), "OK");
    // not even a bitmap that cannot be made is looked at
    assert_eq!(t.update_text(String::from("OK"), (u32::MAX, 0)), Ok(()));
    assert_eq!((t.w, t.h), (26, 22));
}

#[test]
fn update_with_a_new_text_takes_string_and_extent() {
    let mut t = ok_text(5, 6);
    assert_eq!(t.update_text(String::from("KOO"), (36, 21)), Ok(()));
    assert_eq!(t.content(), "KOO");
    assert_eq!((t.x, t.y, t.w, t.h), (5, 6, 38, 23));
}

#[test]
fn failed_update_keeps_the_text() {
    let mut t = ok_text(5, 6);
    assert_eq!(t.update_text(String::from("KO"), (u32::MAX, 20)), Err(LayoutError::BadSize));
    assert_eq!(t.content(), "OK");
    assert_eq!((t.x, t.y, t.w, t.h), (5, 6, 26, 22));
}

#[test]
fn layout_returns_bitmap_size_and_sample_start() {
    let mut cache = Packer::new(font());
    let mut texture = vec![0u8; 256 * 256];
    let (image, img_x, img_y, w, h) = Text::layout_string(
        -10,
        3,
        &white(),
        &String::from("OK"),
        &PxScale::from(20.0),
        (24, 20),
        2,
        &mut cache,
        &mut texture,
    )
    .unwrap();
    assert_eq!((img_x, img_y, w, h), (10, 0, 26, 22));
    assert_eq!(image.dimensions(), (26, 22));
    assert_eq!(texture.len(), 256 * 256);
}

#[test]
fn layout_keeps_the_sample_start_inside_the_bitmap() {
    let mut cache = Packer::new(font());
    let mut texture = vec![0u8; 256 * 256];
    let (_, img_x, img_y, _, _) = Text::layout_string(
        -100,
        -22,
        &white(),
        &String::from("OK"),
        &PxScale::from(20.0),
        (24, 20),
        2,
        &mut cache,
        &mut texture,
    )
    .unwrap();
    assert_eq!((img_x, img_y), (25, 21));
}

#[test]
fn layout_has_the_packer_fill_the_atlas() {
    let mut cache = Packer::new(font());
    let mut texture = vec![0u8; 256 * 256];
    Text::layout_string(
        0,
        0,
        &white(),
        &String::from("O"),
        &PxScale::from(20.0),
        (12, 20),
        2,
        &mut cache,
        &mut texture,
    )
    .unwrap();
    // the box is 8 by 14 pixels; inside it the coverage is full
    assert!(texture.iter().filter(|b| **b == 255).count() >= 6 * 12);
    assert_eq!(texture[255 + 255 * 256], 0);
}

#[test]
fn layout_with_a_bad_size_touches_nothing() {
    let mut cache = Packer::new(font());
    let mut texture = vec![7u8; 10];
    let r = Text::layout_string(
        0,
        0,
        &white(),
        &String::from("O"),
        &PxScale::from(20.0),
        (0, 0),
        0,
        &mut cache,
        &mut texture,
    );
    assert_eq!(r.err(), Some(LayoutError::BadSize));
    assert_eq!(texture, vec![7u8; 10]);
}

#[test]
fn layout_with_a_short_atlas_uploads_nothing() {
    let mut cache = Packer::new(font());
    let mut texture = vec![0u8; 10];
    let r = Text::layout_string(
        0,
        0,
        &white(),
        &String::from("O"),
        &PxScale::from(20.0),
        (12, 20),
        2,
        &mut cache,
        &mut texture,
    );
    assert!(r.is_ok());
    assert_eq!(texture, vec![0u8; 10]);
}

#[test]
fn text_slides_and_clips() {
    let fb = FB::new(240, 240, 480, 2).unwrap();
    let mut t = ok_text(5, 6);
    assert_eq!(t.clipped(&fb), Some((5, 6, 26, 22)));
    t.slide(-13, 230);
    assert_eq!((t.x, t.y, t.w, t.h), (-8, 236, 26, 22));
    assert_eq!(t.clipped(&fb), Some((0, 236, 18, 4)));
    t.slide(-100, 0);
    assert_eq!(t.clipped(&fb), None);
}

#[test]
fn text_made_on_the_surface_can_be_drawn_wherever_it_slides() {
    let mut fb = FB::new(240, 240, 480, 2).unwrap();
    let mut t = ok_text(5, 6);
    for _ in 0..40 {
        assert!(t.drawable_on(&fb));
        t.draw(&mut fb);
        t.slide(-1, -1);
    }
}

#[test]
fn text_made_off_the_surface_may_sample_past_its_bitmap() {
    let fb = FB::new(240, 240, 480, 2).unwrap();
    // made at x = -10: sampling starts at 10, and at 20 once the position is
    // taken into account again, where 15 columns are wanted of the 6 left
    let t = ok_text(-10, 0);
    assert_eq!(t.clipped(&fb), Some((0, 0, 16, 22)));
    assert!(!t.drawable_on(&fb));
}

#[test]
fn text_is_a_drawable() {
    let fb = FB::new(240, 240, 480, 2).unwrap();
    let mut d = Drawable::Text(ok_text(1, 2));
    assert_eq!(d.clipped(&fb), Some((1, 2, 26, 22)));
    assert_eq!(d.update_text(String::from("OK"), (1, 1)), Ok(()));
    assert_eq!(d.update_text(String::from("KO"), (24, 20)), Ok(()));
    match d {
        Drawable::Text(t) => assert_eq!(t.content(), "KO"),
        _ => unreachable!(),
    }
}

#[test]
fn parsed_font_is_kept_and_failure_dropped() {
    assert!(parsed_font(FontVec::try_from_vec(FONT.to_vec())).is_some());
    assert!(parsed_font(FontVec::try_from_vec(vec![0; 4])).is_none());
}

#[test]
fn text_moves_to_a_position() {
    let mut t = ok_text(5, 6);
    t.move_to(-3, 9);
    assert_eq!((t.x, t.y, t.width(), t.height()), (-3, 9, 26, 22));
}

fn describe(layers: &Vec<Layer<Drawable>>) -> Vec<(String, bool, String, i32, i32)> {
    layers
        .iter()
        .map(|l| match &*l.item {
            Drawable::Rect(Rect { x, y, filled, .. }) => {
                (String::from(if *filled { "fill" } else { "outline" }), l.active, l.group.clone(), *x, *y)
            }
            Drawable::Text(t) => (String::from("text"), l.active, l.group.clone(), t.x, t.y),
            _ => unreachable!(),
        })
        .collect()
}

fn row(kind: &str, active: bool, group: &str, x: i32, y: i32) -> (String, bool, String, i32, i32) {
    (String::from(kind), active, String::from(group), x, y)
}

#[test]
fn button_has_background_outline_and_centered_text_for_each_state() {
    let c = |n: u8| Color::new(n, n, n);
    let palette = Palette::new(c(1), c(2), c(3), c(4), c(5), c(6), c(7), c(8), c(9));
    let groups = StateGroups::new(&String::from("b"));
    let frame = Frame { x: 10, y: 20, w: 100, h: 40 };
    let layers = button_layers(&frame, &palette, &groups, ok_text(12, 25), ok_text(12, 25), ok_text(12, 25));
    // a text of 26 pixels in a frame of 100 starts 37 pixels in
    assert_eq!(
        describe(&layers),
        vec![
            row("fill", true, "b - regular", 10, 20),
            row("outline", true, "b - regular", 10, 20),
            row("text", true, "b - regular", 47, 25),
            row("fill", false, "b - clicked", 10, 20),
            row("outline", false, "b - clicked", 10, 20),
            row("text", false, "b - clicked", 47, 25),
            row("fill", false, "b - selected", 10, 20),
            row("outline", false, "b - selected", 10, 20),
            row("text", false, "b - selected", 47, 25),
        ]
    );
    let colors: Vec<u8> = layers
        .iter()
        .filter_map(|l| match &*l.item {
            Drawable::Rect(r) => Some(r.color.r),
            _ => None,
        })
        .collect();
    assert_eq!(colors, vec![3, 1, 9, 7, 6, 4]);
}

#[test]
fn button_leaves_a_wide_text_where_it_was_made() {
    let c = |n: u8| Color::new(n, n, n);
    let palette = Palette::new(c(1), c(2), c(3), c(4), c(5), c(6), c(7), c(8), c(9));
    let groups = StateGroups::new(&String::from("b"));
    // the text is 26 pixels wide, made 7 pixels into a button of 26 and of 20
    for w in [26, 20] {
        let frame = Frame { x: 10, y: 20, w, h: 40 };
        let layers = button_layers(&frame, &palette, &groups, ok_text(17, 25), ok_text(17, 25), ok_text(17, 25));
        let texts: Vec<(i32, i32)> = describe(&layers)
            .iter()
            .filter(|l| l.0 == "text")
            .map(|l| (l.3, l.4))
            .collect();
        assert_eq!(texts, vec![(17, 25), (17, 25), (17, 25)]);
    }
    // one pixel more of button, and it is centered
    let frame = Frame { x: 10, y: 20, w: 27, h: 40 };
    let layers = button_layers(&frame, &palette, &groups, ok_text(17, 25), ok_text(17, 25), ok_text(17, 25));
    assert_eq!(describe(&layers)[2], row("text", true, "b - regular", 10, 25));
}

#[test]
fn text_block_has_a_text_for_each_state() {
    let groups = StateGroups::new(&String::from("t"));
    let frame = Frame { x: 3, y: 4, w: 20, h: 40 };
    // wider than the frame: the text stays where it was made
    let layers = text_block_layers(&frame, &groups, ok_text(3, 4), ok_text(3, 4), ok_text(3, 4));
    assert_eq!(
        describe(&layers),
        vec![
            row("text", false, "t - regular", 3, 4),
            row("text", false, "t - clicked", 3, 4),
            row("text", false, "t - selected", 3, 4),
        ]
    );
    // narrower than the frame: centered
    let frame = Frame { x: 3, y: 4, w: 36, h: 40 };
    let layers = text_block_layers(&frame, &groups, ok_text(3, 4), ok_text(3, 4), ok_text(3, 4));
    assert_eq!(describe(&layers)[0], row("text", false, "t - regular", 8, 4));
}

#[test]
fn string_without_glyphs_is_an_error() {
    let r = Text::new(0, 0, PxScale::from(20.0), String::new(), font(), white(), 2, (24, 20));
    assert_eq!(r.err(), Some(LayoutError::NoGlyphs));
    // a size that is out of order is found first
    let r = Text::new(0, 0, PxScale::from(20.0), String::new(), font(), white(), 0, (0, 0));
    assert_eq!(r.err(), Some(LayoutError::BadSize));
    let mut cache = Packer::new(font());
    let mut texture = vec![7u8; 256 * 256];
    let r = Text::layout_string(
        0,
        0,
        &white(),
        &String::new(),
        &PxScale::from(20.0),
        (24, 20),
        2,
        &mut cache,
        &mut texture,
    );
    assert_eq!(r.err(), Some(LayoutError::NoGlyphs));
    assert!(texture.iter().all(|b| *b == 7));
}

#[test]
fn update_of_a_text_lays_out_the_string_it_holds() {
    // the held string is laid out, not the new one: an empty new string is
    // taken, and only the update after it finds no glyph
    let mut t = ok_text(0, 0);
    assert_eq!(t.update_text(String::new(), (24, 20)), Ok(()));
    assert_eq!(t.content(), "");
    assert_eq!(t.update_text(String::from("KO"), (24, 20)), Err(LayoutError::NoGlyphs));
    assert_eq!(t.content(), "");
}

#[test]
fn failed_run_leaves_the_glyphs_queued() {
    // 20 glyphs do not fit; queued again with 18 more, they still do not
    let mut cache = Packer::new(font());
    let mut texture = vec![0u8; 256 * 256];
    let many = String::from("ABCDEFGHIJKLMNOPQRST");
    let scale = PxScale::from(100.0);
    let r = Text::layout_string(0, 0, &white(), &many, &scale, (1200, 100), 2, &mut cache, &mut texture);
    assert_eq!(r.err(), Some(LayoutError::NoRoomForWholeQueue));
    let few = String::from("AB");
    let r = Text::layout_string(0, 0, &white(), &few, &scale, (120, 100), 2, &mut cache, &mut texture);
    assert_eq!(r.err(), Some(LayoutError::NoRoomForWholeQueue));
    // a packer of its own takes the two
    let mut fresh = Packer::new(font());
    let r = Text::layout_string(0, 0, &white(), &few, &scale, (120, 100), 2, &mut fresh, &mut texture);
    assert!(r.is_ok());
}

fn at(n: u32) -> GlyphPlacement {
    GlyphPlacement { tex: AtlasRect { min_x: n, min_y: n, max_x: n + 1, max_y: n + 1 }, px_x: n, px_y: n }
}

#[test]
fn placements_of_glyphs_without_outline_are_skipped() {
    let found = vec![Some(at(1)), Some(at(2)), None, Some(at(4)), Some(at(5))];
    assert_eq!(kept_placements(&vec![true, false, true, true, true], &found), vec![at(1), at(4), at(5)]);
    assert_eq!(kept_placements(&vec![false; 5], &found), vec![]);
    // an answer that no glyph stands for is not taken
    assert_eq!(kept_placements(&vec![true, true], &found), vec![at(1), at(2)]);
    assert_eq!(kept_placements(&vec![true; 9], &vec![None, Some(at(3))]), vec![at(3)]);
    assert_eq!(kept_placements(&vec![], &vec![]), vec![]);
}

#[test]
fn text_fits_where_it_can_be_centered() {
    let t = ok_text(0, 0);
    assert!(text_fits(&t, &Frame { x: 0, y: 0, w: 100, h: 10 }));
    assert!(text_fits(&t, &Frame { x: i32::MAX, y: 0, w: 10, h: 10 }));
    assert!(!text_fits(&t, &Frame { x: i32::MAX, y: 0, w: 100, h: 10 }));
}

#[test]
fn glyph_that_does_not_fit_the_bitmap_is_left_out() {
    // the bitmap is 14 pixels wide: the first box ends at 10, the second
    // would begin at 14
    let mut cache = Packer::new(font());
    let mut texture = vec![0u8; 256 * 256];
    let (image, _, _, w, h) = Text::layout_string(
        0,
        0,
        &white(),
        &String::from("OK"),
        &PxScale::from(20.0),
        (12, 20),
        2,
        &mut cache,
        &mut texture,
    )
    .unwrap();
    assert_eq!((w, h), (14, 22));
    assert_eq!(image.get_pixel(5, 8), Rgba([255, 255, 255, 255]));
    for y in 0..h {
        for x in 11..w {
            assert_eq!(image.get_pixel(x, y)[3], 0, "at ({}, {})", x, y);
        }
    }
}
