use image::{DynamicImage, GenericImage, Rgba};
use lovett::color::Color;
use lovett::fb::FB;
use lovett::shapes::{Draw, Drawable, Image, Rect};

fn surface() -> FB {
    FB::new(240, 240, 480, 2).unwrap()
}

fn pixel(fb: &FB, x: u32, y: u32) -> u16 {
    let at = fb.find_point(x, y);
    let frame = fb.frame();
    frame[at] as u16 | ((frame[at + 1] as u16) << 8)
}

fn count_set(fb: &FB) -> usize {
    let mut n = 0;
    for y in 0..fb.height() {
        for x in 0..fb.width() {
            if pixel(fb, x, y) != 0 {
                n += 1;
            }
        }
    }
    n
}

fn white() -> Color {
    Color::new(255, 255, 255)
}

#[test]
fn rect_clipped_scenario() {
    let fb = surface();
    let r = Rect::new(-10, 5, 20, 10, true, white());
    assert_eq!(r.clipped(&fb), Some((0, 5, 10, 10)));
}

#[test]
fn rect_off_surface_is_not_drawn() {
    let mut fb = surface();
    let r = Rect::new(240, 0, 10, 10, true, white());
    assert_eq!(r.clipped(&fb), None);
    r.draw(&mut fb);
    assert_eq!(count_set(&fb), 0);
}

#[test]
fn filled_rect_draws_its_visible_part() {
    let mut fb = surface();
    Rect::new(-2, -3, 5, 5, true, white()).draw(&mut fb);
    assert_eq!(count_set(&fb), 3 * 2);
    assert_eq!(pixel(&fb, 2, 1), 0xffff);
    assert_eq!(pixel(&fb, 3, 0), 0);
}

#[test]
fn red_block_on_black_scenario() {
    let mut fb = surface();
    fb.clear();
    Rect::new(0, 0, 5, 5, true, Color::new_rgba(255, 0, 0, 255)).draw(&mut fb);
    for y in 0..5 {
        for x in 0..5 {
            let c = Color::from_16b(pixel(&fb, x, y));
            assert!(c.r > 0);
            assert_eq!((c.g, c.b), (0, 0));
        }
    }
    assert_eq!(pixel(&fb, 5, 0), 0);
    assert_eq!(pixel(&fb, 0, 5), 0);
}

#[test]
fn outline_fully_on_surface_has_four_edges() {
    let mut fb = surface();
    Rect::new(1, 1, 5, 4, false, white()).draw(&mut fb);
    assert_eq!(count_set(&fb), 2 * 5 + 2 * 2);
}

#[test]
fn outline_cut_on_the_left_has_no_left_edge() {
    let mut fb = surface();
    Rect::new(-2, 1, 6, 4, false, white()).draw(&mut fb);
    // visible part (0, 1, 4, 4): top and bottom of four pixels, right edge of four
    assert_eq!(pixel(&fb, 0, 1), 0xffff);
    assert_eq!(pixel(&fb, 0, 2), 0);
    assert_eq!(pixel(&fb, 3, 2), 0xffff);
    assert_eq!(pixel(&fb, 0, 4), 0xffff);
    assert_eq!(count_set(&fb), 4 + 4 + 2);
}

#[test]
fn outline_cut_at_the_bottom_has_no_bottom_edge() {
    let mut fb = surface();
    Rect::new(10, 238, 4, 10, false, white()).draw(&mut fb);
    // visible part (10, 238, 4, 2): top edge, left and right edges of two pixels
    assert_eq!(count_set(&fb), 4 + 1 + 1);
    assert_eq!(pixel(&fb, 11, 239), 0);
}

#[test]
fn outline_right_edge_is_tested_with_the_height() {
    let mut fb = surface();
    // the right side is on the surface, but x + h < 0: no right edge
    Rect::new(-20, 0, 30, 5, false, white()).draw(&mut fb);
    assert_eq!(pixel(&fb, 9, 2), 0);
    assert_eq!(pixel(&fb, 9, 0), 0xffff);
    assert_eq!(pixel(&fb, 9, 4), 0xffff);
    assert_eq!(count_set(&fb), 10 + 10);
}

#[test]
fn slide_moves_without_drawing() {
    let fb = surface();
    let mut r = Rect::new(1, 2, 3, 4, true, white());
    r.slide(10, -5);
    assert_eq!((r.x, r.y, r.w, r.h), (11, -3, 3, 4));
    assert_eq!(r.clipped(&fb), Some((11, 0, 3, 1)));
    assert_eq!(count_set(&fb), 0);
}

#[test]
fn rect_has_no_text_to_update() {
    let mut r = Rect::new(1, 2, 3, 4, true, white());
    assert_eq!(r.update_text(String::from("x"), (10, 10)), Ok(()));
    assert_eq!((r.x, r.y, r.w, r.h, r.filled, r.color), (1, 2, 3, 4, true, white()));
}

fn ramp(w: u32, h: u32) -> DynamicImage {
    let mut img = DynamicImage::new_rgba8(w, h);
    for y in 0..h {
        for x in 0..w {
            img.put_pixel(x, y, Rgba([(x * 8) as u8 + 100, (y * 4) as u8 + 100, 0, 255]));
        }
    }
    img
}

#[test]
fn image_draws_from_its_sample_offset() {
    let mut fb = surface();
    let img = Image::new(ramp(8, 8), 5, 6, 4, 4, 2, 1);
    assert!(img.drawable_on(&fb));
    img.draw(&mut fb);
    assert_eq!(count_set(&fb), 9);
    assert_eq!(pixel(&fb, 5, 6), Color::new(116, 104, 0).to_16b());
    assert_eq!(pixel(&fb, 7, 8), Color::new(132, 112, 0).to_16b());
    assert_eq!(pixel(&fb, 8, 6), 0);
}

#[test]
fn image_cut_on_the_left_keeps_its_sample_offset() {
    let mut fb = surface();
    let img = Image::new(ramp(8, 8), -2, 0, 6, 3, 0, 0);
    assert_eq!(img.clipped(&fb), Some((0, 0, 4, 3)));
    img.draw(&mut fb);
    assert_eq!(pixel(&fb, 0, 0), Color::new(100, 100, 0).to_16b());
    assert_eq!(count_set(&fb), 3 * 2);
}

#[test]
fn image_that_is_too_small_cannot_be_drawn() {
    let fb = surface();
    let img = Image::new(ramp(3, 3), 0, 0, 10, 10, 0, 0);
    assert!(!img.drawable_on(&fb));
    let far = Image::new(ramp(3, 3), 500, 0, 10, 10, 0, 0);
    assert!(far.drawable_on(&fb));
    let edge = Image::new(ramp(3, 3), 237, 237, 10, 10, 0, 0);
    assert!(edge.drawable_on(&fb));
}

#[test]
fn image_slides() {
    let fb = surface();
    let mut img = Image::new(ramp(8, 8), 0, 0, 4, 4, 0, 0);
    img.slide(-1, 238);
    assert_eq!(img.clipped(&fb), Some((0, 238, 3, 2)));
}

#[test]
fn drawable_dispatches_to_its_kind() {
    let mut fb = surface();
    let mut d = Drawable::Rect(Rect::new(0, 0, 2, 2, true, white()));
    d.slide(1, 1);
    assert_eq!(d.clipped(&fb), Some((1, 1, 2, 2)));
    assert!(d.drawable_on(&fb));
    d.draw(&mut fb);
    assert_eq!(count_set(&fb), 4);
    assert_eq!(d.update_text(String::from("x"), (1, 1)), Ok(()));
    let i = Drawable::Image(Image::new(ramp(8, 8), 10, 10, 3, 3, 0, 0));
    i.draw(&mut fb);
    assert_eq!(count_set(&fb), 8);
}
