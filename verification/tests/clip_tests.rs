use lovett::clip::{adjust_img_loc, clipper};

#[test]
fn clip_left_overhang_scenario() {
    assert_eq!(clipper(-10, 5, 20, 10, 240, 240), Some((0, 5, 10, 10)));
}

#[test]
fn clip_passes_what_is_on_the_surface() {
    assert_eq!(clipper(0, 0, 5, 5, 240, 240), Some((0, 0, 5, 5)));
    assert_eq!(clipper(10, 20, 30, 40, 240, 240), Some((10, 20, 30, 40)));
}

#[test]
fn clip_shrinks_at_the_far_edges() {
    assert_eq!(clipper(230, 235, 20, 20, 240, 240), Some((230, 235, 10, 5)));
    assert_eq!(clipper(-5, -5, 300, 300, 240, 240), Some((0, 0, 240, 240)));
}

#[test]
fn clip_top_overhang() {
    assert_eq!(clipper(3, -4, 10, 10, 240, 240), Some((3, 0, 10, 6)));
}

#[test]
fn clip_rejects_what_is_outside() {
    assert_eq!(clipper(240, 0, 10, 10, 240, 240), None);
    assert_eq!(clipper(0, 240, 10, 10, 240, 240), None);
    assert_eq!(clipper(-10, 0, 10, 10, 240, 240), None);
    assert_eq!(clipper(0, -10, 10, 10, 240, 240), None);
    assert_eq!(clipper(1000, 1000, 10, 10, 240, 240), None);
}

#[test]
fn clip_rejects_empty_rectangles() {
    assert_eq!(clipper(5, 5, 0, 10, 240, 240), None);
    assert_eq!(clipper(5, 5, 10, 0, 240, 240), None);
    assert_eq!(clipper(5, 5, -3, 10, 240, 240), None);
}

#[test]
fn clip_keeps_a_single_pixel() {
    assert_eq!(clipper(239, 239, 5, 5, 240, 240), Some((239, 239, 1, 1)));
    assert_eq!(clipper(-9, -9, 10, 10, 240, 240), Some((0, 0, 1, 1)));
}

#[test]
fn clip_is_idempotent() {
    for (x, y, w, h) in [(-10, 5, 20, 10), (230, 235, 20, 20), (0, 0, 240, 240), (7, 8, 9, 10)] {
        let (cx, cy, cw, ch) = clipper(x, y, w, h, 240, 240).unwrap();
        assert_eq!(
            clipper(cx as i32, cy as i32, cw as i32, ch as i32, 240, 240),
            Some((cx, cy, cw, ch))
        );
    }
}

#[test]
fn clip_survives_extreme_values() {
    assert_eq!(clipper(i32::MIN, i32::MIN, i32::MAX, i32::MAX, 240, 240), None);
    assert_eq!(clipper(i32::MAX, 0, i32::MAX, 10, u32::MAX, 240), Some((i32::MAX as u32, 0, i32::MAX as u32, 10)));
    assert_eq!(clipper(-1, -1, i32::MAX, i32::MAX, 240, 240), Some((0, 0, 240, 240)));
}

#[test]
fn sample_offset_skips_the_overhang() {
    assert_eq!(adjust_img_loc(-10, 0, 100), 10);
    assert_eq!(adjust_img_loc(-10, 5, 100), 15);
    assert_eq!(adjust_img_loc(10, 0, 100), 0);
    assert_eq!(adjust_img_loc(0, 7, 100), 7);
}

#[test]
fn sample_offset_stays_inside_the_image() {
    assert_eq!(adjust_img_loc(-100, 0, 100), 99);
    assert_eq!(adjust_img_loc(-500, 0, 100), 99);
    assert_eq!(adjust_img_loc(5, 100, 100), 99);
    assert_eq!(adjust_img_loc(i32::MIN, u32::MAX, 1), 0);
}
