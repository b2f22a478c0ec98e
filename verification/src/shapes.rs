//! What can be put on a canvas: the capability set [`Draw`], and the
//! rectangle and image drawables. Text is in [`crate::text`].

use vstd::prelude::*;
use image::DynamicImage;
use crate::clip::{clip, clipper, Bounds};
use crate::color::Color;
use crate::fb::{
    blit, filled_rect, grid_w, h_line, image_has_samples, lemma_grid_size,
    lemma_same_surface_trans, rect_outline, samples_in_image, v_line, Grid, FB,
};
use crate::picture::image_rows;
use crate::text::{LayoutError, Text};

verus! {

/// The visible part of an object rectangle on a surface of `sw` by `sh`
/// pixels, as the drawables hand it out.
pub open spec fn clipped_bounds(b: Bounds, sw: int, sh: int) -> Option<(u32, u32, u32, u32)> {
    match clip(b.0, b.1, b.2, b.3, sw, sh) {
        Some((x, y, w, h)) => Some((x as u32, y as u32, w as u32, h as u32)),
        None => None,
    }
}

/// What every drawable can do: draw itself on a surface, move, and say what
/// of it is visible.
pub trait Draw: Sized {
    /// The object rectangle: position (possibly off the surface) and size.
    spec fn bounds(&self) -> Bounds;

    /// Whether the drawable can be drawn on a surface of `sw` by `sh` pixels:
    /// whether all that it samples for its visible part is there.
    spec fn can_draw(&self, sw: int, sh: int) -> bool;

    /// The surface's pixels after the drawable was drawn on `g`.
    spec fn drawn(&self, g: Grid) -> Grid;

    /// This drawable at another position, with nothing else changed.
    spec fn moved_to(&self, x: int, y: int) -> Self;

    /// The text that the drawable shows, if it shows text.
    spec fn text(&self) -> Option<Seq<char>>;

    /// Draws what is visible of the drawable, and nothing where nothing is.
    fn draw(&self, fb: &mut FB)
        requires
            old(fb)@.wf(),
            self.can_draw(old(fb)@.w, old(fb)@.h),
        ensures
            final(fb)@.wf(),
            final(fb)@.same_surface(old(fb)@),
            final(fb)@.grid() == self.drawn(old(fb)@.grid()),
    ;

    /// Whether `draw` may be called for a surface.
    fn drawable_on(&self, fb: &FB) -> (r: bool)
        requires
            fb@.wf(),
        ensures
            r == self.can_draw(fb@.w, fb@.h),
    ;

    /// The position of the drawable.
    fn origin(&self) -> (r: (i32, i32))
        ensures
            r.0 == self.bounds().0,
            r.1 == self.bounds().1,
    ;

    /// Moves the drawable by `(x, y)`. Nothing is drawn again.
    fn slide(&mut self, x: i32, y: i32)
        requires
            i32::MIN <= old(self).bounds().0 + x <= i32::MAX,
            i32::MIN <= old(self).bounds().1 + y <= i32::MAX,
        ensures
            *final(self) == old(self).moved_to(old(self).bounds().0 + x, old(self).bounds().1 + y),
            final(self).bounds() == (
                old(self).bounds().0 + x,
                old(self).bounds().1 + y,
                old(self).bounds().2,
                old(self).bounds().3,
            ),
    ;

    /// The visible part of the drawable on a surface, if there is one.
    fn clipped(&self, fb: &FB) -> (r: Option<(u32, u32, u32, u32)>)
        ensures
            r == clipped_bounds(self.bounds(), fb@.w, fb@.h),
    ;

    /// Replaces the text that the drawable shows; `extent` is the measured
    /// extent (width, height) of the text that it shows now. A drawable
    /// without text, or one that shows `text` already, stays as it is.
    fn update_text(&mut self, text: String, extent: (u32, u32)) -> (r: Result<(), LayoutError>)
        ensures
            old(self).text() is None || old(self).text() == Some(text@) ==> r is Ok && *final(self)
                == *old(self),
            r is Ok && old(self).text() is Some ==> final(self).text() == Some(text@),
            r is Err ==> final(self).text() == old(self).text(),
            final(self).bounds().0 == old(self).bounds().0,
            final(self).bounds().1 == old(self).bounds().1,
    ;
}

/// A rectangle of one color, filled or as an outline.
#[derive(Clone, Copy, Debug)]
pub struct Rect {
    pub x: i32,
    pub y: i32,
    pub w: i32,
    pub h: i32,
    pub filled: bool,
    pub color: Color,
}

/// `g` after the outline of a rectangle that is partly off the surface: each
/// edge of the visible part `(cx, cy, cw, ch)` is drawn only if the side of
/// the object `(x, y, w, h)` that it comes from passes its own test; left,
/// top, right, bottom, in this order.
pub open spec fn partial_outline(
    g: Grid,
    x: int,
    y: int,
    w: int,
    h: int,
    cx: int,
    cy: int,
    cw: int,
    ch: int,
    c: Color,
) -> Grid {
    let sw = grid_w(g);
    let sh = g.len() as int;
    let left = if 0 <= x < sw {
        v_line(g, cx, cy, ch, c)
    } else {
        g
    };
    let top = if 0 <= y < sh {
        h_line(left, cx, cy, cw, c)
    } else {
        left
    };
    let right = if x + w < sw && x + h >= 0 {
        v_line(top, cx + cw - 1, cy, ch, c)
    } else {
        top
    };
    if y + h < sh && y + h >= 0 {
        h_line(right, cx, cy + ch - 1, cw, c)
    } else {
        right
    }
}

/// `g` after the rectangle `r` was drawn on it.
pub open spec fn rect_drawn(r: Rect, g: Grid) -> Grid {
    match clip(r.x as int, r.y as int, r.w as int, r.h as int, grid_w(g), g.len() as int) {
        Some((cx, cy, cw, ch)) => {
            if r.filled {
                filled_rect(g, cx, cy, cw, ch as nat, r.color)
            } else if r.x == cx && r.y == cy && r.w == cw && r.h == ch {
                rect_outline(g, cx, cy, cw, ch, r.color)
            } else {
                partial_outline(
                    g,
                    r.x as int,
                    r.y as int,
                    r.w as int,
                    r.h as int,
                    cx,
                    cy,
                    cw,
                    ch,
                    r.color,
                )
            }
        },
        None => g,
    }
}

impl Rect {
    /// A rectangle at `(x, y)` of `w` by `h` pixels.
    pub fn new(x: i32, y: i32, w: i32, h: i32, filled: bool, color: Color) -> (r: Rect)
        ensures
            r == (Rect { x, y, w, h, filled, color }),
    {
        Rect { x, y, w, h, filled, color }
    }
}

impl Draw for Rect {
    open spec fn bounds(&self) -> Bounds {
        (self.x as int, self.y as int, self.w as int, self.h as int)
    }

    open spec fn can_draw(&self, sw: int, sh: int) -> bool {
        true
    }

    open spec fn drawn(&self, g: Grid) -> Grid {
        rect_drawn(*self, g)
    }

    open spec fn moved_to(&self, x: int, y: int) -> Rect {
        Rect { x: x as i32, y: y as i32, ..*self }
    }

    open spec fn text(&self) -> Option<Seq<char>> {
        None
    }

    fn draw(&self, fb: &mut FB) {
        let ghost s0 = fb@;
        proof {
            lemma_grid_size(s0);
        }
        let sw: i64 = fb.width() as i64;
        let sh: i64 = fb.height() as i64;
        match self.clipped(fb) {
            Some((x, y, w, h)) => {
                if self.filled {
                    fb.draw_filled_rect(x, y, w, h, &self.color);
                } else {
                    if self.x as i64 == x as i64 && self.y as i64 == y as i64 && self.w as i64
                        == w as i64 && self.h as i64 == h as i64 {
                        fb.draw_rect(x, y, w, h, &self.color);
                        return ;
                    }
                    if self.x >= 0 && (self.x as i64) < sw {
                        fb.draw_v_line(x, y, h, &self.color);
                    }
                    let ghost s1 = fb@;
                    proof {
                        lemma_grid_size(s1);
                    }
                    if self.y >= 0 && (self.y as i64) < sh {
                        fb.draw_h_line(x, y, w, &self.color);
                    }
                    let ghost s2 = fb@;
                    proof {
                        lemma_grid_size(s2);
                        lemma_same_surface_trans(s2, s1, s0);
                    }
                    if self.x as i64 + (self.w as i64) < sw && self.x as i64 + self.h as i64 >= 0 {
                        fb.draw_v_line(x + w - 1, y, h, &self.color);
                    }
                    let ghost s3 = fb@;
                    proof {
                        lemma_grid_size(s3);
                        lemma_same_surface_trans(s3, s2, s0);
                    }
                    if self.y as i64 + (self.h as i64) < sh && self.y as i64 + self.h as i64 >= 0 {
                        fb.draw_h_line(x, y + h - 1, w, &self.color);
                    }
                    proof {
                        lemma_same_surface_trans(fb@, s3, s0);
                    }
                }
            },
            None => (),
        }
    }

    fn drawable_on(&self, fb: &FB) -> (r: bool) {
        true
    }

    fn origin(&self) -> (r: (i32, i32)) {
        (self.x, self.y)
    }

    fn slide(&mut self, x: i32, y: i32) {
        self.x = self.x + x;
        self.y = self.y + y;
    }

    fn clipped(&self, fb: &FB) -> (r: Option<(u32, u32, u32, u32)>) {
        clipper(self.x, self.y, self.w, self.h, fb.width(), fb.height())
    }

    fn update_text(&mut self, text: String, extent: (u32, u32)) -> (r: Result<(), LayoutError>) {
        Ok(())
    }
}

/// A decoded image, shown one to one from a fixed sample offset.
pub struct Image {
    img: DynamicImage,
    x: i32,
    y: i32,
    w: i32,
    h: i32,
    img_x: u32,
    img_y: u32,
}

/// The mathematical model of an image drawable.
pub struct ImageView {
    /// The pixels of the image.
    pub rows: Seq<Seq<Color>>,
    /// The object rectangle.
    pub bounds: Bounds,
    /// Where in the image sampling starts.
    pub sample: (int, int),
}

/// Whether an image has all the pixels that are sampled for the visible part
/// of an object at `b`, sampling from `sample` on, on a surface of `sw` by
/// `sh` pixels.
pub open spec fn visible_samples_in_image(
    rows: Seq<Seq<Color>>,
    b: Bounds,
    sample: (int, int),
    sw: int,
    sh: int,
) -> bool {
    match clip(b.0, b.1, b.2, b.3, sw, sh) {
        Some((cx, cy, cw, ch)) => samples_in_image(rows, sample.0, sample.1, cw - 1, ch - 1),
        None => true,
    }
}

/// `g` after the visible part of an object at `b` was drawn from an image,
/// sampling from `sample` on.
pub open spec fn image_drawn(rows: Seq<Seq<Color>>, b: Bounds, sample: (int, int), g: Grid) -> Grid {
    match clip(b.0, b.1, b.2, b.3, grid_w(g), g.len() as int) {
        Some((cx, cy, cw, ch)) => blit(g, rows, cx, cy, cw, ch, sample.0, sample.1),
        None => g,
    }
}

impl View for Image {
    type V = ImageView;

    closed spec fn view(&self) -> ImageView {
        ImageView {
            rows: image_rows(self.img),
            bounds: (self.x as int, self.y as int, self.w as int, self.h as int),
            sample: (self.img_x as int, self.img_y as int),
        }
    }
}

impl Image {
    /// An image drawable at `(x, y)` of `w` by `h` pixels that shows `img`
    /// from `(img_x, img_y)` on.
    pub fn new(img: DynamicImage, x: i32, y: i32, w: i32, h: i32, img_x: u32, img_y: u32) -> (r:
        Image)
        ensures
            r@ == (ImageView {
                rows: image_rows(img),
                bounds: (x as int, y as int, w as int, h as int),
                sample: (img_x as int, img_y as int),
            }),
    {
        Image { img, x, y, w, h, img_x, img_y }
    }
}

/// An image that has a pixel for each pixel of the object rectangle, from
/// the sample offset on, can be drawn wherever it is moved to, on any
/// surface.
pub proof fn lemma_image_with_all_samples_can_draw(v: ImageView, sw: int, sh: int)
    requires
        0 <= v.sample.0,
        0 <= v.sample.1,
        samples_in_image(v.rows, v.sample.0, v.sample.1, v.bounds.2, v.bounds.3),
    ensures
        visible_samples_in_image(v.rows, v.bounds, v.sample, sw, sh),
{
}

/// A moved image shows the same pixels from the same sample offset.
pub proof fn lemma_image_moved(img: Image, x: int, y: int)
    requires
        i32::MIN <= x <= i32::MAX,
        i32::MIN <= y <= i32::MAX,
    ensures
        img.moved_to(x, y)@ == (ImageView {
            bounds: (x, y, img@.bounds.2, img@.bounds.3),
            ..img@
        }),
{
}

impl Draw for Image {
    open spec fn bounds(&self) -> Bounds {
        self@.bounds
    }

    open spec fn can_draw(&self, sw: int, sh: int) -> bool {
        visible_samples_in_image(self@.rows, self@.bounds, self@.sample, sw, sh)
    }

    open spec fn drawn(&self, g: Grid) -> Grid {
        image_drawn(self@.rows, self@.bounds, self@.sample, g)
    }

    closed spec fn moved_to(&self, x: int, y: int) -> Image {
        Image { x: x as i32, y: y as i32, ..*self }
    }

    open spec fn text(&self) -> Option<Seq<char>> {
        None
    }

    fn draw(&self, fb: &mut FB) {
        proof {
            lemma_grid_size(fb@);
        }
        match self.clipped(fb) {
            Some((x, y, w, h)) => { fb.render_image(&self.img, x, y, w, h, self.img_x, self.img_y) },
            None => (),
        }
    }

    fn drawable_on(&self, fb: &FB) -> (r: bool) {
        match self.clipped(fb) {
            Some((x, y, w, h)) => image_has_samples(
                &self.img,
                self.img_x,
                self.img_y,
                w - 1,
                h - 1,
            ),
            None => true,
        }
    }

    fn origin(&self) -> (r: (i32, i32)) {
        (self.x, self.y)
    }

    fn slide(&mut self, x: i32, y: i32) {
        self.x = self.x + x;
        self.y = self.y + y;
    }

    fn clipped(&self, fb: &FB) -> (r: Option<(u32, u32, u32, u32)>) {
        clipper(self.x, self.y, self.w, self.h, fb.width(), fb.height())
    }

    fn update_text(&mut self, text: String, extent: (u32, u32)) -> (r: Result<(), LayoutError>) {
        Ok(())
    }
}

/// One of the three kinds of drawable.
pub enum Drawable {
    Rect(Rect),
    Image(Image),
    Text(Text),
}

impl Draw for Drawable {
    open spec fn bounds(&self) -> Bounds {
        match self {
            Drawable::Rect(d) => d.bounds(),
            Drawable::Image(d) => d.bounds(),
            Drawable::Text(d) => d.bounds(),
        }
    }

    open spec fn can_draw(&self, sw: int, sh: int) -> bool {
        match self {
            Drawable::Rect(d) => d.can_draw(sw, sh),
            Drawable::Image(d) => d.can_draw(sw, sh),
            Drawable::Text(d) => d.can_draw(sw, sh),
        }
    }

    open spec fn drawn(&self, g: Grid) -> Grid {
        match self {
            Drawable::Rect(d) => d.drawn(g),
            Drawable::Image(d) => d.drawn(g),
            Drawable::Text(d) => d.drawn(g),
        }
    }

    open spec fn moved_to(&self, x: int, y: int) -> Drawable {
        match self {
            Drawable::Rect(d) => Drawable::Rect(d.moved_to(x, y)),
            Drawable::Image(d) => Drawable::Image(d.moved_to(x, y)),
            Drawable::Text(d) => Drawable::Text(d.moved_to(x, y)),
        }
    }

    open spec fn text(&self) -> Option<Seq<char>> {
        match self {
            Drawable::Rect(d) => d.text(),
            Drawable::Image(d) => d.text(),
            Drawable::Text(d) => d.text(),
        }
    }

    fn draw(&self, fb: &mut FB) {
        match self {
            Drawable::Rect(d) => d.draw(fb),
            Drawable::Image(d) => d.draw(fb),
            Drawable::Text(d) => d.draw(fb),
        }
    }

    fn drawable_on(&self, fb: &FB) -> (r: bool) {
        match self {
            Drawable::Rect(d) => d.drawable_on(fb),
            Drawable::Image(d) => d.drawable_on(fb),
            Drawable::Text(d) => d.drawable_on(fb),
        }
    }

    fn origin(&self) -> (r: (i32, i32)) {
        match self {
            Drawable::Rect(d) => d.origin(),
            Drawable::Image(d) => d.origin(),
            Drawable::Text(d) => d.origin(),
        }
    }

    fn slide(&mut self, x: i32, y: i32) {
        match self {
            Drawable::Rect(d) => d.slide(x, y),
            Drawable::Image(d) => d.slide(x, y),
            Drawable::Text(d) => d.slide(x, y),
        }
    }

    fn clipped(&self, fb: &FB) -> (r: Option<(u32, u32, u32, u32)>) {
        match self {
            Drawable::Rect(d) => d.clipped(fb),
            Drawable::Image(d) => d.clipped(fb),
            Drawable::Text(d) => d.clipped(fb),
        }
    }

    fn update_text(&mut self, text: String, extent: (u32, u32)) -> (r: Result<(), LayoutError>) {
        match self {
            Drawable::Rect(d) => d.update_text(text, extent),
            Drawable::Image(d) => d.update_text(text, extent),
            Drawable::Text(d) => d.update_text(text, extent),
        }
    }
}

} // verus!
