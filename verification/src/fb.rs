//! The pixel surface: a frame of RGB565 pixels in device layout, and the
//! primitives that blend lines, rectangles and images into it.
//!
//! A pixel is two bytes, low byte first, at `y * stride + x * bytes_per_pixel`.
//! Rows may be padded, and a pixel may be wider than two bytes; what is not a
//! pixel's two bytes is never written.

use vstd::prelude::*;
use image::DynamicImage;
use crate::clip::in_rect;
use crate::color::{composite, lemma_pack16_fields, pack16, unpack16, Color};
use crate::picture::{image_dimensions, image_get_pixel, image_rows, rows_have_size};

verus! {

/// A grid of RGB565 words: a sequence of rows of equal length.
pub type Grid = Seq<Seq<u16>>;

/// The mathematical model of a pixel surface.
pub struct Surface {
    /// Width in pixels.
    pub w: int,
    /// Height in pixels.
    pub h: int,
    /// Length of a row in bytes.
    pub stride: int,
    /// Bytes from one pixel of a row to the next.
    pub bpp: int,
    /// The frame as the device takes it.
    pub frame: Seq<u8>,
    /// The color that `clear` fills with.
    pub background: Color,
}

/// The 16-bit word whose low byte is `lo` and whose high byte is `hi`.
pub open spec fn word(lo: u8, hi: u8) -> u16 {
    (lo as int + 256 * (hi as int)) as u16
}

/// The word that a pixel holding `p` holds after `c` was drawn on it: the
/// packed color itself where `c` is opaque, else `c` composited over the
/// color that `p` stands for, packed again.
pub open spec fn blend16(p: u16, c: Color) -> u16 {
    if c.a == 255 {
        pack16(c) as u16
    } else {
        pack16(composite(unpack16(p as int), c)) as u16
    }
}

/// The number of pixels in a row of `g`.
pub open spec fn grid_w(g: Grid) -> int {
    if g.len() > 0 {
        g[0].len() as int
    } else {
        0
    }
}

/// Whether `g` has `h` rows of `w` pixels each.
pub open spec fn grid_has_size(g: Grid, w: int, h: int) -> bool {
    &&& g.len() == h
    &&& forall|j: int| 0 <= j < h ==> (#[trigger] g[j]).len() == w
}

/// `g` after `c` was drawn once on each pixel of the rectangle `(x, y, w, h)`.
pub open spec fn paint(g: Grid, x: int, y: int, w: int, h: int, c: Color) -> Grid {
    Seq::new(
        g.len(),
        |j: int|
            Seq::new(
                g[j].len(),
                |i: int|
                    if in_rect(i, j, x, y, w, h) {
                        blend16(g[j][i], c)
                    } else {
                        g[j][i]
                    },
            ),
    )
}

/// A coordinate brought onto an axis of `extent` pixels: one past the end
/// becomes the last pixel.
pub open spec fn clamp_pos(p: int, extent: int) -> int {
    if p >= extent {
        extent - 1
    } else {
        p
    }
}

/// A length cut off where it would run past the end of an axis of `extent`
/// pixels, for a span that starts at `p`.
pub open spec fn clamp_len(p: int, len: int, extent: int) -> int {
    if p + len > extent {
        extent - p
    } else {
        len
    }
}

/// `g` after a horizontal line: `width` pixels to the right from `(x1, y1)`,
/// start and length clamped to the surface.
pub open spec fn h_line(g: Grid, x1: int, y1: int, width: int, c: Color) -> Grid {
    let x = clamp_pos(x1, grid_w(g));
    let y = clamp_pos(y1, g.len() as int);
    paint(g, x, y, clamp_len(x, width, grid_w(g)), 1, c)
}

/// `g` after a vertical line: `height` pixels down from `(x1, y1)`, start and
/// length clamped to the surface.
pub open spec fn v_line(g: Grid, x1: int, y1: int, height: int, c: Color) -> Grid {
    let x = clamp_pos(x1, grid_w(g));
    let y = clamp_pos(y1, g.len() as int);
    paint(g, x, y, 1, clamp_len(y, height, g.len() as int), c)
}

/// `g` after the first `rows` lines of a filled rectangle: one horizontal
/// line for each row from `y1` down. Each line is clamped on its own, so rows
/// below the surface all land on its last row.
pub open spec fn filled_rect(g: Grid, x1: int, y1: int, width: int, rows: nat, c: Color) -> Grid
    decreases rows,
{
    if rows == 0 {
        g
    } else {
        h_line(filled_rect(g, x1, y1, width, (rows - 1) as nat, c), x1, y1 + rows - 1, width, c)
    }
}

/// `g` after the outline of a rectangle: the top and bottom lines, then the
/// left and right ones.
pub open spec fn rect_outline(g: Grid, x1: int, y1: int, width: int, height: int, c: Color) -> Grid {
    let top = h_line(g, x1, y1, width, c);
    let bottom = h_line(top, x1, y1 + height - 1, width, c);
    let left = v_line(bottom, x1, y1, height, c);
    v_line(left, x1 + width - 1, y1, height, c)
}

/// The block of the surface that an image is rendered to: the rectangle
/// `(x1, y1, w1, h1)` with start and size clamped to the surface, less its
/// last column and its last row.
pub open spec fn image_block(g: Grid, x1: int, y1: int, w1: int, h1: int) -> (int, int, int, int) {
    let x = clamp_pos(x1, grid_w(g));
    let y = clamp_pos(y1, g.len() as int);
    (x, y, clamp_len(x, w1, grid_w(g)) - 1, clamp_len(y, h1, g.len() as int) - 1)
}

/// Whether an image has a pixel for each pixel of a block of `w` by `h`
/// pixels, sampled from `(img_x, img_y)` on.
pub open spec fn samples_in_image(rows: Seq<Seq<Color>>, img_x: int, img_y: int, w: int, h: int) -> bool {
    0 < w && 0 < h ==> img_y + h <= rows.len() && forall|ry: int|
        img_y <= ry < img_y + h ==> img_x + w <= (#[trigger] rows[ry]).len()
}

/// `g` after the first `cx` columns of an image block, and the first `cy`
/// pixels of the next one, were drawn: the block starts at `(x, y)`, has `w`
/// by `h` pixels, and the pixel `(x + dx, y + dy)` takes the image's pixel
/// `(img_x + dx, img_y + dy)`.
pub open spec fn blit_columns(
    g: Grid,
    rows: Seq<Seq<Color>>,
    x: int,
    y: int,
    w: int,
    h: int,
    img_x: int,
    img_y: int,
    cx: int,
    cy: int,
) -> Grid {
    Seq::new(
        g.len(),
        |j: int|
            Seq::new(
                g[j].len(),
                |i: int|
                    if in_rect(i, j, x, y, w, h) && (i - x < cx || (i - x == cx && j - y < cy)) {
                        blend16(g[j][i], rows[img_y + j - y][img_x + i - x])
                    } else {
                        g[j][i]
                    },
            ),
    )
}

/// `g` after an image was rendered to the rectangle `(x1, y1, w1, h1)`,
/// sampled one to one from `(img_x, img_y)` on. The last column and the last
/// row of the clamped rectangle are left out.
pub open spec fn blit(
    g: Grid,
    rows: Seq<Seq<Color>>,
    x1: int,
    y1: int,
    w1: int,
    h1: int,
    img_x: int,
    img_y: int,
) -> Grid {
    let (x, y, w, h) = image_block(g, x1, y1, w1, h1);
    blit_columns(g, rows, x, y, w, h, img_x, img_y, w, 0)
}

impl Surface {
    /// Sizes are positive, a pixel has room for its two bytes, a row has room
    /// for its pixels, and the frame holds exactly the rows.
    pub open spec fn wf(self) -> bool {
        &&& 1 <= self.w <= u32::MAX
        &&& 1 <= self.h <= u32::MAX
        &&& 2 <= self.bpp <= u32::MAX
        &&& self.w * self.bpp <= self.stride <= u32::MAX
        &&& self.frame.len() == self.stride * self.h
        &&& self.frame.len() <= usize::MAX
    }

    /// Whether `(x, y)` is a pixel of the surface.
    pub open spec fn on_surface(self, x: int, y: int) -> bool {
        0 <= x < self.w && 0 <= y < self.h
    }

    /// Where in the frame the pixel `(x, y)` starts.
    pub open spec fn offset(self, x: int, y: int) -> int {
        y * self.stride + x * self.bpp
    }

    /// The word that the pixel `(x, y)` holds.
    pub open spec fn pixel(self, x: int, y: int) -> u16 {
        word(self.frame[self.offset(x, y)], self.frame[self.offset(x, y) + 1])
    }

    /// Whether the byte `j` of the frame is one of the two bytes of a pixel.
    pub open spec fn covered(self, j: int) -> bool {
        exists|x: int, y: int|
            self.on_surface(x, y) && (j == #[trigger] self.offset(x, y) || j == self.offset(x, y)
                + 1)
    }

    /// The pixels of the surface, row by row.
    pub open spec fn grid(self) -> Grid {
        Seq::new(self.h as nat, |y: int| Seq::new(self.w as nat, |x: int| self.pixel(x, y)))
    }

    /// Whether this surface is `before` with nothing changed but pixels: same
    /// geometry, same background, and every byte that is not part of a pixel
    /// as it was.
    pub open spec fn same_surface(self, before: Surface) -> bool {
        &&& self.w == before.w
        &&& self.h == before.h
        &&& self.stride == before.stride
        &&& self.bpp == before.bpp
        &&& self.background == before.background
        &&& self.frame.len() == before.frame.len()
        &&& forall|j: int|
            0 <= j < self.frame.len() && !before.covered(j) ==> self.frame[j] == before.frame[j]
    }
}

/// Every pixel's two bytes lie inside the frame.
pub proof fn lemma_cell_in_frame(s: Surface, x: int, y: int)
    requires
        s.wf(),
        s.on_surface(x, y),
    ensures
        0 <= s.offset(x, y),
        s.offset(x, y) + 1 < s.frame.len(),
        s.offset(x, y) + 1 < y * s.stride + s.stride,
        0 <= y * s.stride,
        0 <= x * s.bpp,
{
    assert(0 <= y * s.stride) by (nonlinear_arith)
        requires
            0 <= y,
            0 <= s.stride,
    ;
    assert(0 <= x * s.bpp && x * s.bpp + s.bpp <= s.w * s.bpp) by (nonlinear_arith)
        requires
            0 <= x,
            x + 1 <= s.w,
            0 <= s.bpp,
    ;
    assert(y * s.stride + s.stride <= s.h * s.stride) by (nonlinear_arith)
        requires
            y + 1 <= s.h,
            0 <= s.stride,
    ;
    assert(s.h * s.stride == s.stride * s.h) by (nonlinear_arith);
}

/// No two pixels share a byte.
pub proof fn lemma_cells_disjoint(s: Surface, x1: int, y1: int, x2: int, y2: int)
    requires
        s.wf(),
        s.on_surface(x1, y1),
        s.on_surface(x2, y2),
        x1 != x2 || y1 != y2,
    ensures
        s.offset(x1, y1) + 1 < s.offset(x2, y2) || s.offset(x2, y2) + 1 < s.offset(x1, y1),
{
    lemma_cell_in_frame(s, x1, y1);
    lemma_cell_in_frame(s, x2, y2);
    if y1 == y2 {
        if x1 < x2 {
            assert(x1 * s.bpp + s.bpp <= x2 * s.bpp) by (nonlinear_arith)
                requires
                    x1 + 1 <= x2,
                    0 <= s.bpp,
            ;
        } else {
            assert(x2 * s.bpp + s.bpp <= x1 * s.bpp) by (nonlinear_arith)
                requires
                    x2 + 1 <= x1,
                    0 <= s.bpp,
            ;
        }
    } else if y1 < y2 {
        assert(y1 * s.stride + s.stride <= y2 * s.stride) by (nonlinear_arith)
            requires
                y1 + 1 <= y2,
                0 <= s.stride,
        ;
    } else {
        assert(y2 * s.stride + s.stride <= y1 * s.stride) by (nonlinear_arith)
            requires
                y2 + 1 <= y1,
                0 <= s.stride,
        ;
    }
}

/// The grid of a well-formed surface has the surface's size.
pub proof fn lemma_grid_size(s: Surface)
    requires
        s.wf(),
    ensures
        grid_has_size(s.grid(), s.w, s.h),
        grid_w(s.grid()) == s.w,
        s.grid().len() == s.h,
{
    assert(s.grid()[0].len() == s.w);
}

/// The pixels and the bytes between them make up the whole frame: two
/// surfaces of one geometry that agree on both hold the same frame.
pub proof fn lemma_frame_determined(a: Surface, b: Surface)
    requires
        a.wf(),
        b.wf(),
        a.same_surface(b),
        a.grid() == b.grid(),
    ensures
        a.frame == b.frame,
{
    assert forall|j: int| 0 <= j < a.frame.len() implies a.frame[j] == b.frame[j] by {
        if b.covered(j) {
            let (x, y) = choose|x: int, y: int|
                b.on_surface(x, y) && (j == #[trigger] b.offset(x, y) || j == b.offset(x, y) + 1);
            lemma_word_bytes(a.frame[a.offset(x, y)], a.frame[a.offset(x, y) + 1]);
            lemma_word_bytes(b.frame[b.offset(x, y)], b.frame[b.offset(x, y) + 1]);
            assert(a.grid()[y][x] == a.pixel(x, y));
            assert(b.grid()[y][x] == b.pixel(x, y));
        }
    }
    assert(a.frame =~= b.frame);
}

/// A word determines its two bytes.
pub proof fn lemma_word_bytes(lo: u8, hi: u8)
    ensures
        word(lo, hi) % 256 == lo,
        word(lo, hi) / 256 == hi,
{
}

/// A filled rectangle whose rows all lie on the surface is the block of
/// its rows, each pixel of it drawn on once: as wide as the surface lets it
/// be from its left edge on.
pub proof fn lemma_filled_rect_on_surface(
    g: Grid,
    w: int,
    h: int,
    x1: int,
    y1: int,
    width: int,
    rows: nat,
    c: Color,
)
    requires
        grid_has_size(g, w, h),
        1 <= w,
        0 <= x1,
        0 <= y1,
        y1 + rows <= h,
    ensures
        filled_rect(g, x1, y1, width, rows, c) == paint(
            g,
            clamp_pos(x1, w),
            y1,
            clamp_len(clamp_pos(x1, w), width, w),
            rows as int,
            c,
        ),
        grid_has_size(filled_rect(g, x1, y1, width, rows, c), w, h),
    decreases rows,
{
    let x = clamp_pos(x1, w);
    let len = clamp_len(x, width, w);
    if rows == 0 {
        assert(g =~~= paint(g, x, y1, len, 0, c));
    } else {
        lemma_filled_rect_on_surface(g, w, h, x1, y1, width, (rows - 1) as nat, c);
        let below = filled_rect(g, x1, y1, width, (rows - 1) as nat, c);
        assert(grid_w(below) == w) by {
            assert(below[0].len() == w);
        }
        assert(h_line(below, x1, y1 + rows - 1, width, c) =~~= paint(
            g,
            x,
            y1,
            len,
            rows as int,
            c,
        ));
    }
}

/// Being the same surface but for pixels carries over from step to step.
pub proof fn lemma_same_surface_trans(a: Surface, b: Surface, c: Surface)
    requires
        a.same_surface(b),
        b.same_surface(c),
    ensures
        a.same_surface(c),
{
    assert forall|j: int| 0 <= j < a.frame.len() && !c.covered(j) implies a.frame[j]
        == c.frame[j] by {
        if b.covered(j) {
            let (x, y) = choose|x: int, y: int|
                b.on_surface(x, y) && (j == #[trigger] b.offset(x, y) || j == b.offset(x, y) + 1);
            assert(c.on_surface(x, y) && (j == c.offset(x, y) || j == c.offset(x, y) + 1));
        }
    }
}

/// A pixel surface: the frame of a display, with its geometry and the
/// background color.
pub struct FB {
    w: u32,
    h: u32,
    ll: u32,
    bpp: u32,
    frame: Vec<u8>,
    background: Color,
}

impl View for FB {
    type V = Surface;

    closed spec fn view(&self) -> Surface {
        Surface {
            w: self.w as int,
            h: self.h as int,
            stride: self.ll as int,
            bpp: self.bpp as int,
            frame: self.frame@,
            background: self.background,
        }
    }
}

impl FB {
    /// A black surface of `w` by `h` pixels with rows of `line_length` bytes
    /// and pixels `bytes_per_pixel` bytes apart, on a black background.
    ///
    /// `None` if a size is zero, a pixel has no room for its two bytes, a row
    /// has no room for its pixels, or the frame would not fit in memory.
    pub fn new(w: u32, h: u32, line_length: u32, bytes_per_pixel: u32) -> (r: Option<FB>)
        ensures
            r is Some <==> w >= 1 && h >= 1 && bytes_per_pixel >= 2 && w * bytes_per_pixel
                <= line_length && line_length * h <= usize::MAX,
            r matches Some(fb) ==> fb@.wf() && fb@.w == w && fb@.h == h && fb@.stride
                == line_length && fb@.bpp == bytes_per_pixel && fb@.background == (Color {
                r: 0,
                g: 0,
                b: 0,
                a: 255,
            }) && fb@.frame == Seq::new((line_length * h) as nat, |j: int| 0u8),
    {
        if w < 1 || h < 1 || bytes_per_pixel < 2 {
            return None;
        }
        assert(w * bytes_per_pixel <= u64::MAX && line_length * h <= u64::MAX) by (nonlinear_arith)
            requires
                w <= u32::MAX,
                bytes_per_pixel <= u32::MAX,
                line_length <= u32::MAX,
                h <= u32::MAX,
        ;
        if w as u64 * bytes_per_pixel as u64 > line_length as u64 {
            return None;
        }
        let size: u64 = line_length as u64 * h as u64;
        if size > usize::MAX as u64 {
            return None;
        }
        let frame: Vec<u8> = vec![0u8; size as usize];
        assert(frame@ =~= Seq::new((line_length * h) as nat, |j: int| 0u8));
        Some(FB { w, h, ll: line_length, bpp: bytes_per_pixel, frame, background: Color::new(0, 0, 0) })
    }

    /// Width in pixels.
    pub fn width(&self) -> (r: u32)
        ensures
            r == self@.w,
    {
        self.w
    }

    /// Height in pixels.
    pub fn height(&self) -> (r: u32)
        ensures
            r == self@.h,
    {
        self.h
    }

    /// The frame, as the device takes it.
    pub fn frame(&self) -> (r: &Vec<u8>)
        ensures
            r@ == self@.frame,
    {
        &self.frame
    }

    /// Where in the frame the pixel `(x1, y1)` starts, or would start if the
    /// surface reached that far. The two bytes of a pixel that is on the
    /// surface lie in the frame.
    pub fn find_point(&self, x1: u32, y1: u32) -> (r: usize)
        requires
            self@.offset(x1 as int, y1 as int) <= usize::MAX,
        ensures
            r == self@.offset(x1 as int, y1 as int),
            self@.wf() && self@.on_surface(x1 as int, y1 as int) ==> r + 1 < self@.frame.len(),
    {
        proof {
            assert(0 <= y1 * self.ll && 0 <= x1 * self.bpp) by (nonlinear_arith)
                requires
                    0 <= y1,
                    0 <= self.ll,
                    0 <= x1,
                    0 <= self.bpp,
            ;
            if self@.wf() && self@.on_surface(x1 as int, y1 as int) {
                lemma_cell_in_frame(self@, x1 as int, y1 as int);
            }
        }
        (y1 as usize) * (self.ll as usize) + (x1 as usize) * (self.bpp as usize)
    }

    /// Sets the color that `clear` fills with.
    pub fn set_background(&mut self, color: Color)
        ensures
            final(self)@ == (Surface { background: color, ..old(self)@ }),
    {
        self.background = color
    }

    fn check_x(&self, x: u32) -> (r: u32)
        requires
            self@.wf(),
        ensures
            r == clamp_pos(x as int, self@.w),
            r < self@.w,
    {
        if x >= self.w {
            return self.w - 1;
        }
        return x;
    }

    fn check_y(&self, y: u32) -> (r: u32)
        requires
            self@.wf(),
        ensures
            r == clamp_pos(y as int, self@.h),
            r < self@.h,
    {
        if y >= self.h {
            return self.h - 1;
        }
        return y;
    }

    fn check_w(&self, x: u32, w: u32) -> (r: u32)
        requires
            self@.wf(),
            x < self@.w,
        ensures
            r == clamp_len(x as int, w as int, self@.w),
            x + r <= self@.w,
    {
        if x as u64 + w as u64 > self.w as u64 {
            return self.w - x;
        }
        return w;
    }

    fn check_h(&self, y: u32, h: u32) -> (r: u32)
        requires
            self@.wf(),
            y < self@.h,
        ensures
            r == clamp_len(y as int, h as int, self@.h),
            y + r <= self@.h,
    {
        if y as u64 + h as u64 > self.h as u64 {
            return self.h - y;
        }
        return h;
    }

    /// Draws `color` on the pixel `(x, y)`: writes it where it is opaque,
    /// else blends it with what the pixel holds.
    pub fn plot(&mut self, x: u32, y: u32, color: &Color)
        requires
            old(self)@.wf(),
            old(self)@.on_surface(x as int, y as int),
        ensures
            final(self)@.wf(),
            final(self)@.same_surface(old(self)@),
            final(self)@.grid() == old(self)@.grid().update(
                y as int,
                old(self)@.grid()[y as int].update(
                    x as int,
                    blend16(old(self)@.grid()[y as int][x as int], *color),
                ),
            ),
    {
        let ghost before = self@;
        proof {
            lemma_cell_in_frame(self@, x as int, y as int);
        }
        let index: usize = self.find_point(x, y);
        let packed: u16 = if color.a == 255 {
            color.to_16b()
        } else {
            let base_color: u16 = self.frame[index] as u16 + (self.frame[index + 1] as u16) * 256;
            let base: Color = Color::from_16b(base_color);
            base.add(color).to_16b()
        };
        assert(packed == blend16(before.pixel(x as int, y as int), *color)) by {
            lemma_pack16_fields(*color);
            lemma_pack16_fields(composite(unpack16(before.pixel(x as int, y as int) as int), *color));
        }
        self.frame[index] = (packed % 256) as u8;
        self.frame[index + 1] = (packed / 256) as u8;
        proof {
            let after = self@;
            assert(before.on_surface(x as int, y as int) && index == before.offset(
                x as int,
                y as int,
            ));
            assert(after.pixel(x as int, y as int) == packed);
            assert forall|px: int, py: int|
                before.on_surface(px, py) && (px != x || py != y) implies after.pixel(px, py)
                == before.pixel(px, py) by {
                lemma_cells_disjoint(before, px, py, x as int, y as int);
                lemma_cell_in_frame(before, px, py);
            }
            lemma_grid_size(before);
            assert(after.grid() =~~= before.grid().update(
                y as int,
                before.grid()[y as int].update(x as int, packed),
            ));
        }
    }

    /// Fills the surface with the background color, as far as 240 by 240
    /// pixels from the top left.
    pub fn clear(&mut self)
        requires
            old(self)@.wf(),
        ensures
            final(self)@.wf(),
            final(self)@.same_surface(old(self)@),
            final(self)@.grid() == filled_rect(
                old(self)@.grid(),
                0,
                0,
                240,
                240,
                Color { a: 255, ..old(self)@.background },
            ),
    {
        let background: Color = Color::new(self.background.r, self.background.g, self.background.b);
        self.draw_filled_rect(0, 0, 240, 240, &background);
    }

    /// Draws the outline of a rectangle: its top and bottom lines, then its
    /// left and right ones, each clamped to the surface on its own.
    pub fn draw_rect(&mut self, x1: u32, y1: u32, width: u32, height: u32, color: &Color)
        requires
            old(self)@.wf(),
            x1 + width >= 1,
            y1 + height >= 1,
        ensures
            final(self)@.wf(),
            final(self)@.same_surface(old(self)@),
            final(self)@.grid() == rect_outline(
                old(self)@.grid(),
                x1 as int,
                y1 as int,
                width as int,
                height as int,
                *color,
            ),
    {
        let ghost s0 = self@;
        let bottom: u32 = saturate(y1 as u64 + height as u64 - 1);
        let right: u32 = saturate(x1 as u64 + width as u64 - 1);
        proof {
            lemma_grid_size(s0);
        }
        self.draw_h_line(x1, y1, width, color);
        let ghost s1 = self@;
        proof {
            lemma_grid_size(s1);
        }
        self.draw_h_line(x1, bottom, width, color);
        let ghost s2 = self@;
        proof {
            lemma_grid_size(s2);
            lemma_same_surface_trans(s2, s1, s0);
        }
        self.draw_v_line(x1, y1, height, color);
        let ghost s3 = self@;
        proof {
            lemma_grid_size(s3);
            lemma_same_surface_trans(s3, s2, s0);
        }
        self.draw_v_line(right, y1, height, color);
        proof {
            lemma_same_surface_trans(self@, s3, s0);
        }
    }

    /// Fills a rectangle: one horizontal line for each of its rows.
    pub fn draw_filled_rect(&mut self, x1: u32, y1: u32, width: u32, height: u32, color: &Color)
        requires
            old(self)@.wf(),
        ensures
            final(self)@.wf(),
            final(self)@.same_surface(old(self)@),
            final(self)@.grid() == filled_rect(
                old(self)@.grid(),
                x1 as int,
                y1 as int,
                width as int,
                height as nat,
                *color,
            ),
    {
        let ghost before = self@;
        let mut i: u32 = 0;
        while i < height
            invariant
                i <= height,
                self@.wf(),
                self@.same_surface(before),
                self@.grid() == filled_rect(
                    before.grid(),
                    x1 as int,
                    y1 as int,
                    width as int,
                    i as nat,
                    *color,
                ),
            decreases height - i,
        {
            let ghost s = self@;
            let row: u32 = saturate(y1 as u64 + i as u64);
            proof {
                lemma_grid_size(s);
            }
            self.draw_h_line(x1, row, width, color);
            proof {
                lemma_same_surface_trans(self@, s, before);
            }
            i = i + 1;
        }
    }

    /// Draws a horizontal line of `width` pixels to the right from
    /// `(x1, y1)`, start and length clamped to the surface.
    pub fn draw_h_line(&mut self, x1: u32, y1: u32, width: u32, color: &Color)
        requires
            old(self)@.wf(),
        ensures
            final(self)@.wf(),
            final(self)@.same_surface(old(self)@),
            final(self)@.grid() == h_line(
                old(self)@.grid(),
                x1 as int,
                y1 as int,
                width as int,
                *color,
            ),
    {
        let ghost before = self@;
        let x: u32 = self.check_x(x1);
        let y: u32 = self.check_y(y1);
        let w: u32 = self.check_w(x, width);
        proof {
            lemma_grid_size(before);
            assert(self@.grid() =~~= paint(before.grid(), x as int, y as int, 0, 1, *color));
        }
        let mut i: u32 = 0;
        while i < w
            invariant
                i <= w,
                x + w <= before.w,
                y < before.h,
                before.wf(),
                self@.wf(),
                self@.same_surface(before),
                grid_has_size(before.grid(), before.w, before.h),
                self@.grid() == paint(before.grid(), x as int, y as int, i as int, 1, *color),
            decreases w - i,
        {
            let ghost s = self@;
            self.plot(x + i, y, color);
            proof {
                lemma_same_surface_trans(self@, s, before);
                assert(self@.grid() =~~= paint(
                    before.grid(),
                    x as int,
                    y as int,
                    i as int + 1,
                    1,
                    *color,
                ));
            }
            i = i + 1;
        }
    }

    /// Draws a vertical line of `height` pixels down from `(x1, y1)`, start
    /// and length clamped to the surface.
    pub fn draw_v_line(&mut self, x1: u32, y1: u32, height: u32, color: &Color)
        requires
            old(self)@.wf(),
        ensures
            final(self)@.wf(),
            final(self)@.same_surface(old(self)@),
            final(self)@.grid() == v_line(
                old(self)@.grid(),
                x1 as int,
                y1 as int,
                height as int,
                *color,
            ),
    {
        let ghost before = self@;
        let x: u32 = self.check_x(x1);
        let y: u32 = self.check_y(y1);
        let h: u32 = self.check_h(y, height);
        proof {
            lemma_grid_size(before);
            assert(self@.grid() =~~= paint(before.grid(), x as int, y as int, 1, 0, *color));
        }
        let mut i: u32 = 0;
        while i < h
            invariant
                i <= h,
                y + h <= before.h,
                x < before.w,
                before.wf(),
                self@.wf(),
                self@.same_surface(before),
                grid_has_size(before.grid(), before.w, before.h),
                self@.grid() == paint(before.grid(), x as int, y as int, 1, i as int, *color),
            decreases h - i,
        {
            let ghost s = self@;
            self.plot(x, y + i, color);
            proof {
                lemma_same_surface_trans(self@, s, before);
                assert(self@.grid() =~~= paint(
                    before.grid(),
                    x as int,
                    y as int,
                    1,
                    i as int + 1,
                    *color,
                ));
            }
            i = i + 1;
        }
    }

    /// Renders an image to the rectangle `(x1, y1, w1, h1)`, clamped to the
    /// surface: the pixel at `(dx, dy)` of the rectangle takes the image's
    /// pixel `(img_x + dx, img_y + dy)`, written where it is opaque, blended
    /// where it is not. The last column and the last row of the clamped
    /// rectangle are not drawn, so a rectangle one pixel wide or high draws
    /// nothing.
    pub fn render_image(
        &mut self,
        img: &DynamicImage,
        x1: u32,
        y1: u32,
        w1: u32,
        h1: u32,
        img_x: u32,
        img_y: u32,
    )
        requires
            old(self)@.wf(),
            ({
                let (x, y, w, h) = image_block(
                    old(self)@.grid(),
                    x1 as int,
                    y1 as int,
                    w1 as int,
                    h1 as int,
                );
                samples_in_image(image_rows(*img), img_x as int, img_y as int, w, h)
            }),
        ensures
            final(self)@.wf(),
            final(self)@.same_surface(old(self)@),
            final(self)@.grid() == blit(
                old(self)@.grid(),
                image_rows(*img),
                x1 as int,
                y1 as int,
                w1 as int,
                h1 as int,
                img_x as int,
                img_y as int,
            ),
    {
        let ghost before = self@;
        let ghost rows = image_rows(*img);
        let start_x: u32 = self.check_x(x1);
        let start_y: u32 = self.check_y(y1);
        let w: u32 = self.check_w(start_x, w1);
        let h: u32 = self.check_h(start_y, h1);
        let dims: (u32, u32) = image_dimensions(img);
        proof {
            lemma_grid_size(before);
            assert(self@.grid() =~~= blit_columns(
                before.grid(),
                rows,
                start_x as int,
                start_y as int,
                w as int - 1,
                h as int - 1,
                img_x as int,
                img_y as int,
                0,
                0,
            ));
        }
        if w == 0 || h == 0 {
            proof {
                assert(self@.grid() =~~= blit(
                    before.grid(),
                    rows,
                    x1 as int,
                    y1 as int,
                    w1 as int,
                    h1 as int,
                    img_x as int,
                    img_y as int,
                ));
            }
            return ;
        }
        let mut x: u32 = 0;
        while x < w - 1
            invariant
                x <= w - 1,
                1 <= h,
                start_x + w <= before.w,
                start_y + h <= before.h,
                before.wf(),
                self@.wf(),
                self@.same_surface(before),
                rows == image_rows(*img),
                rows_have_size(rows, dims.0 as int, dims.1 as int),
                samples_in_image(rows, img_x as int, img_y as int, w as int - 1, h as int - 1),
                grid_has_size(before.grid(), before.w, before.h),
                self@.grid() == blit_columns(
                    before.grid(),
                    rows,
                    start_x as int,
                    start_y as int,
                    w as int - 1,
                    h as int - 1,
                    img_x as int,
                    img_y as int,
                    x as int,
                    0,
                ),
            decreases w - 1 - x,
        {
            let mut y: u32 = 0;
            while y < h - 1
                invariant
                    x < w - 1,
                    y <= h - 1,
                    start_x + w <= before.w,
                    start_y + h <= before.h,
                    before.wf(),
                    self@.wf(),
                    self@.same_surface(before),
                    rows == image_rows(*img),
                    rows_have_size(rows, dims.0 as int, dims.1 as int),
                    samples_in_image(rows, img_x as int, img_y as int, w as int - 1, h as int - 1),
                    grid_has_size(before.grid(), before.w, before.h),
                    self@.grid() == blit_columns(
                        before.grid(),
                        rows,
                        start_x as int,
                        start_y as int,
                        w as int - 1,
                        h as int - 1,
                        img_x as int,
                        img_y as int,
                        x as int,
                        y as int,
                    ),
                decreases h - 1 - y,
            {
                let ghost s = self@;
                proof {
                    let row = rows[img_y + y];
                    assert(img_y + y < rows.len() && img_x + (w - 1) <= row.len());
                }
                let color: Color = image_get_pixel(img, img_x + x, img_y + y);
                self.plot(x + start_x, y + start_y, &color);
                proof {
                    lemma_same_surface_trans(self@, s, before);
                    assert(self@.grid() =~~= blit_columns(
                        before.grid(),
                        rows,
                        start_x as int,
                        start_y as int,
                        w as int - 1,
                        h as int - 1,
                        img_x as int,
                        img_y as int,
                        x as int,
                        y as int + 1,
                    ));
                }
                y = y + 1;
            }
            proof {
                assert(self@.grid() =~~= blit_columns(
                    before.grid(),
                    rows,
                    start_x as int,
                    start_y as int,
                    w as int - 1,
                    h as int - 1,
                    img_x as int,
                    img_y as int,
                    x as int + 1,
                    0,
                ));
            }
            x = x + 1;
        }
    }
}

/// Whether an image has a pixel for each pixel of a block of `w` by `h`
/// pixels, sampled from `(img_x, img_y)` on.
pub fn image_has_samples(img: &DynamicImage, img_x: u32, img_y: u32, w: u32, h: u32) -> (r: bool)
    ensures
        r == samples_in_image(image_rows(*img), img_x as int, img_y as int, w as int, h as int),
{
    let dims: (u32, u32) = image_dimensions(img);
    let ghost rows = image_rows(*img);
    if w == 0 || h == 0 {
        return true;
    }
    let fits: bool = img_x as u64 + w as u64 <= dims.0 as u64 && img_y as u64 + h as u64
        <= dims.1 as u64;
    proof {
        if !fits {
            let row = rows[img_y as int];
            if img_y < rows.len() {
                let last = rows[img_y + h - 1];
            }
        }
    }
    fits
}

/// A coordinate that may have run past the 32-bit range, brought back to its
/// end; every surface ends before that.
fn saturate(p: u64) -> (r: u32)
    ensures
        r == if p > u32::MAX { u32::MAX as int } else { p as int },
{
    if p > u32::MAX as u64 {
        u32::MAX
    } else {
        p as u32
    }
}

} // verus!
