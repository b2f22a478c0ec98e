//! The coverage atlas of a text, and the bitmap that is composed from it.
//!
//! The atlas is a grid of 256 by 256 coverage bytes, row by row. The packer
//! assigns each glyph a rectangle of it and hands out the glyph's coverage,
//! which is copied in. A text's bitmap is then made by copying each glyph's
//! rectangle out of the atlas, coverage becoming alpha under the text's
//! color.

use vstd::prelude::*;
use image::DynamicImage;
use crate::clip::in_rect;
use crate::color::Color;
use crate::picture::{
    image_dimensions, image_is_rgba8, image_new_rgba8, image_put_pixel, image_rows, rows_have_size,
    rows_with,
};

verus! {

/// Pixels along each side of the atlas.
pub const ATLAS_SIDE: u32 = 256;

/// A rectangle of the atlas, from `min` (inclusive) to `max` (exclusive).
#[derive(Clone, Copy, Debug, PartialEq, Eq, Structural)]
pub struct AtlasRect {
    pub min_x: u32,
    pub min_y: u32,
    pub max_x: u32,
    pub max_y: u32,
}

/// Where a glyph is kept in the atlas, and where its top left corner goes
/// in the bitmap.
#[derive(Clone, Copy, Debug, PartialEq, Eq, Structural)]
pub struct GlyphPlacement {
    pub tex: AtlasRect,
    pub px_x: u32,
    pub px_y: u32,
}

impl AtlasRect {
    /// The rectangle from its corner `min` to its corner `max`, each as
    /// `[x, y]`.
    pub fn from_corners(min: [u32; 2], max: [u32; 2]) -> (r: AtlasRect)
        ensures
            r == (AtlasRect { min_x: min[0], min_y: min[1], max_x: max[0], max_y: max[1] }),
    {
        AtlasRect { min_x: min[0], min_y: min[1], max_x: max[0], max_y: max[1] }
    }

    /// Whether the rectangle is a rectangle of the atlas.
    pub open spec fn in_atlas(self) -> bool {
        self.min_x <= self.max_x <= ATLAS_SIDE && self.min_y <= self.max_y <= ATLAS_SIDE
    }

    /// Pixels in a row of the rectangle.
    pub open spec fn width(self) -> int {
        self.max_x - self.min_x
    }

    /// Rows of the rectangle.
    pub open spec fn height(self) -> int {
        self.max_y - self.min_y
    }

    /// Whether the atlas byte `k` lies in the rectangle.
    pub open spec fn covers(self, k: int) -> bool {
        in_rect(k % 256, k / 256, self.min_x as int, self.min_y as int, self.width(), self.height())
    }
}

/// Whether `atlas` has the size of an atlas.
pub open spec fn is_atlas(atlas: Seq<u8>) -> bool {
    atlas.len() == ATLAS_SIDE * ATLAS_SIDE
}

/// The atlas after the first `cy` rows of `data`, and the first `cx` bytes
/// of the next one, were copied into the rectangle `r`. `data` holds the
/// rectangle's bytes row by row.
pub open spec fn atlas_copied(atlas: Seq<u8>, r: AtlasRect, data: Seq<u8>, cy: int, cx: int) -> Seq<
    u8,
> {
    Seq::new(
        atlas.len(),
        |k: int|
            {
                let dx = k % 256 - r.min_x;
                let dy = k / 256 - r.min_y;
                if r.covers(k) && (dy < cy || (dy == cy && dx < cx)) {
                    data[dy * r.width() + dx]
                } else {
                    atlas[k]
                }
            },
    )
}

/// The atlas after `data` was copied into the rectangle `r`.
pub open spec fn atlas_with(atlas: Seq<u8>, r: AtlasRect, data: Seq<u8>) -> Seq<u8> {
    atlas_copied(atlas, r, data, r.height(), 0)
}

/// Whether what the packer handed out can be copied: the atlas has its
/// size, the rectangle lies in it, and there is a byte for each of its
/// pixels.
pub open spec fn upload_fits(atlas: Seq<u8>, r: AtlasRect, data: Seq<u8>) -> bool {
    is_atlas(atlas) && r.in_atlas() && data.len() >= r.width() * r.height()
}

/// Whether a glyph can be copied from the atlas to a bitmap of `w` by `h`
/// pixels: its rectangle lies in the atlas and lands inside the bitmap.
pub open spec fn placement_fits(p: GlyphPlacement, w: int, h: int) -> bool {
    p.tex.in_atlas() && p.px_x + p.tex.width() <= w && p.px_y + p.tex.height() <= h
}

/// The bitmap after the first `cy` rows of a glyph, and the first `cx`
/// pixels of the next one, were copied from the atlas: each pixel gets the
/// color `c` with the glyph's coverage as its alpha, in place of what was
/// there.
pub open spec fn glyph_copied(
    rows: Seq<Seq<Color>>,
    atlas: Seq<u8>,
    p: GlyphPlacement,
    c: Color,
    cy: int,
    cx: int,
) -> Seq<Seq<Color>> {
    Seq::new(
        rows.len(),
        |j: int|
            Seq::new(
                rows[j].len(),
                |i: int|
                    {
                        let dx = i - p.px_x;
                        let dy = j - p.px_y;
                        if in_rect(i, j, p.px_x as int, p.px_y as int, p.tex.width(), p.tex.height())
                            && (dy < cy || (dy == cy && dx < cx)) {
                            Color { a: atlas[(p.tex.min_x + dx) + (p.tex.min_y + dy) * 256], ..c }
                        } else {
                            rows[j][i]
                        }
                    },
            ),
    )
}

/// The bitmap after a glyph was copied from the atlas.
pub open spec fn glyph_drawn(rows: Seq<Seq<Color>>, atlas: Seq<u8>, p: GlyphPlacement, c: Color) -> Seq<
    Seq<Color>,
> {
    glyph_copied(rows, atlas, p, c, p.tex.height(), 0)
}

/// A bitmap of `w` by `h` pixels, all of them transparent black.
pub open spec fn blank(w: int, h: int) -> Seq<Seq<Color>> {
    Seq::new(h as nat, |y: int| Seq::new(w as nat, |x: int| Color { r: 0, g: 0, b: 0, a: 0 }))
}

/// The bitmap of a text: a blank bitmap on which the first `n` glyphs were
/// copied from the atlas, in order. A glyph that does not fit is left out.
pub open spec fn composed(
    w: int,
    h: int,
    atlas: Seq<u8>,
    placements: Seq<GlyphPlacement>,
    c: Color,
    n: nat,
) -> Seq<Seq<Color>>
    decreases n,
{
    if n == 0 {
        blank(w, h)
    } else {
        let before = composed(w, h, atlas, placements, c, (n - 1) as nat);
        let p = placements[n - 1];
        if is_atlas(atlas) && placement_fits(p, w, h) {
            glyph_drawn(before, atlas, p, c)
        } else {
            before
        }
    }
}

/// Composing keeps the bitmap's size.
pub proof fn lemma_composed_size(
    w: int,
    h: int,
    atlas: Seq<u8>,
    placements: Seq<GlyphPlacement>,
    c: Color,
    n: nat,
)
    requires
        0 <= w,
        0 <= h,
    ensures
        rows_have_size(composed(w, h, atlas, placements, c, n), w, h),
    decreases n,
{
    if n > 0 {
        lemma_composed_size(w, h, atlas, placements, c, (n - 1) as nat);
    }
}

/// Copies the coverage bytes `tex_data` of a glyph into its rectangle of the
/// atlas, row by row. The row length is the rectangle's width.
pub fn update_texture(rect: AtlasRect, tex_data: &[u8], texture: &mut Vec<u8>)
    requires
        upload_fits(old(texture)@, rect, tex_data@),
    ensures
        final(texture)@ == atlas_with(old(texture)@, rect, tex_data@),
        is_atlas(final(texture)@),
{
    let ghost before = texture@;
    let width: usize = (rect.max_x - rect.min_x) as usize;
    let height: usize = (rect.max_y - rect.min_y) as usize;
    let min_x: usize = rect.min_x as usize;
    let min_y: usize = rect.min_y as usize;
    let mut y: usize = 0;
    while y < height
        invariant
            y <= height,
            width == rect.width(),
            height == rect.height(),
            min_x == rect.min_x,
            min_y == rect.min_y,
            upload_fits(before, rect, tex_data@),
            texture@ == atlas_copied(before, rect, tex_data@, y as int, 0),
        decreases height - y,
    {
        let mut x: usize = 0;
        while x < width
            invariant
                y < height,
                x <= width,
                width == rect.width(),
                height == rect.height(),
                min_x == rect.min_x,
                min_y == rect.min_y,
                upload_fits(before, rect, tex_data@),
                texture@ == atlas_copied(before, rect, tex_data@, y as int, x as int),
            decreases width - x,
        {
            assert(y * width + x < width * height) by (nonlinear_arith)
                requires
                    y < height,
                    x < width,
            ;
            assert(y * width <= 65536) by (nonlinear_arith)
                requires
                    y < 256,
                    width <= 256,
            ;
            let k: usize = x + min_x + (y + min_y) * 256;
            texture[k] = tex_data[y * width + x];
            x = x + 1;
        }
        y = y + 1;
    }
}

/// Copies what the packer handed out into the atlas, if it can be copied;
/// leaves the atlas as it is if not.
pub fn upload_glyph(rect: AtlasRect, tex_data: &[u8], texture: &mut Vec<u8>)
    ensures
        final(texture)@ == if upload_fits(old(texture)@, rect, tex_data@) {
            atlas_with(old(texture)@, rect, tex_data@)
        } else {
            old(texture)@
        },
        final(texture)@.len() == old(texture)@.len(),
{
    if texture.len() != 65536 || rect.min_x > rect.max_x || rect.max_x > ATLAS_SIDE || rect.min_y
        > rect.max_y || rect.max_y > ATLAS_SIDE {
        return ;
    }
    let width: usize = (rect.max_x - rect.min_x) as usize;
    let height: usize = (rect.max_y - rect.min_y) as usize;
    assert(width * height <= 65536) by (nonlinear_arith)
        requires
            width <= 256,
            height <= 256,
    ;
    if tex_data.len() < width * height {
        return ;
    }
    update_texture(rect, tex_data, texture);
}

/// Copies a glyph from the atlas to the bitmap: each pixel of the glyph's
/// rectangle gets `color` with the coverage byte as its alpha, in place of
/// what was there.
pub fn draw_glyph(image: &mut DynamicImage, texture: &Vec<u8>, p: GlyphPlacement, color: &Color)
    requires
        image_is_rgba8(*old(image)),
        is_atlas(texture@),
        exists|w: int, h: int|
            rows_have_size(image_rows(*old(image)), w, h) && placement_fits(p, w, h),
    ensures
        image_is_rgba8(*final(image)),
        image_rows(*final(image)) == glyph_drawn(image_rows(*old(image)), texture@, p, *color),
{
    let ghost before = image_rows(*image);
    let ghost (w, h) = choose|w: int, h: int|
        rows_have_size(image_rows(*image), w, h) && placement_fits(p, w, h);
    let dims: (u32, u32) = image_dimensions(image);
    let width: u32 = p.tex.max_x - p.tex.min_x;
    let height: u32 = p.tex.max_y - p.tex.min_y;
    if height == 0 {
        assert(before =~~= glyph_drawn(before, texture@, p, *color));
        return ;
    }
    assert(before[0].len() == w && w == dims.0 && h == dims.1);
    assert(before =~~= glyph_copied(before, texture@, p, *color, 0, 0));
    let mut y: u32 = 0;
    while y < height
        invariant
            y <= height,
            width == p.tex.width(),
            height == p.tex.height(),
            is_atlas(texture@),
            w <= u32::MAX,
            h <= u32::MAX,
            rows_have_size(before, w, h),
            placement_fits(p, w, h),
            image_is_rgba8(*image),
            image_rows(*image) == glyph_copied(before, texture@, p, *color, y as int, 0),
        decreases height - y,
    {
        let mut x: u32 = 0;
        while x < width
            invariant
                y < height,
                x <= width,
                width == p.tex.width(),
                height == p.tex.height(),
                is_atlas(texture@),
                w <= u32::MAX,
                h <= u32::MAX,
                rows_have_size(before, w, h),
                placement_fits(p, w, h),
                image_is_rgba8(*image),
                image_rows(*image) == glyph_copied(before, texture@, p, *color, y as int, x as int),
            decreases width - x,
        {
            let k: usize = (x + p.tex.min_x) as usize + ((y + p.tex.min_y) as usize) * 256;
            let alpha: u8 = texture[k];
            let ghost rows = image_rows(*image);
            image_put_pixel(
                image,
                x + p.px_x,
                y + p.px_y,
                Color::new_rgba(color.r, color.g, color.b, alpha),
            );
            assert(rows_with(
                rows,
                x + p.px_x,
                y + p.px_y,
                Color { a: alpha, ..*color },
            ) =~~= glyph_copied(before, texture@, p, *color, y as int, x as int + 1));
            x = x + 1;
        }
        assert(image_rows(*image) =~~= glyph_copied(
            before,
            texture@,
            p,
            *color,
            y as int + 1,
            0,
        ));
        y = y + 1;
    }
}

/// Whether a glyph can be copied from the atlas to a bitmap of `w` by `h`
/// pixels.
pub fn fits_bitmap(p: &GlyphPlacement, w: u32, h: u32) -> (r: bool)
    ensures
        r == placement_fits(*p, w as int, h as int),
{
    if p.tex.min_x > p.tex.max_x || p.tex.max_x > ATLAS_SIDE || p.tex.min_y > p.tex.max_y
        || p.tex.max_y > ATLAS_SIDE {
        return false;
    }
    p.px_x as u64 + (p.tex.max_x - p.tex.min_x) as u64 <= w as u64 && p.px_y as u64 + (p.tex.max_y
        - p.tex.min_y) as u64 <= h as u64
}

/// The bitmap of a text of `w` by `h` pixels: transparent, with each glyph
/// copied from the atlas in the text's color, in order. A glyph that does
/// not fit the atlas or the bitmap is left out.
pub fn compose_bitmap(
    w: u32,
    h: u32,
    color: &Color,
    texture: &Vec<u8>,
    placements: &Vec<GlyphPlacement>,
) -> (image: DynamicImage)
    requires
        4 * w * h <= usize::MAX,
    ensures
        image_is_rgba8(image),
        image_rows(image) == composed(
            w as int,
            h as int,
            texture@,
            placements@,
            *color,
            placements@.len(),
        ),
        rows_have_size(image_rows(image), w as int, h as int),
{
    let mut image: DynamicImage = image_new_rgba8(w, h);
    let usable: bool = texture.len() == 65536;
    let mut i: usize = 0;
    while i < placements.len()
        invariant
            i <= placements.len(),
            usable == is_atlas(texture@),
            image_is_rgba8(image),
            image_rows(image) == composed(w as int, h as int, texture@, placements@, *color, i as nat),
        decreases placements.len() - i,
    {
        proof {
            lemma_composed_size(w as int, h as int, texture@, placements@, *color, i as nat);
        }
        let p: GlyphPlacement = placements[i];
        if usable && fits_bitmap(&p, w, h) {
            draw_glyph(&mut image, texture, p, color);
        }
        i = i + 1;
    }
    proof {
        lemma_composed_size(w as int, h as int, texture@, placements@, *color, placements@.len());
    }
    image
}

} // verus!
