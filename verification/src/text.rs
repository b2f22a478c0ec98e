//! Rasterized text: a string in a font and a color, kept as a bitmap that is
//! made once and made again when the string changes.
//!
//! The extent of a line of text, in whole pixels, is measured by the caller
//! from the font's metrics and handed in: the width from the first pen
//! position to the end of the last glyph's advance, and the line height,
//! both rounded up.

use vstd::prelude::*;
use vstd::string::*;
use ab_glyph::FontVec;
use ab_glyph::InvalidFont;
use ab_glyph::PxScale;
use glyph_brush_draw_cache::CacheWriteErr;
use glyph_brush_layout::SectionGlyph;
use image::DynamicImage;
use ab_glyph::Glyph;
use crate::atlas::{compose_bitmap, composed, is_atlas, GlyphPlacement, ATLAS_SIDE};
use crate::clip::{adjust_img_loc, clip, clipper, sample_offset, Bounds};
use crate::color::Color;
use crate::fb::{blit, grid_w, image_has_samples, lemma_grid_size, samples_in_image, Grid, FB};
use crate::glyphs::{
    entries_of, is_font, laid_out_glyphs, margin_fits, parse_font, size_of, Packer,
};
use crate::picture::{image_is_rgba8, image_rows, rows_have_size};
use crate::shapes::Draw;

verus! {

/// Why a text could not be laid out.
#[derive(Clone, Copy, Debug, PartialEq, Eq, Structural)]
pub enum LayoutError {
    /// The bitmap would have no pixels, or more than can be addressed.
    BadSize,
    /// The layout of the string has no glyph, so there is nothing to measure
    /// or to draw.
    NoGlyphs,
    /// A glyph is too large for the atlas, even alone: with a margin of one
    /// pixel on each side it is as wide or as high as the atlas.
    GlyphTooLarge,
    /// The glyphs of the text do not fit into the atlas together.
    NoRoomForWholeQueue,
}

/// The side of a bitmap along one axis: the text's extent and the padding.
pub open spec fn padded(extent: int, padding: int) -> int {
    extent + padding
}

/// Whether a bitmap for a text of the given extent (width, height) and
/// padding can be made: it has at least one pixel each way, its sides fit a
/// signed 32-bit size, and its bytes can be addressed.
pub open spec fn bitmap_size_ok(extent: (u32, u32), padding: u32) -> bool {
    let w = padded(extent.0 as int, padding as int);
    let h = padded(extent.1 as int, padding as int);
    1 <= w <= i32::MAX && 1 <= h <= i32::MAX && 4 * w * h <= usize::MAX
}

/// The font that came of parsing, if one did.
pub fn parsed_font(parsed: Result<FontVec, InvalidFont>) -> (r: Option<FontVec>)
    ensures
        r == match parsed {
            Ok(font) => Some(font),
            Err(_) => None,
        },
{
    match parsed {
        Ok(font) => Some(font),
        Err(_) => None,
    }
}

/// A font from the bytes of a font file, or `None` if they are not a font
/// that can be read.
pub fn get_font(font_data: Vec<u8>) -> (r: Option<FontVec>)
    ensures
        r is Some <==> is_font(font_data@),
{
    parsed_font(parse_font(font_data))
}

/// The library's error for a failure of the packer.
pub fn cache_error(e: CacheWriteErr) -> (r: LayoutError)
    ensures
        r == match e {
            CacheWriteErr::GlyphTooLarge => LayoutError::GlyphTooLarge,
            CacheWriteErr::NoRoomForWholeQueue => LayoutError::NoRoomForWholeQueue,
        },
{
    match e {
        CacheWriteErr::GlyphTooLarge => LayoutError::GlyphTooLarge,
        CacheWriteErr::NoRoomForWholeQueue => LayoutError::NoRoomForWholeQueue,
    }
}

/// Whether `sized` is a bitmap for a text of the given extent and padding at
/// `(x, y)`: width and height are the padded extent, and sampling starts
/// where the part that hangs off the near edges of the surface ends.
pub open spec fn laid_out(
    sized: (u32, u32, u32, u32),
    x: int,
    y: int,
    extent: (u32, u32),
    padding: u32,
) -> bool {
    let (img_x, img_y, w, h) = sized;
    &&& w == padded(extent.0 as int, padding as int)
    &&& h == padded(extent.1 as int, padding as int)
    &&& img_x == sample_offset(x, 0, w as int)
    &&& img_y == sample_offset(y, 0, h as int)
}

/// A text drawable: a string, rasterized in a font at a scale and in a
/// color, with the packer and the atlas that its glyphs are cached in.
pub struct Text {
    pub x: i32,
    pub y: i32,
    pub w: i32,
    pub h: i32,
    content: String,
    scale: PxScale,
    color: Color,
    img: DynamicImage,
    img_x: u32,
    img_y: u32,
    padding: u32,
    draw_cache: Packer,
    texture: Vec<u8>,
}

/// The mathematical model of a text drawable.
pub struct TextView {
    /// The object rectangle.
    pub bounds: Bounds,
    /// The string that the text holds.
    pub content: Seq<char>,
    /// The color of the glyphs.
    pub color: Color,
    /// The pixels of the bitmap.
    pub rows: Seq<Seq<Color>>,
    /// Where in the bitmap sampling starts, before the position is taken
    /// into account.
    pub sample: (int, int),
    /// Pixels added to the text's extent on each axis.
    pub padding: int,
    /// The coverage atlas.
    pub atlas: Seq<u8>,
    /// The packer of the text's glyphs.
    pub packer: Packer,
    /// The font that the text is rasterized in.
    pub font: FontVec,
    /// The scale that the text is rasterized at.
    pub scale: PxScale,
}

impl TextView {
    /// Where in the bitmap sampling starts for a text at its position: the
    /// stored offset, moved by what hangs off the near edges of the surface.
    pub open spec fn sample_start(self) -> (int, int) {
        (
            sample_offset(self.bounds.0, self.sample.0, self.bounds.2),
            sample_offset(self.bounds.1, self.sample.1, self.bounds.3),
        )
    }
}

/// Whether a text's bitmap has all the pixels that are sampled for its
/// visible part on a surface of `sw` by `sh` pixels.
pub open spec fn text_can_draw(t: TextView, sw: int, sh: int) -> bool {
    match clip(t.bounds.0, t.bounds.1, t.bounds.2, t.bounds.3, sw, sh) {
        Some((cx, cy, cw, ch)) => samples_in_image(
            t.rows,
            t.sample_start().0,
            t.sample_start().1,
            cw - 1,
            ch - 1,
        ),
        None => true,
    }
}

/// `g` after the visible part of a text was drawn from its bitmap.
pub open spec fn text_drawn(t: TextView, g: Grid) -> Grid {
    match clip(t.bounds.0, t.bounds.1, t.bounds.2, t.bounds.3, grid_w(g), g.len() as int) {
        Some((cx, cy, cw, ch)) => blit(
            g,
            t.rows,
            cx,
            cy,
            cw,
            ch,
            t.sample_start().0,
            t.sample_start().1,
        ),
        None => g,
    }
}

impl View for Text {
    type V = TextView;

    closed spec fn view(&self) -> TextView {
        TextView {
            bounds: (self.x as int, self.y as int, self.w as int, self.h as int),
            content: self.content@,
            color: self.color,
            rows: image_rows(self.img),
            sample: (self.img_x as int, self.img_y as int),
            padding: self.padding as int,
            atlas: self.texture@,
            packer: self.draw_cache,
            font: self.draw_cache.font_of(),
            scale: self.scale,
        }
    }
}

/// The placements that are there among `answers`, in their order.
pub open spec fn found_placements(answers: Seq<Option<GlyphPlacement>>) -> Seq<GlyphPlacement>
    decreases answers.len(),
{
    if answers.len() == 0 {
        Seq::<GlyphPlacement>::empty()
    } else {
        let before = found_placements(answers.drop_last());
        match answers.last() {
            Some(p) => before.push(p),
            None => before,
        }
    }
}

/// No more placements are found than there are answers.
pub proof fn lemma_found_placements_len(answers: Seq<Option<GlyphPlacement>>)
    ensures
        found_placements(answers).len() <= answers.len(),
    decreases answers.len(),
{
    if answers.len() > 0 {
        lemma_found_placements_len(answers.drop_last());
    }
}

/// Whether a glyph whose outline has this size, if it has one, can be kept
/// in the atlas: with a margin of one pixel on each side it is less wide
/// and less high than the atlas.
pub open spec fn fits_atlas(size: Option<(u32, u32)>) -> bool {
    match size {
        Some((w, h)) => w + 2 < ATLAS_SIDE && h + 2 < ATLAS_SIDE,
        None => true,
    }
}

/// For each of `glyphs`, the size of its outline in `font`, if it has one.
pub open spec fn sizes_of(font: FontVec, glyphs: Seq<SectionGlyph>) -> Seq<Option<(u32, u32)>> {
    Seq::new(glyphs.len(), |i: int| size_of(font, glyphs[i]))
}

/// Whether each glyph of these sizes can be kept in the atlas.
pub open spec fn glyphs_fit(sizes: Seq<Option<(u32, u32)>>) -> bool {
    forall|i: int| 0 <= i < sizes.len() ==> fits_atlas(#[trigger] sizes[i])
}

/// For each of `glyphs`, whether `font` has an outline for it.
pub open spec fn outlines(font: FontVec, glyphs: Seq<SectionGlyph>) -> Seq<bool> {
    Seq::new(glyphs.len(), |i: int| size_of(font, glyphs[i]) is Some)
}

/// The error that is found before the packer is run, if there is one:
/// `BadSize` if no bitmap of the padded extent can be made, else `NoGlyphs`
/// if the layout of the string has no glyph, else `GlyphTooLarge` if one of
/// its glyphs cannot be kept in the atlas.
pub open spec fn early_error(
    font: FontVec,
    scale: PxScale,
    content: Seq<char>,
    extent: (u32, u32),
    padding: u32,
) -> Option<LayoutError> {
    let glyphs = laid_out_glyphs(font, scale, content);
    if !bitmap_size_ok(extent, padding) {
        Some(LayoutError::BadSize)
    } else if glyphs.len() == 0 {
        Some(LayoutError::NoGlyphs)
    } else if !glyphs_fit(sizes_of(font, glyphs)) {
        Some(LayoutError::GlyphTooLarge)
    } else {
        None
    }
}

/// Whether each glyph of these sizes can be kept in the atlas.
pub fn all_fit(sizes: &Vec<Option<(u32, u32)>>) -> (r: bool)
    ensures
        r == glyphs_fit(sizes@),
{
    let mut i: usize = 0;
    while i < sizes.len()
        invariant
            i <= sizes.len(),
            forall|j: int| 0 <= j < i ==> fits_atlas(#[trigger] sizes@[j]),
        decreases sizes.len() - i,
    {
        match sizes[i] {
            Some((w, h)) => {
                if w >= ATLAS_SIDE - 2 || h >= ATLAS_SIDE - 2 {
                    assert(!fits_atlas(sizes@[i as int]));
                    return false;
                }
            },
            None => {},
        }
        i = i + 1;
    }
    true
}

/// The size of the outline of each of `glyphs` in the packer's font.
fn glyph_sizes(draw_cache: &Packer, glyphs: &Vec<SectionGlyph>) -> (r: Vec<Option<(u32, u32)>>)
    ensures
        r@ == sizes_of(draw_cache.font_of(), glyphs@),
{
    let mut sizes: Vec<Option<(u32, u32)>> = Vec::new();
    let mut i: usize = 0;
    while i < glyphs.len()
        invariant
            i <= glyphs.len(),
            sizes@ == sizes_of(draw_cache.font_of(), glyphs@).subrange(0, i as int),
        decreases glyphs.len() - i,
    {
        sizes.push(draw_cache.size(&glyphs[i]));
        i = i + 1;
    }
    sizes
}

/// The packer's answers that count: the answer for each glyph that has an
/// outline, and none for a glyph without one.
pub open spec fn answers_kept(outlined: Seq<bool>, found: Seq<Option<GlyphPlacement>>) -> Seq<
    Option<GlyphPlacement>,
> {
    Seq::new(
        found.len(),
        |i: int|
            if i < outlined.len() && outlined[i] {
                found[i]
            } else {
                None
            },
    )
}

/// The bitmap of a text of `w` by `h` pixels with the glyphs at
/// `placements` copied from the atlas.
pub open spec fn bitmap_of(
    w: int,
    h: int,
    atlas: Seq<u8>,
    placements: Seq<GlyphPlacement>,
    color: Color,
) -> Seq<Seq<Color>> {
    composed(w, h, atlas, placements, color, placements.len())
}

/// For each of `glyphs`, where `packer` keeps it, if it does.
pub open spec fn placements_in(packer: Packer, glyphs: Seq<SectionGlyph>) -> Seq<
    Option<GlyphPlacement>,
> {
    Seq::new(glyphs.len(), |i: int| packer.placement_of(glyphs[i]))
}

/// The placements to draw of `glyphs` in `font`: those of the glyphs that
/// have an outline and that `packer` keeps, in the order of the glyphs.
pub open spec fn drawn_placements(font: FontVec, packer: Packer, glyphs: Seq<SectionGlyph>) -> Seq<
    GlyphPlacement,
> {
    found_placements(answers_kept(outlines(font, glyphs), placements_in(packer, glyphs)))
}

/// Whether `rows` is the bitmap of `glyphs` in `font`, with the glyphs
/// where `packer` keeps them in `atlas`.
pub open spec fn rasterized(
    rows: Seq<Seq<Color>>,
    w: int,
    h: int,
    atlas: Seq<u8>,
    font: FontVec,
    packer: Packer,
    glyphs: Seq<SectionGlyph>,
    color: Color,
) -> bool {
    rows == bitmap_of(w, h, atlas, drawn_placements(font, packer, glyphs), color)
}

/// The placements to draw, of what was asked of font and packer glyph by
/// glyph: `outlined` says for each glyph whether it has an outline, `found`
/// what the packer gave for it. A glyph without an outline is skipped,
/// whatever the packer gave; of the others, those that the packer keeps are
/// taken, in order.
pub fn kept_placements(outlined: &Vec<bool>, found: &Vec<Option<GlyphPlacement>>) -> (r: Vec<
    GlyphPlacement,
>)
    ensures
        r@ == found_placements(answers_kept(outlined@, found@)),
{
    let mut placements: Vec<GlyphPlacement> = Vec::new();
    let ghost kept = answers_kept(outlined@, found@);
    let mut i: usize = 0;
    while i < found.len()
        invariant
            i <= found.len(),
            kept == answers_kept(outlined@, found@),
            placements@ == found_placements(kept.subrange(0, i as int)),
        decreases found.len() - i,
    {
        proof {
            assert(kept.subrange(0, i as int + 1).drop_last() =~= kept.subrange(0, i as int));
        }
        if i < outlined.len() && outlined[i] {
            match found[i] {
                Some(p) => placements.push(p),
                None => {},
            }
        }
        i = i + 1;
    }
    proof {
        assert(kept.subrange(0, found@.len() as int) =~= kept);
    }
    placements
}

/// The placements of the glyphs that have an outline and that the packer
/// keeps, in the order of the glyphs.
///
/// `sizes` holds the size of each glyph's outline, if it has one. Only for
/// a glyph with an outline is the packer asked where it keeps it. What is
/// returned is the placements that are there among the answers for the
/// glyphs with an outline.
fn outlined_placements(
    draw_cache: &Packer,
    glyphs: &Vec<SectionGlyph>,
    sizes: &Vec<Option<(u32, u32)>>,
) -> (r: Vec<GlyphPlacement>)
    requires
        sizes@ == sizes_of(draw_cache.font_of(), glyphs@),
    ensures
        r@ == drawn_placements(draw_cache.font_of(), *draw_cache, glyphs@),
        r@.len() <= glyphs@.len(),
{
    let ghost font = draw_cache.font_of();
    let mut outlined: Vec<bool> = Vec::new();
    let mut found: Vec<Option<GlyphPlacement>> = Vec::new();
    let mut i: usize = 0;
    while i < glyphs.len()
        invariant
            i <= glyphs.len(),
            font == draw_cache.font_of(),
            sizes@ == sizes_of(font, glyphs@),
            outlined@.len() == i,
            found@.len() == i,
            outlined@ == outlines(font, glyphs@).subrange(0, i as int),
            forall|j: int|
                0 <= j < i && outlined@[j] ==> found@[j] == draw_cache.placement_of(glyphs@[j]),
        decreases glyphs.len() - i,
    {
        let has: bool = sizes[i].is_some();
        let answer: Option<GlyphPlacement> = if has {
            draw_cache.placement(&glyphs[i])
        } else {
            None
        };
        outlined.push(has);
        found.push(answer);
        i = i + 1;
    }
    proof {
        assert(outlined@ =~= outlines(font, glyphs@));
        assert(answers_kept(outlined@, found@) =~= answers_kept(
            outlines(font, glyphs@),
            placements_in(*draw_cache, glyphs@),
        ));
        lemma_found_placements_len(answers_kept(outlined@, found@));
    }
    kept_placements(&outlined, &found)
}

impl Text {
    /// A text at `(x, y)` that shows `content`. `extent` is the measured
    /// extent of `content` in `font` at `scale`.
    ///
    /// Fails with the `early_error` if there is one; otherwise it fails only
    /// if the packer does.
    pub fn new(
        x: i32,
        y: i32,
        scale: PxScale,
        content: String,
        font: FontVec,
        color: Color,
        padding: u32,
        extent: (u32, u32),
    ) -> (r: Result<Text, LayoutError>)
        ensures
            early_error(font, scale, content@, extent, padding) matches Some(e) ==> r == Err::<
                Text,
                LayoutError,
            >(e),
            early_error(font, scale, content@, extent, padding) is None ==> r != Err::<
                Text,
                LayoutError,
            >(LayoutError::BadSize) && r != Err::<Text, LayoutError>(LayoutError::NoGlyphs),
            r matches Ok(t) ==> {
                &&& t@.bounds == (
                    x as int,
                    y as int,
                    padded(extent.0 as int, padding as int),
                    padded(extent.1 as int, padding as int),
                )
                &&& t@.content == content@
                &&& t@.color == color
                &&& t@.padding == padding
                &&& t.font_of() == font
                &&& t.scale_of() == scale
                &&& t@.sample == (
                    sample_offset(x as int, 0, t@.bounds.2),
                    sample_offset(y as int, 0, t@.bounds.3),
                )
                &&& is_atlas(t@.atlas)
                &&& rows_have_size(t@.rows, t@.bounds.2, t@.bounds.3)
                &&& t@.packer.queue() == Seq::<(usize, Glyph)>::empty()
                &&& rasterized(
                    t@.rows,
                    t@.bounds.2,
                    t@.bounds.3,
                    t@.atlas,
                    font,
                    t@.packer,
                    laid_out_glyphs(font, scale, content@),
                    color,
                )
            },
    {
        let mut draw_cache: Packer = Packer::new(font);
        let mut texture: Vec<u8> = vec![0u8; 65536];
        match Text::layout_string(
            x,
            y,
            &color,
            &content,
            &scale,
            extent,
            padding,
            &mut draw_cache,
            &mut texture,
        ) {
            Ok((image, img_x, img_y, w, h)) => Ok(
                Text {
                    x,
                    y,
                    w: w as i32,
                    h: h as i32,
                    content,
                    scale,
                    color,
                    img: image,
                    img_x,
                    img_y,
                    padding,
                    draw_cache,
                    texture,
                },
            ),
            Err(e) => Err(e),
        }
    }

    /// Rasterizes `content` in the packer's font: lays out its glyphs,
    /// queues all of them with the packer, has the packer cache them in the
    /// atlas `texture`, and composes the bitmap from the atlas: the glyphs
    /// that have an outline and that the packer keeps, in order. Returns the
    /// bitmap, where sampling starts in it, and its width and height.
    ///
    /// Fails with the `early_error` if there is one, and then touches
    /// neither packer nor atlas. Otherwise it fails only if the packer does,
    /// and the glyphs stay queued. Where the packer keeps a glyph is for the
    /// packer to say.
    pub fn layout_string(
        x: i32,
        y: i32,
        color: &Color,
        content: &String,
        scale: &PxScale,
        extent: (u32, u32),
        padding: u32,
        draw_cache: &mut Packer,
        texture: &mut Vec<u8>,
    ) -> (r: Result<(DynamicImage, u32, u32, u32, u32), LayoutError>)
        ensures
            early_error(old(draw_cache).font_of(), *scale, content@, extent, padding) matches Some(
                e,
            ) ==> (r matches Err(f) && f == e) && *final(texture) == *old(texture)
                && *final(draw_cache) == *old(draw_cache),
            early_error(old(draw_cache).font_of(), *scale, content@, extent, padding) is None ==> (r
                matches Err(e) ==> e != LayoutError::BadSize && e != LayoutError::NoGlyphs
                && final(draw_cache).queue() == old(draw_cache).queue() + entries_of(
                laid_out_glyphs(old(draw_cache).font_of(), *scale, content@),
            )),
            final(draw_cache).font_of() == old(draw_cache).font_of(),
            final(texture)@.len() == old(texture)@.len(),
            r matches Ok((image, img_x, img_y, w, h)) ==> {
                &&& early_error(old(draw_cache).font_of(), *scale, content@, extent, padding)
                    is None
                &&& laid_out((img_x, img_y, w, h), x as int, y as int, extent, padding)
                &&& image_is_rgba8(image)
                &&& rows_have_size(image_rows(image), w as int, h as int)
                &&& final(draw_cache).queue() == Seq::<(usize, Glyph)>::empty()
                &&& rasterized(
                    image_rows(image),
                    w as int,
                    h as int,
                    final(texture)@,
                    old(draw_cache).font_of(),
                    *final(draw_cache),
                    laid_out_glyphs(old(draw_cache).font_of(), *scale, content@),
                    *color,
                )
            },
    {
        let wide: u64 = extent.0 as u64 + padding as u64;
        let high: u64 = extent.1 as u64 + padding as u64;
        if wide < 1 || high < 1 || wide > i32::MAX as u64 || high > i32::MAX as u64 {
            return Err(LayoutError::BadSize);
        }
        assert(4 * wide * high <= u64::MAX) by (nonlinear_arith)
            requires
                wide <= i32::MAX,
                high <= i32::MAX,
        ;
        if 4 * wide * high > usize::MAX as u64 {
            return Err(LayoutError::BadSize);
        }
        let w: u32 = wide as u32;
        let h: u32 = high as u32;
        let glyphs: Vec<SectionGlyph> = draw_cache.layout(scale, content);
        if glyphs.len() == 0 {
            return Err(LayoutError::NoGlyphs);
        }
        let sizes: Vec<Option<(u32, u32)>> = glyph_sizes(draw_cache, &glyphs);
        if !all_fit(&sizes) {
            return Err(LayoutError::GlyphTooLarge);
        }
        assert forall|i: int| 0 <= i < glyphs@.len() implies margin_fits(
            size_of(draw_cache.font_of(), #[trigger] glyphs@[i]),
        ) by {
            assert(fits_atlas(sizes@[i]));
        }
        draw_cache.queue_all(&glyphs);
        match draw_cache.run(texture) {
            Ok(_) => {},
            Err(e) => {
                return Err(cache_error(e));
            },
        }
        let placements: Vec<GlyphPlacement> = outlined_placements(draw_cache, &glyphs, &sizes);
        let image: DynamicImage = compose_bitmap(w, h, color, texture, &placements);
        let img_x: u32 = adjust_img_loc(x, 0, w);
        let img_y: u32 = adjust_img_loc(y, 0, h);
        Ok((image, img_x, img_y, w, h))
    }

    /// Puts the text at `(x, y)`. Nothing is drawn again.
    pub fn move_to(&mut self, x: i32, y: i32)
        ensures
            *final(self) == old(self).moved_to(x as int, y as int),
    {
        self.x = x;
        self.y = y;
    }

    /// The width of the text's bitmap.
    pub fn width(&self) -> (r: i32)
        ensures
            r == self@.bounds.2,
    {
        self.w
    }

    /// The height of the text's bitmap.
    pub fn height(&self) -> (r: i32)
        ensures
            r == self@.bounds.3,
    {
        self.h
    }

    /// The string that the text holds.
    pub fn content(&self) -> (r: &String)
        ensures
            r@ == self@.content,
    {
        &self.content
    }

    /// The font that the text is rasterized in.
    pub closed spec fn font_of(&self) -> FontVec {
        self.draw_cache.font_of()
    }

    /// The scale that the text is rasterized at.
    pub closed spec fn scale_of(&self) -> PxScale {
        self.scale
    }

    /// The font of the text.
    pub fn font(&self) -> (r: &FontVec)
        ensures
            *r == self.font_of(),
    {
        self.draw_cache.font()
    }

    /// The scale of the text.
    pub fn scale(&self) -> (r: &PxScale)
        ensures
            *r == self.scale_of(),
    {
        &self.scale
    }
}

impl Draw for Text {
    open spec fn bounds(&self) -> Bounds {
        self@.bounds
    }

    open spec fn can_draw(&self, sw: int, sh: int) -> bool {
        text_can_draw(self@, sw, sh)
    }

    open spec fn drawn(&self, g: Grid) -> Grid {
        text_drawn(self@, g)
    }

    closed spec fn moved_to(&self, x: int, y: int) -> Text {
        Text { x: x as i32, y: y as i32, ..*self }
    }

    open spec fn text(&self) -> Option<Seq<char>> {
        Some(self@.content)
    }

    fn draw(&self, fb: &mut FB) {
        proof {
            lemma_grid_size(fb@);
        }
        match self.clipped(fb) {
            Some((x, y, w, h)) => {
                fb.render_image(
                    &self.img,
                    x,
                    y,
                    w,
                    h,
                    adjust_img_loc(self.x, self.img_x, self.w as u32),
                    adjust_img_loc(self.y, self.img_y, self.h as u32),
                )
            },
            None => (),
        }
    }

    fn drawable_on(&self, fb: &FB) -> (r: bool) {
        match self.clipped(fb) {
            Some((x, y, w, h)) => image_has_samples(
                &self.img,
                adjust_img_loc(self.x, self.img_x, self.w as u32),
                adjust_img_loc(self.y, self.img_y, self.h as u32),
                w - 1,
                h - 1,
            ),
            None => true,
        }
    }

    fn origin(&self) -> (r: (i32, i32)) {
        (self.x, self.y)
    }

    fn slide(&mut self, x: i32, y: i32) {
        self.x = self.x + x;
        self.y = self.y + y;
    }

    fn clipped(&self, fb: &FB) -> (r: Option<(u32, u32, u32, u32)>) {
        clipper(self.x, self.y, self.w, self.h, fb.width(), fb.height())
    }

    /// Replaces the string of the text. `extent` is the measured extent of
    /// the string that the text holds *now*.
    ///
    /// Nothing at all happens if `new_content` is the string that the text
    /// holds. Otherwise the bitmap is made again, from the string that the
    /// text holds when it is called, and only then is `new_content` taken as
    /// the string: the bitmap stays one string behind. If the layout fails
    /// the text keeps its string, its bitmap and its size.
    fn update_text(&mut self, new_content: String, extent: (u32, u32)) -> (r: Result<
        (),
        LayoutError,
    >)
        ensures
            new_content@ == old(self)@.content ==> r is Ok && *final(self) == *old(self),
            new_content@ != old(self)@.content ==> (early_error(
                old(self).font_of(),
                old(self).scale_of(),
                old(self)@.content,
                extent,
                old(self)@.padding as u32,
            ) matches Some(e) ==> r == Err::<(), LayoutError>(e) && final(self)@ == old(self)@),
            new_content@ != old(self)@.content && early_error(
                old(self).font_of(),
                old(self).scale_of(),
                old(self)@.content,
                extent,
                old(self)@.padding as u32,
            ) is None && r is Err ==> r != Err::<(), LayoutError>(LayoutError::BadSize) && r
                != Err::<(), LayoutError>(LayoutError::NoGlyphs) && final(self)@.packer.queue()
                == old(self)@.packer.queue() + entries_of(
                laid_out_glyphs(old(self).font_of(), old(self).scale_of(), old(self)@.content),
            ),
            r is Err ==> final(self)@ == (TextView {
                atlas: final(self)@.atlas,
                packer: final(self)@.packer,
                ..old(self)@
            }),
            final(self)@.atlas.len() == old(self)@.atlas.len(),
            final(self).font_of() == old(self).font_of(),
            final(self).scale_of() == old(self).scale_of(),
            r is Ok && new_content@ != old(self)@.content ==> {
                let t = final(self)@;
                &&& t.content == new_content@
                &&& t.bounds == (
                    old(self)@.bounds.0,
                    old(self)@.bounds.1,
                    padded(extent.0 as int, t.padding),
                    padded(extent.1 as int, t.padding),
                )
                &&& t.color == old(self)@.color
                &&& t.padding == old(self)@.padding
                &&& t.sample == (
                    sample_offset(t.bounds.0, 0, t.bounds.2),
                    sample_offset(t.bounds.1, 0, t.bounds.3),
                )
                &&& rows_have_size(t.rows, t.bounds.2, t.bounds.3)
                &&& t.packer.queue() == Seq::<(usize, Glyph)>::empty()
                &&& rasterized(
                    t.rows,
                    t.bounds.2,
                    t.bounds.3,
                    t.atlas,
                    old(self).font_of(),
                    t.packer,
                    laid_out_glyphs(
                        old(self).font_of(),
                        old(self).scale_of(),
                        old(self)@.content,
                    ),
                    t.color,
                )
            },
    {
        if new_content != self.content {
            match Text::layout_string(
                self.x,
                self.y,
                &self.color,
                &self.content,
                &self.scale,
                extent,
                self.padding,
                &mut self.draw_cache,
                &mut self.texture,
            ) {
                Ok((image, img_x, img_y, w, h)) => {
                    self.content = new_content;
                    self.img_x = img_x;
                    self.img_y = img_y;
                    self.w = w as i32;
                    self.h = h as i32;
                    self.img = image;
                    Ok(())
                },
                Err(e) => Err(e),
            }
        } else {
            Ok(())
        }
    }
}

/// A text that was made on the surface can be drawn wherever it is moved
/// to, on any surface: with no stored offset, what is sampled for the
/// visible part always lies in the bitmap.
pub proof fn lemma_text_without_offset_can_draw(t: TextView, sw: int, sh: int)
    requires
        t.sample == (0int, 0int),
        rows_have_size(t.rows, t.bounds.2, t.bounds.3),
    ensures
        text_can_draw(t, sw, sh),
{
}

/// A moved text keeps its string, its bitmap and its atlas.
pub proof fn lemma_text_moved(t: Text, x: int, y: int)
    requires
        i32::MIN <= x <= i32::MAX,
        i32::MIN <= y <= i32::MAX,
    ensures
        t.moved_to(x, y)@ == (TextView { bounds: (x, y, t@.bounds.2, t@.bounds.3), ..t@ }),
        t.moved_to(x, y).font_of() == t.font_of(),
        t.moved_to(x, y).scale_of() == t.scale_of(),
{
}

} // verus!
