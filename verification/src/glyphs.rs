//! The library's calls into the font crates: `ab_glyph` (fonts and
//! outlines), `glyph_brush_layout` (pen positions) and
//! `glyph_brush_draw_cache` (the packer that assigns each glyph a rectangle
//! of the coverage atlas).
//!
//! Fonts, scales, positioned glyphs and the packer are opaque to the
//! verifier. What a call returns is known by name where it depends on the
//! call's arguments alone: the layout of a string, the size of a glyph's
//! outline, where a packer keeps a glyph. Of the packer's run nothing is
//! known but what it does to its queue: whether it succeeds and which
//! rectangles it assigns is the packer's to say.

use vstd::prelude::*;
use ab_glyph::point;
use ab_glyph::Font;
use ab_glyph::FontVec;
use ab_glyph::Glyph;
use ab_glyph::InvalidFont;
use ab_glyph::PxScale;
use glyph_brush_draw_cache::CacheWriteErr;
use glyph_brush_draw_cache::DrawCache;
use glyph_brush_draw_cache::Rectangle;
use glyph_brush_layout::FontId;
use glyph_brush_layout::GlyphPositioner;
use glyph_brush_layout::Layout;
use glyph_brush_layout::SectionGeometry;
use glyph_brush_layout::SectionGlyph;
use glyph_brush_layout::SectionText;
use crate::atlas::{upload_glyph, AtlasRect, GlyphPlacement};

verus! {

/// `ab_glyph::FontVec`: a parsed font that owns its data.
#[verifier::external_type_specification]
#[verifier::external_body]
pub struct ExFontVec(FontVec);

/// `ab_glyph::InvalidFont`: the error of parsing a font.
#[verifier::external_type_specification]
#[verifier::external_body]
pub struct ExInvalidFont(InvalidFont);

/// `ab_glyph::Glyph`: a glyph of a font at a scale and a position.
#[verifier::external_type_specification]
#[verifier::external_body]
pub struct ExGlyph(Glyph);

/// `ab_glyph::PxScale`: the pixel height of text.
#[verifier::external_type_specification]
#[verifier::external_body]
pub struct ExPxScale(PxScale);

/// `glyph_brush_layout::SectionGlyph`: a glyph with its pen position.
#[verifier::external_type_specification]
#[verifier::external_body]
pub struct ExSectionGlyph(SectionGlyph);

/// `glyph_brush_draw_cache::DrawCache`: the packer, with the rectangles
/// that it has assigned.
#[verifier::external_type_specification]
#[verifier::external_body]
pub struct ExDrawCache(DrawCache);

/// `glyph_brush_draw_cache::CacheWriteErr`: why the packer could not cache
/// what was queued. Its two variants are visible to the verifier.
#[verifier::external_type_specification]
pub struct ExCacheWriteErr(CacheWriteErr);

/// Whether `data` holds a font that `FontVec::try_from_vec` can read: the
/// bytes of a font file, or of a font collection with a first font, whose
/// tables the parser accepts. It depends on the bytes alone.
pub uninterp spec fn is_font(data: Seq<u8>) -> bool;

/// Parses a font file's bytes: `FontVec::try_from_vec`.
///
/// Trusted: parsing succeeds exactly on the bytes that are a font, which is
/// how `is_font` is defined. Nothing is claimed of the font that comes back.
#[verifier::external_body]
pub(crate) fn parse_font(data: Vec<u8>) -> (r: Result<FontVec, InvalidFont>)
    ensures
        r is Ok <==> is_font(data@),
{
    FontVec::try_from_vec(data)
}

/// The glyphs that `GlyphPositioner::calculate_glyphs` lays out for
/// `content` in one font at one scale, from the origin, with the default
/// layout and no bounds: each glyph of the string with its pen position, in
/// reading order. It depends on the font, the scale and the string alone.
pub uninterp spec fn laid_out_glyphs(font: FontVec, scale: PxScale, content: Seq<char>) -> Seq<
    SectionGlyph,
>;

/// The index of the font that a laid-out glyph is of: its field `font_id`.
pub uninterp spec fn font_index(glyph: SectionGlyph) -> usize;

/// The positioned glyph of a laid-out glyph: its field `glyph`.
pub uninterp spec fn glyph_of(glyph: SectionGlyph) -> Glyph;

/// The width and height in pixels of the outline that `Font::outline_glyph`
/// gives for a glyph in a font: those of its `px_bounds`, each cast to an
/// unsigned integer; `None` if the font has no outline for the glyph, as
/// for a space. It depends on the font and the glyph alone.
pub uninterp spec fn outline_size(font: FontVec, glyph: Glyph) -> Option<(u32, u32)>;

/// What the queue of a packer holds: for each glyph that is queued for the
/// next run, in the order they were queued, its font index and the glyph.
pub uninterp spec fn queued(cache: DrawCache) -> Seq<(usize, Glyph)>;

/// Where `DrawCache::rect_for` says that a packer keeps a glyph, in pixels
/// of the atlas, and where the glyph goes in the bitmap; `None` if the
/// packer does not keep the glyph. It depends on what the packer holds and
/// on the glyph alone.
pub uninterp spec fn placed(cache: DrawCache, glyph: SectionGlyph) -> Option<GlyphPlacement>;

/// Whether each of `glyphs` is of the first font, the only one that the
/// packer is ever handed.
pub open spec fn of_first_font(glyphs: Seq<SectionGlyph>) -> bool {
    forall|i: int| 0 <= i < glyphs.len() ==> font_index(#[trigger] glyphs[i]) == 0
}

/// What the queue holds of a laid-out glyph.
pub open spec fn entry_of(glyph: SectionGlyph) -> (usize, Glyph) {
    (font_index(glyph), glyph_of(glyph))
}

/// What the queue holds of each of `glyphs`.
pub open spec fn entries_of(glyphs: Seq<SectionGlyph>) -> Seq<(usize, Glyph)> {
    Seq::new(glyphs.len(), |i: int| entry_of(glyphs[i]))
}

/// The size of the outline of a laid-out glyph in a font, if it has one.
pub open spec fn size_of(font: FontVec, glyph: SectionGlyph) -> Option<(u32, u32)> {
    outline_size(font, glyph_of(glyph))
}

/// Whether the packer can add its margin of one pixel on each side to an
/// outline of this size.
pub open spec fn margin_fits(size: Option<(u32, u32)>) -> bool {
    match size {
        Some((w, h)) => w + 2 <= u32::MAX && h + 2 <= u32::MAX,
        None => true,
    }
}

/// Whether the packer can be run on a queue with one font: each queued
/// glyph is of the first font, and the packer can add its margin to it.
pub open spec fn runnable(font: FontVec, queue: Seq<(usize, Glyph)>) -> bool {
    forall|i: int|
        0 <= i < queue.len() ==> (#[trigger] queue[i]).0 == 0 && margin_fits(
            outline_size(font, queue[i].1),
        )
}

/// A packer with an atlas of 256 by 256: `DrawCache::builder().build()`.
///
/// Trusted: nothing is queued in a new packer.
#[verifier::external_body]
pub(crate) fn new_draw_cache() -> (cache: DrawCache)
    ensures
        queued(cache) == Seq::<(usize, Glyph)>::empty(),
{
    DrawCache::builder().build()
}

/// The glyphs of `content` with their pen positions, laid out from the
/// origin with the default layout and no bounds:
/// `GlyphPositioner::calculate_glyphs`, for one section of text in the font
/// with the index 0.
///
/// Trusted: the result is what `laid_out_glyphs` names, and each glyph
/// carries the font index of its section, which is 0.
#[verifier::external_body]
pub(crate) fn layout_glyphs(font: &FontVec, scale: &PxScale, content: &String) -> (r: Vec<
    SectionGlyph,
>)
    ensures
        r@ == laid_out_glyphs(*font, *scale, content@),
        forall|i: int| 0 <= i < r@.len() ==> font_index(#[trigger] r@[i]) == 0,
{
    let section = SectionText { text: content.as_str(), scale: *scale, font_id: FontId(0) };
    Layout::default().calculate_glyphs(&[font], &SectionGeometry::default(), &[section])
}

/// The size of a glyph's outline in pixels: `Font::outline_glyph`, and of
/// the outline `OutlinedGlyph::px_bounds`, whose width and height are cast
/// to unsigned integers.
///
/// Trusted: the result is what `outline_size` names for the font and the
/// positioned glyph.
#[verifier::external_body]
pub(crate) fn glyph_size(font: &FontVec, glyph: &SectionGlyph) -> (r: Option<(u32, u32)>)
    ensures
        r == outline_size(*font, glyph_of(*glyph)),
{
    match font.outline_glyph(glyph.glyph.clone()) {
        Some(outline) => {
            let bounds = outline.px_bounds();
            Some((bounds.width() as u32, bounds.height() as u32))
        },
        None => None,
    }
}

/// Queues a glyph for the packer's next run: `DrawCache::queue_glyph`, which
/// pushes the glyph's font index and positioned glyph to the end of the
/// queue.
///
/// Trusted: the queue is the queue before with that pair at its end.
#[verifier::external_body]
pub(crate) fn queue_glyph(cache: &mut DrawCache, glyph: &SectionGlyph)
    ensures
        queued(*final(cache)) == queued(*old(cache)).push((font_index(*glyph), glyph_of(*glyph))),
    no_unwind
{
    cache.queue_glyph(glyph.font_id.0, glyph.glyph.clone())
}

/// Runs the packer on what is queued: `DrawCache::cache_queued`. Each
/// rectangle that the packer hands out, with its coverage bytes, goes to
/// `upload_glyph`, which copies it into `texture`.
///
/// The packer is handed one font and looks up the font of each queued glyph
/// by its index, and it adds 2 to the width and to the height of each
/// glyph's outline, as 32-bit integers, before it tests whether the glyph
/// fits. So every queued glyph must be of the first font, and of a size
/// that leaves room for the 2.
///
/// Trusted: on such a queue the run does not panic; `texture` keeps its
/// length, since `upload_glyph` is all that touches it; a run that succeeds
/// empties the queue, and one that fails leaves the queue untouched.
/// Nothing is claimed of when a run succeeds, nor of the rectangles that
/// the packer assigns.
#[verifier::external_body]
pub(crate) fn cache_queued(cache: &mut DrawCache, font: &FontVec, texture: &mut Vec<u8>) -> (r:
    Result<(), CacheWriteErr>)
    requires
        runnable(*font, queued(*old(cache))),
    ensures
        final(texture)@.len() == old(texture)@.len(),
        r is Ok ==> queued(*final(cache)) == Seq::<(usize, Glyph)>::empty(),
        r is Err ==> queued(*final(cache)) == queued(*old(cache)),
    no_unwind
{
    let copy = |rect: Rectangle<u32>, tex_data: &[u8]| {
        upload_glyph(AtlasRect::from_corners(rect.min, rect.max), tex_data, texture)
    };
    match cache.cache_queued(&[font], copy) {
        Ok(_) => Ok(()),
        Err(e) => Err(e),
    }
}

/// Where the packer keeps a glyph, in pixels of the atlas, and where the
/// glyph goes in the bitmap: `DrawCache::rect_for`.
///
/// `rect_for` gives the glyph's rectangle in the atlas in fractions of the
/// atlas's sides. Each corner is brought to pixels with the sides that
/// `DrawCache::dimensions` gives, and cast to an unsigned integer. The
/// position in the bitmap comes in pixels, and is cast.
///
/// Trusted: the result is what `placed` names.
#[verifier::external_body]
pub(crate) fn glyph_placement(cache: &DrawCache, glyph: &SectionGlyph) -> (r: Option<
    GlyphPlacement,
>)
    ensures
        r == placed(*cache, *glyph),
{
    let (tex, px) = cache.rect_for(glyph.font_id.0, &glyph.glyph)?;
    let (w, h) = cache.dimensions();
    let side = point((w as u16).into(), (h as u16).into());
    let rect = AtlasRect {
        min_x: (tex.min.x * side.x) as u32,
        min_y: (tex.min.y * side.y) as u32,
        max_x: (tex.max.x * side.x) as u32,
        max_y: (tex.max.y * side.y) as u32,
    };
    Some(GlyphPlacement { tex: rect, px_x: px.min.x as u32, px_y: px.min.y as u32 })
}

/// The packer of one text, with the text's font: it assigns each glyph that
/// is queued a rectangle of the text's atlas. It is made with nothing
/// queued, and is only ever handed glyphs of its font that it can take.
pub struct Packer {
    cache: DrawCache,
    font: FontVec,
}

impl Packer {
    #[verifier::type_invariant]
    spec fn queue_is_runnable(self) -> bool {
        runnable(self.font, queued(self.cache))
    }

    /// What is queued for the next run: of each glyph, in order, its font
    /// index and the positioned glyph.
    pub closed spec fn queue(&self) -> Seq<(usize, Glyph)> {
        queued(self.cache)
    }

    /// The font whose glyphs the packer takes.
    pub closed spec fn font_of(&self) -> FontVec {
        self.font
    }

    /// Where the packer keeps a glyph, in pixels of the atlas, and where the
    /// glyph goes in the bitmap, if the packer keeps the glyph.
    pub closed spec fn placement_of(&self, glyph: SectionGlyph) -> Option<GlyphPlacement> {
        placed(self.cache, glyph)
    }

    /// A packer for the glyphs of `font`, with nothing queued.
    pub fn new(font: FontVec) -> (p: Packer)
        ensures
            p.queue() == Seq::<(usize, Glyph)>::empty(),
            p.font_of() == font,
    {
        Packer { cache: new_draw_cache(), font }
    }

    /// The font whose glyphs the packer takes.
    pub fn font(&self) -> (r: &FontVec)
        ensures
            *r == self.font_of(),
    {
        &self.font
    }

    /// The glyphs of `content` at `scale` in the packer's font, with their
    /// pen positions.
    pub(crate) fn layout(&self, scale: &PxScale, content: &String) -> (r: Vec<SectionGlyph>)
        ensures
            r@ == laid_out_glyphs(self.font_of(), *scale, content@),
            of_first_font(r@),
    {
        layout_glyphs(&self.font, scale, content)
    }

    /// The size of a glyph's outline in the packer's font, if it has one.
    pub(crate) fn size(&self, glyph: &SectionGlyph) -> (r: Option<(u32, u32)>)
        ensures
            r == size_of(self.font_of(), *glyph),
    {
        glyph_size(&self.font, glyph)
    }

    /// Queues `glyphs` for the next run, in order, behind what is queued.
    pub(crate) fn queue_all(&mut self, glyphs: &Vec<SectionGlyph>)
        requires
            of_first_font(glyphs@),
            forall|i: int|
                0 <= i < glyphs@.len() ==> margin_fits(
                    size_of(old(self).font_of(), #[trigger] glyphs@[i]),
                ),
        ensures
            final(self).queue() == old(self).queue() + entries_of(glyphs@),
            final(self).font_of() == old(self).font_of(),
    {
        let mut i: usize = 0;
        while i < glyphs.len()
            invariant
                i <= glyphs.len(),
                of_first_font(glyphs@),
                forall|j: int|
                    0 <= j < glyphs@.len() ==> margin_fits(
                        size_of(old(self).font_of(), #[trigger] glyphs@[j]),
                    ),
                self.font_of() == old(self).font_of(),
                self.queue() == old(self).queue() + entries_of(glyphs@).subrange(0, i as int),
            decreases glyphs.len() - i,
        {
            proof {
                use_type_invariant(&*self);
                assert(margin_fits(size_of(self.font_of(), glyphs@[i as int])));
            }
            queue_glyph(&mut self.cache, &glyphs[i]);
            proof {
                assert(entries_of(glyphs@).subrange(0, i as int + 1) =~= entries_of(
                    glyphs@,
                ).subrange(0, i as int).push(entry_of(glyphs@[i as int])));
            }
            i = i + 1;
        }
        proof {
            assert(entries_of(glyphs@).subrange(0, glyphs@.len() as int) =~= entries_of(glyphs@));
        }
    }

    /// Runs the packer on what is queued, copying the coverage of each glyph
    /// that it newly caches into `texture`.
    pub(crate) fn run(&mut self, texture: &mut Vec<u8>) -> (r: Result<(), CacheWriteErr>)
        ensures
            final(texture)@.len() == old(texture)@.len(),
            final(self).font_of() == old(self).font_of(),
            r is Ok ==> final(self).queue() == Seq::<(usize, Glyph)>::empty(),
            r is Err ==> final(self).queue() == old(self).queue(),
    {
        proof {
            use_type_invariant(&*self);
        }
        cache_queued(&mut self.cache, &self.font, texture)
    }

    /// Where the packer keeps a glyph and where the glyph goes in the
    /// bitmap, if the packer keeps the glyph.
    pub(crate) fn placement(&self, glyph: &SectionGlyph) -> (r: Option<GlyphPlacement>)
        ensures
            r == self.placement_of(*glyph),
    {
        glyph_placement(&self.cache, glyph)
    }
}

} // verus!
