//! Clipping of object rectangles against the surface.
//!
//! An object sits at a signed position, possibly off the surface, with a
//! signed size. What is drawn of it is the part of its rectangle that lies on
//! the surface. Every drawable resolves its visible part through [`clipper`].

use vstd::prelude::*;

verus! {

/// A rectangle in surface space: left edge, top edge, width, height.
pub type Bounds = (int, int, int, int);

/// The part of the span `[origin, origin + len)` that lies in `[0, extent)`,
/// as start and length, if it is not empty.
pub open spec fn visible_span(origin: int, len: int, extent: int) -> Option<(int, int)> {
    let lo = if origin < 0 { 0 } else { origin };
    let hi = if origin + len > extent { extent } else { origin + len };
    if hi - lo >= 1 {
        Some((lo, hi - lo))
    } else {
        None
    }
}

/// The visible part of the object rectangle `(x, y, w, h)` on a surface of
/// `sw` by `sh` pixels: each axis is resolved on its own, and the object is
/// visible only if both are.
pub open spec fn clip(x: int, y: int, w: int, h: int, sw: int, sh: int) -> Option<Bounds> {
    match (visible_span(x, w, sw), visible_span(y, h, sh)) {
        (Some((cx, cw)), Some((cy, ch))) => Some((cx, cy, cw, ch)),
        _ => None,
    }
}

/// Whether the pixel `(px, py)` lies in the rectangle `(x, y, w, h)`.
pub open spec fn in_rect(px: int, py: int, x: int, y: int, w: int, h: int) -> bool {
    x <= px < x + w && y <= py < y + h
}

/// The offset into an image of `max` pixels along one axis at which sampling
/// starts, for an object at `pt` whose stored offset is `img_pt`: what hangs
/// off the near edge of the surface is skipped, and the offset stays inside
/// the image.
pub open spec fn sample_offset(pt: int, img_pt: int, max: int) -> int {
    let moved = if pt < 0 { img_pt - pt } else { img_pt };
    if moved >= max {
        max - 1
    } else {
        moved
    }
}

/// A rectangle has no visible part exactly if it shares no pixel with the
/// surface.
pub proof fn lemma_clip_none_iff_outside(x: int, y: int, w: int, h: int, sw: int, sh: int)
    ensures
        clip(x, y, w, h, sw, sh) is None <==> forall|px: int, py: int|
            !(#[trigger] in_rect(px, py, x, y, w, h) && in_rect(px, py, 0, 0, sw, sh)),
{
    if clip(x, y, w, h, sw, sh) is Some {
        let (cx, cy, cw, ch) = clip(x, y, w, h, sw, sh)->0;
        assert(in_rect(cx, cy, x, y, w, h) && in_rect(cx, cy, 0, 0, sw, sh));
    }
}

/// The visible part of a rectangle is exactly what the rectangle and the
/// surface have in common; so it lies within both.
pub proof fn lemma_clip_is_intersection(x: int, y: int, w: int, h: int, sw: int, sh: int)
    requires
        clip(x, y, w, h, sw, sh) is Some,
    ensures
        ({
            let (cx, cy, cw, ch) = clip(x, y, w, h, sw, sh)->0;
            &&& 0 <= cx && cx + cw <= sw && 0 <= cy && cy + ch <= sh
            &&& x <= cx && cx + cw <= x + w && y <= cy && cy + ch <= y + h
            &&& cw >= 1 && ch >= 1
            &&& forall|px: int, py: int|
                in_rect(px, py, cx, cy, cw, ch) <==> (#[trigger] in_rect(px, py, x, y, w, h)
                    && in_rect(px, py, 0, 0, sw, sh))
        }),
{
}

/// Clipping what was already clipped against the same surface changes
/// nothing.
pub proof fn lemma_clip_idempotent(x: int, y: int, w: int, h: int, sw: int, sh: int)
    requires
        clip(x, y, w, h, sw, sh) is Some,
    ensures
        ({
            let (cx, cy, cw, ch) = clip(x, y, w, h, sw, sh)->0;
            clip(cx, cy, cw, ch, sw, sh) == Some((cx, cy, cw, ch))
        }),
{
}

/// The visible part of an object that is drawn at `(ix, iy)` with size
/// `(iw, ih)` on a surface of `fw` by `fh` pixels, or `None` where nothing of
/// it is visible.
pub fn clipper(ix: i32, iy: i32, iw: i32, ih: i32, fw: u32, fh: u32) -> (r: Option<
    (u32, u32, u32, u32),
>)
    ensures
        match clip(ix as int, iy as int, iw as int, ih as int, fw as int, fh as int) {
            Some((x, y, w, h)) => r == Some((x as u32, y as u32, w as u32, h as u32)) && 0 <= x
                <= i32::MAX && 0 <= y <= i32::MAX && 1 <= w <= i32::MAX && 1 <= h <= i32::MAX,
            None => r is None,
        },
{
    let x: i64 = if ix < 0 {
        0
    } else {
        ix as i64
    };
    let mut w: i64 = if ix < 0 {
        iw as i64 + ix as i64
    } else {
        iw as i64
    };
    if ix >= 0 && ix as i64 >= fw as i64 {
        return None;
    }
    if x + w > fw as i64 {
        w = fw as i64 - x;
    }
    let y: i64 = if iy < 0 {
        0
    } else {
        iy as i64
    };
    let mut h: i64 = if iy < 0 {
        ih as i64 + iy as i64
    } else {
        ih as i64
    };
    if iy >= 0 && iy as i64 >= fh as i64 {
        return None;
    }
    if y + h > fh as i64 {
        h = fh as i64 - y;
    }
    if w < 1 || h < 1 {
        return None;
    }
    Some((x as u32, y as u32, w as u32, h as u32))
}

/// Where sampling of an image of `max` pixels along one axis starts, for an
/// object at `pt` with the stored offset `img_pt`.
pub fn adjust_img_loc(pt: i32, img_pt: u32, max: u32) -> (r: u32)
    requires
        max >= 1,
    ensures
        r == sample_offset(pt as int, img_pt as int, max as int),
        r < max,
{
    let moved: i64 = if pt < 0 {
        img_pt as i64 - pt as i64
    } else {
        img_pt as i64
    };
    if moved >= max as i64 {
        max - 1
    } else {
        moved as u32
    }
}

} // verus!
