//! Colors with 8-bit channels, their 16-bit RGB565 form, and alpha blending.

use vstd::prelude::*;

verus! {

/// A color with 8-bit red, green, blue and alpha channels.
///
/// An alpha of 255 is fully opaque, an alpha of 0 fully transparent.
#[derive(Clone, Copy, Debug, PartialEq, Eq, Structural)]
pub struct Color {
    pub r: u8,
    pub g: u8,
    pub b: u8,
    pub a: u8,
}

/// An 8-bit channel scaled down linearly to the range `0..=max`.
pub open spec fn scale_down(c: int, max: int) -> int {
    (max * c) / 255
}

/// A channel in the range `0..=max` scaled up linearly to 8 bits.
pub open spec fn scale_up(c: int, max: int) -> int {
    (c * 255) / max
}

/// The RGB565 word of a color: five bits of red, six of green, five of blue.
/// The alpha channel is dropped.
pub open spec fn pack16(c: Color) -> int {
    scale_down(c.r as int, 31) * 2048 + scale_down(c.g as int, 63) * 32 + scale_down(
        c.b as int,
        31,
    )
}

/// The opaque color that an RGB565 word stands for.
pub open spec fn unpack16(p: int) -> Color {
    Color {
        r: scale_up(p / 2048, 31) as u8,
        g: scale_up((p / 32) % 64, 63) as u8,
        b: scale_up(p % 32, 31) as u8,
        a: 255,
    }
}

/// One channel of `addition`, weighted by `alpha`, over one channel of `base`:
/// `base * (1 - alpha/255) + addition * alpha/255`, rounded to the nearest
/// integer.
pub open spec fn blend_channel(base: int, addition: int, alpha: int) -> int {
    (base * (255 - alpha) + addition * alpha + 127) / 255
}

/// `addition` composited over `base`.
///
/// An opaque addition replaces the base. Otherwise each color channel is
/// blended by the addition's alpha, and the result keeps the alpha of the
/// *base*, not a blended one: repeated composites over an opaque background
/// stay opaque.
pub open spec fn composite(base: Color, addition: Color) -> Color {
    if addition.a == 255 {
        Color { r: addition.r, g: addition.g, b: addition.b, a: 255 }
    } else {
        Color {
            r: blend_channel(base.r as int, addition.r as int, addition.a as int) as u8,
            g: blend_channel(base.g as int, addition.g as int, addition.a as int) as u8,
            b: blend_channel(base.b as int, addition.b as int, addition.a as int) as u8,
            a: base.a,
        }
    }
}

/// Whether one trip through the 16-bit form and back is stable for `c`: the
/// color that comes back packs to the same word again.
pub open spec fn stable_under_packing(c: Color) -> bool {
    &&& c.r <= 8 || c.r == 255
    &&& c.g <= 4 || 85 <= c.g <= 89 || 170 <= c.g <= 174 || c.g == 255
    &&& c.b <= 8 || c.b == 255
}

/// A blended channel never leaves the 8-bit range.
pub proof fn lemma_blend_channel_bounds(base: int, addition: int, alpha: int)
    requires
        0 <= base <= 255,
        0 <= addition <= 255,
        0 <= alpha <= 255,
    ensures
        0 <= blend_channel(base, addition, alpha) <= 255,
        0 <= base * (255 - alpha) <= 65025,
        0 <= addition * alpha <= 65025,
        base * (255 - alpha) + addition * alpha <= 65025,
{
    assert(0 <= base * (255 - alpha) <= 255 * (255 - alpha)) by (nonlinear_arith)
        requires
            0 <= base <= 255,
            0 <= 255 - alpha,
    ;
    assert(0 <= addition * alpha <= 255 * alpha) by (nonlinear_arith)
        requires
            0 <= addition <= 255,
            0 <= alpha,
    ;
}

/// A 5-bit or 6-bit channel comes back out of the fields of an RGB565 word.
proof fn lemma_word_fields(r5: int, g6: int, b5: int)
    requires
        0 <= r5 <= 31,
        0 <= g6 <= 63,
        0 <= b5 <= 31,
    ensures
        0 <= r5 * 2048 + g6 * 32 + b5 <= 0xffff,
        (r5 * 2048 + g6 * 32 + b5) / 2048 == r5,
        ((r5 * 2048 + g6 * 32 + b5) / 32) % 64 == g6,
        (r5 * 2048 + g6 * 32 + b5) % 32 == b5,
{
    let p = r5 * 2048 + g6 * 32 + b5;
    assert(p / 32 == r5 * 64 + g6);
}

/// The packed form of any color fits in 16 bits, and its three fields are the
/// scaled channels.
pub proof fn lemma_pack16_fields(c: Color)
    ensures
        0 <= pack16(c) <= 0xffff,
        pack16(c) / 2048 == scale_down(c.r as int, 31),
        (pack16(c) / 32) % 64 == scale_down(c.g as int, 63),
        pack16(c) % 32 == scale_down(c.b as int, 31),
        0 <= scale_down(c.r as int, 31) <= 31,
        0 <= scale_down(c.g as int, 63) <= 63,
        0 <= scale_down(c.b as int, 31) <= 31,
{
    lemma_word_fields(
        scale_down(c.r as int, 31),
        scale_down(c.g as int, 63),
        scale_down(c.b as int, 31),
    );
}

/// Scaling a 5-bit channel up and down again gives the channel back only at
/// the two ends of the range; everywhere else it comes back one lower.
proof fn lemma_down_up_5(v: int)
    requires
        0 <= v <= 31,
    ensures
        scale_down(scale_up(v, 31), 31) == if v == 0 || v == 31 { v } else { v - 1 },
        0 <= scale_up(v, 31) <= 255,
{
    let q = (v * 255) / 31;
    assert(q == 8 * v + (7 * v) / 31);
    assert(31 * q == 255 * v - (7 * v) % 31);
}

/// Scaling a 6-bit channel up and down again gives the channel back only at
/// multiples of 21; everywhere else it comes back one lower.
proof fn lemma_down_up_6(v: int)
    requires
        0 <= v <= 63,
    ensures
        scale_down(scale_up(v, 63), 63) == if v % 21 == 0 { v } else { v - 1 },
        0 <= scale_up(v, 63) <= 255,
{
    let q = (v * 255) / 63;
    assert(q == 4 * v + (3 * v) / 63);
    assert(63 * q == 255 * v - (3 * v) % 63);
}

/// An opaque addition replaces the base outright, with an alpha of 255,
/// whatever the base is.
pub proof fn lemma_opaque_addition_replaces_base(base: Color, addition: Color)
    requires
        addition.a == 255,
    ensures
        composite(base, addition) == (Color { r: addition.r, g: addition.g, b: addition.b, a: 255 }),
        composite(base, addition) == addition,
{
}

/// A fully transparent addition leaves the base as it is, so the base also
/// packs to the same 16-bit word before and after.
pub proof fn lemma_transparent_addition_keeps_base(base: Color, addition: Color)
    requires
        addition.a == 0,
    ensures
        composite(base, addition) == base,
        pack16(composite(base, addition)) == pack16(base),
{
    assert(blend_channel(base.r as int, addition.r as int, 0) == base.r);
    assert(blend_channel(base.g as int, addition.g as int, 0) == base.g);
    assert(blend_channel(base.b as int, addition.b as int, 0) == base.b);
}

/// Packing and unpacking loses the low bits of each channel. For a color
/// that is `stable_under_packing` a second trip through the 16-bit form
/// changes nothing more: the first trip reaches a fixed point.
pub proof fn lemma_round_trip_fixed_point(c: Color)
    requires
        stable_under_packing(c),
    ensures
        unpack16(pack16(unpack16(pack16(c)))) == unpack16(pack16(c)),
{
    lemma_round_trip_stable_iff(c);
}

/// For every other color a second trip through the 16-bit form loses more:
/// a channel that came back from the first trip between the ends of its
/// range comes back one step lower from the second.
pub proof fn lemma_round_trip_loses_more(c: Color)
    requires
        !stable_under_packing(c),
    ensures
        unpack16(pack16(unpack16(pack16(c)))) != unpack16(pack16(c)),
{
    lemma_round_trip_stable_iff(c);
}

/// A second trip through the 16-bit form changes nothing exactly for the
/// colors that are `stable_under_packing`.
proof fn lemma_round_trip_stable_iff(c: Color)
    ensures
        stable_under_packing(c) <==> unpack16(pack16(unpack16(pack16(c)))) == unpack16(pack16(c)),
{
    lemma_pack16_fields(c);
    let once = unpack16(pack16(c));
    lemma_pack16_fields(once);
    let twice = unpack16(pack16(once));
    let r5 = scale_down(c.r as int, 31);
    let g6 = scale_down(c.g as int, 63);
    let b5 = scale_down(c.b as int, 31);
    lemma_down_up_5(r5);
    lemma_down_up_6(g6);
    lemma_down_up_5(b5);
    assert(once.r == scale_up(r5, 31));
    assert(once.g == scale_up(g6, 63));
    assert(once.b == scale_up(b5, 31));
    let r5b = scale_down(once.r as int, 31);
    let g6b = scale_down(once.g as int, 63);
    let b5b = scale_down(once.b as int, 31);
    assert(twice.r == scale_up(r5b, 31));
    assert(twice.g == scale_up(g6b, 63));
    assert(twice.b == scale_up(b5b, 31));
    lemma_scale_up_increases(r5b, r5, 31);
    lemma_scale_up_increases(g6b, g6, 63);
    lemma_scale_up_increases(b5b, b5, 31);
    assert(r5 == 0 || r5 == 31 <==> c.r <= 8 || c.r == 255);
    assert(b5 == 0 || b5 == 31 <==> c.b <= 8 || c.b == 255);
    assert(g6 % 21 == 0 <==> c.g <= 4 || 85 <= c.g <= 89 || 170 <= c.g <= 174 || c.g == 255);
}

/// Scaling up keeps distinct channels distinct.
proof fn lemma_scale_up_increases(lo: int, hi: int, max: int)
    requires
        0 <= lo <= hi <= max,
        max == 31 || max == 63,
    ensures
        lo < hi ==> scale_up(lo, max) < scale_up(hi, max),
{
    if max == 31 {
        assert((lo * 255) / 31 + 8 <= ((lo + 1) * 255) / 31);
        assert(lo < hi ==> ((lo + 1) * 255) / 31 <= (hi * 255) / 31);
    } else {
        assert((lo * 255) / 63 + 4 <= ((lo + 1) * 255) / 63);
        assert(lo < hi ==> ((lo + 1) * 255) / 63 <= (hi * 255) / 63);
    }
}

/// `sp` cut off at 255, as a byte.
fn or_255(sp: u16) -> (r: u8)
    ensures
        r == if sp > 255 { 255int } else { sp as int },
{
    if sp > 255 {
        255
    } else {
        sp as u8
    }
}

/// An 8-bit channel as a 6-bit one.
fn u8_to_6b(c: u8) -> (r: u8)
    ensures
        r == scale_down(c as int, 63),
        r <= 63,
{
    let wide: u16 = 63 * (c as u16) / 255;
    wide as u8
}

/// An 8-bit channel as a 5-bit one.
fn u8_to_5b(c: u8) -> (r: u8)
    ensures
        r == scale_down(c as int, 31),
        r <= 31,
{
    let wide: u16 = 31 * (c as u16) / 255;
    wide as u8
}

/// A channel of the range `0..=factor` as an 8-bit one.
fn x_to_8b(c: u8, factor: u8) -> (r: u8)
    requires
        0 < factor,
        c <= factor,
    ensures
        r == scale_up(c as int, factor as int),
{
    let wide: u16 = (c as u16) * 255 / (factor as u16);
    assert(wide <= 255) by (nonlinear_arith)
        requires
            wide == (c as int) * 255 / (factor as int),
            0 < factor,
            c <= factor,
    ;
    wide as u8
}

/// One blended channel.
fn add_c(base: u8, addition: u8, alpha: u8) -> (r: u8)
    ensures
        r == blend_channel(base as int, addition as int, alpha as int),
{
    proof {
        lemma_blend_channel_bounds(base as int, addition as int, alpha as int);
    }
    let kept: u32 = (base as u32) * (255 - alpha as u32);
    let added: u32 = (addition as u32) * (alpha as u32);
    let c: u32 = (kept + added + 127) / 255;
    or_255(c as u16)
}

impl Color {
    /// An opaque color.
    pub fn new(r: u8, g: u8, b: u8) -> (c: Color)
        ensures
            c == (Color { r, g, b, a: 255 }),
    {
        Color { r, g, b, a: 255 }
    }

    /// A color with the given alpha.
    pub fn new_rgba(r: u8, g: u8, b: u8, a: u8) -> (c: Color)
        ensures
            c == (Color { r, g, b, a }),
    {
        Color { r, g, b, a }
    }

    /// The RGB565 word of this color.
    pub fn to_16b(&self) -> (p: u16)
        ensures
            p == pack16(*self),
    {
        let r: u8 = u8_to_5b(self.r);
        let g: u8 = u8_to_6b(self.g);
        let b: u8 = u8_to_5b(self.b);
        let rgb565: u16 = (r as u16) * 2048 + (g as u16) * 32 + (b as u16);
        rgb565
    }

    /// The opaque color of an RGB565 word.
    pub fn from_16b(color: u16) -> (c: Color)
        ensures
            c == unpack16(color as int),
    {
        let b5: u8 = (color % 32) as u8;
        let g6: u8 = ((color / 32) % 64) as u8;
        let r5: u8 = (color / 2048) as u8;
        let r: u8 = x_to_8b(r5, 31);
        let g: u8 = x_to_8b(g6, 63);
        let b: u8 = x_to_8b(b5, 31);
        Color::new(r, g, b)
    }

    /// `color` composited over this color.
    pub fn add(&self, color: &Color) -> (c: Color)
        ensures
            c == composite(*self, *color),
            color.a == 255 ==> c == (Color { r: color.r, g: color.g, b: color.b, a: 255 }),
            color.a == 0 ==> c == *self,
    {
        if color.a == 255 {
            return Color::new(color.r, color.g, color.b);
        }
        let r: u8 = add_c(self.r, color.r, color.a);
        let g: u8 = add_c(self.g, color.g, color.a);
        let b: u8 = add_c(self.b, color.b, color.a);
        proof {
            lemma_transparent_addition_keeps_base(*self, Color { a: 0, ..*color });
        }
        Color::new_rgba(r, g, b, self.a)
    }
}

} // verus!
