//! Pure color model: hue/saturation/value to red/green/blue conversion.

use vstd::prelude::*;

verus! {

use vstd::arithmetic::div_mod::lemma_add_mod_noop;
use vstd::arithmetic::div_mod::lemma_div_is_ordered;
use vstd::arithmetic::div_mod::lemma_div_multiples_vanish;

/// One LED color: three 8-bit channels, an immutable value type.
#[derive(Clone, Copy, PartialEq, Eq, Structural, Debug)]
pub struct Color {
    pub r: u8,
    pub g: u8,
    pub b: u8,
}

/// Distance of hue `h` from the nearest odd multiple of 60 degrees,
/// folded over a 120-degree period; ranges over 0..=60.
pub open spec fn hue_dist(h: int) -> int {
    let m = h % 120;
    if m <= 60 {
        60 - m
    } else {
        m - 60
    }
}

/// The channel that carries the full value component, scaled to 0..=255.
pub open spec fn chan_hi(v: int) -> int {
    v
}

/// The channel that carries only the value offset (value minus chroma),
/// scaled to 0..=255 and truncated.
pub open spec fn chan_lo(s: int, v: int) -> int {
    v * (255 - s) / 255
}

/// The channel that carries the intermediate component plus the value
/// offset, scaled to 0..=255 and truncated.
pub open spec fn chan_mid(h: int, s: int, v: int) -> int {
    (v * s * (60 - hue_dist(h)) + v * (255 - s) * 60) / (255int * 60)
}

/// Standard HSV sector decomposition: which of the three channel levels
/// (full, intermediate, offset-only) lands on (red, green, blue) depends
/// on the 60-degree sector of the hue.
pub open spec fn hsv_rgb_spec(h: int, s: int, v: int) -> (int, int, int)
    recommends
        0 <= h < 360,
        0 <= s <= 255,
        0 <= v <= 255,
{
    let hi = chan_hi(v);
    let lo = chan_lo(s, v);
    let mid = chan_mid(h, s, v);
    if h / 60 == 0 {
        (hi, mid, lo)
    } else if h / 60 == 1 {
        (mid, hi, lo)
    } else if h / 60 == 2 {
        (lo, hi, mid)
    } else if h / 60 == 3 {
        (lo, mid, hi)
    } else if h / 60 == 4 {
        (mid, lo, hi)
    } else {
        (hi, lo, mid)
    }
}

/// The result of the sector decomposition packed back into a color. For
/// inputs in range every channel lies in 0..=255, so the narrowing casts
/// are exact.
pub open spec fn hsv_color(h: int, s: int, v: int) -> Color {
    let (r, g, b) = hsv_rgb_spec(h, s, v);
    Color { r: r as u8, g: g as u8, b: b as u8 }
}

/// Deterministic, pure, total HSV-to-RGB conversion. The hue is taken
/// modulo 360, so every input is valid; channels are scaled to 0..=255
/// and truncated, never rounded.
pub fn hsv_to_rgb(h: u16, s: u8, v: u8) -> (c: Color)
    ensures
        c == hsv_color((h % 360) as int, s as int, v as int),
        c.r as int == hsv_rgb_spec((h % 360) as int, s as int, v as int).0,
        c.g as int == hsv_rgb_spec((h % 360) as int, s as int, v as int).1,
        c.b as int == hsv_rgb_spec((h % 360) as int, s as int, v as int).2,
{
    let h: u16 = h % 360;
    let hm: u16 = h % 120;
    let d: u32 = if hm <= 60 {
        (60 - hm) as u32
    } else {
        (hm - 60) as u32
    };
    let vu: u32 = v as u32;
    let su: u32 = s as u32;

    proof {
        assert(vu * (255 - su) <= 255 * 255) by (nonlinear_arith)
            requires
                vu <= 255,
                su <= 255,
        ;
        assert(vu * su <= 255 * 255) by (nonlinear_arith)
            requires
                vu <= 255,
                su <= 255,
        ;
        assert(vu * su * (60 - d) <= 255 * 255 * 60) by (nonlinear_arith)
            requires
                vu <= 255,
                su <= 255,
                d <= 60,
        ;
        assert(vu * (255 - su) * 60 <= 255 * 255 * 60) by (nonlinear_arith)
            requires
                vu <= 255,
                su <= 255,
        ;
        assert(vu * su * (60 - d) + vu * (255 - su) * 60 <= vu * 15300) by (nonlinear_arith)
            requires
                su <= 255,
                d <= 60,
        ;
        lemma_div_is_ordered(
            vu * su * (60 - d) + vu * (255 - su) * 60,
            vu * 15300,
            15300,
        );
        lemma_div_multiples_vanish(vu as int, 15300);
        lemma_div_is_ordered(vu * (255 - su), 255int * 255, 255);
    }

    let hi: u32 = vu;
    let lo: u32 = vu * (255 - su) / 255;
    let mid: u32 = (vu * su * (60 - d) + vu * (255 - su) * 60) / (255 * 60);

    assert(lo <= 255);
    assert(mid <= 255);
    assert(d == hue_dist(h as int));

    let sector: u16 = h / 60;
    if sector == 0 {
        Color { r: hi as u8, g: mid as u8, b: lo as u8 }
    } else if sector == 1 {
        Color { r: mid as u8, g: hi as u8, b: lo as u8 }
    } else if sector == 2 {
        Color { r: lo as u8, g: hi as u8, b: mid as u8 }
    } else if sector == 3 {
        Color { r: lo as u8, g: mid as u8, b: hi as u8 }
    } else if sector == 4 {
        Color { r: mid as u8, g: lo as u8, b: hi as u8 }
    } else {
        Color { r: hi as u8, g: lo as u8, b: mid as u8 }
    }
}

/// A saturation of zero yields a gray color: all three channels equal the
/// value channel, whatever the hue.
pub proof fn lemma_grayscale(h: int, v: int)
    requires
        0 <= v <= 255,
    ensures
        hsv_rgb_spec(h, 0, v).0 == v,
        hsv_rgb_spec(h, 0, v).1 == v,
        hsv_rgb_spec(h, 0, v).2 == v,
{
    assert(v * (255 - 0) / 255 == v) by (nonlinear_arith)
        requires
            0 <= v,
    ;
    assert((v * 0 * (60 - hue_dist(h)) + v * (255 - 0) * 60) / (255int * 60) == v) by (nonlinear_arith)
        requires
            0 <= v,
    ;
}

/// The hue-wheel offset of palette slot `j` (three slots, spread a third
/// of the identity space apart).
pub open spec fn palette_offset(j: int) -> int {
    if j == 0 {
        0
    } else if j == 1 {
        3333
    } else {
        6666
    }
}

/// The scalar that palette slot derivation reduces an identity to.
pub open spec fn palette_scalar(id: int, offset: int) -> int {
    (id + offset) % 9999
}

/// One palette slot for identity `id`: hue spread over 0..=358,
/// saturation over 150..=254, value over 15..=54, then converted through
/// the HSV sector decomposition.
pub open spec fn palette_color(id: int, offset: int) -> Color {
    let x = palette_scalar(id, offset);
    hsv_color(x * 359 / 9999, 150 + x * 105 / 9999, 15 + x * 40 / 9999)
}

/// `s` is exactly the three-color palette that identity `id` maps to.
pub open spec fn is_user_palette(id: int, s: Seq<Color>) -> bool {
    &&& s.len() == 3
    &&& forall|j: int| 0 <= j < 3 ==> #[trigger] s[j] == palette_color(id, palette_offset(j))
}

/// One palette slot: reduce the identity, spread hue, saturation and
/// value over their fixed bands, and convert.
fn palette_entry(input: u32, offset: u32) -> (c: Color)
    requires
        offset <= 6666,
    ensures
        c == palette_color(input as int, offset as int),
{
    let x: u32 = (input % 9999 + offset) % 9999;
    proof {
        lemma_add_mod_noop(input as int, offset as int, 9999);
        assert(offset as int % 9999 == offset as int);
    }
    let h: u16 = (x * 359 / 9999) as u16;
    let s: u8 = (150 + x * 105 / 9999) as u8;
    let v: u8 = (15 + x * 40 / 9999) as u8;
    assert(h < 360);
    assert(h as int % 360 == h as int);
    hsv_to_rgb(h, s, v)
}

/// The deterministic three-color palette of identity `input`: the same
/// identity always yields the same three colors, and identities far
/// apart land elsewhere on the hue wheel.
pub fn user_colors(input: u32) -> (r: Vec<Color>)
    ensures
        is_user_palette(input as int, r@),
{
    let mut colors: Vec<Color> = Vec::new();
    colors.push(palette_entry(input, 0));
    colors.push(palette_entry(input, 3333));
    colors.push(palette_entry(input, 6666));
    colors
}

/// Palette derivation is deterministic: any two sequences that both
/// satisfy the palette contract for one identity are equal.
pub proof fn lemma_palette_deterministic(id: int, s1: Seq<Color>, s2: Seq<Color>)
    requires
        is_user_palette(id, s1),
        is_user_palette(id, s2),
    ensures
        s1 == s2,
{
    assert forall|j: int| 0 <= j < 3 implies s1[j] == s2[j] by {
        assert(s1[j] == palette_color(id, palette_offset(j)));
        assert(s2[j] == palette_color(id, palette_offset(j)));
    }
    assert(s1 =~= s2);
}

} // verus!
