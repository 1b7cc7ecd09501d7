//! Colours and the hue-saturation-value model.
use vstd::prelude::*;

verus! {

/// An RGBA colour with 8-bit channels.
#[derive(Clone, Copy, Debug, PartialEq, Eq, Structural)]
pub struct Color {
    pub r: u8,
    pub g: u8,
    pub b: u8,
    pub a: u8,
}

/// A fraction in thousandths turned into a channel value, rounded down.
pub open spec fn channel(x: int) -> int {
    x * 255 / 1000
}

/// Red, green and blue in thousandths for hue `h` (wrapped modulo one turn),
/// saturation `s` and value `v`, all in thousandths.
pub open spec fn hsv_fractions(h: int, s: int, v: int) -> (int, int, int) {
    let h6 = (h % 1000) * 6;
    let sector = h6 / 1000;
    let f = h6 % 1000;
    let p = v * (1000 - s) / 1000;
    let q = v * (1000 - f * s / 1000) / 1000;
    let t = v * (1000 - (1000 - f) * s / 1000) / 1000;
    if sector == 0 {
        (v, t, p)
    } else if sector == 1 {
        (q, v, p)
    } else if sector == 2 {
        (p, v, t)
    } else if sector == 3 {
        (p, q, v)
    } else if sector == 4 {
        (t, p, v)
    } else {
        (v, p, q)
    }
}

/// The opaque colour for hue, saturation and value.
pub open spec fn hsv_color(h: int, s: int, v: int) -> Color {
    let (r, g, b) = hsv_fractions(h, s, v);
    Color { r: channel(r) as u8, g: channel(g) as u8, b: channel(b) as u8, a: 255 }
}

proof fn lemma_fraction_bound(v: int, k: int)
    requires
        0 <= v <= 1000,
        0 <= k <= 1000,
    ensures
        0 <= v * k / 1000 <= v,
        0 <= channel(v) <= 255,
{
    assert(0 <= v * k <= v * 1000) by (nonlinear_arith)
        requires
            0 <= v <= 1000,
            0 <= k <= 1000,
    ;
}

/// Converts hue, saturation and value (thousandths; the hue wraps modulo one turn)
/// to an opaque colour.
pub fn hsv_to_rgb(h: u64, s: u64, v: u64) -> (c: Color)
    requires
        s <= 1000,
        v <= 1000,
    ensures
        c == hsv_color(h as int, s as int, v as int),
{
    let h6: u64 = (h % 1000) * 6;
    let sector: u64 = h6 / 1000;
    let f: u64 = h6 % 1000;
    proof {
        lemma_fraction_bound(f as int, s as int);
        lemma_fraction_bound((1000 - f) as int, s as int);
        lemma_fraction_bound(v as int, (1000 - s) as int);
        lemma_fraction_bound(v as int, (1000 - f * s / 1000) as int);
        lemma_fraction_bound(v as int, (1000 - (1000 - f) * s / 1000) as int);
    }
    let p: u64 = v * (1000 - s) / 1000;
    let q: u64 = v * (1000 - f * s / 1000) / 1000;
    let t: u64 = v * (1000 - (1000 - f) * s / 1000) / 1000;
    let (r, g, b) = if sector == 0 {
        (v, t, p)
    } else if sector == 1 {
        (q, v, p)
    } else if sector == 2 {
        (p, v, t)
    } else if sector == 3 {
        (p, q, v)
    } else if sector == 4 {
        (t, p, v)
    } else {
        (v, p, q)
    };
    proof {
        lemma_fraction_bound(r as int, 0);
        lemma_fraction_bound(g as int, 0);
        lemma_fraction_bound(b as int, 0);
    }
    Color { r: (r * 255 / 1000) as u8, g: (g * 255 / 1000) as u8, b: (b * 255 / 1000) as u8, a: 255 }
}

} // verus!
