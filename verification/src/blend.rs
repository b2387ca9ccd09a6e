use vstd::prelude::*;

verus! {

/// The attenuated alpha value: `floor(a * 0.8)`, written over the
/// integers as `(a * 4) / 5`.
pub open spec fn attenuated(a: u8) -> u8 {
    ((a * 4) / 5) as u8
}

/// One color channel of the standard "over" blend with 8-bit alpha:
/// the foreground weighted by `a`, the background by `255 - a`.
pub open spec fn blend_color(fg: u8, bg: u8, a: u8) -> u8 {
    ((fg * a + bg * (255 - a)) / 255) as u8
}

/// The alpha channel of the standard "over" blend: the foreground alpha
/// plus the background alpha weighted by what the foreground lets through.
pub open spec fn blend_alpha(bg: u8, a: u8) -> u8 {
    ((a + (bg * (255 - a)) / 255)) as u8
}

/// The color blend stays within a byte, returns the background where the
/// foreground is fully transparent, and the foreground where it is opaque.
pub proof fn lemma_blend_color_range(fg: u8, bg: u8, a: u8)
    ensures
        blend_color(fg, bg, a) == (fg * a + bg * (255 - a)) / 255,
        blend_color(fg, bg, a) <= 255,
        a == 0 ==> blend_color(fg, bg, a) == bg,
        a == 255 ==> blend_color(fg, bg, a) == fg,
{
    assert(fg * a + bg * (255 - a) <= 255 * 255) by (nonlinear_arith)
        requires
            fg <= 255,
            bg <= 255,
            a <= 255,
    ;
    assert(a == 0 ==> (fg * a + bg * (255 - a)) / 255 == bg) by (nonlinear_arith)
        requires
            fg <= 255,
            bg <= 255,
    ;
    assert(a == 255 ==> (fg * a + bg * (255 - a)) / 255 == fg) by (nonlinear_arith)
        requires
            fg <= 255,
            bg <= 255,
    ;
}

/// The alpha blend stays within a byte and returns the background alpha
/// where the foreground is fully transparent.
pub proof fn lemma_blend_alpha_range(bg: u8, a: u8)
    ensures
        blend_alpha(bg, a) == a + (bg * (255 - a)) / 255,
        blend_alpha(bg, a) <= 255,
        a == 0 ==> blend_alpha(bg, a) == bg,
        a == 255 ==> blend_alpha(bg, a) == 255,
{
    assert((bg * (255 - a)) / 255 <= 255 - a) by (nonlinear_arith)
        requires
            bg <= 255,
            a <= 255,
    ;
    assert(a == 0 ==> (bg * (255 - a)) / 255 == bg) by (nonlinear_arith)
        requires
            bg <= 255,
    ;
}

/// Compute the attenuated alpha `floor(a * 4 / 5)`.
pub fn attenuated_exec(a: u8) -> (r: u8)
    ensures
        r == attenuated(a),
{
    (((a as u32) * 4) / 5) as u8
}

/// Compute one color channel of the "over" blend.
pub fn blend_color_exec(fg: u8, bg: u8, a: u8) -> (r: u8)
    ensures
        r == blend_color(fg, bg, a),
{
    proof {
        lemma_blend_color_range(fg, bg, a);
    }
    let n: u32 = (fg as u32) * (a as u32) + (bg as u32) * (255 - (a as u32));
    (n / 255) as u8
}

/// Compute the alpha channel of the "over" blend.
pub fn blend_alpha_exec(bg: u8, a: u8) -> (r: u8)
    ensures
        r == blend_alpha(bg, a),
{
    proof {
        lemma_blend_alpha_range(bg, a);
    }
    (a as u32 + ((bg as u32) * (255 - (a as u32))) / 255) as u8
}

} // verus!
