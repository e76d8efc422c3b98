use crate::canvas::{Canvas, DrawOp};
use crate::captcha::{is_noise_circle, is_noise_curve, Captcha, MIN_SIDE};
use crate::color::{Alpha, Color};
use crate::error::CaptchaError;
use crate::glyphs::{glyph_ops, place_glyphs, GlyphMetrics};
use vstd::prelude::*;

verus! {

/// Opaque white, the background of every frame.
pub open spec fn white() -> Color {
    Color { r: 255, g: 255, b: 255 }
}

/// Whether `ops` is one frame: a white background, two noise circles at
/// `circle_alpha`, one noise curve, then the glyphs of `chars`.
#[verifier::opaque]
pub open spec fn is_frame(
    ops: Seq<DrawOp>,
    w: int,
    h: int,
    circle_alpha: Alpha,
    stroke: u32,
    curve_alpha: Alpha,
    chars: Seq<char>,
    colors: Seq<Color>,
    alphas: Seq<Alpha>,
    heights: Seq<Option<i32>>,
    rw: int,
) -> bool {
    &&& ops.len() >= 4
    &&& ops[0] == DrawOp::Fill { color: white() }
    &&& is_noise_circle(ops[1], w, h, None, circle_alpha)
    &&& is_noise_circle(ops[2], w, h, None, circle_alpha)
    &&& is_noise_curve(ops[3], w, h, None, stroke, curve_alpha)
    &&& ops.subrange(4, ops.len() as int) == glyph_ops(
        chars,
        colors,
        alphas,
        heights,
        w,
        h,
        rw,
        chars.len() as int,
    )
}

/// Composes one frame of `c`'s size: background, noise, then `chars` drawn
/// in `colors` at opacities `alphas`. Refused when the noise would not fit.
pub fn compose_frame(
    c: &mut Captcha,
    chars: &Vec<char>,
    colors: &Vec<Color>,
    alphas: &Vec<Alpha>,
    circle_alpha: Alpha,
    stroke: u32,
    curve_alpha: Alpha,
    metrics: &GlyphMetrics,
) -> (r: Result<Canvas, CaptchaError>)
    requires
        old(c).wf(),
        chars@.len() > 0,
        chars@.len() <= u32::MAX,
        colors@.len() == chars@.len(),
        alphas@.len() == chars@.len(),
        metrics.heights@.len() == chars@.len(),
    ensures
        r.is_err() <==> !old(c).fits(),
        r.is_err() ==> r == Err::<Canvas, CaptchaError>(CaptchaError::InvalidRange),
        r.is_ok() ==> ({
            let g = r.unwrap();
            &&& g.width == old(c).width
            &&& g.height == old(c).height
            &&& is_frame(
                g.ops@,
                old(c).width as int,
                old(c).height as int,
                circle_alpha,
                stroke,
                curve_alpha,
                chars@,
                colors@,
                alphas@,
                metrics.heights@,
                metrics.reference_width as int,
            )
        }),
        final(c).wf(),
        final(c).chars == old(c).chars,
        final(c).len == old(c).len,
        final(c).width == old(c).width,
        final(c).height == old(c).height,
        final(c).char_type == old(c).char_type,
        final(c).font == old(c).font,
        final(c).font_size == old(c).font_size,
{
    if !(c.width >= MIN_SIDE && c.height >= MIN_SIDE) {
        return Err(CaptchaError::InvalidRange);
    }
    let mut g = Canvas::new(c.width, c.height);
    g.push(DrawOp::Fill { color: Color { r: 255, g: 255, b: 255 } });
    match c.draw_oval_with_option(2, &mut g, None, circle_alpha) {
        Ok(()) => {},
        Err(e) => {
            return Err(e);
        },
    }
    let ghost circles = g.ops@;
    assert(circles.subrange(0, 1)[0] == circles[0]);
    assert(circles[0] == DrawOp::Fill { color: white() });
    assert(is_noise_circle(circles[1], c.width as int, c.height as int, None, circle_alpha));
    assert(is_noise_circle(circles[2], c.width as int, c.height as int, None, circle_alpha));
    match c.draw_bessel_line_with_all_option(1, &mut g, None, stroke, curve_alpha) {
        Ok(()) => {},
        Err(e) => {
            return Err(e);
        },
    }
    let ghost noise = g.ops@;
    assert(noise.len() == 4);
    assert(noise.subrange(0, 3)[0] == circles[0] && noise.subrange(0, 3)[1] == circles[1]
        && noise.subrange(0, 3)[2] == circles[2]);
    assert(noise[0] == DrawOp::Fill { color: white() });
    assert(is_noise_curve(noise[3], c.width as int, c.height as int, None, stroke, curve_alpha));
    place_glyphs(&mut g, chars, colors, alphas, metrics);
    assert(g.ops@.subrange(0, 4) =~= noise);
    assert(g.ops@[0] == noise[0] && g.ops@[1] == noise[1] && g.ops@[2] == noise[2] && g.ops@[3]
        == noise[3]);
    assert(g.ops@.subrange(4, g.ops@.len() as int) =~= glyph_ops(
        chars@,
        colors@,
        alphas@,
        metrics.heights@,
        c.width as int,
        c.height as int,
        metrics.reference_width as int,
        chars@.len() as int,
    ));
    proof {
        reveal(is_frame);
    }
    Ok(g)
}

} // verus!
