use crate::canvas::{Canvas, DrawOp};
use crate::color::{Alpha, Color};
use vstd::prelude::*;

verus! {

/// What the font service reports for one layout: the width of the reference
/// glyph `W`, and for each character the height of its glyph, or `None` when
/// the font has no glyph for it.
pub struct GlyphMetrics {
    pub reference_width: i32,
    pub heights: Vec<Option<i32>>,
}

/// Half of `d`, rounded toward zero.
pub open spec fn half_toward_zero(d: int) -> int {
    if d >= 0 {
        d / 2
    } else {
        -((-d) / 2)
    }
}

/// Width of each character cell: the canvas width shared evenly, the
/// remainder left unused at the right edge.
pub open spec fn cell_width(w: int, n: int) -> int {
    w / n
}

/// Left padding that centres the reference glyph in its cell.
pub open spec fn cell_pad(w: int, n: int, rw: int) -> int {
    half_toward_zero(cell_width(w, n) - rw)
}

/// Horizontal origin of the glyph in cell `i`.
pub open spec fn glyph_x(i: int, w: int, n: int, rw: int) -> int {
    i * cell_width(w, n) + cell_pad(w, n, rw) + 3
}

/// Baseline of a glyph of height `gh` on a canvas of height `h`.
pub open spec fn glyph_y(h: int, gh: int) -> int {
    h - (h - gh) / 2 - 3
}

/// The instruction that draws character `i`, when its glyph exists.
pub open spec fn glyph_op(
    chars: Seq<char>,
    colors: Seq<Color>,
    alphas: Seq<Alpha>,
    gh: int,
    i: int,
    w: int,
    h: int,
    rw: int,
) -> DrawOp {
    DrawOp::Glyph {
        ch: chars[i],
        x: glyph_x(i, w, chars.len() as int, rw) as i64,
        y: glyph_y(h, gh) as i64,
        color: colors[i],
        alpha: alphas[i],
    }
}

/// The glyph instructions for the first `k` characters, skipping those
/// without a glyph.
pub open spec fn glyph_ops(
    chars: Seq<char>,
    colors: Seq<Color>,
    alphas: Seq<Alpha>,
    heights: Seq<Option<i32>>,
    w: int,
    h: int,
    rw: int,
    k: int,
) -> Seq<DrawOp>
    decreases k,
{
    if k <= 0 {
        Seq::empty()
    } else {
        let prev = glyph_ops(chars, colors, alphas, heights, w, h, rw, k - 1);
        match heights[k - 1] {
            Some(gh) => prev.push(glyph_op(chars, colors, alphas, gh as int, k - 1, w, h, rw)),
            None => prev,
        }
    }
}

/// Draws `chars` across `g` in evenly shared cells, character `i` in
/// `colors[i]` at opacity `alphas[i]`; a character without a glyph is left out.
pub fn place_glyphs(
    g: &mut Canvas,
    chars: &Vec<char>,
    colors: &Vec<Color>,
    alphas: &Vec<Alpha>,
    metrics: &GlyphMetrics,
)
    requires
        old(g).width > 0,
        chars@.len() > 0,
        colors@.len() == chars@.len(),
        alphas@.len() == chars@.len(),
        metrics.heights@.len() == chars@.len(),
        chars@.len() <= u32::MAX,
    ensures
        final(g).width == old(g).width,
        final(g).height == old(g).height,
        final(g).ops@ == old(g).ops@ + glyph_ops(
            chars@,
            colors@,
            alphas@,
            metrics.heights@,
            old(g).width as int,
            old(g).height as int,
            metrics.reference_width as int,
            chars@.len() as int,
        ),
{
    let n = chars.len();
    let w = g.width as i64;
    let h = g.height as i64;
    let rw = metrics.reference_width as i64;
    let nn = n as i64;
    let f_w: i64 = w / nn;
    assert(0 <= f_w as int <= w as int) by (nonlinear_arith)
        requires
            f_w as int == (w as int) / (nn as int),
            nn >= 1,
            w > 0,
    ;
    let d: i64 = f_w - rw;
    let f_sp: i64 = if d >= 0 {
        d / 2
    } else {
        -((-d) / 2)
    };
    let ghost start = g.ops@;
    let mut i: usize = 0;
    while i < n
        invariant
            n == chars@.len(),
            colors@.len() == n,
            alphas@.len() == n,
            metrics.heights@.len() == n,
            i <= n,
            w == old(g).width,
            w > 0,
            h == old(g).height,
            n <= u32::MAX,
            rw == metrics.reference_width,
            f_w == cell_width(w as int, n as int),
            0 <= f_w <= w,
            f_sp == cell_pad(w as int, n as int, rw as int),
            g.width == old(g).width,
            g.height == old(g).height,
            start == old(g).ops@,
            g.ops@ == start + glyph_ops(
                chars@,
                colors@,
                alphas@,
                metrics.heights@,
                w as int,
                h as int,
                rw as int,
                i as int,
            ),
        decreases n - i,
    {
        match metrics.heights[i] {
            Some(gh) => {
                assert(0 <= (i as int) * (f_w as int) <= (n as int) * (f_w as int)) by (nonlinear_arith)
                    requires
                        i < n,
                        f_w >= 0,
                ;
                assert((n as int) * (f_w as int) <= w as int) by (nonlinear_arith)
                    requires
                        f_w as int == (w as int) / (n as int),
                        n >= 1,
                        w > 0,
                ;
                let x: i64 = i as i64 * f_w + f_sp + 3;
                let dh: i64 = h - gh as i64;
                let half: i64 = if dh >= 0 {
                    dh / 2
                } else {
                    -((1 - dh) / 2)
                };
                assert(half as int == (dh as int) / 2) by (nonlinear_arith)
                    requires
                        dh >= 0 ==> half as int == (dh as int) / 2,
                        dh < 0 ==> half as int == -((1 - dh as int) / 2),
                ;
                let y: i64 = h - half - 3;
                assert(x as int == glyph_x(i as int, w as int, n as int, rw as int));
                assert(y as int == glyph_y(h as int, gh as int));
                let op = DrawOp::Glyph { ch: chars[i], x, y, color: colors[i], alpha: alphas[i] };
                g.push(op);
                assert(g.ops@ =~= start + glyph_ops(
                    chars@,
                    colors@,
                    alphas@,
                    metrics.heights@,
                    w as int,
                    h as int,
                    rw as int,
                    i + 1,
                ));
            },
            None => {},
        }
        i = i + 1;
    }
}

/// Opacity of character `i` in frame `f` of an `n`-frame animation: a wave
/// that sweeps across the characters from frame to frame. A single character
/// stays fully visible.
pub open spec fn wave_alpha(i: int, f: int, n: int) -> Alpha {
    if n <= 1 {
        Alpha { num: 1, den: 1 }
    } else {
        Alpha { num: ((i + f) % n) as u32, den: (n - 1) as u32 }
    }
}

/// Opacity of character `i` in frame `f` of an `n`-frame animation, for
/// `i, f < n`: `(i + f) / (n - 1)`, less one whole step of `n / (n - 1)`
/// once `i + f` reaches `n`.
pub fn get_alpha(f: usize, i: usize, n: usize) -> (a: Alpha)
    requires
        i < n,
        f < n,
        n <= u32::MAX,
    ensures
        a == wave_alpha(i as int, f as int, n as int),
        a.wf(),
{
    if n <= 1 {
        return Alpha::opaque();
    }
    let s: u64 = i as u64 + f as u64;
    let m: u64 = n as u64;
    let num: u64 = if s >= m {
        s - m
    } else {
        s
    };
    assert(num as int == (s as int) % (m as int)) by (nonlinear_arith)
        requires
            s < 2 * m,
            m > 1,
            s >= m ==> num == s - m,
            s < m ==> num == s,
    ;
    Alpha { num: num as u32, den: (n - 1) as u32 }
}

} // verus!
