use crate::canvas::Canvas;
use crate::captcha::{drawn_chars, lemma_drawn_chars_in_class, Captcha, FontRef, MIN_SIDE};
use crate::randoms::in_class;
use crate::color::{Alpha, Color};
use crate::error::CaptchaError;
use crate::frame::{compose_frame, is_frame};
use crate::glyphs::{get_alpha, wave_alpha, GlyphMetrics};
use crate::randoms::Randoms;
use crate::static_captcha::{palette_colors, random_colors};
use crate::text::base64_with_head;
use vstd::prelude::*;

verus! {

/// Stroke width of the animated variant's noise curve, in tenths of a pixel.
pub const GIF_CURVE_STROKE: u32 = 12;

/// Opacity of the animated variant's noise curve.
pub open spec fn gif_curve_alpha() -> Alpha {
    Alpha { num: 7, den: 10 }
}

/// Opacities of the characters in frame `f` of an `n`-frame animation.
pub open spec fn wave_seq(f: int, n: int) -> Seq<Alpha> {
    Seq::new(n as nat, |i: int| wave_alpha(i, f, n))
}

/// Whether `frames` animates `chars`: one `w` × `h` frame per character,
/// the same colours and circle opacity throughout, the glyph opacities of
/// frame `f` following the wave.
#[verifier::opaque]
pub open spec fn is_animation(
    frames: Seq<Canvas>,
    w: int,
    h: int,
    chars: Seq<char>,
    colors: Seq<Color>,
    circle_alpha: Alpha,
    heights: Seq<Option<i32>>,
    rw: int,
) -> bool {
    &&& frames.len() == chars.len()
    &&& forall|f: int|
        0 <= f < frames.len() ==> {
            &&& (#[trigger] frames[f]).width == w
            &&& frames[f].height == h
            &&& is_frame(
                frames[f].ops@,
                w,
                h,
                circle_alpha,
                GIF_CURVE_STROKE,
                gif_curve_alpha(),
                chars,
                colors,
                wave_seq(f, chars.len() as int),
                heights,
                rw,
            )
        }
}

/// An animated captcha: one GIF frame per character, a wave of opacity
/// sweeping across the characters.
pub struct GifCaptcha {
    pub captcha: Captcha,
}

/// Data-URI prefix of a GIF image in base64.
pub const GIF_BASE64_HEAD: &'static str = "data:image/gif;base64,";

impl GifCaptcha {
    /// 130 × 48, five characters, on a freshly seeded source.
    pub fn new() -> (s: GifCaptcha)
        ensures
            s.captcha.width == 130,
            s.captcha.height == 48,
            s.captcha.len == 5,
            s.captcha.chars.is_none(),
            s.captcha.wf(),
    {
        GifCaptcha { captcha: Captcha::new() }
    }

    /// Default settings on a source started from `seed`.
    pub fn with_seed(seed: u64) -> (s: GifCaptcha)
        ensures
            s.captcha.randoms.state == seed,
            s.captcha.width == 130,
            s.captcha.height == 48,
            s.captcha.len == 5,
            s.captcha.chars.is_none(),
            s.captcha.wf(),
    {
        GifCaptcha { captcha: Captcha::with_randoms(Randoms::with_seed(seed)) }
    }

    pub fn with_size(width: i32, height: i32) -> (s: GifCaptcha)
        requires
            width > 0,
            height > 0,
        ensures
            s.captcha.width == width,
            s.captcha.height == height,
            s.captcha.len == 5,
            s.captcha.chars.is_none(),
            s.captcha.wf(),
    {
        let mut s = GifCaptcha::new();
        s.captcha.width = width;
        s.captcha.height = height;
        s
    }

    pub fn with_size_and_len(width: i32, height: i32, len: usize) -> (s: GifCaptcha)
        requires
            width > 0,
            height > 0,
            len >= 1,
        ensures
            s.captcha.width == width,
            s.captcha.height == height,
            s.captcha.len == len,
            s.captcha.chars.is_none(),
            s.captcha.wf(),
    {
        let mut s = GifCaptcha::new();
        s.captcha.width = width;
        s.captcha.height = height;
        s.captcha.len = len;
        s
    }

    pub fn with_all(width: i32, height: i32, len: usize, font: FontRef, font_size: u32) -> (s:
        GifCaptcha)
        requires
            width > 0,
            height > 0,
            len >= 1,
        ensures
            s.captcha.width == width,
            s.captcha.height == height,
            s.captcha.len == len,
            s.captcha.font == Some(font),
            s.captcha.font_size == font_size,
            s.captcha.chars.is_none(),
            s.captcha.wf(),
    {
        let mut s = GifCaptcha::with_size_and_len(width, height, len);
        s.captcha.font = Some(font);
        s.captcha.font_size = font_size;
        s
    }

    /// Lays out frame `flag`: noise circles at `circle_alpha`, a thin curve
    /// at 70% opacity, and character `i` in `color[i]` at the wave's opacity.
    pub fn graphics_image(
        &mut self,
        color: &Vec<Color>,
        chars: &Vec<char>,
        flag: usize,
        circle_alpha: Alpha,
        metrics: &GlyphMetrics,
    ) -> (r: Result<Canvas, CaptchaError>)
        requires
            old(self).captcha.wf(),
            chars@.len() > 0,
            chars@.len() <= u32::MAX,
            flag < chars@.len(),
            color@.len() == chars@.len(),
            metrics.heights@.len() == chars@.len(),
        ensures
            r.is_err() <==> !old(self).captcha.fits(),
            r.is_err() ==> r == Err::<Canvas, CaptchaError>(CaptchaError::InvalidRange),
            r.is_ok() ==> ({
                let g = r.unwrap();
                &&& g.width == old(self).captcha.width
                &&& g.height == old(self).captcha.height
                &&& is_frame(
                    g.ops@,
                    old(self).captcha.width as int,
                    old(self).captcha.height as int,
                    circle_alpha,
                    GIF_CURVE_STROKE,
                    gif_curve_alpha(),
                    chars@,
                    color@,
                    wave_seq(flag as int, chars@.len() as int),
                    metrics.heights@,
                    metrics.reference_width as int,
                )
            }),
            final(self).captcha.wf(),
            final(self).captcha.chars == old(self).captcha.chars,
            final(self).captcha.len == old(self).captcha.len,
            final(self).captcha.width == old(self).captcha.width,
            final(self).captcha.height == old(self).captcha.height,
    {
        let n = chars.len();
        let mut alphas: Vec<Alpha> = Vec::new();
        let mut i: usize = 0;
        while i < n
            invariant
                n == chars@.len(),
                n <= u32::MAX,
                flag < n,
                i <= n,
                alphas@ =~= wave_seq(flag as int, n as int).subrange(0, i as int),
            decreases n - i,
        {
            alphas.push(get_alpha(flag, i, n));
            i = i + 1;
            assert(alphas@ =~= wave_seq(flag as int, n as int).subrange(0, i as int));
        }
        assert(alphas@ =~= wave_seq(flag as int, n as int));
        compose_frame(
            &mut self.captcha,
            chars,
            color,
            &alphas,
            circle_alpha,
            GIF_CURVE_STROKE,
            Alpha { num: 7, den: 10 },
            metrics,
        )
    }

    /// Lays out the whole animation of `chars`, one frame per character.
    /// Colours and the circles' opacity (a random tenth) are drawn once and
    /// shared by every frame. Refused when the noise would not fit.
    pub fn frames(&mut self, chars: &Vec<char>, metrics: &GlyphMetrics) -> (r: Result<
        Vec<Canvas>,
        CaptchaError,
    >)
        requires
            old(self).captcha.wf(),
            chars@.len() > 0,
            chars@.len() <= u32::MAX,
            metrics.heights@.len() == chars@.len(),
        ensures
            r.is_err() <==> !old(self).captcha.fits(),
            r.is_err() ==> r == Err::<Vec<Canvas>, CaptchaError>(CaptchaError::InvalidRange),
            r.is_ok() ==> r.unwrap()@.len() == chars@.len() && exists|cs: Seq<Color>, a: Alpha|
                #[trigger] is_animation(
                    r.unwrap()@,
                    old(self).captcha.width as int,
                    old(self).captcha.height as int,
                    chars@,
                    cs,
                    a,
                    metrics.heights@,
                    metrics.reference_width as int,
                ) && palette_colors(cs, chars@.len() as int) && a.den == 10 && a.num < 10,
            final(self).captcha.chars == old(self).captcha.chars,
            final(self).captcha.len == old(self).captcha.len,
            final(self).captcha.width == old(self).captcha.width,
            final(self).captcha.height == old(self).captcha.height,
    {
        if !(self.captcha.width >= MIN_SIDE && self.captcha.height >= MIN_SIDE) {
            return Err(CaptchaError::InvalidRange);
        }
        let n = chars.len();
        let colors = random_colors(&mut self.captcha, n);
        let k = self.captcha.randoms.num(10);
        let circle_alpha = Alpha { num: k as u32, den: 10 };
        let ghost w = self.captcha.width as int;
        let ghost h = self.captcha.height as int;
        let mut out: Vec<Canvas> = Vec::new();
        let mut f: usize = 0;
        while f < n
            invariant
                n == chars@.len(),
                n <= u32::MAX,
                f <= n,
                colors@.len() == n,
                metrics.heights@.len() == n,
                self.captcha.wf(),
                self.captcha.fits(),
                w == self.captcha.width,
                h == self.captcha.height,
                self.captcha.chars == old(self).captcha.chars,
                self.captcha.len == old(self).captcha.len,
                self.captcha.width == old(self).captcha.width,
                self.captcha.height == old(self).captcha.height,
                out@.len() == f,
                forall|j: int|
                    0 <= j < f ==> {
                        &&& (#[trigger] out@[j]).width == w
                        &&& out@[j].height == h
                        &&& is_frame(
                            out@[j].ops@,
                            w,
                            h,
                            circle_alpha,
                            GIF_CURVE_STROKE,
                            gif_curve_alpha(),
                            chars@,
                            colors@,
                            wave_seq(j, n as int),
                            metrics.heights@,
                            metrics.reference_width as int,
                        )
                    },
            decreases n - f,
        {
            let frame = match self.graphics_image(&colors, chars, f, circle_alpha, metrics) {
                Ok(g) => g,
                Err(e) => {
                    return Err(e);
                },
            };
            let ghost prev = out@;
            out.push(frame);
            assert(out@ == prev.push(frame));
            assert(out@[f as int] == frame);
            f = f + 1;
        }
        reveal(is_animation);
        assert(is_animation(
            out@,
            w,
            h,
            chars@,
            colors@,
            circle_alpha,
            metrics.heights@,
            metrics.reference_width as int,
        ));
        Ok(out)
    }

    /// The answer, generated on first use.
    pub fn get_chars(&mut self) -> (r: Vec<char>)
        ensures
            final(self).captcha.chars.is_some(),
            r@ == final(self).captcha.chars.unwrap()@,
            old(self).captcha.chars.is_some() ==> r@ == old(self).captcha.chars.unwrap()@
                && *final(self) == *old(self),
            old(self).captcha.chars.is_none() ==> r@ == drawn_chars(
                old(self).captcha.char_type,
                old(self).captcha.randoms.state,
                old(self).captcha.len as nat,
            ) && r@.len() == old(self).captcha.len && forall|i: int|
                0 <= i < r@.len() ==> in_class(old(self).captcha.char_type, #[trigger] r@[i]),
            final(self).captcha.len == old(self).captcha.len,
            final(self).captcha.width == old(self).captcha.width,
            final(self).captcha.height == old(self).captcha.height,
    {
        let r = self.captcha.text_char();
        proof {
            lemma_drawn_chars_in_class(
                old(self).captcha.char_type,
                old(self).captcha.randoms.state,
                old(self).captcha.len as nat,
            );
        }
        r
    }

    /// MIME type of the encoded image.
    pub fn get_content_type(&self) -> (r: &'static str)
        ensures
            r@ == "image/gif"@,
    {
        "image/gif"
    }

    /// The encoded image `bytes` as a base64 data URI.
    pub fn base64(&self, bytes: &Vec<u8>) -> (r: String)
        requires
            bytes@.len() <= isize::MAX,
        ensures
            r@ == GIF_BASE64_HEAD@ + crate::text::base64_of(bytes@),
    {
        base64_with_head(GIF_BASE64_HEAD, bytes)
    }
}

} // verus!
