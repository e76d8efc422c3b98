use crate::canvas::Canvas;
use crate::captcha::{drawn_chars, lemma_drawn_chars_in_class, Captcha, FontRef, NOISE_STROKE};
use crate::randoms::in_class;
use crate::color::{in_palette, Alpha, Color};
use crate::error::CaptchaError;
use crate::frame::{compose_frame, is_frame};
use crate::glyphs::GlyphMetrics;
use crate::randoms::Randoms;
use crate::text::base64_with_head;
use vstd::prelude::*;

verus! {

/// `n` colours of the default palette.
pub open spec fn palette_colors(cs: Seq<Color>, n: int) -> bool {
    cs.len() == n && forall|i: int| 0 <= i < n ==> in_palette(#[trigger] cs[i])
}

/// `n` full opacities.
pub open spec fn opaque_seq(n: int) -> Seq<Alpha> {
    Seq::new(n as nat, |i: int| Alpha { num: 1, den: 1 })
}

/// Draws `n` palette colours, one per character.
pub fn random_colors(c: &mut Captcha, n: usize) -> (r: Vec<Color>)
    ensures
        palette_colors(r@, n as int),
        final(c).wf() == old(c).wf(),
        final(c).chars == old(c).chars,
        final(c).len == old(c).len,
        final(c).width == old(c).width,
        final(c).height == old(c).height,
        final(c).char_type == old(c).char_type,
        final(c).font == old(c).font,
        final(c).font_size == old(c).font_size,
{
    let mut v: Vec<Color> = Vec::new();
    let mut i: usize = 0;
    while i < n
        invariant
            i <= n,
            palette_colors(v@, i as int),
            c.chars == old(c).chars,
            c.len == old(c).len,
            c.width == old(c).width,
            c.height == old(c).height,
            c.char_type == old(c).char_type,
            c.font == old(c).font,
            c.font_size == old(c).font_size,
        decreases n - i,
    {
        let k = c.color();
        v.push(k);
        i = i + 1;
    }
    v
}

/// A single-frame captcha of random characters, encoded as PNG.
pub struct SpecCaptcha {
    pub captcha: Captcha,
}

/// Data-URI prefix of a PNG image in base64.
pub const PNG_BASE64_HEAD: &'static str = "data:image/png;base64,";

impl SpecCaptcha {
    /// 130 × 48, five characters, on a freshly seeded source.
    pub fn new() -> (s: SpecCaptcha)
        ensures
            s.captcha.width == 130,
            s.captcha.height == 48,
            s.captcha.len == 5,
            s.captcha.chars.is_none(),
            s.captcha.wf(),
    {
        SpecCaptcha { captcha: Captcha::new() }
    }

    /// Default settings on a source started from `seed`.
    pub fn with_seed(seed: u64) -> (s: SpecCaptcha)
        ensures
            s.captcha.randoms.state == seed,
            s.captcha.width == 130,
            s.captcha.height == 48,
            s.captcha.len == 5,
            s.captcha.chars.is_none(),
            s.captcha.wf(),
    {
        SpecCaptcha { captcha: Captcha::with_randoms(Randoms::with_seed(seed)) }
    }

    pub fn with_size(width: i32, height: i32) -> (s: SpecCaptcha)
        requires
            width > 0,
            height > 0,
        ensures
            s.captcha.width == width,
            s.captcha.height == height,
            s.captcha.len == 5,
            s.captcha.chars.is_none(),
            s.captcha.wf(),
    {
        let mut s = SpecCaptcha::new();
        s.captcha.width = width;
        s.captcha.height = height;
        s
    }

    pub fn with_size_and_len(width: i32, height: i32, len: usize) -> (s: SpecCaptcha)
        requires
            width > 0,
            height > 0,
            len >= 1,
        ensures
            s.captcha.width == width,
            s.captcha.height == height,
            s.captcha.len == len,
            s.captcha.chars.is_none(),
            s.captcha.wf(),
    {
        let mut s = SpecCaptcha::new();
        s.captcha.width = width;
        s.captcha.height = height;
        s.captcha.len = len;
        s
    }

    pub fn with_all(width: i32, height: i32, len: usize, font: FontRef, font_size: u32) -> (s:
        SpecCaptcha)
        requires
            width > 0,
            height > 0,
            len >= 1,
        ensures
            s.captcha.width == width,
            s.captcha.height == height,
            s.captcha.len == len,
            s.captcha.font == Some(font),
            s.captcha.font_size == font_size,
            s.captcha.chars.is_none(),
            s.captcha.wf(),
    {
        let mut s = SpecCaptcha::with_size_and_len(width, height, len);
        s.captcha.font = Some(font);
        s.captcha.font_size = font_size;
        s
    }

    /// Lays out the image of `chars`: white background, two opaque noise
    /// circles, one opaque curve, then each character opaque in a random
    /// palette colour. Refused when the noise would not fit.
    pub fn graphics_image(&mut self, chars: &Vec<char>, metrics: &GlyphMetrics) -> (r: Result<
        Canvas,
        CaptchaError,
    >)
        requires
            old(self).captcha.wf(),
            chars@.len() > 0,
            chars@.len() <= u32::MAX,
            metrics.heights@.len() == chars@.len(),
        ensures
            r.is_err() <==> !old(self).captcha.fits(),
            r.is_err() ==> r == Err::<Canvas, CaptchaError>(CaptchaError::InvalidRange),
            r.is_ok() ==> ({
                let g = r.unwrap();
                &&& g.width == old(self).captcha.width
                &&& g.height == old(self).captcha.height
                &&& exists|cs: Seq<Color>|
                    palette_colors(cs, chars@.len() as int) && #[trigger] is_frame(
                        g.ops@,
                        old(self).captcha.width as int,
                        old(self).captcha.height as int,
                        Alpha { num: 1, den: 1 },
                        NOISE_STROKE,
                        Alpha { num: 1, den: 1 },
                        chars@,
                        cs,
                        opaque_seq(chars@.len() as int),
                        metrics.heights@,
                        metrics.reference_width as int,
                    )
            }),
            final(self).captcha.wf(),
            final(self).captcha.chars == old(self).captcha.chars,
            final(self).captcha.len == old(self).captcha.len,
            final(self).captcha.width == old(self).captcha.width,
            final(self).captcha.height == old(self).captcha.height,
    {
        let n = chars.len();
        let colors = random_colors(&mut self.captcha, n);
        let mut alphas: Vec<Alpha> = Vec::new();
        let mut i: usize = 0;
        while i < n
            invariant
                i <= n,
                alphas@ =~= opaque_seq(i as int),
            decreases n - i,
        {
            alphas.push(Alpha::opaque());
            i = i + 1;
            assert(alphas@ =~= opaque_seq(i as int));
        }
        let r = compose_frame(
            &mut self.captcha,
            chars,
            &colors,
            &alphas,
            Alpha::opaque(),
            NOISE_STROKE,
            Alpha::opaque(),
            metrics,
        );
        proof {
            if r.is_ok() {
                let g = r.unwrap();
                assert(is_frame(
                    g.ops@,
                    self.captcha.width as int,
                    self.captcha.height as int,
                    Alpha { num: 1, den: 1 },
                    NOISE_STROKE,
                    Alpha { num: 1, den: 1 },
                    chars@,
                    colors@,
                    opaque_seq(chars@.len() as int),
                    metrics.heights@,
                    metrics.reference_width as int,
                ));
            }
        }
        r
    }

    /// The answer, generated on first use.
    pub fn get_chars(&mut self) -> (r: Vec<char>)
        ensures
            final(self).captcha.chars.is_some(),
            r@ == final(self).captcha.chars.unwrap()@,
            old(self).captcha.chars.is_some() ==> r@ == old(self).captcha.chars.unwrap()@
                && *final(self) == *old(self),
            old(self).captcha.chars.is_none() ==> r@ == drawn_chars(
                old(self).captcha.char_type,
                old(self).captcha.randoms.state,
                old(self).captcha.len as nat,
            ) && r@.len() == old(self).captcha.len && forall|i: int|
                0 <= i < r@.len() ==> in_class(old(self).captcha.char_type, #[trigger] r@[i]),
            final(self).captcha.len == old(self).captcha.len,
            final(self).captcha.width == old(self).captcha.width,
            final(self).captcha.height == old(self).captcha.height,
    {
        let r = self.captcha.text_char();
        proof {
            lemma_drawn_chars_in_class(
                old(self).captcha.char_type,
                old(self).captcha.randoms.state,
                old(self).captcha.len as nat,
            );
        }
        r
    }

    /// MIME type of the encoded image.
    pub fn get_content_type(&self) -> (r: &'static str)
        ensures
            r@ == "image/png"@,
    {
        "image/png"
    }

    /// The encoded image `bytes` as a base64 data URI.
    pub fn base64(&self, bytes: &Vec<u8>) -> (r: String)
        requires
            bytes@.len() <= isize::MAX,
        ensures
            r@ == PNG_BASE64_HEAD@ + crate::text::base64_of(bytes@),
    {
        base64_with_head(PNG_BASE64_HEAD, bytes)
    }
}

} // verus!
