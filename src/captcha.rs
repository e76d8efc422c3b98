use crate::canvas::{Canvas, DrawOp};
use crate::color::{
    in_palette, random_color_between, random_palette_color, Alpha, Color,
};
use crate::error::CaptchaError;
use crate::randoms::{
    class_char, draw, in_class, lemma_class_char_in_class, next_state, CaptchaType, Randoms,
};
use crate::text::push_char;
use vstd::prelude::*;

verus! {

/// The bundled fonts.
#[derive(Debug, Clone, Copy, PartialEq, Eq, Structural)]
pub enum CaptchaFont {
    Font1,
    Font2,
    Font3,
    Font4,
    Font5,
    Font6,
    Font7,
    Font8,
    Font9,
    Font10,
}

/// File name of a bundled font.
pub open spec fn font_file(f: CaptchaFont) -> &'static str {
    match f {
        CaptchaFont::Font1 => "actionj.ttf",
        CaptchaFont::Font2 => "epilog.ttf",
        CaptchaFont::Font3 => "fresnel.ttf",
        CaptchaFont::Font4 => "headache.ttf",
        CaptchaFont::Font5 => "lexo.ttf",
        CaptchaFont::Font6 => "prefix.ttf",
        CaptchaFont::Font7 => "progbot.ttf",
        CaptchaFont::Font8 => "ransom.ttf",
        CaptchaFont::Font9 => "robot.ttf",
        CaptchaFont::Font10 => "scandal.ttf",
    }
}

impl CaptchaFont {
    /// File name of the bundled font.
    pub fn file_name(&self) -> (r: &'static str)
        ensures
            r == font_file(*self),
    {
        match self {
            CaptchaFont::Font1 => "actionj.ttf",
            CaptchaFont::Font2 => "epilog.ttf",
            CaptchaFont::Font3 => "fresnel.ttf",
            CaptchaFont::Font4 => "headache.ttf",
            CaptchaFont::Font5 => "lexo.ttf",
            CaptchaFont::Font6 => "prefix.ttf",
            CaptchaFont::Font7 => "progbot.ttf",
            CaptchaFont::Font8 => "ransom.ttf",
            CaptchaFont::Font9 => "robot.ttf",
            CaptchaFont::Font10 => "scandal.ttf",
        }
    }
}

/// The font a captcha is drawn with: a bundled one, or one that the caller
/// registered with its font service under a handle.
#[derive(Debug, Clone, Copy, PartialEq, Eq, Structural)]
pub enum FontRef {
    Builtin(CaptchaFont),
    Custom(usize),
}

/// Font size used when none is given, in pixels.
pub const DEFAULT_FONT_SIZE: u32 = 32;

/// Smallest width and height on which every noise shape fits: twice the
/// smallest circle radius. On a smaller side than 28 the radius is drawn
/// only up to half the shorter side.
pub const MIN_SIDE: i32 = 10;

/// Stroke width of noise lines and circles, in tenths of a pixel.
pub const NOISE_STROKE: u32 = 20;

/// Smallest height on which noise lines and curves have room: their end
/// points lie between 5 pixels from the top and 5 from the bottom.
pub const MIN_STROKE_HEIGHT: i32 = 10;

/// Whether noise lines and curves fit on a `w` × `h` canvas: every range
/// they draw from is non-empty.
pub open spec fn stroke_fits(w: int, h: int) -> bool {
    w >= 0 && h >= MIN_STROKE_HEIGHT
}

/// Whether every noise shape fits on a `w` × `h` canvas.
pub open spec fn noise_fits(w: int, h: int) -> bool {
    w >= MIN_SIDE && h >= MIN_SIDE
}

/// Whether colour `c` is the given one, or one of the palette when none is given.
pub open spec fn color_choice(c: Color, given: Option<Color>) -> bool {
    match given {
        Some(k) => c == k,
        None => in_palette(c),
    }
}

/// A noise line on a `w` × `h` canvas: it starts near the left edge and ends
/// near the right one.
pub open spec fn is_noise_line(op: DrawOp, w: int, h: int, given: Option<Color>) -> bool {
    match op {
        DrawOp::Line { x1, y1, x2, y2, color, width } => -10 <= x1 <= w - 10 && 5 <= y1 <= h - 5
            && 10 <= x2 <= w + 10 && 2 <= y2 <= h - 2 && width == NOISE_STROKE && color_choice(
            color,
            given,
        ),
        _ => false,
    }
}

/// A noise circle on a `w` × `h` canvas: radius in `[5, 14]`, wholly inside.
pub open spec fn is_noise_circle(
    op: DrawOp,
    w: int,
    h: int,
    given: Option<Color>,
    a: Alpha,
) -> bool {
    match op {
        DrawOp::Circle { cx, cy, radius, color, width, alpha } => 5 <= radius <= 14 && radius
            <= cx <= w - radius && radius <= cy <= h - radius && width == NOISE_STROKE && alpha
            == a && color_choice(color, given),
        _ => false,
    }
}

/// Whether one of `ya`, `yb` lies in the upper half band and the other in the lower one.
pub open spec fn split_ends(ya: int, yb: int, h: int) -> bool {
    (5 <= ya <= h / 2 && h / 2 <= yb <= h - 5) || (5 <= yb <= h / 2 && h / 2 <= ya <= h - 5)
}

/// Whether `(x, y)` lies in the middle band where curve control points go.
pub open spec fn control_point(x: int, y: int, w: int, h: int) -> bool {
    w / 4 <= x <= w / 4 * 3 && 5 <= y <= h - 5
}

/// A noise curve across a `w` × `h` canvas, from `x = 5` to `x = w - 5`.
pub open spec fn is_noise_curve(
    op: DrawOp,
    w: int,
    h: int,
    given: Option<Color>,
    sw: u32,
    a: Alpha,
) -> bool {
    match op {
        DrawOp::Quad { x1, y1, cx, cy, x2, y2, color, width, alpha } => x1 == 5 && x2 == w - 5
            && split_ends(y1 as int, y2 as int, h) && control_point(cx as int, cy as int, w, h)
            && width == sw && alpha == a && color_choice(color, given),
        DrawOp::Cubic { x1, y1, cx1, cy1, cx2, cy2, x2, y2, color, width, alpha } => x1 == 5 && x2
            == w - 5 && split_ends(y1 as int, y2 as int, h) && control_point(
            cx1 as int,
            cy1 as int,
            w,
            h,
        ) && control_point(cx2 as int, cy2 as int, w, h) && width == sw && alpha == a
            && color_choice(color, given),
        _ => false,
    }
}

/// The state after `k` draws from `s`.
pub open spec fn nth_state(s: u64, k: nat) -> u64
    decreases k,
{
    if k == 0 {
        s
    } else {
        next_state(nth_state(s, (k - 1) as nat))
    }
}

/// The `n` characters of class `t` drawn one after another from state `s`.
pub open spec fn drawn_chars(t: CaptchaType, s: u64, n: nat) -> Seq<char> {
    Seq::new(n, |i: int| class_char(t, nth_state(s, i as nat)))
}

/// Every character of an answer drawn for class `t` belongs to `t`, and the
/// answer has exactly the requested length, whatever the source's state.
pub proof fn lemma_drawn_chars_in_class(t: CaptchaType, s: u64, n: nat)
    ensures
        drawn_chars(t, s, n).len() == n,
        forall|i: int| 0 <= i < n ==> in_class(t, #[trigger] drawn_chars(t, s, n)[i]),
{
    assert forall|i: int| 0 <= i < n implies in_class(t, #[trigger] drawn_chars(t, s, n)[i]) by {
        lemma_class_char_in_class(t, nth_state(s, i as nat));
    }
}

/// State shared by every kind of captcha: its random source, size, answer
/// length, character class, font and the answer once generated.
pub struct Captcha {
    pub randoms: Randoms,
    pub font: Option<FontRef>,
    pub font_size: u32,
    pub len: usize,
    pub width: i32,
    pub height: i32,
    pub char_type: CaptchaType,
    pub chars: Option<String>,
}

impl Captcha {
    /// Positive size and answer length.
    pub open spec fn wf(&self) -> bool {
        self.len >= 1 && self.width > 0 && self.height > 0
    }

    /// Whether a canvas of this captcha's size holds noise lines and curves.
    pub open spec fn stroke_fits(&self) -> bool {
        stroke_fits(self.width as int, self.height as int)
    }

    /// Whether a canvas of this captcha's size holds every noise shape.
    pub open spec fn fits(&self) -> bool {
        noise_fits(self.width as int, self.height as int)
    }

    /// Default settings (130 × 48, five characters of any class, no font
    /// chosen yet) on the source `randoms`.
    pub fn with_randoms(randoms: Randoms) -> (c: Captcha)
        ensures
            c.randoms == randoms,
            c.font.is_none(),
            c.font_size == DEFAULT_FONT_SIZE,
            c.len == 5,
            c.width == 130,
            c.height == 48,
            c.char_type == CaptchaType::TypeDefault,
            c.chars.is_none(),
            c.wf(),
    {
        Captcha {
            randoms,
            font: None,
            font_size: DEFAULT_FONT_SIZE,
            len: 5,
            width: 130,
            height: 48,
            char_type: CaptchaType::TypeDefault,
            chars: None,
        }
    }

    /// Default settings on a freshly seeded source.
    pub fn new() -> (c: Captcha)
        ensures
            c.font.is_none(),
            c.font_size == DEFAULT_FONT_SIZE,
            c.len == 5,
            c.width == 130,
            c.height == 48,
            c.char_type == CaptchaType::TypeDefault,
            c.chars.is_none(),
            c.wf(),
    {
        Captcha::with_randoms(Randoms::new())
    }

    /// Generates a new answer of `len` characters of the configured class and
    /// keeps it as the current one.
    pub fn alphas(&mut self) -> (r: Vec<char>)
        ensures
            r@ == drawn_chars(old(self).char_type, old(self).randoms.state, old(self).len as nat),
            r@.len() == old(self).len,
            forall|i: int| 0 <= i < r@.len() ==> in_class(old(self).char_type, #[trigger] r@[i]),
            final(self).chars.is_some() && final(self).chars.unwrap()@ == r@,
            final(self).randoms.state == nth_state(old(self).randoms.state, old(self).len as nat),
            final(self).font == old(self).font,
            final(self).font_size == old(self).font_size,
            final(self).len == old(self).len,
            final(self).width == old(self).width,
            final(self).height == old(self).height,
            final(self).char_type == old(self).char_type,
    {
        let ghost s0 = self.randoms.state;
        let n = self.len;
        let t = self.char_type;
        let mut cs: Vec<char> = Vec::new();
        let mut s = String::new();
        let mut i: usize = 0;
        while i < n
            invariant
                n == old(self).len,
                t == old(self).char_type,
                i <= n,
                cs@.len() == i,
                s@ == cs@,
                self.randoms.state == nth_state(s0, i as nat),
                forall|j: int| 0 <= j < i ==> cs@[j] == class_char(t, nth_state(s0, j as nat)),
                self.font == old(self).font,
                self.font_size == old(self).font_size,
                self.len == old(self).len,
                self.width == old(self).width,
                self.height == old(self).height,
                self.char_type == old(self).char_type,
            decreases n - i,
        {
            let c = self.randoms.alpha(t);
            cs.push(c);
            push_char(&mut s, c);
            i = i + 1;
        }
        assert(cs@ =~= drawn_chars(t, s0, n as nat));
        self.chars = Some(s);
        cs
    }

    /// Generates the answer unless one is already kept.
    pub fn check_alpha(&mut self)
        ensures
            old(self).chars.is_some() ==> *final(self) == *old(self),
            old(self).chars.is_none() ==> final(self).chars.is_some() && final(self).chars.unwrap()@
                == drawn_chars(old(self).char_type, old(self).randoms.state, old(self).len as nat),
            final(self).chars.is_some(),
            final(self).font == old(self).font,
            final(self).font_size == old(self).font_size,
            final(self).len == old(self).len,
            final(self).width == old(self).width,
            final(self).height == old(self).height,
            final(self).char_type == old(self).char_type,
    {
        if self.chars.is_none() {
            self.alphas();
        }
    }

    /// The current answer, generated on first use and the same on every later call.
    pub fn text(&mut self) -> (r: String)
        ensures
            final(self).chars == Some(r),
            old(self).chars.is_some() ==> r@ == old(self).chars.unwrap()@ && *final(self) == *old(
                self,
            ),
            old(self).chars.is_none() ==> r@ == drawn_chars(
                old(self).char_type,
                old(self).randoms.state,
                old(self).len as nat,
            ),
            final(self).font == old(self).font,
            final(self).font_size == old(self).font_size,
            final(self).len == old(self).len,
            final(self).width == old(self).width,
            final(self).height == old(self).height,
            final(self).char_type == old(self).char_type,
    {
        self.check_alpha();
        let r = self.chars.clone().unwrap();
        r
    }

    /// The current answer as characters, generated on first use.
    pub fn text_char(&mut self) -> (r: Vec<char>)
        ensures
            final(self).chars.is_some(),
            r@ == final(self).chars.unwrap()@,
            old(self).chars.is_some() ==> r@ == old(self).chars.unwrap()@ && *final(self) == *old(
                self,
            ),
            old(self).chars.is_none() ==> r@ == drawn_chars(
                old(self).char_type,
                old(self).randoms.state,
                old(self).len as nat,
            ),
            final(self).font == old(self).font,
            final(self).font_size == old(self).font_size,
            final(self).len == old(self).len,
            final(self).width == old(self).width,
            final(self).height == old(self).height,
            final(self).char_type == old(self).char_type,
    {
        let s = self.text();
        let n = s.as_str().unicode_len();
        let mut cs: Vec<char> = Vec::new();
        let mut i: usize = 0;
        while i < n
            invariant
                n == s@.len(),
                i <= n,
                cs@ == s@.subrange(0, i as int),
            decreases n - i,
        {
            cs.push(s.as_str().get_char(i));
            i = i + 1;
            assert(cs@ =~= s@.subrange(0, i as int));
        }
        assert(cs@ =~= s@);
        cs
    }

    /// A random colour whose channels each lie in `[fc, bc]`.
    pub fn color_range(&mut self, fc: u8, bc: u8) -> (r: Result<Color, CaptchaError>)
        ensures
            fc > bc ==> r == Err::<Color, CaptchaError>(CaptchaError::InvalidRange) && *final(self)
                == *old(self),
            fc <= bc ==> r.is_ok() && ({
                let c = r.unwrap();
                let n = bc as int - fc as int + 1;
                let s0 = old(self).randoms.state;
                &&& fc <= c.r <= bc && fc <= c.g <= bc && fc <= c.b <= bc
                &&& c.r as int == fc as int + draw(s0) as int % n
                &&& c.g as int == fc as int + draw(next_state(s0)) as int % n
                &&& c.b as int == fc as int + draw(next_state(next_state(s0))) as int % n
                &&& final(self).randoms.state == next_state(next_state(next_state(s0)))
            }),
            final(self).chars == old(self).chars,
            final(self).len == old(self).len,
            final(self).width == old(self).width,
            final(self).height == old(self).height,
            final(self).char_type == old(self).char_type,
            final(self).font == old(self).font,
            final(self).font_size == old(self).font_size,
    {
        random_color_between(&mut self.randoms, fc, bc)
    }

    /// A random colour of the default palette.
    pub fn color(&mut self) -> (c: Color)
        ensures
            in_palette(c),
            final(self).randoms.state == next_state(old(self).randoms.state),
            final(self).chars == old(self).chars,
            final(self).len == old(self).len,
            final(self).width == old(self).width,
            final(self).height == old(self).height,
            final(self).char_type == old(self).char_type,
            final(self).font == old(self).font,
            final(self).font_size == old(self).font_size,
    {
        random_palette_color(&mut self.randoms)
    }

    fn pick_color(&mut self, given: Option<Color>) -> (c: Color)
        ensures
            color_choice(c, given),
            final(self).chars == old(self).chars,
            final(self).len == old(self).len,
            final(self).width == old(self).width,
            final(self).height == old(self).height,
            final(self).char_type == old(self).char_type,
            final(self).font == old(self).font,
            final(self).font_size == old(self).font_size,
    {
        match given {
            Some(c) => c,
            None => self.color(),
        }
    }

    /// Adds `num` random noise lines to `g`, in `color` or in palette colours.
    /// Refused when the canvas is narrower than 0 or lower than 10 pixels.
    pub fn draw_line(&mut self, num: usize, g: &mut Canvas, color: Option<Color>) -> (r: Result<
        (),
        CaptchaError,
    >)
        ensures
            r.is_err() <==> num > 0 && !old(self).stroke_fits(),
            r.is_err() ==> r == Err::<(), CaptchaError>(CaptchaError::InvalidRange) && final(g).ops@
                == old(g).ops@,
            r.is_ok() ==> final(g).ops@.len() == old(g).ops@.len() + num && final(g).ops@.subrange(
                0,
                old(g).ops@.len() as int,
            ) == old(g).ops@ && forall|j: int|
                old(g).ops@.len() <= j < final(g).ops@.len() ==> is_noise_line(
                    #[trigger] final(g).ops@[j],
                    old(self).width as int,
                    old(self).height as int,
                    color,
                ),
            final(g).width == old(g).width,
            final(g).height == old(g).height,
            final(self).chars == old(self).chars,
            final(self).len == old(self).len,
            final(self).width == old(self).width,
            final(self).height == old(self).height,
            final(self).char_type == old(self).char_type,
            final(self).font == old(self).font,
            final(self).font_size == old(self).font_size,
    {
        if num > 0 && !(self.width >= 0 && self.height >= MIN_STROKE_HEIGHT) {
            return Err(CaptchaError::InvalidRange);
        }
        let w = self.width as i64;
        let h = self.height as i64;
        let start = g.ops.len();
        let mut k: usize = 0;
        while k < num
            invariant
                num > 0 ==> w >= 0 && h >= MIN_STROKE_HEIGHT,
                w == old(self).width,
                h == old(self).height,
                k <= num,
                start == old(g).ops@.len(),
                g.ops@.len() == start + k,
                g.ops@.subrange(0, start as int) == old(g).ops@,
                forall|j: int| start <= j < g.ops@.len() ==> is_noise_line(#[trigger] g.ops@[j], w as int, h as int, color),
                g.width == old(g).width,
                g.height == old(g).height,
                self.chars == old(self).chars,
                self.len == old(self).len,
                self.width == old(self).width,
                self.height == old(self).height,
                self.char_type == old(self).char_type,
                self.font == old(self).font,
                self.font_size == old(self).font_size,
            decreases num - k,
        {
            let c = self.pick_color(color);
            let x1 = self.randoms.num_between(-10, w - 10);
            let y1 = self.randoms.num_between(5, h - 5);
            let x2 = self.randoms.num_between(10, w + 10);
            let y2 = self.randoms.num_between(2, h - 2);
            let op = DrawOp::Line { x1, y1, x2, y2, color: c, width: NOISE_STROKE };
            let ghost before = g.ops@;
            g.push(op);
            assert(g.ops@.subrange(0, start as int) =~= before.subrange(0, start as int));
            k = k + 1;
        }
        Ok(())
    }

    /// Adds `num` opaque noise circles to `g`.
    pub fn draw_oval(&mut self, num: usize, g: &mut Canvas, color: Option<Color>) -> (r: Result<
        (),
        CaptchaError,
    >)
        ensures
            r.is_err() <==> num > 0 && !old(self).fits(),
            r.is_err() ==> r == Err::<(), CaptchaError>(CaptchaError::InvalidRange) && final(g).ops@
                == old(g).ops@,
            r.is_ok() ==> final(g).ops@.len() == old(g).ops@.len() + num && final(g).ops@.subrange(
                0,
                old(g).ops@.len() as int,
            ) == old(g).ops@ && forall|j: int|
                old(g).ops@.len() <= j < final(g).ops@.len() ==> is_noise_circle(
                    #[trigger] final(g).ops@[j],
                    old(self).width as int,
                    old(self).height as int,
                    color,
                    Alpha { num: 1, den: 1 },
                ),
            final(g).width == old(g).width,
            final(g).height == old(g).height,
            final(self).chars == old(self).chars,
            final(self).len == old(self).len,
            final(self).width == old(self).width,
            final(self).height == old(self).height,
            final(self).char_type == old(self).char_type,
            final(self).font == old(self).font,
            final(self).font_size == old(self).font_size,
    {
        self.draw_oval_with_option(num, g, color, Alpha::opaque())
    }

    /// Adds `num` noise circles to `g`, composited at opacity `alpha`. The
    /// radius lies in `[5, 14]` and within half the shorter side; refused
    /// when a side is below 10.
    pub fn draw_oval_with_option(
        &mut self,
        num: usize,
        g: &mut Canvas,
        color: Option<Color>,
        alpha: Alpha,
    ) -> (r: Result<(), CaptchaError>)
        ensures
            r.is_err() <==> num > 0 && !old(self).fits(),
            r.is_err() ==> r == Err::<(), CaptchaError>(CaptchaError::InvalidRange) && final(g).ops@
                == old(g).ops@,
            r.is_ok() ==> final(g).ops@.len() == old(g).ops@.len() + num && final(g).ops@.subrange(
                0,
                old(g).ops@.len() as int,
            ) == old(g).ops@ && forall|j: int|
                old(g).ops@.len() <= j < final(g).ops@.len() ==> is_noise_circle(
                    #[trigger] final(g).ops@[j],
                    old(self).width as int,
                    old(self).height as int,
                    color,
                    alpha,
                ),
            final(g).width == old(g).width,
            final(g).height == old(g).height,
            final(self).chars == old(self).chars,
            final(self).len == old(self).len,
            final(self).width == old(self).width,
            final(self).height == old(self).height,
            final(self).char_type == old(self).char_type,
            final(self).font == old(self).font,
            final(self).font_size == old(self).font_size,
    {
        if num > 0 && !(self.width >= MIN_SIDE && self.height >= MIN_SIDE) {
            return Err(CaptchaError::InvalidRange);
        }
        let w = self.width as i64;
        let h = self.height as i64;
        let start = g.ops.len();
        let mut k: usize = 0;
        while k < num
            invariant
                num > 0 ==> w >= MIN_SIDE && h >= MIN_SIDE,
                w == old(self).width,
                h == old(self).height,
                k <= num,
                start == old(g).ops@.len(),
                g.ops@.len() == start + k,
                g.ops@.subrange(0, start as int) == old(g).ops@,
                forall|j: int| start <= j < g.ops@.len() ==> is_noise_circle(#[trigger] g.ops@[j], w as int, h as int, color, alpha),
                g.width == old(g).width,
                g.height == old(g).height,
                self.chars == old(self).chars,
                self.len == old(self).len,
                self.width == old(self).width,
                self.height == old(self).height,
                self.char_type == old(self).char_type,
                self.font == old(self).font,
                self.font_size == old(self).font_size,
            decreases num - k,
        {
            let c = self.pick_color(color);
            let short = if w < h {
                w
            } else {
                h
            };
            let top: i64 = if short / 2 < 14 {
                short / 2
            } else {
                14
            };
            let radius = 5 + self.randoms.num((top - 4) as u64) as i64;
            let cx = self.randoms.num_between(radius, w - radius);
            let cy = self.randoms.num_between(radius, h - radius);
            let op = DrawOp::Circle { cx, cy, radius, color: c, width: NOISE_STROKE, alpha };
            let ghost before = g.ops@;
            g.push(op);
            assert(g.ops@.subrange(0, start as int) =~= before.subrange(0, start as int));
            k = k + 1;
        }
        Ok(())
    }

    /// Adds `num` opaque noise curves, two pixels wide, to `g`.
    pub fn draw_bessel_line(&mut self, num: usize, g: &mut Canvas, color: Option<Color>) -> (r:
        Result<(), CaptchaError>)
        ensures
            r.is_err() <==> num > 0 && !old(self).stroke_fits(),
            r.is_err() ==> r == Err::<(), CaptchaError>(CaptchaError::InvalidRange) && final(g).ops@
                == old(g).ops@,
            r.is_ok() ==> final(g).ops@.len() == old(g).ops@.len() + num && final(g).ops@.subrange(
                0,
                old(g).ops@.len() as int,
            ) == old(g).ops@ && forall|j: int|
                old(g).ops@.len() <= j < final(g).ops@.len() ==> is_noise_curve(
                    #[trigger] final(g).ops@[j],
                    old(self).width as int,
                    old(self).height as int,
                    color,
                    NOISE_STROKE,
                    Alpha { num: 1, den: 1 },
                ),
            final(g).width == old(g).width,
            final(g).height == old(g).height,
            final(self).chars == old(self).chars,
            final(self).len == old(self).len,
            final(self).width == old(self).width,
            final(self).height == old(self).height,
            final(self).char_type == old(self).char_type,
            final(self).font == old(self).font,
            final(self).font_size == old(self).font_size,
    {
        self.draw_bessel_line_with_all_option(num, g, color, NOISE_STROKE, Alpha::opaque())
    }

    /// Adds `num` noise curves to `g`, `stroke` tenths of a pixel wide and
    /// composited at opacity `alpha`. Each is quadratic or cubic with even odds.
    /// Refused when the canvas is narrower than 0 or lower than 10 pixels.
    pub fn draw_bessel_line_with_all_option(
        &mut self,
        num: usize,
        g: &mut Canvas,
        color: Option<Color>,
        stroke: u32,
        alpha: Alpha,
    ) -> (r: Result<(), CaptchaError>)
        ensures
            r.is_err() <==> num > 0 && !old(self).stroke_fits(),
            r.is_err() ==> r == Err::<(), CaptchaError>(CaptchaError::InvalidRange) && final(g).ops@
                == old(g).ops@,
            r.is_ok() ==> final(g).ops@.len() == old(g).ops@.len() + num && final(g).ops@.subrange(
                0,
                old(g).ops@.len() as int,
            ) == old(g).ops@ && forall|j: int|
                old(g).ops@.len() <= j < final(g).ops@.len() ==> is_noise_curve(
                    #[trigger] final(g).ops@[j],
                    old(self).width as int,
                    old(self).height as int,
                    color,
                    stroke,
                    alpha,
                ),
            final(g).width == old(g).width,
            final(g).height == old(g).height,
            final(self).chars == old(self).chars,
            final(self).len == old(self).len,
            final(self).width == old(self).width,
            final(self).height == old(self).height,
            final(self).char_type == old(self).char_type,
            final(self).font == old(self).font,
            final(self).font_size == old(self).font_size,
    {
        if num > 0 && !(self.width >= 0 && self.height >= MIN_STROKE_HEIGHT) {
            return Err(CaptchaError::InvalidRange);
        }
        let w = self.width as i64;
        let h = self.height as i64;
        let start = g.ops.len();
        let mut k: usize = 0;
        while k < num
            invariant
                num > 0 ==> w >= 0 && h >= MIN_STROKE_HEIGHT,
                w == old(self).width,
                h == old(self).height,
                k <= num,
                start == old(g).ops@.len(),
                g.ops@.len() == start + k,
                g.ops@.subrange(0, start as int) == old(g).ops@,
                forall|j: int| start <= j < g.ops@.len() ==> is_noise_curve(#[trigger] g.ops@[j], w as int, h as int, color, stroke, alpha),
                g.width == old(g).width,
                g.height == old(g).height,
                self.chars == old(self).chars,
                self.len == old(self).len,
                self.width == old(self).width,
                self.height == old(self).height,
                self.char_type == old(self).char_type,
                self.font == old(self).font,
                self.font_size == old(self).font_size,
            decreases num - k,
        {
            let c = self.pick_color(color);
            let x1: i64 = 5;
            let mut y1 = self.randoms.num_between(5, h / 2);
            let x2: i64 = w - 5;
            let mut y2 = self.randoms.num_between(h / 2, h - 5);
            let cx = self.randoms.num_between(w / 4, w / 4 * 3);
            let cy = self.randoms.num_between(5, h - 5);
            if self.randoms.num(2) == 0 {
                let t = y1;
                y1 = y2;
                y2 = t;
            }
            let op = if self.randoms.num(2) == 0 {
                DrawOp::Quad { x1, y1, cx, cy, x2, y2, color: c, width: stroke, alpha }
            } else {
                let cx2 = self.randoms.num_between(w / 4, w / 4 * 3);
                let cy2 = self.randoms.num_between(5, h - 5);
                DrawOp::Cubic {
                    x1,
                    y1,
                    cx1: cx,
                    cy1: cy,
                    cx2,
                    cy2,
                    x2,
                    y2,
                    color: c,
                    width: stroke,
                    alpha,
                }
            };
            let ghost before = g.ops@;
            g.push(op);
            assert(g.ops@.subrange(0, start as int) =~= before.subrange(0, start as int));
            k = k + 1;
        }
        Ok(())
    }

    /// The font to draw with; the first bundled font when none was chosen.
    pub fn get_font(&mut self) -> (f: FontRef)
        ensures
            old(self).font.is_some() ==> f == old(self).font.unwrap() && *final(self) == *old(self),
            old(self).font.is_none() ==> f == FontRef::Builtin(CaptchaFont::Font1)
                && final(self).font_size == DEFAULT_FONT_SIZE,
            final(self).font == Some(f),
            final(self).randoms == old(self).randoms,
            final(self).chars == old(self).chars,
            final(self).len == old(self).len,
            final(self).width == old(self).width,
            final(self).height == old(self).height,
            final(self).char_type == old(self).char_type,
    {
        if self.font.is_none() {
            self.set_font_by_enum(CaptchaFont::Font1, None);
        }
        self.font.unwrap()
    }

    /// Font size in pixels.
    pub fn get_font_size(&self) -> (s: u32)
        ensures
            s == self.font_size,
    {
        self.font_size
    }

    /// Draws with the caller's font registered under `handle`, at `size`
    /// pixels (32 when none is given).
    pub fn set_font_by_font(&mut self, handle: usize, size: Option<u32>)
        ensures
            final(self).font == Some(FontRef::Custom(handle)),
            final(self).font_size == (match size {
                Some(s) => s,
                None => DEFAULT_FONT_SIZE,
            }),
            final(self).randoms == old(self).randoms,
            final(self).chars == old(self).chars,
            final(self).len == old(self).len,
            final(self).width == old(self).width,
            final(self).height == old(self).height,
            final(self).char_type == old(self).char_type,
    {
        self.font = Some(FontRef::Custom(handle));
        self.font_size = match size {
            Some(s) => s,
            None => DEFAULT_FONT_SIZE,
        };
    }

    /// Draws with a bundled font at `size` pixels (32 when none is given).
    pub fn set_font_by_enum(&mut self, font: CaptchaFont, size: Option<u32>)
        ensures
            final(self).font == Some(FontRef::Builtin(font)),
            final(self).font_size == (match size {
                Some(s) => s,
                None => DEFAULT_FONT_SIZE,
            }),
            final(self).randoms == old(self).randoms,
            final(self).chars == old(self).chars,
            final(self).len == old(self).len,
            final(self).width == old(self).width,
            final(self).height == old(self).height,
            final(self).char_type == old(self).char_type,
    {
        self.font = Some(FontRef::Builtin(font));
        self.font_size = match size {
            Some(s) => s,
            None => DEFAULT_FONT_SIZE,
        };
    }

    /// Restricts the answer to the class `t`; a kept answer is dropped.
    pub fn set_char_type(&mut self, t: CaptchaType)
        ensures
            final(self).char_type == t,
            final(self).chars.is_none(),
            final(self).randoms == old(self).randoms,
            final(self).font == old(self).font,
            final(self).font_size == old(self).font_size,
            final(self).len == old(self).len,
            final(self).width == old(self).width,
            final(self).height == old(self).height,
    {
        self.char_type = t;
        self.chars = None;
    }
}

} // verus!
