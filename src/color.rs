use crate::error::CaptchaError;
use crate::randoms::{draw, next_state, Randoms};
use vstd::prelude::*;

verus! {

/// An opaque RGB colour.
#[derive(Debug, Clone, Copy, PartialEq, Eq, Structural)]
pub struct Color {
    pub r: u8,
    pub g: u8,
    pub b: u8,
}

/// A fraction in `[0, 1]` used as opacity: `num / den`.
#[derive(Debug, Clone, Copy, PartialEq, Eq, Structural)]
pub struct Alpha {
    pub num: u32,
    pub den: u32,
}

impl Alpha {
    pub open spec fn wf(self) -> bool {
        self.den > 0 && self.num <= self.den
    }

    /// Fully opaque.
    pub fn opaque() -> (a: Alpha)
        ensures
            a == (Alpha { num: 1, den: 1 }),
            a.wf(),
    {
        Alpha { num: 1, den: 1 }
    }
}

/// Number of colours in the default palette.
pub const PALETTE_LEN: u64 = 12;

/// The default palette of stroke and text colours.
pub open spec fn palette(i: int) -> Color {
    if i == 0 {
        Color { r: 0, g: 135, b: 255 }
    } else if i == 1 {
        Color { r: 51, g: 153, b: 51 }
    } else if i == 2 {
        Color { r: 255, g: 102, b: 102 }
    } else if i == 3 {
        Color { r: 255, g: 153, b: 0 }
    } else if i == 4 {
        Color { r: 153, g: 102, b: 0 }
    } else if i == 5 {
        Color { r: 153, g: 102, b: 153 }
    } else if i == 6 {
        Color { r: 51, g: 153, b: 153 }
    } else if i == 7 {
        Color { r: 102, g: 102, b: 255 }
    } else if i == 8 {
        Color { r: 0, g: 102, b: 204 }
    } else if i == 9 {
        Color { r: 204, g: 51, b: 51 }
    } else if i == 10 {
        Color { r: 0, g: 153, b: 204 }
    } else {
        Color { r: 0, g: 51, b: 102 }
    }
}

pub open spec fn in_palette(c: Color) -> bool {
    exists|i: int| 0 <= i < PALETTE_LEN && #[trigger] palette(i) == c
}

/// The palette colour at `i`.
pub fn palette_color(i: u64) -> (c: Color)
    requires
        i < PALETTE_LEN,
    ensures
        c == palette(i as int),
        in_palette(c),
{
    let c = if i == 0 {
        Color { r: 0, g: 135, b: 255 }
    } else if i == 1 {
        Color { r: 51, g: 153, b: 51 }
    } else if i == 2 {
        Color { r: 255, g: 102, b: 102 }
    } else if i == 3 {
        Color { r: 255, g: 153, b: 0 }
    } else if i == 4 {
        Color { r: 153, g: 102, b: 0 }
    } else if i == 5 {
        Color { r: 153, g: 102, b: 153 }
    } else if i == 6 {
        Color { r: 51, g: 153, b: 153 }
    } else if i == 7 {
        Color { r: 102, g: 102, b: 255 }
    } else if i == 8 {
        Color { r: 0, g: 102, b: 204 }
    } else if i == 9 {
        Color { r: 204, g: 51, b: 51 }
    } else if i == 10 {
        Color { r: 0, g: 153, b: 204 }
    } else {
        Color { r: 0, g: 51, b: 102 }
    };
    assert(palette(i as int) == c);
    c
}

/// A random colour of the default palette.
pub fn random_palette_color(rnd: &mut Randoms) -> (c: Color)
    ensures
        final(rnd).state == next_state(old(rnd).state),
        c == palette((draw(old(rnd).state) % PALETTE_LEN) as int),
        in_palette(c),
{
    let i = rnd.num(PALETTE_LEN);
    palette_color(i)
}

/// A random colour whose three channels each lie in `[fc, bc]`.
pub fn random_color_between(rnd: &mut Randoms, fc: u8, bc: u8) -> (r: Result<Color, CaptchaError>)
    ensures
        fc > bc ==> r == Err::<Color, CaptchaError>(CaptchaError::InvalidRange)
            && final(rnd).state == old(rnd).state,
        fc <= bc ==> r.is_ok() && ({
            let c = r.unwrap();
            let n = bc as int - fc as int + 1;
            let s0 = old(rnd).state;
            &&& fc <= c.r <= bc && fc <= c.g <= bc && fc <= c.b <= bc
            &&& c.r as int == fc as int + draw(s0) as int % n
            &&& c.g as int == fc as int + draw(next_state(s0)) as int % n
            &&& c.b as int == fc as int + draw(next_state(next_state(s0))) as int % n
            &&& final(rnd).state == next_state(next_state(next_state(s0)))
        }),
{
    if fc > bc {
        return Err(CaptchaError::InvalidRange);
    }
    let n: u64 = (bc - fc) as u64 + 1;
    let r = fc + rnd.num(n) as u8;
    let g = fc + rnd.num(n) as u8;
    let b = fc + rnd.num(n) as u8;
    Ok(Color { r, g, b })
}

} // verus!
