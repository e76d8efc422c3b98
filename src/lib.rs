//! Captcha generation: random answers and arithmetic puzzles, laid out as
//! display lists of noise shapes and glyphs that a raster back end replays.
//!
//! Each captcha owns a seeded random source. The answer is generated on
//! first use and kept; the layout of an image takes the font service's glyph
//! metrics as plain numbers and yields a [`canvas::Canvas`] per frame.

pub mod arithmetic;
pub mod canvas;
pub mod captcha;
pub mod color;
pub mod error;
pub mod frame;
pub mod gif_captcha;
pub mod glyphs;
pub mod randoms;
pub mod static_captcha;
pub mod text;

pub use arithmetic::{ArithmeticCaptcha, Symbol};
pub use canvas::{Canvas, DrawOp};
pub use captcha::{Captcha, CaptchaFont, FontRef};
pub use color::{Alpha, Color};
pub use error::CaptchaError;
pub use gif_captcha::GifCaptcha;
pub use glyphs::GlyphMetrics;
pub use randoms::{CaptchaType, Randoms};
pub use static_captcha::SpecCaptcha;
