use crate::error::CaptchaError;
use vstd::prelude::*;
use vstd::wrapping::u64_specs;
use std::hash::BuildHasher;

verus! {

/// Multiplier and increment of the linear congruential step.
pub const LCG_MUL: u64 = 6364136223846793005;
pub const LCG_INC: u64 = 1442695040888963407;

/// Number of characters in the full alphabet: digits, then upper case, then lower case.
pub const ALPHABET_LEN: u64 = 62;

/// The state that follows `s`.
pub open spec fn next_state(s: u64) -> u64 {
    u64_specs::wrapping_add(u64_specs::wrapping_mul(s, LCG_MUL), LCG_INC)
}

/// The value drawn from a state: the high half folded onto the low half.
pub open spec fn output(s: u64) -> u64 {
    s ^ (s >> 32u64)
}

/// The value that the next draw takes from state `s`.
pub open spec fn draw(s: u64) -> u64 {
    output(next_state(s))
}

/// Character of the alphabet at `i`: `0-9`, then `A-Z`, then `a-z`.
pub open spec fn alphabet_char(i: int) -> char {
    if i < 10 {
        ('0' as int + i) as char
    } else if i < 36 {
        ('A' as int + (i - 10)) as char
    } else {
        ('a' as int + (i - 36)) as char
    }
}

pub open spec fn is_digit(c: char) -> bool {
    '0' <= c && c <= '9'
}

pub open spec fn is_upper(c: char) -> bool {
    'A' <= c && c <= 'Z'
}

pub open spec fn is_lower(c: char) -> bool {
    'a' <= c && c <= 'z'
}

/// Which characters a generated answer may hold.
#[derive(Debug, Clone, Copy, PartialEq, Eq, Structural)]
pub enum CaptchaType {
    /// Digits and letters of both cases.
    TypeDefault,
    /// Digits only.
    TypeOnlyNumber,
    /// Letters of both cases.
    TypeOnlyChar,
    /// Upper-case letters.
    TypeOnlyUpper,
    /// Lower-case letters.
    TypeOnlyLower,
    /// Digits and upper-case letters.
    TypeNumAndUpper,
}

/// Whether `c` belongs to the class `t`.
pub open spec fn in_class(t: CaptchaType, c: char) -> bool {
    match t {
        CaptchaType::TypeDefault => is_digit(c) || is_upper(c) || is_lower(c),
        CaptchaType::TypeOnlyNumber => is_digit(c),
        CaptchaType::TypeOnlyChar => is_upper(c) || is_lower(c),
        CaptchaType::TypeOnlyUpper => is_upper(c),
        CaptchaType::TypeOnlyLower => is_lower(c),
        CaptchaType::TypeNumAndUpper => is_digit(c) || is_upper(c),
    }
}

/// First index of the class in the alphabet.
pub open spec fn class_start(t: CaptchaType) -> int {
    match t {
        CaptchaType::TypeDefault => 0,
        CaptchaType::TypeOnlyNumber => 0,
        CaptchaType::TypeOnlyChar => 10,
        CaptchaType::TypeOnlyUpper => 10,
        CaptchaType::TypeOnlyLower => 36,
        CaptchaType::TypeNumAndUpper => 0,
    }
}

/// Number of characters in the class.
pub open spec fn class_len(t: CaptchaType) -> int {
    match t {
        CaptchaType::TypeDefault => 62,
        CaptchaType::TypeOnlyNumber => 10,
        CaptchaType::TypeOnlyChar => 52,
        CaptchaType::TypeOnlyUpper => 26,
        CaptchaType::TypeOnlyLower => 26,
        CaptchaType::TypeNumAndUpper => 36,
    }
}

/// The character that a draw from state `s` picks out of class `t`.
pub open spec fn class_char(t: CaptchaType, s: u64) -> char {
    alphabet_char(class_start(t) + draw(s) as int % class_len(t))
}

/// Whatever the state, the character drawn for a class belongs to it.
pub proof fn lemma_class_char_in_class(t: CaptchaType, s: u64)
    ensures
        in_class(t, class_char(t, s)),
{
    let i = draw(s) as int % class_len(t);
    assert(0 <= i < class_len(t));
}

/// A seeded pseudo-random source. Each challenge owns one.
pub struct Randoms {
    pub state: u64,
}

/// Relies on std's `RandomState::new`: a seed that differs between processes.
/// Nothing is promised of its value.
#[verifier::external_body]
fn fresh_seed() -> u64 {
    std::collections::hash_map::RandomState::new().hash_one(0u64)
}

impl Randoms {
    /// A source that starts from `seed`; the same seed gives the same draws.
    pub fn with_seed(seed: u64) -> (r: Randoms)
        ensures
            r.state == seed,
    {
        Randoms { state: seed }
    }

    /// A freshly seeded source.
    pub fn new() -> (r: Randoms) {
        Randoms { state: fresh_seed() }
    }

    /// Advances the state and returns the value drawn.
    pub fn next_u64(&mut self) -> (r: u64)
        ensures
            final(self).state == next_state(old(self).state),
            r == draw(old(self).state),
    {
        self.state = self.state.wrapping_mul(LCG_MUL).wrapping_add(LCG_INC);
        self.state ^ (self.state >> 32u64)
    }

    /// A value in `[0, n)`.
    pub fn num(&mut self, n: u64) -> (r: u64)
        requires
            n > 0,
        ensures
            final(self).state == next_state(old(self).state),
            r == draw(old(self).state) % n,
            r < n,
    {
        let d = self.next_u64();
        d % n
    }

    /// A value in `[0, n)`; an empty range is refused and draws nothing.
    pub fn uniform_index(&mut self, n: u64) -> (r: Result<u64, CaptchaError>)
        ensures
            n == 0 ==> r == Err::<u64, CaptchaError>(CaptchaError::InvalidRange)
                && final(self).state == old(self).state,
            n > 0 ==> r == Ok::<u64, CaptchaError>(draw(old(self).state) % n)
                && final(self).state == next_state(old(self).state),
    {
        if n == 0 {
            Err(CaptchaError::InvalidRange)
        } else {
            Ok(self.num(n))
        }
    }

    /// A value in `[low, high]`, both ends included.
    pub fn num_between(&mut self, low: i64, high: i64) -> (r: i64)
        requires
            low <= high,
        ensures
            final(self).state == next_state(old(self).state),
            r == low + draw(old(self).state) as int % (high - low + 1),
            low <= r <= high,
    {
        let span: u128 = (high as i128 - low as i128) as u128 + 1;
        let d = self.next_u64();
        let off: u128 = d as u128 % span;
        (low as i128 + off as i128) as i64
    }

    /// A value in `[low, high]`, both ends included; an inverted range is
    /// refused and draws nothing.
    pub fn uniform_int(&mut self, low: i64, high: i64) -> (r: Result<i64, CaptchaError>)
        ensures
            low > high ==> r == Err::<i64, CaptchaError>(CaptchaError::InvalidRange)
                && final(self).state == old(self).state,
            low <= high ==> r == Ok::<i64, CaptchaError>(
                (low + draw(old(self).state) as int % (high - low + 1)) as i64,
            ) && final(self).state == next_state(old(self).state),
    {
        if low > high {
            Err(CaptchaError::InvalidRange)
        } else {
            Ok(self.num_between(low, high))
        }
    }

    /// A character of the class `t`.
    pub fn alpha(&mut self, t: CaptchaType) -> (c: char)
        ensures
            final(self).state == next_state(old(self).state),
            c == class_char(t, old(self).state),
            in_class(t, c),
    {
        let (start, len): (u64, u64) = match t {
            CaptchaType::TypeDefault => (0, 62),
            CaptchaType::TypeOnlyNumber => (0, 10),
            CaptchaType::TypeOnlyChar => (10, 52),
            CaptchaType::TypeOnlyUpper => (10, 26),
            CaptchaType::TypeOnlyLower => (36, 26),
            CaptchaType::TypeNumAndUpper => (0, 36),
        };
        let i = start + self.num(len);
        alphabet_at(i)
    }
}

/// Character of the alphabet at `i`.
pub fn alphabet_at(i: u64) -> (c: char)
    requires
        i < ALPHABET_LEN,
    ensures
        c == alphabet_char(i as int),
        i < 10 ==> is_digit(c),
        10 <= i < 36 ==> is_upper(c),
        36 <= i ==> is_lower(c),
{
    if i < 10 {
        ((48u64 + i) as u8) as char
    } else if i < 36 {
        ((65u64 + (i - 10)) as u8) as char
    } else {
        ((97u64 + (i - 36)) as u8) as char
    }
}

} // verus!
