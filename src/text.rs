use vstd::prelude::*;
use base64::Engine;

verus! {

/// The decimal digit for `d < 10`.
pub open spec fn digit_char(d: int) -> char {
    ('0' as int + d) as char
}

/// Decimal form of a natural number, without leading zeros.
pub open spec fn dec_nat(n: nat) -> Seq<char>
    decreases n,
{
    if n < 10 {
        seq![digit_char(n as int)]
    } else {
        dec_nat(n / 10).push(digit_char(n as int % 10))
    }
}

/// Decimal forms consist of digits.
pub proof fn lemma_dec_nat_digits(n: nat)
    ensures
        forall|i: int| 0 <= i < dec_nat(n).len() ==> '0' <= #[trigger] dec_nat(n)[i] <= '9',
    decreases n,
{
    let c = digit_char(n as int % 10);
    assert('0' <= c <= '9');
    if n >= 10 {
        lemma_dec_nat_digits(n / 10);
        let p = dec_nat(n / 10);
        assert forall|i: int| 0 <= i < dec_nat(n).len() implies '0' <= #[trigger] dec_nat(n)[i]
            <= '9' by {
            if i < p.len() {
                assert(dec_nat(n)[i] == p[i]);
            }
        }
    } else {
        assert(digit_char(n as int) == c);
    }
}

/// Decimal form of an integer, with a leading `-` when it is negative.
pub open spec fn dec_int(v: int) -> Seq<char> {
    if v < 0 {
        seq!['-'] + dec_nat((-v) as nat)
    } else {
        dec_nat(v as nat)
    }
}

/// Relies on std's `String::push`: appends one character.
#[verifier::external_body]
pub(crate) fn push_char(s: &mut String, c: char)
    ensures
        final(s)@ == old(s)@.push(c),
{
    s.push(c)
}

/// Appends the decimal form of `n` to `out`.
pub fn push_decimal(out: &mut String, n: u64)
    ensures
        final(out)@ == old(out)@ + dec_nat(n as nat),
    decreases n,
{
    if n >= 10 {
        push_decimal(out, n / 10);
    }
    let d = n % 10;
    push_char(out, ((48u64 + d) as u8) as char);
    if n >= 10 {
        assert(old(out)@ + dec_nat(n as nat) =~= old(out)@ + dec_nat((n / 10) as nat) + seq![
            digit_char(d as int),
        ]);
    } else {
        assert(old(out)@ + dec_nat(n as nat) =~= old(out)@ + seq![digit_char(d as int)]);
    }
}

/// Decimal form of an unsigned number.
pub fn u64_to_string(n: u64) -> (r: String)
    ensures
        r@ == dec_nat(n as nat),
{
    let mut s = String::new();
    push_decimal(&mut s, n);
    assert(s@ =~= dec_nat(n as nat));
    s
}

/// Decimal form of a signed number.
pub fn i64_to_string(v: i64) -> (r: String)
    ensures
        r@ == dec_int(v as int),
{
    let mut s = String::new();
    if v < 0 {
        push_char(&mut s, '-');
        let m: u64 = (0i128 - v as i128) as u64;
        push_decimal(&mut s, m);
    } else {
        push_decimal(&mut s, v as u64);
    }
    assert(s@ =~= dec_int(v as int));
    s
}

/// Standard base64 (RFC 4648 alphabet, `=` padding) of a byte sequence.
pub uninterp spec fn base64_of(b: Seq<u8>) -> Seq<char>;

/// Relies on base64's `STANDARD.encode`: four characters for every started
/// group of three bytes.
#[verifier::external_body]
fn encode_standard(b: &[u8]) -> (r: String)
    requires
        b@.len() <= isize::MAX,
    ensures
        r@ == base64_of(b@),
        r@.len() == 4 * ((b@.len() + 2) / 3),
{
    base64::prelude::BASE64_STANDARD.encode(b)
}

/// Relies on base64's `STANDARD.decode`: it gives back the bytes of any text
/// that `STANDARD.encode` produced.
#[verifier::external_body]
fn decode_standard(s: &str) -> (r: Option<Vec<u8>>)
    ensures
        forall|b: Seq<u8>| s@ == #[trigger] base64_of(b) ==> r.is_some() && r.unwrap()@ == b,
{
    base64::prelude::BASE64_STANDARD.decode(s).ok()
}

/// `head` followed by the base64 form of `bytes`, as in a data URI.
pub fn base64_with_head(head: &str, bytes: &Vec<u8>) -> (r: String)
    requires
        bytes@.len() <= isize::MAX,
    ensures
        r@ == head@ + base64_of(bytes@),
{
    let mut s = head.to_string();
    let e = encode_standard(bytes.as_slice());
    s.append(e.as_str());
    s
}

/// Whether `s` begins with `head`.
pub fn starts_with(s: &str, head: &str) -> (r: bool)
    ensures
        r == (head@.len() <= s@.len() && s@.subrange(0, head@.len() as int) == head@),
{
    let n = head.unicode_len();
    if n > s.unicode_len() {
        return false;
    }
    let mut i: usize = 0;
    while i < n
        invariant
            n == head@.len(),
            n <= s@.len(),
            i <= n,
            forall|j: int| 0 <= j < i ==> s@[j] == head@[j],
        decreases n - i,
    {
        if s.get_char(i) != head.get_char(i) {
            assert(s@.subrange(0, n as int)[i as int] != head@[i as int]);
            return false;
        }
        i = i + 1;
    }
    assert(s@.subrange(0, n as int) =~= head@);
    true
}

/// The bytes encoded in `s` after the prefix `head`: what [`base64_with_head`]
/// wrote comes back whole.
pub fn base64_strip_decode(head: &str, s: &str) -> (r: Option<Vec<u8>>)
    ensures
        forall|b: Seq<u8>| s@ == head@ + #[trigger] base64_of(b) ==> r.is_some() && r.unwrap()@ == b,
        !(head@.len() <= s@.len() && s@.subrange(0, head@.len() as int) == head@) ==> r.is_none(),
{
    if !starts_with(s, head) {
        assert forall|b: Seq<u8>| !(s@ == head@ + #[trigger] base64_of(b)) by {
            if s@ == head@ + base64_of(b) {
                assert(s@.subrange(0, head@.len() as int) =~= head@);
            }
        }
        return None;
    }
    let n = head.unicode_len();
    let rest = s.substring_char(n, s.unicode_len());
    assert forall|b: Seq<u8>| s@ == head@ + #[trigger] base64_of(b) implies rest@ == base64_of(b) by {
        assert(rest@ =~= (head@ + base64_of(b)).subrange(head@.len() as int, s@.len() as int));
        assert((head@ + base64_of(b)).subrange(head@.len() as int, s@.len() as int) =~= base64_of(b));
    }
    decode_standard(rest)
}

} // verus!
