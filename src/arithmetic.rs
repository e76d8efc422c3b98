use crate::captcha::{FontRef, NOISE_STROKE};
use crate::color::{Alpha, Color};
use crate::frame::is_frame;
use crate::error::CaptchaError;
use crate::glyphs::GlyphMetrics;
use crate::canvas::Canvas;
use crate::randoms::{draw, next_state, Randoms};
use crate::static_captcha::{opaque_seq, palette_colors, SpecCaptcha};
use crate::text::{
    dec_int, dec_nat, i64_to_string, lemma_dec_nat_digits, push_char,
    push_decimal,
};
use vstd::prelude::*;
use vstd::arithmetic::div_mod::lemma_mod_multiples_basic;

verus! {

/// A token of an arithmetic challenge: a number, or one of the four operators.
/// `value` is the token's glyph and `priority` tells the operators that bind
/// tighter (`x` and `÷`).
#[derive(Debug, Clone, Copy, PartialEq)]
pub enum Symbol {
    NUM { value: &'static str, priority: bool },
    ADD { value: &'static str, priority: bool },
    SUB { value: &'static str, priority: bool },
    MUL { value: &'static str, priority: bool },
    DIV { value: &'static str, priority: bool },
}

/// Position of the symbol in `n + - x ÷`.
pub open spec fn symbol_index(s: Symbol) -> int {
    match s {
        Symbol::NUM { .. } => 0,
        Symbol::ADD { .. } => 1,
        Symbol::SUB { .. } => 2,
        Symbol::MUL { .. } => 3,
        Symbol::DIV { .. } => 4,
    }
}

/// The glyph shown for the symbol.
pub open spec fn symbol_char(s: Symbol) -> char {
    match s {
        Symbol::NUM { .. } => 'n',
        Symbol::ADD { .. } => '+',
        Symbol::SUB { .. } => '-',
        Symbol::MUL { .. } => 'x',
        Symbol::DIV { .. } => '÷',
    }
}

/// The character that stands for the symbol in an evaluator's syntax.
pub open spec fn eval_char(s: Symbol) -> char {
    match s {
        Symbol::NUM { .. } => 'n',
        Symbol::ADD { .. } => '+',
        Symbol::SUB { .. } => '-',
        Symbol::MUL { .. } => '*',
        Symbol::DIV { .. } => '/',
    }
}

/// Whether the symbol binds tighter than `+` and `-`.
pub open spec fn is_high(s: Symbol) -> bool {
    symbol_index(s) >= 3
}

/// The symbol at `i` in `n + - x ÷`, each with its glyph as `value`.
pub open spec fn symbol_at(i: int) -> Symbol {
    if i == 0 {
        Symbol::NUM { value: "n", priority: false }
    } else if i == 1 {
        Symbol::ADD { value: "+", priority: false }
    } else if i == 2 {
        Symbol::SUB { value: "-", priority: false }
    } else if i == 3 {
        Symbol::MUL { value: "x", priority: true }
    } else {
        Symbol::DIV { value: "÷", priority: true }
    }
}

/// The glyph text a symbol carries.
pub open spec fn symbol_value(s: Symbol) -> &'static str {
    match s {
        Symbol::NUM { value, .. } => value,
        Symbol::ADD { value, .. } => value,
        Symbol::SUB { value, .. } => value,
        Symbol::MUL { value, .. } => value,
        Symbol::DIV { value, .. } => value,
    }
}

/// Position of the glyph `c` in `n + - x ÷`; 5 for any other character.
pub open spec fn glyph_index(c: char) -> int {
    if c == 'n' {
        0
    } else if c == '+' {
        1
    } else if c == '-' {
        2
    } else if c == 'x' {
        3
    } else if c == '÷' {
        4
    } else {
        5
    }
}

/// The symbol is one of the five of [`symbol_at`], value and priority included.
pub open spec fn symbol_wf(s: Symbol) -> bool {
    s == symbol_at(symbol_index(s))
}

/// Each of the five symbols carries its own glyph as `value`, and reading
/// that glyph back gives the same symbol.
pub proof fn lemma_symbol_glyphs(i: int)
    requires
        0 <= i <= 4,
    ensures
        symbol_index(symbol_at(i)) == i,
        symbol_value(symbol_at(i))@ == seq![symbol_char(symbol_at(i))],
        glyph_index(symbol_char(symbol_at(i))) == i,
{
    reveal_strlit("n");
    reveal_strlit("+");
    reveal_strlit("-");
    reveal_strlit("x");
    reveal_strlit("÷");
    assert(symbol_value(symbol_at(i))@ =~= seq![symbol_char(symbol_at(i))]);
}

impl Symbol {
    /// The symbol at `i` in `n + - x ÷`.
    pub fn from_index(i: usize) -> (r: Symbol)
        requires
            i <= 4,
        ensures
            r == symbol_at(i as int),
            symbol_index(r) == i,
            symbol_wf(r),
    {
        if i == 0 {
            Symbol::NUM { value: "n", priority: false }
        } else if i == 1 {
            Symbol::ADD { value: "+", priority: false }
        } else if i == 2 {
            Symbol::SUB { value: "-", priority: false }
        } else if i == 3 {
            Symbol::MUL { value: "x", priority: true }
        } else {
            Symbol::DIV { value: "÷", priority: true }
        }
    }

    /// The symbol written as `c`: one of `n + - x ÷`.
    pub fn of(c: &str) -> (r: Result<Symbol, &'static str>)
        ensures
            r.is_ok() <==> c@.len() == 1 && (c@[0] == 'n' || c@[0] == '+' || c@[0] == '-' || c@[0]
                == 'x' || c@[0] == '÷'),
            r.is_ok() ==> r.unwrap() == symbol_at(glyph_index(c@[0])) && symbol_char(r.unwrap())
                == c@[0] && symbol_value(r.unwrap())@ == c@ && symbol_wf(r.unwrap()),
    {
        if c.unicode_len() != 1 {
            return Err("unsupported symbol: only +, -, x and ÷");
        }
        let ch = c.get_char(0);
        let i: usize = if ch == 'n' {
            0
        } else if ch == '+' {
            1
        } else if ch == '-' {
            2
        } else if ch == 'x' {
            3
        } else if ch == '÷' {
            4
        } else {
            5
        };
        proof {
            if i <= 4 {
                lemma_symbol_glyphs(i as int);
                assert(c@ =~= seq![c@[0]]);
            }
        }
        if i <= 4 {
            Ok(Symbol::from_index(i))
        } else {
            Err("unsupported symbol: only +, -, x and ÷")
        }
    }

    pub fn is_div(&self) -> (b: bool)
        ensures
            b == (symbol_index(*self) == 4),
    {
        match self {
            Symbol::DIV { .. } => true,
            _ => false,
        }
    }

    pub fn is_sub(&self) -> (b: bool)
        ensures
            b == (symbol_index(*self) == 2),
    {
        match self {
            Symbol::SUB { .. } => true,
            _ => false,
        }
    }
}

/// `r` is an integer square root of `n`.
pub open spec fn is_root(n: int, r: int) -> bool {
    0 <= r && r * r <= n && n < (r + 1) * (r + 1)
}

/// The integer square root of `n`: the `r >= 0` with
/// `r * r <= n < (r + 1) * (r + 1)`.
pub open spec fn isqrt_of(n: int) -> int {
    choose|r: int| #[trigger] is_root(n, r)
}

/// There is one integer square root, so [`isqrt_of`] is it.
pub proof fn lemma_isqrt_unique(n: int, r: int)
    requires
        0 <= r,
        r * r <= n < (r + 1) * (r + 1),
    ensures
        isqrt_of(n) == r,
{
    assert(is_root(n, r));
    let t = isqrt_of(n);
    assert(is_root(n, t));
    if t < r {
        assert((t + 1) * (t + 1) <= r * r) by (nonlinear_arith)
            requires
                0 <= t < r,
        ;
    } else if r < t {
        assert((r + 1) * (r + 1) <= t * t) by (nonlinear_arith)
            requires
                0 <= r < t,
        ;
    }
}

/// Largest `r` with `r * r <= n`.
pub fn isqrt(n: u64) -> (r: u64)
    ensures
        r * r <= n,
        n < (r + 1) * (r + 1),
        r == isqrt_of(n as int),
{
    let mut lo: u64 = 0;
    let mut hi: u64 = 4294967296;
    assert(n < 4294967296 * 4294967296);
    while hi - lo > 1
        invariant
            lo < hi <= 4294967296,
            lo * lo <= n,
            n < hi * hi,
        decreases hi - lo,
    {
        let mid = lo + (hi - lo) / 2;
        assert(mid * mid <= 4294967295 * 4294967295) by (nonlinear_arith)
            requires
                mid < 4294967296,
        ;
        if mid * mid <= n {
            lo = mid;
        } else {
            hi = mid;
        }
    }
    proof {
        lemma_isqrt_unique(n as int, lo as int);
    }
    lo
}

/// `q` is the integer square root of `d`.
#[verifier::opaque]
pub open spec fn is_isqrt(q: int, d: int) -> bool {
    q * q <= d < (q + 1) * (q + 1)
}

/// `b` is a nonzero factor of `a`.
#[verifier::opaque]
pub open spec fn divides(b: int, a: int) -> bool {
    b >= 1 && a % b == 0
}

/// Number of division symbols in `ops`.
pub open spec fn div_count(ops: Seq<Symbol>) -> nat
    decreases ops.len(),
{
    if ops.len() == 0 {
        0
    } else {
        div_count(ops.drop_last()) + if symbol_index(ops.last()) == 4 {
            1nat
        } else {
            0nat
        }
    }
}

/// The highest operator index allowed for `sign` kinds of operator.
pub open spec fn top_operator(sign: int) -> int {
    if sign < 4 {
        sign
    } else {
        4
    }
}

/// Whether `xs` and `ops` form an expression that the generator may produce
/// for `n` operands, difficulty `d` and `sign` kinds of operator:
/// operands at most `d` (the first below it), operators among the enabled
/// ones, at most one division, the divisor nonzero and a factor of the
/// operand before it, and the operand after a `-` at most the first operand
/// (unless a `÷` follows it, which redraws it).
pub open spec fn generated(xs: Seq<u64>, ops: Seq<Symbol>, n: int, d: int, sign: int) -> bool {
    &&& xs.len() == n
    &&& ops.len() == n - 1
    &&& xs[0] < d
    &&& forall|j: int| 0 <= j < xs.len() ==> #[trigger] xs[j] <= d
    &&& forall|j: int|
        0 <= j < ops.len() ==> 1 <= symbol_index(#[trigger] ops[j]) <= top_operator(sign)
            && symbol_wf(ops[j])
    &&& div_count(ops) <= 1
    &&& forall|j: int|
        0 <= j < ops.len() && symbol_index(#[trigger] ops[j]) == 4 ==> divides(
            xs[j + 1] as int,
            xs[j] as int,
        )
    &&& forall|j: int|
        0 <= j < ops.len() && symbol_index(#[trigger] ops[j]) == 2 && (j + 1 < ops.len()
            ==> symbol_index(ops[j + 1]) != 4) ==> xs[j + 1] <= xs[0]
}

proof fn lemma_div_count_push(ops: Seq<Symbol>, s: Symbol)
    ensures
        div_count(ops.push(s)) == div_count(ops) + if symbol_index(s) == 4 {
            1nat
        } else {
            0nat
        },
{
    assert(ops.push(s).drop_last() =~= ops);
}

proof fn lemma_div_count_zero(ops: Seq<Symbol>, j: int)
    requires
        0 <= j < ops.len(),
        symbol_index(ops[j]) == 4,
    ensures
        div_count(ops) >= 1,
    decreases ops.len(),
{
    if j < ops.len() - 1 {
        lemma_div_count_zero(ops.drop_last(), j);
    }
}

proof fn lemma_div_count_two(ops: Seq<Symbol>, j1: int, j2: int)
    requires
        0 <= j1 < j2 < ops.len(),
        symbol_index(ops[j1]) == 4,
        symbol_index(ops[j2]) == 4,
    ensures
        div_count(ops) >= 2,
    decreases ops.len(),
{
    if j2 < ops.len() - 1 {
        lemma_div_count_two(ops.drop_last(), j1, j2);
    } else {
        lemma_div_count_zero(ops.drop_last(), j1);
    }
}

/// The divisor and the new dividend that a division draws from operand
/// `number` with the source at `s`: the divisor is the integer square root
/// of `number`, at least 1; the dividend is the divisor times a factor below `q`.
pub open spec fn division_draw(number: u64, q: u64, s: u64) -> (u64, u64) {
    let root = isqrt_of(number as int);
    let dv: int = if root == 0 {
        1
    } else {
        root
    };
    (dv as u64, (dv * (draw(s) as int % q as int)) as u64)
}

/// The operands after drawing the next one from state `s`, that operand, and
/// the state after.
pub open spec fn operand_step(
    xs: Seq<u64>,
    after_div: bool,
    after_sub: bool,
    s: u64,
    d: u64,
    q: u64,
) -> (Seq<u64>, u64, u64) {
    let n0 = (draw(s) as int % d as int) as u64;
    let s1 = next_state(s);
    if after_div {
        let (dv, p) = division_draw(n0, q, s1);
        (xs.update(xs.len() - 1, p), dv, next_state(s1))
    } else if after_sub {
        (xs, (draw(s1) as int % (xs[0] as int + 1)) as u64, next_state(s1))
    } else {
        (xs, n0, s1)
    }
}

/// The operator drawn from state `s` with `divs` divisions so far, and the
/// state after.
pub open spec fn operator_step(s: u64, top: u64, divs: u64) -> (Symbol, u64) {
    (symbol_at(1 + draw(s) as int % (top as int - divs as int)), next_state(s))
}

/// Step `i` of the generator: operands, operators, state and divisions so far.
pub open spec fn gen_step(
    st: (Seq<u64>, Seq<Symbol>, u64, u64),
    i: int,
    n: int,
    d: u64,
    q: u64,
    top: u64,
) -> (Seq<u64>, Seq<Symbol>, u64, u64) {
    let (xs, ops, s, divs) = st;
    let after_div = i > 0 && symbol_index(ops[i - 1]) == 4;
    let after_sub = i > 0 && symbol_index(ops[i - 1]) == 2;
    let (xs1, number, s1) = operand_step(xs, after_div, after_sub, s, d, q);
    if i < n - 1 {
        let (sym, s2) = operator_step(s1, top, divs);
        (
            xs1.push(number),
            ops.push(sym),
            s2,
            if symbol_index(sym) == 4 {
                (divs + 1) as u64
            } else {
                divs
            },
        )
    } else {
        (xs1.push(number), ops, s1, divs)
    }
}

/// The generator after `i` steps from state `s0`.
pub open spec fn gen_upto(s0: u64, n: int, d: u64, q: u64, top: u64, i: nat) -> (
    Seq<u64>,
    Seq<Symbol>,
    u64,
    u64,
)
    decreases i,
{
    if i == 0 {
        (Seq::empty(), Seq::empty(), s0, 0u64)
    } else {
        gen_step(gen_upto(s0, n, d, q, top, (i - 1) as nat), i - 1, n, d, q, top)
    }
}

/// The operands and operators that the generator draws for `n` operands,
/// difficulty `d` and `sign` kinds of operator, from state `s0`.
pub open spec fn expression_of(s0: u64, n: int, d: u64, sign: u64) -> (Seq<u64>, Seq<Symbol>) {
    let g = gen_upto(
        s0,
        n,
        d,
        isqrt_of(d as int) as u64,
        top_operator(sign as int) as u64,
        n as nat,
    );
    (g.0, g.1)
}

/// The state of the source after the generator's draws.
pub open spec fn expression_state(s0: u64, n: int, d: u64, sign: u64) -> u64 {
    gen_upto(
        s0,
        n,
        d,
        isqrt_of(d as int) as u64,
        top_operator(sign as int) as u64,
        n as nat,
    ).2
}

/// The divisor that follows a division, drawn from `number`: its integer
/// square root, at least 1; and a new dividend, that divisor times a random
/// factor below `q`.
fn draw_division(rnd: &mut Randoms, number: u64, d: u64, q: u64) -> (r: (u64, u64))
    requires
        number < d,
        q >= 1,
        is_isqrt(q as int, d as int),
    ensures
        1 <= r.0 <= d,
        r.1 < d,
        divides(r.0 as int, r.1 as int),
        r == division_draw(number, q, old(rnd).state),
        final(rnd).state == next_state(old(rnd).state),
{
    reveal(is_isqrt);
    reveal(divides);
    let root = isqrt(number);
    assert(root <= q) by (nonlinear_arith)
        requires
            root * root <= number,
            number < d,
            q * q <= d < (q + 1) * (q + 1),
    ;
    let divisor = if root == 0 {
        1
    } else {
        root
    };
    let k = rnd.num(q);
    assert(divisor * k <= q * k) by (nonlinear_arith)
        requires
            1 <= divisor <= q,
    ;
    assert(q * k < q * q) by (nonlinear_arith)
        requires
            k < q,
            q >= 1,
    ;
    assert(divisor <= q * q) by (nonlinear_arith)
        requires
            1 <= divisor <= q,
    ;
    let prod = divisor * k;
    proof {
        lemma_mod_multiples_basic(k as int, divisor as int);
        assert(prod as int == k as int * divisor as int) by (nonlinear_arith)
            requires
                prod == divisor * k,
        ;
    }
    (divisor, prod)
}

/// Draws the next operand, at most `d`. After a division the operand
/// before it, the last of `xs`, is redrawn as a multiple of the new operand,
/// which is then at least 1; after a subtraction the operand is at most the
/// first.
fn draw_operand(
    rnd: &mut Randoms,
    xs: &mut Vec<u64>,
    after_div: bool,
    after_sub: bool,
    d: u64,
    q: u64,
) -> (number: u64)
    requires
        d >= 1,
        q >= 1,
        is_isqrt(q as int, d as int),
        forall|j: int| 0 <= j < old(xs)@.len() ==> #[trigger] old(xs)@[j] <= d,
        old(xs)@.len() >= 1 ==> old(xs)@[0] < d,
        (after_div || after_sub) ==> old(xs)@.len() >= 1,
        !(after_div && after_sub),
    ensures
        number <= d,
        old(xs)@.len() == 0 ==> number < d,
        final(xs)@.len() == old(xs)@.len(),
        forall|j: int| 0 <= j < final(xs)@.len() ==> #[trigger] final(xs)@[j] <= d,
        final(xs)@.len() >= 1 ==> final(xs)@[0] < d,
        !after_div ==> final(xs)@ == old(xs)@,
        after_sub ==> number <= old(xs)@[0],
        after_div ==> divides(number as int, final(xs)@[final(xs)@.len() - 1] as int) && forall|
            j: int,
        |
            0 <= j < final(xs)@.len() - 1 ==> #[trigger] final(xs)@[j] == old(xs)@[j],
        (final(xs)@, number, final(rnd).state) == operand_step(
            old(xs)@,
            after_div,
            after_sub,
            old(rnd).state,
            d,
            q,
        ),
{
    let mut number = rnd.num(d);
    if after_div {
        let (divisor, prod) = draw_division(rnd, number, d, q);
        number = divisor;
        let last = xs.len() - 1;
        xs.set(last, prod);
    }
    if after_sub {
        let first = xs[0];
        number = rnd.num(first + 1);
    }
    number
}

/// Draws an operator index in `[1, top - div_amount]`.
fn draw_operator(rnd: &mut Randoms, top: u64, div_amount: u64) -> (sym: Symbol)
    requires
        2 <= top <= 4,
        div_amount <= 1,
        div_amount == 1 ==> top == 4,
    ensures
        1 <= symbol_index(sym) <= top - div_amount,
        symbol_wf(sym),
        (sym, final(rnd).state) == operator_step(old(rnd).state, top, div_amount),
{
    let hi: u64 = top - div_amount;
    let idx = rnd.num_between(1, hi as i64);
    Symbol::from_index(idx as usize)
}

/// Draws the operands and operators of an expression of `n` operands:
/// each operand below `d`; each operator uniform among the enabled ones,
/// division no more than once; after a division the operand before it is
/// redrawn as a multiple of the divisor; after a subtraction the operand is
/// at most the first one.
pub fn generate_expression(rnd: &mut Randoms, n: usize, d: u64, sign: u64) -> (r: (
    Vec<u64>,
    Vec<Symbol>,
))
    requires
        n >= 1,
        d >= 1,
        2 <= sign <= 5,
    ensures
        generated(r.0@, r.1@, n as int, d as int, sign as int),
        (r.0@, r.1@) == expression_of(old(rnd).state, n as int, d, sign),
        final(rnd).state == expression_state(old(rnd).state, n as int, d, sign),
{
    let ghost s0 = rnd.state;
    let mut xs: Vec<u64> = Vec::new();
    let mut ops: Vec<Symbol> = Vec::new();
    let mut div_amount: u64 = 0;
    let q = isqrt(d);
    assert(q >= 1) by (nonlinear_arith)
        requires
            d >= 1,
            d < (q + 1) * (q + 1),
    ;
    proof {
        reveal(is_isqrt);
    }
    let top: u64 = if sign < 4 {
        sign
    } else {
        4
    };
    let mut i: usize = 0;
    while i < n
        invariant
            n >= 1,
            d >= 1,
            2 <= sign <= 5,
            top == top_operator(sign as int),
            q >= 1,
            is_isqrt(q as int, d as int),
            i <= n,
            xs@.len() == i,
            ops@.len() == if i == 0 {
                0
            } else if i < n {
                i as int
            } else {
                n - 1
            },
            div_amount == div_count(ops@),
            div_amount <= 1,
            forall|j: int| 0 <= j < xs@.len() ==> #[trigger] xs@[j] <= d,
            xs@.len() >= 1 ==> xs@[0] < d,
            forall|j: int|
                0 <= j < ops@.len() ==> 1 <= symbol_index(#[trigger] ops@[j]) <= top
                    && symbol_wf(ops@[j]),
            forall|j: int|
                0 <= j < ops@.len() && j + 1 < xs@.len() && symbol_index(#[trigger] ops@[j]) == 4
                    ==> divides(xs@[j + 1] as int, xs@[j] as int),
            forall|j: int|
                0 <= j < ops@.len() && j + 1 < xs@.len() && symbol_index(#[trigger] ops@[j]) == 2
                    && (j + 1 < ops@.len() ==> symbol_index(ops@[j + 1]) != 4) ==> xs@[j + 1]
                    <= xs@[0],
            div_amount == 1 ==> top == 4,
            q == isqrt_of(d as int),
            (xs@, ops@, rnd.state, div_amount) == gen_upto(s0, n as int, d, q, top, i as nat),
        decreases n - i,
    {
        let ghost xs0 = xs@;
        let ghost ops0 = ops@;
        let after_div = i > 0 && ops[i - 1].is_div();
        let after_sub = i > 0 && ops[i - 1].is_sub();
        let number = draw_operand(rnd, &mut xs, after_div, after_sub, d, q);
        xs.push(number);
        if i < n - 1 {
            let sym = draw_operator(rnd, top, div_amount);
            proof {
                lemma_div_count_push(ops@, sym);
            }
            if sym.is_div() {
                div_amount = div_amount + 1;
            }
            ops.push(sym);
        }
        proof {
            assert forall|j: int|
                0 <= j < ops@.len() && j + 1 < xs@.len() && symbol_index(#[trigger] ops@[j]) == 4
                    implies divides(xs@[j + 1] as int, xs@[j] as int) by {
                assert(ops@[j] == ops0[j]);
                if j == i - 1 {
                    assert(after_div);
                } else {
                    assert(j + 1 < i);
                    if after_div {
                        lemma_div_count_two(ops0, j, i - 1);
                    }
                    assert(xs@[j] == xs0[j] && xs@[j + 1] == xs0[j + 1]);
                }
            }
            assert forall|j: int|
                0 <= j < ops@.len() && j + 1 < xs@.len() && symbol_index(#[trigger] ops@[j]) == 2
                    && (j + 1 < ops@.len() ==> symbol_index(ops@[j + 1]) != 4) implies xs@[j + 1]
                <= xs@[0] by {
                assert(ops@[j] == ops0[j]);
                if j == i - 1 {
                    assert(after_sub);
                    assert(xs@[0] == xs0[0]);
                } else {
                    assert(j + 1 < i);
                    assert(ops@[j + 1] == ops0[j + 1]);
                    if after_div {
                        assert(j + 1 != i - 1);
                    }
                    assert(xs@[j + 1] == xs0[j + 1]);
                    assert(xs@[0] == xs0[0]);
                }
            }
        }
        i = i + 1;
    }
    (xs, ops)
}

/// The text of the first `k` operators with their operands: operand 0, then
/// each operator glyph (`shown`) or evaluator character followed by the next
/// operand, in decimal.
pub open spec fn expr_text(xs: Seq<u64>, ops: Seq<Symbol>, k: int, shown: bool) -> Seq<char>
    decreases k,
{
    if k <= 0 {
        dec_nat(xs[0] as nat)
    } else {
        expr_text(xs, ops, k - 1, shown).push(
            if shown {
                symbol_char(ops[k - 1])
            } else {
                eval_char(ops[k - 1])
            },
        ) + dec_nat(xs[k] as nat)
    }
}

/// The expression as shown to the user, with `x` and `÷`.
pub open spec fn display_text(xs: Seq<u64>, ops: Seq<Symbol>) -> Seq<char> {
    expr_text(xs, ops, ops.len() as int, true)
}

/// The expression in an evaluator's syntax, with `*` and `/`.
pub open spec fn evaluator_text(xs: Seq<u64>, ops: Seq<Symbol>) -> Seq<char> {
    expr_text(xs, ops, ops.len() as int, false)
}

/// One more operand than operators, and every operator one of `+ - x ÷`.
pub open spec fn expr_shape(xs: Seq<u64>, ops: Seq<Symbol>) -> bool {
    &&& xs.len() == ops.len() + 1
    &&& forall|j: int| 0 <= j < ops.len() ==> 1 <= #[trigger] symbol_index(ops[j]) <= 4
}

pub open spec fn in_i64(v: int) -> bool {
    i64::MIN <= v <= i64::MAX
}

/// `a s b` on 64-bit signed integers: `None` when the result leaves the
/// range or the divisor is zero. Division is applied to non-negative
/// dividends only, where it truncates.
pub open spec fn apply_op(a: int, s: Symbol, b: int) -> Option<int> {
    let v = match s {
        Symbol::ADD { .. } => a + b,
        Symbol::SUB { .. } => a - b,
        Symbol::MUL { .. } => a * b,
        Symbol::DIV { .. } => if b == 0 {
            0
        } else {
            a / b
        },
        Symbol::NUM { .. } => 0,
    };
    if (symbol_index(s) == 4 && b == 0) || !in_i64(v) {
        None
    } else {
        Some(v)
    }
}

/// Evaluation of the first `k` operators with standard precedence, left to
/// right: the sum so far, the additive operator waiting for the current
/// product, and that product. `None` once any step overflows.
pub open spec fn fold_state(xs: Seq<u64>, ops: Seq<Symbol>, k: nat) -> Option<(int, Symbol, int)>
    decreases k,
{
    if k == 0 {
        if xs[0] <= i64::MAX {
            Some((0, Symbol::ADD { value: "+", priority: false }, xs[0] as int))
        } else {
            None
        }
    } else {
        match fold_state(xs, ops, (k - 1) as nat) {
            None => None,
            Some((sum, pending, prod)) => {
                let op = ops[k - 1];
                let y = xs[k as int] as int;
                if y > i64::MAX {
                    None
                } else if is_high(op) {
                    match apply_op(prod, op, y) {
                        Some(p) => Some((sum, pending, p)),
                        None => None,
                    }
                } else {
                    match apply_op(sum, pending, prod) {
                        Some(t) => Some((t, op, y)),
                        None => None,
                    }
                }
            },
        }
    }
}

/// Value of the expression with `x` and `÷` binding tighter than `+` and
/// `-`, in 64-bit signed arithmetic; `None` when a step overflows.
pub open spec fn expr_value(xs: Seq<u64>, ops: Seq<Symbol>) -> Option<int> {
    match fold_state(xs, ops, ops.len() as nat) {
        Some((sum, pending, prod)) => apply_op(sum, pending, prod),
        None => None,
    }
}

/// `a` is a whole multiple of `b`.
pub open spec fn multiple_of(a: int, b: int) -> bool {
    exists|m: int| a == #[trigger] (m * b)
}

/// Every division step of the evaluation is exact: the divisor is nonzero
/// and the product it divides leaves no remainder.
pub open spec fn divisions_exact(xs: Seq<u64>, ops: Seq<Symbol>) -> bool {
    forall|k: int|
        1 <= k <= ops.len() && symbol_index(#[trigger] ops[k - 1]) == 4 && fold_state(
            xs,
            ops,
            (k - 1) as nat,
        ).is_some() ==> xs[k] >= 1 && fold_state(xs, ops, (k - 1) as nat).unwrap().2 % (
        xs[k] as int) == 0
}

proof fn lemma_product_multiple(xs: Seq<u64>, ops: Seq<Symbol>, k: nat)
    requires
        xs.len() == ops.len() + 1,
        k <= ops.len(),
        k == 0 || symbol_index(ops[k - 1]) != 4,
        forall|j: int| 0 <= j < ops.len() ==> 1 <= #[trigger] symbol_index(ops[j]) <= 4,
        fold_state(xs, ops, k).is_some(),
    ensures
        multiple_of(fold_state(xs, ops, k).unwrap().2, xs[k as int] as int),
{
    let q = fold_state(xs, ops, k).unwrap().2;
    let y = xs[k as int] as int;
    if k == 0 {
        assert(q == 1 * y);
    } else {
        let op = ops[k - 1];
        assert(1 <= symbol_index(op) <= 4);
        if is_high(op) {
            let prev = fold_state(xs, ops, (k - 1) as nat).unwrap().2;
            assert(q == prev * y);
        } else {
            assert(q == 1 * y);
        }
    }
}

/// Whatever the draws, a generated expression holds at most one division,
/// and that division is exact: the divisor is nonzero and divides the
/// product before it.
pub proof fn lemma_generated_division_exact(
    xs: Seq<u64>,
    ops: Seq<Symbol>,
    n: int,
    d: int,
    sign: int,
)
    requires
        generated(xs, ops, n, d, sign),
    ensures
        div_count(ops) <= 1,
        divisions_exact(xs, ops),
{
    reveal(divides);
    assert forall|k: int|
        1 <= k <= ops.len() && symbol_index(#[trigger] ops[k - 1]) == 4 && fold_state(
            xs,
            ops,
            (k - 1) as nat,
        ).is_some() implies xs[k] >= 1 && fold_state(xs, ops, (k - 1) as nat).unwrap().2 % (
    xs[k] as int) == 0 by {
        if k >= 2 && symbol_index(ops[k - 2]) == 4 {
            lemma_div_count_two(ops, k - 2, k - 1);
        }
        lemma_product_multiple(xs, ops, (k - 1) as nat);
        let q = fold_state(xs, ops, (k - 1) as nat).unwrap().2;
        let b = xs[k - 1] as int;
        let c = xs[k] as int;
        assert(divides(c, b));
        let m = choose|m: int| q == #[trigger] (m * b);
        let t = b / c;
        assert(b == t * c) by {
            vstd::arithmetic::div_mod::lemma_fundamental_div_mod(b, c);
        }
        assert(q == (m * t) * c) by (nonlinear_arith)
            requires
                q == m * b,
                b == t * c,
        ;
        lemma_mod_multiples_basic(m * t, c);
    }
}

/// Most operators handed to the evaluator. It builds a tree at most one
/// level deeper per operator and walks it recursively, so this bounds its
/// stack use; the bound is far below what a 2 MiB thread stack holds.
pub const EVAL_MAX_OPERATORS: usize = 512;

/// Most operands in an arithmetic challenge: one more than the operators.
pub const MAX_OPERANDS: usize = 513;

/// A character of the evaluator's input: a digit or one of `+ - * /`.
pub open spec fn is_eval_char(c: char) -> bool {
    ('0' <= c && c <= '9') || c == '+' || c == '-' || c == '*' || c == '/'
}

/// Number of characters of `s` that are not digits.
pub open spec fn op_count(s: Seq<char>) -> nat
    decreases s.len(),
{
    if s.len() == 0 {
        0
    } else {
        op_count(s.drop_last()) + if '0' <= s.last() && s.last() <= '9' {
            0nat
        } else {
            1nat
        }
    }
}

proof fn lemma_op_count_append(a: Seq<char>, b: Seq<char>)
    ensures
        op_count(a + b) == op_count(a) + op_count(b),
    decreases b.len(),
{
    if b.len() > 0 {
        assert((a + b).drop_last() =~= a + b.drop_last());
        lemma_op_count_append(a, b.drop_last());
    } else {
        assert(a + b =~= a);
    }
}

proof fn lemma_op_count_digits(s: Seq<char>)
    requires
        forall|i: int| 0 <= i < s.len() ==> '0' <= #[trigger] s[i] <= '9',
    ensures
        op_count(s) == 0,
    decreases s.len(),
{
    if s.len() > 0 {
        lemma_op_count_digits(s.drop_last());
    }
}

/// The evaluator text of the first `k` operators holds digits and operator
/// characters only, with exactly `k` operators.
pub proof fn lemma_evaluator_text(xs: Seq<u64>, ops: Seq<Symbol>, k: int)
    requires
        expr_shape(xs, ops),
        0 <= k <= ops.len(),
    ensures
        op_count(expr_text(xs, ops, k, false)) == k,
        forall|i: int|
            0 <= i < expr_text(xs, ops, k, false).len() ==> is_eval_char(
                #[trigger] expr_text(xs, ops, k, false)[i],
            ),
    decreases k,
{
    lemma_dec_nat_digits(xs[k] as nat);
    lemma_op_count_digits(dec_nat(xs[k] as nat));
    if k > 0 {
        lemma_evaluator_text(xs, ops, k - 1);
        let prev = expr_text(xs, ops, k - 1, false).push(eval_char(ops[k - 1]));
        let tail = dec_nat(xs[k] as nat);
        assert(1 <= symbol_index(ops[k - 1]) <= 4);
        assert(prev.drop_last() =~= expr_text(xs, ops, k - 1, false));
        assert(op_count(prev) == k);
        lemma_op_count_append(prev, tail);
        assert forall|i: int|
            0 <= i < expr_text(xs, ops, k, false).len() implies is_eval_char(
            #[trigger] expr_text(xs, ops, k, false)[i],
        ) by {
            if i < prev.len() {
                assert(expr_text(xs, ops, k, false)[i] == prev[i]);
                if i < prev.len() - 1 {
                    assert(prev[i] == expr_text(xs, ops, k - 1, false)[i]);
                }
            } else {
                assert(expr_text(xs, ops, k, false)[i] == tail[i - prev.len()]);
            }
        }
    } else {
        assert(expr_text(xs, ops, 0, false) == dec_nat(xs[0] as nat));
    }
}

pub open spec fn as_i64(v: Option<int>) -> Option<i64> {
    match v {
        Some(x) => Some(x as i64),
        None => None,
    }
}

/// Relies on evalexpr's `eval_int`: on integer literals joined by `+ - * /`
/// it applies `*` and `/` before `+` and `-`, left to right within a level,
/// with checked 64-bit arithmetic, failing on overflow or a zero divisor.
#[verifier::external_body]
fn eval_int(s: &str) -> (r: Option<i64>)
    requires
        forall|i: int| 0 <= i < s@.len() ==> is_eval_char(#[trigger] s@[i]),
        op_count(s@) <= EVAL_MAX_OPERATORS,
    ensures
        forall|xs: Seq<u64>, ops: Seq<Symbol>|
            expr_shape(xs, ops) && #[trigger] evaluator_text(xs, ops) == s@ ==> r == as_i64(
                expr_value(xs, ops),
            ),
{
    evalexpr::eval_int(s).ok()
}

fn shown_char(s: &Symbol) -> (c: char)
    ensures
        c == symbol_char(*s),
{
    match s {
        Symbol::NUM { .. } => 'n',
        Symbol::ADD { .. } => '+',
        Symbol::SUB { .. } => '-',
        Symbol::MUL { .. } => 'x',
        Symbol::DIV { .. } => '÷',
    }
}

fn evaluator_char(s: &Symbol) -> (c: char)
    ensures
        c == eval_char(*s),
{
    match s {
        Symbol::NUM { .. } => 'n',
        Symbol::ADD { .. } => '+',
        Symbol::SUB { .. } => '-',
        Symbol::MUL { .. } => '*',
        Symbol::DIV { .. } => '/',
    }
}

/// The expression's text, shown or in an evaluator's syntax.
pub fn expression_text(xs: &Vec<u64>, ops: &Vec<Symbol>, shown: bool) -> (r: String)
    requires
        xs@.len() == ops@.len() + 1,
    ensures
        r@ == expr_text(xs@, ops@, ops@.len() as int, shown),
{
    let mut s = String::new();
    push_decimal(&mut s, xs[0]);
    assert(s@ =~= expr_text(xs@, ops@, 0, shown));
    let mut k: usize = 0;
    while k < ops.len()
        invariant
            xs@.len() == ops@.len() + 1,
            k <= ops@.len(),
            s@ == expr_text(xs@, ops@, k as int, shown),
        decreases ops@.len() - k,
    {
        let c = if shown {
            shown_char(&ops[k])
        } else {
            evaluator_char(&ops[k])
        };
        push_char(&mut s, c);
        push_decimal(&mut s, xs[k + 1]);
        k = k + 1;
    }
    s
}

/// An arithmetic challenge: the image shows an expression such as `3+4x2=?`
/// and the answer is its value.
pub struct ArithmeticCaptcha {
    pub png: SpecCaptcha,
    pub arithmetic_string: Option<String>,
    pub difficulty: u64,
    pub algorithm_sign: u64,
}

/// What generating the challenge from `xs` and `ops` leaves: the shown
/// expression followed by `=?`, and its value in decimal as the answer; or,
/// when the value overflows, an evaluation error and nothing kept.
pub open spec fn arithmetic_outcome(
    a: ArithmeticCaptcha,
    r: Result<Vec<char>, CaptchaError>,
    xs: Seq<u64>,
    ops: Seq<Symbol>,
) -> bool {
    match expr_value(xs, ops) {
        Some(v) => {
            &&& r.is_ok()
            &&& r.unwrap()@ == dec_int(v)
            &&& a.png.captcha.chars.is_some()
            &&& a.png.captcha.chars.unwrap()@ == dec_int(v)
            &&& a.arithmetic_string.is_some()
            &&& a.arithmetic_string.unwrap()@ == display_text(xs, ops) + seq!['=', '?']
        },
        None => {
            &&& r == Err::<Vec<char>, CaptchaError>(CaptchaError::Evaluation)
            &&& a.png.captcha.chars.is_none()
            &&& a.arithmetic_string.is_none()
        },
    }
}

/// The expression that generating `a`'s challenge draws from its source's
/// current state.
pub open spec fn challenge_of(a: ArithmeticCaptcha) -> (Seq<u64>, Seq<Symbol>) {
    expression_of(
        a.png.captcha.randoms.state,
        a.png.captcha.len as int,
        a.difficulty,
        a.algorithm_sign,
    )
}

impl ArithmeticCaptcha {
    /// Positive size and operand count, a positive difficulty, two to five
    /// kinds of operator, and an answer kept whenever an expression is.
    pub open spec fn wf(&self) -> bool {
        &&& self.png.captcha.wf()
        &&& self.difficulty >= 1
        &&& 2 <= self.algorithm_sign <= 5
        &&& self.arithmetic_string.is_some() ==> self.png.captcha.chars.is_some()
    }

    /// Two operands below 10, operators `+ - x ÷`, on a freshly seeded source.
    pub fn new() -> (a: ArithmeticCaptcha)
        ensures
            a.wf(),
            a.png.captcha.len == 2,
            a.png.captcha.width == 130,
            a.png.captcha.height == 48,
            a.difficulty == 10,
            a.algorithm_sign == 4,
            a.arithmetic_string.is_none(),
            a.png.captcha.chars.is_none(),
    {
        let mut png = SpecCaptcha::new();
        png.captcha.len = 2;
        ArithmeticCaptcha { png, arithmetic_string: None, difficulty: 10, algorithm_sign: 4 }
    }

    /// Default settings on a source started from `seed`.
    pub fn with_seed(seed: u64) -> (a: ArithmeticCaptcha)
        ensures
            a.wf(),
            a.png.captcha.randoms.state == seed,
            a.png.captcha.len == 2,
            a.png.captcha.width == 130,
            a.png.captcha.height == 48,
            a.difficulty == 10,
            a.algorithm_sign == 4,
            a.arithmetic_string.is_none(),
            a.png.captcha.chars.is_none(),
    {
        let mut png = SpecCaptcha::with_seed(seed);
        png.captcha.len = 2;
        ArithmeticCaptcha { png, arithmetic_string: None, difficulty: 10, algorithm_sign: 4 }
    }

    pub fn with_size(width: i32, height: i32) -> (a: ArithmeticCaptcha)
        requires
            width > 0,
            height > 0,
        ensures
            a.wf(),
            a.png.captcha.len == 2,
            a.png.captcha.width == width,
            a.png.captcha.height == height,
            a.arithmetic_string.is_none(),
            a.png.captcha.chars.is_none(),
    {
        let mut a = ArithmeticCaptcha::new();
        a.png.captcha.width = width;
        a.png.captcha.height = height;
        a
    }

    pub fn with_size_and_len(width: i32, height: i32, len: usize) -> (a: ArithmeticCaptcha)
        requires
            width > 0,
            height > 0,
            len >= 1,
        ensures
            a.wf(),
            a.png.captcha.len == len,
            a.png.captcha.width == width,
            a.png.captcha.height == height,
            a.arithmetic_string.is_none(),
            a.png.captcha.chars.is_none(),
    {
        let mut a = ArithmeticCaptcha::new();
        a.png.captcha.width = width;
        a.png.captcha.height = height;
        a.png.captcha.len = len;
        a
    }

    pub fn with_all(width: i32, height: i32, len: usize, font: FontRef, font_size: u32) -> (a:
        ArithmeticCaptcha)
        requires
            width > 0,
            height > 0,
            len >= 1,
        ensures
            a.wf(),
            a.png.captcha.len == len,
            a.png.captcha.width == width,
            a.png.captcha.height == height,
            a.png.captcha.font == Some(font),
            a.png.captcha.font_size == font_size,
            a.arithmetic_string.is_none(),
            a.png.captcha.chars.is_none(),
    {
        let mut a = ArithmeticCaptcha::with_size_and_len(width, height, len);
        a.png.captcha.font = Some(font);
        a.png.captcha.font_size = font_size;
        a
    }

    /// Generates a new expression of `len` operands and keeps it with its
    /// value as the answer. More than [`MAX_OPERANDS`] operands are refused
    /// and change nothing.
    pub fn alphas(&mut self) -> (r: Result<Vec<char>, CaptchaError>)
        requires
            old(self).wf(),
        ensures
            final(self).wf(),
            old(self).png.captcha.len > MAX_OPERANDS ==> r == Err::<Vec<char>, CaptchaError>(
                CaptchaError::TooManyOperands,
            ) && *final(self) == *old(self),
            old(self).png.captcha.len <= MAX_OPERANDS ==> generated(
                challenge_of(*old(self)).0,
                challenge_of(*old(self)).1,
                old(self).png.captcha.len as int,
                old(self).difficulty as int,
                old(self).algorithm_sign as int,
            ) && arithmetic_outcome(
                *final(self),
                r,
                challenge_of(*old(self)).0,
                challenge_of(*old(self)).1,
            ),
            old(self).png.captcha.len <= MAX_OPERANDS ==> final(self).png.captcha.randoms.state
                == expression_state(
                old(self).png.captcha.randoms.state,
                old(self).png.captcha.len as int,
                old(self).difficulty,
                old(self).algorithm_sign,
            ),
            final(self).png.captcha.len == old(self).png.captcha.len,
            final(self).png.captcha.width == old(self).png.captcha.width,
            final(self).png.captcha.height == old(self).png.captcha.height,
            final(self).difficulty == old(self).difficulty,
            final(self).algorithm_sign == old(self).algorithm_sign,
    {
        let n = self.png.captcha.len;
        if n > MAX_OPERANDS {
            return Err(CaptchaError::TooManyOperands);
        }
        let (xs, ops) = generate_expression(
            &mut self.png.captcha.randoms,
            n,
            self.difficulty,
            self.algorithm_sign,
        );
        let shown = expression_text(&xs, &ops, true);
        let plain = expression_text(&xs, &ops, false);
        proof {
            assert(expr_shape(xs@, ops@));
            assert(evaluator_text(xs@, ops@) == plain@);
            lemma_evaluator_text(xs@, ops@, ops@.len() as int);
        }
        match eval_int(plain.as_str()) {
            Some(v) => {
                let answer = i64_to_string(v);
                let mut text = shown;
                push_char(&mut text, '=');
                push_char(&mut text, '?');
                assert(text@ =~= display_text(xs@, ops@) + seq!['=', '?']);
                self.arithmetic_string = Some(text);
                self.png.captcha.chars = Some(answer);
                let r = self.png.captcha.text_char();
                assert(arithmetic_outcome(*self, Ok::<Vec<char>, CaptchaError>(r), xs@, ops@));
                Ok(r)
            },
            None => {
                self.arithmetic_string = None;
                self.png.captcha.chars = None;
                Err(CaptchaError::Evaluation)
            },
        }
    }

    /// The shown expression, ending in `=?`, generated on first use.
    pub fn get_arithmetic_string(&mut self) -> (r: Result<String, CaptchaError>)
        requires
            old(self).wf(),
        ensures
            final(self).wf(),
            old(self).arithmetic_string.is_some() ==> r == Ok::<String, CaptchaError>(
                old(self).arithmetic_string.unwrap(),
            ) && *final(self) == *old(self),
            r.is_ok() ==> final(self).arithmetic_string == Some(r.unwrap()),
            old(self).arithmetic_string.is_none() && old(self).png.captcha.len > MAX_OPERANDS
                ==> r == Err::<String, CaptchaError>(CaptchaError::TooManyOperands),
            old(self).arithmetic_string.is_none() && old(self).png.captcha.len <= MAX_OPERANDS
                ==> generated(
                challenge_of(*old(self)).0,
                challenge_of(*old(self)).1,
                old(self).png.captcha.len as int,
                old(self).difficulty as int,
                old(self).algorithm_sign as int,
            ) && ({
                let (xs, ops) = challenge_of(*old(self));
                match expr_value(xs, ops) {
                    Some(v) => r.is_ok() && r.unwrap()@ == display_text(xs, ops) + seq!['=', '?']
                        && final(self).png.captcha.chars.unwrap()@ == dec_int(v),
                    None => r == Err::<String, CaptchaError>(CaptchaError::Evaluation),
                }
            }),
    {
        if self.arithmetic_string.is_none() {
            match self.alphas() {
                Ok(_) => {},
                Err(e) => {
                    return Err(e);
                },
            }
        }
        match &self.arithmetic_string {
            Some(s) => Ok(s.clone()),
            None => Err(CaptchaError::Evaluation),
        }
    }

    /// The answer, generated on first use and the same on every later call.
    pub fn get_chars(&mut self) -> (r: Result<Vec<char>, CaptchaError>)
        requires
            old(self).wf(),
        ensures
            final(self).wf(),
            old(self).arithmetic_string.is_some() ==> r.is_ok() && r.unwrap()@
                == old(self).png.captcha.chars.unwrap()@ && *final(self) == *old(self),
            r.is_ok() ==> final(self).png.captcha.chars.is_some() && r.unwrap()@
                == final(self).png.captcha.chars.unwrap()@,
            old(self).arithmetic_string.is_none() && old(self).png.captcha.len > MAX_OPERANDS
                ==> r == Err::<Vec<char>, CaptchaError>(CaptchaError::TooManyOperands),
            old(self).arithmetic_string.is_none() && old(self).png.captcha.len <= MAX_OPERANDS
                ==> generated(
                challenge_of(*old(self)).0,
                challenge_of(*old(self)).1,
                old(self).png.captcha.len as int,
                old(self).difficulty as int,
                old(self).algorithm_sign as int,
            ) && arithmetic_outcome(
                *final(self),
                r,
                challenge_of(*old(self)).0,
                challenge_of(*old(self)).1,
            ),
    {
        if self.arithmetic_string.is_none() {
            return self.alphas();
        }
        Ok(self.png.captcha.text_char())
    }

    /// Sets the bound on operands; zero stands for the default of 10.
    pub fn set_difficulty(&mut self, difficulty: usize)
        requires
            old(self).wf(),
        ensures
            final(self).wf(),
            final(self).difficulty == if difficulty == 0 {
                10
            } else {
                difficulty as u64
            },
            final(self).algorithm_sign == old(self).algorithm_sign,
            final(self).png == old(self).png,
            final(self).arithmetic_string == old(self).arithmetic_string,
    {
        self.difficulty = if difficulty == 0 {
            10
        } else {
            difficulty as u64
        };
    }

    /// Sets how many kinds of operator may appear, clamped to `[2, 5]`:
    /// 2 allows `+ -`, 3 adds `x`, 4 and 5 add `÷`.
    pub fn support_algorithm_sign(&mut self, algorithm_sign: usize)
        requires
            old(self).wf(),
        ensures
            final(self).wf(),
            final(self).algorithm_sign == if algorithm_sign < 2 {
                2
            } else if algorithm_sign > 5 {
                5
            } else {
                algorithm_sign as u64
            },
            final(self).difficulty == old(self).difficulty,
            final(self).png == old(self).png,
            final(self).arithmetic_string == old(self).arithmetic_string,
    {
        self.algorithm_sign = if algorithm_sign < 2 {
            2
        } else if algorithm_sign > 5 {
            5
        } else {
            algorithm_sign as u64
        };
    }

    /// Lays out the image of the shown expression `chars`; see
    /// [`SpecCaptcha::graphics_image`].
    pub fn graphics_image(&mut self, chars: &Vec<char>, metrics: &GlyphMetrics) -> (r: Result<
        Canvas,
        CaptchaError,
    >)
        requires
            old(self).wf(),
            chars@.len() > 0,
            chars@.len() <= u32::MAX,
            metrics.heights@.len() == chars@.len(),
        ensures
            final(self).wf(),
            r.is_err() <==> !old(self).png.captcha.fits(),
            r.is_err() ==> r == Err::<Canvas, CaptchaError>(CaptchaError::InvalidRange),
            r.is_ok() ==> ({
                let g = r.unwrap();
                &&& g.width == old(self).png.captcha.width
                &&& g.height == old(self).png.captcha.height
                &&& exists|cs: Seq<Color>|
                    palette_colors(cs, chars@.len() as int) && #[trigger] is_frame(
                        g.ops@,
                        old(self).png.captcha.width as int,
                        old(self).png.captcha.height as int,
                        Alpha { num: 1, den: 1 },
                        NOISE_STROKE,
                        Alpha { num: 1, den: 1 },
                        chars@,
                        cs,
                        opaque_seq(chars@.len() as int),
                        metrics.heights@,
                        metrics.reference_width as int,
                    )
            }),
            final(self).arithmetic_string == old(self).arithmetic_string,
            final(self).png.captcha.chars == old(self).png.captcha.chars,
    {
        self.png.graphics_image(chars, metrics)
    }

    /// MIME type of the encoded image.
    pub fn get_content_type(&self) -> (r: &'static str)
        ensures
            r@ == "image/png"@,
    {
        "image/png"
    }
}

} // verus!
