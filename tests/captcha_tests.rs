use easy_captcha::arithmetic::isqrt;
use easy_captcha::captcha::MIN_SIDE;
use easy_captcha::glyphs::get_alpha;
use easy_captcha::text::{base64_strip_decode, base64_with_head, i64_to_string, u64_to_string};
use easy_captcha::{
    Alpha, ArithmeticCaptcha, Canvas, Captcha, CaptchaError, CaptchaFont, CaptchaType, Color,
    DrawOp, FontRef, GifCaptcha, GlyphMetrics, Randoms, SpecCaptcha, Symbol,
};

fn metrics_for(n: usize) -> GlyphMetrics {
    GlyphMetrics { reference_width: 20, heights: vec![Some(24); n] }
}

fn in_class(t: CaptchaType, c: char) -> bool {
    match t {
        CaptchaType::TypeDefault => c.is_ascii_alphanumeric(),
        CaptchaType::TypeOnlyNumber => c.is_ascii_digit(),
        CaptchaType::TypeOnlyChar => c.is_ascii_alphabetic(),
        CaptchaType::TypeOnlyUpper => c.is_ascii_uppercase(),
        CaptchaType::TypeOnlyLower => c.is_ascii_lowercase(),
        CaptchaType::TypeNumAndUpper => c.is_ascii_digit() || c.is_ascii_uppercase(),
    }
}

/// Splits `a+bx c÷d` into operands and operator glyphs.
fn tokens(expr: &str) -> (Vec<i64>, Vec<char>) {
    let mut nums = Vec::new();
    let mut ops = Vec::new();
    let mut cur = String::new();
    for c in expr.chars() {
        if c.is_ascii_digit() {
            cur.push(c);
        } else {
            nums.push(cur.parse::<i64>().unwrap());
            cur.clear();
            ops.push(c);
        }
    }
    nums.push(cur.parse::<i64>().unwrap());
    (nums, ops)
}

/// Evaluates with `x` and `÷` before `+` and `-`, left to right.
fn evaluate(nums: &[i64], ops: &[char]) -> i64 {
    let mut sum = 0i64;
    let mut pending = '+';
    let mut prod = nums[0];
    for (k, op) in ops.iter().enumerate() {
        let y = nums[k + 1];
        match op {
            'x' => prod *= y,
            '÷' => {
                assert!(y != 0);
                assert_eq!(prod % y, 0);
                prod /= y
            }
            _ => {
                sum = if pending == '+' { sum + prod } else { sum - prod };
                pending = *op;
                prod = y;
            }
        }
    }
    if pending == '+' {
        sum + prod
    } else {
        sum - prod
    }
}

#[test]
fn spec_it_works() {}

#[test]
fn gif_it_works() {
    let mut captcha = GifCaptcha::new();
    let chars = captcha.get_chars();
    let frames = captcha.frames(&chars, &metrics_for(chars.len())).unwrap();
    assert_eq!(frames.len(), chars.len());
    assert_eq!(captcha.get_content_type(), "image/gif");
}

#[test]
fn same_seed_same_draws() {
    let mut a = Randoms::with_seed(42);
    let mut b = Randoms::with_seed(42);
    for _ in 0..20 {
        assert_eq!(a.next_u64(), b.next_u64());
    }
}

#[test]
fn lcg_step_exact() {
    let mut r = Randoms::with_seed(0);
    let v = r.next_u64();
    let s: u64 = 1442695040888963407;
    assert_eq!(r.state, s);
    assert_eq!(v, s ^ (s >> 32));
}

#[test]
fn uniform_ranges_hold() {
    let mut r = Randoms::with_seed(7);
    for _ in 0..500 {
        let x = r.uniform_int(-3, 3).unwrap();
        assert!((-3..=3).contains(&x));
        let i = r.uniform_index(5).unwrap();
        assert!(i < 5);
    }
    assert_eq!(r.uniform_int(2, 2), Ok(2));
}

#[test]
fn invalid_ranges_refused() {
    let mut r = Randoms::with_seed(7);
    let before = r.state;
    assert_eq!(r.uniform_int(4, 3), Err(CaptchaError::InvalidRange));
    assert_eq!(r.uniform_index(0), Err(CaptchaError::InvalidRange));
    assert_eq!(r.state, before);
}

#[test]
fn every_policy_stays_in_its_class() {
    let types = [
        CaptchaType::TypeDefault,
        CaptchaType::TypeOnlyNumber,
        CaptchaType::TypeOnlyChar,
        CaptchaType::TypeOnlyUpper,
        CaptchaType::TypeOnlyLower,
        CaptchaType::TypeNumAndUpper,
    ];
    for (k, t) in types.iter().enumerate() {
        let mut c = Captcha::with_randoms(Randoms::with_seed(k as u64 * 31 + 1));
        c.len = 40;
        c.set_char_type(*t);
        let cs = c.alphas();
        assert_eq!(cs.len(), 40);
        assert!(cs.iter().all(|ch| in_class(*t, *ch)), "{:?}: {:?}", t, cs);
    }
}

#[test]
fn digits_only_policy() {
    let mut c = Captcha::with_randoms(Randoms::with_seed(5));
    c.set_char_type(CaptchaType::TypeOnlyNumber);
    let s = c.text();
    assert!(s.chars().all(|ch| ('0'..='9').contains(&ch)));
}

#[test]
fn answer_has_configured_length() {
    for len in 1..12usize {
        let mut s = SpecCaptcha::with_size_and_len(130, 48, len);
        assert_eq!(s.get_chars().len(), len);
    }
}

#[test]
fn answer_is_memoized() {
    let mut c = Captcha::with_randoms(Randoms::with_seed(9));
    let a = c.text();
    let state = c.randoms.state;
    let b = c.text();
    assert_eq!(a, b);
    assert_eq!(c.randoms.state, state);
    assert_eq!(c.text_char().iter().collect::<String>(), a);
}

#[test]
fn static_scenario_default_config() {
    let mut s = SpecCaptcha::with_seed(11);
    assert_eq!(s.captcha.width, 130);
    assert_eq!(s.captcha.height, 48);
    let chars = s.get_chars();
    assert_eq!(chars.len(), 5);
    let g = s.graphics_image(&chars, &metrics_for(5)).unwrap();
    assert_eq!((g.width, g.height), (130, 48));
    assert_eq!(g.ops.len(), 4 + 5);
    assert_eq!(g.ops[0], DrawOp::Fill { color: Color { r: 255, g: 255, b: 255 } });
    assert!(matches!(g.ops[1], DrawOp::Circle { .. }));
    assert!(matches!(g.ops[2], DrawOp::Circle { .. }));
    assert!(matches!(g.ops[3], DrawOp::Quad { .. } | DrawOp::Cubic { .. }));
    assert_eq!(s.get_content_type(), "image/png");
}

#[test]
fn glyph_positions_exact() {
    // 130 / 5 = 26 per cell, padding (26 - 20) / 2 = 3, baseline 48 - 12 - 3.
    let mut s = SpecCaptcha::with_seed(2);
    let chars: Vec<char> = "ABCDE".chars().collect();
    let g = s.graphics_image(&chars, &metrics_for(5)).unwrap();
    for (i, op) in g.ops[4..].iter().enumerate() {
        match op {
            DrawOp::Glyph { ch, x, y, alpha, .. } => {
                assert_eq!(*ch, chars[i]);
                assert_eq!(*x, i as i64 * 26 + 3 + 3);
                assert_eq!(*y, 33);
                assert_eq!(*alpha, Alpha { num: 1, den: 1 });
            }
            other => panic!("not a glyph: {:?}", other),
        }
    }
}

#[test]
fn negative_padding_rounds_toward_zero() {
    // 130 / 5 = 26, reference 31: (26 - 31) / 2 = -2; a glyph taller than the canvas.
    let mut s = SpecCaptcha::with_seed(2);
    let chars: Vec<char> = "ABCDE".chars().collect();
    let m = GlyphMetrics { reference_width: 31, heights: vec![Some(51); 5] };
    let g = s.graphics_image(&chars, &m).unwrap();
    match g.ops[4] {
        DrawOp::Glyph { x, y, .. } => {
            assert_eq!(x, -2 + 3);
            // 48 - floor(-3 / 2) - 3 = 48 + 2 - 3
            assert_eq!(y, 47);
        }
        other => panic!("not a glyph: {:?}", other),
    }
}

#[test]
fn missing_glyph_is_skipped() {
    let mut s = SpecCaptcha::with_seed(3);
    let chars: Vec<char> = "AB?D".chars().collect();
    let m = GlyphMetrics { reference_width: 10, heights: vec![Some(20), Some(20), None, Some(20)] };
    let g = s.graphics_image(&chars, &m).unwrap();
    let drawn: Vec<char> = g
        .ops
        .iter()
        .filter_map(|op| match op {
            DrawOp::Glyph { ch, .. } => Some(*ch),
            _ => None,
        })
        .collect();
    assert_eq!(drawn, vec!['A', 'B', 'D']);
}

#[test]
fn small_canvas_refused() {
    let mut s = SpecCaptcha::with_size(MIN_SIDE - 1, 48);
    let chars = s.get_chars();
    assert_eq!(s.graphics_image(&chars, &metrics_for(chars.len())).err(), Some(CaptchaError::InvalidRange));
    let mut g = Canvas::new(20, 20);
    assert_eq!(s.captcha.draw_oval(1, &mut g, None), Err(CaptchaError::InvalidRange));
    assert!(g.ops.is_empty());
    assert_eq!(s.captcha.draw_oval(0, &mut g, None), Ok(()));
    s.captcha.height = 9;
    assert_eq!(s.captcha.draw_line(1, &mut g, None), Err(CaptchaError::InvalidRange));
    assert_eq!(s.captcha.draw_bessel_line(1, &mut g, None), Err(CaptchaError::InvalidRange));
    assert!(g.ops.is_empty());
}

#[test]
fn lines_and_curves_on_a_low_canvas() {
    let mut c = Captcha::with_randoms(Randoms::with_seed(21));
    c.width = 21;
    c.height = 20;
    let mut g = Canvas::new(21, 20);
    c.draw_line(5, &mut g, None).unwrap();
    assert_eq!(g.ops.len(), 5);
    for op in &g.ops {
        match *op {
            DrawOp::Line { x1, y1, x2, y2, .. } => {
                assert!((-10..=11).contains(&x1) && (5..=15).contains(&y1));
                assert!((10..=31).contains(&x2) && (2..=18).contains(&y2));
            }
            _ => panic!("not a line"),
        }
    }
    c.width = 100;
    c.height = 10;
    let mut g = Canvas::new(100, 10);
    c.draw_bessel_line(5, &mut g, None).unwrap();
    assert_eq!(g.ops.len(), 5);
    for op in &g.ops {
        match *op {
            DrawOp::Quad { y1, y2, cy, .. } => {
                assert_eq!((y1, y2), (5, 5));
                assert_eq!(cy, 5);
            }
            DrawOp::Cubic { y1, y2, cy1, cy2, .. } => {
                assert_eq!((y1, y2, cy1, cy2), (5, 5, 5, 5));
            }
            _ => panic!("not a curve"),
        }
    }
}

#[test]
fn subtraction_operand_at_most_first() {
    for seed in 0..300u64 {
        let mut a = ArithmeticCaptcha::with_size_and_len(200, 48, 6);
        a.png.captcha.randoms = Randoms::with_seed(seed);
        a.set_difficulty(30);
        a.support_algorithm_sign(5);
        let shown = a.get_arithmetic_string().unwrap();
        let (nums, ops) = tokens(&shown[..shown.len() - 2]);
        for k in 0..ops.len() {
            if ops[k] == '-' && (k + 1 == ops.len() || ops[k + 1] != '÷') {
                assert!(nums[k + 1] <= nums[0], "{}", shown);
            }
        }
    }
}

#[test]
fn too_many_operands_refused() {
    let mut a = ArithmeticCaptcha::with_size_and_len(130, 48, 514);
    let state = a.png.captcha.randoms.state;
    assert_eq!(a.alphas(), Err(CaptchaError::TooManyOperands));
    assert_eq!(a.png.captcha.randoms.state, state);
    assert!(a.arithmetic_string.is_none());
}

#[test]
fn largest_expression_evaluates() {
    // 513 operands: the deepest expression handed to the evaluator, on a
    // default test thread.
    for (seed, sign) in [(8u64, 2usize), (9, 3), (10, 5)] {
        let mut b = ArithmeticCaptcha::with_size_and_len(130, 48, 513);
        b.png.captcha.randoms = Randoms::with_seed(seed);
        b.set_difficulty(10);
        b.support_algorithm_sign(sign);
        match b.alphas() {
            Ok(answer) => {
                let shown = b.get_arithmetic_string().unwrap();
                let (nums, ops) = tokens(&shown[..shown.len() - 2]);
                assert_eq!(nums.len(), 513);
                let answer: String = answer.into_iter().collect();
                assert_eq!(answer, evaluate(&nums, &ops).to_string());
            }
            Err(e) => assert_eq!(e, CaptchaError::Evaluation),
        }
    }
    let mut c = ArithmeticCaptcha::with_size_and_len(130, 48, 49);
    c.png.captcha.randoms = Randoms::with_seed(3);
    c.support_algorithm_sign(2);
    let shown = c.get_arithmetic_string().unwrap();
    let (nums, ops) = tokens(&shown[..shown.len() - 2]);
    assert_eq!(nums.len(), 49);
    let answer: String = c.get_chars().unwrap().into_iter().collect();
    assert_eq!(answer, evaluate(&nums, &ops).to_string());
}

#[test]
fn circles_fit_small_canvases() {
    let mut c = Captcha::with_randoms(Randoms::with_seed(5));
    c.width = 12;
    c.height = 40;
    let mut g = Canvas::new(12, 40);
    c.draw_oval(200, &mut g, None).unwrap();
    for op in &g.ops {
        match *op {
            DrawOp::Circle { cx, cy, radius, .. } => {
                assert!((5..=6).contains(&radius));
                assert!(cx - radius >= 0 && cx + radius <= 12);
                assert!(cy - radius >= 0 && cy + radius <= 40);
            }
            _ => panic!("not a circle"),
        }
    }
    let mut g = GifCaptcha::with_size_and_len(26, 16, 4);
    let chars = g.get_chars();
    let frames = g.frames(&chars, &metrics_for(4)).unwrap();
    assert_eq!(frames.len(), 4);
    assert!(frames.iter().all(|f| (f.width, f.height) == (26, 16)));
}

#[test]
fn noise_shapes_inside_their_bands() {
    let mut c = Captcha::with_randoms(Randoms::with_seed(77));
    let mut g = Canvas::new(c.width, c.height);
    let red = Color { r: 255, g: 0, b: 0 };
    c.draw_line(50, &mut g, Some(red)).unwrap();
    c.draw_oval(50, &mut g, None).unwrap();
    c.draw_bessel_line(50, &mut g, None).unwrap();
    assert_eq!(g.ops.len(), 150);
    let (w, h) = (130i64, 48i64);
    for op in &g.ops {
        match *op {
            DrawOp::Line { x1, y1, x2, y2, color, width } => {
                assert!((-10..=w - 10).contains(&x1) && (5..=h - 5).contains(&y1));
                assert!((10..=w + 10).contains(&x2) && (2..=h - 2).contains(&y2));
                assert_eq!(color, red);
                assert_eq!(width, 20);
            }
            DrawOp::Circle { cx, cy, radius, .. } => {
                assert!((5..=14).contains(&radius));
                assert!(cx - radius >= 0 && cx + radius <= w);
                assert!(cy - radius >= 0 && cy + radius <= h);
            }
            DrawOp::Quad { x1, x2, cx, .. } | DrawOp::Cubic { x1, x2, cx1: cx, .. } => {
                assert_eq!((x1, x2), (5, w - 5));
                assert!((w / 4..=w / 4 * 3).contains(&cx));
            }
            _ => panic!("unexpected op"),
        }
    }
}

#[test]
fn color_range_bounds_and_error() {
    let mut c = Captcha::with_randoms(Randoms::with_seed(1));
    for _ in 0..100 {
        let k = c.color_range(100, 120).unwrap();
        assert!([k.r, k.g, k.b].iter().all(|v| (100..=120).contains(v)));
    }
    let state = c.randoms.state;
    assert_eq!(c.color_range(200, 100), Err(CaptchaError::InvalidRange));
    assert_eq!(c.randoms.state, state);
    let mut r = Randoms::with_seed(state);
    let k = c.color_range(10, 19).unwrap();
    assert_eq!(k.r as u64, 10 + r.next_u64() % 10);
    assert_eq!(k.g as u64, 10 + r.next_u64() % 10);
    assert_eq!(k.b as u64, 10 + r.next_u64() % 10);
    assert_eq!(c.randoms.state, r.state);
}

#[test]
fn alpha_wave_values() {
    // n = 4: step 1/3, wraps once i + f reaches 4.
    assert_eq!(get_alpha(0, 0, 4), Alpha { num: 0, den: 3 });
    assert_eq!(get_alpha(1, 2, 4), Alpha { num: 3, den: 3 });
    assert_eq!(get_alpha(2, 3, 4), Alpha { num: 1, den: 3 });
    assert_eq!(get_alpha(3, 3, 4), Alpha { num: 2, den: 3 });
    assert_eq!(get_alpha(0, 0, 1), Alpha { num: 1, den: 1 });
}

#[test]
fn animated_scenario_four_frames() {
    let mut g = GifCaptcha::with_size_and_len(127, 48, 4);
    let chars = g.get_chars();
    assert_eq!(chars.len(), 4);
    let frames = g.frames(&chars, &metrics_for(4)).unwrap();
    assert_eq!(frames.len(), 4);
    let circle_alpha = match frames[0].ops[1] {
        DrawOp::Circle { alpha, .. } => alpha,
        _ => panic!("no circle"),
    };
    for (f, frame) in frames.iter().enumerate() {
        assert_eq!((frame.width, frame.height), (127, 48));
        match frame.ops[2] {
            DrawOp::Circle { alpha, .. } => assert_eq!(alpha, circle_alpha),
            _ => panic!("no circle"),
        }
        match frame.ops[3] {
            DrawOp::Quad { width, alpha, .. } | DrawOp::Cubic { width, alpha, .. } => {
                assert_eq!(width, 12);
                assert_eq!(alpha, Alpha { num: 7, den: 10 });
            }
            _ => panic!("no curve"),
        }
        for (i, op) in frame.ops[4..].iter().enumerate() {
            match op {
                DrawOp::Glyph { alpha, .. } => {
                    assert_eq!(alpha.den, 3);
                    assert_eq!(alpha.num as usize, (i + f) % 4);
                }
                _ => panic!("not a glyph"),
            }
        }
    }
    assert_eq!(circle_alpha.den, 10);
    assert!(circle_alpha.num < 10);
}

#[test]
fn arithmetic_scenario_two_operands() {
    for seed in 0..300u64 {
        let mut a = ArithmeticCaptcha::with_seed(seed);
        a.set_difficulty(10);
        a.support_algorithm_sign(4);
        let shown = a.get_arithmetic_string().unwrap();
        assert!(shown.ends_with("=?"), "{}", shown);
        let body = &shown[..shown.len() - 2];
        let (nums, ops) = tokens(body);
        assert_eq!(nums.len(), 2, "{}", shown);
        assert_eq!(ops.len(), 1);
        assert!(['+', '-', 'x', '÷'].contains(&ops[0]));
        let answer: String = a.get_chars().unwrap().into_iter().collect();
        assert_eq!(answer, evaluate(&nums, &ops).to_string(), "{}", shown);
    }
}

#[test]
fn arithmetic_longer_expressions_divide_exactly() {
    for seed in 0..300u64 {
        let mut a = ArithmeticCaptcha::with_size_and_len(200, 48, 5);
        a.png.captcha.randoms = Randoms::with_seed(seed);
        a.set_difficulty(50);
        a.support_algorithm_sign(5);
        let shown = a.get_arithmetic_string().unwrap();
        let (nums, ops) = tokens(&shown[..shown.len() - 2]);
        assert_eq!(nums.len(), 5);
        assert!(ops.iter().filter(|c| **c == '÷').count() <= 1, "{}", shown);
        assert!(nums.iter().all(|n| *n <= 50), "{}", shown);
        let answer: String = a.get_chars().unwrap().into_iter().collect();
        assert_eq!(answer, evaluate(&nums, &ops).to_string(), "{}", shown);
    }
}

#[test]
fn arithmetic_sign_two_uses_plus_and_minus() {
    let mut seen = Vec::new();
    for seed in 0..200u64 {
        let mut a = ArithmeticCaptcha::with_seed(seed);
        a.support_algorithm_sign(0);
        assert_eq!(a.algorithm_sign, 2);
        let shown = a.get_arithmetic_string().unwrap();
        let (_, ops) = tokens(&shown[..shown.len() - 2]);
        assert!(ops[0] == '+' || ops[0] == '-');
        seen.push(ops[0]);
    }
    assert!(seen.contains(&'+') && seen.contains(&'-'));
}

#[test]
fn arithmetic_answer_memoized() {
    let mut a = ArithmeticCaptcha::with_seed(4);
    let first = a.get_chars().unwrap();
    let shown = a.get_arithmetic_string().unwrap();
    assert_eq!(a.get_chars().unwrap(), first);
    assert_eq!(a.get_arithmetic_string().unwrap(), shown);
}

#[test]
fn difficulty_and_sign_clamps() {
    let mut a = ArithmeticCaptcha::new();
    a.set_difficulty(0);
    assert_eq!(a.difficulty, 10);
    a.set_difficulty(99);
    assert_eq!(a.difficulty, 99);
    a.support_algorithm_sign(9);
    assert_eq!(a.algorithm_sign, 5);
    a.support_algorithm_sign(3);
    assert_eq!(a.algorithm_sign, 3);
}

#[test]
fn arithmetic_overflow_is_an_error() {
    let mut found = false;
    for seed in 0..50u64 {
        let mut a = ArithmeticCaptcha::with_size_and_len(130, 48, 6);
        a.png.captcha.randoms = Randoms::with_seed(seed);
        a.set_difficulty(usize::MAX);
        a.support_algorithm_sign(3);
        match a.alphas() {
            Err(e) => {
                assert_eq!(e, CaptchaError::Evaluation);
                assert!(a.arithmetic_string.is_none());
                found = true;
            }
            Ok(_) => assert!(a.arithmetic_string.is_some()),
        }
    }
    assert!(found);
}

#[test]
fn symbols_by_glyph_and_index() {
    assert!(matches!(Symbol::of("+"), Ok(Symbol::ADD { value: "+", priority: false })));
    assert!(matches!(Symbol::of("÷"), Ok(Symbol::DIV { value: "÷", priority: true })));
    assert_eq!(Symbol::of("x"), Ok(Symbol::MUL { value: "x", priority: true }));
    assert_eq!(Symbol::of("n"), Ok(Symbol::NUM { value: "n", priority: false }));
    assert_eq!(Symbol::of("-"), Ok(Symbol::SUB { value: "-", priority: false }));
    for i in 0..5usize {
        let s = Symbol::from_index(i);
        let v = match s {
            Symbol::NUM { value, .. }
            | Symbol::ADD { value, .. }
            | Symbol::SUB { value, .. }
            | Symbol::MUL { value, .. }
            | Symbol::DIV { value, .. } => value,
        };
        assert_eq!(Symbol::of(v), Ok(s));
    }
    assert!(Symbol::of("*").is_err());
    assert!(Symbol::of("++").is_err());
    assert_eq!(Symbol::from_index(2), Symbol::SUB { value: "-", priority: false });
    assert_eq!(Symbol::from_index(4), Symbol::DIV { value: "÷", priority: true });
}

#[test]
fn integer_square_root() {
    assert_eq!(isqrt(0), 0);
    assert_eq!(isqrt(10), 3);
    assert_eq!(isqrt(16), 4);
    assert_eq!(isqrt(u64::MAX), 4294967295);
}

#[test]
fn decimal_forms() {
    assert_eq!(u64_to_string(0), "0");
    assert_eq!(u64_to_string(9071), "9071");
    assert_eq!(i64_to_string(-12), "-12");
    assert_eq!(i64_to_string(i64::MIN), i64::MIN.to_string());
}

#[test]
fn base64_with_head_encodes() {
    let bytes = b"abc".to_vec();
    assert_eq!(base64_with_head("data:image/png;base64,", &bytes), "data:image/png;base64,YWJj");
    assert_eq!(base64_with_head("", &vec![]), "");
    let s = SpecCaptcha::new();
    assert_eq!(s.base64(&vec![0xff, 0x00]), "data:image/png;base64,/wA=");
}

#[test]
fn base64_round_trip() {
    for head in ["", "data:image/gif;base64,", "x"] {
        for bytes in [vec![], vec![1u8], vec![0, 1, 2, 3, 250, 251, 252]] {
            let s = base64_with_head(head, &bytes);
            assert_eq!(base64_strip_decode(head, &s), Some(bytes.clone()));
        }
    }
    assert_eq!(base64_strip_decode("data:", "other"), None);
}

#[test]
fn fonts_and_sizes() {
    let mut c = Captcha::with_randoms(Randoms::with_seed(1));
    assert_eq!(c.get_font(), FontRef::Builtin(CaptchaFont::Font1));
    assert_eq!(c.get_font_size(), 32);
    c.set_font_by_enum(CaptchaFont::Font3, Some(40));
    assert_eq!(c.get_font(), FontRef::Builtin(CaptchaFont::Font3));
    assert_eq!(c.get_font_size(), 40);
    c.set_font_by_font(7, None);
    assert_eq!(c.get_font(), FontRef::Custom(7));
    assert_eq!(c.get_font_size(), 32);
    assert_eq!(CaptchaFont::Font10.file_name(), "scandal.ttf");
    assert_eq!(CaptchaFont::Font1.file_name(), "actionj.ttf");
    assert_eq!(CaptchaFont::Font5.file_name(), "lexo.ttf");
    let a = ArithmeticCaptcha::with_all(100, 40, 3, FontRef::Builtin(CaptchaFont::Font2), 28);
    assert_eq!(a.png.captcha.font_size, 28);
    assert_eq!(a.get_content_type(), "image/png");
}
