use color::alpha;
use color::{Color, HSL, HSLA, RGBA, YIQ};

fn bits(a: f64) -> u64 {
    a.to_bits()
}

fn alpha_text(a: u64) -> String {
    format!("{}", f64::from_bits(a))
}

#[test]
fn new() {
    let color = Color::new();
    assert_eq!(color.r, 0);
    assert_eq!(color.g, 0);
    assert_eq!(color.b, 0);
    assert_eq!(f64::from_bits(color.a), 1.0);
}

#[test]
fn from_hex() {
    let specs: Vec<(String, Color)> = vec![
        (String::from(""), Color { r: 0, g: 0, b: 0, a: bits(1.0) }),
        (String::from("\u{f8ff}\u{fc}\u{e7}\u{f8}"), Color { r: 0, g: 0, b: 0, a: bits(1.0) }),
        (String::from("068"), Color { r: 0, g: 0, b: 0, a: bits(1.0) }),
        (
            String::from(
                "\u{f8ff}\u{fc}\u{a7}\u{2122}\u{f8ff}\u{fc}\u{2022}\u{ae}\u{f8ff}\u{fc}\u{eb}\u{e5}",
            ),
            Color { r: 0, g: 0, b: 0, a: bits(1.0) },
        ),
        (String::from("#0089ff"), Color { r: 0, g: 137, b: 255, a: bits(1.0) }),
        (String::from("#068000"), Color { r: 6, g: 128, b: 0, a: bits(1.0) }),
        (String::from("068000"), Color { r: 6, g: 128, b: 0, a: bits(1.0) }),
        (String::from("#WATNOPE"), Color { r: 0, g: 0, b: 0, a: bits(1.0) }),
        (
            String::from(
                "\u{f8ff}\u{fc}\u{a7}\u{2122}\u{f8ff}\u{fc}\u{a7}\u{2122}\u{f8ff}\u{fc}\u{a7}\u{2122}\u{f8ff}\u{fc}\u{a7}\u{2122}\u{f8ff}\u{fc}\u{a7}\u{2122}\u{f8ff}\u{fc}\u{a7}\u{2122}",
            ),
            Color { r: 0, g: 0, b: 0, a: bits(1.0) },
        ),
        (String::from("#FFFFFFFFFFFF"), Color { r: 255, g: 255, b: 255, a: bits(1.0) }),
    ];

    for (i, (input, output)) in specs.iter().enumerate() {
        let hex = String::from(input);
        let color = Color::from_hex(hex);

        println!(":::: Running Spec: {}", i);
        assert_eq!(color, *output);
    }
}

#[test]
fn from_hsl() {
    let specs: Vec<(HSL, Color)> = vec![
        (HSL { h: 0, s: 0, l: 0 }, Color { r: 0, g: 0, b: 0, a: bits(1.0) }),
        (HSL { h: 208, s: 100, l: 50 }, Color { r: 0, g: 136, b: 255, a: bits(1.0) }),
        (HSL { h: 117, s: 100, l: 25 }, Color { r: 6, g: 128, b: 0, a: bits(1.0) }),
        (HSL { h: 0, s: 71, l: 53 }, Color { r: 220, g: 50, b: 50, a: bits(1.0) }),
        (HSL { h: 0, s: 0, l: 100 }, Color { r: 255, g: 255, b: 255, a: bits(1.0) }),
    ];

    for (i, (input, output)) in specs.iter().enumerate() {
        let color = Color::from_hsl(input.h, input.s, input.l);

        println!(":::: Running Spec: {}", i);
        assert_eq!(color, *output);
    }
}

#[test]
fn sets_r_channel() {
    let mut color = Color::new();

    assert_eq!(color.r, 0);

    color.r(10);

    assert_eq!(color.r, 10);
}

#[test]
fn sets_g_channel() {
    let mut color = Color::new();

    assert_eq!(color.g, 0);

    color.g(10);

    assert_eq!(color.g, 10);
}

#[test]
fn sets_b_channel() {
    let mut color = Color::new();

    assert_eq!(color.b, 0);

    color.b(10);

    assert_eq!(color.b, 10);
}

#[test]
fn sets_a_channel() {
    let mut color = Color::new();

    assert_eq!(f64::from_bits(color.a), 1.0);

    color.a(bits(10.0));

    assert_eq!(f64::from_bits(color.a), 1.0);

    color.a(bits(-10.0));

    assert_eq!(f64::from_bits(color.a), 0.0);

    color.a(bits(0.3));

    assert_eq!(f64::from_bits(color.a), 0.3);
}

#[test]
fn hex() {
    let specs: Vec<(RGBA, String)> = vec![
        (RGBA { r: 0, g: 0, b: 0, a: bits(1.0) }, String::from("#000000")),
        (RGBA { r: 255, g: 255, b: 255, a: bits(1.0) }, String::from("#ffffff")),
        (RGBA { r: 0, g: 137, b: 255, a: bits(1.0) }, String::from("#0089ff")),
    ];

    for (i, (input, output)) in specs.iter().enumerate() {
        let color = Color::create(input.r, input.g, input.b, input.a);

        println!(":::: Running Spec: {}", i);
        assert_eq!(color.hex(), output[0..]);
    }
}

#[test]
fn yiq() {
    let specs: Vec<(RGBA, YIQ)> = vec![
        (RGBA { r: 0, g: 0, b: 0, a: bits(1.0) }, YIQ { y: 0, i: 0, q: 0 }),
        (RGBA { r: 255, g: 255, b: 255, a: bits(1.0) }, YIQ { y: 255_000, i: 0, q: 0 }),
        (RGBA { r: 0, g: 137, b: 255, a: bits(1.0) }, YIQ { y: 109_489, i: -119_648, q: 7_909 }),
        (RGBA { r: 255, g: 0, b: 0, a: bits(1.0) }, YIQ { y: 76_245, i: 151_980, q: 53_805 }),
    ];

    for (i, (input, output)) in specs.iter().enumerate() {
        let color = Color::create(input.r, input.g, input.b, input.a);
        let yiq = color.yiq();

        println!(":::: Running Spec: {}", i);
        assert_eq!(yiq, *output);
    }
}

#[test]
fn hsla() {
    let specs: Vec<(RGBA, HSLA)> = vec![
        (RGBA { r: 0, g: 0, b: 0, a: bits(1.0) }, HSLA { h: 0, s: 0, l: 0, a: bits(1.0) }),
        (RGBA { r: 255, g: 255, b: 255, a: bits(1.0) }, HSLA { h: 0, s: 0, l: 100, a: bits(1.0) }),
        (RGBA { r: 0, g: 137, b: 255, a: bits(1.0) }, HSLA { h: 208, s: 100, l: 50, a: bits(1.0) }),
        (RGBA { r: 255, g: 0, b: 0, a: bits(0.5) }, HSLA { h: 0, s: 100, l: 50, a: bits(0.5) }),
        (RGBA { r: 255, g: 255, b: 0, a: bits(0.75) }, HSLA { h: 60, s: 100, l: 50, a: bits(0.75) }),
    ];

    for (i, (input, output)) in specs.iter().enumerate() {
        let color = Color::create(input.r, input.g, input.b, input.a);
        let hsla = color.hsla();

        println!(":::: Running Spec: {}", i);
        assert_eq!(hsla, *output);
    }
}

#[test]
fn to_hsla_string() {
    let specs: Vec<(RGBA, String)> = vec![
        (RGBA { r: 0, g: 0, b: 0, a: bits(1.0) }, String::from("hsla(0, 0%, 0%, 1)")),
        (RGBA { r: 255, g: 255, b: 255, a: bits(1.0) }, String::from("hsla(0, 0%, 100%, 1)")),
        (RGBA { r: 0, g: 137, b: 255, a: bits(1.0) }, String::from("hsla(208, 100%, 50%, 1)")),
        (RGBA { r: 255, g: 0, b: 0, a: bits(0.5) }, String::from("hsla(0, 100%, 50%, 0.5)")),
        (RGBA { r: 255, g: 255, b: 0, a: bits(0.75) }, String::from("hsla(60, 100%, 50%, 0.75)")),
    ];

    for (i, (input, output)) in specs.iter().enumerate() {
        let color = Color::create(input.r, input.g, input.b, input.a);

        println!(":::: Running Spec: {}", i);
        assert_eq!(color.to_hsla_string(&alpha_text(color.a)), output[0..]);
    }
}

#[test]
fn to_rgba_string() {
    let specs: Vec<(RGBA, String)> = vec![
        (RGBA { r: 0, g: 0, b: 0, a: bits(1.0) }, String::from("rgba(0, 0, 0, 1)")),
        (RGBA { r: 255, g: 255, b: 255, a: bits(1.0) }, String::from("rgba(255, 255, 255, 1)")),
        (RGBA { r: 0, g: 137, b: 255, a: bits(1.0) }, String::from("rgba(0, 137, 255, 1)")),
        (RGBA { r: 255, g: 0, b: 0, a: bits(0.5) }, String::from("rgba(255, 0, 0, 0.5)")),
    ];

    for (i, (input, output)) in specs.iter().enumerate() {
        let color = Color::create(input.r, input.g, input.b, input.a);

        println!(":::: Running Spec: {}", i);
        assert_eq!(color.to_rgba_string(&alpha_text(color.a)), output[0..]);
    }
}

#[test]
fn is_light() {
    let specs: Vec<(Color, bool)> = vec![
        (Color { r: 0, g: 0, b: 0, a: bits(1.0) }, false),
        (Color { r: 255, g: 255, b: 255, a: bits(1.0) }, true),
        (Color { r: 0, g: 137, b: 255, a: bits(1.0) }, false),
        (Color { r: 255, g: 0, b: 0, a: bits(0.5) }, false),
    ];

    for (i, (color, output)) in specs.iter().enumerate() {
        println!(":::: Running Spec: {}", i);
        assert_eq!(color.is_light(), *output);
    }
}

#[test]
fn is_dark() {
    let specs: Vec<(Color, bool)> = vec![
        (Color { r: 0, g: 0, b: 0, a: bits(1.0) }, true),
        (Color { r: 255, g: 255, b: 255, a: bits(1.0) }, false),
        (Color { r: 0, g: 137, b: 255, a: bits(1.0) }, true),
        (Color { r: 255, g: 0, b: 0, a: bits(0.5) }, true),
    ];

    for (i, (color, output)) in specs.iter().enumerate() {
        println!(":::: Running Spec: {}", i);
        assert_eq!(color.is_dark(), *output);
    }
}

#[test]
fn is_transparent() {
    let specs: Vec<(Color, bool)> = vec![
        (Color { r: 0, g: 0, b: 0, a: bits(1.0) }, false),
        (Color { r: 0, g: 0, b: 0, a: bits(0.5) }, false),
        (Color { r: 0, g: 0, b: 0, a: bits(0.0) }, true),
    ];

    for (i, (color, output)) in specs.iter().enumerate() {
        println!(":::: Running Spec: {}", i);
        assert_eq!(color.is_transparent(), *output);
    }
}

#[test]
fn alpha_constants_are_the_bit_patterns() {
    assert_eq!(alpha::ZERO, bits(0.0));
    assert_eq!(alpha::ONE, bits(1.0));
    assert_eq!(alpha::SIGN, bits(-0.0));
    assert_eq!(alpha::INFINITY, bits(f64::INFINITY));
}
