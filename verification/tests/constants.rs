use geneprog::constant::{const_bits_of, const_text_of};
use geneprog::{random_tree, Input, Node};

/// The value a draw stands for, computed the floating-point way: a
/// uniform `[0,1)` sample `m / 2^53` mapped through `(u - 0.5) * 2.0`.
fn draw_value(m: u64) -> f64 {
    let u = (m as f64) * (1.0 / (1u64 << 53) as f64);
    (u - 0.5) * 2.0
}

#[test]
fn const_bits_match_float_computation() {
    let draws: [u64; 12] = [
        0,
        1,
        2,
        2047,
        1 << 51,
        (1 << 52) - 1,
        1 << 52,
        (1 << 52) + 1,
        (1 << 53) - 1,
        123456789012345,
        (1 << 52) + 987654321987,
        (1 << 52) - 555555555555,
    ];
    for &m in draws.iter() {
        let v = draw_value(m);
        assert_eq!(const_bits_of(m), v.to_bits(), "draw {}", m);
    }
}

#[test]
fn const_text_matches_float_formatting() {
    let draws: [u64; 14] = [
        0,
        1,
        2047,
        1 << 51,
        (1 << 52) - 1,
        1 << 52,
        (1 << 52) + 1,
        (1 << 53) - 1,
        123456789012345,
        (1 << 52) + 987654321987,
        (1 << 52) - 555555555555,
        // draws whose scaled magnitude falls exactly half-way between
        // two of the five-decimal renderings: ties round to even
        (1 << 52) + (1 << 46),
        (1 << 52) + 3 * (1 << 46),
        (1 << 52) - (1 << 46),
    ];
    for &m in draws.iter() {
        let v = draw_value(m);
        assert_eq!(const_text_of(m), format!("{:0.5}", v), "draw {}", m);
    }
}

#[test]
fn sampled_constants_are_consistent() {
    let mut seen = 0;
    for _ in 0..400 {
        let t = random_tree(0);
        if let Node::Input(Input::Const { bits, text }) = &t.root {
            let v = f64::from_bits(*bits);
            assert!((-1.0..1.0).contains(&v));
            assert_eq!(*text, format!("{:0.5}", v));
            seen += 1;
        }
    }
    assert!(seen > 0);
}
