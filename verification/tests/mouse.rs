use gyromouse::binary64::Binary64;
use gyromouse::mouse::{key_edges, Direction, Mouse, MouseMovement};
use gyromouse::vector::Vec2;

fn bits(x: f64) -> Binary64 {
    Binary64 { bits: x.to_bits() }
}

fn num(b: Binary64) -> f64 {
    f64::from_bits(b.bits)
}

fn v(x: f64, y: f64) -> Vec2 {
    Vec2 { x: bits(x), y: bits(y) }
}

const SPECIAL: [f64; 26] = [
    0.,
    -0.,
    0.5,
    -0.5,
    0.49999999999999994,
    -0.49999999999999994,
    1.,
    1.5,
    2.5,
    -2.5,
    3.7,
    -3.2,
    1e-300,
    -5e-324,
    2147483647.,
    2147483647.4,
    2147483647.5,
    2147483648.,
    -2147483648.,
    -2147483648.4,
    -2147483648.5,
    4503599627370495.5,
    9007199254740993.,
    1e300,
    f64::MAX,
    f64::MIN_POSITIVE,
];

#[test]
fn rounding_agrees_with_floating_point() {
    let mut values: Vec<f64> = SPECIAL.to_vec();
    let mut x: u64 = 0x9e37_79b9_7f4a_7c15;
    for _ in 0..20_000 {
        x ^= x << 13;
        x ^= x >> 7;
        x ^= x << 17;
        let exponent = 1000 + (x >> 40) % 60;
        values.push(f64::from_bits((x & 0x800f_ffff_ffff_ffff) | (exponent << 52)));
        values.push(f64::from_bits(x));
    }
    for f in values {
        let (n, rest) = bits(f).round_off();
        let rounded = f.round();
        if f.is_finite() {
            let fits = rounded >= i32::MIN as f64 && rounded <= i32::MAX as f64;
            assert_eq!(n, if fits { Some(rounded as i32) } else { None });
            assert_eq!(rest.bits, (f - rounded).to_bits());
        } else {
            assert_eq!(n, None);
            assert!(num(rest).is_nan());
        }
    }
}

#[test]
fn comparisons_agree_with_floating_point() {
    let mut values: Vec<f64> = SPECIAL.to_vec();
    values.push(f64::INFINITY);
    values.push(f64::NEG_INFINITY);
    values.push(f64::NAN);
    values.push(-f64::NAN);
    for a in values.iter() {
        assert_eq!(bits(*a).is_nan(), a.is_nan());
        assert_eq!(bits(*a).is_finite(), a.is_finite());
        for b in values.iter() {
            assert_eq!(bits(*a).lt(bits(*b)), a < b);
            assert_eq!(bits(*a).equals(bits(*b)), a == b);
            assert_eq!(bits(*a).at_least(bits(*b)), a >= b);
            let max = num(bits(*a).max(bits(*b)));
            let min = num(bits(*a).min(bits(*b)));
            if a.is_nan() && b.is_nan() {
                assert!(max.is_nan() && min.is_nan());
            } else {
                assert!(max == a.max(*b));
                assert!(min == a.min(*b));
            }
        }
    }
}

#[test]
fn left_over_pixels_are_kept() {
    let mut mouse = Mouse::new();
    assert!(mouse.error_accumulator.is_zero());
    assert_eq!(mouse.mouse_move_relative_pixel(v(0.25, -1.75)), Some((0, -2)));
    assert_eq!(mouse.error_accumulator, v(0.25, 0.25));
    assert_eq!(mouse.mouse_move_relative_pixel(v(0.25, 0.25)), None);
    assert_eq!(mouse.error_accumulator, v(0.25, 0.25));
}

#[test]
fn pixels_out_of_range_are_not_sent() {
    let mut mouse = Mouse::new();
    assert_eq!(mouse.mouse_move_relative_pixel(v(3e9, 1.)), None);
    assert_eq!(mouse.error_accumulator, v(0., 0.));
    assert_eq!(mouse.mouse_move_relative_pixel(v(f64::INFINITY, 1.)), None);
    assert!(mouse.error_accumulator.x.is_nan());
}

#[test]
fn movements_are_made_of_their_parts() {
    let m = MouseMovement::new(bits(1.), bits(2.));
    assert_eq!(m, MouseMovement::from_vec_deg(v(1., 2.)));
    assert_eq!(num(m.x), 1.);
    assert_eq!(num(m.y), 2.);
    assert_eq!(MouseMovement::zero(), MouseMovement::new(bits(0.), bits(0.)));
}

#[test]
fn zero_vectors() {
    assert!(v(0., -0.).is_zero());
    assert!(!v(0., 1.).is_zero());
    assert!(!v(f64::NAN, 0.).is_zero());
}

#[test]
fn keys_are_sent_edge_by_edge() {
    assert_eq!(key_edges(Direction::Press), vec![true]);
    assert_eq!(key_edges(Direction::Release), vec![false]);
    assert_eq!(key_edges(Direction::Click), vec![true, false]);
}

#[test]
fn small_steps_add_up() {
    let mut mouse = Mouse::new();
    let (mut x, mut y) = (0, 0);
    for _ in 0..1000 {
        let sum = v(num(mouse.error_accumulator.x) + 0.125, num(mouse.error_accumulator.y) - 0.375);
        if let Some((dx, dy)) = mouse.mouse_move_relative_pixel(sum) {
            x += dx;
            y += dy;
        }
    }
    assert_eq!((x, y), (125, -375));
    assert!(mouse.error_accumulator.is_zero());
}
