use echo_ffmpeg_player::float_bits::{silence, zero, Double, Single};

fn double(value: f64) -> Double {
    Double { bits: value.to_bits() }
}

fn single(value: f32) -> Single {
    Single { bits: value.to_bits() }
}

fn samples() -> Vec<f64> {
    let mut values = vec![
        0.0,
        -0.0,
        1.0,
        -1.0,
        0.1,
        -0.1,
        1.5,
        16777217.0,
        16777219.0,
        3.4028235e38,
        3.4028236e38,
        1e39,
        -1e39,
        1.17549435e-38,
        1e-40,
        -1e-40,
        1.4e-45,
        7e-46,
        7.1e-46,
        1e-46,
        5e-324,
        f64::MAX,
        f64::MIN_POSITIVE,
        f64::INFINITY,
        f64::NEG_INFINITY,
        1.8446744073709552e19,
        1.8446744073709550e19,
        9007199254740993.0,
        4503599627370497.5,
        0.999999999,
        123456.789,
    ];
    let mut bits: u64 = 0x3a5f_1234_5678_9abc;
    for _ in 0..2000 {
        bits = bits.wrapping_mul(6364136223846793005).wrapping_add(1442695040888963407);
        values.push(f64::from_bits(bits));
        values.push(f64::from_bits(0x3600_0000_0000_0000 + (bits >> 7)));
        values.push(f64::from_bits(0x4000_0000_0000_0000 + (bits >> 12)));
    }
    values
}

#[test]
fn narrowing_rounds_to_the_nearest_single() {
    for value in samples() {
        let narrowed = f32::from_bits(double(value).to_single().bits);
        if value.is_nan() {
            assert!(narrowed.is_nan());
        } else {
            assert_eq!(narrowed.to_bits(), (value as f32).to_bits());
        }
    }
}

#[test]
fn cutting_gives_the_whole_part() {
    for value in samples() {
        assert_eq!(double(value).to_u64(), value as u64);
    }
}

#[test]
fn order_is_that_of_numbers() {
    let values = samples();
    for a in values.iter().take(60) {
        assert_eq!(double(*a).is_positive(), *a > 0.0);
        assert_eq!(f64::from_bits(double(*a).max_zero().bits), a.max(0.0));
        for b in values.iter().take(60) {
            assert_eq!(double(*a).is_less(double(*b)), a < b);
            assert_eq!(single(*a as f32).is_less(single(*b as f32)), (*a as f32) < (*b as f32));
        }
    }
    assert!(!double(f64::NAN).is_less(double(1.0)));
    assert!(!double(1.0).is_less(double(f64::NAN)));
    assert_eq!(double(f64::NAN).max_zero(), zero());
}

#[test]
fn clamping_is_that_of_numbers() {
    for value in samples() {
        if value.is_nan() {
            continue;
        }
        let clamped = double(value).clamp(double(-12.0), double(12.0));
        assert_eq!(f64::from_bits(clamped.bits), value.clamp(-12.0, 12.0));
        assert_eq!(clamped.clamp(double(-12.0), double(12.0)), clamped);
        let narrow = single(value as f32).clamp(single(0.0), single(1.0));
        assert_eq!(f32::from_bits(narrow.bits), (value as f32).clamp(0.0, 1.0));
    }
    assert_eq!(double(f64::NAN).clamp(double(0.0), double(1.0)), double(f64::NAN));
}

#[test]
fn zeros_are_positive() {
    assert_eq!(zero(), double(0.0));
    assert_eq!(silence(), single(0.0));
}

fn same(actual: Double, expected: f64) -> bool {
    if expected.is_nan() {
        f64::from_bits(actual.bits).is_nan()
    } else {
        actual.bits == expected.to_bits()
    }
}

#[test]
fn quotients_are_those_of_floating_point() {
    for value in samples() {
        for divisor in [0u32, 1, 2, 3, 7, 100, 44100, 48000, 65537, 0x7fff_ffff, u32::MAX] {
            assert!(same(double(value).divide(divisor), value / divisor as f64));
        }
    }
}

#[test]
fn sums_and_products_are_those_of_floating_point() {
    let values = samples();
    for (i, a) in values.iter().enumerate() {
        let near = f64::from_bits(a.to_bits() ^ 1);
        let opposite = -f64::from_bits(a.to_bits() ^ 3);
        for b in [
            values[(i * 7 + 13) % values.len()],
            values[(i + 1) % values.len()],
            values[i % 31],
            near,
            opposite,
            -a,
            a * 0.3,
            a * -1e-10,
            a * 1e16,
            1.0 / a,
            1e-310 / a,
            1.0,
            -0.0,
        ] {
            assert!(same(double(*a).sum(double(b)), a + b));
            assert!(same(double(b).sum(double(*a)), b + a));
            assert!(same(double(*a).difference(double(b)), a - b));
            assert!(same(double(*a).multiply(double(b)), a * b));
        }
        assert_eq!(double(*a).negate(), double(-a));
    }
}

#[test]
fn whole_numbers_become_the_nearest_double() {
    let mut n: u64 = 0;
    for step in 0..3000u64 {
        assert_eq!(Double::from_u64(n), double(n as f64));
        assert_eq!(Double::from_u64(u64::MAX - n), double((u64::MAX - n) as f64));
        n = n.wrapping_mul(3).wrapping_add(step);
    }
    for n in [1u64 << 52, (1 << 53) - 1, 1 << 53, (1 << 53) + 1, (1 << 53) + 3, 1 << 63] {
        assert_eq!(Double::from_u64(n), double(n as f64));
    }
    assert_eq!(Double::from_u64((1 << 53) - 1).to_u64(), (1 << 53) - 1);
}
