use weasel_rs::percentage::{DENOMINATOR, NEGATIVE_ZERO_BITS, ONE_BITS};
use weasel_rs::Percentage;

#[test]
fn constants_are_the_bit_patterns_they_name() {
    assert_eq!(DENOMINATOR, 1u64 << 53);
    assert_eq!(ONE_BITS, 1.0f64.to_bits());
    assert_eq!(NEGATIVE_ZERO_BITS, (-0.0f64).to_bits());
}

#[test]
fn new_accepts_the_whole_unit_interval() {
    for v in [0.0f64, -0.0, f64::MIN_POSITIVE, 5e-324, 0.05, 0.3, 0.5, 0.7, 0.999999, 1.0] {
        let p = Percentage::new(v.to_bits()).unwrap();
        assert_eq!(p.get(), v.to_bits());
        assert_eq!(f64::from_bits(p.get()), v);
    }
}

#[test]
fn new_refuses_what_lies_outside() {
    for v in [
        -0.1f64,
        -1.0,
        -5e-324,
        1.0000000000000002,
        1.1,
        2.0,
        1e300,
        -1e300,
        f64::INFINITY,
        f64::NEG_INFINITY,
        f64::NAN,
        -f64::NAN,
    ] {
        let e = Percentage::new(v.to_bits()).unwrap_err();
        assert_eq!(e.value, v.to_bits());
    }
}

#[test]
fn new_agrees_with_the_comparison_of_real_numbers() {
    let mut bits: u64 = 1;
    for _ in 0..2000 {
        // A fixed walk over bit patterns of every kind.
        bits = bits.wrapping_mul(6364136223846793005).wrapping_add(1442695040888963407);
        let v = f64::from_bits(bits);
        assert_eq!(Percentage::new(bits).is_ok(), (0.0..=1.0).contains(&v));
        let near_one = ONE_BITS - 1000 + bits % 2000;
        let w = f64::from_bits(near_one);
        assert_eq!(Percentage::new(near_one).is_ok(), (0.0..=1.0).contains(&w));
    }
}

#[test]
fn new_unchecked_keeps_the_value() {
    assert_eq!(Percentage::new_unchecked(0).get(), 0);
    assert_eq!(Percentage::new_unchecked(0.05f64.to_bits()).get(), 0.05f64.to_bits());
    assert_eq!(Percentage::new_unchecked(ONE_BITS).get(), ONE_BITS);
}

#[test]
fn percentage_is_copied() {
    let p = Percentage::new(0.7f64.to_bits()).unwrap();
    let q = p;
    assert_eq!(p.get(), q.get());
}

#[test]
fn steps_of_landmarks() {
    assert_eq!(Percentage::new(0.0f64.to_bits()).unwrap().steps(), 0);
    assert_eq!(Percentage::new((-0.0f64).to_bits()).unwrap().steps(), 0);
    assert_eq!(Percentage::new(1.0f64.to_bits()).unwrap().steps(), DENOMINATOR);
    assert_eq!(Percentage::new(0.5f64.to_bits()).unwrap().steps(), DENOMINATOR / 2);
    assert_eq!(Percentage::new(0.25f64.to_bits()).unwrap().steps(), DENOMINATOR / 4);
    assert_eq!(Percentage::new(0.05f64.to_bits()).unwrap().steps(), 450359962737049);
    assert_eq!(Percentage::new(f64::MIN_POSITIVE.to_bits()).unwrap().steps(), 0);
    assert_eq!(Percentage::new(5e-324f64.to_bits()).unwrap().steps(), 0);
}

#[test]
fn steps_at_the_edges_of_fixed_point() {
    let one_step = 1.0 / DENOMINATOR as f64;
    assert_eq!(Percentage::new(one_step.to_bits()).unwrap().steps(), 1);
    assert_eq!(Percentage::new((one_step * 1.5).to_bits()).unwrap().steps(), 1);
    assert_eq!(Percentage::new((one_step * 2.0).to_bits()).unwrap().steps(), 2);
    assert_eq!(Percentage::new((one_step / 2.0).to_bits()).unwrap().steps(), 0);
    let below_one = f64::from_bits(ONE_BITS - 1);
    assert_eq!(Percentage::new(below_one.to_bits()).unwrap().steps(), DENOMINATOR - 1);
}

#[test]
fn steps_are_the_value_times_the_denominator_rounded_down() {
    let mut bits: u64 = 7;
    for _ in 0..5000 {
        bits = bits.wrapping_mul(6364136223846793005).wrapping_add(1442695040888963407);
        let in_range = bits % (ONE_BITS + 1);
        let v = f64::from_bits(in_range);
        let expected = (v * DENOMINATOR as f64).floor() as u64;
        assert_eq!(Percentage::new(in_range).unwrap().steps(), expected);
        let near_one = ONE_BITS - bits % (1u64 << 58);
        let w = f64::from_bits(near_one);
        let expected = (w * DENOMINATOR as f64).floor() as u64;
        assert_eq!(Percentage::new(near_one).unwrap().steps(), expected);
    }
}
