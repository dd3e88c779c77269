use pathtrace::fx::{Fx, MAXR, SCALE};

#[test]
fn scale_is_two_to_sixteen() {
    assert_eq!(SCALE, 65536);
    assert_eq!(Fx::one().raw, 65536);
    assert_eq!(Fx::zero().raw, 0);
}

#[test]
fn mul_truncates_toward_zero() {
    let a = Fx::from_ratio(3, 2);
    let b = Fx::from_ratio(1, 2);
    assert_eq!(a.mul(b).raw, 49152);
    let c = Fx::from_ratio(-3, 2);
    assert_eq!(c.mul(b).raw, -49152);
    assert_eq!(Fx::from_ratio(1, 3).mul(Fx::from_int(3)).raw, 65535);
}

#[test]
fn div_by_zero_saturates_like_infinity() {
    let one = Fx::one();
    let zero = Fx::zero();
    assert_eq!(one.div(zero).raw, MAXR);
    assert_eq!(one.neg().div(zero).raw, -MAXR);
    assert_eq!(zero.div(zero).raw, 0);
}

#[test]
fn sqrt_rounds_down() {
    assert_eq!(Fx::from_int(4).sqrt().raw, 2 * 65536);
    assert_eq!(Fx::one().sqrt().raw, 65536);
    assert_eq!(Fx::from_int(2).sqrt().raw, 92681);
    assert_eq!(Fx::from_int(-3).sqrt().raw, 0);
}

#[test]
fn from_ratio_truncates() {
    assert_eq!(Fx::from_ratio(1, 100).raw, 655);
    assert_eq!(Fx::from_ratio(-45, 100).raw, -29491);
    assert_eq!(Fx::from_ratio(7, 10).raw, 45875);
}

#[test]
fn saturation_rails_hold() {
    let big = Fx { raw: MAXR };
    assert_eq!(big.add(big).raw, MAXR);
    assert_eq!(big.neg().sub(big).raw, -MAXR);
    assert_eq!(big.mul(big).raw, MAXR);
}
