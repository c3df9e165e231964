use physics2d::scalar::Scalar;
use physics2d::vector::Vec2;

fn v(x: i64, y: i64) -> Vec2 {
    Vec2::new(Scalar::from_raw(x), Scalar::from_raw(y))
}

#[test]
fn length_of_a_three_four_five_triangle() {
    let d = v(3_000_000_000, -4_000_000_000);
    assert_eq!(d.norm_squared(), 25_000_000_000_000_000_000);
    assert_eq!(d.length().raw(), 5_000_000_000);
    assert_eq!(v(1, 1).length().raw(), 1);
    assert_eq!(v(0, 0).length().raw(), 0);
}

#[test]
fn length_saturates() {
    assert_eq!(v(i64::MAX, i64::MAX).length().raw(), i64::MAX);
}

#[test]
fn sums_and_differences_by_component() {
    assert_eq!(v(1, 2).add(v(10, 20)), v(11, 22));
    assert_eq!(v(1, 2).sub(v(10, 20)), v(-9, -18));
    assert_eq!(v(1, -2).neg(), v(-1, 2));
}

#[test]
fn scaling_and_dividing() {
    let half = Scalar::from_raw(500_000_000);
    assert_eq!(v(3, -3).scale(half), v(1, -1));
    assert_eq!(v(2_000_000_000, 4_000_000_000).scale(half), v(1_000_000_000, 2_000_000_000));
    assert_eq!(
        v(300_000_000, 400_000_000).divide(half),
        v(600_000_000, 800_000_000)
    );
}

#[test]
fn inner_product() {
    let a = v(1_500_000_000, 2_000_000_000);
    let b = v(-2_000_000_000, 500_000_000);
    assert_eq!(a.dot(b).raw(), -2_000_000_000);
}

#[test]
fn quarter_turn() {
    assert_eq!(v(1_000_000_000, 0).perp(), v(0, 1_000_000_000));
    assert_eq!(v(0, 1_000_000_000).perp(), v(-1_000_000_000, 0));
    assert_eq!(v(3, 4).perp().dot(v(3, 4)).raw(), 0);
}

#[test]
fn zero_vector() {
    assert_eq!(Vec2::zero(), v(0, 0));
}
