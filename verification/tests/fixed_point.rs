use time_to_topple::fixed::divide_toward_zero;
use time_to_topple::fixed::isqrt;
use time_to_topple::fixed::Vec2;
use time_to_topple::fixed::WideVec2;
use time_to_topple::fixed::NANOS_PER_SECOND;
use time_to_topple::fixed::UNIT;

#[test]
fn isqrt_rounds_down() {
    assert_eq!(isqrt(0), 0);
    assert_eq!(isqrt(1), 1);
    assert_eq!(isqrt(2), 1);
    assert_eq!(isqrt(3), 1);
    assert_eq!(isqrt(4), 2);
    assert_eq!(isqrt(99), 9);
    assert_eq!(isqrt(100), 10);
    assert_eq!(isqrt(101), 10);
}

#[test]
fn isqrt_of_the_largest_values() {
    assert_eq!(isqrt(u128::MAX), u64::MAX);
    assert_eq!(isqrt((u64::MAX as u128) * (u64::MAX as u128)), u64::MAX);
    assert_eq!(isqrt((u64::MAX as u128) * (u64::MAX as u128) - 1), u64::MAX - 1);
}

#[test]
fn isqrt_brackets_its_argument() {
    for n in [5u128, 1_000_003, 25_000_000, 1 << 70, (1 << 70) + 12345] {
        let r = isqrt(n) as u128;
        assert!(r * r <= n);
        assert!(n < (r + 1) * (r + 1));
    }
}

#[test]
fn division_rounds_toward_zero() {
    assert_eq!(divide_toward_zero(7, 2), 3);
    assert_eq!(divide_toward_zero(-7, 2), -3);
    assert_eq!(divide_toward_zero(6, 2), 3);
    assert_eq!(divide_toward_zero(-6, 2), -3);
    assert_eq!(divide_toward_zero(0, 5), 0);
    assert_eq!(divide_toward_zero(1, 5), 0);
    assert_eq!(divide_toward_zero(-1, 5), 0);
    assert_eq!(divide_toward_zero(i128::MIN, 1), i128::MIN);
}

#[test]
fn units_are_thousandths_and_nanoseconds() {
    assert_eq!(UNIT, 1000);
    assert_eq!(NANOS_PER_SECOND, 1_000_000_000);
}

#[test]
fn vectors_are_built_from_their_parts() {
    assert_eq!(Vec2::new(3, -4), Vec2 { x: 3, y: -4 });
    assert_eq!(Vec2::zero(), Vec2 { x: 0, y: 0 });
    assert_eq!(WideVec2::zero(), WideVec2 { x: 0, y: 0 });
}
