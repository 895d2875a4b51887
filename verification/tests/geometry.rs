use hundredyearswar::bounds::Bounds;
use hundredyearswar::dimension::Dimension;
use hundredyearswar::position::{clamp_coordinate, Position};
use hundredyearswar::ui::style::Margins;

#[test]
fn bounds_are_normalized() {
    let bounds = Bounds::new(5, -3, 9, 2);
    assert_eq!((-3, 5, 2, 9), (bounds.left, bounds.right, bounds.bottom, bounds.top));
    assert_eq!(bounds, Bounds::new(-3, 5, 2, 9));
    assert_eq!(Bounds::new(0, 0, 0, 0), Bounds::default());
}

#[test]
fn bounds_contain_their_edges() {
    let bounds = Bounds::span(&Position::new(1, 2), &Dimension::new(3, 4));
    assert_eq!(Bounds::new(1, 4, 2, 6), bounds);
    assert!(bounds.contains_position(&Position::new(1, 2)));
    assert!(bounds.contains_position(&Position::new(4, 6)));
    assert!(!bounds.contains_position(&Position::new(5, 6)));
    assert!(!bounds.contains_position(&Position::new(4, 1)));
}

#[test]
fn bounds_reach_past_the_largest_coordinate() {
    let bounds = Bounds::span(&Position::new(i32::MAX, i32::MIN), &Dimension::new(i32::MIN, -1));
    assert_eq!(i32::MAX as i64 + (1i64 << 31), bounds.right);
    assert_eq!(i32::MIN as i64 + 1, bounds.top);
}

#[test]
fn dimension_is_never_negative() {
    assert_eq!(3, Dimension::new(-3, 4).width());
    assert_eq!(4, Dimension::new(-3, 4).height());
    assert_eq!(2147483648, Dimension::new(i32::MIN, 0).width());
    assert_eq!(Dimension::new(0, 0), Dimension::default());
}

#[test]
fn margins_are_never_negative() {
    let margins = Margins::new(-1, 2, -3, 4);
    assert_eq!((1, 2, 3, 4), (margins.left(), margins.right(), margins.bottom(), margins.top()));
    assert_eq!(3, margins.horizontal());
    assert_eq!(7, margins.vertical());
    assert_eq!(4294967294, Margins::new(i32::MIN + 1, i32::MIN + 1, 0, 0).horizontal());
    assert_eq!(Margins::new(0, 0, 0, 0), Margins::default());
}

#[test]
fn position_at_the_origin_by_default() {
    assert_eq!(Position::new(0, 0), Position::default());
    assert_eq!(Position { x: 3, y: -4 }, Position::new(3, -4));
}

#[test]
fn coordinates_are_clamped() {
    assert_eq!(i32::MAX, clamp_coordinate(1 << 40));
    assert_eq!(i32::MIN, clamp_coordinate(-(1 << 40)));
    assert_eq!(-7, clamp_coordinate(-7));
}
