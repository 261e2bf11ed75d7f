use longpress::position::Position;

#[test]
fn end_point_adds_extent() {
    let p = Position::new(3, -4, 10, 20);
    assert_eq!(p.end_point(), (13, 16));
}

#[test]
fn imaginary_size_when_an_extent_is_not_positive() {
    assert!(!Position::new(0, 0, 1, 1).has_imaginary_size());
    assert!(Position::new(0, 0, 0, 5).has_imaginary_size());
    assert!(Position::new(0, 0, 5, 0).has_imaginary_size());
    assert!(Position::new(0, 0, -3, 5).has_imaginary_size());
    assert!(Position::new(0, 0, 5, -1).has_imaginary_size());
}

#[test]
fn can_hold_identical_rectangles() {
    let a = Position::new(0, 0, 10, 10);
    let b = Position::new(0, 0, 10, 10);
    assert!(a.can_hold(&b));
}

#[test]
fn can_hold_compares_own_end_point_with_itself() {
    // `other` lies well outside `self`, yet the end points compared are both
    // those of `self`, so the test still succeeds.
    let a = Position::new(0, 0, 10, 10);
    let b = Position::new(-50, -50, 500, 500);
    assert!(a.can_hold(&b));
}

#[test]
fn from_bounds_measures_extent() {
    let p = Position::from_bounds(10, 20, 110, 70);
    assert_eq!((p.x, p.y, p.width, p.height), (10, 20, 100, 50));
    let q = Position::from_bounds(5, 5, 0, 5);
    assert_eq!((q.width, q.height), (-5, 0));
    assert!(q.has_imaginary_size());
}
