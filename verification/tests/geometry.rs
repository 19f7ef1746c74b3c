use qoi_display::geometry::{Point, Rectangle, Size};

fn rect(x: i32, y: i32, width: u32, height: u32) -> Rectangle {
    Rectangle { top_left: Point { x, y }, size: Size { width, height } }
}

#[test]
fn size_is_empty() {
    assert!(Size { width: 0, height: 5 }.is_empty());
    assert!(Size { width: 5, height: 0 }.is_empty());
    assert!(Size { width: 0, height: 0 }.is_empty());
    assert!(!Size { width: 1, height: 1 }.is_empty());
}

#[test]
fn rectangle_at_origin() {
    let size = Size { width: 3, height: 4 };
    assert_eq!(Rectangle::at_origin(size), rect(0, 0, 3, 4));
}

#[test]
fn rectangle_contains_its_positions() {
    let r = rect(2, 3, 4, 5);
    assert!(r.contains(Point { x: 2, y: 3 }));
    assert!(r.contains(Point { x: 5, y: 7 }));
    assert!(!r.contains(Point { x: 6, y: 7 }));
    assert!(!r.contains(Point { x: 5, y: 8 }));
    assert!(!r.contains(Point { x: 1, y: 3 }));
    assert!(!r.contains(Point { x: 2, y: 2 }));
}

#[test]
fn rectangle_without_extent_contains_nothing() {
    assert!(!rect(0, 0, 0, 3).contains(Point { x: 0, y: 0 }));
    assert!(!rect(0, 0, 3, 0).contains(Point { x: 0, y: 0 }));
}

#[test]
fn rectangle_contains_at_the_limits() {
    let r = rect(i32::MAX, i32::MIN, u32::MAX, u32::MAX);
    assert!(r.contains(Point { x: i32::MAX, y: i32::MIN }));
    assert!(r.contains(Point { x: i32::MAX, y: i32::MAX - 1 }));
    assert!(!r.contains(Point { x: i32::MAX, y: i32::MAX }));
    assert!(!r.contains(Point { x: i32::MAX - 1, y: 0 }));
}

#[test]
fn rectangle_is_within() {
    let size = Size { width: 4, height: 3 };
    assert!(rect(0, 0, 4, 3).is_within(size));
    assert!(rect(1, 1, 3, 2).is_within(size));
    assert!(rect(4, 3, 0, 0).is_within(size));
    assert!(!rect(1, 0, 4, 3).is_within(size));
    assert!(!rect(0, 1, 4, 3).is_within(size));
    assert!(!rect(-1, 0, 2, 2).is_within(size));
    assert!(!rect(0, -1, 2, 2).is_within(size));
    assert!(!rect(5, 5, 1, 1).is_within(size));
    assert!(!rect(0, 0, u32::MAX, 1).is_within(size));
}
