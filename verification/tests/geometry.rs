use icy_view::geometry::{Position, Rectangle, Size};

fn rect(x: i32, y: i32, width: i32, height: i32) -> Rectangle {
    Rectangle { start: Position::new(x, y), size: Size { width, height } }
}

#[test]
fn rectangle_contains_itself() {
    let r = rect(1, 2, 3, 4);
    assert!(r.contains(r));
}

#[test]
fn rectangle_contains_inner_rectangle() {
    assert!(rect(0, 0, 10, 10).contains(rect(2, 3, 4, 5)));
    assert!(rect(0, 0, 10, 10).contains(rect(0, 0, 10, 10)));
    assert!(rect(0, 0, 10, 10).contains(rect(9, 9, 1, 1)));
}

#[test]
fn rectangle_does_not_contain_overlapping_rectangle() {
    assert!(!rect(0, 0, 10, 10).contains(rect(5, 5, 6, 1)));
    assert!(!rect(0, 0, 10, 10).contains(rect(5, 5, 1, 6)));
    assert!(!rect(1, 0, 10, 10).contains(rect(0, 0, 2, 2)));
    assert!(!rect(0, 1, 10, 10).contains(rect(0, 0, 2, 2)));
}

#[test]
fn rectangle_edges_do_not_overflow() {
    let big = rect(i32::MAX, i32::MAX, i32::MAX, i32::MAX);
    assert!(big.contains(big));
    assert!(!rect(0, 0, 1, 1).contains(big));
}

#[test]
fn positions_follow_reading_order() {
    assert!(Position::new(5, 1).is_before(Position::new(0, 2)));
    assert!(Position::new(1, 2).is_before(Position::new(1, 2)));
    assert!(Position::new(1, 2).is_before(Position::new(2, 2)));
    assert!(!Position::new(0, 3).is_before(Position::new(9, 2)));
    assert!(!Position::new(3, 2).is_before(Position::new(2, 2)));
}
