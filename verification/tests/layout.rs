use markedly::geometry::{half, larger, minus, plus, Point2, Vector2};
use markedly::template::{Coordinate, Coordinates};
use markedly::{ComponentAttributes, ComponentFlow, Docking};

fn units(v: i64) -> i64 {
    v * 1000
}

fn size(x: i64, y: i64) -> Vector2 {
    Vector2::new(units(x), units(y))
}

fn point(x: i64, y: i64) -> Point2 {
    Point2::new(units(x), units(y))
}

#[test]
fn lengths_saturate() {
    assert_eq!(plus(1, 2), 3);
    assert_eq!(plus(i64::MAX, 1), i64::MAX);
    assert_eq!(plus(i64::MIN, -1), i64::MIN);
    assert_eq!(minus(5, 7), -2);
    assert_eq!(minus(i64::MIN, 1), i64::MIN);
    assert_eq!(minus(i64::MAX, -1), i64::MAX);
    assert_eq!(larger(3, 9), 9);
    assert_eq!(half(7), 3);
    assert_eq!(half(-7), -4);
    assert_eq!(Point2::new(1, 2).offset(Vector2::new(10, 20)), Point2::new(11, 22));
}

#[test]
fn the_flow_places_from_left_to_right_and_wraps() {
    let mut flow = ComponentFlow::new(size(100, 100));
    assert_eq!(flow.position(size(40, 10), 0), point(0, 0));
    assert_eq!(flow.position(size(40, 20), 0), point(40, 0));
    // 80 + 40 > 100, the third one starts the next line, below the tallest of the first
    assert_eq!(flow.position(size(40, 10), 0), point(0, 20));
    // 40 + 60 <= 100, the fourth one just fits
    assert_eq!(flow.position(size(60, 10), 0), point(40, 20));
    assert_eq!(flow.position(size(1, 1), 0), point(0, 30));
}

#[test]
fn the_flow_gives_the_same_positions_for_the_same_input() {
    let children = [(size(30, 10), units(2)), (size(50, 15), units(5)), (size(40, 10), 0)];
    let mut first = ComponentFlow::new(size(100, 100));
    let mut second = ComponentFlow::new(size(100, 100));
    for (child, margin) in children.iter() {
        assert_eq!(first.position(*child, *margin), second.position(*child, *margin));
    }
}

#[test]
fn margins_overlap_in_the_flow() {
    let mut flow = ComponentFlow::new(size(100, 100));
    assert_eq!(flow.position(size(10, 10), units(5)), point(5, 5));
    // The gap is the larger of the two margins, 5, not their sum
    assert_eq!(flow.position(size(10, 10), units(3)), point(20, 3));
    // Now the gap is 8
    assert_eq!(flow.position(size(10, 10), units(8)), point(38, 8));
    // A component that does not fit starts the next line at its margin
    assert_eq!(flow.position(size(90, 10), units(2)), point(2, 20));
}

fn attributes(position: Option<(i64, i64)>, docking: (Docking, Docking)) -> ComponentAttributes {
    ComponentAttributes {
        position: position.map(|(x, y)| {
            Coordinates::new(Coordinate::Exact(units(x)), Coordinate::Exact(units(y)))
        }),
        size: Some(Coordinates::new(Coordinate::Exact(units(30)), Coordinate::Exact(units(20)))),
        docking,
        margin: 0,
    }
}

#[test]
fn docking_anchors_to_the_parent() {
    let parent = size(100, 80);
    let mut flow = ComponentFlow::new(parent);
    let end = attributes(Some((0, 0)), (Docking::End, Docking::End));
    assert_eq!(end.compute_position(parent, &mut flow), point(70, 60));
    let start = attributes(Some((3, 4)), (Docking::Start, Docking::Start));
    assert_eq!(start.compute_position(parent, &mut flow), point(3, 4));
    let middle = attributes(Some((0, 10)), (Docking::Middle, Docking::Middle));
    assert_eq!(middle.compute_position(parent, &mut flow), point(35, 40));
    let mixed = attributes(Some((-5, 5)), (Docking::End, Docking::Start));
    assert_eq!(mixed.compute_position(parent, &mut flow), point(65, 5));
    // None of them has moved the flow
    let flowed = attributes(None, (Docking::End, Docking::End));
    assert_eq!(flowed.compute_position(parent, &mut flow), point(0, 0));
    assert_eq!(flowed.compute_position(parent, &mut flow), point(30, 0));
}

#[test]
fn sizes_default_to_the_parent() {
    let parent = size(100, 80);
    let explicit = attributes(None, (Docking::Start, Docking::Start));
    assert_eq!(explicit.compute_size(parent), size(30, 20));
    let relative = ComponentAttributes {
        position: None,
        size: Some(Coordinates::new(Coordinate::RelativeToParent(50), Coordinate::Exact(units(7)))),
        docking: (Docking::Start, Docking::Start),
        margin: 0,
    };
    assert_eq!(relative.compute_size(parent), size(50, 7));
    let inherited = ComponentAttributes {
        position: None,
        size: None,
        docking: (Docking::Start, Docking::Start),
        margin: 0,
    };
    assert_eq!(inherited.compute_size(parent), parent);
}
