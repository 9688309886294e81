use scarab_engine::{PhysBox, PhysicsError, Point};

/// A length in units, as thousandths.
fn u(v: f64) -> i64 {
    (v * 1000.0).round() as i64
}

fn pt(x: f64, y: f64) -> Point {
    Point { x: u(x), y: u(y) }
}

fn bx(v: [f64; 4]) -> PhysBox {
    PhysBox::new([u(v[0]), u(v[1]), u(v[2]), u(v[3])]).unwrap()
}

fn raw(v: [f64; 4]) -> Result<PhysBox, PhysicsError> {
    PhysBox::new([u(v[0]), u(v[1]), u(v[2]), u(v[3])])
}

#[test]
fn negative_sized_rect_not_allowed() {
    assert_eq!(raw([0.0, 0.0, 1.0, -4.0]).unwrap_err(), PhysicsError::PhysBoxSize);
    assert_eq!(raw([0.0, 0.0, -0.1, 4.0]).unwrap_err(), PhysicsError::PhysBoxSize);
    assert_eq!(raw([0.0, 0.0, -10000.0, -2.0]).unwrap_err(), PhysicsError::PhysBoxSize);
}

#[test]
fn zero_sized_rect_not_allowed() {
    assert_eq!(raw([0.0, 0.0, 0.0, 0.0]).unwrap_err(), PhysicsError::PhysBoxSize);
    assert_eq!(raw([0.0, 0.0, 0.0, 4.0]).unwrap_err(), PhysicsError::PhysBoxSize);
    assert_eq!(raw([0.0, 0.0, 1.0, 0.0]).unwrap_err(), PhysicsError::PhysBoxSize);
}

#[test]
fn physbox_contains_pos_contains_top_left_edges() {
    let physbox1 = bx([0.0, 0.0, 3.0, 4.0]);
    assert!(physbox1.contains_pos(pt(0.0, 0.0)));
    assert!(physbox1.contains_pos(pt(0.0, 1.0)));
    assert!(physbox1.contains_pos(pt(0.0, 2.0)));
    assert!(physbox1.contains_pos(pt(0.0, 3.0)));
    assert!(physbox1.contains_pos(pt(1.0, 0.0)));
    assert!(physbox1.contains_pos(pt(2.0, 0.0)));

    let physbox2 = bx([1.0, 1.0, 4.0, 5.0]);
    assert!(physbox2.contains_pos(pt(1.0, 1.0)));
    assert!(physbox2.contains_pos(pt(1.0, 2.0)));
    assert!(physbox2.contains_pos(pt(1.0, 3.0)));
    assert!(physbox2.contains_pos(pt(1.0, 4.0)));
    assert!(physbox2.contains_pos(pt(1.0, 4.99)));
    assert!(physbox2.contains_pos(pt(2.0, 1.0)));
    assert!(physbox2.contains_pos(pt(3.0, 1.0)));
    assert!(physbox2.contains_pos(pt(3.99, 1.0)));
}

#[test]
fn physbox_contains_pos_contains_middle() {
    let physbox1 = bx([0.0, 0.0, 5.0, 5.0]);
    assert!(physbox1.contains_pos(pt(2.0, 2.0)));

    let physbox2 = bx([1.0, 1.0, 5.0, 5.0]);
    assert!(physbox2.contains_pos(pt(3.0, 3.0)));
    assert!(physbox2.contains_pos(pt(5.99, 5.99)));
}

#[test]
fn physbox_contains_pos_doesnt_contain_bottom_right_edges() {
    let physbox1 = bx([0.0, 0.0, 3.0, 4.0]);
    assert!(!physbox1.contains_pos(pt(0.0, 4.0)));
    assert!(!physbox1.contains_pos(pt(1.0, 4.0)));
    assert!(!physbox1.contains_pos(pt(2.0, 4.0)));
    assert!(!physbox1.contains_pos(pt(3.0, 4.0)));
    assert!(!physbox1.contains_pos(pt(3.0, 0.0)));
    assert!(!physbox1.contains_pos(pt(3.0, 1.0)));
    assert!(!physbox1.contains_pos(pt(3.0, 2.0)));
    assert!(!physbox1.contains_pos(pt(3.0, 3.0)));

    let physbox2 = bx([1.0, 1.0, 3.0, 4.0]);
    assert!(!physbox2.contains_pos(pt(1.0, 5.0)));
    assert!(!physbox2.contains_pos(pt(2.0, 5.0)));
    assert!(!physbox2.contains_pos(pt(3.0, 5.0)));
    assert!(!physbox2.contains_pos(pt(4.0, 5.0)));
    assert!(!physbox2.contains_pos(pt(4.0, 1.0)));
    assert!(!physbox2.contains_pos(pt(4.0, 2.0)));
    assert!(!physbox2.contains_pos(pt(4.0, 3.0)));
    assert!(!physbox2.contains_pos(pt(4.0, 4.0)));
}

#[test]
fn physbox_contains_pos_doesnt_contain_obvious() {
    let physbox1 = bx([0.0, 0.0, 3.0, 4.0]);
    assert!(!physbox1.contains_pos(pt(0.0, 10.0)));
    assert!(!physbox1.contains_pos(pt(10.0, 0.0)));
    assert!(!physbox1.contains_pos(pt(10.0, 10.0)));
    assert!(!physbox1.contains_pos(pt(3.0, 10.0)));
    assert!(!physbox1.contains_pos(pt(10.0, 4.0)));

    let physbox2 = bx([1.0, 1.0, 2.0, 2.0]);
    assert!(!physbox2.contains_pos(pt(0.0, 0.0)));
    assert!(!physbox2.contains_pos(pt(-5.0, -5.0)));
    assert!(!physbox2.contains_pos(pt(1.0, 10.0)));
    assert!(!physbox2.contains_pos(pt(10.0, 3.0)));
}

#[test]
fn physbox_has_overlap_works() {
    let physbox1 = bx([1.0, 0.0, 3.0, 3.0]);
    let physbox2 = bx([0.0, 1.0, 5.0, 1.0]);
    let physbox3 = bx([2.0, 1.0, 1.0, 1.0]);
    let physbox4 = bx([2.0, 1.0, 2.0, 2.0]);

    assert!(physbox1.has_overlap(&physbox1));
    assert!(physbox1.has_overlap(&physbox2));
    assert!(physbox1.has_overlap(&physbox3));
    assert!(physbox1.has_overlap(&physbox4));
}

#[test]
fn physbox_has_overlap_adjacent_cells_dont_overlap() {
    let physbox0_0 = bx([0.0, 0.0, 5.0, 5.0]);
    let physbox0_1 = bx([0.0, 5.0, 5.0, 5.0]);
    let physbox1_0 = bx([5.0, 0.0, 5.0, 5.0]);
    let physbox1_1 = bx([5.0, 5.0, 5.0, 5.0]);

    assert!(!physbox0_0.has_overlap(&physbox0_1));
    assert!(!physbox0_0.has_overlap(&physbox1_0));
    assert!(!physbox0_0.has_overlap(&physbox1_1));

    assert!(!physbox0_1.has_overlap(&physbox0_0));
    assert!(!physbox0_1.has_overlap(&physbox1_0));
    assert!(!physbox0_1.has_overlap(&physbox1_1));

    assert!(!physbox1_0.has_overlap(&physbox0_0));
    assert!(!physbox1_0.has_overlap(&physbox0_1));
    assert!(!physbox1_0.has_overlap(&physbox1_1));

    assert!(!physbox1_1.has_overlap(&physbox0_0));
    assert!(!physbox1_1.has_overlap(&physbox0_1));
    assert!(!physbox1_1.has_overlap(&physbox1_0));
}

#[test]
fn physbox_box_contains_itself() {
    let physbox = bx([1.0, 50.0, 20.0, 20.0]);

    assert!(physbox.is_fully_contained_by(&physbox));
}

#[test]
fn physbox_box_containment_not_commutative() {
    let physbox1 = bx([0.0, 0.0, 20.0, 20.0]);
    let physbox2 = bx([5.0, 5.0, 5.0, 5.0]);

    assert!(physbox2.is_fully_contained_by(&physbox1));
    assert!(!physbox1.is_fully_contained_by(&physbox2));
}

#[test]
fn physbox_box_on_top_left_edge_is_contained() {
    let physbox1 = bx([0.0, 0.0, 20.0, 20.0]);
    let physbox2 = bx([0.0, 0.0, 10.0, 10.0]);
    let physbox3 = bx([5.0, 0.0, 10.0, 10.0]);
    let physbox4 = bx([0.0, 5.0, 10.0, 10.0]);

    assert!(physbox2.is_fully_contained_by(&physbox1));
    assert!(physbox3.is_fully_contained_by(&physbox1));
    assert!(physbox4.is_fully_contained_by(&physbox1));
}

#[test]
fn physbox_box_on_bottom_right_edge_is_contained() {
    let physbox1 = bx([0.0, 0.0, 20.0, 20.0]);
    let physbox2 = bx([10.0, 10.0, 10.0, 10.0]);
    let physbox3 = bx([10.0, 0.0, 10.0, 10.0]);
    let physbox4 = bx([0.0, 10.0, 10.0, 10.0]);

    assert!(physbox2.is_fully_contained_by(&physbox1));
    assert!(physbox3.is_fully_contained_by(&physbox1));
    assert!(physbox4.is_fully_contained_by(&physbox1));
}

#[test]
fn types_contains_pos_contains_top_left_edges() {
    let physbox1 = bx([0.0, 0.0, 3.0, 4.0]);
    assert!(physbox1.contains_pos(pt(0.0, 0.0)));
    assert!(physbox1.contains_pos(pt(0.0, 1.0)));
    assert!(physbox1.contains_pos(pt(0.0, 2.0)));
    assert!(physbox1.contains_pos(pt(0.0, 3.0)));
    assert!(physbox1.contains_pos(pt(1.0, 0.0)));
    assert!(physbox1.contains_pos(pt(2.0, 0.0)));

    let physbox2 = bx([1.0, 1.0, 4.0, 5.0]);
    assert!(physbox2.contains_pos(pt(1.0, 1.0)));
    assert!(physbox2.contains_pos(pt(1.0, 2.0)));
    assert!(physbox2.contains_pos(pt(1.0, 3.0)));
    assert!(physbox2.contains_pos(pt(1.0, 4.0)));
    assert!(physbox2.contains_pos(pt(1.0, 4.99)));
    assert!(physbox2.contains_pos(pt(2.0, 1.0)));
    assert!(physbox2.contains_pos(pt(3.0, 1.0)));
    assert!(physbox2.contains_pos(pt(3.99, 1.0)));
}

#[test]
fn types_contains_pos_contains_middle() {
    let physbox1 = bx([0.0, 0.0, 5.0, 5.0]);
    assert!(physbox1.contains_pos(pt(2.0, 2.0)));

    let physbox2 = bx([1.0, 1.0, 5.0, 5.0]);
    assert!(physbox2.contains_pos(pt(3.0, 3.0)));
    assert!(physbox2.contains_pos(pt(5.99, 5.99)));
}

#[test]
fn types_contains_pos_doesnt_contain_bottom_right_edges() {
    let physbox1 = bx([0.0, 0.0, 3.0, 4.0]);
    assert!(!physbox1.contains_pos(pt(0.0, 4.0)));
    assert!(!physbox1.contains_pos(pt(1.0, 4.0)));
    assert!(!physbox1.contains_pos(pt(2.0, 4.0)));
    assert!(!physbox1.contains_pos(pt(3.0, 4.0)));
    assert!(!physbox1.contains_pos(pt(3.0, 0.0)));
    assert!(!physbox1.contains_pos(pt(3.0, 1.0)));
    assert!(!physbox1.contains_pos(pt(3.0, 2.0)));
    assert!(!physbox1.contains_pos(pt(3.0, 3.0)));

    let physbox2 = bx([1.0, 1.0, 3.0, 4.0]);
    assert!(!physbox2.contains_pos(pt(1.0, 5.0)));
    assert!(!physbox2.contains_pos(pt(2.0, 5.0)));
    assert!(!physbox2.contains_pos(pt(3.0, 5.0)));
    assert!(!physbox2.contains_pos(pt(4.0, 5.0)));
    assert!(!physbox2.contains_pos(pt(4.0, 1.0)));
    assert!(!physbox2.contains_pos(pt(4.0, 2.0)));
    assert!(!physbox2.contains_pos(pt(4.0, 3.0)));
    assert!(!physbox2.contains_pos(pt(4.0, 4.0)));
}

#[test]
fn types_contains_pos_doesnt_contain_obvious() {
    let physbox1 = bx([0.0, 0.0, 3.0, 4.0]);
    assert!(!physbox1.contains_pos(pt(0.0, 10.0)));
    assert!(!physbox1.contains_pos(pt(10.0, 0.0)));
    assert!(!physbox1.contains_pos(pt(10.0, 10.0)));
    assert!(!physbox1.contains_pos(pt(3.0, 10.0)));
    assert!(!physbox1.contains_pos(pt(10.0, 4.0)));

    let physbox2 = bx([1.0, 1.0, 2.0, 2.0]);
    assert!(!physbox2.contains_pos(pt(0.0, 0.0)));
    assert!(!physbox2.contains_pos(pt(-5.0, -5.0)));
    assert!(!physbox2.contains_pos(pt(1.0, 10.0)));
    assert!(!physbox2.contains_pos(pt(10.0, 3.0)));
}

#[test]
fn types_has_overlap_works() {
    let physbox1 = bx([1.0, 0.0, 3.0, 3.0]);
    let physbox2 = bx([0.0, 1.0, 5.0, 1.0]);
    let physbox3 = bx([2.0, 1.0, 1.0, 1.0]);
    let physbox4 = bx([2.0, 1.0, 2.0, 2.0]);

    assert!(physbox1.has_overlap(&physbox1));
    assert!(physbox1.has_overlap(&physbox2));
    assert!(physbox1.has_overlap(&physbox3));
    assert!(physbox1.has_overlap(&physbox4));
}

#[test]
fn types_has_overlap_adjacent_cells_dont_overlap() {
    let physbox0_0 = bx([0.0, 0.0, 5.0, 5.0]);
    let physbox0_1 = bx([0.0, 5.0, 5.0, 5.0]);
    let physbox1_0 = bx([5.0, 0.0, 5.0, 5.0]);
    let physbox1_1 = bx([5.0, 5.0, 5.0, 5.0]);

    assert!(!physbox0_0.has_overlap(&physbox0_1));
    assert!(!physbox0_0.has_overlap(&physbox1_0));
    assert!(!physbox0_0.has_overlap(&physbox1_1));

    assert!(!physbox0_1.has_overlap(&physbox0_0));
    assert!(!physbox0_1.has_overlap(&physbox1_0));
    assert!(!physbox0_1.has_overlap(&physbox1_1));

    assert!(!physbox1_0.has_overlap(&physbox0_0));
    assert!(!physbox1_0.has_overlap(&physbox0_1));
    assert!(!physbox1_0.has_overlap(&physbox1_1));

    assert!(!physbox1_1.has_overlap(&physbox0_0));
    assert!(!physbox1_1.has_overlap(&physbox0_1));
    assert!(!physbox1_1.has_overlap(&physbox1_0));
}

#[test]
fn types_box_contains_itself() {
    let physbox = bx([1.0, 50.0, 20.0, 20.0]);

    assert!(physbox.is_fully_contained_by(&physbox));
}

#[test]
fn types_box_containment_not_commutative() {
    let physbox1 = bx([0.0, 0.0, 20.0, 20.0]);
    let physbox2 = bx([5.0, 5.0, 5.0, 5.0]);

    assert!(physbox2.is_fully_contained_by(&physbox1));
    assert!(!physbox1.is_fully_contained_by(&physbox2));
}

#[test]
fn types_box_on_top_left_edge_is_contained() {
    let physbox1 = bx([0.0, 0.0, 20.0, 20.0]);
    let physbox2 = bx([0.0, 0.0, 10.0, 10.0]);
    let physbox3 = bx([5.0, 0.0, 10.0, 10.0]);
    let physbox4 = bx([0.0, 5.0, 10.0, 10.0]);

    assert!(physbox2.is_fully_contained_by(&physbox1));
    assert!(physbox3.is_fully_contained_by(&physbox1));
    assert!(physbox4.is_fully_contained_by(&physbox1));
}

#[test]
fn types_box_on_bottom_right_edge_is_contained() {
    let physbox1 = bx([0.0, 0.0, 20.0, 20.0]);
    let physbox2 = bx([10.0, 10.0, 10.0, 10.0]);
    let physbox3 = bx([10.0, 0.0, 10.0, 10.0]);
    let physbox4 = bx([0.0, 10.0, 10.0, 10.0]);

    assert!(physbox2.is_fully_contained_by(&physbox1));
    assert!(physbox3.is_fully_contained_by(&physbox1));
    assert!(physbox4.is_fully_contained_by(&physbox1));
}
