use scarab_engine::{BoxEdge, Cell, CellNeighbors, Field, PhysBox, Point, Solidity, NO_SOLIDITY, SOLID};

/// A length in units, as thousandths.
fn u(v: f64) -> i64 {
    (v * 1000.0).round() as i64
}

fn bx(v: [f64; 4]) -> PhysBox {
    PhysBox::new([u(v[0]), u(v[1]), u(v[2]), u(v[3])]).unwrap()
}

fn shifted(p: Point, dx: f64, dy: f64) -> Point {
    Point { x: p.x + u(dx), y: p.y + u(dy) }
}

fn create_test_field() -> (Vec<PhysBox>, Field) {
    let boxes = vec![
        bx([0.0, 0.0, 10.0, 20.0]),
        bx([10.0, 10.0, 20.0, 30.0]),
        bx([10.0, 0.0, 40.0, 10.0]),
        bx([30.0, 10.0, 20.0, 50.0]),
        bx([0.0, 40.0, 30.0, 20.0]),
        bx([0.0, 20.0, 10.0, 20.0]),
        bx([50.0, 0.0, 1.0, 60.0]),
        bx([0.0, 60.0, 50.0, 1.0]),
        bx([0.0, -1.0, 50.0, 1.0]),
        bx([-1.0, 0.0, 1.0, 60.0]),
    ];

    let cell0 = Cell::new(Solidity(SOLID), boxes[0].clone());
    let cell1 = Cell::new(Solidity(SOLID), boxes[1].clone());
    let cell2 = Cell::new(Solidity(NO_SOLIDITY), boxes[2].clone());
    let cell3 = Cell::new(Solidity(NO_SOLIDITY), boxes[3].clone());
    let cell4 = Cell::new(Solidity(NO_SOLIDITY), boxes[4].clone());
    let cell5 = Cell::new(Solidity(NO_SOLIDITY), boxes[5].clone());
    let cell6 = Cell::new(Solidity(SOLID), boxes[6].clone());
    let cell7 = Cell::new(Solidity(SOLID), boxes[7].clone());
    let cell8 = Cell::new(Solidity(SOLID), boxes[8].clone());
    let cell9 = Cell::new(Solidity(SOLID), boxes[9].clone());

    let field = Field::new(vec![
        cell0, cell1, cell2, cell3, cell4, cell5, cell6, cell7, cell8, cell9,
    ])
    .unwrap();

    (boxes, field)
}

#[test]
fn cell_at_pos_works() {
    let (boxes, field) = create_test_field();

    for physbox in &boxes {
        assert_eq!(field.cell_at_pos(physbox.pos()).unwrap().get_box(), physbox)
    }

    assert_eq!(
        field
            .cell_at_pos(shifted(boxes[0].pos(), 5.0, 5.0))
            .unwrap()
            .get_box(),
        &boxes[0]
    );

    assert_eq!(
        field
            .cell_at_pos(shifted(boxes[1].pos(), 5.0, 5.0))
            .unwrap()
            .get_box(),
        &boxes[1]
    );

    assert!(field
        .cell_at_pos(Point { x: u(-1000.0), y: u(-1000.0) })
        .is_none())
}

#[test]
fn neighbors_of_cell_overlapping_box_works_with_cell_physboxes() {
    let (boxes, field) = create_test_field();

    for physbox in &boxes {
        let cell_at = field.cell_at_pos(physbox.pos()).unwrap();
        assert_eq!(cell_at.get_box(), physbox);

        let neighbors = field
            .neighbors_of_cell_overlapping_box(cell_at, physbox)
            .unwrap();
        assert_eq!(neighbors, CellNeighbors::new());
    }
}

#[test]
fn neighbors_of_cell_overlapping_box_works_in_middle_of_cell() {
    let (boxes, field) = create_test_field();

    let testbox = bx([31.0, 21.0, 8.0, 8.0]);
    let cell_at = field.cell_at_pos(testbox.pos()).unwrap();
    assert_eq!(cell_at.get_box(), &boxes[3]);

    let neighbors = field
        .neighbors_of_cell_overlapping_box(cell_at, &testbox)
        .unwrap();
    assert_eq!(neighbors, CellNeighbors::new());
}

#[test]
fn neighbors_of_cell_overlapping_box_works_on_right_edge() {
    let (boxes, field) = create_test_field();

    // Shift it over -6 x
    let testbox = bx([25.0, 21.0, 8.0, 8.0]);
    let cell_at = field.cell_at_pos(testbox.pos()).unwrap();
    assert_eq!(cell_at.get_box(), &boxes[1]);

    let neighbors = field
        .neighbors_of_cell_overlapping_box(cell_at, &testbox)
        .unwrap();

    // It only has an overlapping neighbor on the new box's right
    assert_eq!(neighbors.get_neighbors(BoxEdge::Top), &Vec::<usize>::new());
    assert_eq!(neighbors.get_neighbors(BoxEdge::Left), &Vec::<usize>::new());
    assert_eq!(neighbors.get_neighbors(BoxEdge::Bottom), &Vec::<usize>::new());
    assert_eq!(
        neighbors.get_neighbors(BoxEdge::Right),
        &vec![field.cell_at_pos(boxes[3].pos()).unwrap().index()]
    );
}

#[test]
fn neighbors_of_cell_overlapping_box_works_on_bottom_edge() {
    let (boxes, field) = create_test_field();

    // Shift it up -13 y
    let testbox = bx([31.0, 8.0, 8.0, 8.0]);
    let cell_at = field.cell_at_pos(testbox.pos()).unwrap();
    assert_eq!(cell_at.get_box(), &boxes[2]);

    let neighbors = field
        .neighbors_of_cell_overlapping_box(cell_at, &testbox)
        .unwrap();

    // It only has an overlapping neighbor on the bottom
    assert_eq!(neighbors.get_neighbors(BoxEdge::Top), &Vec::<usize>::new());
    assert_eq!(neighbors.get_neighbors(BoxEdge::Left), &Vec::<usize>::new());
    assert_eq!(
        neighbors.get_neighbors(BoxEdge::Bottom),
        &vec![field.cell_at_pos(boxes[3].pos()).unwrap().index()]
    );
    assert_eq!(neighbors.get_neighbors(BoxEdge::Right), &Vec::<usize>::new());
}

#[test]
fn neighbors_of_cell_overlapping_box_works_on_bottom_right_corner() {
    let (boxes, field) = create_test_field();

    // Shift it left -6 x and down +15 y
    let testbox = bx([25.0, 36.0, 8.0, 8.0]);
    let cell_at = field.cell_at_pos(testbox.pos()).unwrap();
    assert_eq!(cell_at.get_box(), &boxes[1]);

    let neighbors = field
        .neighbors_of_cell_overlapping_box(cell_at, &testbox)
        .unwrap();

    // It has an overlapping neighbor on the bottom and right
    assert_eq!(neighbors.get_neighbors(BoxEdge::Top), &Vec::<usize>::new());
    assert_eq!(neighbors.get_neighbors(BoxEdge::Left), &Vec::<usize>::new());
    assert_eq!(
        neighbors.get_neighbors(BoxEdge::Bottom),
        &vec![field.cell_at_pos(boxes[4].pos()).unwrap().index()]
    );
    assert_eq!(
        neighbors.get_neighbors(BoxEdge::Right),
        &vec![field.cell_at_pos(boxes[3].pos()).unwrap().index()]
    );
}

#[test]
fn field_edges_record_side_and_passability() {
    let a = Cell::new(Solidity(SOLID), bx([0.0, 0.0, 10.0, 10.0]));
    let b = Cell::new(Solidity(NO_SOLIDITY), bx([10.0, 0.0, 10.0, 10.0]));
    let field = Field::new(vec![a, b]).unwrap();
    let from_a = field.edges_of(0).unwrap();
    assert_eq!(from_a.len(), 1);
    assert_eq!(from_a[0].target, 1);
    assert_eq!(from_a[0].edge, BoxEdge::Right);
    assert!(!from_a[0].passable);
    let from_b = field.edges_of(1).unwrap();
    assert_eq!(from_b.len(), 1);
    assert_eq!(from_b[0].target, 0);
    assert_eq!(from_b[0].edge, BoxEdge::Left);
    // b may exit on the left, but a may not be entered on its right
    assert!(!from_b[0].passable);
    assert_eq!(field.cells()[1].index(), 1);
}

#[test]
fn field_scan_skips_gaps_one_unit_at_a_time() {
    // Two cells below a wide one, with a two-unit gap between them.
    let top = Cell::new(Solidity(NO_SOLIDITY), bx([0.0, 0.0, 10.0, 5.0]));
    let left = Cell::new(Solidity(NO_SOLIDITY), bx([0.0, 5.0, 4.0, 5.0]));
    let right = Cell::new(Solidity(NO_SOLIDITY), bx([6.0, 5.0, 4.0, 5.0]));
    let field = Field::new(vec![top, left, right]).unwrap();
    let from_top = field.edges_of(0).unwrap();
    let targets: Vec<usize> = from_top.iter().map(|e| e.target).collect();
    assert_eq!(targets, vec![1, 2]);
    assert!(from_top.iter().all(|e| e.edge == BoxEdge::Bottom && e.passable));
}

#[test]
fn field_index_errors_are_reported() {
    let field = Field::new(vec![Cell::new(Solidity(SOLID), bx([0.0, 0.0, 1.0, 1.0]))]).unwrap();
    assert_eq!(
        field.edges_of(3).unwrap_err(),
        scarab_engine::PhysicsError::FieldIndex(3)
    );
}
