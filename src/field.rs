use vstd::prelude::*;

use crate::error::{PhysicsError, PhysicsResult};
use crate::physbox::PhysBox;
use crate::types::{opposite_spec, BoxEdge, HasSolidity, Point, Solidity, UNIT};

verus! {

/// A static rectangle of the field, with the passability of its edges.
#[derive(Debug, Clone, Copy, PartialEq, Eq, Structural)]
pub struct Cell {
    i: usize,
    solidity: Solidity,
    physbox: PhysBox,
}

impl Cell {
    pub closed spec fn index_spec(self) -> usize {
        self.i
    }

    pub closed spec fn solidity_spec(self) -> Solidity {
        self.solidity
    }

    pub closed spec fn box_spec(self) -> PhysBox {
        self.physbox
    }

    /// A cell with the given passability and box; its index is set when a field is built.
    pub fn new(solidity: Solidity, physbox: PhysBox) -> (r: Cell)
        ensures
            r.index_spec() == 0,
            r.solidity_spec() == solidity,
            r.box_spec() == physbox,
    {
        Cell { i: 0, solidity, physbox }
    }

    /// The cell's index in its field.
    pub fn index(&self) -> (r: usize)
        ensures
            r == self.index_spec(),
    {
        self.i
    }

    /// The cell's passability mask.
    pub fn solidity(&self) -> (r: Solidity)
        ensures
            r == self.solidity_spec(),
    {
        self.solidity
    }

    /// The cell's box.
    pub fn get_box(&self) -> (r: &PhysBox)
        ensures
            *r == self.box_spec(),
    {
        &self.physbox
    }
}

impl HasSolidity for Cell {
    fn get_solidity(&self) -> &Solidity {
        &self.solidity
    }
}

/// A directed edge of the field graph: the neighbouring cell's index, the side of the
/// source cell it lies on, and whether it can be passed (the source may be exited on
/// that side and the neighbour entered on the opposite one).
#[derive(Debug, Clone, Copy, PartialEq, Eq, Structural)]
pub struct FieldEdge {
    pub target: usize,
    pub edge: BoxEdge,
    pub passable: bool,
}

/// The probe point at coordinate `t` along the line just outside `b`'s `edge`.
pub open spec fn probe(b: PhysBox, edge: BoxEdge, t: int) -> (int, int) {
    match edge {
        BoxEdge::Top => (t, b.top() - UNIT),
        BoxEdge::Left => (b.left() - UNIT, t),
        BoxEdge::Bottom => (t, b.bottom()),
        BoxEdge::Right => (b.right(), t),
    }
}

/// Where a scan along `b`'s `edge` starts.
pub open spec fn scan_start(b: PhysBox, edge: BoxEdge) -> int {
    match edge {
        BoxEdge::Top | BoxEdge::Bottom => b.left(),
        BoxEdge::Left | BoxEdge::Right => b.top(),
    }
}

/// Where a scan along `b`'s `edge` ends (exclusive).
pub open spec fn scan_end(b: PhysBox, edge: BoxEdge) -> int {
    match edge {
        BoxEdge::Top | BoxEdge::Bottom => b.right(),
        BoxEdge::Left | BoxEdge::Right => b.bottom(),
    }
}

pub open spec fn box_contains(b: PhysBox, p: (int, int)) -> bool {
    b.left() <= p.0 < b.right() && b.top() <= p.1 < b.bottom()
}

/// The index of the first cell whose box holds `p`.
pub open spec fn first_containing(cells: Seq<Cell>, p: (int, int)) -> Option<int>
    decreases cells.len(),
{
    if cells.len() == 0 {
        None
    } else {
        match first_containing(cells.drop_last(), p) {
            Some(j) => Some(j),
            None => if box_contains(cells.last().box_spec(), p) {
                Some(cells.len() - 1)
            } else {
                None
            },
        }
    }
}

/// The next scan coordinate after `t`: the far end, along the scan, of the cell the
/// probe at `t` fell into, or one unit on when it fell into none.
pub open spec fn scan_next(cells: Seq<Cell>, edge: BoxEdge, t: int, found: Option<int>) -> int {
    match found {
        Some(j) => {
            let far = scan_end(cells[j].box_spec(), edge);
            if far > t {
                far
            } else {
                t + UNIT
            }
        },
        None => t + UNIT,
    }
}

/// The cells that a scan along `b`'s `edge` meets, from coordinate `t` on, in order.
pub open spec fn scan(cells: Seq<Cell>, b: PhysBox, edge: BoxEdge, t: int) -> Seq<int>
    decreases (if t < scan_end(b, edge) {
        scan_end(b, edge) - t
    } else {
        0
    }),
{
    if t >= scan_end(b, edge) {
        Seq::empty()
    } else {
        let found = first_containing(cells, probe(b, edge, t));
        let rest = scan(cells, b, edge, scan_next(cells, edge, t, found));
        match found {
            Some(j) => seq![j].add(rest),
            None => rest,
        }
    }
}

/// The position of the first edge of `list` at or after `m` that leads to `t`, or -1.
pub open spec fn find_target(list: Seq<FieldEdge>, t: usize, m: int) -> int
    decreases list.len() - m,
{
    if m < 0 || m >= list.len() {
        -1
    } else if list[m].target == t {
        m
    } else {
        find_target(list, t, m + 1)
    }
}

/// `list` with an edge to `e.target` added, or that edge's label replaced if one exists.
pub open spec fn add_edge(list: Seq<FieldEdge>, e: FieldEdge) -> Seq<FieldEdge> {
    let m = find_target(list, e.target, 0);
    if m >= 0 {
        list.update(m, e)
    } else {
        list.push(e)
    }
}

/// The edge from cell `k` to cell `j` on `edge`, labelled with its passability.
pub open spec fn edge_to(cells: Seq<Cell>, k: int, j: int, edge: BoxEdge) -> FieldEdge {
    FieldEdge {
        target: j as usize,
        edge,
        passable: cells[k].solidity_spec().exits(edge) && cells[j].solidity_spec().enters(
            opposite_spec(edge),
        ),
    }
}

/// `list` with the edges from `k` to each cell of `found` on `edge` added in order.
pub open spec fn add_all(
    cells: Seq<Cell>,
    k: int,
    edge: BoxEdge,
    list: Seq<FieldEdge>,
    found: Seq<int>,
) -> Seq<FieldEdge>
    decreases found.len(),
{
    if found.len() == 0 {
        list
    } else {
        add_all(cells, k, edge, add_edge(list, edge_to(cells, k, found[0], edge)), found.drop_first())
    }
}

/// The edges of cell `k` after scanning its edges from the first `n` of top, left,
/// bottom, right.
pub open spec fn scanned_edges(cells: Seq<Cell>, k: int, n: int) -> Seq<FieldEdge>
    decreases n,
{
    if n <= 0 {
        Seq::empty()
    } else {
        let e = crate::types::edge_order()[n - 1];
        let b = cells[k].box_spec();
        add_all(cells, k, e, scanned_edges(cells, k, n - 1), scan(cells, b, e, scan_start(b, e)))
    }
}

/// The cells as given, each with its position as index.
pub closed spec fn indexed(given: Seq<Cell>) -> Seq<Cell> {
    Seq::new(
        given.len(),
        |k: int|
            Cell {
                i: k as usize,
                solidity: given[k].solidity_spec(),
                physbox: given[k].box_spec(),
            },
    )
}

/// The neighbours among `es` on `edge` whose boxes overlap `b`, in the order of `es`.
pub open spec fn bucket(cells: Seq<Cell>, es: Seq<FieldEdge>, b: PhysBox, edge: BoxEdge) -> Seq<
    usize,
>
    decreases es.len(),
{
    if es.len() == 0 {
        Seq::empty()
    } else {
        let pre = bucket(cells, es.drop_last(), b, edge);
        let e = es.last();
        if e.edge == edge && b.overlaps(cells[e.target as int].box_spec()) {
            pre.push(e.target)
        } else {
            pre
        }
    }
}

/// The neighbours of a cell that a box overlaps, by the side of the cell they lie on.
/// Each list holds cell indices into the field.
#[derive(Debug, Clone, PartialEq, Eq)]
pub struct CellNeighbors {
    pub top: Vec<usize>,
    pub left: Vec<usize>,
    pub bottom: Vec<usize>,
    pub right: Vec<usize>,
}

impl CellNeighbors {
    pub open spec fn on(self, edge: BoxEdge) -> Seq<usize> {
        match edge {
            BoxEdge::Top => self.top@,
            BoxEdge::Left => self.left@,
            BoxEdge::Bottom => self.bottom@,
            BoxEdge::Right => self.right@,
        }
    }

    /// No neighbours on any side.
    pub fn new() -> (r: CellNeighbors)
        ensures
            forall|e: BoxEdge| #[trigger] r.on(e) == Seq::<usize>::empty(),
    {
        let r = CellNeighbors { top: Vec::new(), left: Vec::new(), bottom: Vec::new(), right: Vec::new() };
        assert forall|e: BoxEdge| #[trigger] r.on(e) == Seq::<usize>::empty() by {
            assert(r.on(e) =~= Seq::<usize>::empty());
        }
        r
    }

    /// Adds the cell with index `neighbor` on `edge`.
    pub fn add_neighbor(&mut self, neighbor: usize, edge: BoxEdge)
        ensures
            final(self).on(edge) == old(self).on(edge).push(neighbor),
            forall|e: BoxEdge| e != edge ==> #[trigger] final(self).on(e) == old(self).on(e),
    {
        match edge {
            BoxEdge::Top => self.top.push(neighbor),
            BoxEdge::Left => self.left.push(neighbor),
            BoxEdge::Bottom => self.bottom.push(neighbor),
            BoxEdge::Right => self.right.push(neighbor),
        }
    }

    /// The neighbours on `edge`.
    pub fn get_neighbors(&self, edge: BoxEdge) -> (r: &Vec<usize>)
        ensures
            r@ == self.on(edge),
    {
        match edge {
            BoxEdge::Top => &self.top,
            BoxEdge::Left => &self.left,
            BoxEdge::Bottom => &self.bottom,
            BoxEdge::Right => &self.right,
        }
    }

    /// All neighbours: those on the top, then left, bottom and right.
    pub fn iter_all(&self) -> (r: Vec<usize>)
        ensures
            r@ == self.top@ + self.left@ + self.bottom@ + self.right@,
    {
        let mut all: Vec<usize> = Vec::new();
        let mut i: usize = 0;
        while i < self.top.len()
            invariant
                i <= self.top@.len(),
                all@ == self.top@.take(i as int),
            decreases self.top@.len() - i,
        {
            all.push(self.top[i]);
            i = i + 1;
            assert(all@ =~= self.top@.take(i as int));
        }
        assert(self.top@.take(self.top@.len() as int) =~= self.top@);
        let ghost a0 = all@;
        i = 0;
        while i < self.left.len()
            invariant
                i <= self.left@.len(),
                all@ == a0 + self.left@.take(i as int),
            decreases self.left@.len() - i,
        {
            all.push(self.left[i]);
            i = i + 1;
            assert(all@ =~= a0 + self.left@.take(i as int));
        }
        assert(self.left@.take(self.left@.len() as int) =~= self.left@);
        let ghost a1 = all@;
        i = 0;
        while i < self.bottom.len()
            invariant
                i <= self.bottom@.len(),
                all@ == a1 + self.bottom@.take(i as int),
            decreases self.bottom@.len() - i,
        {
            all.push(self.bottom[i]);
            i = i + 1;
            assert(all@ =~= a1 + self.bottom@.take(i as int));
        }
        assert(self.bottom@.take(self.bottom@.len() as int) =~= self.bottom@);
        let ghost a2 = all@;
        i = 0;
        while i < self.right.len()
            invariant
                i <= self.right@.len(),
                all@ == a2 + self.right@.take(i as int),
            decreases self.right@.len() - i,
        {
            all.push(self.right[i]);
            i = i + 1;
            assert(all@ =~= a2 + self.right@.take(i as int));
        }
        assert(self.right@.take(self.right@.len() as int) =~= self.right@);
        all
    }
}

/// The index of the first cell of `cells` whose box holds `pos`, if any.
fn cell_at_pos_internal(cells: &Vec<Cell>, pos: Point) -> (r: Option<usize>)
    requires
        forall|k: int| 0 <= k < cells@.len() ==> (#[trigger] cells@[k]).box_spec().wf(),
    ensures
        r matches Some(j) ==> first_containing(cells@, (pos.x as int, pos.y as int)) == Some(
            j as int,
        ),
        r is None ==> first_containing(cells@, (pos.x as int, pos.y as int)) is None,
{
    let ghost p = (pos.x as int, pos.y as int);
    let mut i: usize = 0;
    while i < cells.len()
        invariant
            i <= cells@.len(),
            forall|k: int| 0 <= k < cells@.len() ==> (#[trigger] cells@[k]).box_spec().wf(),
            p == (pos.x as int, pos.y as int),
            first_containing(cells@.take(i as int), p) is None,
        decreases cells@.len() - i,
    {
        assert(cells@.take(i as int + 1).drop_last() =~= cells@.take(i as int));
        assert(cells@.take(i as int + 1).last() == cells@[i as int]);
        if cells[i].physbox.contains_pos(pos) {
            proof {
                let pre = cells@.take(i as int + 1);
                assert(box_contains(pre.last().box_spec(), p));
                assert(first_containing(pre.drop_last(), p) is None);
                assert(first_containing(pre, p) == Some(i as int));
                lemma_first_containing_prefix(cells@, i as int + 1, p);
            }
            return Some(i);
        }
        i = i + 1;
    }
    assert(cells@.take(cells@.len() as int) =~= cells@);
    None
}

/// Once a prefix of the cells finds a cell, the whole sequence finds the same one.
proof fn lemma_first_containing_prefix(cells: Seq<Cell>, n: int, p: (int, int))
    requires
        0 <= n <= cells.len(),
        first_containing(cells.take(n), p) is Some,
    ensures
        first_containing(cells, p) == first_containing(cells.take(n), p),
    decreases cells.len() - n,
{
    if n < cells.len() {
        assert(cells.take(n + 1).drop_last() =~= cells.take(n));
        lemma_first_containing_prefix(cells, n + 1, p);
    } else {
        assert(cells.take(n) =~= cells);
    }
}

/// The cells of a level and the directed graph of their adjacency.
///
/// Each cell's index is its position in the field; for each cell the field keeps its
/// outgoing edges, which name neighbours by index.
#[derive(Debug, Clone)]
pub struct Field {
    cells: Vec<Cell>,
    edges: Vec<Vec<FieldEdge>>,
}

impl Field {
    pub closed spec fn cells_spec(self) -> Seq<Cell> {
        self.cells@
    }

    pub closed spec fn edges_spec(self, k: int) -> Seq<FieldEdge> {
        self.edges@[k]@
    }

    /// What every field satisfies: cells with valid boxes, each at its own index, and
    /// each cell's edges those that the border scan finds.
    pub open spec fn wf(self) -> bool {
        &&& forall|k: int|
            0 <= k < self.cells_spec().len() ==> (#[trigger] self.cells_spec()[k]).box_spec().wf()
        &&& forall|k: int|
            0 <= k < self.cells_spec().len() ==> (#[trigger] self.cells_spec()[k]).index_spec()
                == k
        &&& forall|k: int|
            0 <= k < self.cells_spec().len() ==> #[trigger] self.edges_spec(k) == scanned_edges(
                self.cells_spec(),
                k,
                4,
            )
        &&& self.edges_inv()
        &&& self.edge_lists() == self.cells_spec().len()
        &&& self.cells_spec().len() <= usize::MAX
    }

    /// How many edge lists the field keeps.
    pub closed spec fn edge_lists(self) -> int {
        self.edges@.len() as int
    }

    /// Every edge names a cell of the field.
    pub open spec fn edges_inv(self) -> bool {
        forall|k: int, m: int|
            0 <= k < self.cells_spec().len() && 0 <= m < self.edges_spec(k).len() ==> (
            #[trigger] self.edges_spec(k)[m]).target < self.cells_spec().len()
    }

    /// Builds the field from `cells`, giving each its position in the list as index and
    /// finding its neighbours by scanning just outside each of its edges in turn.
    pub fn new(cells: Vec<Cell>) -> (r: PhysicsResult<Field>)
        requires
            forall|k: int| 0 <= k < cells@.len() ==> (#[trigger] cells@[k]).box_spec().wf(),
        ensures
            r is Ok,
            r matches Ok(f) ==> f.wf() && f.cells_spec().len() == cells@.len() && forall|k: int|
                0 <= k < cells@.len() ==> (#[trigger] f.cells_spec()[k]).box_spec() == cells@[k].box_spec()
                    && f.cells_spec()[k].solidity_spec() == cells@[k].solidity_spec(),
    {
        let ghost given = cells@;
        let mut indexed_cells: Vec<Cell> = Vec::new();
        let mut i: usize = 0;
        while i < cells.len()
            invariant
                i <= cells@.len(),
                cells@ == given,
                indexed_cells@ == indexed(given).take(i as int),
            decreases cells@.len() - i,
        {
            let c = &cells[i];
            indexed_cells.push(Cell { i, solidity: c.solidity, physbox: c.physbox });
            i = i + 1;
            assert(indexed_cells@ =~= indexed(given).take(i as int));
        }
        assert(indexed(given).take(given.len() as int) =~= indexed(given));
        let mut edges: Vec<Vec<FieldEdge>> = Vec::new();
        let mut k: usize = 0;
        while k < indexed_cells.len()
            invariant
                k <= indexed_cells@.len(),
                indexed_cells@ == indexed(given),
                forall|j: int| 0 <= j < given.len() ==> (#[trigger] given[j]).box_spec().wf(),
                edges@.len() == k,
                forall|j: int|
                    0 <= j < k ==> #[trigger] edges@[j]@ == scanned_edges(indexed(given), j, 4),
                forall|j: int, m: int|
                    0 <= j < k && 0 <= m < edges@[j]@.len() ==> (#[trigger] edges@[j]@[m]).target
                        < given.len(),
            decreases indexed_cells@.len() - k,
        {
            let e = Field::build_cell_edges(&indexed_cells, k);
            edges.push(e);
            k = k + 1;
        }
        let f = Field { cells: indexed_cells, edges };
        Ok(f)
    }

    /// The edges of cell `k`, scanning each of its four sides in turn.
    fn build_cell_edges(cells: &Vec<Cell>, k: usize) -> (r: Vec<FieldEdge>)
        requires
            k < cells@.len(),
            forall|j: int| 0 <= j < cells@.len() ==> (#[trigger] cells@[j]).box_spec().wf(),
        ensures
            r@ == scanned_edges(cells@, k as int, 4),
            forall|m: int| 0 <= m < r@.len() ==> (#[trigger] r@[m]).target < cells@.len(),
    {
        let mut list: Vec<FieldEdge> = Vec::new();
        let order = BoxEdge::iter();
        let mut n: usize = 0;
        while n < 4
            invariant
                n <= 4,
                k < cells@.len(),
                forall|j: int| 0 <= j < cells@.len() ==> (#[trigger] cells@[j]).box_spec().wf(),
                order@ == crate::types::edge_order(),
                list@ == scanned_edges(cells@, k as int, n as int),
                forall|m: int| 0 <= m < list@.len() ==> (#[trigger] list@[m]).target < cells@.len(),
            decreases 4 - n,
        {
            Field::cell_edges(cells, k, order[n], &mut list);
            n = n + 1;
        }
        list
    }

    /// Adds to `list` the edges that a scan along `edge` of cell `k` finds.
    fn cell_edges(cells: &Vec<Cell>, k: usize, edge: BoxEdge, list: &mut Vec<FieldEdge>)
        requires
            k < cells@.len(),
            forall|j: int| 0 <= j < cells@.len() ==> (#[trigger] cells@[j]).box_spec().wf(),
            forall|m: int| 0 <= m < old(list)@.len() ==> (#[trigger] old(list)@[m]).target < cells@.len(),
        ensures
            final(list)@ == add_all(
                cells@,
                k as int,
                edge,
                old(list)@,
                scan(
                    cells@,
                    cells@[k as int].box_spec(),
                    edge,
                    scan_start(cells@[k as int].box_spec(), edge),
                ),
            ),
            forall|m: int| 0 <= m < final(list)@.len() ==> (#[trigger] final(list)@[m]).target < cells@.len(),
    {
        let this_box = cells[k].physbox;
        let ghost b = this_box;
        let axis = edge.parallel_axis();
        let far = this_box.get_far_axis(axis);
        let mut t: i64 = this_box.get_near_axis(axis);
        let (fixed_x, fixed_y): (i64, i64) = match edge {
            BoxEdge::Top => (0, this_box.top_y() - UNIT),
            BoxEdge::Left => (this_box.left_x() - UNIT, 0),
            BoxEdge::Bottom => (0, this_box.bottom_y()),
            BoxEdge::Right => (this_box.right_x(), 0),
        };
        let ghost target = add_all(cells@, k as int, edge, list@, scan(cells@, b, edge, t as int));
        while t < far
            invariant
                k < cells@.len(),
                b == cells@[k as int].box_spec(),
                b.wf(),
                forall|j: int| 0 <= j < cells@.len() ==> (#[trigger] cells@[j]).box_spec().wf(),
                far == scan_end(b, edge),
                axis == edge.parallel_spec(),
                scan_start(b, edge) <= t,
                t <= 2 * crate::types::COORD_LIMIT + UNIT,
                match edge {
                    BoxEdge::Top => fixed_y == b.top() - UNIT,
                    BoxEdge::Left => fixed_x == b.left() - UNIT,
                    BoxEdge::Bottom => fixed_y == b.bottom(),
                    BoxEdge::Right => fixed_x == b.right(),
                },
                target == add_all(cells@, k as int, edge, list@, scan(cells@, b, edge, t as int)),
                forall|m: int| 0 <= m < list@.len() ==> (#[trigger] list@[m]).target < cells@.len(),
            decreases (if t < far {
                far - t
            } else {
                0
            }),
        {
            let pos = match edge {
                BoxEdge::Top | BoxEdge::Bottom => Point { x: t, y: fixed_y },
                BoxEdge::Left | BoxEdge::Right => Point { x: fixed_x, y: t },
            };
            assert((pos.x as int, pos.y as int) == probe(b, edge, t as int));
            let found = cell_at_pos_internal(cells, pos);
            let ghost old_t = t as int;
            let ghost fo = first_containing(cells@, probe(b, edge, t as int));
            proof {
                lemma_first_containing_in_range(cells@, probe(b, edge, t as int));
            }
            match found {
                Some(j) => {
                    let passable = cells[k].solidity.exit_edge(edge) && cells[j].solidity.enter_edge(
                        edge.opposite(),
                    );
                    let fe = FieldEdge { target: j, edge, passable };
                    assert(fe == edge_to(cells@, k as int, j as int, edge));
                    update_edge(list, fe);
                    let nf = cells[j].physbox.get_far_axis(axis);
                    assert(nf == scan_end(cells@[j as int].box_spec(), edge));
                    t = if nf > t {
                        nf
                    } else {
                        t + UNIT
                    };
                },
                None => {
                    t = t + UNIT;
                },
            }
            assert(t == scan_next(cells@, edge, old_t, fo));
            let ghost rest = scan(cells@, b, edge, t as int);
            assert(scan(cells@, b, edge, old_t) == match fo {
                Some(j) => seq![j].add(rest),
                None => rest,
            });
            proof {
                if fo is Some {
                    assert((seq![fo->0].add(rest)).drop_first() =~= rest);
                }
            }
        }
        assert(scan(cells@, b, edge, t as int) == Seq::<int>::empty());
    }

    /// The cell with index `idx`, or `FieldIndex` if there is none.
    pub fn cell_at_idx(&self, idx: usize) -> (r: PhysicsResult<&Cell>)
        ensures
            idx < self.cells_spec().len() ==> (r matches Ok(c) && *c == self.cells_spec()[idx as int]),
            idx >= self.cells_spec().len() ==> r == Err::<&Cell, PhysicsError>(
                PhysicsError::FieldIndex(idx),
            ),
    {
        if idx < self.cells.len() {
            Ok(&self.cells[idx])
        } else {
            Err(PhysicsError::FieldIndex(idx))
        }
    }

    /// The cells of the field, in index order.
    pub fn cells(&self) -> (r: &Vec<Cell>)
        ensures
            r@ == self.cells_spec(),
    {
        &self.cells
    }

    /// The outgoing edges of the cell with index `idx`, in the order they were found.
    pub fn edges_of(&self, idx: usize) -> (r: PhysicsResult<&Vec<FieldEdge>>)
        requires
            self.wf(),
        ensures
            idx < self.cells_spec().len() ==> (r matches Ok(es) && es@ == self.edges_spec(
                idx as int,
            )),
            idx >= self.cells_spec().len() ==> r == Err::<&Vec<FieldEdge>, PhysicsError>(
                PhysicsError::FieldIndex(idx),
            ),
    {
        if idx < self.edges.len() {
            Ok(&self.edges[idx])
        } else {
            Err(PhysicsError::FieldIndex(idx))
        }
    }

    /// The first cell (by index) whose box holds `pos`, if any.
    pub fn cell_at_pos(&self, pos: Point) -> (r: Option<&Cell>)
        requires
            self.wf(),
        ensures
            r matches Some(c) ==> first_containing(self.cells_spec(), (pos.x as int, pos.y as int))
                == Some(c.index_spec() as int) && c.index_spec() < self.cells_spec().len() && *c
                == self.cells_spec()[c.index_spec() as int],
            r is None ==> first_containing(self.cells_spec(), (pos.x as int, pos.y as int)) is None,
    {
        proof {
            lemma_first_containing_in_range(self.cells@, (pos.x as int, pos.y as int));
        }
        match cell_at_pos_internal(&self.cells, pos) {
            Some(j) => Some(&self.cells[j]),
            None => None,
        }
    }

    /// The neighbours of `cell` whose boxes overlap `physbox`, grouped by the side of
    /// `cell` they lie on, each group in the order the edges were found. Fails with
    /// `FieldIndex` when the field has no cell with `cell`'s index.
    pub fn neighbors_of_cell_overlapping_box(&self, cell: &Cell, physbox: &PhysBox) -> (r:
        PhysicsResult<CellNeighbors>)
        requires
            self.wf(),
            physbox.wf(),
        ensures
            cell.index_spec() >= self.cells_spec().len() ==> r == Err::<CellNeighbors, PhysicsError>(
                PhysicsError::FieldIndex(cell.index_spec()),
            ),
            cell.index_spec() < self.cells_spec().len() ==> (r matches Ok(n) && forall|e: BoxEdge|
                #[trigger] n.on(e) == bucket(
                    self.cells_spec(),
                    self.edges_spec(cell.index_spec() as int),
                    *physbox,
                    e,
                )),
    {
        let es = match self.edges_of(cell.i) {
            Ok(es) => es,
            Err(e) => return Err(e),
        };
        let mut neighbors = CellNeighbors::new();
        let mut m: usize = 0;
        while m < es.len()
            invariant
                self.wf(),
                physbox.wf(),
                cell.index_spec() < self.cells_spec().len(),
                es@ == self.edges_spec(cell.index_spec() as int),
                m <= es@.len(),
                forall|e: BoxEdge|
                    #[trigger] neighbors.on(e) == bucket(
                        self.cells_spec(),
                        es@.take(m as int),
                        *physbox,
                        e,
                    ),
            decreases es@.len() - m,
        {
            let fe = es[m];
            assert(self.edges_inv());
            assert(fe.target < self.cells_spec().len());
            let neighbor = &self.cells[fe.target];
            assert(es@.take(m as int + 1).drop_last() =~= es@.take(m as int));
            if physbox.has_overlap(&neighbor.physbox) {
                neighbors.add_neighbor(fe.target, fe.edge);
            }
            m = m + 1;
        }
        assert(es@.take(es@.len() as int) =~= es@);
        Ok(neighbors)
    }
}

/// A cell found for a point is a cell of the sequence and holds the point.
proof fn lemma_first_containing_in_range(cells: Seq<Cell>, p: (int, int))
    ensures
        first_containing(cells, p) matches Some(j) ==> 0 <= j < cells.len() && box_contains(
            cells[j].box_spec(),
            p,
        ),
    decreases cells.len(),
{
    if cells.len() > 0 {
        lemma_first_containing_in_range(cells.drop_last(), p);
    }
}

/// Adds `e` to `list`, replacing the label of an existing edge to the same cell.
fn update_edge(list: &mut Vec<FieldEdge>, e: FieldEdge)
    ensures
        final(list)@ == add_edge(old(list)@, e),
        forall|q: int|
            0 <= q < final(list)@.len() ==> #[trigger] final(list)@[q] == e || (q < old(list)@.len()
                && final(list)@[q] == old(list)@[q]),
{
    let mut m: usize = 0;
    while m < list.len()
        invariant
            m <= list@.len(),
            list@ == old(list)@,
            find_target(list@, e.target, 0) == find_target(list@, e.target, m as int),
        decreases list@.len() - m,
    {
        if list[m].target == e.target {
            list.set(m, e);
            return;
        }
        m = m + 1;
    }
    list.push(e);
}

/// Every neighbour in a bucket of a cell's edges is a cell of the field.
pub proof fn lemma_bucket_in_range(f: Field, c: int, b: PhysBox, e: BoxEdge)
    requires
        f.wf(),
        0 <= c < f.cells_spec().len(),
    ensures
        forall|m: int|
            0 <= m < bucket(f.cells_spec(), f.edges_spec(c), b, e).len() ==> (#[trigger] bucket(
                f.cells_spec(),
                f.edges_spec(c),
                b,
                e,
            )[m]) < f.cells_spec().len(),
{
    assert(f.edges_inv());
    lemma_bucket_targets(f.cells_spec(), f.edges_spec(c), b, e);
}

proof fn lemma_bucket_targets(cells: Seq<Cell>, es: Seq<FieldEdge>, b: PhysBox, e: BoxEdge)
    ensures
        forall|m: int|
            0 <= m < bucket(cells, es, b, e).len() ==> exists|q: int|
                0 <= q < es.len() && #[trigger] bucket(cells, es, b, e)[m] == (#[trigger] es[q]).target,
    decreases es.len(),
{
    if es.len() > 0 {
        lemma_bucket_targets(cells, es.drop_last(), b, e);
        let pre = bucket(cells, es.drop_last(), b, e);
        assert forall|m: int| 0 <= m < bucket(cells, es, b, e).len() implies exists|q: int|
            0 <= q < es.len() && #[trigger] bucket(cells, es, b, e)[m] == (#[trigger] es[q]).target by {
            if m < pre.len() {
                let q = choose|q: int| 0 <= q < es.drop_last().len() && pre[m] == (#[trigger] es.drop_last()[q]).target;
                assert(es[q] == es.drop_last()[q]);
            } else {
                assert(es[es.len() - 1] == es.last());
            }
        }
    }
}

/// Whether no two distinct cells of `cells` overlap.
pub open spec fn cells_disjoint(cells: Seq<Cell>) -> bool {
    forall|i: int, j: int|
        0 <= i < cells.len() && 0 <= j < cells.len() && i != j ==> !(#[trigger] cells[i].box_spec()).overlaps(
            #[trigger] cells[j].box_spec(),
        )
}

/// When no cell is found for a point, no cell holds it.
proof fn lemma_first_containing_none(cells: Seq<Cell>, p: (int, int))
    ensures
        first_containing(cells, p) is None ==> forall|j: int|
            0 <= j < cells.len() ==> !box_contains(#[trigger] cells[j].box_spec(), p),
    decreases cells.len(),
{
    if cells.len() > 0 {
        lemma_first_containing_none(cells.drop_last(), p);
        assert forall|j: int| 0 <= j < cells.len() - 1 implies cells.drop_last()[j] == cells[j] by {}
    }
}

/// Every cell that a scan along `b` meets is a cell of the sequence other than one whose
/// box is `b`.
proof fn lemma_scan_avoids(cells: Seq<Cell>, b: PhysBox, edge: BoxEdge, t: int, k: int)
    requires
        0 <= k < cells.len(),
        cells[k].box_spec() == b,
        b.wf(),
    ensures
        forall|m: int|
            0 <= m < scan(cells, b, edge, t).len() ==> 0 <= #[trigger] scan(cells, b, edge, t)[m]
                < cells.len() && scan(cells, b, edge, t)[m] != k,
    decreases (if t < scan_end(b, edge) {
        scan_end(b, edge) - t
    } else {
        0
    }),
{
    if t < scan_end(b, edge) {
        let pr = probe(b, edge, t);
        let found = first_containing(cells, pr);
        let next = scan_next(cells, edge, t, found);
        lemma_first_containing_in_range(cells, pr);
        lemma_scan_avoids(cells, b, edge, next, k);
        assert(!box_contains(b, pr));
        let rest = scan(cells, b, edge, next);
        match found {
            Some(j) => {
                assert(j != k);
                assert forall|m: int| 0 <= m < scan(cells, b, edge, t).len() implies 0
                    <= #[trigger] scan(cells, b, edge, t)[m] < cells.len() && scan(
                    cells,
                    b,
                    edge,
                    t,
                )[m] != k by {
                    if m > 0 {
                        assert(scan(cells, b, edge, t)[m] == rest[m - 1]);
                    }
                }
            },
            None => {},
        }
    }
}

/// Adding edges to cells other than `k` keeps every target of the list in range and
/// other than `k`.
proof fn lemma_add_all_avoids(
    cells: Seq<Cell>,
    k: int,
    edge: BoxEdge,
    list: Seq<FieldEdge>,
    found: Seq<int>,
)
    requires
        forall|m: int|
            0 <= m < list.len() ==> (#[trigger] list[m]).target < cells.len() && list[m].target
                != k,
        forall|m: int| 0 <= m < found.len() ==> 0 <= #[trigger] found[m] < cells.len() && found[m] != k,
        0 <= k,
        cells.len() <= usize::MAX,
    ensures
        forall|m: int|
            0 <= m < add_all(cells, k, edge, list, found).len() ==> (#[trigger] add_all(
                cells,
                k,
                edge,
                list,
                found,
            )[m]).target < cells.len() && add_all(cells, k, edge, list, found)[m].target != k,
    decreases found.len(),
{
    if found.len() > 0 {
        let e = edge_to(cells, k, found[0], edge);
        let l2 = add_edge(list, e);
        lemma_find_target_range(list, e.target, 0);
        assert(e.target as int == found[0]);
        assert forall|m: int| 0 <= m < l2.len() implies (#[trigger] l2[m]).target < cells.len()
            && l2[m].target != k by {
            if m < list.len() && l2[m] != e {
                assert(l2[m] == list[m]);
            }
        }
        assert forall|m: int| 0 <= m < found.drop_first().len() implies 0 <= #[trigger] found.drop_first()[m]
            < cells.len() && found.drop_first()[m] != k by {
            assert(found.drop_first()[m] == found[m + 1]);
        }
        lemma_add_all_avoids(cells, k, edge, l2, found.drop_first());
    }
}

proof fn lemma_find_target_range(list: Seq<FieldEdge>, t: usize, m: int)
    ensures
        find_target(list, t, m) == -1 || (m <= find_target(list, t, m) < list.len()),
    decreases list.len() - m,
{
    if 0 <= m < list.len() && list[m].target != t {
        lemma_find_target_range(list, t, m + 1);
    }
}

/// No edge of cell `k` leads back to `k`.
proof fn lemma_scanned_edges_avoid(cells: Seq<Cell>, k: int, n: int)
    requires
        0 <= k < cells.len(),
        cells.len() <= usize::MAX,
        cells[k].box_spec().wf(),
        n <= 4,
    ensures
        forall|m: int|
            0 <= m < scanned_edges(cells, k, n).len() ==> (#[trigger] scanned_edges(cells, k, n)[
                m]).target < cells.len() && scanned_edges(cells, k, n)[m].target != k,
    decreases n,
{
    if n > 0 {
        lemma_scanned_edges_avoid(cells, k, n - 1);
        let e = crate::types::edge_order()[n - 1];
        let b = cells[k].box_spec();
        lemma_scan_avoids(cells, b, e, scan_start(b, e), k);
        lemma_add_all_avoids(cells, k, e, scanned_edges(cells, k, n - 1), scan(cells, b, e, scan_start(b, e)));
    }
}

/// A bucket drawn from edges that avoid `k` is empty when `b` is `k`'s box and the
/// cells do not overlap.
proof fn lemma_bucket_empty(cells: Seq<Cell>, es: Seq<FieldEdge>, k: int, edge: BoxEdge)
    requires
        cells_disjoint(cells),
        0 <= k < cells.len(),
        forall|m: int|
            0 <= m < es.len() ==> (#[trigger] es[m]).target < cells.len() && es[m].target != k,
    ensures
        bucket(cells, es, cells[k].box_spec(), edge) == Seq::<usize>::empty(),
    decreases es.len(),
{
    if es.len() > 0 {
        lemma_bucket_empty(cells, es.drop_last(), k, edge);
        let t = es.last().target as int;
        assert(es.last() == es[es.len() - 1]);
        assert(!cells[k].box_spec().overlaps(cells[t].box_spec()));
    }
}

/// In a field whose cells do not overlap, a point of cell `k` is found in cell `k`, and
/// no neighbour of `k` overlaps `k`'s own box.
pub proof fn lemma_disjoint_field(f: Field, k: int, p: Point)
    requires
        f.wf(),
        cells_disjoint(f.cells_spec()),
        0 <= k < f.cells_spec().len(),
        f.cells_spec()[k].box_spec().contains_spec(p),
    ensures
        first_containing(f.cells_spec(), (p.x as int, p.y as int)) == Some(k),
        forall|e: BoxEdge|
            #[trigger] bucket(f.cells_spec(), f.edges_spec(k), f.cells_spec()[k].box_spec(), e)
                == Seq::<usize>::empty(),
{
    let cells = f.cells_spec();
    let q = (p.x as int, p.y as int);
    lemma_first_containing_in_range(cells, q);
    lemma_first_containing_none(cells, q);
    match first_containing(cells, q) {
        Some(j) => {
            if j != k {
                assert(cells[j].box_spec().overlaps(cells[k].box_spec()));
            }
        },
        None => {},
    }
    lemma_scanned_edges_avoid(cells, k, 4);
    assert forall|e: BoxEdge|
        #[trigger] bucket(cells, f.edges_spec(k), cells[k].box_spec(), e) == Seq::<usize>::empty() by {
        lemma_bucket_empty(cells, f.edges_spec(k), k, e);
    }
}

} // verus!
