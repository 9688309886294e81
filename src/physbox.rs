use vstd::prelude::*;

use crate::error::{PhysicsError, PhysicsResult};
use crate::types::{opposite_spec, Axis, BoxEdge, Point, Size, COORD_LIMIT};

verus! {

/// Whether `v` is a coordinate a box's position may take.
pub open spec fn coord_in_range(v: int) -> bool {
    -COORD_LIMIT <= v <= COORD_LIMIT
}

/// Whether `p` is a position a box may take.
pub open spec fn pos_in_range(p: Point) -> bool {
    coord_in_range(p.x as int) && coord_in_range(p.y as int)
}

/// An axis-aligned rectangle: its top-left corner and its size.
#[derive(Debug, Clone, Copy, PartialEq, Eq, Structural)]
pub struct PhysBox {
    pos: Point,
    size: Size,
}

impl PhysBox {
    pub closed spec fn pos_spec(self) -> Point {
        self.pos
    }

    pub closed spec fn size_spec(self) -> Size {
        self.size
    }

    pub open spec fn left(self) -> int {
        self.pos_spec().x as int
    }

    pub open spec fn top(self) -> int {
        self.pos_spec().y as int
    }

    pub open spec fn width(self) -> int {
        self.size_spec().w as int
    }

    pub open spec fn height(self) -> int {
        self.size_spec().h as int
    }

    pub open spec fn right(self) -> int {
        self.left() + self.width()
    }

    pub open spec fn bottom(self) -> int {
        self.top() + self.height()
    }

    /// A box is valid when its size is positive and its position and size are in range.
    pub open spec fn wf(self) -> bool {
        &&& pos_in_range(self.pos_spec())
        &&& 0 < self.width() <= COORD_LIMIT
        &&& 0 < self.height() <= COORD_LIMIT
    }

    /// The coordinate of `edge`.
    pub open spec fn edge_spec(self, edge: BoxEdge) -> int {
        match edge {
            BoxEdge::Top => self.top(),
            BoxEdge::Left => self.left(),
            BoxEdge::Bottom => self.bottom(),
            BoxEdge::Right => self.right(),
        }
    }

    /// The position that puts this box's `edge` at `val`, size unchanged.
    pub open spec fn pos_with_edge(self, val: int, edge: BoxEdge) -> (int, int) {
        match edge {
            BoxEdge::Top => (self.left(), val),
            BoxEdge::Left => (val, self.top()),
            BoxEdge::Bottom => (self.left(), val - self.height()),
            BoxEdge::Right => (val - self.width(), self.top()),
        }
    }

    /// This box moved so its `edge` lies at `val`, if that position is in range;
    /// otherwise this box unchanged.
    pub open spec fn with_edge(self, val: int, edge: BoxEdge) -> (int, int) {
        let p = self.pos_with_edge(val, edge);
        if coord_in_range(p.0) && coord_in_range(p.1) {
            p
        } else {
            (self.left(), self.top())
        }
    }

    pub open spec fn contains_spec(self, p: Point) -> bool {
        &&& self.left() <= p.x < self.right()
        &&& self.top() <= p.y < self.bottom()
    }

    pub open spec fn contains_inclusive_spec(self, x: int, y: int) -> bool {
        &&& self.left() <= x <= self.right()
        &&& self.top() <= y <= self.bottom()
    }

    pub open spec fn overlaps(self, other: PhysBox) -> bool {
        &&& other.right() > self.left()
        &&& other.left() < self.right()
        &&& other.bottom() > self.top()
        &&& other.top() < self.bottom()
    }

    pub open spec fn contained_by(self, other: PhysBox) -> bool {
        &&& other.contains_inclusive_spec(self.left(), self.top())
        &&& other.contains_inclusive_spec(self.right(), self.bottom())
    }

    /// Whether `other` straddles this box's `edge`.
    pub open spec fn crossed_by(self, other: PhysBox, edge: BoxEdge) -> bool {
        match edge {
            BoxEdge::Top => other.top() < self.top() && other.bottom() > self.top(),
            BoxEdge::Left => other.left() < self.left() && other.right() > self.left(),
            BoxEdge::Bottom => other.top() < self.bottom() && other.bottom() > self.bottom(),
            BoxEdge::Right => other.left() < self.right() && other.right() > self.right(),
        }
    }

    /// How far this box would move to clear `other` by moving out across `edge`'s
    /// opposite side: e.g. for `Top`, the distance from this box's top down to
    /// `other`'s bottom.
    pub open spec fn depth(self, other: PhysBox, edge: BoxEdge) -> int {
        match edge {
            BoxEdge::Top => other.bottom() - self.top(),
            BoxEdge::Left => other.right() - self.left(),
            BoxEdge::Bottom => self.bottom() - other.top(),
            BoxEdge::Right => self.right() - other.left(),
        }
    }

    /// The edge along which [`PhysBox::shift_to_nonoverlapping`] pushes: the first of
    /// top, left, bottom, right whose positive depth is strictly smallest.
    pub open spec fn push_edge(self, other: PhysBox) -> Option<BoxEdge> {
        let dt = self.depth(other, BoxEdge::Top);
        let dl = self.depth(other, BoxEdge::Left);
        let db = self.depth(other, BoxEdge::Bottom);
        let dr = self.depth(other, BoxEdge::Right);
        let s0: Option<(BoxEdge, int)> = if dt > 0 { Some((BoxEdge::Top, dt)) } else { None };
        let s1 = if dl > 0 && (s0 is None || dl < (s0->0).1) { Some((BoxEdge::Left, dl)) } else { s0 };
        let s2 = if db > 0 && (s1 is None || db < (s1->0).1) { Some((BoxEdge::Bottom, db)) } else { s1 };
        let s3 = if dr > 0 && (s2 is None || dr < (s2->0).1) { Some((BoxEdge::Right, dr)) } else { s2 };
        match s3 {
            Some(p) => Some(p.0),
            None => None,
        }
    }

    /// The box at `(x, y)` with width `w` and height `h`.
    pub closed spec fn make(x: int, y: int, w: int, h: int) -> PhysBox {
        PhysBox { pos: Point { x: x as i64, y: y as i64 }, size: Size { w: w as i64, h: h as i64 } }
    }

    /// This box with its top-left corner moved to `(x, y)`.
    pub closed spec fn moved(self, x: int, y: int) -> PhysBox {
        PhysBox { pos: Point { x: x as i64, y: y as i64 }, size: self.size }
    }

    /// This box moved along one axis so its `edge` coincides with `to`'s `edge`, unless
    /// that takes it out of range.
    pub open spec fn clamped(self, to: PhysBox, edge: BoxEdge) -> PhysBox {
        let p = self.with_edge(to.edge_spec(edge), edge);
        self.moved(p.0, p.1)
    }

    /// This box moved along one axis so its `edge` coincides with `to`'s opposite edge,
    /// unless that takes it out of range.
    pub open spec fn pushed(self, to: PhysBox, edge: BoxEdge) -> PhysBox {
        let p = self.with_edge(to.edge_spec(opposite_spec(edge)), edge);
        self.moved(p.0, p.1)
    }

    /// Whether `self` and `other` denote the same box with top-left corner `(x, y)`.
    pub open spec fn moved_to(self, other: PhysBox, x: int, y: int) -> bool {
        &&& self.left() == x
        &&& self.top() == y
        &&& self.size_spec() == other.size_spec()
    }

    /// A box at `[x, y]` with width `w` and height `h`.
    ///
    /// Fails with `PhysBoxSize` unless `0 < w, h <= COORD_LIMIT`, and otherwise with
    /// `FieldPosition` unless `x` and `y` lie in `[-COORD_LIMIT, COORD_LIMIT]`.
    pub fn new(v: [i64; 4]) -> (r: PhysicsResult<PhysBox>)
        ensures
            !(0 < v[2] <= COORD_LIMIT && 0 < v[3] <= COORD_LIMIT) ==> r == Err::<
                PhysBox,
                PhysicsError,
            >(PhysicsError::PhysBoxSize),
            (0 < v[2] <= COORD_LIMIT && 0 < v[3] <= COORD_LIMIT) && !(coord_in_range(v[0] as int)
                && coord_in_range(v[1] as int)) ==> r == Err::<PhysBox, PhysicsError>(
                PhysicsError::FieldPosition,
            ),
            r is Ok <==> (0 < v[2] <= COORD_LIMIT && 0 < v[3] <= COORD_LIMIT && coord_in_range(
                v[0] as int,
            ) && coord_in_range(v[1] as int)),
            r matches Ok(b) ==> b.wf() && b.left() == v[0] && b.top() == v[1] && b.width()
                == v[2] && b.height() == v[3],
            r matches Ok(b) ==> b == PhysBox::make(v[0] as int, v[1] as int, v[2] as int, v[3] as int),
    {
        let x = v[0];
        let y = v[1];
        let w = v[2];
        let h = v[3];
        if !(0 < w && w <= COORD_LIMIT && 0 < h && h <= COORD_LIMIT) {
            return Err(PhysicsError::PhysBoxSize);
        }
        if !(-COORD_LIMIT <= x && x <= COORD_LIMIT && -COORD_LIMIT <= y && y <= COORD_LIMIT) {
            return Err(PhysicsError::FieldPosition);
        }
        Ok(PhysBox { pos: Point { x, y }, size: Size { w, h } })
    }

    /// The top-left corner.
    pub fn pos(&self) -> (r: Point)
        ensures
            r == self.pos_spec(),
    {
        self.pos
    }

    /// Moves the box so its top-left corner is `pos`.
    pub fn set_pos(&mut self, pos: Point)
        requires
            pos_in_range(pos),
        ensures
            final(self).pos_spec() == pos,
            final(self).size_spec() == old(self).size_spec(),
    {
        self.pos = pos;
    }

    /// The width and height.
    pub fn size(&self) -> (r: Size)
        ensures
            r == self.size_spec(),
    {
        self.size
    }

    /// Resizes the box, keeping its top-left corner; fails with `PhysBoxSize`, changing
    /// nothing, unless `0 < w, h <= COORD_LIMIT`.
    pub fn set_size(&mut self, size: Size) -> (r: PhysicsResult<()>)
        ensures
            r is Ok <==> (0 < size.w <= COORD_LIMIT && 0 < size.h <= COORD_LIMIT),
            r is Err ==> r == Err::<(), PhysicsError>(PhysicsError::PhysBoxSize) && *final(self)
                == *old(self),
            r is Ok ==> final(self).size_spec() == size && final(self).pos_spec() == old(
                self,
            ).pos_spec(),
    {
        if 0 < size.w && size.w <= COORD_LIMIT && 0 < size.h && size.h <= COORD_LIMIT {
            self.size = size;
            Ok(())
        } else {
            Err(PhysicsError::PhysBoxSize)
        }
    }

    /// The y coordinate of the top edge.
    pub fn top_y(&self) -> (r: i64)
        ensures
            r == self.top(),
    {
        self.pos.y
    }

    /// The x coordinate of the left edge.
    pub fn left_x(&self) -> (r: i64)
        ensures
            r == self.left(),
    {
        self.pos.x
    }

    /// The y coordinate of the bottom edge.
    pub fn bottom_y(&self) -> (r: i64)
        requires
            self.wf(),
        ensures
            r == self.bottom(),
    {
        self.pos.y + self.size.h
    }

    /// The x coordinate of the right edge.
    pub fn right_x(&self) -> (r: i64)
        requires
            self.wf(),
        ensures
            r == self.right(),
    {
        self.pos.x + self.size.w
    }

    /// The coordinate of the given edge: a y for top and bottom, an x for left and right.
    pub fn get_edge(&self, edge: BoxEdge) -> (r: i64)
        requires
            self.wf(),
        ensures
            r == self.edge_spec(edge),
    {
        match edge {
            BoxEdge::Top => self.top_y(),
            BoxEdge::Left => self.left_x(),
            BoxEdge::Bottom => self.bottom_y(),
            BoxEdge::Right => self.right_x(),
        }
    }

    /// Translates the box so that the y coordinate of the top edge is `val`, unless that takes it out of range.
    pub fn set_top_y(&mut self, val: i64)
        requires
            old(self).wf(),
            -3 * COORD_LIMIT <= val <= 3 * COORD_LIMIT,
        ensures
            final(self).wf(),
            *final(self) == old(self).moved(
                old(self).with_edge(val as int, BoxEdge::Top).0,
                old(self).with_edge(val as int, BoxEdge::Top).1,
            ),
    {
        self.set_edge(val, BoxEdge::Top)
    }

    /// Translates the box so that the x coordinate of the left edge is `val`, unless that takes it out of range.
    pub fn set_left_x(&mut self, val: i64)
        requires
            old(self).wf(),
            -3 * COORD_LIMIT <= val <= 3 * COORD_LIMIT,
        ensures
            final(self).wf(),
            *final(self) == old(self).moved(
                old(self).with_edge(val as int, BoxEdge::Left).0,
                old(self).with_edge(val as int, BoxEdge::Left).1,
            ),
    {
        self.set_edge(val, BoxEdge::Left)
    }

    /// Translates the box so that the y coordinate of the bottom edge is `val`, unless that takes it out of range.
    pub fn set_bottom_y(&mut self, val: i64)
        requires
            old(self).wf(),
            -3 * COORD_LIMIT <= val <= 3 * COORD_LIMIT,
        ensures
            final(self).wf(),
            *final(self) == old(self).moved(
                old(self).with_edge(val as int, BoxEdge::Bottom).0,
                old(self).with_edge(val as int, BoxEdge::Bottom).1,
            ),
    {
        self.set_edge(val, BoxEdge::Bottom)
    }

    /// Translates the box so that the x coordinate of the right edge is `val`, unless that takes it out of range.
    pub fn set_right_x(&mut self, val: i64)
        requires
            old(self).wf(),
            -3 * COORD_LIMIT <= val <= 3 * COORD_LIMIT,
        ensures
            final(self).wf(),
            *final(self) == old(self).moved(
                old(self).with_edge(val as int, BoxEdge::Right).0,
                old(self).with_edge(val as int, BoxEdge::Right).1,
            ),
    {
        self.set_edge(val, BoxEdge::Right)
    }

    /// Translates the box along one axis so that its `edge` lies at `val`.
    /// A translation that would take the position out of range is not made.
    pub fn set_edge(&mut self, val: i64, edge: BoxEdge)
        requires
            old(self).wf(),
            -3 * COORD_LIMIT <= val <= 3 * COORD_LIMIT,
        ensures
            final(self).wf(),
            final(self).moved_to(
                *old(self),
                old(self).with_edge(val as int, edge).0,
                old(self).with_edge(val as int, edge).1,
            ),
            *final(self) == old(self).moved(
                old(self).with_edge(val as int, edge).0,
                old(self).with_edge(val as int, edge).1,
            ),
    {
        let (x, y) = match edge {
            BoxEdge::Top => (self.pos.x, val),
            BoxEdge::Left => (val, self.pos.y),
            BoxEdge::Bottom => (self.pos.x, val - self.size.h),
            BoxEdge::Right => (val - self.size.w, self.pos.y),
        };
        if -COORD_LIMIT <= x && x <= COORD_LIMIT && -COORD_LIMIT <= y && y <= COORD_LIMIT {
            self.pos = Point { x, y };
        }
        proof {
            let p = old(self).with_edge(val as int, edge);
            lemma_moved_eq(*self, *old(self), p.0, p.1);
        }
    }

    /// Moves `self` along one axis so its `edge` coincides with `other`'s `edge`.
    pub fn set_touching_edge(&mut self, other: &PhysBox, edge: BoxEdge)
        requires
            old(self).wf(),
            other.wf(),
        ensures
            final(self).wf(),
            final(self).moved_to(
                *old(self),
                old(self).with_edge(other.edge_spec(edge), edge).0,
                old(self).with_edge(other.edge_spec(edge), edge).1,
            ),
            *final(self) == old(self).clamped(*other, edge),
    {
        let v = other.get_edge(edge);
        self.set_edge(v, edge)
    }

    /// Moves `self` along one axis so its `this_edge` coincides with `other`'s opposite edge.
    pub fn set_touching_opposite_edge(&mut self, other: &PhysBox, this_edge: BoxEdge)
        requires
            old(self).wf(),
            other.wf(),
        ensures
            final(self).wf(),
            final(self).moved_to(
                *old(self),
                old(self).with_edge(other.edge_spec(opposite_spec(this_edge)), this_edge).0,
                old(self).with_edge(other.edge_spec(opposite_spec(this_edge)), this_edge).1,
            ),
            *final(self) == old(self).pushed(*other, this_edge),
    {
        let v = other.get_edge(this_edge.opposite());
        self.set_edge(v, this_edge)
    }

    /// The coordinate of the bottom-right corner along `axis`.
    pub fn get_far_axis(&self, axis: Axis) -> (r: i64)
        requires
            self.wf(),
        ensures
            r == match axis {
                Axis::X => self.right(),
                Axis::Y => self.bottom(),
            },
    {
        match axis {
            Axis::X => self.right_x(),
            Axis::Y => self.bottom_y(),
        }
    }

    /// The coordinate of the top-left corner along `axis`.
    pub fn get_near_axis(&self, axis: Axis) -> (r: i64)
        ensures
            r == match axis {
                Axis::X => self.left(),
                Axis::Y => self.top(),
            },
    {
        match axis {
            Axis::X => self.left_x(),
            Axis::Y => self.top_y(),
        }
    }

    /// Whether `pos` lies in the box: top and left edges included, bottom and right
    /// edges excluded.
    pub fn contains_pos(&self, pos: Point) -> (r: bool)
        requires
            self.wf(),
        ensures
            r == self.contains_spec(pos),
    {
        pos.x >= self.pos.x && pos.x < self.right_x() && pos.y >= self.pos.y && pos.y
            < self.bottom_y()
    }

    /// Whether `(x, y)` lies in the box, all edges included.
    fn contains_pos_inclusive(&self, x: i64, y: i64) -> (r: bool)
        requires
            self.wf(),
        ensures
            r == self.contains_inclusive_spec(x as int, y as int),
    {
        x >= self.pos.x && x <= self.right_x() && y >= self.pos.y && y <= self.bottom_y()
    }

    /// Whether the interiors of `self` and `other` meet; boxes that only share an edge
    /// do not overlap.
    pub fn has_overlap(&self, other: &PhysBox) -> (r: bool)
        requires
            self.wf(),
            other.wf(),
        ensures
            r == self.overlaps(*other),
    {
        other.right_x() > self.pos.x && other.pos.x < self.right_x() && other.bottom_y()
            > self.pos.y && other.pos.y < self.bottom_y()
    }

    /// Whether `self` lies within `other`, edges included; every box is contained by itself.
    pub fn is_fully_contained_by(&self, other: &PhysBox) -> (r: bool)
        requires
            self.wf(),
            other.wf(),
        ensures
            r == self.contained_by(*other),
    {
        other.contains_pos_inclusive(self.pos.x, self.pos.y) && other.contains_pos_inclusive(
            self.right_x(),
            self.bottom_y(),
        )
    }

    /// Whether `other` straddles the top edge of `self`.
    pub fn is_top_edge_crossed_by(&self, other: &PhysBox) -> (r: bool)
        requires
            self.wf(),
            other.wf(),
        ensures
            r == self.crossed_by(*other, BoxEdge::Top),
    {
        other.pos.y < self.pos.y && other.bottom_y() > self.pos.y
    }

    /// Whether `other` straddles the left edge of `self`.
    pub fn is_left_edge_crossed_by(&self, other: &PhysBox) -> (r: bool)
        requires
            self.wf(),
            other.wf(),
        ensures
            r == self.crossed_by(*other, BoxEdge::Left),
    {
        other.pos.x < self.pos.x && other.right_x() > self.pos.x
    }

    /// Whether `other` straddles the bottom edge of `self`.
    pub fn is_bottom_edge_crossed_by(&self, other: &PhysBox) -> (r: bool)
        requires
            self.wf(),
            other.wf(),
        ensures
            r == self.crossed_by(*other, BoxEdge::Bottom),
    {
        other.pos.y < self.bottom_y() && other.bottom_y() > self.bottom_y()
    }

    /// Whether `other` straddles the right edge of `self`.
    pub fn is_right_edge_crossed_by(&self, other: &PhysBox) -> (r: bool)
        requires
            self.wf(),
            other.wf(),
        ensures
            r == self.crossed_by(*other, BoxEdge::Right),
    {
        other.pos.x < self.right_x() && other.right_x() > self.right_x()
    }

    /// Whether `other` straddles the given edge of `self`.
    pub fn is_edge_crossed_by(&self, other: &PhysBox, edge: BoxEdge) -> (r: bool)
        requires
            self.wf(),
            other.wf(),
        ensures
            r == self.crossed_by(*other, edge),
    {
        match edge {
            BoxEdge::Top => self.is_top_edge_crossed_by(other),
            BoxEdge::Left => self.is_left_edge_crossed_by(other),
            BoxEdge::Bottom => self.is_bottom_edge_crossed_by(other),
            BoxEdge::Right => self.is_right_edge_crossed_by(other),
        }
    }

    /// The edges of `self` that `other` straddles, in the order top, left, bottom,
    /// right; none when the two do not overlap or `other` lies within `self`.
    pub fn edges_crossed_by(&self, other: &PhysBox) -> (r: Vec<BoxEdge>)
        requires
            self.wf(),
            other.wf(),
        ensures
            r@ == (if !self.overlaps(*other) || other.contained_by(*self) {
                Seq::empty()
            } else {
                crate::types::edge_order().filter(|e: BoxEdge| self.crossed_by(*other, e))
            }),
    {
        let mut edges: Vec<BoxEdge> = Vec::new();
        if !self.has_overlap(other) || other.is_fully_contained_by(self) {
            return edges;
        }
        let all = BoxEdge::iter();
        let ghost order = crate::types::edge_order();
        let mut i: usize = 0;
        while i < 4
            invariant
                self.wf(),
                other.wf(),
                i <= 4,
                all@ == order,
                edges@ == order.take(i as int).filter(|e: BoxEdge| self.crossed_by(*other, e)),
            decreases 4 - i,
        {
            proof {
                reveal(Seq::filter);
                assert(order.take(i as int + 1).drop_last() =~= order.take(i as int));
            }
            if self.is_edge_crossed_by(other, all[i]) {
                edges.push(all[i]);
            }
            i = i + 1;
        }
        assert(order.take(4) =~= order);
        edges
    }

    /// Moves `self` the shortest way along one axis so that it no longer overlaps
    /// `other`, touching it on the far side. Nothing happens when they do not overlap,
    /// or when the move would take the position out of range.
    pub fn shift_to_nonoverlapping(&mut self, other: &PhysBox)
        requires
            old(self).wf(),
            other.wf(),
        ensures
            final(self).wf(),
            !old(self).overlaps(*other) ==> *final(self) == *old(self),
            old(self).overlaps(*other) ==> old(self).push_edge(*other) is Some,
            old(self).overlaps(*other) ==> *final(self) == old(self).pushed(
                *other,
                old(self).push_edge(*other)->0,
            ),
            old(self).overlaps(*other) ==> final(self).moved_to(
                *old(self),
                old(self).with_edge(
                    other.edge_spec(opposite_spec(old(self).push_edge(*other)->0)),
                    old(self).push_edge(*other)->0,
                ).0,
                old(self).with_edge(
                    other.edge_spec(opposite_spec(old(self).push_edge(*other)->0)),
                    old(self).push_edge(*other)->0,
                ).1,
            ),
    {
        if !self.has_overlap(other) {
            return ;
        }
        let dt = other.bottom_y() - self.top_y();
        let dl = other.right_x() - self.left_x();
        let db = self.bottom_y() - other.top_y();
        let dr = self.right_x() - other.left_x();
        let mut best: Option<(BoxEdge, i64)> = if dt > 0 {
            Some((BoxEdge::Top, dt))
        } else {
            None
        };
        if dl > 0 && (best.is_none() || dl < best.unwrap().1) {
            best = Some((BoxEdge::Left, dl));
        }
        if db > 0 && (best.is_none() || db < best.unwrap().1) {
            best = Some((BoxEdge::Bottom, db));
        }
        if dr > 0 && (best.is_none() || dr < best.unwrap().1) {
            best = Some((BoxEdge::Right, dr));
        }
        if let Some((edge, _)) = best {
            self.set_touching_opposite_edge(other, edge);
        }
    }
}

/// A box moved to an in-range corner has that corner and keeps its size.
pub broadcast proof fn lemma_moved(b: PhysBox, x: int, y: int)
    requires
        coord_in_range(x),
        coord_in_range(y),
    ensures
        #[trigger] b.moved(x, y).moved_to(b, x, y),
        b.wf() ==> b.moved(x, y).wf(),
{
}

/// A box made from in-range values has those values.
pub broadcast proof fn lemma_make(x: int, y: int, w: int, h: int)
    requires
        coord_in_range(x),
        coord_in_range(y),
        0 < w <= COORD_LIMIT,
        0 < h <= COORD_LIMIT,
    ensures
        #[trigger] PhysBox::make(x, y, w, h).wf(),
        PhysBox::make(x, y, w, h).left() == x,
        PhysBox::make(x, y, w, h).top() == y,
        PhysBox::make(x, y, w, h).width() == w,
        PhysBox::make(x, y, w, h).height() == h,
{
}

/// A box is determined by its corner and size.
pub proof fn lemma_moved_eq(a: PhysBox, b: PhysBox, x: int, y: int)
    requires
        a.moved_to(b, x, y),
        coord_in_range(x),
        coord_in_range(y),
    ensures
        a == b.moved(x, y),
{
}

/// Every box is fully contained by itself.
pub proof fn lemma_contained_by_itself(b: PhysBox)
    requires
        b.wf(),
    ensures
        b.contained_by(b),
{
}

/// After a push out of overlap the two boxes no longer overlap, so pushing the result
/// again leaves it where it is; this holds whenever the push stays in range.
pub proof fn lemma_push_separates(b: PhysBox, other: PhysBox)
    requires
        b.wf(),
        other.wf(),
        b.overlaps(other),
        ({
            let e = b.push_edge(other)->0;
            let p = b.pos_with_edge(other.edge_spec(opposite_spec(e)), e);
            coord_in_range(p.0) && coord_in_range(p.1)
        }),
    ensures
        b.push_edge(other) is Some,
        b.pushed(other, b.push_edge(other)->0).wf(),
        !b.pushed(other, b.push_edge(other)->0).overlaps(other),
{
    let e = b.push_edge(other)->0;
    let p = b.with_edge(other.edge_spec(opposite_spec(e)), e);
    lemma_moved(b, p.0, p.1);
}

} // verus!
