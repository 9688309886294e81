use vstd::prelude::*;

verus! {

/// Thousandths in one unit of length.
pub const UNIT: i64 = 1000;

/// The largest magnitude a box's position or size may have: 2^52 thousandths.
pub const COORD_LIMIT: i64 = 4_503_599_627_370_496;

/// The largest maximum speed an entity may be given, in thousandths of a unit per second.
pub const SPEED_LIMIT: i64 = 2_147_483_648;

/// The edges of a rectangular game object.
#[derive(Debug, Clone, Copy, PartialEq, Eq, Structural)]
pub enum BoxEdge {
    /// The top edge (towards negative y).
    Top,
    /// The left edge (towards negative x).
    Left,
    /// The bottom edge (towards positive y).
    Bottom,
    /// The right edge (towards positive x).
    Right,
}

/// The two axes of the plane.
#[derive(Debug, Clone, Copy, PartialEq, Eq, Structural)]
pub enum Axis {
    /// The x-axis.
    X,
    /// The y-axis.
    Y,
}

/// A point of the plane, in thousandths of a unit.
#[derive(Debug, Clone, Copy, PartialEq, Eq, Structural)]
pub struct Point {
    pub x: i64,
    pub y: i64,
}

/// The width and height of a box, in thousandths of a unit.
#[derive(Debug, Clone, Copy, PartialEq, Eq, Structural)]
pub struct Size {
    pub w: i64,
    pub h: i64,
}

pub open spec fn opposite_spec(e: BoxEdge) -> BoxEdge {
    match e {
        BoxEdge::Top => BoxEdge::Bottom,
        BoxEdge::Left => BoxEdge::Right,
        BoxEdge::Bottom => BoxEdge::Top,
        BoxEdge::Right => BoxEdge::Left,
    }
}

/// The four edges in the order top, left, bottom, right.
pub open spec fn edge_order() -> Seq<BoxEdge> {
    seq![BoxEdge::Top, BoxEdge::Left, BoxEdge::Bottom, BoxEdge::Right]
}

impl Axis {
    pub open spec fn component_spec(self, p: Point) -> i64 {
        match self {
            Axis::X => p.x,
            Axis::Y => p.y,
        }
    }

    /// The component of `point` along this axis.
    pub fn component_of_point(&self, point: &Point) -> (r: i64)
        ensures
            r == self.component_spec(*point),
    {
        match self {
            Axis::X => point.x,
            Axis::Y => point.y,
        }
    }
}

impl BoxEdge {
    /// The edge opposite to this one.
    pub fn opposite(&self) -> (r: BoxEdge)
        ensures
            r == opposite_spec(*self),
    {
        match self {
            BoxEdge::Top => BoxEdge::Bottom,
            BoxEdge::Left => BoxEdge::Right,
            BoxEdge::Bottom => BoxEdge::Top,
            BoxEdge::Right => BoxEdge::Left,
        }
    }

    pub open spec fn perpendicular_spec(self) -> Axis {
        match self {
            BoxEdge::Top | BoxEdge::Bottom => Axis::Y,
            BoxEdge::Left | BoxEdge::Right => Axis::X,
        }
    }

    pub open spec fn parallel_spec(self) -> Axis {
        match self {
            BoxEdge::Top | BoxEdge::Bottom => Axis::X,
            BoxEdge::Left | BoxEdge::Right => Axis::Y,
        }
    }

    /// The axis that runs perpendicular to this edge.
    pub fn perpendicular_axis(&self) -> (r: Axis)
        ensures
            r == self.perpendicular_spec(),
    {
        match self {
            BoxEdge::Top | BoxEdge::Bottom => Axis::Y,
            BoxEdge::Left | BoxEdge::Right => Axis::X,
        }
    }

    /// The axis that runs parallel to this edge.
    pub fn parallel_axis(&self) -> (r: Axis)
        ensures
            r == self.parallel_spec(),
    {
        match self {
            BoxEdge::Top | BoxEdge::Bottom => Axis::X,
            BoxEdge::Left | BoxEdge::Right => Axis::Y,
        }
    }

    /// The four edges, in the order top, left, bottom, right.
    pub fn iter() -> (r: [BoxEdge; 4])
        ensures
            r@ == edge_order(),
    {
        let r = [BoxEdge::Top, BoxEdge::Left, BoxEdge::Bottom, BoxEdge::Right];
        assert(r@ =~= edge_order());
        r
    }
}

/// The velocity of a game object, in thousandths of a unit per second.
#[derive(Debug, Clone, Copy, PartialEq, Eq, Structural)]
pub struct Velocity {
    pub x: i64,
    pub y: i64,
}

impl Velocity {
    pub open spec fn magnitude_sq_spec(self) -> int {
        self.x * self.x + self.y * self.y
    }

    pub open spec fn reduced_by_spec(self, edge: BoxEdge) -> bool {
        match edge {
            BoxEdge::Top => self.y < 0,
            BoxEdge::Left => self.x < 0,
            BoxEdge::Bottom => self.y > 0,
            BoxEdge::Right => self.x > 0,
        }
    }

    /// The squared magnitude of this velocity.
    pub fn magnitude_sq(&self) -> (r: u128)
        ensures
            r == self.magnitude_sq_spec(),
    {
        let x = self.x as i128;
        let y = self.y as i128;
        let ax: u128 = if x < 0 { (-x) as u128 } else { x as u128 };
        let ay: u128 = if y < 0 { (-y) as u128 } else { y as u128 };
        assert(ax * ax <= 0x4000_0000_0000_0000_0000_0000_0000_0000) by (nonlinear_arith)
            requires
                ax <= 0x8000_0000_0000_0000,
        ;
        assert(ay * ay <= 0x4000_0000_0000_0000_0000_0000_0000_0000) by (nonlinear_arith)
            requires
                ay <= 0x8000_0000_0000_0000,
        ;
        assert(ax * ax == x * x && ay * ay == y * y) by (nonlinear_arith)
            requires
                ax == x || ax == -x,
                ay == y || ay == -y,
        ;
        ax * ax + ay * ay
    }

    /// Whether this velocity would be reduced by running into something on the given edge,
    /// i.e. whether it points outwards across that edge.
    pub fn is_reduced_by_edge(&self, edge: BoxEdge) -> (r: bool)
        ensures
            r == self.reduced_by_spec(edge),
    {
        match edge {
            BoxEdge::Top => self.y < 0,
            BoxEdge::Left => self.x < 0,
            BoxEdge::Bottom => self.y > 0,
            BoxEdge::Right => self.x > 0,
        }
    }
}

impl core::ops::Add<Velocity> for Velocity {
    type Output = Velocity;

    fn add(self, rhs: Velocity) -> (r: Velocity) {
        Velocity { x: self.x + rhs.x, y: self.y + rhs.y }
    }
}

impl vstd::std_specs::ops::AddSpecImpl<Velocity> for Velocity {
    open spec fn obeys_add_spec() -> bool {
        true
    }

    open spec fn add_req(self, rhs: Velocity) -> bool {
        i64::MIN <= self.x + rhs.x <= i64::MAX && i64::MIN <= self.y + rhs.y <= i64::MAX
    }

    open spec fn add_spec(self, rhs: Velocity) -> Velocity {
        Velocity { x: (self.x + rhs.x) as i64, y: (self.y + rhs.y) as i64 }
    }
}

impl core::ops::Sub<Velocity> for Velocity {
    type Output = Velocity;

    fn sub(self, rhs: Velocity) -> (r: Velocity) {
        Velocity { x: self.x - rhs.x, y: self.y - rhs.y }
    }
}

impl vstd::std_specs::ops::SubSpecImpl<Velocity> for Velocity {
    open spec fn obeys_sub_spec() -> bool {
        true
    }

    open spec fn sub_req(self, rhs: Velocity) -> bool {
        i64::MIN <= self.x - rhs.x <= i64::MAX && i64::MIN <= self.y - rhs.y <= i64::MAX
    }

    open spec fn sub_spec(self, rhs: Velocity) -> Velocity {
        Velocity { x: (self.x - rhs.x) as i64, y: (self.y - rhs.y) as i64 }
    }
}

/// Permission to enter and exit each edge of an object.
///
/// The named constants below ([`SOLID`], [`NO_SOLIDITY`], [`ENTER_LEFT`], ...) are bit
/// patterns: `Solidity(ENTER_LEFT | ENTER_TOP)` may be entered on the left and the top.
///
/// The four high bits say which edges may be exited and the four low bits which
/// may be entered; within each group the bits run left, right, top, bottom from
/// the most significant down. A set bit means the edge may be passed.
#[derive(Debug, Clone, Copy, PartialEq, Eq, Structural, Hash)]
pub struct Solidity(pub u8);

/// Nothing may enter or exit on any edge.
pub const SOLID: u8 = 0;

/// Everything may enter and exit on every edge.
pub const NO_SOLIDITY: u8 = 255;

/// May enter on the left.
pub const ENTER_LEFT: u8 = 0b0000_1000;

/// May exit on the left.
pub const EXIT_LEFT: u8 = 0b1000_0000;

/// May enter on the right.
pub const ENTER_RIGHT: u8 = 0b0000_0100;

/// May exit on the right.
pub const EXIT_RIGHT: u8 = 0b0100_0000;

/// May enter on the top.
pub const ENTER_TOP: u8 = 0b0000_0010;

/// May exit on the top.
pub const EXIT_TOP: u8 = 0b0010_0000;

/// May enter on the bottom.
pub const ENTER_BOTTOM: u8 = 0b0000_0001;

/// May exit on the bottom.
pub const EXIT_BOTTOM: u8 = 0b0001_0000;

/// The bit that grants entry on `edge`.
pub open spec fn enter_bit(edge: BoxEdge) -> u8 {
    match edge {
        BoxEdge::Top => 0b0000_0010u8,
        BoxEdge::Left => 0b0000_1000u8,
        BoxEdge::Bottom => 0b0000_0001u8,
        BoxEdge::Right => 0b0000_0100u8,
    }
}

/// The bit that grants exit on `edge`.
pub open spec fn exit_bit(edge: BoxEdge) -> u8 {
    match edge {
        BoxEdge::Top => 0b0010_0000u8,
        BoxEdge::Left => 0b1000_0000u8,
        BoxEdge::Bottom => 0b0001_0000u8,
        BoxEdge::Right => 0b0100_0000u8,
    }
}

impl Solidity {
    pub open spec fn enters(self, edge: BoxEdge) -> bool {
        self.0 & enter_bit(edge) != 0
    }

    pub open spec fn exits(self, edge: BoxEdge) -> bool {
        self.0 & exit_bit(edge) != 0
    }

    /// Whether the left edge may be entered.
    pub fn enter_left(&self) -> (r: bool)
        ensures
            r == self.enters(BoxEdge::Left),
    {
        self.0 & ENTER_LEFT != 0
    }

    /// Whether the left edge may be exited.
    pub fn exit_left(&self) -> (r: bool)
        ensures
            r == self.exits(BoxEdge::Left),
    {
        self.0 & EXIT_LEFT != 0
    }

    /// Whether the right edge may be entered.
    pub fn enter_right(&self) -> (r: bool)
        ensures
            r == self.enters(BoxEdge::Right),
    {
        self.0 & ENTER_RIGHT != 0
    }

    /// Whether the right edge may be exited.
    pub fn exit_right(&self) -> (r: bool)
        ensures
            r == self.exits(BoxEdge::Right),
    {
        self.0 & EXIT_RIGHT != 0
    }

    /// Whether the top edge may be entered.
    pub fn enter_top(&self) -> (r: bool)
        ensures
            r == self.enters(BoxEdge::Top),
    {
        self.0 & ENTER_TOP != 0
    }

    /// Whether the top edge may be exited.
    pub fn exit_top(&self) -> (r: bool)
        ensures
            r == self.exits(BoxEdge::Top),
    {
        self.0 & EXIT_TOP != 0
    }

    /// Whether the bottom edge may be entered.
    pub fn enter_bottom(&self) -> (r: bool)
        ensures
            r == self.enters(BoxEdge::Bottom),
    {
        self.0 & ENTER_BOTTOM != 0
    }

    /// Whether the bottom edge may be exited.
    pub fn exit_bottom(&self) -> (r: bool)
        ensures
            r == self.exits(BoxEdge::Bottom),
    {
        self.0 & EXIT_BOTTOM != 0
    }

    /// Whether the given edge may be entered.
    pub fn enter_edge(&self, edge: BoxEdge) -> (r: bool)
        ensures
            r == self.enters(edge),
    {
        match edge {
            BoxEdge::Top => self.enter_top(),
            BoxEdge::Left => self.enter_left(),
            BoxEdge::Bottom => self.enter_bottom(),
            BoxEdge::Right => self.enter_right(),
        }
    }

    /// Whether the given edge may be exited.
    pub fn exit_edge(&self, edge: BoxEdge) -> (r: bool)
        ensures
            r == self.exits(edge),
    {
        match edge {
            BoxEdge::Top => self.exit_top(),
            BoxEdge::Left => self.exit_left(),
            BoxEdge::Bottom => self.exit_bottom(),
            BoxEdge::Right => self.exit_right(),
        }
    }

    /// Whether some edge may not be entered or exited, i.e. whether this differs from
    /// [`NO_SOLIDITY`].
    pub fn has_solidity(&self) -> (r: bool)
        ensures
            r == (self.0 != 255u8),
    {
        self.0 != NO_SOLIDITY
    }

    /// The permissions granted by both `self` and `rhs`.
    pub fn and(self, rhs: Solidity) -> (r: Solidity)
        ensures
            r.0 == self.0 & rhs.0,
    {
        Solidity(self.0 & rhs.0)
    }

    /// The permissions granted by either `self` or `rhs`.
    pub fn or(self, rhs: Solidity) -> (r: Solidity)
        ensures
            r.0 == self.0 | rhs.0,
    {
        Solidity(self.0 | rhs.0)
    }

    /// The permissions that `self` withholds.
    pub fn complement(self) -> (r: Solidity)
        ensures
            r.0 == !self.0,
    {
        Solidity(!self.0)
    }
}

impl core::ops::BitAnd<Solidity> for Solidity {
    type Output = Solidity;

    fn bitand(self, rhs: Solidity) -> (r: Solidity) {
        self.and(rhs)
    }
}

impl vstd::std_specs::ops::BitAndSpecImpl<Solidity> for Solidity {
    open spec fn obeys_bitand_spec() -> bool {
        true
    }

    open spec fn bitand_req(self, rhs: Solidity) -> bool {
        true
    }

    open spec fn bitand_spec(self, rhs: Solidity) -> Solidity {
        Solidity(self.0 & rhs.0)
    }
}

impl core::ops::BitOr<Solidity> for Solidity {
    type Output = Solidity;

    fn bitor(self, rhs: Solidity) -> (r: Solidity) {
        self.or(rhs)
    }
}

impl vstd::std_specs::ops::BitOrSpecImpl<Solidity> for Solidity {
    open spec fn obeys_bitor_spec() -> bool {
        true
    }

    open spec fn bitor_req(self, rhs: Solidity) -> bool {
        true
    }

    open spec fn bitor_spec(self, rhs: Solidity) -> Solidity {
        Solidity(self.0 | rhs.0)
    }
}

impl core::ops::Not for Solidity {
    type Output = Solidity;

    fn not(self) -> (r: Solidity) {
        self.complement()
    }
}

impl vstd::std_specs::ops::NotSpecImpl for Solidity {
    open spec fn obeys_not_spec() -> bool {
        true
    }

    open spec fn not_req(self) -> bool {
        true
    }

    open spec fn not_spec(self) -> Solidity {
        Solidity(!self.0)
    }
}

/// Nothing may pass an edge of the mask [`SOLID`], and everything may pass every edge
/// of the mask [`NO_SOLIDITY`].
pub proof fn lemma_solid_and_open(edge: BoxEdge)
    ensures
        !Solidity(SOLID).enters(edge),
        !Solidity(SOLID).exits(edge),
        Solidity(NO_SOLIDITY).enters(edge),
        Solidity(NO_SOLIDITY).exits(edge),
{
    assert(0u8 & 0b0000_0010u8 == 0u8) by (bit_vector);
    assert(0u8 & 0b0000_1000u8 == 0u8) by (bit_vector);
    assert(0u8 & 0b0000_0001u8 == 0u8) by (bit_vector);
    assert(0u8 & 0b0000_0100u8 == 0u8) by (bit_vector);
    assert(0u8 & 0b0010_0000u8 == 0u8) by (bit_vector);
    assert(0u8 & 0b1000_0000u8 == 0u8) by (bit_vector);
    assert(0u8 & 0b0001_0000u8 == 0u8) by (bit_vector);
    assert(0u8 & 0b0100_0000u8 == 0u8) by (bit_vector);
    assert(255u8 & 0b0000_0010u8 != 0u8) by (bit_vector);
    assert(255u8 & 0b0000_1000u8 != 0u8) by (bit_vector);
    assert(255u8 & 0b0000_0001u8 != 0u8) by (bit_vector);
    assert(255u8 & 0b0000_0100u8 != 0u8) by (bit_vector);
    assert(255u8 & 0b0010_0000u8 != 0u8) by (bit_vector);
    assert(255u8 & 0b1000_0000u8 != 0u8) by (bit_vector);
    assert(255u8 & 0b0001_0000u8 != 0u8) by (bit_vector);
    assert(255u8 & 0b0100_0000u8 != 0u8) by (bit_vector);
}

/// Combining two masks combines each permission on its own: `&` grants what both
/// grant, `|` what either grants, and `!` what the mask withholds.
pub proof fn lemma_mask_combination(a: Solidity, b: Solidity, edge: BoxEdge)
    ensures
        Solidity(a.0 & b.0).enters(edge) == (a.enters(edge) && b.enters(edge)),
        Solidity(a.0 & b.0).exits(edge) == (a.exits(edge) && b.exits(edge)),
        Solidity(a.0 | b.0).enters(edge) == (a.enters(edge) || b.enters(edge)),
        Solidity(a.0 | b.0).exits(edge) == (a.exits(edge) || b.exits(edge)),
        Solidity(!a.0).enters(edge) == !a.enters(edge),
        Solidity(!a.0).exits(edge) == !a.exits(edge),
{
    lemma_single_bit(a.0, b.0, enter_bit(edge));
    lemma_single_bit(a.0, b.0, exit_bit(edge));
}

proof fn lemma_single_bit(a: u8, b: u8, m: u8)
    requires
        m == 1u8 || m == 2u8 || m == 4u8 || m == 8u8 || m == 16u8 || m == 32u8 || m == 64u8
            || m == 128u8,
    ensures
        ((a & b) & m != 0) == (a & m != 0 && b & m != 0),
        ((a | b) & m != 0) == (a & m != 0 || b & m != 0),
        ((!a) & m != 0) == !(a & m != 0),
{
    assert(((a & b) & m != 0) == (a & m != 0 && b & m != 0)) by (bit_vector)
        requires
            m == 1u8 || m == 2u8 || m == 4u8 || m == 8u8 || m == 16u8 || m == 32u8 || m == 64u8
                || m == 128u8,
    ;
    assert(((a | b) & m != 0) == (a & m != 0 || b & m != 0)) by (bit_vector)
        requires
            m == 1u8 || m == 2u8 || m == 4u8 || m == 8u8 || m == 16u8 || m == 32u8 || m == 64u8
                || m == 128u8,
    ;
    assert(((!a) & m != 0) == !(a & m != 0)) by (bit_vector)
        requires
            m == 1u8 || m == 2u8 || m == 4u8 || m == 8u8 || m == 16u8 || m == 32u8 || m == 64u8
                || m == 128u8,
    ;
}

/// Game objects that carry a passability mask.
pub trait HasSolidity {
    /// The object's passability mask.
    fn get_solidity(&self) -> &Solidity;
}

impl HasSolidity for Solidity {
    fn get_solidity(&self) -> &Solidity {
        self
    }
}

/// The health of a game object, in thousandths of a point.
#[derive(Debug, Clone, Copy, PartialEq, Eq, Structural)]
pub struct Health {
    curr: i64,
    max: i64,
}

impl Health {
    pub closed spec fn current_spec(self) -> i64 {
        self.curr
    }

    pub closed spec fn max_spec(self) -> i64 {
        self.max
    }

    /// This health after taking `amt` of damage, stopping at the representable range.
    pub closed spec fn damaged(self, amt: i64) -> Health {
        let d = self.curr - amt;
        Health {
            curr: if d < i64::MIN {
                i64::MIN
            } else if d > i64::MAX {
                i64::MAX
            } else {
                d as i64
            },
            max: self.max,
        }
    }

    /// A health at its maximum `max`.
    pub fn new(max: i64) -> (r: Health)
        ensures
            r.current_spec() == max,
            r.max_spec() == max,
    {
        Health { curr: max, max }
    }

    /// Takes `amt` of damage; the value stops at the smallest representable health.
    pub fn raw_damage(&mut self, amt: i64)
        ensures
            *final(self) == old(self).damaged(amt),
            final(self).current_spec() == if old(self).current_spec() - amt < i64::MIN {
                i64::MIN as int
            } else if old(self).current_spec() - amt > i64::MAX {
                i64::MAX as int
            } else {
                old(self).current_spec() - amt
            },
            final(self).max_spec() == old(self).max_spec(),
    {
        let d = self.curr as i128 - amt as i128;
        self.curr = if d < i64::MIN as i128 {
            i64::MIN
        } else if d > i64::MAX as i128 {
            i64::MAX
        } else {
            d as i64
        };
    }

    /// The current health.
    pub fn current(&self) -> (r: i64)
        ensures
            r == self.current_spec(),
    {
        self.curr
    }

    /// The maximum health.
    pub fn max(&self) -> (r: i64)
        ensures
            r == self.max_spec(),
    {
        self.max
    }
}

/// Damage lowers the current health by exactly the amount, stopping at the
/// representable range, and keeps the maximum.
pub broadcast proof fn lemma_health_damaged(h: Health, amt: i64)
    ensures
        #[trigger] h.damaged(amt).current_spec() == if h.current_spec() - amt < i64::MIN {
            i64::MIN as int
        } else if h.current_spec() - amt > i64::MAX {
            i64::MAX as int
        } else {
            h.current_spec() - amt
        },
        h.damaged(amt).max_spec() == h.max_spec(),
{
}

} // verus!
