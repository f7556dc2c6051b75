//! Integer points and the axis-aligned domain that holds them.
use vstd::prelude::*;

verus! {

/// A point of the integer lattice.
#[derive(Debug, Clone, Copy, PartialEq, Eq, Structural)]
pub struct Point {
    pub x: i32,
    pub y: i32,
    pub z: i32,
}

/// Square of the Euclidean distance between two points.
pub open spec fn dist2(a: Point, b: Point) -> int {
    (a.x - b.x) * (a.x - b.x) + (a.y - b.y) * (a.y - b.y) + (a.z - b.z) * (a.z - b.z)
}

/// Every coordinate of `p` lies between those of `lo` and `hi`, both included.
pub open spec fn within(p: Point, lo: Point, hi: Point) -> bool {
    lo.x <= p.x <= hi.x && lo.y <= p.y <= hi.y && lo.z <= p.z <= hi.z
}

/// Squared distances are never negative.
pub proof fn lemma_dist2_nonneg(a: Point, b: Point)
    ensures
        dist2(a, b) >= 0,
{
    let (dx, dy, dz) = (a.x - b.x, a.y - b.y, a.z - b.z);
    assert(dx * dx >= 0 && dy * dy >= 0 && dz * dz >= 0) by (nonlinear_arith);
}

/// Squared distances of `i32` points fit in 66 bits.
pub proof fn lemma_dist2_bound(a: Point, b: Point)
    ensures
        0 <= dist2(a, b) < 0x4_0000_0000_0000_0000,
{
    lemma_square_bound(a.x - b.x);
    lemma_square_bound(a.y - b.y);
    lemma_square_bound(a.z - b.z);
}

/// A coordinate difference of two `i32` values squares into `u64` range.
pub proof fn lemma_square_bound(d: int)
    requires
        -0x1_0000_0000 < d < 0x1_0000_0000,
    ensures
        0 <= d * d < 0x1_0000_0000_0000_0000,
{
    assert(0 <= d * d < 0x1_0000_0000_0000_0000) by (nonlinear_arith)
        requires
            -0x1_0000_0000 < d < 0x1_0000_0000,
    ;
}

impl Point {
    pub fn new(x: i32, y: i32, z: i32) -> (r: Point)
        ensures
            r == (Point { x, y, z }),
    {
        Point { x, y, z }
    }

    /// Square of the Euclidean distance to `other`, exact.
    pub fn distance_squared_from(&self, other: &Point) -> (r: u128)
        ensures
            r == dist2(*self, *other),
            r < 0x4_0000_0000_0000_0000,
    {
        let dx: i64 = self.x as i64 - other.x as i64;
        let dy: i64 = self.y as i64 - other.y as i64;
        let dz: i64 = self.z as i64 - other.z as i64;
        proof {
            lemma_square_bound(dx as int);
            lemma_square_bound(dy as int);
            lemma_square_bound(dz as int);
        }
        let sx: u128 = (dx as i128 * dx as i128) as u128;
        let sy: u128 = (dy as i128 * dy as i128) as u128;
        let sz: u128 = (dz as i128 * dz as i128) as u128;
        sx + sy + sz
    }

    /// Componentwise sum.
    pub fn add(self, other: Point) -> (r: Point)
        requires
            i32::MIN <= self.x + other.x <= i32::MAX,
            i32::MIN <= self.y + other.y <= i32::MAX,
            i32::MIN <= self.z + other.z <= i32::MAX,
        ensures
            r.x == self.x + other.x,
            r.y == self.y + other.y,
            r.z == self.z + other.z,
    {
        Point::new(self.x + other.x, self.y + other.y, self.z + other.z)
    }

    /// Componentwise difference.
    pub fn sub(self, other: Point) -> (r: Point)
        requires
            i32::MIN <= self.x - other.x <= i32::MAX,
            i32::MIN <= self.y - other.y <= i32::MAX,
            i32::MIN <= self.z - other.z <= i32::MAX,
        ensures
            r.x == self.x - other.x,
            r.y == self.y - other.y,
            r.z == self.z - other.z,
    {
        Point::new(self.x - other.x, self.y - other.y, self.z - other.z)
    }
}

/// An axis-aligned box of the lattice; both corners belong to it.
pub struct Space {
    origin: Point,
    terminus: Point,
}

/// Why a `Space` could not be built.
#[derive(Debug, Clone, Copy, PartialEq, Eq, Structural)]
pub enum SpaceError {
    /// Some coordinate of the origin exceeds that of the terminus.
    InvertedCorners,
}

impl Space {
    pub closed spec fn lo(&self) -> Point {
        self.origin
    }

    pub closed spec fn hi(&self) -> Point {
        self.terminus
    }

    /// Corners are ordered componentwise.
    pub open spec fn wf(&self) -> bool {
        self.lo().x <= self.hi().x && self.lo().y <= self.hi().y && self.lo().z <= self.hi().z
    }

    pub fn new(origin: Point, terminus: Point) -> (r: Result<Space, SpaceError>)
        ensures
            match r {
                Ok(s) => s.lo() == origin && s.hi() == terminus && s.wf(),
                Err(e) => e == SpaceError::InvertedCorners,
            },
            r is Ok <==> within(origin, origin, terminus),
    {
        if origin.x <= terminus.x && origin.y <= terminus.y && origin.z <= terminus.z {
            Ok(Space { origin, terminus })
        } else {
            Err(SpaceError::InvertedCorners)
        }
    }

    pub fn get_origin(&self) -> (r: Point)
        ensures
            r == self.lo(),
    {
        self.origin
    }

    pub fn get_terminus(&self) -> (r: Point)
        ensures
            r == self.hi(),
    {
        self.terminus
    }

    /// Whether every point of `corners` lies in this box.
    pub fn encloses(&self, corners: &Vec<Point>) -> (r: bool)
        ensures
            r <==> forall|i: int| 0 <= i < corners@.len() ==> within(
                #[trigger] corners@[i],
                self.lo(),
                self.hi(),
            ),
    {
        let mut k: usize = 0;
        while k < corners.len()
            invariant
                k <= corners@.len(),
                forall|i: int| 0 <= i < k ==> within(#[trigger] corners@[i], self.lo(), self.hi()),
            decreases corners@.len() - k,
        {
            let c = corners[k];
            if !(self.origin.x <= c.x && c.x <= self.terminus.x && self.origin.y <= c.y
                && c.y <= self.terminus.y && self.origin.z <= c.z && c.z <= self.terminus.z) {
                return false;
            }
            k = k + 1;
        }
        true
    }
}

} // verus!
