//! Points, directions and the projective map that turns a pixel into a ray.

use vstd::prelude::*;
use crate::fixed::{
    floor_div, floor_ratio, int_sqrt, isqrt, lemma_floor_ratio_scaled, lemma_mul_bound, wide_mul,
    HALF, MAX_COORD, ONE,
};

verus! {

/// The largest magnitude of a matrix entry: 2^56 units.
pub const MAX_ENTRY: i64 = 0x100_0000_0000_0000;

/// A point or a direction of space, in fixed-point coordinates.
#[derive(Clone, Copy, Debug, PartialEq, Eq)]
pub struct Vec3 {
    pub x: i64,
    pub y: i64,
    pub z: i64,
}

impl Vec3 {
    /// The three coordinates as integers.
    pub open spec fn triple(self) -> Triple {
        (self.x as int, self.y as int, self.z as int)
    }

    /// No coordinate exceeds `bound` in magnitude.
    pub open spec fn within(self, bound: int) -> bool {
        &&& -bound <= self.x <= bound
        &&& -bound <= self.y <= bound
        &&& -bound <= self.z <= bound
    }

    /// The point lies in the part of space that rays are cast in.
    pub open spec fn in_world(self) -> bool {
        self.within(MAX_COORD as int)
    }

    /// The vector is a direction: no coordinate exceeds `ONE` in magnitude,
    /// and one is at least a half, as the largest coordinate of every unit
    /// vector is.
    pub open spec fn is_direction(self) -> bool {
        &&& self.within(ONE as int)
        &&& (self.x <= -HALF || self.x >= HALF || self.y <= -HALF || self.y >= HALF || self.z
            <= -HALF || self.z >= HALF)
    }

    /// Whether no coordinate exceeds `bound` in magnitude.
    pub fn check_within(&self, bound: i64) -> (r: bool)
        requires
            bound >= 0,
        ensures
            r == self.within(bound as int),
    {
        -bound <= self.x && self.x <= bound && -bound <= self.y && self.y <= bound && -bound
            <= self.z && self.z <= bound
    }

    /// Whether the point lies in the world.
    pub fn check_in_world(&self) -> (r: bool)
        ensures
            r == self.in_world(),
    {
        self.check_within(MAX_COORD)
    }

    /// Whether the vector is a direction.
    pub fn check_direction(&self) -> (r: bool)
        ensures
            r == self.is_direction(),
    {
        -ONE <= self.x && self.x <= ONE && -ONE <= self.y && self.y <= ONE && -ONE <= self.z
            && self.z <= ONE && (self.x <= -HALF || self.x >= HALF || self.y <= -HALF || self.y
            >= HALF || self.z <= -HALF || self.z >= HALF)
    }
}

/// A 4 by 4 matrix in fixed-point entries, `m[row][column]`, that acts on
/// homogeneous coordinates.
#[derive(Clone, Copy, Debug, PartialEq, Eq)]
pub struct Mat4 {
    pub m: [[i64; 4]; 4],
}

/// Three integers as a vector, as contracts speak of them.
pub type Triple = (int, int, int);

/// No coordinate of the triple exceeds `bound` in magnitude.
pub open spec fn triple_within(p: Triple, bound: int) -> bool {
    &&& -bound <= p.0 <= bound
    &&& -bound <= p.1 <= bound
    &&& -bound <= p.2 <= bound
}

/// The triple as a vector of fixed-point coordinates.
pub open spec fn triple_to_vec(p: Triple) -> Vec3 {
    Vec3 { x: p.0 as i64, y: p.1 as i64, z: p.2 as i64 }
}

impl Mat4 {
    /// No entry exceeds `MAX_ENTRY` in magnitude.
    pub open spec fn wf(self) -> bool {
        forall|i: int, j: int|
            0 <= i < 4 && 0 <= j < 4 ==> -MAX_ENTRY <= (#[trigger] self.m[i][j]) <= MAX_ENTRY
    }

    /// Whether no entry exceeds `MAX_ENTRY` in magnitude.
    pub fn check(&self) -> (r: bool)
        ensures
            r == self.wf(),
    {
        let mut i: usize = 0;
        while i < 4
            invariant
                i <= 4,
                forall|a: int, b: int|
                    0 <= a < i && 0 <= b < 4 ==> -MAX_ENTRY <= (#[trigger] self.m[a][b])
                        <= MAX_ENTRY,
            decreases 4 - i,
        {
            let mut j: usize = 0;
            while j < 4
                invariant
                    i < 4,
                    j <= 4,
                    forall|a: int, b: int|
                        0 <= a < i && 0 <= b < 4 ==> -MAX_ENTRY <= (#[trigger] self.m[a][b])
                            <= MAX_ENTRY,
                    forall|b: int|
                        0 <= b < j ==> -MAX_ENTRY <= (#[trigger] self.m[i as int][b]) <= MAX_ENTRY,
                decreases 4 - j,
            {
                let e: i64 = self.m[i][j];
                if e < -MAX_ENTRY || e > MAX_ENTRY {
                    return false;
                }
                j += 1;
            }
            i += 1;
        }
        true
    }

    /// Row `row` of the matrix applied to the point (x, y, z, 1): the sum of
    /// the four products, before it is brought back to the unit.
    pub open spec fn row_dot(self, row: int, x: int, y: int, z: int) -> int {
        self.m[row][0] * x + self.m[row][1] * y + self.m[row][2] * z + self.m[row][3] * ONE
    }

    /// Coordinate `row` of the image of the point (x, y, z): the row's sum
    /// divided by the sum of the last row, or, where that is zero, brought
    /// back to the unit undivided.
    pub open spec fn spec_transform_coord(self, row: int, x: int, y: int, z: int) -> int {
        let n = self.row_dot(row, x, y, z);
        let w = self.row_dot(3, x, y, z);
        if w != 0 {
            floor_ratio(n * ONE, w)
        } else {
            floor_ratio(n, ONE as int)
        }
    }

    /// The image of the point (x, y, z) under the projective map.
    pub open spec fn spec_transform_point(self, x: int, y: int, z: int) -> Triple {
        (
            self.spec_transform_coord(0, x, y, z),
            self.spec_transform_coord(1, x, y, z),
            self.spec_transform_coord(2, x, y, z),
        )
    }

    /// The image of the point (x, y, z) as a point of the world; none
    /// where a coordinate of the image exceeds `MAX_COORD`.
    pub open spec fn spec_transform(self, x: int, y: int, z: int) -> Option<Vec3> {
        if triple_within(self.spec_transform_point(x, y, z), MAX_COORD as int) {
            Some(triple_to_vec(self.spec_transform_point(x, y, z)))
        } else {
            None
        }
    }

    fn row_sum(&self, row: usize, x: i64, y: i64, z: i64) -> (n: i128)
        requires
            self.wf(),
            row < 4,
            -ONE <= x <= ONE,
            -ONE <= y <= ONE,
            -ONE <= z <= ONE,
        ensures
            n == self.row_dot(row as int, x as int, y as int, z as int),
            -4 * MAX_ENTRY * ONE <= n <= 4 * MAX_ENTRY * ONE,
    {
        let r: &[i64; 4] = &self.m[row];
        proof {
            lemma_mul_bound(r[0] as int, x as int, MAX_ENTRY as int, ONE as int);
            lemma_mul_bound(r[1] as int, y as int, MAX_ENTRY as int, ONE as int);
            lemma_mul_bound(r[2] as int, z as int, MAX_ENTRY as int, ONE as int);
            lemma_mul_bound(r[3] as int, ONE as int, MAX_ENTRY as int, ONE as int);
        }
        wide_mul(r[0], x) + wide_mul(r[1], y) + wide_mul(r[2], z) + wide_mul(r[3], ONE)
    }

    /// The image of the point (x, y, z) under the projective map, where it
    /// lies in the world; none where a coordinate exceeds `MAX_COORD`.
    pub fn transform_point(&self, x: i64, y: i64, z: i64) -> (p: Option<Vec3>)
        requires
            self.wf(),
            -ONE <= x <= ONE,
            -ONE <= y <= ONE,
            -ONE <= z <= ONE,
        ensures
            p == self.spec_transform(x as int, y as int, z as int),
    {
        let w: i128 = self.row_sum(3, x, y, z);
        let mut out: [i64; 3] = [0, 0, 0];
        let mut row: usize = 0;
        while row < 3
            invariant
                row <= 3,
                self.wf(),
                -ONE <= x <= ONE,
                -ONE <= y <= ONE,
                -ONE <= z <= ONE,
                w == self.row_dot(3, x as int, y as int, z as int),
                -4 * MAX_ENTRY * ONE <= w <= 4 * MAX_ENTRY * ONE,
                forall|i: int|
                    0 <= i < row ==> (#[trigger] out[i]) == self.spec_transform_coord(
                        i,
                        x as int,
                        y as int,
                        z as int,
                    ) && -MAX_COORD <= out[i] <= MAX_COORD,
            decreases 3 - row,
        {
            let n: i128 = self.row_sum(row, x, y, z);
            let c: i128 = if w != 0 {
                proof {
                    lemma_mul_bound(n as int, ONE as int, 4 * MAX_ENTRY * ONE, ONE as int);
                }
                floor_div(n * (ONE as i128), w)
            } else {
                floor_div(n, ONE as i128)
            };
            if c < -(MAX_COORD as i128) || c > MAX_COORD as i128 {
                return None;
            }
            out[row] = c as i64;
            row += 1;
        }
        Some(Vec3 { x: out[0], y: out[1], z: out[2] })
    }
}

/// The direction from `from` to `to`, scaled to unit length: each
/// coordinate of the difference times `ONE`, divided by the difference's
/// length and rounded down. For two equal points it is the zero triple.
pub open spec fn spec_direction(from: Triple, to: Triple) -> Triple {
    let d = (to.0 - from.0, to.1 - from.1, to.2 - from.2);
    let len = int_sqrt(d.0 * d.0 + d.1 * d.1 + d.2 * d.2);
    if len == 0 {
        (0, 0, 0)
    } else {
        (floor_ratio(d.0 * ONE, len), floor_ratio(d.1 * ONE, len), floor_ratio(d.2 * ONE, len))
    }
}

/// The unit direction from `from` to `to`; none where rounding leaves no
/// direction, as between two equal points.
pub open spec fn spec_unit_between(from: Vec3, to: Vec3) -> Option<Vec3> {
    let d = spec_direction(from.triple(), to.triple());
    if triple_within(d, ONE as int) && triple_to_vec(d).is_direction() {
        Some(triple_to_vec(d))
    } else {
        None
    }
}

/// The vector scaled to unit length, if that leaves a direction.
pub open spec fn spec_unit(v: Vec3) -> Option<Vec3> {
    spec_unit_between(Vec3 { x: 0, y: 0, z: 0 }, v)
}

/// The cross product of two vectors, each coordinate brought back to the
/// unit and rounded down.
pub open spec fn spec_cross(a: Vec3, b: Vec3) -> Triple {
    (
        floor_ratio(a.y * b.z - a.z * b.y, ONE as int),
        floor_ratio(a.z * b.x - a.x * b.z, ONE as int),
        floor_ratio(a.x * b.y - a.y * b.x, ONE as int),
    )
}

/// One coordinate of a cross product.
fn cross_coord(p: i64, q: i64, r: i64, s: i64) -> (c: i64)
    requires
        -ONE <= p <= ONE,
        -ONE <= q <= ONE,
        -ONE <= r <= ONE,
        -ONE <= s <= ONE,
    ensures
        c == floor_ratio(p * q - r * s, ONE as int),
        -2 * ONE <= c <= 2 * ONE,
{
    proof {
        lemma_mul_bound(p as int, q as int, ONE as int, ONE as int);
        lemma_mul_bound(r as int, s as int, ONE as int, ONE as int);
        lemma_floor_ratio_scaled(p * q - r * s, ONE as int, 2 * ONE);
    }
    floor_div(wide_mul(p, q) - wide_mul(r, s), ONE as i128) as i64
}

/// The cross product of two vectors of at most unit length.
pub fn cross(a: &Vec3, b: &Vec3) -> (c: Vec3)
    requires
        a.within(ONE as int),
        b.within(ONE as int),
    ensures
        c.triple() == spec_cross(*a, *b),
        c.within(2 * ONE),
{
    Vec3 {
        x: cross_coord(a.y, b.z, a.z, b.y),
        y: cross_coord(a.z, b.x, a.x, b.z),
        z: cross_coord(a.x, b.y, a.y, b.x),
    }
}

/// The vector scaled to unit length, if that leaves a direction.
pub fn normalize(v: &Vec3) -> (r: Option<Vec3>)
    requires
        v.in_world(),
    ensures
        r == spec_unit(*v),
{
    direction_between(&Vec3 { x: 0, y: 0, z: 0 }, v)
}

/// Where the eye of a camera stands and which way is up for it.
#[derive(Clone, Copy, Debug, PartialEq, Eq)]
pub struct Pose {
    pub position: Vec3,
    pub up: Vec3,
}

/// The unit direction from one point of the world to another; none where
/// rounding leaves no direction, as between two equal points.
pub fn direction_between(from: &Vec3, to: &Vec3) -> (r: Option<Vec3>)
    requires
        from.in_world(),
        to.in_world(),
    ensures
        r == spec_unit_between(*from, *to),
{
    let dx: i64 = to.x - from.x;
    let dy: i64 = to.y - from.y;
    let dz: i64 = to.z - from.z;
    proof {
        lemma_mul_bound(dx as int, dx as int, 2 * MAX_COORD, 2 * MAX_COORD);
        lemma_mul_bound(dy as int, dy as int, 2 * MAX_COORD, 2 * MAX_COORD);
        lemma_mul_bound(dz as int, dz as int, 2 * MAX_COORD, 2 * MAX_COORD);
        assert(dx * dx >= 0 && dy * dy >= 0 && dz * dz >= 0) by (nonlinear_arith);
    }
    let sum: i128 = wide_mul(dx, dx) + wide_mul(dy, dy) + wide_mul(dz, dz);
    let len: u128 = isqrt(sum as u128);
    if len == 0 {
        return None;
    }
    proof {
        lemma_mul_bound(dx as int, ONE as int, 2 * MAX_COORD, ONE as int);
        lemma_mul_bound(dy as int, ONE as int, 2 * MAX_COORD, ONE as int);
        lemma_mul_bound(dz as int, ONE as int, 2 * MAX_COORD, ONE as int);
    }
    let l: i128 = len as i128;
    let cx: i128 = floor_div(wide_mul(dx, ONE), l);
    let cy: i128 = floor_div(wide_mul(dy, ONE), l);
    let cz: i128 = floor_div(wide_mul(dz, ONE), l);
    let one: i128 = ONE as i128;
    if cx < -one || cx > one || cy < -one || cy > one || cz < -one || cz > one {
        return None;
    }
    let d: Vec3 = Vec3 { x: cx as i64, y: cy as i64, z: cz as i64 };
    if d.check_direction() {
        Some(d)
    } else {
        None
    }
}

} // verus!
