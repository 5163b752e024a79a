//! The ray caster: a ray per pixel, its passage through the box of the
//! volume, and the colour that the samples along it add up to.

use vstd::prelude::*;
use crate::fixed::{
    clamp_int, floor_div, floor_ratio, lemma_floor_ratio_bound, lemma_floor_ratio_exact,
    lemma_floor_ratio_scaled, lemma_mul_bound, lemma_scale_bound, wide_mul, HALF, MAX_COORD, ONE,
};
use crate::geometry::{direction_between, spec_unit_between, Mat4, Triple, Vec3};
use crate::transfer_function::{
    bucket_channel, bucket_of, color_in_range, table_in_range,
    ControlPoint, TransferFunction,
};
use crate::volume::VolumeData;

verus! {

/// The largest magnitude of the parameter of a ray at which it can meet a
/// box of the world: 2^58 units.
pub const T_LIMIT: i64 = 0x400_0000_0000_0000;

/// Stands for a bound that an axis does not set: 2^100, beyond every
/// parameter that a ray of the world can have.
pub const NO_BOUND: i128 = 0x10_0000_0000_0000_0000_0000_0000;

/// The largest of three integers.
pub open spec fn max3(a: int, b: int, c: int) -> int {
    if a >= b && a >= c {
        a
    } else if b >= c {
        b
    } else {
        c
    }
}

/// The smallest of three integers.
pub open spec fn min3(a: int, b: int, c: int) -> int {
    if a <= b && a <= c {
        a
    } else if b <= c {
        b
    } else {
        c
    }
}

/// The ray runs along the slab between `lo` and `hi` without being in it.
pub open spec fn axis_misses(o: int, d: int, lo: int, hi: int) -> bool {
    d == 0 && (o < lo || o > hi)
}

/// The parameter at which a ray that starts at `o` and moves by `d` enters
/// the slab between `lo` and `hi`, rounded down; no bound for a ray that
/// runs along the slab.
pub open spec fn axis_entry(o: int, d: int, lo: int, hi: int) -> int {
    if d > 0 {
        floor_ratio((lo - o) * ONE, d)
    } else if d < 0 {
        floor_ratio((hi - o) * ONE, d)
    } else {
        -NO_BOUND
    }
}

/// The parameter at which the ray leaves the slab, rounded down; no bound
/// for a ray that runs along the slab.
pub open spec fn axis_exit(o: int, d: int, lo: int, hi: int) -> int {
    if d > 0 {
        floor_ratio((hi - o) * ONE, d)
    } else if d < 0 {
        floor_ratio((lo - o) * ONE, d)
    } else {
        NO_BOUND as int
    }
}

/// A half-line: the points `origin + t * direction`.
#[derive(Clone, Copy, Debug, PartialEq, Eq)]
pub struct Ray {
    pub origin: Vec3,
    pub direction: Vec3,
}

/// The stretch of a ray inside a box, by the slab method: on each axis the
/// ray enters and leaves the slab of the box; it is inside the box from the
/// last entry to the first exit. The ray starts at its origin, at parameter
/// 0: of a box that it has entered before, only the part from the origin on
/// counts. There is none where the ray runs along a slab outside of it, and
/// none where the first exit is not after the last entry and after the
/// origin: a box behind the ray is missed.
pub open spec fn spec_intersect_box(ray: Ray, min: Vec3, max: Vec3) -> Option<(int, int)> {
    let o = ray.origin;
    let d = ray.direction;
    let entry = max3(
        axis_entry(o.x as int, d.x as int, min.x as int, max.x as int),
        axis_entry(o.y as int, d.y as int, min.y as int, max.y as int),
        axis_entry(o.z as int, d.z as int, min.z as int, max.z as int),
    );
    let t_min = if entry < 0 {
        0
    } else {
        entry
    };
    let t_max = min3(
        axis_exit(o.x as int, d.x as int, min.x as int, max.x as int),
        axis_exit(o.y as int, d.y as int, min.y as int, max.y as int),
        axis_exit(o.z as int, d.z as int, min.z as int, max.z as int),
    );
    if axis_misses(o.x as int, d.x as int, min.x as int, max.x as int) || axis_misses(
        o.y as int,
        d.y as int,
        min.y as int,
        max.y as int,
    ) || axis_misses(o.z as int, d.z as int, min.z as int, max.z as int) || t_max <= t_min {
        None
    } else {
        Some((t_min, t_max))
    }
}

/// Entry and exit of one axis.
fn axis_span(o: i64, d: i64, lo: i64, hi: i64) -> (r: (i128, i128))
    requires
        -MAX_COORD <= o <= MAX_COORD,
        -MAX_COORD <= lo <= MAX_COORD,
        -MAX_COORD <= hi <= MAX_COORD,
        -ONE <= d <= ONE,
    ensures
        r.0 == axis_entry(o as int, d as int, lo as int, hi as int),
        r.1 == axis_exit(o as int, d as int, lo as int, hi as int),
        -NO_BOUND <= r.0 <= NO_BOUND,
        -NO_BOUND <= r.1 <= NO_BOUND,
        d <= -HALF || d >= HALF ==> -T_LIMIT <= r.0 <= T_LIMIT && -T_LIMIT <= r.1 <= T_LIMIT,
{
    if d == 0 {
        return (-NO_BOUND, NO_BOUND);
    }
    let to_lo: i128 = wide_mul(lo - o, ONE);
    let to_hi: i128 = wide_mul(hi - o, ONE);
    proof {
        lemma_mul_bound((lo - o) as int, ONE as int, 2 * MAX_COORD, ONE as int);
        lemma_mul_bound((hi - o) as int, ONE as int, 2 * MAX_COORD, ONE as int);
        lemma_floor_ratio_bound(to_lo as int, d as int, 2 * MAX_COORD * ONE);
        lemma_floor_ratio_bound(to_hi as int, d as int, 2 * MAX_COORD * ONE);
        if d <= -HALF || d >= HALF {
            lemma_floor_ratio_scaled(to_lo as int, d as int, T_LIMIT as int);
            lemma_floor_ratio_scaled(to_hi as int, d as int, T_LIMIT as int);
        }
    }
    let at_lo: i128 = floor_div(to_lo, d as i128);
    let at_hi: i128 = floor_div(to_hi, d as i128);
    if d > 0 {
        (at_lo, at_hi)
    } else {
        (at_hi, at_lo)
    }
}

impl Ray {
    /// The origin lies in the world and the direction is one.
    pub open spec fn wf(self) -> bool {
        self.origin.in_world() && self.direction.is_direction()
    }

    /// The ray from `origin` along `direction`, if the one lies in the
    /// world and the other is a direction.
    pub fn new(origin: Vec3, direction: Vec3) -> (r: Option<Ray>)
        ensures
            r == if origin.in_world() && direction.is_direction() {
                Some(Ray { origin, direction })
            } else {
                None
            },
    {
        if origin.check_in_world() && direction.check_direction() {
            Some(Ray { origin, direction })
        } else {
            None
        }
    }

    /// The point of the ray at parameter `t`: the origin moved by `t` times
    /// the direction, each product rounded down.
    pub open spec fn spec_at(self, t: int) -> Triple {
        (
            self.origin.x + floor_ratio(self.direction.x * t, ONE as int),
            self.origin.y + floor_ratio(self.direction.y * t, ONE as int),
            self.origin.z + floor_ratio(self.direction.z * t, ONE as int),
        )
    }

    /// The point of the ray at parameter `t`.
    pub fn at(&self, t: i64) -> (p: Vec3)
        requires
            self.wf(),
            -T_LIMIT <= t <= T_LIMIT,
        ensures
            (p.x as int, p.y as int, p.z as int) == self.spec_at(t as int),
            p.within(MAX_COORD + T_LIMIT),
    {
        proof {
            lemma_mul_bound(self.direction.x as int, t as int, ONE as int, T_LIMIT as int);
            lemma_mul_bound(self.direction.y as int, t as int, ONE as int, T_LIMIT as int);
            lemma_mul_bound(self.direction.z as int, t as int, ONE as int, T_LIMIT as int);
            lemma_scale_bound(self.direction.x as int, t as int, T_LIMIT as int);
            lemma_scale_bound(self.direction.y as int, t as int, T_LIMIT as int);
            lemma_scale_bound(self.direction.z as int, t as int, T_LIMIT as int);
        }
        let one: i128 = ONE as i128;
        let mx: i128 = floor_div(wide_mul(self.direction.x, t), one);
        let my: i128 = floor_div(wide_mul(self.direction.y, t), one);
        let mz: i128 = floor_div(wide_mul(self.direction.z, t), one);
        Vec3 {
            x: (self.origin.x as i128 + mx) as i64,
            y: (self.origin.y as i128 + my) as i64,
            z: (self.origin.z as i128 + mz) as i64,
        }
    }

    /// The stretch of the ray inside the box between the corners `min` and
    /// `max`, as the parameters of entry and exit, if it passes through the
    /// box.
    pub fn intersect_box(&self, min: &Vec3, max: &Vec3) -> (r: Option<(i64, i64)>)
        requires
            self.wf(),
            min.in_world(),
            max.in_world(),
        ensures
            match spec_intersect_box(*self, *min, *max) {
                Some((t_min, t_max)) => r == Some((t_min as i64, t_max as i64)) && 0 <= t_min
                    < t_max <= T_LIMIT,
                None => r is None,
            },
    {
        let o: Vec3 = self.origin;
        let d: Vec3 = self.direction;
        if d.x == 0 && (o.x < min.x || o.x > max.x) {
            return None;
        }
        if d.y == 0 && (o.y < min.y || o.y > max.y) {
            return None;
        }
        if d.z == 0 && (o.z < min.z || o.z > max.z) {
            return None;
        }
        let (ex, lx): (i128, i128) = axis_span(o.x, d.x, min.x, max.x);
        let (ey, ly): (i128, i128) = axis_span(o.y, d.y, min.y, max.y);
        let (ez, lz): (i128, i128) = axis_span(o.z, d.z, min.z, max.z);
        let mut t_min: i128 = 0;
        if ex > t_min {
            t_min = ex;
        }
        if ey > t_min {
            t_min = ey;
        }
        if ez > t_min {
            t_min = ez;
        }
        let mut t_max: i128 = lx;
        if ly < t_max {
            t_max = ly;
        }
        if lz < t_max {
            t_max = lz;
        }
        if t_max <= t_min {
            return None;
        }
        Some((t_min as i64, t_max as i64))
    }
}

/// The vector runs along one axis, at unit length.
pub open spec fn along_axis(d: Vec3) -> bool {
    ||| (d.x == ONE || d.x == -ONE) && d.y == 0 && d.z == 0
    ||| d.x == 0 && (d.y == ONE || d.y == -ONE) && d.z == 0
    ||| d.x == 0 && d.y == 0 && (d.z == ONE || d.z == -ONE)
}

/// On the axis the ray runs along, the box has an inside; on the other two,
/// the origin of the ray lies between the faces of the box.
pub open spec fn line_through_box(ray: Ray, min: Vec3, max: Vec3) -> bool {
    &&& if ray.direction.x != 0 {
        min.x < max.x
    } else {
        min.x <= ray.origin.x <= max.x
    }
    &&& if ray.direction.y != 0 {
        min.y < max.y
    } else {
        min.y <= ray.origin.y <= max.y
    }
    &&& if ray.direction.z != 0 {
        min.z < max.z
    } else {
        min.z <= ray.origin.z <= max.z
    }
}

/// On the axis the ray runs along, it has not yet left the box: the far
/// face lies ahead of its origin.
pub open spec fn box_ahead(ray: Ray, min: Vec3, max: Vec3) -> bool {
    &&& ray.direction.x > 0 ==> ray.origin.x < max.x
    &&& ray.direction.x < 0 ==> ray.origin.x > min.x
    &&& ray.direction.y > 0 ==> ray.origin.y < max.y
    &&& ray.direction.y < 0 ==> ray.origin.y > min.y
    &&& ray.direction.z > 0 ==> ray.origin.z < max.z
    &&& ray.direction.z < 0 ==> ray.origin.z > min.z
}

/// A ray along an axis that points towards the box, and whose line passes
/// through it, has a stretch in the box: it ends at the distance of the far
/// face, and begins at the distance of the near face or, for a ray that
/// starts within the box, at its origin.
pub proof fn lemma_axis_ray_hits(ray: Ray, min: Vec3, max: Vec3)
    requires
        along_axis(ray.direction),
        line_through_box(ray, min, max),
        box_ahead(ray, min, max),
        ray.origin.in_world(),
        min.in_world(),
        max.in_world(),
    ensures
        spec_intersect_box(ray, min, max) matches Some((t_min, t_max)) && 0 <= t_min < t_max
            && t_max == axis_far(ray, min, max) && t_min == if axis_far(ray, min, max) - axis_side(
            ray,
            min,
            max,
        ) < 0 {
            0
        } else {
            axis_far(ray, min, max) - axis_side(ray, min, max)
        },
{
    let o = ray.origin;
    let d = ray.direction;
    lemma_unit_axis(o.x as int, d.x as int, min.x as int, max.x as int);
    lemma_unit_axis(o.y as int, d.y as int, min.y as int, max.y as int);
    lemma_unit_axis(o.z as int, d.z as int, min.z as int, max.z as int);
}

/// The distance from the origin of a ray along an axis to the face of the
/// box that it leaves by.
pub open spec fn axis_far(ray: Ray, min: Vec3, max: Vec3) -> int {
    let o = ray.origin;
    let d = ray.direction;
    if d.x > 0 {
        max.x - o.x
    } else if d.x < 0 {
        o.x - min.x
    } else if d.y > 0 {
        max.y - o.y
    } else if d.y < 0 {
        o.y - min.y
    } else if d.z > 0 {
        max.z - o.z
    } else {
        o.z - min.z
    }
}

/// The side of the box along the axis that the ray runs along.
pub open spec fn axis_side(ray: Ray, min: Vec3, max: Vec3) -> int {
    if ray.direction.x != 0 {
        max.x - min.x
    } else if ray.direction.y != 0 {
        max.y - min.y
    } else {
        max.z - min.z
    }
}

/// A ray aimed away from the box has no stretch in it: where, on some axis,
/// the ray moves on from a place at or beyond the face by which it would
/// leave, the box lies behind it.
pub proof fn lemma_ray_aimed_away_misses(ray: Ray, min: Vec3, max: Vec3)
    requires
        ray.direction.within(ONE as int),
        ({
            ||| ray.direction.x > 0 && ray.origin.x >= max.x
            ||| ray.direction.x < 0 && ray.origin.x <= min.x
            ||| ray.direction.y > 0 && ray.origin.y >= max.y
            ||| ray.direction.y < 0 && ray.origin.y <= min.y
            ||| ray.direction.z > 0 && ray.origin.z >= max.z
            ||| ray.direction.z < 0 && ray.origin.z <= min.z
        }),
    ensures
        spec_intersect_box(ray, min, max) is None,
{
    let o = ray.origin;
    let d = ray.direction;
    lemma_exit_behind(o.x as int, d.x as int, min.x as int, max.x as int);
    lemma_exit_behind(o.y as int, d.y as int, min.y as int, max.y as int);
    lemma_exit_behind(o.z as int, d.z as int, min.z as int, max.z as int);
}

/// On an axis on which the ray moves away from the slab, the exit is not
/// after the origin.
proof fn lemma_exit_behind(o: int, d: int, lo: int, hi: int)
    ensures
        d > 0 && o >= hi ==> axis_exit(o, d, lo, hi) <= 0,
        d < 0 && o <= lo ==> axis_exit(o, d, lo, hi) <= 0,
{
    let one = ONE as int;
    if d > 0 && o >= hi {
        assert(((hi - o) * one) / d <= 0) by (nonlinear_arith)
            requires
                d > 0,
                hi - o <= 0,
                one > 0,
        ;
    }
    if d < 0 && o <= lo {
        assert((-((lo - o) * one)) / (-d) <= 0) by (nonlinear_arith)
            requires
                -d > 0,
                lo - o >= 0,
                one > 0,
        ;
    }
}

/// Entry and exit of an axis along which the ray moves at unit speed are
/// the distances to the two faces.
proof fn lemma_unit_axis(o: int, d: int, lo: int, hi: int)
    requires
        d == ONE || d == -ONE || d == 0,
        -MAX_COORD <= o <= MAX_COORD,
        -MAX_COORD <= lo <= MAX_COORD,
        -MAX_COORD <= hi <= MAX_COORD,
    ensures
        d == ONE ==> axis_entry(o, d, lo, hi) == lo - o && axis_exit(o, d, lo, hi) == hi - o,
        d == -ONE ==> axis_entry(o, d, lo, hi) == o - hi && axis_exit(o, d, lo, hi) == o - lo,
        d == 0 ==> axis_entry(o, d, lo, hi) == -NO_BOUND && axis_exit(o, d, lo, hi) == NO_BOUND,
        d != 0 ==> -NO_BOUND < axis_entry(o, d, lo, hi) < NO_BOUND && -NO_BOUND < axis_exit(
            o,
            d,
            lo,
            hi,
        ) < NO_BOUND,
{
    let one = ONE as int;
    lemma_floor_ratio_exact(lo - o, one);
    lemma_floor_ratio_exact(hi - o, one);
    lemma_floor_ratio_exact(o - lo, one);
    lemma_floor_ratio_exact(o - hi, one);
}

/// A ray that runs along a pair of faces of the box, outside of them, has
/// no stretch in the box, wherever it points.
pub proof fn lemma_ray_beside_box_misses(ray: Ray, min: Vec3, max: Vec3)
    requires
        ({
            ||| ray.direction.x == 0 && (ray.origin.x < min.x || ray.origin.x > max.x)
            ||| ray.direction.y == 0 && (ray.origin.y < min.y || ray.origin.y > max.y)
            ||| ray.direction.z == 0 && (ray.origin.z < min.z || ray.origin.z > max.z)
        }),
    ensures
        spec_intersect_box(ray, min, max) is None,
{
}

/// On one axis, a ray is between the faces of the box, to within the last
/// unit, all the way from its entry to its exit.
proof fn lemma_axis_inside(o: int, d: int, lo: int, hi: int, t: int)
    requires
        -ONE <= d <= ONE,
        !axis_misses(o, d, lo, hi),
        axis_entry(o, d, lo, hi) <= t <= axis_exit(o, d, lo, hi),
    ensures
        lo - 1 <= o + floor_ratio(d * t, ONE as int) <= hi,
{
    let one = ONE as int;
    if d > 0 {
        let e = ((lo - o) * one) / d;
        let x = ((hi - o) * one) / d;
        assert(d * t > (lo - o - 1) * one) by (nonlinear_arith)
            requires
                0 < d <= one,
                e == ((lo - o) * one) / d,
                t >= e,
        ;
        assert(d * t <= (hi - o) * one) by (nonlinear_arith)
            requires
                0 < d,
                x == ((hi - o) * one) / d,
                t <= x,
        ;
        assert(lo - o - 1 <= (d * t) / one <= hi - o) by (nonlinear_arith)
            requires
                one > 0,
                d * t > (lo - o - 1) * one,
                d * t <= (hi - o) * one,
        ;
    } else if d < 0 {
        let m = -d;
        let e = (-((hi - o) * one)) / m;
        let x = (-((lo - o) * one)) / m;
        assert(d * t < (hi - o + 1) * one) by (nonlinear_arith)
            requires
                0 < m <= one,
                d == -m,
                e == (-((hi - o) * one)) / m,
                t >= e,
        ;
        assert(d * t >= (lo - o) * one) by (nonlinear_arith)
            requires
                0 < m,
                d == -m,
                x == (-((lo - o) * one)) / m,
                t <= x,
        ;
        assert(lo - o <= (d * t) / one <= hi - o) by (nonlinear_arith)
            requires
                one > 0,
                d * t < (hi - o + 1) * one,
                d * t >= (lo - o) * one,
        ;
    } else {
        assert(d * t == 0) by (nonlinear_arith)
            requires
                d == 0,
        ;
    }
}

/// The stretch that the slab method finds lies in the box: at every
/// parameter from entry to exit, each coordinate of the point of the ray is
/// between the faces of the box, to within the last unit.
pub proof fn lemma_stretch_lies_in_box(ray: Ray, min: Vec3, max: Vec3, t: int)
    requires
        ray.direction.within(ONE as int),
        spec_intersect_box(ray, min, max) matches Some((t_min, t_max)) && t_min <= t <= t_max,
    ensures
        min.x - 1 <= ray.spec_at(t).0 <= max.x,
        min.y - 1 <= ray.spec_at(t).1 <= max.y,
        min.z - 1 <= ray.spec_at(t).2 <= max.z,
{
    let o = ray.origin;
    let d = ray.direction;
    lemma_axis_inside(o.x as int, d.x as int, min.x as int, max.x as int, t);
    lemma_axis_inside(o.y as int, d.y as int, min.y as int, max.y as int, t);
    lemma_axis_inside(o.z as int, d.z as int, min.z as int, max.z as int, t);
}

/// The distance between two samples along a ray: 0.005.
pub const RAY_STEP: i64 = 327_675;

/// The accumulated alpha at which a ray is taken as saturated: 0.99.
pub const ALPHA_CUTOFF: i64 = 64_879_650;

/// Red, green, blue and alpha as they add up along a ray.
pub type Accum = (int, int, int, int);

/// The four bytes of a pixel: red, green, blue, alpha.
pub type Quad = (int, int, int, int);

/// The longest of the three dimensions of the volume.
pub open spec fn max_dimension(volume: VolumeData) -> int {
    max3(volume.dimensions.0 as int, volume.dimensions.1 as int, volume.dimensions.2 as int)
}

/// No dimension of the volume is zero.
pub open spec fn has_extent(volume: VolumeData) -> bool {
    volume.dimensions.0 >= 1 && volume.dimensions.1 >= 1 && volume.dimensions.2 >= 1
}

/// Half the side of the box along an axis of `dim` samples, where the
/// longest axis has `max_dim`: the box is centred at the origin and its
/// longest side has unit length.
pub open spec fn half_extent(dim: int, max_dim: int) -> int {
    dim * HALF / max_dim
}

/// The far corner of the box of the volume.
pub open spec fn spec_box_max(volume: VolumeData) -> Vec3 {
    Vec3 {
        x: half_extent(volume.dimensions.0 as int, max_dimension(volume)) as i64,
        y: half_extent(volume.dimensions.1 as int, max_dimension(volume)) as i64,
        z: half_extent(volume.dimensions.2 as int, max_dimension(volume)) as i64,
    }
}

/// The near corner of the box of the volume.
pub open spec fn spec_box_min(volume: VolumeData) -> Vec3 {
    Vec3 {
        x: (-half_extent(volume.dimensions.0 as int, max_dimension(volume))) as i64,
        y: (-half_extent(volume.dimensions.1 as int, max_dimension(volume))) as i64,
        z: (-half_extent(volume.dimensions.2 as int, max_dimension(volume))) as i64,
    }
}

/// The index, along an axis of `dim` samples, of the sample that holds the
/// coordinate `p`: `p * max_dim + dim / 2`, rounded down and limited to the
/// axis.
pub open spec fn voxel_coord(p: int, dim: int, max_dim: int) -> int {
    clamp_int((p * max_dim + dim * HALF) / (ONE as int), 0, dim - 1)
}

/// The sample of the volume at the point of the ray at parameter `t`.
pub open spec fn spec_sample_at(volume: VolumeData, ray: Ray, t: int) -> Option<u16> {
    let p = ray.spec_at(t);
    let m = max_dimension(volume);
    volume.spec_sample(
        voxel_coord(p.0, volume.dimensions.0 as int, m),
        voxel_coord(p.1, volume.dimensions.1 as int, m),
        voxel_coord(p.2, volume.dimensions.2 as int, m),
    )
}

/// A channel as a byte: times 255, rounded down, limited to a byte.
pub open spec fn spec_to_byte(c: int) -> int {
    clamp_int(c * 255 / (ONE as int), 0, 255)
}

/// The share of the light that a sample of alpha `sample_alpha` takes where
/// `alpha` is taken already: `sample_alpha * step * 10 * (1 - alpha)`.
pub open spec fn spec_absorbed(sample_alpha: int, step: int, alpha: int) -> int {
    sample_alpha * (step * 10) * (ONE - alpha) / (ONE * ONE)
}

/// Front-to-back compositing of one sample onto what has added up: the
/// sample takes its share of the remaining light and adds its colour by
/// that share.
pub open spec fn spec_composite(acc: Accum, red: int, green: int, blue: int, alpha: int, step: int)
    -> Accum {
    let a = spec_absorbed(alpha, step, acc.3);
    (
        acc.0 + red * a / (ONE as int),
        acc.1 + green * a / (ONE as int),
        acc.2 + blue * a / (ONE as int),
        acc.3 + a,
    )
}

/// One step of the march: the sample at `t`, if there is one, is
/// normalised, coloured by the transfer function and composited.
pub open spec fn spec_march_step(
    volume: VolumeData,
    points: Seq<ControlPoint>,
    ray: Ray,
    step: int,
    t: int,
    acc: Accum,
) -> Accum {
    match spec_sample_at(volume, ray, t) {
        Some(v) => {
            let b = bucket_of(volume.spec_normalized(v));
            spec_composite(
                acc,
                bucket_channel(points, b, 0),
                bucket_channel(points, b, 1),
                bucket_channel(points, b, 2),
                bucket_channel(points, b, 3),
                step,
            )
        },
        None => acc,
    }
}

/// The march along the ray from `t` on: steps are taken while `t` is before
/// `t_max` and the accumulated alpha is below the cutoff.
pub open spec fn spec_march(
    volume: VolumeData,
    points: Seq<ControlPoint>,
    ray: Ray,
    step: int,
    t: int,
    t_max: int,
    acc: Accum,
) -> Accum
    decreases
        (if t < t_max {
            t_max - t
        } else {
            0
        }),
{
    if step > 0 && t < t_max && acc.3 < ALPHA_CUTOFF {
        spec_march(
            volume,
            points,
            ray,
            step,
            t + step,
            t_max,
            spec_march_step(volume, points, ray, step, t, acc),
        )
    } else {
        acc
    }
}

/// What has added up is in range: every colour channel lies between 0 and
/// the alpha, and the alpha between 0 and `ONE`.
pub open spec fn accum_in_range(acc: Accum) -> bool {
    &&& 0 <= acc.0 <= acc.3
    &&& 0 <= acc.1 <= acc.3
    &&& 0 <= acc.2 <= acc.3
    &&& 0 <= acc.3 <= ONE
}

/// The pixel of a single slice: where the ray passes through the box, the
/// sample at the middle of its stretch, normalised, as a grey of full
/// alpha; transparent black where the ray misses the box or finds no sample.
pub open spec fn spec_cast_2d(volume: VolumeData, ray: Ray, min: Vec3, max: Vec3) -> Quad {
    match spec_intersect_box(ray, min, max) {
        Some((t_min, t_max)) => match spec_sample_at(volume, ray, (t_min + t_max) / 2) {
            Some(v) => {
                let g = spec_to_byte(clamp_int(volume.spec_normalized(v), 0, ONE as int));
                (g, g, g, 255)
            },
            None => (0, 0, 0, 0),
        },
        None => (0, 0, 0, 0),
    }
}

/// The pixel of a volume: where the ray passes through the box, what the
/// march from entry to exit adds up to, the alpha five-fold and limited to
/// 1; transparent black where the ray misses the box.
pub open spec fn spec_cast_3d(
    volume: VolumeData,
    points: Seq<ControlPoint>,
    ray: Ray,
    step: int,
    min: Vec3,
    max: Vec3,
) -> Quad {
    match spec_intersect_box(ray, min, max) {
        Some((t_min, t_max)) => {
            let acc = spec_march(volume, points, ray, step, t_min, t_max, (0, 0, 0, 0));
            (
                spec_to_byte(acc.0),
                spec_to_byte(acc.1),
                spec_to_byte(acc.2),
                spec_to_byte(
                    if acc.3 * 5 > ONE {
                        ONE as int
                    } else {
                        acc.3 * 5
                    },
                ),
            )
        },
        None => (0, 0, 0, 0),
    }
}

/// The bytes of `px` are the four of `q`.
pub open spec fn pixel_is(px: [u8; 4], q: Quad) -> bool {
    px[0] == q.0 && px[1] == q.1 && px[2] == q.2 && px[3] == q.3
}

/// Compositing keeps what has added up in range, and the alpha does not
/// shrink.
pub proof fn lemma_composite_in_range(
    acc: Accum,
    red: int,
    green: int,
    blue: int,
    alpha: int,
    step: int,
)
    requires
        accum_in_range(acc),
        0 <= red <= ONE,
        0 <= green <= ONE,
        0 <= blue <= ONE,
        0 <= alpha <= ONE,
        0 < step * 10 <= ONE,
    ensures
        accum_in_range(spec_composite(acc, red, green, blue, alpha, step)),
        spec_composite(acc, red, green, blue, alpha, step).3 >= acc.3,
        0 <= spec_absorbed(alpha, step, acc.3) <= ONE - acc.3,
        0 <= alpha * (step * 10) * (ONE - acc.3) <= ONE * ONE * ONE,
{
    let one = ONE as int;
    let s = step * 10;
    let rest = one - acc.3;
    let n = alpha * s * rest;
    assert(0 <= alpha * s <= one * one) by (nonlinear_arith)
        requires
            0 <= alpha <= one,
            0 < s <= one,
    ;
    assert(0 <= n <= one * one * rest && n <= one * one * one) by (nonlinear_arith)
        requires
            n == alpha * s * rest,
            0 <= alpha * s <= one * one,
            0 <= rest <= one,
    ;
    let a = n / (one * one);
    assert(0 <= a <= rest) by (nonlinear_arith)
        requires
            a == n / (one * one),
            0 <= n <= one * one * rest,
            one * one > 0,
    ;
    lemma_share(red, a);
    lemma_share(green, a);
    lemma_share(blue, a);
}

/// A colour channel times a share, brought back to the unit, is at most
/// the share.
proof fn lemma_share(c: int, a: int)
    requires
        0 <= c <= ONE,
        0 <= a,
    ensures
        0 <= c * a / (ONE as int) <= a,
        0 <= c * a <= ONE * a,
{
    let one = ONE as int;
    assert(0 <= c * a <= one * a) by (nonlinear_arith)
        requires
            0 <= c <= one,
            0 <= a,
    ;
    assert(0 <= (c * a) / one <= a) by (nonlinear_arith)
        requires
            0 <= c * a <= one * a,
            one > 0,
    ;
}

/// With a colour table in the unit range, a step of the march keeps what
/// has added up in range, and the alpha does not shrink.
pub proof fn lemma_march_step_in_range(
    volume: VolumeData,
    points: Seq<ControlPoint>,
    ray: Ray,
    step: int,
    t: int,
    acc: Accum,
)
    requires
        table_in_range(points),
        accum_in_range(acc),
        0 < step * 10 <= ONE,
    ensures
        accum_in_range(spec_march_step(volume, points, ray, step, t, acc)),
        spec_march_step(volume, points, ray, step, t, acc).3 >= acc.3,
{
    match spec_sample_at(volume, ray, t) {
        Some(v) => {
            let b = bucket_of(volume.spec_normalized(v));
            assert(0 <= b < 256);
            assert(0 <= bucket_channel(points, b, 0) <= ONE);
            assert(0 <= bucket_channel(points, b, 1) <= ONE);
            assert(0 <= bucket_channel(points, b, 2) <= ONE);
            assert(0 <= bucket_channel(points, b, 3) <= ONE);
            lemma_composite_in_range(
                acc,
                bucket_channel(points, b, 0),
                bucket_channel(points, b, 1),
                bucket_channel(points, b, 2),
                bucket_channel(points, b, 3),
                step,
            );
        },
        None => {},
    }
}

/// With a colour table in the unit range: along the march the accumulated
/// alpha never shrinks and never exceeds 1, no colour channel exceeds the
/// alpha, and the march ends at `t_max` or
/// with the alpha at the cutoff: what it returns is what had added up when
/// the first of the two held.
pub proof fn lemma_march_monotone(
    volume: VolumeData,
    points: Seq<ControlPoint>,
    ray: Ray,
    step: int,
    t: int,
    t_max: int,
    acc: Accum,
)
    requires
        table_in_range(points),
        accum_in_range(acc),
        0 < step * 10 <= ONE,
    ensures
        accum_in_range(spec_march(volume, points, ray, step, t, t_max, acc)),
        spec_march(volume, points, ray, step, t, t_max, acc).3 >= acc.3,
        t >= t_max || acc.3 >= ALPHA_CUTOFF ==> spec_march(volume, points, ray, step, t, t_max, acc)
            == acc,
    decreases
        (if t < t_max {
            t_max - t
        } else {
            0
        }),
{
    if step > 0 && t < t_max && acc.3 < ALPHA_CUTOFF {
        lemma_march_step_in_range(volume, points, ray, step, t, acc);
        lemma_march_monotone(
            volume,
            points,
            ray,
            step,
            t + step,
            t_max,
            spec_march_step(volume, points, ray, step, t, acc),
        );
    }
}

/// The opacity that the march finds at parameter `t`: the alpha that the
/// transfer function gives the sample there, and none where there is no
/// sample.
pub open spec fn spec_opacity_at(volume: VolumeData, points: Seq<ControlPoint>, ray: Ray, t: int)
    -> int {
    match spec_sample_at(volume, ray, t) {
        Some(v) => bucket_channel(points, bucket_of(volume.spec_normalized(v)), 3),
        None => 0,
    }
}

/// A march that finds no opacity adds nothing: where every sample from `t`
/// to `t_max` is given the alpha 0, what had added up stays as it was.
pub proof fn lemma_march_of_transparent(
    volume: VolumeData,
    points: Seq<ControlPoint>,
    ray: Ray,
    step: int,
    t: int,
    t_max: int,
    acc: Accum,
)
    requires
        forall|u: int| t <= u < t_max ==> #[trigger] spec_opacity_at(volume, points, ray, u) == 0,
    ensures
        spec_march(volume, points, ray, step, t, t_max, acc) == acc,
    decreases
        (if t < t_max {
            t_max - t
        } else {
            0
        }),
{
    if step > 0 && t < t_max && acc.3 < ALPHA_CUTOFF {
        let next = spec_march_step(volume, points, ray, step, t, acc);
        assert(next == acc) by {
            assert(spec_opacity_at(volume, points, ray, t) == 0);
            match spec_sample_at(volume, ray, t) {
                Some(v) => {
                    let b = bucket_of(volume.spec_normalized(v));
                    lemma_nothing_absorbed(bucket_channel(points, b, 0), step, acc.3);
                    lemma_nothing_absorbed(bucket_channel(points, b, 1), step, acc.3);
                    lemma_nothing_absorbed(bucket_channel(points, b, 2), step, acc.3);
                },
                None => {},
            }
        }
        lemma_march_of_transparent(volume, points, ray, step, t + step, t_max, acc);
    }
}

/// A sample of alpha 0 takes no share of the light and adds no colour.
proof fn lemma_nothing_absorbed(c: int, step: int, alpha: int)
    ensures
        spec_absorbed(0, step, alpha) == 0,
        c * spec_absorbed(0, step, alpha) / (ONE as int) == 0,
{
    assert(0 * (step * 10) * (ONE - alpha) == 0) by (nonlinear_arith);
    assert(c * 0 == 0) by (nonlinear_arith);
}

/// A pixel of a volume is painted only where its ray meets opacity: where
/// the ray misses the box, and where every sample along its stretch in the
/// box is given the alpha 0, the pixel is transparent black.
pub proof fn lemma_unlit_pixel_is_transparent(
    volume: VolumeData,
    points: Seq<ControlPoint>,
    ray: Ray,
    step: int,
    min: Vec3,
    max: Vec3,
)
    requires
        spec_intersect_box(ray, min, max) matches Some((t_min, t_max)) ==> forall|u: int|
            t_min <= u < t_max ==> #[trigger] spec_opacity_at(volume, points, ray, u) == 0,
    ensures
        spec_cast_3d(volume, points, ray, step, min, max) == (0int, 0int, 0int, 0int),
{
    match spec_intersect_box(ray, min, max) {
        Some((t_min, t_max)) => {
            lemma_march_of_transparent(volume, points, ray, step, t_min, t_max, (0, 0, 0, 0));
        },
        None => {},
    }
}

/// The number of steps that the march takes from `t` on.
pub open spec fn spec_march_steps(
    volume: VolumeData,
    points: Seq<ControlPoint>,
    ray: Ray,
    step: int,
    t: int,
    t_max: int,
    acc: Accum,
) -> int
    decreases
        (if t < t_max {
            t_max - t
        } else {
            0
        }),
{
    if step > 0 && t < t_max && acc.3 < ALPHA_CUTOFF {
        1 + spec_march_steps(
            volume,
            points,
            ray,
            step,
            t + step,
            t_max,
            spec_march_step(volume, points, ray, step, t, acc),
        )
    } else {
        0
    }
}

/// The march ends by `t_max`: every step it takes starts before `t_max`,
/// so that it takes no more steps than steps fit between `t` and `t_max`.
pub proof fn lemma_march_ends(
    volume: VolumeData,
    points: Seq<ControlPoint>,
    ray: Ray,
    step: int,
    t: int,
    t_max: int,
    acc: Accum,
)
    ensures
        spec_march_steps(volume, points, ray, step, t, t_max, acc) >= 0,
        spec_march_steps(volume, points, ray, step, t, t_max, acc) >= 1 ==> t + (spec_march_steps(
            volume,
            points,
            ray,
            step,
            t,
            t_max,
            acc,
        ) - 1) * step < t_max,
    decreases
        (if t < t_max {
            t_max - t
        } else {
            0
        }),
{
    if step > 0 && t < t_max && acc.3 < ALPHA_CUTOFF {
        let next = spec_march_step(volume, points, ray, step, t, acc);
        let rest = spec_march_steps(volume, points, ray, step, t + step, t_max, next);
        lemma_march_ends(volume, points, ray, step, t + step, t_max, next);
        if rest >= 1 {
            assert(t + rest * step == t + step + (rest - 1) * step) by (nonlinear_arith);
        } else {
            assert((1 - 1) * step == 0) by (nonlinear_arith);
        }
    }
}

/// A channel in the unit range is not limited on its way to a byte: what
/// has added up along a ray never is.
pub proof fn lemma_byte_of_unit_range(c: int)
    requires
        0 <= c <= ONE,
    ensures
        spec_to_byte(c) == c * 255 / (ONE as int),
{
}

/// A sample of an 8-bit volume shows as its own grey in a single slice:
/// dividing by 255 and scaling back to a byte loses nothing.
pub proof fn lemma_eight_bit_grey_is_exact(volume: VolumeData, sample: u16)
    requires
        volume.value_range == (0u16, 255u16),
        sample <= 255,
    ensures
        volume.spec_normalized(sample) == sample * (ONE / 255),
        spec_to_byte(clamp_int(volume.spec_normalized(sample), 0, ONE as int)) == sample,
{
    assert(sample * ONE / 255 == sample * 257_000);
    assert(sample * 257_000 * 255 / (ONE as int) == sample);
}

/// The largest of three sizes.
fn largest(a: usize, b: usize, c: usize) -> (m: usize)
    ensures
        m == max3(a as int, b as int, c as int),
        m >= a && m >= b && m >= c,
{
    if a >= b && a >= c {
        a
    } else if b >= c {
        b
    } else {
        c
    }
}

/// Half the side of the box along one axis.
fn half_side(dim: usize, max_dim: usize) -> (h: i64)
    requires
        1 <= dim <= max_dim,
    ensures
        h == half_extent(dim as int, max_dim as int),
        0 <= h <= HALF,
{
    let n: u128 = (dim as u128) * (HALF as u128);
    let h: u128 = n / (max_dim as u128);
    assert(n / (max_dim as u128) <= HALF) by (nonlinear_arith)
        requires
            n == dim * HALF,
            1 <= dim <= max_dim,
    ;
    h as i64
}

/// The corners of the box of the volume.
pub fn volume_box(volume: &VolumeData) -> (corners: (Vec3, Vec3))
    requires
        has_extent(*volume),
    ensures
        corners.0 == spec_box_min(*volume),
        corners.1 == spec_box_max(*volume),
        corners.0.within(HALF as int),
        corners.1.within(HALF as int),
{
    let (w, h, d): (usize, usize, usize) = volume.dimensions;
    let m: usize = largest(w, h, d);
    let hx: i64 = half_side(w, m);
    let hy: i64 = half_side(h, m);
    let hz: i64 = half_side(d, m);
    (Vec3 { x: -hx, y: -hy, z: -hz }, Vec3 { x: hx, y: hy, z: hz })
}

/// The index of the sample that holds a coordinate, along one axis.
fn voxel_index(p: i64, dim: usize, max_dim: usize) -> (i: usize)
    requires
        1 <= dim <= max_dim,
        -(MAX_COORD + T_LIMIT) <= p <= MAX_COORD + T_LIMIT,
    ensures
        i == voxel_coord(p as int, dim as int, max_dim as int),
        i < dim,
{
    proof {
        lemma_mul_bound(p as int, max_dim as int, MAX_COORD + T_LIMIT, 0x1_0000_0000_0000_0000);
        lemma_mul_bound(dim as int, HALF as int, 0x1_0000_0000_0000_0000, HALF as int);
    }
    let scaled: i128 = (p as i128) * (max_dim as i128) + (dim as i128) * (HALF as i128);
    let cell: i128 = floor_div(scaled, ONE as i128);
    if cell < 0 {
        0
    } else if cell > (dim - 1) as i128 {
        dim - 1
    } else {
        cell as usize
    }
}

/// The sample of the volume at the point of the ray at parameter `t`.
pub fn sample_at(volume: &VolumeData, ray: &Ray, t: i64) -> (r: Option<u16>)
    requires
        has_extent(*volume),
        ray.wf(),
        -T_LIMIT <= t <= T_LIMIT,
    ensures
        r == spec_sample_at(*volume, *ray, t as int),
{
    let p: Vec3 = ray.at(t);
    let (w, h, d): (usize, usize, usize) = volume.dimensions;
    let m: usize = largest(w, h, d);
    let x: usize = voxel_index(p.x, w, m);
    let y: usize = voxel_index(p.y, h, m);
    let z: usize = voxel_index(p.z, d, m);
    volume.sample(x, y, z)
}

/// A channel as a byte.
pub fn to_byte(c: i64) -> (b: u8)
    ensures
        b == spec_to_byte(c as int),
{
    let scaled: i128 = floor_div((c as i128) * 255, ONE as i128);
    if scaled < 0 {
        0
    } else if scaled > 255 {
        255
    } else {
        scaled as u8
    }
}

/// The accumulated channels as contracts speak of them.
pub open spec fn accum_of(acc: [i64; 4]) -> Accum {
    (acc[0] as int, acc[1] as int, acc[2] as int, acc[3] as int)
}

/// Front-to-back compositing of one sample onto what has added up.
pub fn composite(acc: [i64; 4], sample: [i64; 4], step: i64) -> (out: [i64; 4])
    requires
        accum_in_range(accum_of(acc)),
        color_in_range(sample),
        0 < step * 10 <= ONE,
    ensures
        accum_of(out) == spec_composite(
            accum_of(acc),
            sample[0] as int,
            sample[1] as int,
            sample[2] as int,
            sample[3] as int,
            step as int,
        ),
        accum_in_range(accum_of(out)),
        out[3] >= acc[3],
{
    let one: i128 = ONE as i128;
    proof {
        lemma_composite_in_range(
            accum_of(acc),
            sample[0] as int,
            sample[1] as int,
            sample[2] as int,
            sample[3] as int,
            step as int,
        );
        assert(sample[3] * (step * 10) >= 0 && sample[3] * (step * 10) <= ONE * ONE)
            by (nonlinear_arith)
            requires
                0 <= sample[3] <= ONE,
                0 < step * 10 <= ONE,
        ;
    }
    let weight: i128 = wide_mul(sample[3], step * 10);
    let a: i128 = weight * (one - acc[3] as i128) / (one * one);
    proof {
        lemma_share(sample[0] as int, a as int);
        lemma_share(sample[1] as int, a as int);
        lemma_share(sample[2] as int, a as int);
    }
    let red: i128 = (sample[0] as i128) * a / one;
    let green: i128 = (sample[1] as i128) * a / one;
    let blue: i128 = (sample[2] as i128) * a / one;
    [
        (acc[0] as i128 + red) as i64,
        (acc[1] as i128 + green) as i64,
        (acc[2] as i128 + blue) as i64,
        (acc[3] as i128 + a) as i64,
    ]
}

/// The position of a pixel across the image, from -1 to 1: the middle of
/// pixel `i` of `n`, `(2 i + 1) / n - 1`, rounded down.
pub open spec fn spec_ndc(i: int, n: int) -> int {
    (2 * i + 1) * ONE / n - ONE
}

/// The ray through the middle of pixel (x, y) of an image of `width` by
/// `height` pixels, row 0 at the top: from the image of the pixel on the
/// near plane towards its image on the far plane, both under the inverse
/// of the camera's view and projection.
///
/// There is none where one of the two images lies outside the world, or
/// where they leave no direction between them.
pub open spec fn spec_generate_ray(inv: Mat4, width: int, height: int, x: int, y: int) -> Option<
    Ray,
> {
    let nx = spec_ndc(x, width);
    let ny = -spec_ndc(y, height);
    match (inv.spec_transform(nx, ny, -ONE), inv.spec_transform(nx, ny, ONE as int)) {
        (Some(near), Some(far)) => match spec_unit_between(near, far) {
            Some(direction) => Some(Ray { origin: near, direction }),
            None => None,
        },
        _ => None,
    }
}

/// The pixel (x, y) of the image of a volume.
///
/// It is transparent black where the volume has no extent and where the
/// pixel has no ray. Else the ray is cast through the box of the volume: as
/// through a single slice where the volume is one sample deep, and by
/// marching else.
pub open spec fn spec_pixel(
    volume: VolumeData,
    points: Seq<ControlPoint>,
    step: int,
    inv: Mat4,
    width: int,
    height: int,
    x: int,
    y: int,
) -> Quad {
    if !has_extent(volume) {
        (0, 0, 0, 0)
    } else {
        match spec_generate_ray(inv, width, height, x, y) {
            Some(ray) => if volume.dimensions.2 == 1 {
                spec_cast_2d(volume, ray, spec_box_min(volume), spec_box_max(volume))
            } else {
                spec_cast_3d(
                    volume,
                    points,
                    ray,
                    step,
                    spec_box_min(volume),
                    spec_box_max(volume),
                )
            },
            None => (0, 0, 0, 0),
        }
    }
}

/// The four bytes of pixel (x, y) in a framebuffer of rows of `width`
/// pixels.
pub open spec fn pixel_at(framebuffer: Seq<u8>, width: int, x: int, y: int) -> Quad {
    let base = (y * width + x) * 4;
    (
        framebuffer[base] as int,
        framebuffer[base + 1] as int,
        framebuffer[base + 2] as int,
        framebuffer[base + 3] as int,
    )
}

/// The position of a pixel across the image.
fn ndc(i: usize, n: usize) -> (c: i64)
    requires
        i < n,
    ensures
        c == spec_ndc(i as int, n as int),
        -ONE <= c < ONE,
{
    let num: u128 = (2 * (i as u128) + 1) * (ONE as u128);
    let q: u128 = num / (n as u128);
    assert(0 <= num / (n as u128) < 2 * ONE) by (nonlinear_arith)
        requires
            num == (2 * i + 1) * ONE,
            0 <= i < n,
    ;
    q as i64 - ONE
}

/// The renderer: the framebuffer of `width` by `height` pixels of four
/// bytes, row by row from the top, and the step of the march.
pub struct VolumeRenderer {
    pub framebuffer: Vec<u8>,
    pub width: usize,
    pub height: usize,
    pub ray_step: i64,
}

impl VolumeRenderer {
    /// The framebuffer has four bytes for every pixel, and ten steps of
    /// the march are at most a unit.
    pub open spec fn wf(&self) -> bool {
        &&& self.framebuffer@.len() == self.width * self.height * 4
        &&& 0 < self.ray_step * 10 <= ONE
    }

    /// A renderer of `width` by `height` pixels with a framebuffer of
    /// zeros, which marches by `RAY_STEP`.
    pub fn new(width: usize, height: usize) -> (r: Self)
        requires
            width * height * 4 <= usize::MAX,
        ensures
            r.wf(),
            r.width == width,
            r.height == height,
            r.ray_step == RAY_STEP,
            forall|i: int| 0 <= i < r.framebuffer@.len() ==> r.framebuffer@[i] == 0,
    {
        assert(width * height <= width * height * 4) by (nonlinear_arith)
            requires
                width * height >= 0,
        ;
        assert(width * height >= 0) by (nonlinear_arith)
            requires
                width >= 0,
                height >= 0,
        ;
        let framebuffer: Vec<u8> = vec![0u8; width * height * 4];
        VolumeRenderer { framebuffer, width, height, ray_step: RAY_STEP }
    }

    /// The ray through the middle of pixel (x, y), if the pixel has one.
    pub fn generate_ray(&self, x: usize, y: usize, inv_view_proj: &Mat4) -> (r: Option<Ray>)
        requires
            x < self.width,
            y < self.height,
            inv_view_proj.wf(),
        ensures
            r == spec_generate_ray(
                *inv_view_proj,
                self.width as int,
                self.height as int,
                x as int,
                y as int,
            ),
            r matches Some(ray) ==> ray.wf(),
    {
        let nx: i64 = ndc(x, self.width);
        let ny: i64 = -ndc(y, self.height);
        let near: Option<Vec3> = inv_view_proj.transform_point(nx, ny, -ONE);
        let far: Option<Vec3> = inv_view_proj.transform_point(nx, ny, ONE);
        match (near, far) {
            (Some(near), Some(far)) => {
                match direction_between(&near, &far) {
                    Some(direction) => Some(Ray { origin: near, direction }),
                    None => None,
                }
            },
            _ => None,
        }
    }

    /// The pixel of a single slice for one ray.
    pub fn cast_ray_2d(
        &self,
        ray: &Ray,
        volume: &VolumeData,
        transfer_func: &TransferFunction,
        volume_min: Vec3,
        volume_max: Vec3,
    ) -> (px: [u8; 4])
        requires
            ray.wf(),
            has_extent(*volume),
            volume_min.in_world(),
            volume_max.in_world(),
        ensures
            pixel_is(px, spec_cast_2d(*volume, *ray, volume_min, volume_max)),
    {
        match ray.intersect_box(&volume_min, &volume_max) {
            Some((t_min, t_max)) => {
                let mid: i64 = floor_div(t_min as i128 + t_max as i128, 2) as i64;
                match sample_at(volume, ray, mid) {
                    Some(value) => {
                        let normalized: i64 = volume.get_normalized_value(value);
                        let color: [i64; 4] = transfer_func.get_color(normalized);
                        [to_byte(color[0]), to_byte(color[1]), to_byte(color[2]), 255]
                    },
                    None => [0, 0, 0, 0],
                }
            },
            None => [0, 0, 0, 0],
        }
    }

    /// The pixel of a volume for one ray.
    pub fn cast_ray_3d(
        &self,
        ray: &Ray,
        volume: &VolumeData,
        transfer_func: &TransferFunction,
        volume_min: Vec3,
        volume_max: Vec3,
    ) -> (px: [u8; 4])
        requires
            0 < self.ray_step * 10 <= ONE,
            ray.wf(),
            has_extent(*volume),
            transfer_func.wf(),
            table_in_range(transfer_func@),
            volume_min.in_world(),
            volume_max.in_world(),
        ensures
            pixel_is(
                px,
                spec_cast_3d(
                    *volume,
                    transfer_func@,
                    *ray,
                    self.ray_step as int,
                    volume_min,
                    volume_max,
                ),
            ),
    {
        match ray.intersect_box(&volume_min, &volume_max) {
            Some((t_min, t_max)) => {
                let step: i64 = self.ray_step;
                let mut acc: [i64; 4] = [0, 0, 0, 0];
                let mut t: i64 = t_min;
                while t < t_max && acc[3] < ALPHA_CUTOFF
                    invariant
                        -T_LIMIT <= t_min <= t,
                        t_max <= T_LIMIT,
                        t <= T_LIMIT + ONE,
                        0 < step * 10 <= ONE,
                        ray.wf(),
                        has_extent(*volume),
                        transfer_func.wf(),
                        table_in_range(transfer_func@),
                        accum_in_range(accum_of(acc)),
                        spec_march(
                            *volume,
                            transfer_func@,
                            *ray,
                            step as int,
                            t as int,
                            t_max as int,
                            accum_of(acc),
                        ) == spec_march(
                            *volume,
                            transfer_func@,
                            *ray,
                            step as int,
                            t_min as int,
                            t_max as int,
                            (0, 0, 0, 0),
                        ),
                    decreases
                        (if t < t_max {
                            t_max - t
                        } else {
                            0
                        }),
                {
                    match sample_at(volume, ray, t) {
                        Some(value) => {
                            let normalized: i64 = volume.get_normalized_value(value);
                            let sample: [i64; 4] = transfer_func.get_color_3d(normalized);
                            acc = composite(acc, sample, step);
                        },
                        None => {},
                    }
                    t = t + step;
                }
                let boosted: i64 = if acc[3] * 5 > ONE {
                    ONE
                } else {
                    acc[3] * 5
                };
                [to_byte(acc[0]), to_byte(acc[1]), to_byte(acc[2]), to_byte(boosted)]
            },
            None => [0, 0, 0, 0],
        }
    }

    /// The pixel (x, y) of the image of a volume.
    pub fn shade(
        &self,
        x: usize,
        y: usize,
        volume: &VolumeData,
        inv_view_proj: &Mat4,
        transfer_func: &TransferFunction,
    ) -> (px: [u8; 4])
        requires
            0 < self.ray_step * 10 <= ONE,
            x < self.width,
            y < self.height,
            inv_view_proj.wf(),
            transfer_func.wf(),
            volume.dimensions.2 != 1 ==> table_in_range(transfer_func@),
        ensures
            pixel_is(
                px,
                spec_pixel(
                    *volume,
                    transfer_func@,
                    self.ray_step as int,
                    *inv_view_proj,
                    self.width as int,
                    self.height as int,
                    x as int,
                    y as int,
                ),
            ),
    {
        let (w, h, d): (usize, usize, usize) = volume.dimensions;
        if w == 0 || h == 0 || d == 0 {
            return [0, 0, 0, 0];
        }
        let (volume_min, volume_max): (Vec3, Vec3) = volume_box(volume);
        match self.generate_ray(x, y, inv_view_proj) {
            Some(ray) => {
                if d == 1 {
                    self.cast_ray_2d(&ray, volume, transfer_func, volume_min, volume_max)
                } else {
                    self.cast_ray_3d(&ray, volume, transfer_func, volume_min, volume_max)
                }
            },
            None => [0, 0, 0, 0],
        }
    }

    /// Paints the whole framebuffer anew: every pixel is what `spec_pixel`
    /// says of the volume, the transfer function and the inverse of the
    /// camera's view and projection. Nothing of the earlier frame is left.
    pub fn render(
        &mut self,
        volume: &VolumeData,
        inv_view_proj: &Mat4,
        transfer_func: &TransferFunction,
    )
        requires
            old(self).wf(),
            inv_view_proj.wf(),
            transfer_func.wf(),
            volume.dimensions.2 != 1 ==> table_in_range(transfer_func@),
        ensures
            final(self).wf(),
            final(self).width == old(self).width,
            final(self).height == old(self).height,
            final(self).ray_step == old(self).ray_step,
            forall|x: int, y: int|
                0 <= x < old(self).width && 0 <= y < old(self).height ==> #[trigger] pixel_at(
                    final(self).framebuffer@,
                    old(self).width as int,
                    x,
                    y,
                ) == spec_pixel(
                    *volume,
                    transfer_func@,
                    old(self).ray_step as int,
                    *inv_view_proj,
                    old(self).width as int,
                    old(self).height as int,
                    x,
                    y,
                ),
    {
        let width: usize = self.width;
        let height: usize = self.height;
        let mut y: usize = 0;
        while y < height
            invariant
                y <= height,
                self.wf(),
                self.width == width,
                self.height == height,
                self.ray_step == old(self).ray_step,
                inv_view_proj.wf(),
                transfer_func.wf(),
                volume.dimensions.2 != 1 ==> table_in_range(transfer_func@),
                forall|i: int, j: int|
                    0 <= i < width && 0 <= j < y ==> #[trigger] pixel_at(
                        self.framebuffer@,
                        width as int,
                        i,
                        j,
                    ) == spec_pixel(
                        *volume,
                        transfer_func@,
                        self.ray_step as int,
                        *inv_view_proj,
                        width as int,
                        height as int,
                        i,
                        j,
                    ),
            decreases height - y,
        {
            let mut x: usize = 0;
            while x < width
                invariant
                    x <= width,
                    y < height,
                    self.wf(),
                    self.width == width,
                    self.height == height,
                    self.ray_step == old(self).ray_step,
                    inv_view_proj.wf(),
                    transfer_func.wf(),
                    volume.dimensions.2 != 1 ==> table_in_range(transfer_func@),
                    forall|i: int, j: int|
                        0 <= i < width && 0 <= j < y ==> #[trigger] pixel_at(
                            self.framebuffer@,
                            width as int,
                            i,
                            j,
                        ) == spec_pixel(
                            *volume,
                            transfer_func@,
                            self.ray_step as int,
                            *inv_view_proj,
                            width as int,
                            height as int,
                            i,
                            j,
                        ),
                    forall|i: int|
                        0 <= i < x ==> #[trigger] pixel_at(
                            self.framebuffer@,
                            width as int,
                            i,
                            y as int,
                        ) == spec_pixel(
                            *volume,
                            transfer_func@,
                            self.ray_step as int,
                            *inv_view_proj,
                            width as int,
                            height as int,
                            i,
                            y as int,
                        ),
                decreases width - x,
            {
                let px: [u8; 4] = self.shade(x, y, volume, inv_view_proj, transfer_func);
                let len: usize = self.framebuffer.len();
                proof {
                    lemma_pixel_in_frame(width as int, height as int, x as int, y as int);
                }
                let base: usize = (y * width + x) * 4;
                let ghost before = self.framebuffer@;
                self.framebuffer[base] = px[0];
                self.framebuffer[base + 1] = px[1];
                self.framebuffer[base + 2] = px[2];
                self.framebuffer[base + 3] = px[3];
                proof {
                    let now = self.framebuffer@;
                    assert forall|i: int, j: int|
                        0 <= i < width && 0 <= j < y implies #[trigger] pixel_at(
                        now,
                        width as int,
                        i,
                        j,
                    ) == pixel_at(before, width as int, i, j) by {
                        lemma_pixels_apart(width as int, i, j, x as int, y as int);
                    }
                    assert forall|i: int| 0 <= i < x implies #[trigger] pixel_at(
                        now,
                        width as int,
                        i,
                        y as int,
                    ) == pixel_at(before, width as int, i, y as int) by {
                        lemma_pixels_apart(width as int, i, y as int, x as int, y as int);
                    }
                    assert(pixel_at(now, width as int, x as int, y as int) == (
                        px[0] as int,
                        px[1] as int,
                        px[2] as int,
                        px[3] as int,
                    ));
                }
                x += 1;
            }
            y += 1;
        }
    }
}

/// The four bytes of a pixel of the image lie in the framebuffer.
proof fn lemma_pixel_in_frame(width: int, height: int, x: int, y: int)
    requires
        0 <= x < width,
        0 <= y < height,
    ensures
        0 <= y * width + x < width * height,
        0 <= (y * width + x) * 4,
        (y * width + x) * 4 + 4 <= width * height * 4,
{
    assert(0 <= y * width && y * width + width <= width * height) by (nonlinear_arith)
        requires
            0 <= y < height,
            0 < width,
    ;
}

/// Two different pixels before one another in the order of the rows lie
/// four bytes apart or more.
proof fn lemma_pixels_apart(width: int, i: int, j: int, x: int, y: int)
    requires
        0 <= i < width,
        0 <= x < width,
        0 <= j,
        j < y || (j == y && i < x),
    ensures
        0 <= (j * width + i) * 4,
        (j * width + i) * 4 + 4 <= (y * width + x) * 4,
{
    if j < y {
        assert(0 <= j * width && j * width + width <= y * width) by (nonlinear_arith)
            requires
                0 <= j < y,
                0 < width,
        ;
    } else {
        assert(0 <= j * width) by (nonlinear_arith)
            requires
                0 <= j,
                0 < width,
        ;
    }
}

} // verus!
