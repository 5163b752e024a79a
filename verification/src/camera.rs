//! The orbiting camera: a target, the two angles and the distance from
//! which the target is seen, and the frustum.
//!
//! The camera holds what its controls decide. Where the eye stands, and
//! which way is up, follows from the target, the distance and the angles by
//! a rotation, and is worked out where the matrices are made.

use vstd::prelude::*;
use crate::fixed::{
    abs_int, floor_div, floor_ratio, lemma_floor_ratio_scaled, lemma_mul_bound, lemma_scale_bound,
    wide_mul, ONE,
};
use crate::geometry::{
    cross, direction_between, normalize, spec_cross, spec_unit, spec_unit_between, triple_to_vec,
    Pose, Triple, Vec3,
};

verus! {

/// A full turn, 2 pi, to the nearest unit.
pub const TWO_PI: i64 = 411_768_549;

/// An eighth of a turn, pi / 4, to the nearest unit: the pitch and the
/// field of view of a new camera.
pub const QUARTER_PI: i64 = 51_471_069;

/// The near plane of a new camera: 0.1.
pub const DEFAULT_NEAR: i64 = 6_553_500;

/// The far plane of a new camera: 100.
pub const DEFAULT_FAR: i64 = 6_553_500_000;

/// The distance of a new camera from its target: 5.
pub const DEFAULT_DISTANCE: i64 = 327_675_000;

/// The part of the distance by which a pan of 1 moves the target: a
/// thousandth.
pub const PAN_DIVISOR: i64 = 1000;

/// The state of the camera.
#[derive(Clone, Copy, Debug, PartialEq, Eq)]
pub struct Camera {
    pub target: Vec3,
    pub fov: i64,
    pub near: i64,
    pub far: i64,
    /// Yaw and pitch.
    pub orbit_angles: (i64, i64),
    pub distance: i64,
}

/// An angle brought towards the range from 0 up to, and without, a full
/// turn by one step: a full turn is added to a negative angle and taken from
/// one of a full turn or more. An angle further off stays outside.
pub open spec fn wrap_once(angle: int) -> int {
    if angle < 0 {
        angle + TWO_PI
    } else if angle >= TWO_PI {
        angle - TWO_PI
    } else {
        angle
    }
}

/// The distance after a zoom by `delta`: the distance times `1 + delta`,
/// rounded down, and not below twice the near plane.
pub open spec fn zoomed(distance: int, near: int, delta: int) -> int {
    let scaled = floor_ratio(distance * (ONE + delta), ONE as int);
    if scaled < 2 * near {
        2 * near
    } else {
        scaled
    }
}

/// The length by which a pan of `delta` moves the target along one of the
/// camera's axes: `delta` times the distance, by the thousandth.
pub open spec fn pan_amount(delta: int, distance: int) -> int {
    floor_ratio(delta * distance, PAN_DIVISOR * ONE)
}

/// The camera's own axes to the right and up, as unit vectors: with
/// `forward` the direction from the eye to the target, right is
/// `forward x up` and up is `right x forward`, each scaled to unit length.
///
/// There are none where the eye or the target lies outside the world, where
/// the given up is longer than a unit along an axis, and where one of the
/// three directions does not exist: with the eye at the target, or looking
/// straight along the given up.
pub open spec fn spec_camera_axes(target: Vec3, pose: Pose) -> Option<(Vec3, Vec3)> {
    if !(target.in_world() && pose.position.in_world() && pose.up.within(ONE as int)) {
        None
    } else {
        match spec_unit_between(pose.position, target) {
            Some(forward) => match spec_unit(triple_to_vec(spec_cross(forward, pose.up))) {
                Some(right) => match spec_unit(triple_to_vec(spec_cross(right, forward))) {
                    Some(up) => Some((right, up)),
                    None => None,
                },
                None => None,
            },
            None => None,
        }
    }
}

/// The camera's own axes to the right and up.
pub fn camera_axes(target: &Vec3, pose: &Pose) -> (r: Option<(Vec3, Vec3)>)
    ensures
        r == spec_camera_axes(*target, *pose),
        r matches Some(axes) ==> axes.0.within(ONE as int) && axes.1.within(ONE as int),
{
    if !(target.check_in_world() && pose.position.check_in_world() && pose.up.check_within(ONE)) {
        return None;
    }
    let forward: Vec3 = match direction_between(&pose.position, target) {
        Some(forward) => forward,
        None => {
            return None;
        },
    };
    let sideways: Vec3 = cross(&forward, &pose.up);
    let right: Vec3 = match normalize(&sideways) {
        Some(right) => right,
        None => {
            return None;
        },
    };
    let upwards: Vec3 = cross(&right, &forward);
    match normalize(&upwards) {
        Some(up) => Some((right, up)),
        None => None,
    }
}

/// The move of the target by a pan: along `right` by the amount of the
/// first delta and along `up` by the amount of the second.
pub open spec fn pan_shift(delta: (i64, i64), distance: int, right: Vec3, up: Vec3) -> Triple {
    let ax = pan_amount(delta.0 as int, distance);
    let ay = pan_amount(delta.1 as int, distance);
    (
        floor_ratio(right.x * ax, ONE as int) + floor_ratio(up.x * ay, ONE as int),
        floor_ratio(right.y * ax, ONE as int) + floor_ratio(up.y * ay, ONE as int),
        floor_ratio(right.z * ax, ONE as int) + floor_ratio(up.z * ay, ONE as int),
    )
}

/// One wrap brings an angle into the range from 0 up to a full turn exactly
/// when it is less than a full turn off: a yaw in range stays in range under
/// every change of at most a full turn, and a larger change can leave it
/// outside.
pub proof fn lemma_wrap_once_range(angle: int)
    ensures
        0 <= wrap_once(angle) < TWO_PI <==> -TWO_PI <= angle < 2 * TWO_PI,
{
}

/// A yaw in range stays in range under a change of at most a full turn.
pub proof fn lemma_orbit_keeps_yaw(yaw: int, delta: int)
    requires
        0 <= yaw < TWO_PI,
        -TWO_PI <= delta <= TWO_PI,
    ensures
        0 <= wrap_once(yaw + delta) < TWO_PI,
{
}

/// Whatever the zoom, the distance does not fall below twice the near
/// plane.
pub proof fn lemma_zoom_floor(distance: int, near: int, delta: int)
    ensures
        zoomed(distance, near, delta) >= 2 * near,
{
}

impl Default for Camera {
    /// The camera as it is created: it looks at the origin from a distance
    /// of 5, at a yaw of 0 and a pitch of an eighth of a turn.
    fn default() -> (c: Self)
        ensures
            c.is_default(),
            c.wf(),
    {
        Camera {
            target: Vec3 { x: 0, y: 0, z: 0 },
            fov: QUARTER_PI,
            near: DEFAULT_NEAR,
            far: DEFAULT_FAR,
            orbit_angles: (0, QUARTER_PI),
            distance: DEFAULT_DISTANCE,
        }
    }
}

impl Camera {
    /// The near plane lies before the eye and the eye at least twice as far
    /// from the target.
    pub open spec fn wf(self) -> bool {
        &&& 0 < self.near
        &&& 2 * self.near <= self.distance
    }

    /// The camera is as it is created.
    pub open spec fn is_default(self) -> bool {
        &&& self.target == Vec3 { x: 0, y: 0, z: 0 }
        &&& self.fov == QUARTER_PI
        &&& self.near == DEFAULT_NEAR
        &&& self.far == DEFAULT_FAR
        &&& self.orbit_angles == (0i64, QUARTER_PI)
        &&& self.distance == DEFAULT_DISTANCE
    }

    /// The angles after an orbit by the given changes fit the machine.
    pub open spec fn orbit_fits(self, delta_theta: i64, delta_phi: i64) -> bool {
        &&& i64::MIN <= self.orbit_angles.0 + delta_theta <= i64::MAX
        &&& i64::MIN <= self.orbit_angles.1 + delta_phi <= i64::MAX
    }

    /// The distance after a zoom by `delta` fits the machine.
    pub open spec fn zoom_fits(self, delta: i64) -> bool {
        zoomed(self.distance as int, self.near as int, delta as int) <= i64::MAX
    }

    /// The camera has its own axes in the given pose, and the target after
    /// a pan by `delta` along them fits the machine.
    pub open spec fn pan_fits(self, delta: (i64, i64), pose: Pose) -> bool {
        match spec_camera_axes(self.target, pose) {
            Some((right, up)) => {
                let shift = pan_shift(delta, self.distance as int, right, up);
                &&& i64::MIN <= self.target.x + shift.0 <= i64::MAX
                &&& i64::MIN <= self.target.y + shift.1 <= i64::MAX
                &&& i64::MIN <= self.target.z + shift.2 <= i64::MAX
            },
            None => false,
        }
    }

    /// Whether the angles after an orbit fit the machine.
    pub fn can_orbit(&self, delta_theta: i64, delta_phi: i64) -> (r: bool)
        ensures
            r == self.orbit_fits(delta_theta, delta_phi),
    {
        self.orbit_angles.0.checked_add(delta_theta).is_some() && self.orbit_angles.1.checked_add(
            delta_phi,
        ).is_some()
    }

    /// Turns the camera about its target: the changes are added to yaw and
    /// pitch. The pitch is not limited. The yaw is wrapped once.
    pub fn orbit(&mut self, delta_theta: i64, delta_phi: i64)
        requires
            old(self).orbit_fits(delta_theta, delta_phi),
        ensures
            final(self).orbit_angles.0 == wrap_once(old(self).orbit_angles.0 + delta_theta),
            final(self).orbit_angles.1 == old(self).orbit_angles.1 + delta_phi,
            final(self).target == old(self).target,
            final(self).distance == old(self).distance,
            final(self).fov == old(self).fov,
            final(self).near == old(self).near,
            final(self).far == old(self).far,
            final(self).wf() == old(self).wf(),
    {
        let yaw: i64 = self.orbit_angles.0 + delta_theta;
        let pitch: i64 = self.orbit_angles.1 + delta_phi;
        let wrapped: i64 = if yaw < 0 {
            yaw + TWO_PI
        } else if yaw >= TWO_PI {
            yaw - TWO_PI
        } else {
            yaw
        };
        self.orbit_angles = (wrapped, pitch);
    }

    /// The distance after a zoom by `delta`, before it is held to the
    /// machine's range.
    fn zoomed_distance(&self, delta: i64) -> (d: i128)
        requires
            self.wf(),
        ensures
            d == zoomed(self.distance as int, self.near as int, delta as int),
            d >= 2 * self.near,
    {
        let factor: i128 = ONE as i128 + delta as i128;
        proof {
            lemma_mul_bound(
                self.distance as int,
                factor as int,
                0x8000_0000_0000_0000,
                0x8000_0000_1000_0000,
            );
        }
        let scaled: i128 = floor_div((self.distance as i128) * factor, ONE as i128);
        let floor: i128 = 2 * (self.near as i128);
        if scaled < floor {
            floor
        } else {
            scaled
        }
    }

    /// Whether the distance after a zoom fits the machine.
    pub fn can_zoom(&self, delta: i64) -> (r: bool)
        requires
            self.wf(),
        ensures
            r == self.zoom_fits(delta),
    {
        self.zoomed_distance(delta) <= i64::MAX as i128
    }

    /// Moves the camera towards its target or away from it: the distance
    /// is multiplied by `1 + delta` and held at twice the near plane or
    /// more.
    pub fn zoom(&mut self, delta: i64)
        requires
            old(self).wf(),
            old(self).zoom_fits(delta),
        ensures
            final(self).distance == zoomed(
                old(self).distance as int,
                old(self).near as int,
                delta as int,
            ),
            final(self).distance >= 2 * final(self).near,
            final(self).wf(),
            final(self).target == old(self).target,
            final(self).orbit_angles == old(self).orbit_angles,
            final(self).fov == old(self).fov,
            final(self).near == old(self).near,
            final(self).far == old(self).far,
    {
        let d: i128 = self.zoomed_distance(delta);
        self.distance = d as i64;
    }

    /// The move of the target by a pan, before it is held to the machine's
    /// range.
    fn shift_of(&self, delta: (i64, i64), right: &Vec3, up: &Vec3) -> (s: (i128, i128, i128))
        requires
            right.within(ONE as int),
            up.within(ONE as int),
        ensures
            (s.0 as int, s.1 as int, s.2 as int) == pan_shift(
                delta,
                self.distance as int,
                *right,
                *up,
            ),
            -0x1_0000_0000_0000_0000_0000_0000 <= s.0 <= 0x1_0000_0000_0000_0000_0000_0000,
            -0x1_0000_0000_0000_0000_0000_0000 <= s.1 <= 0x1_0000_0000_0000_0000_0000_0000,
            -0x1_0000_0000_0000_0000_0000_0000 <= s.2 <= 0x1_0000_0000_0000_0000_0000_0000,
    {
        let unit: i128 = (PAN_DIVISOR as i128) * (ONE as i128);
        let one: i128 = ONE as i128;
        proof {
            let big: int = 0x8000_0000_0000_0000;
            let amount: int = 0x4000_0000_0000_0000_0000_0000;
            lemma_mul_bound(delta.0 as int, self.distance as int, big, big);
            lemma_mul_bound(delta.1 as int, self.distance as int, big, big);
            assert(unit == 65_535_000_000 && PAN_DIVISOR * ONE == 65_535_000_000)
                by (nonlinear_arith)
                requires
                    unit == PAN_DIVISOR * ONE,
                    PAN_DIVISOR == 1000,
                    ONE == 65_535_000,
            ;
            assert(big * big <= amount * abs_int(unit as int)) by (nonlinear_arith)
                requires
                    big == 0x8000_0000_0000_0000,
                    amount == 0x4000_0000_0000_0000_0000_0000,
                    abs_int(unit as int) == 65_535_000_000,
            ;
            lemma_floor_ratio_scaled(delta.0 * self.distance, unit as int, amount);
            lemma_floor_ratio_scaled(delta.1 * self.distance, unit as int, amount);
        }
        let ax: i128 = floor_div(wide_mul(delta.0, self.distance), unit);
        let ay: i128 = floor_div(wide_mul(delta.1, self.distance), unit);
        proof {
            let amount: int = 0x4000_0000_0000_0000_0000_0000;
            lemma_scale_bound(right.x as int, ax as int, amount);
            lemma_scale_bound(right.y as int, ax as int, amount);
            lemma_scale_bound(right.z as int, ax as int, amount);
            lemma_scale_bound(up.x as int, ay as int, amount);
            lemma_scale_bound(up.y as int, ay as int, amount);
            lemma_scale_bound(up.z as int, ay as int, amount);
            lemma_mul_bound(right.x as int, ax as int, one as int, amount);
            lemma_mul_bound(right.y as int, ax as int, one as int, amount);
            lemma_mul_bound(right.z as int, ax as int, one as int, amount);
            lemma_mul_bound(up.x as int, ay as int, one as int, amount);
            lemma_mul_bound(up.y as int, ay as int, one as int, amount);
            lemma_mul_bound(up.z as int, ay as int, one as int, amount);
        }
        (
            floor_div((right.x as i128) * ax, one) + floor_div((up.x as i128) * ay, one),
            floor_div((right.y as i128) * ax, one) + floor_div((up.y as i128) * ay, one),
            floor_div((right.z as i128) * ax, one) + floor_div((up.z as i128) * ay, one),
        )
    }

    /// Whether the camera has its own axes in the given pose and the target
    /// after a pan fits the machine.
    pub fn can_pan(&self, delta: (i64, i64), pose: &Pose) -> (r: bool)
        ensures
            r == self.pan_fits(delta, *pose),
    {
        match camera_axes(&self.target, pose) {
            Some((right, up)) => {
                let (sx, sy, sz): (i128, i128, i128) = self.shift_of(delta, &right, &up);
                let x: i128 = self.target.x as i128 + sx;
                let y: i128 = self.target.y as i128 + sy;
                let z: i128 = self.target.z as i128 + sz;
                let lo: i128 = i64::MIN as i128;
                let hi: i128 = i64::MAX as i128;
                lo <= x && x <= hi && lo <= y && y <= hi && lo <= z && z <= hi
            },
            None => false,
        }
    }

    /// Moves the target across the view: by the first delta along the
    /// camera's right and by the second along its up, each by the
    /// thousandth of the distance. `pose` is where the eye stands and which
    /// way is up for it, as the present target, distance and angles place
    /// it; the camera's own axes follow from it as `spec_camera_axes` says.
    /// The angles and the distance stay, so that the camera then turns about
    /// the new target.
    pub fn pan(&mut self, delta: (i64, i64), pose: &Pose)
        requires
            old(self).pan_fits(delta, *pose),
        ensures
            spec_camera_axes(old(self).target, *pose) matches Some((right, up)) && (
                final(self).target.x - old(self).target.x,
                final(self).target.y - old(self).target.y,
                final(self).target.z - old(self).target.z,
            ) == pan_shift(delta, old(self).distance as int, right, up),
            final(self).orbit_angles == old(self).orbit_angles,
            final(self).distance == old(self).distance,
            final(self).fov == old(self).fov,
            final(self).near == old(self).near,
            final(self).far == old(self).far,
            final(self).wf() == old(self).wf(),
    {
        match camera_axes(&self.target, pose) {
            Some((right, up)) => {
                let (sx, sy, sz): (i128, i128, i128) = self.shift_of(delta, &right, &up);
                self.target = Vec3 {
                    x: (self.target.x as i128 + sx) as i64,
                    y: (self.target.y as i128 + sy) as i64,
                    z: (self.target.z as i128 + sz) as i64,
                };
            },
            None => {},
        }
    }

    /// Puts the camera back as it was created.
    pub fn reset(&mut self)
        ensures
            final(self).is_default(),
            final(self).wf(),
    {
        self.target = Vec3 { x: 0, y: 0, z: 0 };
        self.fov = QUARTER_PI;
        self.near = DEFAULT_NEAR;
        self.far = DEFAULT_FAR;
        self.orbit_angles = (0, QUARTER_PI);
        self.distance = DEFAULT_DISTANCE;
    }
}

} // verus!
