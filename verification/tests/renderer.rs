use volume_viewer::camera::Camera;
use volume_viewer::fixed::{HALF, MAX_COORD, ONE};
use volume_viewer::geometry::{direction_between, Mat4, Vec3};
use volume_viewer::renderer::{
    composite, sample_at, to_byte, volume_box, Ray, VolumeRenderer, ALPHA_CUTOFF, RAY_STEP,
    T_LIMIT,
};
use volume_viewer::transfer_function::TransferFunction;
use volume_viewer::volume::VolumeData;

const BOX_MIN: Vec3 = Vec3 { x: -HALF, y: -HALF, z: -HALF };
const BOX_MAX: Vec3 = Vec3 { x: HALF, y: HALF, z: HALF };

fn vec3(x: i64, y: i64, z: i64) -> Vec3 {
    Vec3 { x, y, z }
}

fn ray(origin: Vec3, direction: Vec3) -> Ray {
    Ray { origin, direction }
}

fn to_fixed(v: f64) -> i64 {
    (v * ONE as f64).round() as i64
}

fn to_float(v: i64) -> f64 {
    v as f64 / ONE as f64
}

/// The view and projection of the camera and their inverse, by the
/// rotation of yaw about z after pitch about y.
fn camera_matrices(camera: &Camera, aspect: f64) -> (nalgebra::Matrix4<f64>, nalgebra::Matrix4<f64>) {
    let rotation = nalgebra::UnitQuaternion::from_euler_angles(
        0.0,
        to_float(camera.orbit_angles.1),
        to_float(camera.orbit_angles.0),
    );
    let target = nalgebra::Point3::new(
        to_float(camera.target.x),
        to_float(camera.target.y),
        to_float(camera.target.z),
    );
    let eye = target + rotation * nalgebra::Vector3::new(0.0, 0.0, to_float(camera.distance));
    let up = rotation * nalgebra::Vector3::new(0.0, 1.0, 0.0);
    let view = nalgebra::Matrix4::look_at_rh(&eye, &target, &up);
    let projection = nalgebra::Matrix4::new_perspective(
        aspect,
        to_float(camera.fov),
        to_float(camera.near),
        to_float(camera.far),
    );
    let view_projection = projection * view;
    (view_projection, view_projection.try_inverse().unwrap())
}

fn fixed_matrix(m: &nalgebra::Matrix4<f64>) -> Mat4 {
    let mut out = [[0i64; 4]; 4];
    for r in 0..4 {
        for c in 0..4 {
            out[r][c] = to_fixed(m[(r, c)]);
        }
    }
    Mat4 { m: out }
}

fn uniform_volume(width: usize, height: usize, depth: usize, fill: u16) -> VolumeData {
    VolumeData {
        raw_data: vec![fill; width * height * depth],
        dimensions: (width, height, depth),
        value_range: (0, 255),
    }
}

#[test]
fn constants_of_the_march() {
    assert_eq!(RAY_STEP * 200, ONE);
    assert_eq!(ALPHA_CUTOFF * 100, 99 * ONE);
    assert_eq!(T_LIMIT, 4 * MAX_COORD);
}

#[test]
fn a_ray_needs_an_origin_in_the_world_and_a_direction() {
    assert_eq!(Ray::new(vec3(1, 2, 3), vec3(0, 0, ONE)), Some(ray(vec3(1, 2, 3), vec3(0, 0, ONE))));
    assert!(Ray::new(vec3(MAX_COORD, -MAX_COORD, 0), vec3(-HALF, 0, 0)).is_some());
    assert!(Ray::new(vec3(0, 0, 0), vec3(37_836_649, 37_836_649, 37_836_649)).is_some());
    assert_eq!(Ray::new(vec3(MAX_COORD + 1, 0, 0), vec3(0, 0, ONE)), None);
    assert_eq!(Ray::new(vec3(0, 0, -MAX_COORD - 1), vec3(0, 0, ONE)), None);
    assert_eq!(Ray::new(vec3(0, 0, 0), vec3(0, 0, 0)), None);
    assert_eq!(Ray::new(vec3(0, 0, 0), vec3(HALF - 1, HALF - 1, -HALF + 1)), None);
    assert_eq!(Ray::new(vec3(0, 0, 0), vec3(0, ONE + 1, 0)), None);
}

#[test]
fn ray_at_moves_along_the_direction() {
    let r = ray(vec3(ONE, -ONE, 0), vec3(39_321_000, 0, -52_428_000));
    assert_eq!(r.at(0), vec3(ONE, -ONE, 0));
    assert_eq!(r.at(ONE), vec3(ONE + 39_321_000, -ONE, -52_428_000));
    assert_eq!(r.at(-ONE), vec3(ONE - 39_321_000, -ONE, 52_428_000));
    assert_eq!(r.at(10 * ONE), vec3(ONE + 393_210_000, -ONE, -524_280_000));
    // each product is rounded down
    assert_eq!(r.at(1), vec3(ONE, -ONE, -1));
    assert_eq!(r.at(-1), vec3(ONE - 1, -ONE, 0));
}

#[test]
fn ray_along_an_axis_towards_the_centre_hits() {
    let cases = [
        (vec3(0, 0, 5 * ONE), vec3(0, 0, -ONE)),
        (vec3(0, 0, -5 * ONE), vec3(0, 0, ONE)),
        (vec3(5 * ONE, 0, 0), vec3(-ONE, 0, 0)),
        (vec3(-5 * ONE, 0, 0), vec3(ONE, 0, 0)),
        (vec3(0, 5 * ONE, 0), vec3(0, -ONE, 0)),
        (vec3(0, -5 * ONE, 0), vec3(0, ONE, 0)),
    ];
    for (origin, direction) in cases {
        let hit = ray(origin, direction).intersect_box(&BOX_MIN, &BOX_MAX);
        assert_eq!(hit, Some((294_907_500, 360_442_500)));
        let (t_min, t_max) = hit.unwrap();
        assert!(t_min < t_max);
        assert_eq!(t_max - t_min, ONE);
    }
}

#[test]
fn ray_beside_the_box_misses() {
    // parallel to an axis, outside the slab of another one
    assert_eq!(ray(vec3(0, 0, 5 * ONE), vec3(ONE, 0, 0)).intersect_box(&BOX_MIN, &BOX_MAX), None);
    assert_eq!(ray(vec3(0, 0, 5 * ONE), vec3(-ONE, 0, 0)).intersect_box(&BOX_MIN, &BOX_MAX), None);
    assert_eq!(ray(vec3(0, 0, 5 * ONE), vec3(0, ONE, 0)).intersect_box(&BOX_MIN, &BOX_MAX), None);
    assert_eq!(ray(vec3(HALF + 1, 0, 5 * ONE), vec3(0, 0, -ONE)).intersect_box(&BOX_MIN, &BOX_MAX), None);
    assert_eq!(ray(vec3(0, -HALF - 1, 5 * ONE), vec3(0, 0, -ONE)).intersect_box(&BOX_MIN, &BOX_MAX), None);
}

#[test]
fn ray_on_a_face_of_the_box_hits() {
    let hit = ray(vec3(HALF, -HALF, 5 * ONE), vec3(0, 0, -ONE)).intersect_box(&BOX_MIN, &BOX_MAX);
    assert_eq!(hit, Some((294_907_500, 360_442_500)));
}

#[test]
fn ray_aimed_past_the_box_misses() {
    // from the side, at an angle that leaves the x slab before it enters the z slab
    let r = ray(vec3(-ONE, 0, 5 * ONE), vec3(39_321_000, 0, -52_428_000));
    assert_eq!(r.intersect_box(&BOX_MIN, &BOX_MAX), None);
    // in a plane beside the box
    let r = ray(vec3(-ONE, 3 * ONE, ONE), vec3(39_321_000, 52_428_000, 0));
    assert_eq!(r.intersect_box(&BOX_MIN, &BOX_MAX), None);
    let r = ray(vec3(-ONE, 3 * ONE, ONE), vec3(-39_321_000, -52_428_000, 0));
    assert_eq!(r.intersect_box(&BOX_MIN, &BOX_MAX), None);
}

#[test]
fn slanted_ray_enters_last_and_leaves_first() {
    let r = ray(vec3(-ONE, 0, ONE), vec3(39_321_000, 0, -52_428_000));
    assert_eq!(r.intersect_box(&BOX_MIN, &BOX_MAX), Some((54_612_500, 122_878_125)));
}

#[test]
fn the_stretch_lies_in_the_box() {
    let rays = [
        ray(vec3(-ONE, 0, ONE), vec3(39_321_000, 0, -52_428_000)),
        ray(vec3(-2 * ONE, -2 * ONE, -2 * ONE), vec3(37_836_649, 37_836_649, 37_836_649)),
        ray(vec3(3 * ONE, ONE / 4, -ONE / 3), vec3(-ONE + 7, -5_000_000, 6_000_000)),
        ray(vec3(ONE / 7, -ONE / 9, 4 * ONE), vec3(-1_000_000, 1, -ONE)),
    ];
    for r in rays {
        let (t_min, t_max) = r.intersect_box(&BOX_MIN, &BOX_MAX).unwrap();
        let mut t = t_min;
        while t <= t_max {
            let p = r.at(t);
            for c in [p.x, p.y, p.z] {
                assert!(-HALF - 1 <= c && c <= HALF);
            }
            t += (t_max - t_min) / 97 + 1;
        }
        let p = r.at(t_max);
        for c in [p.x, p.y, p.z] {
            assert!(-HALF - 1 <= c && c <= HALF);
        }
    }
}

#[test]
fn diagonal_ray_through_the_centre_hits() {
    let d = direction_between(&vec3(-2 * ONE, -2 * ONE, -2 * ONE), &vec3(ONE, ONE, ONE)).unwrap();
    assert_eq!(d, vec3(37_836_649, 37_836_649, 37_836_649));
    let r = ray(vec3(-2 * ONE, -2 * ONE, -2 * ONE), d);
    assert_eq!(r.intersect_box(&BOX_MIN, &BOX_MAX), Some((170_264_928, 283_774_880)));
}

#[test]
fn ray_from_inside_the_box_begins_at_its_origin() {
    let hit = ray(vec3(0, 0, 0), vec3(0, 0, ONE)).intersect_box(&BOX_MIN, &BOX_MAX);
    assert_eq!(hit, Some((0, HALF)));
    let hit = ray(vec3(0, ONE / 4, 0), vec3(39_321_000, 0, -52_428_000)).intersect_box(&BOX_MIN, &BOX_MAX);
    assert_eq!(hit, Some((0, 40_959_375)));
    // from a face, inwards and outwards
    assert_eq!(ray(vec3(0, 0, HALF), vec3(0, 0, -ONE)).intersect_box(&BOX_MIN, &BOX_MAX), Some((0, ONE)));
    assert_eq!(ray(vec3(0, 0, HALF), vec3(0, 0, ONE)).intersect_box(&BOX_MIN, &BOX_MAX), None);
}

#[test]
fn ray_aimed_away_from_the_box_misses() {
    // the line of the ray passes through the box, which lies behind the origin
    let cases = [
        (vec3(0, 0, 5 * ONE), vec3(0, 0, ONE)),
        (vec3(0, 0, -5 * ONE), vec3(0, 0, -ONE)),
        (vec3(5 * ONE, 0, 0), vec3(ONE, 0, 0)),
        (vec3(-5 * ONE, 0, 0), vec3(-ONE, 0, 0)),
        (vec3(0, 5 * ONE, 0), vec3(0, ONE, 0)),
        (vec3(0, -5 * ONE, 0), vec3(0, -ONE, 0)),
        (vec3(-ONE, 0, ONE), vec3(-39_321_000, 0, 52_428_000)),
        (vec3(2 * ONE, 2 * ONE, 2 * ONE), vec3(37_836_649, 37_836_649, 37_836_649)),
    ];
    for (origin, direction) in cases {
        assert_eq!(ray(origin, direction).intersect_box(&BOX_MIN, &BOX_MAX), None);
    }
}

#[test]
fn a_box_behind_the_ray_is_not_painted() {
    let volume = uniform_volume(2, 2, 2, 255);
    let renderer = VolumeRenderer::new(1, 1);
    let tf = TransferFunction::default();
    let away = ray(vec3(0, 0, 2 * ONE), vec3(0, 0, ONE));
    assert_eq!(renderer.cast_ray_3d(&away, &volume, &tf, BOX_MIN, BOX_MAX), [0, 0, 0, 0]);
    assert_eq!(renderer.cast_ray_2d(&away, &volume, &tf, BOX_MIN, BOX_MAX), [0, 0, 0, 0]);
}

#[test]
fn a_box_without_inside_is_missed() {
    let flat_max = vec3(HALF, HALF, -HALF);
    assert_eq!(ray(vec3(0, 0, 5 * ONE), vec3(0, 0, -ONE)).intersect_box(&BOX_MIN, &flat_max), None);
    // corners the wrong way round
    assert_eq!(ray(vec3(0, 0, 5 * ONE), vec3(0, 0, -ONE)).intersect_box(&BOX_MAX, &BOX_MIN), None);
}

#[test]
fn intersection_agrees_with_the_floating_slab_method() {
    let origins = [vec3(3 * ONE, ONE / 4, -ONE / 3), vec3(-ONE, 2 * ONE, 5 * ONE), vec3(ONE / 10, 0, 4 * ONE)];
    let targets = [vec3(0, 0, 0), vec3(ONE / 4, -ONE / 4, ONE / 8), vec3(-HALF, HALF, 0), vec3(2 * ONE, 0, 0)];
    for origin in origins {
        for target in targets {
            let direction = direction_between(&origin, &target).unwrap();
            let got = ray(origin, direction).intersect_box(&BOX_MIN, &BOX_MAX);
            let o = [to_float(origin.x), to_float(origin.y), to_float(origin.z)];
            let d = [to_float(direction.x), to_float(direction.y), to_float(direction.z)];
            let mut t_min = 0.0f64;
            let mut t_max = f64::INFINITY;
            let mut hit = true;
            for i in 0..3 {
                let inv = 1.0 / d[i];
                let mut t0 = (-0.5 - o[i]) * inv;
                let mut t1 = (0.5 - o[i]) * inv;
                if inv < 0.0 {
                    std::mem::swap(&mut t0, &mut t1);
                }
                t_min = t_min.max(t0);
                t_max = t_max.min(t1);
                if t_max <= t_min {
                    hit = false;
                }
            }
            match got {
                Some((a, b)) => {
                    assert!(hit);
                    assert!((to_float(a) - t_min).abs() < 1e-6);
                    assert!((to_float(b) - t_max).abs() < 1e-6);
                }
                None => assert!(!hit || t_max - t_min < 1e-6),
            }
        }
    }
}

#[test]
fn direction_between_is_of_unit_length() {
    let d = direction_between(&vec3(0, 0, 0), &vec3(3 * ONE, 0, -4 * ONE)).unwrap();
    assert_eq!(d, vec3(39_321_000, 0, -52_428_000));
    let d = direction_between(&vec3(ONE, ONE, ONE), &vec3(ONE, ONE, 7)).unwrap();
    assert_eq!(d, vec3(0, 0, -ONE));
    assert_eq!(direction_between(&vec3(5, 5, 5), &vec3(5, 5, 5)), None);
    let d = direction_between(&vec3(-MAX_COORD, -MAX_COORD, -MAX_COORD), &vec3(MAX_COORD, MAX_COORD, MAX_COORD)).unwrap();
    let length = (to_float(d.x).powi(2) + to_float(d.y).powi(2) + to_float(d.z).powi(2)).sqrt();
    assert!((length - 1.0).abs() < 1e-6);
}

#[test]
fn to_byte_scales_and_limits() {
    assert_eq!(to_byte(0), 0);
    assert_eq!(to_byte(ONE), 255);
    assert_eq!(to_byte(ONE - 1), 254);
    assert_eq!(to_byte(257_000), 1);
    assert_eq!(to_byte(256_999), 0);
    assert_eq!(to_byte(128 * 257_000), 128);
    assert_eq!(to_byte(-1), 0);
    assert_eq!(to_byte(2 * ONE), 255);
    assert_eq!(to_byte(i64::MIN), 0);
    assert_eq!(to_byte(i64::MAX), 255);
}

#[test]
fn every_eight_bit_sample_shows_as_its_own_grey() {
    let volume = uniform_volume(1, 1, 1, 0);
    let tf = TransferFunction::default();
    for sample in 0..=255u16 {
        let color = tf.get_color(volume.get_normalized_value(sample));
        assert_eq!(to_byte(color[0]) as u16, sample);
    }
}

#[test]
fn composite_takes_a_share_of_the_remaining_light() {
    let first = composite([0, 0, 0, 0], [ONE, HALF, 0, ONE], RAY_STEP);
    assert_eq!(first, [3_276_750, 1_638_375, 0, 3_276_750]);
    let second = composite(first, [ONE, HALF, 0, ONE], RAY_STEP);
    assert_eq!(second, [6_389_662, 3_194_831, 0, 6_389_662]);
    assert_eq!(composite([0, 0, 0, 0], [ONE, ONE, ONE, HALF], RAY_STEP), [1_638_375; 4]);
    assert_eq!(
        composite([HALF, ONE / 4, 0, HALF], [ONE / 3, ONE, ONE / 5, ONE / 7], RAY_STEP),
        [32_845_517, 16_617_803, 46_810, 33_001_553]
    );
}

#[test]
fn composite_of_a_transparent_sample_changes_nothing() {
    let acc = [100, 200, 300, 400];
    assert_eq!(composite(acc, [ONE, ONE, ONE, 0], RAY_STEP), acc);
    assert_eq!(composite([ONE, ONE, ONE, ONE], [ONE, ONE, ONE, ONE], RAY_STEP), [ONE, ONE, ONE, ONE]);
}

#[test]
fn alpha_never_shrinks_and_never_exceeds_one() {
    let samples = [[ONE, ONE, ONE, ONE], [HALF, 0, ONE, HALF], [0, 0, 0, 0], [ONE, HALF, 1, 1], [7, 7, 7, ONE - 1]];
    let steps = [1, RAY_STEP, ONE / 10];
    for step in steps {
        let mut acc = [0i64; 4];
        for round in 0..2000 {
            let next = composite(acc, samples[round % samples.len()], step);
            assert!(next[3] >= acc[3]);
            assert!(next[3] <= ONE);
            for c in 0..3 {
                assert!(next[c] >= acc[c]);
                assert!(next[c] <= next[3]);
            }
            acc = next;
        }
    }
}

#[test]
fn volume_box_has_the_longest_side_of_unit_length() {
    assert_eq!(volume_box(&uniform_volume(2, 2, 2, 0)), (BOX_MIN, BOX_MAX));
    let (min, max) = volume_box(&uniform_volume(4, 4, 1, 0));
    assert_eq!(max, vec3(HALF, HALF, HALF / 4));
    assert_eq!(min, vec3(-HALF, -HALF, -HALF / 4));
    let (min, max) = volume_box(&uniform_volume(3, 6, 4, 0));
    assert_eq!(max, vec3(HALF / 2, HALF, 21_845_000));
    assert_eq!(min, vec3(-HALF / 2, -HALF, -21_845_000));
}

#[test]
fn sample_at_maps_the_box_onto_the_samples() {
    let volume = VolumeData {
        raw_data: (0..32).collect(),
        dimensions: (4, 4, 2),
        value_range: (0, 255),
    };
    let down = ray(vec3(0, 0, 0), vec3(0, 0, -ONE));
    // the origin lies in sample (2, 2, 1)
    assert_eq!(sample_at(&volume, &down, 0), Some(16 + 8 + 2));
    // just below the middle plane lies sample (2, 2, 0)
    assert_eq!(sample_at(&volume, &down, 1), Some(8 + 2));
    // far outside, the index is held at the rim
    assert_eq!(sample_at(&volume, &down, 100 * ONE), Some(8 + 2));
    assert_eq!(sample_at(&volume, &down, -100 * ONE), Some(16 + 8 + 2));
    let across = ray(vec3(-HALF, -HALF, -ONE / 8), vec3(ONE, 0, 0));
    assert_eq!(sample_at(&volume, &across, 0), Some(0));
    assert_eq!(sample_at(&volume, &across, ONE / 4 - 1), Some(0));
    assert_eq!(sample_at(&volume, &across, ONE / 4), Some(1));
    assert_eq!(sample_at(&volume, &across, ONE / 2), Some(2));
    assert_eq!(sample_at(&volume, &across, ONE - 1), Some(3));
    assert_eq!(sample_at(&volume, &across, ONE), Some(3));
    assert_eq!(sample_at(&volume, &across, -1), Some(0));
}

#[test]
fn sample_at_finds_nothing_in_a_volume_without_its_data() {
    let volume = VolumeData { raw_data: vec![5], dimensions: (2, 2, 2), value_range: (0, 255) };
    let r = ray(vec3(0, 0, 0), vec3(ONE, 0, 0));
    assert_eq!(sample_at(&volume, &r, 0), None);
    assert_eq!(sample_at(&volume, &r, -ONE), None);
    let corner = ray(vec3(-HALF, -HALF, -HALF), vec3(ONE, 0, 0));
    assert_eq!(sample_at(&volume, &corner, 0), Some(5));
}

#[test]
fn cast_2d_shows_the_sample_in_the_middle_of_the_stretch() {
    let volume = VolumeData {
        raw_data: (0..16).map(|i| i * 16).collect(),
        dimensions: (4, 4, 1),
        value_range: (0, 255),
    };
    let renderer = VolumeRenderer::new(1, 1);
    let tf = TransferFunction::rainbow();
    let (min, max) = volume_box(&volume);
    for y in 0..4i64 {
        for x in 0..4i64 {
            let origin = vec3(-HALF + x * ONE / 4 + ONE / 8, -HALF + y * ONE / 4 + ONE / 8, 3 * ONE);
            let r = ray(origin, vec3(0, 0, -ONE));
            let grey = ((y * 4 + x) * 16) as u8;
            assert_eq!(renderer.cast_ray_2d(&r, &volume, &tf, min, max), [grey, grey, grey, 255]);
        }
    }
}

#[test]
fn cast_2d_is_transparent_beside_the_box() {
    let volume = uniform_volume(4, 4, 1, 200);
    let renderer = VolumeRenderer::new(1, 1);
    let tf = TransferFunction::default();
    let (min, max) = volume_box(&volume);
    let r = ray(vec3(HALF + 1, 0, 3 * ONE), vec3(0, 0, -ONE));
    assert_eq!(renderer.cast_ray_2d(&r, &volume, &tf, min, max), [0, 0, 0, 0]);
    let r = ray(vec3(0, 0, 3 * ONE), vec3(ONE, 0, 0));
    assert_eq!(renderer.cast_ray_2d(&r, &volume, &tf, min, max), [0, 0, 0, 0]);
}

#[test]
fn cast_2d_is_transparent_where_the_sample_is_missing() {
    let volume = VolumeData { raw_data: vec![90; 8], dimensions: (4, 4, 1), value_range: (0, 255) };
    let renderer = VolumeRenderer::new(1, 1);
    let tf = TransferFunction::default();
    let (min, max) = volume_box(&volume);
    let upper = ray(vec3(0, -ONE / 4, 3 * ONE), vec3(0, 0, -ONE));
    assert_eq!(renderer.cast_ray_2d(&upper, &volume, &tf, min, max), [90, 90, 90, 255]);
    let lower = ray(vec3(0, ONE / 4, 3 * ONE), vec3(0, 0, -ONE));
    assert_eq!(renderer.cast_ray_2d(&lower, &volume, &tf, min, max), [0, 0, 0, 0]);
}

#[test]
fn cast_2d_limits_the_grey_of_a_sample_beyond_the_range() {
    let volume = VolumeData { raw_data: vec![1000; 4], dimensions: (2, 2, 1), value_range: (0, 255) };
    let renderer = VolumeRenderer::new(1, 1);
    let (min, max) = volume_box(&volume);
    let r = ray(vec3(0, 0, 3 * ONE), vec3(0, 0, -ONE));
    assert_eq!(renderer.cast_ray_2d(&r, &volume, &TransferFunction::default(), min, max), [255, 255, 255, 255]);
}

#[test]
fn cast_3d_saturates_in_an_opaque_volume() {
    let volume = uniform_volume(2, 2, 2, 255);
    let renderer = VolumeRenderer::new(1, 1);
    let tf = TransferFunction::default();
    let r = ray(vec3(0, 0, 2 * ONE), vec3(0, 0, -ONE));
    assert_eq!(renderer.cast_ray_3d(&r, &volume, &tf, BOX_MIN, BOX_MAX), [252, 252, 252, 255]);
}

#[test]
fn cast_3d_of_a_half_opaque_volume() {
    let volume = uniform_volume(2, 2, 2, 128);
    let renderer = VolumeRenderer::new(1, 1);
    let tf = TransferFunction::default();
    let r = ray(vec3(0, 0, 2 * ONE), vec3(0, 0, -ONE));
    assert_eq!(renderer.cast_ray_3d(&r, &volume, &tf, BOX_MIN, BOX_MAX), [126, 126, 126, 255]);
}

#[test]
fn cast_3d_of_a_faint_volume_runs_to_the_exit() {
    let volume = uniform_volume(2, 2, 2, 10);
    let renderer = VolumeRenderer::new(1, 1);
    let tf = TransferFunction::default();
    let r = ray(vec3(0, 0, 2 * ONE), vec3(0, 0, -ONE));
    assert_eq!(renderer.cast_ray_3d(&r, &volume, &tf, BOX_MIN, BOX_MAX), [3, 3, 3, 255]);
}

#[test]
fn cast_3d_takes_a_step_for_every_started_stretch_of_the_step_length() {
    let volume = uniform_volume(2, 2, 2, 255);
    let renderer = VolumeRenderer::new(1, 1);
    let tf = TransferFunction::default();
    let r = ray(vec3(0, 0, ONE), vec3(0, 0, -ONE));
    let min = vec3(-HALF, -HALF, 0);
    let three = vec3(HALF, HALF, 3 * RAY_STEP);
    assert_eq!(renderer.cast_ray_3d(&r, &volume, &tf, min, three), [36, 36, 36, 181]);
    let more = vec3(HALF, HALF, 3 * RAY_STEP + 1);
    assert_eq!(renderer.cast_ray_3d(&r, &volume, &tf, min, more), [47, 47, 47, 236]);
}

#[test]
fn cast_3d_is_transparent_in_an_empty_volume_and_beside_the_box() {
    let renderer = VolumeRenderer::new(1, 1);
    let tf = TransferFunction::default();
    let through = ray(vec3(0, 0, 2 * ONE), vec3(0, 0, -ONE));
    assert_eq!(renderer.cast_ray_3d(&through, &uniform_volume(2, 2, 2, 0), &tf, BOX_MIN, BOX_MAX), [0, 0, 0, 0]);
    let beside = ray(vec3(ONE, 0, 2 * ONE), vec3(0, 0, -ONE));
    assert_eq!(renderer.cast_ray_3d(&beside, &uniform_volume(2, 2, 2, 255), &tf, BOX_MIN, BOX_MAX), [0, 0, 0, 0]);
}

#[test]
fn cast_3d_uses_the_transfer_function() {
    let volume = uniform_volume(2, 2, 2, 255);
    let renderer = VolumeRenderer::new(1, 1);
    let r = ray(vec3(0, 0, 2 * ONE), vec3(0, 0, -ONE));
    // the rainbow is red and opaque at the top of the range
    assert_eq!(renderer.cast_ray_3d(&r, &volume, &TransferFunction::rainbow(), BOX_MIN, BOX_MAX), [252, 0, 0, 255]);
    // the cool curve is magenta there
    assert_eq!(renderer.cast_ray_3d(&r, &volume, &TransferFunction::cool(), BOX_MIN, BOX_MAX), [252, 0, 252, 255]);
}

#[test]
fn new_renderer_has_a_framebuffer_of_zeros() {
    let renderer = VolumeRenderer::new(7, 3);
    assert_eq!(renderer.width, 7);
    assert_eq!(renderer.height, 3);
    assert_eq!(renderer.ray_step, RAY_STEP);
    assert_eq!(renderer.framebuffer, vec![0u8; 7 * 3 * 4]);
    assert!(VolumeRenderer::new(0, 5).framebuffer.is_empty());
}

#[test]
fn generate_ray_agrees_with_the_floating_unprojection() {
    let camera = Camera::default();
    let (width, height) = (40usize, 30usize);
    let (_, inverse) = camera_matrices(&camera, width as f64 / height as f64);
    let renderer = VolumeRenderer::new(width, height);
    let matrix = fixed_matrix(&inverse);
    assert!(matrix.check());
    for (x, y) in [(0usize, 0usize), (39, 0), (0, 29), (39, 29), (20, 15), (7, 22)] {
        let got = renderer.generate_ray(x, y, &matrix).unwrap();
        let ndc_x = (2.0 * x as f64 + 1.0) / width as f64 - 1.0;
        let ndc_y = 1.0 - (2.0 * y as f64 + 1.0) / height as f64;
        let near = inverse.transform_point(&nalgebra::Point3::new(ndc_x, ndc_y, -1.0));
        let far = inverse.transform_point(&nalgebra::Point3::new(ndc_x, ndc_y, 1.0));
        let direction = (far - near).normalize();
        assert!((to_float(got.origin.x) - near.x).abs() < 1e-4);
        assert!((to_float(got.origin.y) - near.y).abs() < 1e-4);
        assert!((to_float(got.origin.z) - near.z).abs() < 1e-4);
        assert!((to_float(got.direction.x) - direction.x).abs() < 1e-4);
        assert!((to_float(got.direction.y) - direction.y).abs() < 1e-4);
        assert!((to_float(got.direction.z) - direction.z).abs() < 1e-4);
    }
}

#[test]
fn generate_ray_of_the_identity_looks_down_the_z_axis() {
    let mut m = [[0i64; 4]; 4];
    for i in 0..4 {
        m[i][i] = ONE;
    }
    let renderer = VolumeRenderer::new(2, 2);
    let r = renderer.generate_ray(0, 0, &Mat4 { m }).unwrap();
    assert_eq!(r.origin, vec3(-HALF, HALF, -ONE));
    assert_eq!(r.direction, vec3(0, 0, ONE));
    let r = renderer.generate_ray(1, 1, &Mat4 { m }).unwrap();
    assert_eq!(r.origin, vec3(HALF, -HALF, -ONE));
    assert_eq!(r.direction, vec3(0, 0, ONE));
}

#[test]
fn generate_ray_finds_none_for_a_matrix_that_flattens_space() {
    let renderer = VolumeRenderer::new(2, 2);
    assert_eq!(renderer.generate_ray(0, 0, &Mat4 { m: [[0; 4]; 4] }), None);
    // near and far plane fall onto one another
    let mut m = [[0i64; 4]; 4];
    m[0][0] = ONE;
    m[1][1] = ONE;
    m[3][3] = ONE;
    assert_eq!(renderer.generate_ray(1, 0, &Mat4 { m }), None);
}

#[test]
fn generate_ray_finds_none_beyond_the_world() {
    let mut m = [[0i64; 4]; 4];
    for i in 0..4 {
        m[i][i] = ONE;
    }
    // a first row that magnifies, over a last row that all but vanishes
    m[0][0] = 1 << 56;
    m[3][0] = 1;
    m[3][3] = 0;
    let renderer = VolumeRenderer::new(2, 2);
    assert_eq!(renderer.generate_ray(0, 0, &Mat4 { m }), None);
}

#[test]
fn matrix_check_tells_entries_out_of_range() {
    let mut m = [[0i64; 4]; 4];
    assert!(Mat4 { m }.check());
    m[2][3] = 1 << 56;
    m[0][0] = -(1 << 56);
    assert!(Mat4 { m }.check());
    m[3][1] = (1 << 56) + 1;
    assert!(!Mat4 { m }.check());
    m[3][1] = 0;
    m[1][2] = -(1 << 56) - 1;
    assert!(!Mat4 { m }.check());
}

#[test]
fn transform_point_divides_by_the_last_row() {
    let mut m = [[0i64; 4]; 4];
    m[0][0] = 2 * ONE;
    m[1][1] = 3 * ONE;
    m[2][2] = ONE;
    m[0][3] = ONE;
    m[3][3] = 2 * ONE;
    let matrix = Mat4 { m };
    // (2 * 0.5 + 1, 3 * -1, 1) / 2
    assert_eq!(matrix.transform_point(HALF, -ONE, ONE), Some(vec3(ONE, -3 * HALF, HALF)));
    m[3][3] = 0;
    let matrix = Mat4 { m };
    // with a last row of zero the point is left undivided
    assert_eq!(matrix.transform_point(HALF, -ONE, ONE), Some(vec3(2 * ONE, -3 * ONE, ONE)));
    m[3][2] = -ONE;
    let matrix = Mat4 { m };
    assert_eq!(matrix.transform_point(HALF, -ONE, ONE), Some(vec3(-2 * ONE, 3 * ONE, -ONE)));
}

#[test]
fn render_paints_every_pixel_as_shade_says() {
    let camera = Camera::default();
    let (width, height) = (24usize, 16usize);
    let (_, inverse) = camera_matrices(&camera, width as f64 / height as f64);
    let matrix = fixed_matrix(&inverse);
    let mut volume = uniform_volume(4, 4, 4, 0);
    for (i, v) in volume.raw_data.iter_mut().enumerate() {
        *v = (i * 4) as u16;
    }
    let tf = TransferFunction::hot();
    let mut renderer = VolumeRenderer::new(width, height);
    for b in renderer.framebuffer.iter_mut() {
        *b = 0xab;
    }
    renderer.render(&volume, &matrix, &tf);
    assert_eq!(renderer.framebuffer.len(), width * height * 4);
    let mut painted = 0;
    for y in 0..height {
        for x in 0..width {
            let px = renderer.shade(x, y, &volume, &matrix, &tf);
            let base = (y * width + x) * 4;
            assert_eq!(&renderer.framebuffer[base..base + 4], &px);
            if px[3] > 0 {
                painted += 1;
            }
        }
    }
    assert!(painted > 0 && painted < width * height);
    // the corners of the image see past the box
    assert_eq!(&renderer.framebuffer[0..4], &[0, 0, 0, 0]);
    assert_eq!(&renderer.framebuffer[(width * height - 1) * 4..], &[0, 0, 0, 0]);
}

#[test]
fn render_of_a_volume_without_extent_is_transparent() {
    let camera = Camera::default();
    let (_, inverse) = camera_matrices(&camera, 1.0);
    let matrix = fixed_matrix(&inverse);
    let tf = TransferFunction::default();
    for dimensions in [(0, 4, 4), (4, 0, 4), (4, 4, 0), (0, 0, 0)] {
        let volume = VolumeData { raw_data: vec![255; 64], dimensions, value_range: (0, 255) };
        let mut renderer = VolumeRenderer::new(8, 8);
        for b in renderer.framebuffer.iter_mut() {
            *b = 0xab;
        }
        renderer.render(&volume, &matrix, &tf);
        assert_eq!(renderer.framebuffer, vec![0u8; 8 * 8 * 4]);
    }
}

#[test]
fn render_of_a_slice_shows_its_grey_in_the_middle() {
    let camera = Camera::default();
    let (width, height) = (32usize, 32usize);
    let (_, inverse) = camera_matrices(&camera, 1.0);
    let matrix = fixed_matrix(&inverse);
    let volume = uniform_volume(4, 4, 1, 128);
    let mut renderer = VolumeRenderer::new(width, height);
    renderer.render(&volume, &matrix, &TransferFunction::rainbow());
    for (x, y) in [(15usize, 15usize), (16, 15), (15, 16), (16, 16)] {
        let base = (y * width + x) * 4;
        assert_eq!(&renderer.framebuffer[base..base + 4], &[128, 128, 128, 255]);
    }
    for px in renderer.framebuffer.chunks(4) {
        assert!(px == [128, 128, 128, 255] || px == [0, 0, 0, 0]);
    }
}

#[test]
fn render_shows_the_hot_sample_only_where_rays_pass_it() {
    let camera = Camera::default();
    let (width, height) = (48usize, 48usize);
    let (_, inverse) = camera_matrices(&camera, 1.0);
    let matrix = fixed_matrix(&inverse);
    let mut volume = VolumeData { raw_data: vec![0; 8], dimensions: (2, 2, 2), value_range: (0, 65535) };
    // the sample at (1, 1, 1) fills the part of the box where all coordinates are positive
    volume.raw_data[7] = 65535;
    let mut renderer = VolumeRenderer::new(width, height);
    renderer.render(&volume, &matrix, &TransferFunction::default());
    let mut lit = 0;
    for y in 0..height {
        for x in 0..width {
            let base = (y * width + x) * 4;
            let px = &renderer.framebuffer[base..base + 4];
            let ndc_x = (2.0 * x as f64 + 1.0) / width as f64 - 1.0;
            let ndc_y = 1.0 - (2.0 * y as f64 + 1.0) / height as f64;
            let near = inverse.transform_point(&nalgebra::Point3::new(ndc_x, ndc_y, -1.0));
            let far = inverse.transform_point(&nalgebra::Point3::new(ndc_x, ndc_y, 1.0));
            let d = (far - near).normalize();
            // the stretch of the ray within the hot part, made larger or smaller by a margin
            let stretch = |margin: f64| {
                let mut t_min = f64::NEG_INFINITY;
                let mut t_max = f64::INFINITY;
                for i in 0..3 {
                    let t0 = (0.0 - margin - near[i]) / d[i];
                    let t1 = (0.5 + margin - near[i]) / d[i];
                    t_min = t_min.max(t0.min(t1));
                    t_max = t_max.min(t0.max(t1));
                }
                t_max - t_min
            };
            if px[3] > 0 {
                lit += 1;
                assert!(stretch(0.02) > 0.0);
                assert!(px[0] > 0 && px[0] == px[1] && px[1] == px[2]);
            } else {
                assert_eq!(px, &[0, 0, 0, 0]);
                assert!(stretch(-0.02) <= 0.0);
            }
        }
    }
    assert!(lit > 0 && lit < width * height / 4);
}

/// The pixel of a volume as floating point gives it, step by step as the
/// renderer goes.
fn floating_pixel(
    volume: &VolumeData,
    tf: &TransferFunction,
    inverse: &nalgebra::Matrix4<f64>,
    width: usize,
    height: usize,
    x: usize,
    y: usize,
) -> [u8; 4] {
    let ndc_x = (2.0 * x as f64 + 1.0) / width as f64 - 1.0;
    let ndc_y = 1.0 - (2.0 * y as f64 + 1.0) / height as f64;
    let near = inverse.transform_point(&nalgebra::Point3::new(ndc_x, ndc_y, -1.0));
    let far = inverse.transform_point(&nalgebra::Point3::new(ndc_x, ndc_y, 1.0));
    let d = (far - near).normalize();
    let dims = [volume.dimensions.0 as f64, volume.dimensions.1 as f64, volume.dimensions.2 as f64];
    let max_dim = dims[0].max(dims[1]).max(dims[2]);
    let mut t_min = 0.0f64;
    let mut t_max = f64::INFINITY;
    for i in 0..3 {
        let half = 0.5 * dims[i] / max_dim;
        let inv = 1.0 / d[i];
        let (t0, t1) = ((-half - near[i]) * inv, (half - near[i]) * inv);
        t_min = t_min.max(t0.min(t1));
        t_max = t_max.min(t0.max(t1));
    }
    if t_max <= t_min {
        return [0, 0, 0, 0];
    }
    let sample = |t: f64| {
        let mut index = [0usize; 3];
        for i in 0..3 {
            let p = (near[i] + d[i] * t) * max_dim + 0.5 * dims[i];
            index[i] = p.clamp(0.0, dims[i] - 1.0).floor() as usize;
        }
        volume.sample(index[0], index[1], index[2])
    };
    let range = (volume.value_range.1 - volume.value_range.0) as f64;
    if volume.dimensions.2 == 1 {
        return match sample((t_min + t_max) * 0.5) {
            Some(v) => {
                let g = ((v as f64 / range).clamp(0.0, 1.0) * 255.0) as u8;
                [g, g, g, 255]
            }
            None => [0, 0, 0, 0],
        };
    }
    let mut color = [0.0f64; 3];
    let mut alpha = 0.0f64;
    let mut t = t_min;
    while t < t_max && alpha < 0.99 {
        if let Some(v) = sample(t) {
            let bucket = (((v as f64 / range).clamp(0.0, 1.0) * 255.0) as i64).min(255);
            let c = tf.get_color_3d(bucket * 257_000);
            let a = to_float(c[3]) * 0.005 * 10.0 * (1.0 - alpha);
            for i in 0..3 {
                color[i] += to_float(c[i]) * a;
            }
            alpha += a;
        }
        t += 0.005;
    }
    [
        (color[0] * 255.0) as u8,
        (color[1] * 255.0) as u8,
        (color[2] * 255.0) as u8,
        ((alpha * 5.0).min(1.0) * 255.0) as u8,
    ]
}

/// The share of the pixels on which fixed and floating point differ by more
/// than two grey levels, in thousandths.
fn disagreement(volume: &VolumeData, tf: &TransferFunction, camera: &Camera, width: usize, height: usize) -> usize {
    let (_, inverse) = camera_matrices(camera, width as f64 / height as f64);
    let mut renderer = VolumeRenderer::new(width, height);
    renderer.render(volume, &fixed_matrix(&inverse), tf);
    let mut far_off = 0;
    let mut painted = 0;
    for y in 0..height {
        for x in 0..width {
            let base = (y * width + x) * 4;
            let got = &renderer.framebuffer[base..base + 4];
            let expected = floating_pixel(volume, tf, &inverse, width, height, x, y);
            if got[3] > 0 {
                painted += 1;
            }
            if (0..4).any(|c| (got[c] as i32 - expected[c] as i32).abs() > 2) {
                far_off += 1;
            }
        }
    }
    assert!(painted > 0);
    far_off * 1000 / (width * height)
}

#[test]
fn render_agrees_with_a_floating_reference() {
    let mut volume = uniform_volume(8, 6, 5, 0);
    for z in 0..5 {
        for y in 0..6 {
            for x in 0..8 {
                volume.raw_data[z * 48 + y * 8 + x] = (20 * x + 15 * y + 10 * z) as u16;
            }
        }
    }
    let mut camera = Camera::default();
    assert!(disagreement(&volume, &TransferFunction::default(), &camera, 40, 30) <= 10);
    assert!(disagreement(&volume, &TransferFunction::rainbow(), &camera, 40, 30) <= 10);
    camera.orbit(ONE / 2, -ONE / 3);
    camera.zoom(-ONE / 2);
    assert!(disagreement(&volume, &TransferFunction::hot(), &camera, 32, 32) <= 10);
    camera.orbit(3 * ONE, 2 * ONE);
    camera.zoom(ONE / 4);
    assert!(disagreement(&volume, &TransferFunction::cool(), &camera, 32, 32) <= 10);
    // a single slice, seen at an angle
    let mut slice = uniform_volume(8, 6, 1, 0);
    for (i, v) in slice.raw_data.iter_mut().enumerate() {
        *v = (i * 5) as u16;
    }
    assert!(disagreement(&slice, &TransferFunction::default(), &camera, 32, 32) <= 10);
}
