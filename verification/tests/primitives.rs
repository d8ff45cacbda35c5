use tdi_ray_tracer::angle::Angle;
use tdi_ray_tracer::bounds::Bounds;
use tdi_ray_tracer::color::Color;
use tdi_ray_tracer::energy::Energy;
use tdi_ray_tracer::hit::Hit;
use tdi_ray_tracer::limits::Limits;
use tdi_ray_tracer::quaternion::Quaternion;
use tdi_ray_tracer::random_generator::RandomGenerator;
use tdi_ray_tracer::ray::Ray;
use tdi_ray_tracer::scalar::{isqrt_u128, Scalar};
use tdi_ray_tracer::transform::Transform;
use tdi_ray_tracer::trig;
use tdi_ray_tracer::vector3::{Axis, Vector3};

fn s(x: f64) -> Scalar {
    Scalar::from_raw((x * 1_000_000.0).round() as i32)
}

fn e(x: f64) -> Energy {
    Energy::from_raw((x * 1_000_000.0).round() as i64)
}

fn f(x: Scalar) -> f64 {
    x.raw as f64 / 1_000_000.0
}

fn v(x: f64, y: f64, z: f64) -> Vector3 {
    Vector3::new(s(x), s(y), s(z))
}

fn assert_near(actual: Scalar, expected: f64, tolerance: f64) {
    assert!(
        (f(actual) - expected).abs() < tolerance,
        "{} is not within {} of {}",
        f(actual),
        tolerance,
        expected
    );
}

#[test]
fn bounds_contains() {
    let bounds = Bounds::from_vectors(v(0.0, 0.0, 0.0), v(1.0, 1.0, 1.0));

    assert!(bounds.contains(v(0.0, 0.0, 0.0)));
    assert!(bounds.contains(v(1.0, 1.0, 1.0)));
    assert!(bounds.contains(v(0.5, 0.5, 0.5)));
    assert!(!bounds.contains(v(-1.0, -1.0, -1.0)));
    assert!(!bounds.contains(v(2.0, 2.0, 2.0)));
}

#[test]
fn bounds_intersects() {
    let bounds = Bounds::from_vectors(v(0.0, 0.0, 0.0), v(1.0, 1.0, 1.0));

    let other = Bounds::from_vectors(v(0.0, 0.0, 0.0), v(1.0, 1.0, 1.0));
    assert!(bounds.intersects(&other));
    assert!(other.intersects(&bounds));

    let other = Bounds::from_vectors(v(0.5, 0.5, 0.5), v(1.5, 1.5, 1.5));
    assert!(bounds.intersects(&other));
    assert!(other.intersects(&bounds));

    let other = Bounds::from_vectors(v(-0.5, -0.5, -0.5), v(0.5, 0.5, 0.5));
    assert!(bounds.intersects(&other));
    assert!(other.intersects(&bounds));

    let other = Bounds::from_vectors(v(-2.0, -2.0, -2.0), v(-1.0, -1.0, -1.0));
    assert!(!bounds.intersects(&other));
    assert!(!other.intersects(&bounds));

    let other = Bounds::from_vectors(v(2.0, 2.0, 2.0), v(3.0, 3.0, 3.0));
    assert!(!bounds.intersects(&other));
    assert!(!other.intersects(&bounds));
}

#[test]
fn bounds_ray_intersects() {
    let ray = Ray::new(v(0.0, 0.0, 0.0), v(1.0, 0.0, 0.0));

    let bounds = Bounds::from_vectors(v(0.0, 0.0, 0.0), v(1.0, 1.0, 1.0));

    assert!(bounds.ray_intersects(&ray));
}

#[test]
fn ray_along_a_face_meets_the_box() {
    let bounds = Bounds::from_vectors(v(0.0, 0.0, 0.0), v(1.0, 1.0, 1.0));
    // Along the face y = 1, from outside the box.
    assert!(bounds.ray_intersects(&Ray::new(v(-1.0, 1.0, 0.5), v(1.0, 0.0, 0.0))));
    // Along the edge where the faces y = 1 and z = 1 meet.
    assert!(bounds.ray_intersects(&Ray::new(v(-3.0, 1.0, 1.0), v(2.0, 0.0, 0.0))));
    // One millionth above the face.
    assert!(!bounds.ray_intersects(&Ray::new(v(-1.0, 1.000001, 0.5), v(1.0, 0.0, 0.0))));
}

#[test]
fn ray_parallel_to_an_axis_outside_the_box_misses() {
    let bounds = Bounds::from_vectors(v(0.0, 0.0, 0.0), v(1.0, 1.0, 1.0));
    assert!(!bounds.ray_intersects(&Ray::new(v(-1.0, 2.0, 0.5), v(1.0, 0.0, 0.0))));
    assert!(!bounds.ray_intersects(&Ray::new(v(0.5, 0.5, 2.0), v(0.0, 1.0, 0.0))));
    assert!(!bounds.ray_intersects(&Ray::new(v(0.5, -0.5, 0.5), v(0.0, 0.0, -1.0))));
}

#[test]
fn ray_does_not_meet_a_box_behind_it() {
    let bounds = Bounds::from_vectors(v(0.0, 0.0, 0.0), v(1.0, 1.0, 1.0));
    assert!(!bounds.ray_intersects(&Ray::new(v(2.0, 0.5, 0.5), v(1.0, 0.0, 0.0))));
    assert!(bounds.ray_intersects(&Ray::new(v(2.0, 0.5, 0.5), v(-1.0, 0.0, 0.0))));
    // The origin on a face counts, at parameter zero.
    assert!(bounds.ray_intersects(&Ray::new(v(1.0, 0.5, 0.5), v(1.0, 0.0, 0.0))));
}

#[test]
fn ray_through_a_box_at_a_slant() {
    let bounds = Bounds::from_vectors(v(2.0, 2.0, 2.0), v(3.0, 3.0, 3.0));
    assert!(bounds.ray_intersects(&Ray::new(v(0.0, 0.0, 0.0), v(1.0, 1.0, 1.0))));
    assert!(bounds.ray_intersects(&Ray::new(v(0.0, 0.0, 0.0), v(0.3, 0.25, 0.21))));
    assert!(!bounds.ray_intersects(&Ray::new(v(0.0, 0.0, 0.0), v(1.0, 1.0, 0.6))));
    // A ray that does not move meets the box only from inside.
    assert!(bounds.ray_intersects(&Ray::new(v(2.5, 2.5, 2.5), v(0.0, 0.0, 0.0))));
    assert!(!bounds.ray_intersects(&Ray::new(v(0.0, 0.0, 0.0), v(0.0, 0.0, 0.0))));
}

#[test]
fn bounds_merge_and_corners() {
    let mut bounds = Bounds::from_vector(v(1.0, 2.0, 3.0));
    bounds.add_assign(Bounds::from_vectors(v(0.0, 5.0, 3.0), v(-1.0, 4.0, 2.0)));
    assert_eq!(bounds.minimum(), v(-1.0, 2.0, 2.0));
    assert_eq!(bounds.maximum(), v(1.0, 5.0, 3.0));
    assert_eq!(bounds.get_limits(&Axis::Y), Limits::new(s(2.0), s(5.0)));
    bounds.extend(Limits::new(s(9.0), s(-9.0)), Axis::Z);
    assert_eq!(bounds.get_limits(&Axis::Z), Limits::new(s(-9.0), s(9.0)));
    assert_eq!(Bounds::default().maximum(), v(0.0, 0.0, 0.0));
}

#[test]
fn create_color() {
    let c = Color::new(e(0.1), e(0.2), e(0.3));
    assert_eq!(c.red, e(0.1));
    assert_eq!(c.green, e(0.2));
    assert_eq!(c.blue, e(0.3));
}

#[test]
fn add_assign() {
    let mut c = Color::new(e(0.1), e(0.2), e(0.3));
    c.add_assign(Color::new(e(0.1), e(0.2), e(0.3)));
    assert_eq!(c.red, e(0.2));
    assert_eq!(c.green, e(0.4));
    assert_eq!(c.blue, e(0.6));
}

#[test]
fn color_arithmetic() {
    let c = Color::new(e(0.5), e(0.25), e(2.0));
    assert_eq!(c.brightness(), e(2.75));
    assert_eq!(c.mul(Color::new(e(0.5), e(4.0), e(0.0))), Color::new(e(0.25), e(1.0), e(0.0)));
    assert_eq!(c.mul_scalar(s(3.0)), Color::new(e(1.5), e(0.75), e(6.0)));
    assert_eq!(c.div(s(2.0)), Color::new(e(0.25), e(0.125), e(1.0)));
    assert_eq!(c.add(c), Color::new(e(1.0), e(0.5), e(4.0)));
    assert_eq!(Color::from_gray(e(0.5)), Color::new(e(0.5), e(0.5), e(0.5)));
    assert_eq!(Color::default().brightness(), e(0.0));
}

#[test]
fn energy_reaches_farther_than_places_do() {
    assert_eq!(e(2000.0).mul(e(3000.0)), e(6_000_000.0));
    assert_eq!(e(1.5).mul(e(2.5)), e(3.75));
    assert_eq!(e(1.5).scale(s(-2.0)), e(-3.0));
    assert_eq!(e(1.0).div(s(3.0)), Energy::from_raw(333_333));
    assert_eq!(e(1.0).div(s(0.0)), Energy::from_raw(i64::MAX));
    assert_eq!(e(-1.0).div(s(0.0)), Energy::from_raw(i64::MIN));
    assert_eq!(e(0.0).div(s(0.0)), e(0.0));
    assert_eq!(Energy::from_raw(i64::MAX).add(e(1.0)), Energy::from_raw(i64::MAX));
    assert_eq!(Energy::from_raw(i64::MAX).mul(e(2.0)), Energy::from_raw(i64::MAX));
    assert_eq!(Energy::from_raw(i64::MIN).mul(e(2.0)), Energy::from_raw(i64::MIN));
    assert_eq!(Energy::from_scalar(s(-2.5)), e(-2.5));
    assert_eq!(Energy::one(), e(1.0));
    assert_eq!(Energy::epsilon().raw(), 1);
    assert!(e(1.0).lt(e(2.0)) && e(1.0).le(e(1.0)) && e(2.0).gt(e(1.0)) && e(2.0).ge(e(2.0)));
    assert_eq!(Color::new(e(1.0), e(0.5), e(0.0)).amplify(e(3000.0)), Color::new(e(3000.0), e(1500.0), e(0.0)));
}

#[test]
fn hit_new() {
    let position = v(1.0, 2.0, 3.0);
    let normal = v(4.0, 5.0, 6.0);
    let distance = s(7.0);
    let material_index = 8;

    let hit = Hit::new(position, normal, distance, material_index);

    assert_eq!(hit.position, position);
    assert_eq!(hit.normal, normal);
    assert_eq!(hit.distance, distance);
    assert_eq!(hit.material_index, material_index);
}

#[test]
fn limits_contains() {
    let limits = Limits::new(s(0.0), s(1.0));

    assert!(limits.contains(s(0.0)));
    assert!(limits.contains(s(0.5)));
    assert!(limits.contains(s(1.0)));
    assert!(!limits.contains(s(-0.1)));
    assert!(!limits.contains(s(1.1)));
}

#[test]
fn limits_intersects() {
    let limits = Limits::new(s(0.0), s(1.0));

    let other = Limits::new(s(0.25), s(0.75));
    assert!(limits.intersects(&other));
    assert!(other.intersects(&limits));

    let other = Limits::new(s(-0.5), s(1.5));
    assert!(limits.intersects(&other));
    assert!(other.intersects(&limits));

    let other = Limits::new(s(0.5), s(1.5));
    assert!(limits.intersects(&other));
    assert!(other.intersects(&limits));

    let other = Limits::new(s(-0.5), s(0.5));
    assert!(limits.intersects(&other));
    assert!(other.intersects(&limits));

    let other = Limits::new(s(1.5), s(2.0));
    assert!(!limits.intersects(&other));
    assert!(!other.intersects(&limits));
}

#[test]
fn limits_are_put_in_order() {
    let limits = Limits::new(s(3.0), s(-1.0));
    assert_eq!(limits.min, s(-1.0));
    assert_eq!(limits.max, s(3.0));
    let mut merged = limits;
    merged.add_assign(Limits::new(s(2.0), s(7.0)));
    assert_eq!(merged, Limits::new(s(-1.0), s(7.0)));
}

#[test]
fn from_roll_pitch_yaw() {
    let (roll, pitch, yaw) = (0.0, 0.0, std::f64::consts::PI / 2.0);
    let q = Quaternion::from_roll_pitch_yaw(s(roll), s(pitch), s(yaw));
    assert_near(q.x, 0.0, 1e-6f64);
    assert_near(q.y, 0.0, 1e-6f64);
    assert_near(q.z, std::f64::consts::FRAC_1_SQRT_2, 1e-6f64);
    assert_near(q.w, std::f64::consts::FRAC_1_SQRT_2, 1e-6f64);
}

#[test]
fn from_axis_angle() {
    let axis = v(1.0, 0.0, 0.0);
    let angle = std::f64::consts::PI / 2.0;
    let q = Quaternion::from_axis_angle(axis, s(angle));
    assert_near(q.x, std::f64::consts::FRAC_1_SQRT_2, 1e-6f64);
    assert_near(q.y, 0.0, 1e-6f64);
    assert_near(q.z, 0.0, 1e-6f64);
    assert_near(q.w, std::f64::consts::FRAC_1_SQRT_2, 1e-6f64);
}

#[test]
fn conjugate() {
    let q = Quaternion { x: s(2.0), y: s(3.0), z: s(4.0), w: s(1.0) };
    let q_conj = q.conjugate();
    assert_near(q_conj.x, -2.0, 1e-6f64);
    assert_near(q_conj.y, -3.0, 1e-6f64);
    assert_near(q_conj.z, -4.0, 1e-6f64);
    assert_near(q_conj.w, 1.0, 1e-6f64);
}

#[test]
fn inverse() {
    let q = Quaternion { x: s(1.0), y: s(2.0), z: s(3.0), w: s(4.0) };
    let q_inv = q.inverse();
    assert_near(q_inv.x, -1.0 / 30.0, 1e-6f64);
    assert_near(q_inv.y, -2.0 / 30.0, 1e-6f64);
    assert_near(q_inv.z, -3.0 / 30.0, 1e-6f64);
    assert_near(q_inv.w, 4.0 / 30.0, 1e-6f64);
}

#[test]
fn inverse_of_nothing() {
    let zero = Quaternion::new(s(0.0), s(0.0), s(0.0), s(0.0));
    assert!(zero.is_null());
    assert!(zero.checked_inverse().is_none());
    let q = Quaternion { x: s(1.0), y: s(2.0), z: s(3.0), w: s(4.0) };
    assert_eq!(q.checked_inverse(), Some(q.inverse()));
    assert_eq!(q.inverse().x.raw, -33_333);
    assert_eq!(q.inverse().w.raw, 133_333);
}

#[test]
fn norm() {
    let q = Quaternion { x: s(1.0), y: s(2.0), z: s(3.0), w: s(4.0) };
    assert_near(q.norm(), 5.4772, 1e-3f64);
}

#[test]
fn norm_squared() {
    let q = Quaternion { x: s(1.0), y: s(2.0), z: s(3.0), w: s(4.0) };
    assert_near(q.norm_squared(), f64::powi(5.4772, 2), 1e-3f64);
    assert_eq!(q.norm_squared(), s(30.0));
}

#[test]
fn mul_quaternion_quaternion() {
    let q1 = Quaternion { x: s(2.0), y: s(3.0), z: s(4.0), w: s(1.0) };
    let q2 = Quaternion { x: s(3.0), y: s(4.0), z: s(5.0), w: s(2.0) };
    let q_product = q1.mul(q2);
    assert_near(q_product.x, 6.0, 1e-6f64);
    assert_near(q_product.y, 12.0, 1e-6f64);
    assert_near(q_product.z, 12.0, 1e-6f64);
    assert_near(q_product.w, -36.0, 1e-6f64);
}

#[test]
fn mul_quaternion_f64() {
    let q1 = Quaternion { x: s(2.0), y: s(3.0), z: s(4.0), w: s(1.0) };
    let scale = s(3.0);
    let q_product = q1.mul_scalar(scale);
    assert_near(q_product.x, 6.0, 1e-6f64);
    assert_near(q_product.y, 9.0, 1e-6f64);
    assert_near(q_product.z, 12.0, 1e-6f64);
    assert_near(q_product.w, 3.0, 1e-6f64);
}

#[test]
fn quarter_turn_about_z_takes_x_to_y() {
    let q = Quaternion::from_axis_angle(v(0.0, 0.0, 1.0), s(std::f64::consts::PI / 2.0));
    let turned = q.mul_vector(v(1.0, 0.0, 0.0));
    assert_near(turned.x, 0.0, 3e-6);
    assert_near(turned.y, 1.0, 3e-6);
    assert_near(turned.z, 0.0, 3e-6);
    assert_eq!(Quaternion::default().mul_vector(v(1.5, -2.5, 3.25)), v(1.5, -2.5, 3.25));
}

#[test]
fn get_random_number() {
    let mut g = RandomGenerator::new();
    let v = g.value(s(1.0));
    assert!(v.ge(s(0.0)) && v.lt(s(1.0)));
}

#[test]
fn random_numbers_stay_below_the_scale() {
    let mut g = RandomGenerator::new();
    let mut seen_different = false;
    let first = g.value(s(1000.0));
    for _ in 0..1000 {
        let drawn = g.value(s(0.000003));
        assert!(drawn.raw >= 0 && drawn.raw < 3);
        let wide = g.value(s(1000.0));
        assert!(wide.raw >= 0 && wide.raw < 1_000_000_000);
        if wide != first {
            seen_different = true;
        }
    }
    assert!(seen_different);
}

#[test]
fn new() {
    let origin = v(1.0, 2.0, 3.0);
    let direction = v(4.0, 5.0, 6.0);

    let ray = Ray::new(origin, direction);

    assert_eq!(ray.origin, origin);
    assert_eq!(ray.direction, direction);
}

#[test]
fn transform_forward() {
    let transform = Transform {
        position: v(0.0, 0.0, 0.0),
        rotation: Quaternion::new(s(0.0), s(0.0), s(0.0), s(1.0)),
        scale: v(1.0, 1.0, 1.0),
    };

    assert_eq!(transform.forward(), v(0.0, 0.0, 1.0));
}

#[test]
fn transform_new_is_the_identity() {
    let transform = Transform::new();
    assert_eq!(transform.position, v(0.0, 0.0, 0.0));
    assert_eq!(transform.rotation, Quaternion::default());
    assert_eq!(transform.scale, v(1.0, 1.0, 1.0));
}

#[test]
fn normalized() {
    let v1 = v(1.0, 2.0, 3.0);
    let normalized = Vector3::normalized(&v1);
    assert_near(normalized.get_x(), 0.2672612419124244, 1e-3);
    assert_near(normalized.get_y(), 0.5345224838248488, 1e-3);
    assert_near(normalized.get_z(), 0.8017837257372732, 1e-3);

    let normalize = v1.normalize();
    assert_near(normalize.get_x(), f(normalized.get_x()), 1e-3);
    assert_near(normalize.get_y(), f(normalized.get_y()), 1e-3);
    assert_near(normalize.get_z(), f(normalized.get_z()), 1e-3);
    assert_eq!(normalized, v(0.267261, 0.534522, 0.801784));
}

#[test]
fn cross() {
    let v1 = v(1.0, 2.0, 3.0);
    let v2 = v(4.0, 5.0, 6.0);
    let cross = Vector3::cross(&v1, &v2);

    assert_near(cross.get_x(), -3.0, 1e-3);
    assert_near(cross.get_y(), 6.0, 1e-3);
    assert_near(cross.get_z(), -3.0, 1e-3);
}

#[test]
fn vector_arithmetic() {
    let a = v(1.0, 2.0, 3.0);
    let b = v(4.0, 5.0, 6.0);
    assert_eq!(Vector3::dot(&a, &b), s(32.0));
    assert_eq!(a.add(b), v(5.0, 7.0, 9.0));
    assert_eq!(a.sub(b), v(-3.0, -3.0, -3.0));
    assert_eq!(a.neg(), v(-1.0, -2.0, -3.0));
    assert_eq!(a.mul(s(0.5)), v(0.5, 1.0, 1.5));
    assert_eq!(a.div(s(4.0)), v(0.25, 0.5, 0.75));
    assert_eq!(a.norm_squared(), s(14.0));
    assert_eq!(v(3.0, 4.0, 12.0).norm(), s(13.0));
    assert_eq!(a.norm(), s(3.741657));
    assert_eq!(a.get_component(&Axis::Y), s(2.0));
    assert_eq!(Vector3::normalized_sub(&v(4.0, 0.0, 0.0), &v(1.0, 0.0, 4.0)), v(0.6, 0.0, -0.8));
    assert_eq!(Vector3::default().normalize(), v(0.0, 0.0, 0.0));
    assert_eq!(Vector3::from_ints(1, -2, 3), v(1.0, -2.0, 3.0));
    assert_eq!(Vector3::unit_x(), v(1.0, 0.0, 0.0));
    // A ray that comes down at a slant leaves the floor at the same slant.
    assert_eq!(Vector3::reflected(&v(1.0, -1.0, 0.0), &v(0.0, 1.0, 0.0)), v(1.0, 1.0, 0.0));
}

#[test]
fn axes_follow_one_another() {
    assert_eq!(Axis::X.next(), Axis::Y);
    assert_eq!(Axis::Y.next(), Axis::Z);
    assert_eq!(Axis::Z.next(), Axis::X);
}

#[test]
fn scalar_arithmetic_rounds_to_nearest() {
    assert_eq!(s(1.5).mul(s(2.5)), s(3.75));
    assert_eq!(Scalar::from_raw(3).mul(s(0.5)), Scalar::from_raw(2));
    assert_eq!(Scalar::from_raw(-3).mul(s(0.5)), Scalar::from_raw(-2));
    assert_eq!(Scalar::from_raw(1).mul(s(0.4)), Scalar::from_raw(0));
    assert_eq!(s(1.0).div(s(3.0)), Scalar::from_raw(333_333));
    assert_eq!(s(2.0).div(s(3.0)), Scalar::from_raw(666_667));
    assert_eq!(s(-2.0).div(s(3.0)), Scalar::from_raw(-666_667));
    assert_eq!(s(2.0).div(s(-3.0)), Scalar::from_raw(-666_667));
    assert_eq!(s(2.0).sqrt(), Scalar::from_raw(1_414_213));
    assert_eq!(s(-2.0).sqrt(), s(0.0));
    assert_eq!(s(-2.5).abs(), s(2.5));
    assert_eq!(s(-2.5).neg(), s(2.5));
    assert_eq!(s(1.0).min(s(2.0)), s(1.0));
    assert_eq!(s(1.0).max(s(2.0)), s(2.0));
    assert_eq!(Scalar::from_int(7), s(7.0));
    assert_eq!(Scalar::from_ratio(1, 8), s(0.125));
    assert_eq!(Scalar::one().raw(), 1_000_000);
    assert_eq!(Scalar::epsilon().raw(), 1);
}

#[test]
fn scalar_arithmetic_saturates() {
    let most = Scalar::max_value();
    let least = Scalar::from_raw(i32::MIN);
    assert_eq!(most.add(s(1.0)), most);
    assert_eq!(least.sub(s(1.0)), least);
    assert_eq!(least.neg(), most);
    assert_eq!(least.abs(), most);
    assert_eq!(s(2000.0).mul(s(2000.0)), most);
    assert_eq!(s(2000.0).mul(s(-2000.0)), least);
    assert_eq!(s(1.0).div(s(0.0)), most);
    assert_eq!(s(-1.0).div(s(0.0)), least);
    assert_eq!(s(0.0).div(s(0.0)), s(0.0));
    assert_eq!(s(1.0).div(Scalar::from_raw(1)), most);
    assert_eq!(Scalar::from_int(3000), most);
}

#[test]
fn integer_square_roots() {
    assert_eq!(isqrt_u128(0), 0);
    assert_eq!(isqrt_u128(1), 1);
    assert_eq!(isqrt_u128(24), 4);
    assert_eq!(isqrt_u128(25), 5);
    assert_eq!(isqrt_u128(26), 5);
    assert_eq!(isqrt_u128(u128::MAX), u64::MAX);
    assert_eq!(isqrt_u128(1u128 << 100), 1u64 << 50);
}

#[test]
fn sines_and_cosines_are_right_to_a_millionth() {
    let mut x = -20.0f64;
    while x < 20.0 {
        let angle = s(x);
        let exact = f(angle);
        assert_near(trig::sin(angle), exact.sin(), 1.1e-6);
        assert_near(trig::cos(angle), exact.cos(), 1.1e-6);
        x += 0.0137;
    }
    assert_eq!(trig::sin(s(0.0)), s(0.0));
    assert_eq!(trig::cos(s(0.0)), s(1.0));
    assert_eq!(trig::sin(s(0.5)), s(0.479426));
    assert_eq!(trig::cos(s(1.0)), s(0.540302));
    assert_eq!(trig::sin(s(std::f64::consts::PI / 6.0)), s(0.5));
    assert_near(trig::sin(s(2000.0)), 2000.0f64.sin(), 2e-6);
}

#[test]
fn angles_in_degrees_and_radians() {
    assert_eq!(Angle::from_degrees(s(180.0)).get_radians(), s(3.141593));
    assert_eq!(Angle::from_degrees(s(90.0)).get_radians(), s(1.570796));
    assert_eq!(Angle::from_radians(s(1.570796)).get_degrees(), s(89.999981));
    assert_eq!(Angle::from_degrees(s(30.0)).sin(), s(0.5));
    assert_eq!(Angle::from_degrees(s(60.0)).cos(), s(0.5));
    assert_eq!(Angle::from_degrees(s(90.0)).mul(s(0.5)).get_radians(), s(0.785398));
}
