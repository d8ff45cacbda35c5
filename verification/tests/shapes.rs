use tdi_ray_tracer::angle::Angle;
use tdi_ray_tracer::bounds::Bounds;
use tdi_ray_tracer::camera::Camera;
use tdi_ray_tracer::limits::Limits;
use tdi_ray_tracer::pixel_coords::PixelCoords;
use tdi_ray_tracer::plane::Plane;
use tdi_ray_tracer::pyramid::Pyramid;
use tdi_ray_tracer::quaternion::Quaternion;
use tdi_ray_tracer::ray::Ray;
use tdi_ray_tracer::scalar::Scalar;
use tdi_ray_tracer::tree::{Bounded, Intersectable, Pivotable};
use tdi_ray_tracer::triangle::Triangle;
use tdi_ray_tracer::vector3::{Axis, Vector3};
use tdi_ray_tracer::volume::{Volume, VolumePublicInterface, VolumeStrategy};

fn s(x: f64) -> Scalar {
    Scalar::from_raw((x * 1_000_000.0).round() as i32)
}

fn f(x: Scalar) -> f64 {
    x.raw as f64 / 1_000_000.0
}

fn v(x: f64, y: f64, z: f64) -> Vector3 {
    Vector3::new(s(x), s(y), s(z))
}

fn assert_near(actual: Scalar, expected: f64, tolerance: f64) {
    assert!(
        (f(actual) - expected).abs() < tolerance,
        "{} is not within {} of {}",
        f(actual),
        tolerance,
        expected
    );
}

struct Lcg(u64);

impl Lcg {
    fn next(&mut self) -> u64 {
        self.0 = self.0.wrapping_mul(6364136223846793005).wrapping_add(1442695040888963407);
        self.0 >> 33
    }

    fn between(&mut self, low: f64, high: f64) -> f64 {
        low + (high - low) * (self.next() % 1_000_001) as f64 / 1_000_000.0
    }
}

#[test]
fn triangle_new() {
    let a = v(2.0, 3.0, 4.0);
    let b = v(5.0, 6.0, 7.0);
    let c = v(1.0, 8.0, 9.0);

    let triangle = Triangle::new(a, b, c);

    assert_eq!(triangle.a, a);
    assert_eq!(triangle.b, b);
    assert_eq!(triangle.c, c);

    assert_near(triangle.center.get_x(), 2.6666666666666665, 1e-6f64);
    assert_near(triangle.center.get_y(), 5.666666666666667, 1e-6f64);
    assert_near(triangle.center.get_z(), 6.666666666666667, 1e-6f64);

    assert_near(triangle.normal.get_x(), 0.0, 1e-6f64);
    assert_near(triangle.normal.get_y(), -std::f64::consts::FRAC_1_SQRT_2, 1e-6f64);
    assert_near(triangle.normal.get_z(), std::f64::consts::FRAC_1_SQRT_2, 1e-6f64);

    assert_near(triangle.a_normal.get_x(), 0.0, 1e-6f64);
    assert_near(triangle.a_normal.get_y(), -std::f64::consts::FRAC_1_SQRT_2, 1e-6f64);
    assert_near(triangle.a_normal.get_z(), std::f64::consts::FRAC_1_SQRT_2, 1e-6f64);

    assert_near(triangle.b_normal.get_x(), 0.0, 1e-6f64);
    assert_near(triangle.b_normal.get_y(), -std::f64::consts::FRAC_1_SQRT_2, 1e-6f64);
    assert_near(triangle.b_normal.get_z(), std::f64::consts::FRAC_1_SQRT_2, 1e-6f64);

    assert_near(triangle.c_normal.get_x(), 0.0, 1e-6f64);
    assert_near(triangle.c_normal.get_y(), -std::f64::consts::FRAC_1_SQRT_2, 1e-6f64);
    assert_near(triangle.c_normal.get_z(), std::f64::consts::FRAC_1_SQRT_2, 1e-6f64);
}

#[test]
fn triangle_ray_intersects() {
    // intersection from the correct side
    let ray1 = Ray::new(v(0.25, 0.25, -1.0), v(0.0, 0.0, 1.0));

    // intersection from the wrong side
    let ray2 = Ray::new(v(0.25, 0.25, 1.0), v(0.0, 0.0, -1.0));

    let near_miss_ray = Ray::new(v(0.51, 0.51, -1.0), v(0.0, 0.0, 1.0));

    let triangle = Triangle::new(v(0.0, 0.0, 0.0), v(0.0, 1.0, 0.0), v(1.0, 0.0, 0.0));

    assert!(triangle.ray_intersects(&ray1).is_some());
    assert!(triangle.ray_intersects(&ray2).is_none());
    assert!(triangle.ray_intersects(&near_miss_ray).is_none());
}

#[test]
fn triangle_hit_has_position_normal_and_distance() {
    let triangle = Triangle::new(v(0.0, 0.0, 0.0), v(0.0, 1.0, 0.0), v(1.0, 0.0, 0.0));
    // The direction is four units long: the distance must not depend on it.
    let hit = triangle.ray_intersects(&Ray::new(v(0.25, 0.5, -2.0), v(0.0, 0.0, 4.0))).unwrap();
    assert_eq!(hit.position, v(0.25, 0.5, 0.0));
    assert_eq!(hit.normal, v(0.0, 0.0, -1.0));
    assert_eq!(hit.distance, s(2.0));
    assert_eq!(hit.material_index, 0);
    // At a slant.
    let hit = triangle.ray_intersects(&Ray::new(v(3.25, 0.25, -4.0), v(-3.0, 0.0, 4.0))).unwrap();
    assert_eq!(hit.position, v(0.25, 0.25, 0.0));
    assert_eq!(hit.distance, s(5.0));
    // On an edge and on a corner.
    assert!(triangle.ray_intersects(&Ray::new(v(0.5, 0.5, -1.0), v(0.0, 0.0, 1.0))).is_some());
    assert!(triangle.ray_intersects(&Ray::new(v(0.0, 0.0, -1.0), v(0.0, 0.0, 1.0))).is_some());
    // Behind the origin of the ray, and along the plane.
    assert!(triangle.ray_intersects(&Ray::new(v(0.25, 0.25, 1.0), v(0.0, 0.0, 1.0))).is_none());
    assert!(triangle.ray_intersects(&Ray::new(v(-1.0, 0.25, 0.0), v(1.0, 0.0, 0.0))).is_none());
    // A ray that does not move hits nothing.
    assert!(triangle.ray_intersects(&Ray::new(v(0.25, 0.25, 0.0), v(0.0, 0.0, 0.0))).is_none());
    // A triangle without area is never hit.
    let flat = Triangle::new(v(0.0, 0.0, 0.0), v(0.0, 0.0, 1.0), v(0.0, 0.0, 2.0));
    assert!(flat.ray_intersects(&Ray::new(v(0.0, 0.0, 0.0), v(1.0, 1.0, 1.0))).is_none());
}

#[test]
fn triangle_hits_lie_in_the_triangle_and_not_on_its_back() {
    let mut rng = Lcg(7);
    let mut hits = 0;
    for _ in 0..4000 {
        let mut corner = || v(rng.between(-5.0, 5.0), rng.between(-5.0, 5.0), rng.between(2.0, 6.0));
        let triangle = Triangle::new(corner(), corner(), corner());
        let origin = v(rng.between(-1.0, 1.0), rng.between(-1.0, 1.0), rng.between(-3.0, 0.0));
        // Towards some point of the triangle's plane that is mostly within the triangle.
        let (p, q) = (rng.between(-0.1, 0.6), rng.between(-0.1, 0.6));
        let target = triangle.get_position(v(1.0 - p - q, p, q));
        let direction = target.sub(origin).mul(s(rng.between(0.1, 3.0)));
        let ray = Ray::new(origin, direction);
        let reversed = Ray::new(origin, direction.neg());
        if let Some(hit) = triangle.ray_intersects(&ray) {
            hits += 1;
            assert!(triangle.get_bounds().contains(hit.position));
            assert!(triangle.get_bounds().ray_intersects(&ray));
            assert!(triangle.ray_intersects(&reversed).is_none());
            assert!(hit.distance.raw >= 0);
            // The point lies in the plane of the triangle, to within the rounding.
            let offset = hit.position.sub(triangle.a);
            assert_near(Vector3::dot(&offset, &triangle.normal), 0.0, 2e-5);
            // The point lies on the ray, to within the rounding.
            let along = Vector3::cross(&hit.position.sub(origin), &direction.normalize());
            assert_near(along.norm(), 0.0, 5e-5);
            let length = f(hit.normal.norm());
            assert!((length - 1.0).abs() < 1e-5);
        }
    }
    assert!(hits > 100);
}

#[test]
fn triangle_weights_give_the_corners() {
    let triangle = Triangle::new(v(2.0, 3.0, 4.0), v(5.0, 6.0, 7.0), v(1.0, 8.0, 9.0));
    assert_eq!(triangle.get_position(v(1.0, 0.0, 0.0)), triangle.a);
    assert_eq!(triangle.get_position(v(0.0, 1.0, 0.0)), triangle.b);
    assert_eq!(triangle.get_position(v(0.0, 0.0, 1.0)), triangle.c);
    assert_eq!(triangle.get_position(v(0.5, 0.25, 0.25)), v(2.5, 5.0, 6.0));
    assert_eq!(triangle.get_normal(v(0.2, 0.3, 0.5)), triangle.normal);
    assert_eq!(triangle.get_limits(&Axis::X), Limits::new(s(1.0), s(5.0)));
    assert_eq!(
        triangle.get_bounds(),
        Bounds::from_vectors(v(1.0, 3.0, 4.0), v(5.0, 8.0, 9.0))
    );
    assert_eq!(triangle.get_pivot(), triangle.center);
    assert_eq!(triangle.get_pivot_component(&Axis::Z), s(6.666667));
}

#[test]
fn plane_new() {
    let a = v(2.0, 3.0, 4.0);
    let b = v(5.0, 6.0, 7.0);
    let c = v(1.0, 8.0, 9.0);

    let plane = Plane::new(a, b, c);

    assert_near(plane.normal.get_x(), 0.0, 1e-6f64);
    assert_near(plane.normal.get_y(), -std::f64::consts::FRAC_1_SQRT_2, 1e-6f64);
    assert_near(plane.normal.get_z(), std::f64::consts::FRAC_1_SQRT_2, 1e-6f64);
    assert_near(plane.dot, std::f64::consts::FRAC_1_SQRT_2, 1e-6f64);
}

#[test]
fn plane_point_above_plane() {
    let a = v(2.0, 3.0, 4.0);
    let b = v(5.0, 6.0, 7.0);
    let c = v(1.0, 8.0, 9.0);

    let plane = Plane::new(a, b, c);

    let point_above = v(0.0, 0.0, 10.0);
    let point_below = v(0.0, 20.0, 10.0);

    assert_eq!(plane.point_above_plane(&point_above), true);
    assert_eq!(plane.point_above_plane(&point_below), false);
}

#[test]
fn plane_ray_intersects() {
    // intersection from the correct side
    let ray1 = Ray::new(v(0.25, 0.25, -1.0), v(0.0, 0.0, 1.0));

    // intersection from the wrong side still intersects because this is a plane and not a triangle
    let ray2 = Ray::new(v(0.25, 0.25, 1.0), v(0.0, 0.0, -1.0));

    // near miss still intersects because this is a plane and not a triangle
    let near_miss_ray = Ray::new(v(0.51, 0.51, -1.0), v(0.0, 0.0, 1.0));

    let plane = Plane::new(v(0.0, 0.0, 0.0), v(1.0, 0.0, 0.0), v(0.0, 1.0, 0.0));

    assert!(plane.ray_intersects(&ray1).is_some());
    assert!(plane.ray_intersects(&ray2).is_some());
    assert!(plane.ray_intersects(&near_miss_ray).is_some());
}

#[test]
fn plane_hit_has_position_and_distance() {
    let plane = Plane::new(v(0.0, 0.0, 0.0), v(1.0, 0.0, 0.0), v(0.0, 1.0, 0.0));
    let hit = plane.ray_intersects(&Ray::new(v(0.25, 0.25, -1.0), v(0.0, 0.0, 2.0))).unwrap();
    assert_eq!(hit.position, v(0.25, 0.25, 0.0));
    assert_eq!(hit.normal, v(0.0, 0.0, 1.0));
    assert_eq!(hit.distance, s(1.0));
    // Along the plane, and away from it.
    assert!(plane.ray_intersects(&Ray::new(v(0.0, 0.0, 1.0), v(1.0, 0.0, 0.0))).is_none());
    assert!(plane.ray_intersects(&Ray::new(v(0.0, 0.0, 1.0), v(0.0, 0.0, 1.0))).is_none());
}

#[test]
fn pyramid_contains_what_lies_in_its_opening() {
    let pyramid = Pyramid::new(
        v(0.0, 0.0, 0.0),
        Quaternion::from_roll_pitch_yaw(s(0.0), s(0.0), s(0.0)),
        Angle::from_degrees(s(90.0)),
        Angle::from_degrees(s(90.0)),
    );
    assert_eq!(pyramid.origin, v(0.0, 0.0, 0.0));
    assert_eq!(pyramid.direction, v(0.0, 0.0, 1.0));
    assert_eq!(pyramid.vertical, v(0.0, 0.707107, 0.0));
    assert_eq!(pyramid.horizontal, v(0.707107, 0.0, 0.0));
    assert_eq!(pyramid.vertical_dot, s(0.5));
    assert_eq!(pyramid.horizontal_dot, s(0.5));

    assert!(pyramid.contains_point(&v(0.0, 0.0, 1.0)));
    assert!(pyramid.contains_point(&v(0.0, 0.9, 1.0)));
    assert!(pyramid.contains_point(&v(0.9, 0.0, 1.0)));
    assert!(pyramid.contains_point(&v(0.9, 0.9, 1.0)));
    assert!(pyramid.contains_point(&v(0.0, 0.0, 10.0)));
    assert!(pyramid.contains_point(&v(9.0, 9.0, 10.0)));

    assert!(!pyramid.contains_point(&v(0.0, 1.1, 1.0)));
    assert!(!pyramid.contains_point(&v(1.1, 0.0, 1.0)));
    assert!(!pyramid.contains_point(&v(0.0, 11.0, 10.0)));
    assert!(!pyramid.contains_point(&v(11.0, 0.0, 10.0)));
    assert!(!pyramid.contains_point(&v(0.0, 0.0, -0.1)));

    assert!(pyramid.intersects_bounds(&Bounds::from_vectors(v(0.0, 0.0, 0.0), v(1.0, 1.0, 1.0))));
    assert!(pyramid.intersects_bounds(&Bounds::from_vectors(v(0.0, 0.0, 0.0), v(-1.0, 1.0, 1.0))));
    assert!(pyramid.intersects_bounds(&Bounds::from_vectors(v(0.9, 0.9, 0.9), v(1.1, 1.1, 1.1))));
    assert!(pyramid.intersects_bounds(&Bounds::from_vectors(v(0.0, 0.0, 0.0), v(1.0, 0.0, 0.0))));
}

#[test]
fn pyramid_places_points_in_its_opening() {
    let pyramid = Pyramid::new(
        v(0.0, 0.0, 0.0),
        Quaternion::from_roll_pitch_yaw(s(0.0), s(0.0), s(0.0)),
        Angle::from_degrees(s(90.0)),
        Angle::from_degrees(s(90.0)),
    );
    let middle = pyramid.relative_position_in_frustum(&v(0.0, 0.0, 1.0));
    assert_eq!(middle, v(0.5, 0.5, 1.0));
    let right = pyramid.relative_position_in_frustum(&v(3.0, 0.0, 4.0));
    // The direction is (0.6, 0, 0.8); across, 0.6 * 0.707107 / 0.5 = 0.848528.
    assert_eq!(right, v(0.924264, 0.5, 0.8));
}

#[test]
fn test_coord_for_point() {
    let mut camera = Camera::new(100, 100, &Angle::from_degrees(s(90.0)));
    camera.object.transform.position = v(0.0, 0.0, 0.0);
    camera.object.transform.rotation = Quaternion::from_roll_pitch_yaw(s(0.0), s(0.0), s(0.0));

    assert_eq!(camera.coord_for_point(&v(0.0, 0.0, 3.0)), Some(PixelCoords::new(50, 50)));
    assert_eq!(camera.coord_for_point(&v(0.0, 0.0, -3.0)), None);
    assert_eq!(camera.coord_for_point(&v(30.0, 0.0, 1.0)), None);
    assert_eq!(camera.coord_for_point(&v(3.0, 0.0, 4.0)), Some(PixelCoords::new(92, 50)));
    assert_eq!(camera.coord_for_point(&v(0.0, -3.0, 4.0)), Some(PixelCoords::new(50, 8)));
}

#[test]
fn test_pixel_direction() {
    let mut camera = Camera::new(100, 100, &Angle::from_degrees(s(90.0)));
    camera.object.transform.position = v(0.0, 0.0, 0.0);
    camera.object.transform.rotation = Quaternion::from_roll_pitch_yaw(s(0.0), s(0.0), s(0.0));

    assert_eq!(camera.pixel_direction(&PixelCoords::new(50, 50)), v(0.0, 0.0, 1.0));
    let corner = camera.pixel_direction(&PixelCoords::new(0, 100));
    assert_near(corner.get_x(), -(1.5707963f64.powi(2) * 0.5).sin(), 3e-6);
    assert_near(corner.get_y(), (1.5707963f64.powi(2) * 0.5).sin(), 3e-6);
}

#[test]
fn camera_keeps_its_settings() {
    let mut camera = Camera::new(200, 100, &Angle::from_degrees(s(90.0)));
    assert_eq!(camera.width(), 200);
    assert_eq!(camera.height(), 100);
    assert_eq!(camera.aspect_ratio(), s(2.0));
    assert_eq!(camera.vertical_fov().get_radians(), s(1.570796));
    assert_eq!(camera.horizontal_fov().get_radians(), s(3.141592));
    camera.set_vertical_fov(&Angle::from_radians(s(1.0)));
    assert_eq!(camera.horizontal_fov().get_radians(), s(2.0));
    camera.set_from_render_configuration(30, 40);
    assert_eq!(camera.aspect_ratio(), s(0.75));
    assert_eq!(camera.horizontal_fov().get_radians(), s(0.75));
    assert_eq!(camera.position(), v(0.0, 0.0, 0.0));
    assert_eq!(camera.forward(), v(0.0, 0.0, 1.0));
    assert!(Camera::try_new(0, 100, &Angle::from_degrees(s(90.0))).is_none());
    assert!(Camera::try_new(100, 0, &Angle::from_degrees(s(90.0))).is_none());
    assert!(Camera::try_new(1, 1, &Angle::from_degrees(s(90.0))).is_some());
}

struct Cube;

impl VolumeStrategy for Cube {
    fn local_hit(&self, ray: Ray) -> Option<tdi_ray_tracer::hit::Hit> {
        Some(tdi_ray_tracer::hit::Hit::new(ray.origin, ray.direction, s(1.0), 0))
    }

    fn cast_transformed_ray(
        &self,
        ray: &Ray,
        _cast_buffer: &mut Vec<tdi_ray_tracer::hit::Hit>,
    ) -> Option<tdi_ray_tracer::hit::Hit> {
        // Reports the ray that it was given, as the position and normal of a hit.
        Some(tdi_ray_tracer::hit::Hit::new(ray.origin, ray.direction, s(1.0), 0))
    }
}

#[test]
fn points_come_back_from_a_volumes_frame() {
    let mut rng = Lcg(11);
    let mut buffer = Vec::new();
    for sample in 0..1000 {
        let mut volume = Volume::new(3, Cube);
        let axis = v(rng.between(-1.0, 1.0), rng.between(-1.0, 1.0), rng.between(-1.0, 1.0));
        let rotation = if sample % 4 == 0 {
            Quaternion::default()
        } else {
            Quaternion::from_axis_angle(axis.normalize(), s(rng.between(-3.0, 3.0)))
        };
        if rotation.is_null() {
            continue;
        }
        let position = v(rng.between(-50.0, 50.0), rng.between(-50.0, 50.0), rng.between(-50.0, 50.0));
        volume.object.transform.position = position;
        volume.object.transform.rotation = rotation;
        let point = v(rng.between(-50.0, 50.0), rng.between(-50.0, 50.0), rng.between(-50.0, 50.0));
        // The strategy hands back the local point, which cast_ray takes to the world again.
        let back = volume.cast_ray(&Ray::new(point, v(0.0, 0.0, 1.0)), &mut buffer).unwrap();
        assert_eq!(back.material_index, 3);
        if sample % 4 == 0 {
            assert_eq!(back.position, point);
        } else {
            // Every step rounds to a millionth, and the rounding of the
            // rotation grows with the distance that it turns.
            let tolerance = 1e-5 * (1.0 + f(point.sub(position).norm()));
            assert_near(back.position.get_x(), f(point.get_x()), tolerance);
            assert_near(back.position.get_y(), f(point.get_y()), tolerance);
            assert_near(back.position.get_z(), f(point.get_z()), tolerance);
        }
        // The place where the volume stands comes back exactly, however it is turned.
        let home = volume.cast_ray(&Ray::new(position, v(0.0, 0.0, 1.0)), &mut buffer).unwrap();
        assert_eq!(home.position, position);
    }
}

#[test]
fn volume_without_rotation_is_never_hit() {
    let mut volume = Volume::new(0, Cube);
    volume.object.transform.rotation = Quaternion::new(s(0.0), s(0.0), s(0.0), s(0.0));
    let mut buffer = Vec::new();
    assert!(volume.cast_ray(&Ray::new(v(0.0, 0.0, 0.0), v(0.0, 0.0, 1.0)), &mut buffer).is_none());
    volume.set_material_index(5);
    assert_eq!(volume.get_material_index(), 5);
}
