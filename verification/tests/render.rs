use tdi_ray_tracer::angle::Angle;
use tdi_ray_tracer::angle_generator::AngleGenerator;
use tdi_ray_tracer::camera::Camera;
use tdi_ray_tracer::color::Color;
use tdi_ray_tracer::energy::Energy;
use tdi_ray_tracer::diffuse_material::DiffuseMaterial;
use tdi_ray_tracer::hit::Hit;
use tdi_ray_tracer::image::Image;
use tdi_ray_tracer::library::Library;
use tdi_ray_tracer::light::{Light, LightProtectedInterface, LightPublicInterface};
use tdi_ray_tracer::material::Material;
use tdi_ray_tracer::mesh::Mesh;
use tdi_ray_tracer::mesh_volume::MeshVolume;
use tdi_ray_tracer::object::{Object, ObjectArena};
use tdi_ray_tracer::parallel_light::{disc_offset_for, ParallelLight};
use tdi_ray_tracer::photon::{Photon, PhotonHit};
use tdi_ray_tracer::pipeline::{Pipeline, WorkAction, WorkEvent, WorkTracker, PHOTON_BUDGET};
use tdi_ray_tracer::pixel::Pixel;
use tdi_ray_tracer::pixel_coords::PixelCoords;
use tdi_ray_tracer::plane_volume::PlaneVolume;
use tdi_ray_tracer::quaternion::Quaternion;
use tdi_ray_tracer::random_generator::RandomGenerator;
use tdi_ray_tracer::ray::Ray;
use tdi_ray_tracer::renderer::Renderer;
use tdi_ray_tracer::scalar::Scalar;
use tdi_ray_tracer::scene::{Scene, SceneVolume};
use tdi_ray_tracer::stages::{Stage, Stages};
use tdi_ray_tracer::triangle::Triangle;
use tdi_ray_tracer::vector3::Vector3;
use tdi_ray_tracer::volume::VolumePublicInterface;

fn s(x: f64) -> Scalar {
    Scalar::from_raw((x * 1_000_000.0).round() as i32)
}

fn e(x: f64) -> Energy {
    Energy::from_raw((x * 1_000_000.0).round() as i64)
}

fn f(x: Scalar) -> f64 {
    x.raw as f64 / 1_000_000.0
}

fn v(x: f64, y: f64, z: f64) -> Vector3 {
    Vector3::new(s(x), s(y), s(z))
}

struct Lcg(u64);

impl Lcg {
    fn next(&mut self) -> u64 {
        self.0 = self.0.wrapping_mul(6364136223846793005).wrapping_add(1442695040888963407);
        self.0 >> 33
    }

    fn between(&mut self, low: f64, high: f64) -> f64 {
        low + (high - low) * (self.next() % 1_000_001) as f64 / 1_000_000.0
    }
}

fn test_triangle() -> Triangle {
    Triangle::new(v(-1.0, -1.0, 3.0), v(-1.0, 1.0, 3.0), v(1.0, 0.0, 3.0))
}

fn test_light() -> ParallelLight {
    let mut light = ParallelLight::new();
    light.set_radius(s(1.0));
    light.set_brightness(e(1000.0));
    light.set_position(v(0.25, 0.25, 1.5));
    light.set_rotation(Quaternion::from_roll_pitch_yaw(s(0.0), s(0.0), s(0.0)));
    light
}

fn test_scene(material: &str) -> Scene<MeshVolume, ParallelLight, DiffuseMaterial> {
    let material_library = Library::build_material_library();
    let camera = Camera::new(100, 100, &Angle::from_degrees(s(90.0)));
    let index = material_library.index_for_name(material);
    let volume = MeshVolume::new(index, Mesh::new("test_mesh", vec![test_triangle()]));
    Scene { camera, volumes: vec![volume], lights: vec![test_light()], material_library }
}

/// A volume that reports a hit at a fixed distance, whatever the ray.
struct Shell {
    distance: Scalar,
    index: usize,
}

impl VolumePublicInterface for Shell {
    fn material_index(&self) -> usize {
        self.index
    }

    fn world_hit(&self, ray: Ray) -> Option<Hit> {
        Some(Hit::new(ray.origin, ray.direction.neg(), self.distance, self.index))
    }

    fn get_material_index(&self) -> usize {
        self.index
    }

    fn set_material_index(&mut self, index: usize) {
        self.index = index;
    }

    fn cast_ray(&self, ray: &Ray, _cast_buffer: &mut Vec<Hit>) -> Option<Hit> {
        Some(Hit::new(ray.origin, ray.direction.neg(), self.distance, self.index))
    }
}

fn lit_photon(origin: Vector3, direction: Vector3) -> Photon {
    Photon { ray: Ray::new(origin, direction), color: Color::new(e(1.0), e(1.0), e(1.0)), bounces: 0 }
}

#[test]
fn test_renderer() {
    let mut rg = RandomGenerator::new();

    let material_library = Library::build_material_library();

    let image_width = 100;
    let image_height = 100;

    let camera = Camera::new(image_width, image_height, &Angle::from_degrees(s(90.0)));

    let triangles = vec![test_triangle()];

    let volumes: Vec<MeshVolume> = vec![MeshVolume::new(0, Mesh::new("test_mesh", triangles))];

    let light = test_light();

    let renderer = Renderer::new();

    let mut cast_buffer = Vec::<Hit>::new();

    let mut volume_hit_buffer = Vec::<PhotonHit>::new();

    let mut image = Image::new(image_width, image_height);

    let mut lit = 0;
    for _ in 0..1000 {
        let mut photon = Photon::default();

        renderer.process_light(&light, &mut photon, s(1.0), &mut rg);

        let photon_hit =
            renderer.process_photon(&photon, &mut cast_buffer, &mut volume_hit_buffer, &volumes);

        let Some(photon_hit) = photon_hit else {
            continue;
        };

        renderer.bounce_photon_hit(&photon_hit, &mut rg, &material_library);

        if renderer.process_hit(&photon_hit, &mut cast_buffer, &camera, &volumes) {
            let result = renderer.process_final_hit(&photon_hit, &camera, &material_library);

            if let Some((pc, c)) = result {
                image.set_pixel(pc.x, pc.y, Pixel::from_color(&c));
                lit += 1;
            }
        }
    }
    assert!(lit > 0);
    assert!(image.unpack().chunks(4).any(|p| p[0] != 0));
}

#[test]
fn single_triangle_is_seen_where_it_stands() {
    let scene = test_scene("default");
    let pipeline = Pipeline::new(Renderer::new());
    assert_eq!(PHOTON_BUDGET, 10_000);
    let image = pipeline.render_scene(&scene);
    assert_eq!(image.get_width(), 100);
    assert_eq!(image.get_height(), 100);

    // The pixels of the corners bound the footprint of the triangle.
    let triangle = test_triangle();
    let corners = [triangle.a, triangle.b, triangle.c];
    let pixels: Vec<PixelCoords> =
        corners.iter().map(|c| scene.camera.coord_for_point(c).unwrap()).collect();
    let left = pixels.iter().map(|p| p.x).min().unwrap();
    let right = pixels.iter().map(|p| p.x).max().unwrap();
    let bottom = pixels.iter().map(|p| p.y).min().unwrap();
    let top = pixels.iter().map(|p| p.y).max().unwrap();
    assert!(left < right && bottom < top);

    let mut inside = 0;
    for y in 0..100 {
        for x in 0..100 {
            let pixel = image.get_pixel(x, y);
            if pixel != Pixel::new(0, 0, 0) {
                assert!(left <= x && x <= right && bottom <= y && y <= top);
                inside += 1;
            }
        }
    }
    assert!(inside >= 1);
}

#[test]
fn light_of_a_cyan_surface_has_no_red() {
    let scene = test_scene("Cyan");
    let pipeline = Pipeline::new(Renderer::new());
    let mut image = Image::new(100, 100);
    let mut rg = RandomGenerator::new();
    let writes = pipeline.render_photons(&scene, 500, &mut rg, &mut image);
    assert!(writes > 0);
    let mut lit = 0;
    for y in 0..100 {
        for x in 0..100 {
            let pixel = image.get_pixel(x, y);
            assert_eq!(pixel.red, 0);
            assert_eq!(pixel.green, pixel.blue);
            if pixel.green > 0 {
                lit += 1;
            }
        }
    }
    assert!(lit > 0);
}

#[test]
fn render_ends_within_its_budget_of_writes() {
    for threshold in [0u32, 1, 3] {
        let scene = test_scene("White");
        let pipeline = Pipeline::new(Renderer::with_bounce_threshold(threshold));
        let mut image = Image::new(100, 100);
        let mut rg = RandomGenerator::new();
        let budget = 300;
        let writes = pipeline.render_photons(&scene, budget, &mut rg, &mut image);
        assert!(writes <= budget as u128 * (threshold as u128 + 1));
        for _ in 0..50 {
            let photon = pipeline.emit_photon(&scene, &mut rg);
            assert_eq!(photon.bounces, 0);
            let lit = pipeline.trace_photon(&scene, photon, &mut rg, &mut image);
            assert!(lit <= threshold as u64 + 1);
        }
    }
}

#[test]
fn photons_bounce_no_more_than_the_threshold_allows() {
    let library = Library::build_material_library();
    let mut rg = RandomGenerator::new();
    let renderer = Renderer::with_bounce_threshold(2);
    let hit = Hit::new(v(0.0, 0.0, 3.0), v(0.0, 0.0, -1.0), s(1.5), 1);
    for bounces in 0..5u32 {
        let mut photon = lit_photon(v(0.0, 0.0, 1.5), v(0.0, 0.0, 1.0));
        photon.bounces = bounces;
        let photon_hit = PhotonHit { hit, photon };
        let next = renderer.bounce_photon_hit(&photon_hit, &mut rg, &library);
        if bounces >= 2 {
            assert!(next.is_none());
        } else {
            let next = next.unwrap();
            assert_eq!(next.bounces, bounces + 1);
            assert_eq!(next.ray.origin, hit.position);
        }
    }
    assert!(Renderer::new().m_bounce_threshold == 1);
}

#[test]
fn hit_on_the_surface_just_left_is_passed_over() {
    let renderer = Renderer::new();
    let mut cast_buffer = Vec::new();
    let mut hit_buffer = Vec::new();
    let photon = lit_photon(v(0.0, 0.0, 3.0), v(0.0, 0.0, -1.0));
    for (distance, found) in [(0.0, false), (0.000001, false), (0.000002, true), (1.0, true)] {
        let volumes = vec![Shell { distance: s(distance), index: 0 }];
        let hit = renderer.process_photon(&photon, &mut cast_buffer, &mut hit_buffer, &volumes);
        assert_eq!(hit.is_some(), found);
    }
    // A hit on the surface just left does not hide a hit farther on.
    let volumes = vec![
        Shell { distance: s(0.000001), index: 0 },
        Shell { distance: s(2.0), index: 1 },
        Shell { distance: s(0.0), index: 2 },
    ];
    let hit = renderer.process_photon(&photon, &mut cast_buffer, &mut hit_buffer, &volumes).unwrap();
    assert_eq!(hit.hit.distance, s(2.0));
    assert_eq!(hit.hit.material_index, 1);
    assert_eq!(hit.photon, photon);
}

#[test]
fn photon_that_leaves_a_triangle_does_not_hit_it_again() {
    let scene = test_scene("White");
    let renderer = Renderer::with_bounce_threshold(8);
    let mut rg = RandomGenerator::new();
    let mut cast_buffer = Vec::new();
    let mut hit_buffer = Vec::new();
    let mut bounced = 0;
    for _ in 0..500 {
        let mut photon = Photon::default();
        renderer.process_light(&scene.lights[0], &mut photon, s(1.0), &mut rg);
        let Some(photon_hit) =
            renderer.process_photon(&photon, &mut cast_buffer, &mut hit_buffer, &scene.volumes)
        else {
            continue;
        };
        assert!(photon_hit.hit.distance.raw > 1);
        let Some(mut next) = renderer.bounce_photon_hit(&photon_hit, &mut rg, &scene.material_library)
        else {
            continue;
        };
        // Give the photon light, whatever the bounce left it, so that it is traced.
        next.color = Color::new(e(1.0), e(1.0), e(1.0));
        bounced += 1;
        let again = renderer.process_photon(&next, &mut cast_buffer, &mut hit_buffer, &scene.volumes);
        if let Some(again) = again {
            assert!(again.hit.distance.raw > 1);
        }
    }
    assert!(bounced > 0);
}

#[test]
fn photon_without_light_is_not_traced() {
    let renderer = Renderer::new();
    let mut cast_buffer = Vec::new();
    let mut hit_buffer = Vec::new();
    let volumes = vec![Shell { distance: s(1.0), index: 0 }];
    let mut photon = lit_photon(v(0.0, 0.0, 0.0), v(0.0, 0.0, 1.0));
    photon.color = Color::default();
    assert!(renderer.process_photon(&photon, &mut cast_buffer, &mut hit_buffer, &volumes).is_none());
    photon.color = Color::new(e(0.000001), e(0.0), e(0.0));
    assert!(renderer.process_photon(&photon, &mut cast_buffer, &mut hit_buffer, &volumes).is_some());
    let none: Vec<Shell> = Vec::new();
    assert!(renderer.process_photon(&photon, &mut cast_buffer, &mut hit_buffer, &none).is_none());
}

#[test]
fn nearest_of_several_volumes_is_hit() {
    let renderer = Renderer::new();
    let mut cast_buffer = Vec::new();
    let mut hit_buffer = Vec::new();
    let photon = lit_photon(v(0.0, 0.0, 0.0), v(0.0, 0.0, 1.0));
    let volumes = vec![
        Shell { distance: s(3.0), index: 0 },
        Shell { distance: s(2.0), index: 1 },
        Shell { distance: s(2.0), index: 2 },
        Shell { distance: s(5.0), index: 3 },
    ];
    let hit = renderer.process_photon(&photon, &mut cast_buffer, &mut hit_buffer, &volumes).unwrap();
    assert_eq!(hit.hit.distance, s(2.0));
    // Of two volumes that are equally near, the later one is hit.
    assert_eq!(hit.hit.material_index, 2);
}

#[test]
fn hit_is_seen_unless_something_stands_before_the_camera() {
    let renderer = Renderer::new();
    let camera = Camera::new(100, 100, &Angle::from_degrees(s(90.0)));
    let mut cast_buffer = Vec::new();
    let photon = lit_photon(v(0.0, 0.0, 0.0), v(0.0, 0.0, 1.0));
    let facing = PhotonHit { hit: Hit::new(v(0.0, 0.0, 3.0), v(0.0, 0.0, -1.0), s(3.0), 0), photon };
    let away = PhotonHit { hit: Hit::new(v(0.0, 0.0, 3.0), v(0.0, 0.0, 1.0), s(3.0), 0), photon };
    let behind = PhotonHit { hit: Hit::new(v(0.0, 0.0, -3.0), v(0.0, 0.0, 1.0), s(3.0), 0), photon };
    let none: Vec<Shell> = Vec::new();
    assert!(renderer.process_hit(&facing, &mut cast_buffer, &camera, &none));
    assert!(!renderer.process_hit(&away, &mut cast_buffer, &camera, &none));
    assert!(!renderer.process_hit(&behind, &mut cast_buffer, &camera, &none));
    for (distance, seen) in [(0.000001, true), (1.0, false), (3.0, false), (3.000001, true)] {
        let volumes = vec![Shell { distance: s(100.0), index: 0 }, Shell { distance: s(distance), index: 0 }];
        assert_eq!(renderer.process_hit(&facing, &mut cast_buffer, &camera, &volumes), seen);
    }
}

#[test]
fn hit_where_the_camera_stands_is_not_seen() {
    let renderer = Renderer::new();
    let mut camera = Camera::new(100, 100, &Angle::from_degrees(s(90.0)));
    camera.object.transform.position = v(0.0, 0.0, 3.0);
    let mut cast_buffer = Vec::new();
    let photon = lit_photon(v(0.0, 0.0, 0.0), v(0.0, 0.0, 1.0));
    let on_camera = PhotonHit { hit: Hit::new(v(0.0, 0.0, 3.0), v(0.0, 0.0, -1.0), s(3.0), 0), photon };
    let none: Vec<Shell> = Vec::new();
    assert!(!renderer.process_hit(&on_camera, &mut cast_buffer, &camera, &none));
    let library = Library::build_material_library();
    assert!(renderer.process_final_hit(&on_camera, &camera, &library).is_none());
}

#[test]
fn seen_hit_gives_its_pixel_the_light_of_its_material() {
    let renderer = Renderer::new();
    let camera = Camera::new(100, 100, &Angle::from_degrees(s(90.0)));
    let library = Library::build_material_library();
    let photon = lit_photon(v(0.0, 0.0, 0.0), v(0.0, 0.0, 1.0));
    let yellow = library.index_for_name("Yellow");
    let hit = PhotonHit { hit: Hit::new(v(0.0, 0.0, 3.0), v(0.0, 0.0, -1.0), s(3.0), yellow), photon };
    let (coords, color) = renderer.process_final_hit(&hit, &camera, &library).unwrap();
    assert_eq!(coords, PixelCoords::new(50, 50));
    // The photon is mirrored straight back into the pixel: all of its light arrives.
    assert_eq!(color, Color::new(e(1.0), e(1.0), e(0.0)));
    let lost = PhotonHit { hit: Hit::new(v(0.0, 0.0, -3.0), v(0.0, 0.0, -1.0), s(3.0), yellow), photon };
    assert!(renderer.process_final_hit(&lost, &camera, &library).is_none());
}

#[test]
fn bounce_and_shade_give_no_negative_light() {
    let mut rng = Lcg(3);
    let mut rg = RandomGenerator::new();
    for _ in 0..2000 {
        let material = DiffuseMaterial::from_color(
            "any",
            &Color::new(e(rng.between(0.0, 2.0)), e(rng.between(0.0, 2.0)), e(rng.between(0.0, 2.0))),
        );
        let mut photon = lit_photon(
            v(rng.between(-5.0, 5.0), rng.between(-5.0, 5.0), rng.between(-5.0, 5.0)),
            v(rng.between(-1.0, 1.0), rng.between(-1.0, 1.0), rng.between(-1.0, 1.0)),
        );
        photon.color =
            Color::new(e(rng.between(0.0, 900.0)), e(rng.between(0.0, 900.0)), e(rng.between(0.0, 9.0)));
        let normal = v(rng.between(-1.0, 1.0), rng.between(-1.0, 1.0), rng.between(-1.0, 1.0));
        let hit = Hit::new(photon.ray.origin, normal.normalize(), s(1.0), 0);
        let photon_hit = PhotonHit { hit, photon };
        let bounced = material.bounce(&photon_hit, &mut rg);
        assert!(bounced.color.red.raw >= 0 && bounced.color.green.raw >= 0 && bounced.color.blue.raw >= 0);
        assert_eq!(bounced.bounces, 1);
        assert_eq!(bounced.ray.origin, hit.position);
        let towards = v(rng.between(-1.0, 1.0), rng.between(-1.0, 1.0), rng.between(-1.0, 1.0));
        let shade = material.color_for_hit(&towards.normalize(), &photon_hit);
        assert!(shade.red.raw >= 0 && shade.green.raw >= 0 && shade.blue.raw >= 0);
    }
}

#[test]
fn diffuse_bounce_keeps_two_over_pi_of_the_light() {
    let material = DiffuseMaterial::from_color("half", &Color::new(e(0.5), e(1.0), e(0.0)));
    assert_eq!(material.get_name(), "half");
    let photon = lit_photon(v(0.0, 0.0, 0.0), v(0.0, 0.0, 1.0));
    let hit = Hit::new(v(0.0, 0.0, 3.0), v(0.0, 0.0, -1.0), s(3.0), 0);
    let photon_hit = PhotonHit { hit, photon };
    let out = material.bounce_along(&photon_hit, v(0.0, 0.6, -0.8));
    assert_eq!(out.color, Color::new(e(0.31831), e(0.63662), e(0.0)));
    assert_eq!(out.ray, Ray::new(v(0.0, 0.0, 3.0), v(0.0, 0.6, -0.8)));
    assert_eq!(out.bounces, 1);
    // Into the surface, and along it, nothing is left.
    assert_eq!(material.bounce_along(&photon_hit, v(0.0, 0.6, 0.8)).color, Color::default());
    assert_eq!(material.bounce_along(&photon_hit, v(0.0, 1.0, 0.0)).color, Color::default());
    // Seen from the side, half of one plus the cosine arrives.
    let side = material.color_for_hit(&v(0.0, 1.0, 0.0), &photon_hit);
    assert_eq!(side, Color::new(e(0.25), e(0.5), e(0.0)));
    assert_eq!(DiffuseMaterial::new("white").m_color, Color::new(e(1.0), e(1.0), e(1.0)));
}

#[test]
fn offset_vectors_turn_about_the_centre() {
    let generator = AngleGenerator::default();
    assert_eq!(generator.max_angle, s(3.141593));
    assert_eq!(generator.map(s(0.5)), s(1.570797));
    assert_eq!(AngleGenerator::new(s(2.0), 2).map(s(0.5)), s(0.5));
    assert_eq!(AngleGenerator::new(s(2.0), 0).map(s(0.5)), s(2.0));
    let centre = v(0.0, 0.0, 1.0);
    // No angle off the centre: the centre itself.
    assert_eq!(generator.offset_vector(&centre, s(1.0), s(0.0)), centre);
    // A quarter turn off the centre, not turned about it: across, along X, downwards.
    let across = generator.offset_vector(&centre, s(0.0), s(0.5));
    assert!(f(across.x) < -0.99999 && f(across.y).abs() < 1e-5 && f(across.z).abs() < 1e-5);
    let mut rg = RandomGenerator::new();
    for _ in 0..200 {
        let drawn = generator.generate_offset_vector(&centre, &mut rg);
        assert!((f(drawn.norm()) - 1.0).abs() < 1e-4);
        let angle = generator.generate(&mut rg);
        assert!(f(angle) >= -3.141594 && f(angle) < 3.141594);
    }
}

#[test]
fn sphere_points_lie_on_the_sphere() {
    assert_eq!(Vector3::sphere_point(s(0.0), s(0.0), s(2.0)), v(0.0, 0.0, 2.0));
    assert_eq!(Vector3::sphere_point(s(0.0), s(0.5), s(2.0)), v(2.0, 0.0, 0.0));
    assert_eq!(Vector3::sphere_point(s(0.0), s(1.0), s(3.0)), v(0.0, 0.0, -3.0));
    let quarter = Vector3::sphere_point(s(0.25), s(0.5), s(1.0));
    assert!(f(quarter.x).abs() < 2e-6 && (f(quarter.y) - 1.0).abs() < 2e-6);
    let mut rg = RandomGenerator::new();
    for _ in 0..500 {
        let on = Vector3::random_sphere(&mut rg, s(4.0));
        assert!((f(on.norm()) - 4.0).abs() < 1e-4);
        let within = Vector3::random(&mut rg, s(0.5));
        assert!(f(within.norm()) < 0.5 + 1e-5);
    }
}

#[test]
fn parallel_light_sends_photons_from_its_disc() {
    let mut light = test_light();
    assert_eq!(light.get_brightness(), e(1000.0));
    assert_eq!(light.light.m_area, e(3.141593));
    assert_eq!(light.light.get_lumens(), e(3141.593));
    light.set_brightness(e(10.0));
    assert_eq!(light.light.get_lumens(), e(31.41593));
    let mut floodlight = ParallelLight::new();
    floodlight.set_radius(s(30.0));
    floodlight.set_brightness(e(5000.0));
    assert_eq!(floodlight.light.m_area, e(2827.4337));
    assert_eq!(floodlight.light.get_lumens(), e(14_137_168.5));
    light.set_color(Color::new(e(1.0), e(0.5), e(0.0)));
    assert_eq!(light.get_color(), Color::new(e(1.0), e(0.5), e(0.0)));
    let mut rg = RandomGenerator::new();
    for _ in 0..500 {
        let mut photon = Photon::default();
        photon.bounces = 7;
        light.emit(&mut photon, s(0.5), &mut rg);
        assert_eq!(photon.bounces, 0);
        assert_eq!(photon.ray.direction, v(0.0, 0.0, 1.0));
        assert_eq!(photon.color, Color::new(e(15.707965), e(7.853983), e(0.0)));
        let offset = photon.ray.origin.sub(v(0.25, 0.25, 1.5));
        assert_eq!(offset.z, s(0.0));
        assert!(f(offset.norm()) <= 1.0 + 1e-5);
    }
    // A point drawn a quarter of the radius out lands half of the radius out.
    assert_eq!(disc_offset_for(v(0.0, 1.0, 5.0), v(0.0, 0.0, 1.0), s(4.0)), v(0.0, 2.0, 0.0));
    let point = Light::new(tdi_ray_tracer::parallel_light::ParallelLightStrategy { m_radius: s(0.0) });
    assert_eq!(point.get_lumens(), e(0.0));
    let mut photon = Photon::default();
    point.emit(&mut photon, s(1.0), &mut rg);
    assert_eq!(photon.ray.origin, v(0.0, 0.0, 0.0));
    assert_eq!(point.object().position(), v(0.0, 0.0, 0.0));
}

#[test]
fn photon_leaves_as_the_last_light_sends_it() {
    let mut scene = test_scene("White");
    let mut second = ParallelLight::new();
    second.set_brightness(e(2.0));
    second.set_rotation(Quaternion::from_axis_angle(v(0.0, 1.0, 0.0), s(3.141593)));
    scene.lights.push(second);
    let pipeline = Pipeline::new(Renderer::new());
    let mut rg = RandomGenerator::new();
    let photon = pipeline.emit_photon(&scene, &mut rg);
    assert_eq!(photon.color, Color::new(e(2.0), e(2.0), e(2.0)));
    assert!(f(photon.ray.direction.z) < -0.9999);
    scene.lights.clear();
    let dark = pipeline.emit_photon(&scene, &mut rg);
    assert_eq!(dark.color, Color::default());
}

#[test]
fn scene_holds_volumes_of_several_kinds() {
    let mesh = MeshVolume::new(2, Mesh::new("test_mesh", vec![test_triangle()]));
    let mut volumes = vec![SceneVolume::Plane(PlaneVolume::new(1)), SceneVolume::Mesh(mesh)];
    let mut buffer = Vec::new();
    let ray = Ray::new(v(0.0, 0.0, 0.0), v(0.0, 0.0, 1.0));
    assert!(volumes[0].cast_ray(&ray, &mut buffer).is_none());
    let hit = volumes[1].cast_ray(&ray, &mut buffer).unwrap();
    assert_eq!(hit.position, v(0.0, 0.0, 3.0));
    assert_eq!(hit.material_index, 2);
    assert_eq!(volumes[0].get_material_index(), 1);
    volumes[1].set_material_index(4);
    assert_eq!(volumes[1].cast_ray(&ray, &mut buffer).unwrap().material_index, 4);
}

#[test]
fn mesh_volume_is_hit_where_it_stands() {
    let mut volume = MeshVolume::new(0, Mesh::new("test_mesh", vec![test_triangle()]));
    volume.volume.object.transform.position = v(10.0, 0.0, 0.0);
    let mut buffer = Vec::new();
    assert!(volume.cast_ray(&Ray::new(v(0.0, 0.0, 0.0), v(0.0, 0.0, 1.0)), &mut buffer).is_none());
    let hit = volume.cast_ray(&Ray::new(v(10.0, 0.0, 0.0), v(0.0, 0.0, 1.0)), &mut buffer).unwrap();
    assert_eq!(hit.position, v(10.0, 0.0, 3.0));
    assert_eq!(hit.normal, v(0.0, 0.0, -1.0));
    assert_eq!(hit.distance, s(3.0));
    assert_eq!(volume.get_mesh().m_name, "test_mesh");
    volume.set_mesh(Mesh::new("empty", Vec::new()));
    assert!(volume.cast_ray(&Ray::new(v(10.0, 0.0, 0.0), v(0.0, 0.0, 1.0)), &mut buffer).is_none());
}

#[test]
fn library_keeps_items_under_their_names() {
    let mut library: Library<u32> = Library::new();
    assert_eq!(library.len(), 0);
    library.add("one", 1);
    library.add("two", 2);
    assert!(library.try_add("three", 3));
    assert!(!library.try_add("two", 22));
    assert_eq!(library.len(), 3);
    assert_eq!(library.index_for_name("two"), 1);
    assert_eq!(*library.fetch("three"), 3);
    assert_eq!(*library.fetch_by_index(0), 1);
    assert_eq!(library.find("four"), None);
    assert_eq!(library.find("one"), Some(0));
    assert_eq!(library.get(2), Some(&3));
    assert_eq!(library.get(3), None);
    *library.fetch_mut("two") = 20;
    assert_eq!(*library.fetch("two"), 20);
    assert_eq!(*library.fetch("one"), 1);
    assert_eq!(library.len(), 3);
}

#[test]
fn stock_materials_stand_under_their_names() {
    let library = Library::build_material_library();
    assert_eq!(library.len(), 9);
    let names = ["default", "White", "Black", "Red", "Yellow", "Green", "Cyan", "Blue", "Magenta"];
    let channels = [
        (1.0, 1.0, 1.0),
        (1.0, 1.0, 1.0),
        (0.0, 0.0, 0.0),
        (1.0, 0.0, 0.0),
        (1.0, 1.0, 0.0),
        (0.0, 1.0, 0.0),
        (0.0, 1.0, 1.0),
        (0.0, 0.0, 1.0),
        (1.0, 0.0, 1.0),
    ];
    for (i, name) in names.iter().enumerate() {
        assert_eq!(library.index_for_name(name), i);
        let material = library.fetch_by_index(i);
        assert_eq!(material.get_name(), *name);
        let (r, g, b) = channels[i];
        assert_eq!(material.m_color, Color::new(e(r), e(g), e(b)));
    }
}

#[test]
fn image_holds_its_pixels_row_by_row() {
    let mut image = Image::new(3, 2);
    assert_eq!(image.get_width(), 3);
    assert_eq!(image.get_height(), 2);
    assert_eq!(image.get_pixel(2, 1), Pixel::new(0, 0, 0));
    image.set_pixel(0, 0, Pixel::new(255, 0, 0));
    image.set_pixel(2, 1, Pixel::new(1, 2, 3));
    image.set_pixel(1, 0, Pixel::new(256, 65535, 511));
    assert_eq!(image.get_pixel(2, 1), Pixel::new(1, 2, 3));
    assert_eq!(
        image.unpack(),
        vec![
            255, 0, 0, 255, 0, 255, 255, 255, 0, 0, 0, 255, 0, 0, 0, 255, 0, 0, 0, 255, 1, 2, 3,
            255
        ]
    );
    image.accumulate(2, 1, Pixel::new(10, 20, 65535));
    assert_eq!(image.get_pixel(2, 1), Pixel::new(11, 22, 65535));
    image.clear();
    assert_eq!(image.unpack(), [0u8, 0, 0, 255].repeat(6));
    assert!(Image::new(0, 5).unpack().is_empty());
}

#[test]
fn pixels_take_their_levels_from_colours() {
    assert_eq!(Pixel::from_color(&Color::new(e(1.0), e(0.5), e(0.0))), Pixel::new(255, 127, 0));
    assert_eq!(Pixel::from_color(&Color::new(e(-1.0), e(0.004), e(257.0))), Pixel::new(0, 1, 65535));
    assert_eq!(Pixel::from_color(&Color::new(e(2000.0), e(0.003921), e(0.003922))), Pixel::new(65535, 0, 1));
    assert_eq!(Pixel::new(1, 2, 3).plus(Pixel::new(65535, 0, 65532)), Pixel::new(65535, 2, 65535));
    assert_eq!(PixelCoords::new(3, 4), PixelCoords { x: 3, y: 4 });
}

#[test]
fn attached_objects_stand_in_their_parents_frames() {
    let mut arena = ObjectArena::new();
    let mut root = Object::new();
    root.m_name = String::from("root");
    root.transform.position = v(1.0, 0.0, 0.0);
    root.transform.rotation = Quaternion::new(s(0.0), s(0.0), s(1.0), s(0.0));
    let mut arm = Object::new();
    arm.m_name = String::from("arm");
    arm.transform.position = v(2.0, 3.0, 4.0);
    let root = arena.insert(root);
    let arm = arena.insert(arm);
    assert_eq!(arena.len(), 2);
    assert_eq!(arena.position(arm), v(2.0, 3.0, 4.0));
    assert!(!arena.set_parent(root, arm));
    assert!(!arena.set_parent(arm, arm));
    assert!(arena.set_parent(arm, root));
    // The root is turned half round about Z.
    assert_eq!(arena.position(arm), v(-1.0, -3.0, 4.0));
    assert_eq!(arena.rotation(arm), Quaternion::new(s(0.0), s(0.0), s(1.0), s(0.0)));
    assert_eq!(arena.forward(arm), v(0.0, 0.0, 1.0));
    assert_eq!(arena.get_child(root, "arm"), Some(arm));
    assert_eq!(arena.get_child(root, "leg"), None);
    assert_eq!(arena.get_child(arm, "arm"), None);
    arena.remove_child(arm, root);
    assert_eq!(arena.get_child(root, "arm"), Some(arm));
    arena.remove_child(root, arm);
    assert_eq!(arena.get_child(root, "arm"), None);
    assert!(arena.add_child(root, arm));
    let alone = Object::new();
    assert_eq!(alone.position(), v(0.0, 0.0, 0.0));
    assert_eq!(alone.rotation(), Quaternion::default());
    assert_eq!(alone.forward(), v(0.0, 0.0, 1.0));
}

#[test]
fn stages_come_to_rest_in_any_order() {
    let scene = test_scene("White");
    let mut rng = Lcg(5);
    let mut rg = RandomGenerator::new();
    let all = [Stage::Emission, Stage::Intersection, Stage::Routing, Stage::Accumulation];
    for threshold in [0u32, 2] {
        let pipeline = Pipeline::new(Renderer::with_bounce_threshold(threshold));
        let budget = 120usize;
        let mut stages = Stages::new(budget, threshold);
        let mut image = Image::new(100, 100);
        assert!(!stages.at_rest());
        let mut steps = 0u64;
        let mut idle = 0u64;
        while !stages.at_rest() {
            let stage = all[(rng.next() % 4) as usize];
            let had_work = match stage {
                Stage::Emission => stages.to_emit > 0,
                Stage::Intersection => !stages.photons.is_empty(),
                Stage::Routing => !stages.hits.is_empty(),
                Stage::Accumulation => !stages.final_hits.is_empty(),
            };
            let progressed = pipeline.step_stage(&scene, &mut stages, stage, &mut rg, &mut image);
            assert_eq!(progressed, had_work);
            if progressed {
                steps += 1;
            } else {
                idle += 1;
            }
            let in_flight = stages.photons.len() + stages.hits.len() + stages.final_hits.len();
            assert_eq!(stages.tracker.outstanding, in_flight as u64);
            assert_eq!(stages.tracker.emitting, stages.to_emit > 0);
            assert_eq!(stages.tracker.is_quiescent(), stages.at_rest());
            assert!(idle < 1_000_000);
        }
        // No more steps than the effort that was foreseen, and no more pixels than hits.
        assert!(steps <= budget as u64 * (3 * threshold as u64 + 4));
        assert!(stages.writes <= budget as u128 * (threshold as u128 + 1));
        assert!(stages.writes > 0);
        let lit = image.unpack().chunks(4).filter(|p| p[0] != 0).count();
        assert!(lit > 0 && lit as u128 <= stages.writes);
    }
    let empty = Stages::new(0, 3);
    assert!(empty.at_rest());
    assert!(empty.tracker.is_quiescent());
}

#[test]
fn stages_in_turn_light_no_more_pixels_than_there_are_hits() {
    let scene = test_scene("White");
    let mut rg = RandomGenerator::new();
    let pipeline = Pipeline::new(Renderer::with_bounce_threshold(1));
    let mut image = Image::new(100, 100);
    let writes = pipeline.run_stages(&scene, 300, &mut rg, &mut image);
    assert!(writes > 0 && writes <= 600);
}

#[test]
fn photon_is_traced_from_hit_to_hit() {
    let scene = test_scene("White");
    let mut rg = RandomGenerator::new();
    // A photon that is sent on no more lights the pixel of its one hit.
    let pipeline = Pipeline::new(Renderer::with_bounce_threshold(0));
    let mut image = Image::new(100, 100);
    let photon = lit_photon(v(0.0, 0.0, 1.5), v(0.0, 0.0, 1.0));
    assert_eq!(pipeline.trace_photon(&scene, photon, &mut rg, &mut image), 1);
    for y in 0..100 {
        for x in 0..100 {
            let expected = if (x, y) == (50, 50) { Pixel::new(255, 255, 255) } else { Pixel::new(0, 0, 0) };
            assert_eq!(image.get_pixel(x, y), expected);
        }
    }
    // The same photon again adds its light to the same pixel.
    assert_eq!(pipeline.trace_photon(&scene, photon, &mut rg, &mut image), 1);
    assert_eq!(image.get_pixel(50, 50), Pixel::new(510, 510, 510));
    // A photon that flies away from the triangle, and one without light, light nothing.
    let away = lit_photon(v(0.0, 0.0, 1.5), v(0.0, 0.0, -1.0));
    assert_eq!(pipeline.trace_photon(&scene, away, &mut rg, &mut image), 0);
    let mut dark = photon;
    dark.color = Color::default();
    assert_eq!(pipeline.trace_photon(&scene, dark, &mut rg, &mut image), 0);
    assert_eq!(image.get_pixel(50, 50), Pixel::new(510, 510, 510));
    // Sent on once, the photon makes one or two hits, of which the first is seen.
    let pipeline = Pipeline::new(Renderer::with_bounce_threshold(1));
    for _ in 0..50 {
        let lit = pipeline.trace_photon(&scene, photon, &mut rg, &mut image);
        assert!(lit == 1 || lit == 2);
    }
}

#[test]
fn stages_render_what_tracing_renders() {
    // A light without extent sends every photon the same way, and photons
    // that are sent on no more leave nothing to chance.
    let mut scene = test_scene("Yellow");
    let mut light = ParallelLight::new();
    light.set_brightness(e(0.5));
    light.set_position(v(0.25, 0.25, 1.5));
    scene.lights = vec![light];
    let pipeline = Pipeline::new(Renderer::with_bounce_threshold(0));
    let mut rg = RandomGenerator::new();
    let mut traced = Image::new(100, 100);
    let mut staged = Image::new(100, 100);
    assert_eq!(pipeline.render_photons(&scene, 7, &mut rg, &mut traced), 7);
    assert_eq!(pipeline.run_stages(&scene, 7, &mut rg, &mut staged), 7);
    assert_eq!(traced.unpack(), staged.unpack());
    let place = scene.camera.coord_for_point(&v(0.25, 0.25, 3.0)).unwrap();
    let lit = traced.get_pixel(place.x, place.y);
    assert!(lit.red > 0 && lit.red == lit.green && lit.blue == 0);
    assert_eq!(lit.red % 7, 0);
    let mut count = 0;
    for y in 0..100 {
        for x in 0..100 {
            if traced.get_pixel(x, y) != Pixel::new(0, 0, 0) {
                count += 1;
            }
        }
    }
    assert_eq!(count, 1);
    assert_eq!(pipeline.render_photons(&scene, 0, &mut rg, &mut traced), 0);
    assert_eq!(pipeline.run_stages(&scene, 0, &mut rg, &mut staged), 0);
    assert_eq!(traced.unpack(), staged.unpack());
}

#[test]
fn queues_close_when_all_work_is_done() {
    let mut tracker = WorkTracker::new();
    assert!(!tracker.is_quiescent());
    assert_eq!(tracker.step(WorkEvent::Enqueued), WorkAction::Continue);
    assert_eq!(tracker.step(WorkEvent::Enqueued), WorkAction::Continue);
    assert_eq!(tracker.step(WorkEvent::Processed), WorkAction::Continue);
    assert_eq!(tracker.step(WorkEvent::Processed), WorkAction::Continue);
    assert_eq!(tracker.outstanding, 0);
    assert_eq!(tracker.step(WorkEvent::Enqueued), WorkAction::Continue);
    assert_eq!(tracker.step(WorkEvent::EmissionFinished), WorkAction::Continue);
    assert_eq!(tracker.step(WorkEvent::Enqueued), WorkAction::Continue);
    assert_eq!(tracker.step(WorkEvent::Processed), WorkAction::Continue);
    assert_eq!(tracker.step(WorkEvent::Processed), WorkAction::CloseQueues);
    assert!(tracker.is_quiescent());
    assert_eq!(tracker.step(WorkEvent::Processed), WorkAction::CloseQueues);
    let mut idle = WorkTracker::new();
    assert_eq!(idle.step(WorkEvent::EmissionFinished), WorkAction::CloseQueues);
}

#[test]
fn queues_close_when_the_render_is_given_up() {
    let mut tracker = WorkTracker::new();
    assert_eq!(tracker.step(WorkEvent::Enqueued), WorkAction::Continue);
    assert_eq!(tracker.step(WorkEvent::Cancelled), WorkAction::CloseQueues);
    assert!(!tracker.is_quiescent());
    assert_eq!(tracker.step(WorkEvent::Enqueued), WorkAction::CloseQueues);
    assert_eq!(tracker.step(WorkEvent::Processed), WorkAction::CloseQueues);
    assert_eq!(tracker.outstanding, 1);
}
