use tdi_ray_tracer::angle::Angle;
use tdi_ray_tracer::bounds::Bounds;
use tdi_ray_tracer::hit::Hit;
use tdi_ray_tracer::limits::Limits;
use tdi_ray_tracer::median::{median, sorted_copy};
use tdi_ray_tracer::mesh::Mesh;
use tdi_ray_tracer::pyramid::Pyramid;
use tdi_ray_tracer::quaternion::Quaternion;
use tdi_ray_tracer::ray::Ray;
use tdi_ray_tracer::scalar::Scalar;
use tdi_ray_tracer::tree::{nearest_of, Bounded, Intersectable, Node, Tree};
use tdi_ray_tracer::triangle::Triangle;
use tdi_ray_tracer::vector3::{Axis, Vector3};

fn s(x: f64) -> Scalar {
    Scalar::from_raw((x * 1_000_000.0).round() as i32)
}

fn v(x: f64, y: f64, z: f64) -> Vector3 {
    Vector3::new(s(x), s(y), s(z))
}

struct Lcg(u64);

impl Lcg {
    fn next(&mut self) -> u64 {
        self.0 = self.0.wrapping_mul(6364136223846793005).wrapping_add(1442695040888963407);
        self.0 >> 33
    }

    fn between(&mut self, low: f64, high: f64) -> f64 {
        low + (high - low) * (self.next() % 1_000_001) as f64 / 1_000_000.0
    }
}

fn leaf(contents: Vec<Triangle>) -> Node<Triangle> {
    Node {
        left: None,
        right: None,
        contents,
        axis: Axis::X,
        pivot: s(0.0),
        depth: 0,
        bounds: Bounds::new(
            Limits::new(s(0.0), s(1.0)),
            Limits::new(s(0.0), s(1.0)),
            Limits::new(s(0.0), s(1.0)),
        ),
    }
}

fn three_triangles() -> Vec<Triangle> {
    vec![
        Triangle::new(v(0.0, 0.0, 0.0), v(1.0, 1.0, 0.0), v(1.0, 1.0, 1.0)),
        Triangle::new(v(0.0, 0.0, 0.0), v(2.0, 2.0, 0.0), v(1.0, 1.0, 2.0)),
        Triangle::new(v(0.0, 0.0, 0.0), v(5.0, 5.0, 0.0), v(5.0, 5.0, 5.0)),
    ]
}

#[test]
fn fetch_within_pyramid() {
    let pyramid = Pyramid::new(
        v(0.0, 0.0, 0.0),
        Quaternion::new(s(0.0), s(0.0), s(0.0), s(1.0)),
        Angle::from_radians(s(0.0)),
        Angle::from_radians(s(0.0)),
    );
    let node = leaf(vec![Triangle::new(v(0.0, 0.0, 0.0), v(0.0, 0.0, 1.0), v(0.0, 0.0, 2.0))]);

    let tree = Tree { root: node, m_page_size: 1 };

    let objects = tree.fetch_within_pyramid(&pyramid);

    assert_eq!(objects.len(), 1);
}

#[test]
fn fetch_within_pyramid_from_node() {
    let mut objects: Vec<Triangle> = Vec::new();
    let pyramid = Pyramid::new(
        v(0.0, 0.0, 0.0),
        Quaternion::new(s(0.0), s(0.0), s(0.0), s(1.0)),
        Angle::from_radians(s(0.0)),
        Angle::from_radians(s(0.0)),
    );
    let node = leaf(vec![Triangle::new(v(0.0, 0.0, 0.0), v(0.0, 0.0, 1.0), v(0.0, 0.0, 2.0))]);

    let tree = Tree { root: node, m_page_size: 1 };

    Tree::fetch_within_pyramid_from_node(&pyramid, &tree.root, &mut objects);

    assert_eq!(objects.len(), 1);
}

#[test]
#[should_panic]
fn median_pivot_component_with_empty_objects() {
    let axis = Axis::X;
    let objects: Vec<Triangle> = vec![];

    Tree::median_pivot_component(&objects, &axis);
}

#[test]
fn median_pivot_component() {
    let axis = Axis::X;
    let objects: Vec<Triangle> = three_triangles();

    assert_eq!(Tree::median_pivot_component(&objects, &axis), s(1.0));
}

#[test]
fn generate() {
    let objects: Vec<Triangle> = three_triangles();

    let tree = Tree::<Triangle>::new_with_page_size(objects, 1);

    assert_eq!(tree.root.contents.len(), 1);
}

#[test]
fn generate_splits_at_the_median() {
    let objects = three_triangles();
    let tree = Tree::<Triangle>::new_with_page_size(objects.clone(), 1);
    assert_eq!(tree.m_page_size, 1);
    assert_eq!(tree.root.axis, Axis::X);
    assert_eq!(tree.root.pivot, s(1.0));
    assert_eq!(tree.root.contents[0], objects[1]);
    assert_eq!(
        tree.root.bounds,
        Bounds::from_vectors(v(0.0, 0.0, 0.0), v(5.0, 5.0, 5.0))
    );
    let left = tree.root.left.as_ref().unwrap();
    let right = tree.root.right.as_ref().unwrap();
    assert_eq!(left.contents, vec![objects[0]]);
    assert_eq!(right.contents, vec![objects[2]]);
    assert!(left.left.is_none() && left.right.is_none());
    assert_eq!(left.bounds, objects[0].get_bounds());
    assert_eq!(tree.root.count(), 3);
    assert_eq!(tree.root.depth(), 2);

    // Up to the page size, the objects stay together in a leaf.
    let tree = Tree::<Triangle>::new_with_page_size(objects.clone(), 3);
    assert_eq!(tree.root.contents, objects);
    assert!(tree.root.left.is_none() && tree.root.right.is_none());
    assert_eq!(tree.root.count(), 1);
    assert_eq!(tree.root.depth(), 1);
    assert_eq!(Tree::new(objects).m_page_size, 1);
}

#[test]
fn generate_takes_the_upper_median_of_an_even_count() {
    let mut objects = three_triangles();
    objects.push(Triangle::new(v(6.0, 0.0, 0.0), v(9.0, 5.0, 0.0), v(9.0, 5.0, 5.0)));
    // The pivots along X are 0.666667, 1, 3.333333 and 8.
    assert_eq!(Tree::median_pivot_component(&objects, &Axis::X), s(3.333333));
    assert_eq!(median(&vec![4, 1, 3, 2]), 3);
    assert_eq!(median(&vec![5]), 5);
    assert_eq!(median(&vec![2, 2, 1]), 2);
    assert_eq!(sorted_copy(&vec![3, -1, 2, 3, 0]), vec![-1, 0, 2, 3, 3]);
}

#[test]
fn generate_turns_to_an_axis_with_extent() {
    // All pivots and all corners share one X: the tree must split along Y.
    let objects = vec![
        Triangle::new(v(1.0, 0.0, 0.0), v(1.0, 1.0, 0.0), v(1.0, 1.0, 1.0)),
        Triangle::new(v(1.0, 3.0, 0.0), v(1.0, 4.0, 0.0), v(1.0, 4.0, 1.0)),
        Triangle::new(v(1.0, 6.0, 0.0), v(1.0, 7.0, 0.0), v(1.0, 7.0, 1.0)),
    ];
    let tree = Tree::<Triangle>::new_with_page_size(objects.clone(), 1);
    assert_eq!(tree.root.axis, Axis::Y);
    assert_eq!(tree.root.contents, vec![objects[1]]);
    let bounds = Bounds::from_vectors(v(1.0, 0.0, 0.0), v(1.0, 7.0, 1.0));
    assert_eq!(Tree::<Triangle>::next_non_zero_axis(&bounds, &Axis::X), Axis::Y);
    assert_eq!(Tree::<Triangle>::next_non_zero_axis(&bounds, &Axis::Y), Axis::Y);
    assert_eq!(Tree::<Triangle>::next_non_zero_axis(&bounds, &Axis::Z), Axis::Z);
    let point = Bounds::from_vector(v(1.0, 1.0, 1.0));
    assert_eq!(Tree::<Triangle>::next_non_zero_axis(&point, &Axis::Z), Axis::Z);
    let line = Bounds::from_vectors(v(1.0, 1.0, 1.0), v(1.0, 1.0, 2.0));
    assert_eq!(Tree::<Triangle>::next_non_zero_axis(&line, &Axis::X), Axis::Z);
}

#[test]
fn generate_keeps_objects_with_one_pivot_together() {
    let one = Triangle::new(v(0.0, 0.0, 0.0), v(0.0, 1.0, 0.0), v(1.0, 0.0, 0.0));
    let objects = vec![one; 20];
    let tree = Tree::<Triangle>::new_with_page_size(objects, 4);
    assert_eq!(tree.root.contents.len(), 20);
    assert!(tree.root.left.is_none() && tree.root.right.is_none());
}

#[test]
fn empty_tree_has_no_hits() {
    let tree = Tree::<Triangle>::new(Vec::new());
    let mut hits = vec![Hit::default()];
    assert!(tree.cast_ray(&Ray::new(v(0.0, 0.0, 0.0), v(0.0, 0.0, 1.0)), &mut hits).is_none());
    assert!(hits.is_empty());
    assert!(tree.root.contents.is_empty());
    assert_eq!(tree.root.bounds, Bounds::default());
    let pyramid = Pyramid::new(
        v(0.0, 0.0, 0.0),
        Quaternion::default(),
        Angle::from_degrees(s(90.0)),
        Angle::from_degrees(s(90.0)),
    );
    assert!(tree.fetch_within_pyramid(&pyramid).is_empty());
}

#[test]
fn cast_ray_returns_the_nearest_hit() {
    let near = Triangle::new(v(-1.0, -1.0, 2.0), v(-1.0, 1.0, 2.0), v(1.0, 0.0, 2.0));
    let far = Triangle::new(v(-1.0, -1.0, 5.0), v(-1.0, 1.0, 5.0), v(1.0, 0.0, 5.0));
    let aside = Triangle::new(v(9.0, -1.0, 3.0), v(9.0, 1.0, 3.0), v(11.0, 0.0, 3.0));
    let tree = Tree::new(vec![far, aside, near]);
    let mut hits = Vec::new();
    let hit = tree.cast_ray(&Ray::new(v(0.0, 0.0, 0.0), v(0.0, 0.0, 1.0)), &mut hits).unwrap();
    assert_eq!(hit.distance, s(2.0));
    assert_eq!(hit.position, v(0.0, 0.0, 2.0));
    assert_eq!(hits.len(), 2);
    assert_eq!(nearest_of(&hits), Some(hit));
    assert!(tree.cast_ray(&Ray::new(v(0.0, 0.0, 0.0), v(0.0, 1.0, 0.0)), &mut hits).is_none());
    assert!(hits.is_empty());
    // Of two hits that are equally far, the first stays.
    let first = Hit::new(v(1.0, 0.0, 0.0), v(0.0, 0.0, 1.0), s(3.0), 1);
    let second = Hit::new(v(2.0, 0.0, 0.0), v(0.0, 0.0, 1.0), s(3.0), 2);
    assert_eq!(nearest_of(&vec![first, second]), Some(first));
    assert_eq!(nearest_of(&Vec::new()), None);
}

#[test]
fn cast_ray_passes_over_a_box_that_the_ray_misses() {
    let triangle = Triangle::new(v(-1.0, -1.0, 2.0), v(-1.0, 1.0, 2.0), v(1.0, 0.0, 2.0));
    // The box of this node lies aside of the triangle that the node holds.
    let tree = Tree { root: leaf(vec![triangle]), m_page_size: 1 };
    let mut hits = Vec::new();
    assert!(triangle.ray_intersects(&Ray::new(v(-0.5, 0.0, 0.0), v(0.0, 0.0, 1.0))).is_some());
    assert!(tree.cast_ray(&Ray::new(v(-0.5, 0.0, 0.0), v(0.0, 0.0, 1.0)), &mut hits).is_none());
    Tree::cast_ray_into_node(&Ray::new(v(0.5, 0.0, 0.0), v(0.0, 0.0, 1.0)), &tree.root, &mut hits);
    assert_eq!(hits.len(), 1);
}

fn scan(objects: &Vec<Triangle>, ray: &Ray) -> Option<Hit> {
    let mut hits = Vec::new();
    for object in objects {
        if let Some(hit) = object.ray_intersects(ray) {
            hits.push(hit);
        }
    }
    nearest_of(&hits)
}

fn tree_agrees_with_scan(seed: u64, page_size: usize) {
    let mut rng = Lcg(seed);
    let mut found = 0;
    for scene in 0..1000 {
        let count = (rng.next() % 24) as usize;
        let mut objects = Vec::new();
        for _ in 0..count {
            let x = rng.between(-4.0, 4.0);
            let y = rng.between(-4.0, 4.0);
            let z = rng.between(1.0, 9.0);
            // On some scenes the triangles share a plane, so that hits tie.
            let flat = scene % 5 == 0;
            let mut corner = |d: f64| {
                v(
                    x + rng.between(-d, d),
                    y + rng.between(-d, d),
                    if flat { 3.0 } else { z + rng.between(-d, d) },
                )
            };
            objects.push(Triangle::new(corner(2.0), corner(2.0), corner(2.0)));
        }
        let tree = Tree::new_with_page_size(objects.clone(), page_size);
        let mut hits = Vec::new();
        for _ in 0..8 {
            let ray = Ray::new(
                v(rng.between(-1.0, 1.0), rng.between(-1.0, 1.0), rng.between(-1.0, 0.0)),
                v(rng.between(-0.6, 0.6), rng.between(-0.6, 0.6), rng.between(0.2, 1.0)),
            );
            let from_tree = tree.cast_ray(&ray, &mut hits);
            let from_scan = scan(&objects, &ray);
            assert_eq!(from_tree.is_some(), from_scan.is_some());
            if let (Some(t), Some(l)) = (from_tree, from_scan) {
                found += 1;
                assert_eq!(t.distance, l.distance);
                assert!(objects.iter().any(|o| o.ray_intersects(&ray) == Some(t)));
            }
        }
    }
    assert!(found > 200);
}

#[test]
fn tree_agrees_with_scan_at_page_size_1() {
    tree_agrees_with_scan(1, 1);
}

#[test]
fn tree_agrees_with_scan_at_page_size_4() {
    tree_agrees_with_scan(4, 4);
}

#[test]
fn tree_agrees_with_scan_at_page_size_16() {
    tree_agrees_with_scan(16, 16);
}

#[test]
fn fetch_collects_the_pivots_in_the_pyramid() {
    let ahead = Triangle::new(v(-1.0, -1.0, 4.0), v(-1.0, 1.0, 4.0), v(1.0, 0.0, 4.0));
    let behind = Triangle::new(v(-1.0, -1.0, -4.0), v(-1.0, 1.0, -4.0), v(1.0, 0.0, -4.0));
    let aside = Triangle::new(v(19.0, -1.0, 4.0), v(19.0, 1.0, 4.0), v(21.0, 0.0, 4.0));
    let tree = Tree::new(vec![behind, aside, ahead]);
    let pyramid = Pyramid::new(
        v(0.0, 0.0, 0.0),
        Quaternion::default(),
        Angle::from_degrees(s(90.0)),
        Angle::from_degrees(s(90.0)),
    );
    assert_eq!(tree.fetch_within_pyramid(&pyramid), vec![ahead]);
}

#[test]
fn mesh_casts_through_its_tree() {
    let near = Triangle::new(v(-1.0, -1.0, 2.0), v(-1.0, 1.0, 2.0), v(1.0, 0.0, 2.0));
    let far = Triangle::new(v(-1.0, -1.0, 5.0), v(-1.0, 1.0, 5.0), v(1.0, 0.0, 5.0));
    let mesh = Mesh::new("pair", vec![far, near]);
    assert_eq!(mesh.m_name, "pair");
    let mut hits = Vec::new();
    let hit = mesh.cast_ray(&Ray::new(v(0.0, 0.0, 0.0), v(0.0, 0.0, 1.0)), &mut hits).unwrap();
    assert_eq!(hit.distance, s(2.0));
    assert_eq!(hits.len(), 2);
}
