//! A photon-mapping renderer on exact fixed-point arithmetic.
//!
//! Light is traced from its sources through a scene of volumes to a pinhole
//! camera: a light sends a photon off, the photon hits a volume or is lost,
//! a hit may send a new photon on and may be seen by the camera, and a hit
//! that is seen adds its light to a pixel.
//!
//! All numbers are fixed-point numbers with six decimal places: those of
//! places and directions in 32 bits ([`scalar`]), those of light in 64
//! ([`energy`]).
//! The tests that decide what a ray hits ([`bounds`], [`triangle`]) work on
//! whole numbers of raw units and round nothing, so that they are not merely
//! close to the geometry but say exactly what it says. The tree over the
//! triangles of a mesh ([`tree`]) is proved to lose no hit by passing over
//! the boxes that a ray misses ([`tree_laws`]).
//!
//! The steps of a photon's life stand in [`renderer`]; [`pipeline`] runs
//! them from the first photon to the last and keeps count of the work in
//! flight for those who run the steps side by side; [`stages`] lays the
//! steps out on queues and shows that they come to rest in whatever order
//! they are taken.
//!
//! Randomness comes from the `rand` crate, through [`random_generator`]:
//! every function that draws from it takes the generator as an argument and
//! says what holds whatever was drawn.

pub mod angle;
pub mod angle_generator;
pub mod bounds;
pub mod camera;
pub mod color;
pub mod diffuse_material;
pub mod energy;
pub mod hit;
pub mod image;
pub mod library;
pub mod light;
pub mod limits;
pub mod material;
pub mod material_library;
pub mod median;
pub mod mesh;
pub mod mesh_volume;
pub mod object;
pub mod parallel_light;
pub mod photon;
pub mod pipeline;
pub mod pixel;
pub mod pixel_coords;
pub mod plane;
pub mod plane_volume;
pub mod pyramid;
pub mod quaternion;
pub mod random_generator;
pub mod ray;
pub mod renderer;
pub mod scalar;
pub mod scene;
pub mod sphere;
pub mod stages;
pub mod transform;
pub mod tree;
pub mod tree_laws;
pub mod triangle;
pub mod triangle_laws;
pub mod trig;
pub mod vector3;
pub mod volume;
pub mod wide;
