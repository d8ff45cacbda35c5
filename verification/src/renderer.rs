//! The steps of a photon's life.
//!
//! A light sends a photon off. The photon hits a volume or is lost. A hit
//! may send a new photon on, and may be seen by the camera. A hit that is
//! seen adds its light to a pixel. The renderer keeps no state but the
//! number of bounces after which a photon is sent on no more.

use vstd::prelude::*;
use crate::camera::Camera;
use crate::color::Color;
use crate::hit::Hit;
use crate::library::Library;
use crate::light::{emitted_color, LightPublicInterface};
use crate::material::Material;
use crate::photon::{Photon, PhotonHit};
use crate::pixel_coords::PixelCoords;
use crate::random_generator::RandomGenerator;
use crate::ray::Ray;
use crate::scalar::Scalar;
use crate::transform::spec_unit_z;
use crate::vector3::Vector3;
use crate::volume::VolumePublicInterface;

verus! {

/// A hit that is no farther than this from where its ray began is taken
/// for the surface that the ray has just left, and is passed over.
pub const SELF_HIT_THRESHOLD: i32 = 1;

pub struct Renderer {
    pub m_bounce_threshold: u32,
}

/// The hits of a ray on the volumes of a list, in the order of the list.
pub open spec fn world_hits<V: VolumePublicInterface>(volumes: Seq<V>, ray: Ray) -> Seq<Hit>
    decreases volumes.len(),
{
    if volumes.len() == 0 {
        Seq::empty()
    } else {
        let before = world_hits(volumes.drop_last(), ray);
        match volumes.last().world_hit(ray) {
            Some(h) => before.push(h),
            None => before,
        }
    }
}

/// The hits, each together with the photon that made it.
pub open spec fn with_photon(hits: Seq<Hit>, photon: Photon) -> Seq<PhotonHit> {
    hits.map_values(|hit: Hit| PhotonHit { hit, photon })
}

/// The hit is farther than the threshold from where its ray began.
pub open spec fn beyond_threshold(hit: Hit) -> bool {
    hit.distance@ > SELF_HIT_THRESHOLD
}

/// The last among the hits beyond the threshold of self-intersection that
/// lie at the least distance, if there is any such hit.
pub open spec fn nearest_beyond(hits: Seq<Hit>) -> Option<Hit>
    decreases hits.len(),
{
    if hits.len() == 0 {
        None
    } else {
        let best = nearest_beyond(hits.drop_last());
        let h = hits.last();
        if !beyond_threshold(h) {
            best
        } else {
            match best {
                None => Some(h),
                Some(b) => if b.distance@ < h.distance@ {
                    Some(b)
                } else {
                    Some(h)
                },
            }
        }
    }
}

/// Some hit beyond the threshold lies no farther than `limit`.
pub open spec fn blocked_within(hits: Seq<Hit>, limit: Scalar) -> bool {
    exists|i: int|
        0 <= i < hits.len() && beyond_threshold(#[trigger] hits[i]) && hits[i].distance@ <= limit@
}

/// The exact difference of two points as a vector, each coordinate
/// held to what can be represented.
pub open spec fn path_between(from: Vector3, to: Vector3) -> Vector3 {
    to.spec_sub(from)
}

/// What `nearest_beyond` picks is one of the hits, lies beyond the
/// threshold of self-intersection, and is no farther than any other hit
/// that lies beyond it; it picks a hit as soon as one lies beyond the
/// threshold.
pub proof fn lemma_nearest_beyond_is_least(hits: Seq<Hit>)
    ensures
        nearest_beyond(hits) is None <==> forall|i: int|
            0 <= i < hits.len() ==> !beyond_threshold(#[trigger] hits[i]),
        nearest_beyond(hits) matches Some(best) ==> hits.contains(best) && beyond_threshold(best)
            && forall|i: int|
            0 <= i < hits.len() && beyond_threshold(#[trigger] hits[i]) ==> best.distance@
                <= hits[i].distance@,
    decreases hits.len(),
{
    if hits.len() > 0 {
        let rest = hits.drop_last();
        lemma_nearest_beyond_is_least(rest);
        assert forall|i: int| 0 <= i < rest.len() implies rest[i] == hits[i] by {}
        match nearest_beyond(hits) {
            Some(best) => {
                if beyond_threshold(hits.last()) && hits.last() == best {
                    assert(hits[hits.len() - 1] == best);
                } else {
                    let j = choose|j: int| 0 <= j < rest.len() && rest[j] == best;
                    assert(hits[j] == best);
                }
                assert forall|i: int|
                    0 <= i < hits.len() && beyond_threshold(
                        #[trigger] hits[i],
                    ) implies best.distance@ <= hits[i].distance@ by {
                    if i < rest.len() {
                        assert(rest[i] == hits[i]);
                    }
                }
            },
            None => {
                assert forall|i: int| 0 <= i < hits.len() implies !beyond_threshold(
                    #[trigger] hits[i],
                ) by {
                    if i < rest.len() {
                        assert(rest[i] == hits[i]);
                    }
                }
            },
        }
        if nearest_beyond(hits) is Some && forall|i: int|
            0 <= i < hits.len() ==> !beyond_threshold(#[trigger] hits[i]) {
            let best = nearest_beyond(hits)->0;
            let j = choose|j: int| 0 <= j < hits.len() && hits[j] == best;
            assert(!beyond_threshold(hits[j]));
        }
    }
}

impl Renderer {
    /// What `process_photon` returns for a photon and the volumes of a scene.
    pub open spec fn spec_process_photon<V: VolumePublicInterface>(
        photon: Photon,
        volumes: Seq<V>,
    ) -> Option<PhotonHit> {
        if photon.color.spec_brightness()@ < 1 {
            None
        } else {
            match nearest_beyond(world_hits(volumes, photon.ray)) {
                Some(hit) => Some(PhotonHit { hit, photon }),
                None => None,
            }
        }
    }

    /// Whether the camera sees a hit: the hit is seen at a pixel, its surface
    /// faces that pixel, the camera does not stand on it, and no volume
    /// comes between the two.
    pub open spec fn spec_process_hit<V: VolumePublicInterface>(
        photon_hit: PhotonHit,
        camera: Camera,
        volumes: Seq<V>,
    ) -> bool {
        match camera.spec_coord_for_point(photon_hit.hit.position) {
            None => false,
            Some(coord) => {
                let pixel_direction = camera.spec_pixel_direction(coord);
                let path = path_between(photon_hit.hit.position, camera.object.transform.position);
                let camera_distance = path.spec_norm();
                let ray = Ray {
                    origin: photon_hit.hit.position,
                    direction: path.spec_div(camera_distance),
                };
                &&& Vector3::spec_dot(pixel_direction, photon_hit.hit.normal)@ < 0
                &&& camera_distance@ >= SELF_HIT_THRESHOLD
                &&& !blocked_within(world_hits(volumes, ray), camera_distance)
            },
        }
    }

    /// A renderer that sends a photon on after its first hit only.
    pub fn new() -> (r: Renderer)
        ensures
            r.m_bounce_threshold == 1,
    {
        Renderer { m_bounce_threshold: 1 }
    }

    /// A renderer that sends a photon on until it has bounced `bounce_threshold` times.
    pub fn with_bounce_threshold(bounce_threshold: u32) -> (r: Renderer)
        ensures
            r.m_bounce_threshold == bounce_threshold,
    {
        Renderer { m_bounce_threshold: bounce_threshold }
    }

    /// Has a light send a photon off. `photon_brightness` is the photon's
    /// share of the light's output: one over the number of photons.
    pub fn process_light<L: LightPublicInterface>(
        &self,
        light: &L,
        photon: &mut Photon,
        photon_brightness: Scalar,
        random_generator: &mut RandomGenerator,
    )
        ensures
            final(photon).bounces == 0,
            final(photon).color == emitted_color(light.color(), light.lumens(), photon_brightness),
            final(photon).ray.direction == light.frame().rotation.spec_mul_vector(spec_unit_z()),
    {
        light.emit(photon, photon_brightness, random_generator);
    }

    /// The nearest hit of a photon on the volumes: none for a photon
    /// without light, none where no volume is hit, and never a hit within
    /// the threshold of self-intersection. For a photon with light,
    /// `volume_hit_buffer` is left holding the hits on all volumes;
    /// `cast_buffer` is scratch space.
    pub fn process_photon<V: VolumePublicInterface>(
        &self,
        photon: &Photon,
        cast_buffer: &mut Vec<Hit>,
        volume_hit_buffer: &mut Vec<PhotonHit>,
        volumes: &Vec<V>,
    ) -> (r: Option<PhotonHit>)
        ensures
            r == Renderer::spec_process_photon(*photon, volumes@),
            photon.color.spec_brightness()@ < 1 ==> final(volume_hit_buffer)@ == old(volume_hit_buffer)@,
            photon.color.spec_brightness()@ >= 1 ==> final(volume_hit_buffer)@ == with_photon(
                world_hits(volumes@, photon.ray),
                *photon,
            ),
            r matches Some(ph) ==> ph.photon == *photon && beyond_threshold(ph.hit) && exists|
                i: int,
            |
                0 <= i < volumes@.len() && (#[trigger] volumes@[i]).material_index()
                    == ph.hit.material_index,
    {
        if photon.color.brightness().lt(crate::energy::Energy::epsilon()) {
            return None;
        }
        volume_hit_buffer.clear();
        let mut best: Option<Hit> = None;
        let mut i: usize = 0;
        proof {
            assert(volumes@.take(0) =~= Seq::<V>::empty());
            assert(volume_hit_buffer@ =~= with_photon(
                world_hits(volumes@.take(0), photon.ray),
                *photon,
            ));
        }
        while i < volumes.len()
            invariant
                i <= volumes.len(),
                volume_hit_buffer@ == with_photon(
                    world_hits(volumes@.take(i as int), photon.ray),
                    *photon,
                ),
                best == nearest_beyond(world_hits(volumes@.take(i as int), photon.ray)),
                best matches Some(h) ==> beyond_threshold(h) && exists|k: int|
                    0 <= k < volumes@.len() && (#[trigger] volumes@[k]).material_index()
                        == h.material_index,
            decreases volumes.len() - i,
        {
            proof {
                assert(volumes@.take(i + 1).drop_last() =~= volumes@.take(i as int));
            }
            let hit: Option<Hit> = volumes[i].cast_ray(&photon.ray, cast_buffer);
            match hit {
                Some(hit) => {
                    volume_hit_buffer.push(PhotonHit { hit, photon: *photon });
                    let ghost hits = world_hits(volumes@.take(i as int), photon.ray).push(hit);
                    proof {
                        assert(hits.drop_last() =~= world_hits(
                            volumes@.take(i as int),
                            photon.ray,
                        ));
                        assert(volumes@[i as int].material_index() == hit.material_index);
                        assert(volume_hit_buffer@ =~= with_photon(hits, *photon));
                    }
                    if hit.distance.gt(Scalar::from_raw(SELF_HIT_THRESHOLD)) {
                        best = match best {
                            None => Some(hit),
                            Some(b) => if b.distance.lt(hit.distance) {
                                Some(b)
                            } else {
                                Some(hit)
                            },
                        };
                    }
                },
                None => {},
            }
            i += 1;
        }
        proof {
            assert(volumes@.take(volumes.len() as int) =~= volumes@);
        }
        match best {
            Some(hit) => Some(PhotonHit { hit, photon: *photon }),
            None => None,
        }
    }

    /// The photon that a hit sends on: none once the photon that made the
    /// hit has bounced as often as the threshold allows; else what the
    /// hit's material makes of it. The material must be in the library.
    pub fn bounce_photon_hit<M: Material>(
        &self,
        photon_hit: &PhotonHit,
        random_generator: &mut RandomGenerator,
        material_library: &Library<M>,
    ) -> (r: Option<Photon>)
        requires
            photon_hit.hit.material_index < material_library.contents().len(),
        ensures
            (photon_hit.photon.bounces >= self.m_bounce_threshold) <==> r is None,
            r matches Some(p) ==> p.bounces == photon_hit.photon.bounces + 1 && p.bounces
                <= self.m_bounce_threshold && p.ray.origin == photon_hit.hit.position,
            r matches Some(p) ==> (material_library.contents()[photon_hit.hit.material_index as int].valid()
                && photon_hit.photon.color.wf() ==> p.color.wf()),
    {
        if photon_hit.photon.bounces >= self.m_bounce_threshold {
            return None;
        }
        let material: &M = material_library.fetch_by_index(photon_hit.hit.material_index);
        Some(material.bounce(photon_hit, random_generator))
    }

    /// Whether the camera sees a hit; see `spec_process_hit`. The buffer is scratch space.
    pub fn process_hit<V: VolumePublicInterface>(
        &self,
        photon_hit: &PhotonHit,
        cast_buffer: &mut Vec<Hit>,
        camera: &Camera,
        volumes: &Vec<V>,
    ) -> (visible: bool)
        requires
            camera.wf(),
        ensures
            visible == Renderer::spec_process_hit(*photon_hit, *camera, volumes@),
    {
        let camera_position: Vector3 = camera.position();
        let coord: PixelCoords = match camera.coord_for_point(&photon_hit.hit.position) {
            Some(coord) => coord,
            None => {
                return false;
            },
        };
        let pixel_direction: Vector3 = camera.pixel_direction(&coord);
        let dot: Scalar = Vector3::dot(&pixel_direction, &photon_hit.hit.normal);
        if dot.ge(Scalar::zero()) {
            return false;
        }
        let path: Vector3 = camera_position.sub(photon_hit.hit.position);
        let camera_distance: Scalar = path.norm();
        if camera_distance.lt(Scalar::from_raw(SELF_HIT_THRESHOLD)) {
            return false;
        }
        let ray: Ray = Ray::new(photon_hit.hit.position, path.div(camera_distance));
        let mut blocked: bool = false;
        let mut i: usize = 0;
        proof {
            assert(volumes@.take(0) =~= Seq::<V>::empty());
        }
        while i < volumes.len()
            invariant
                i <= volumes.len(),
                blocked == blocked_within(world_hits(volumes@.take(i as int), ray), camera_distance),
            decreases volumes.len() - i,
        {
            let ghost before = world_hits(volumes@.take(i as int), ray);
            proof {
                assert(volumes@.take(i + 1).drop_last() =~= volumes@.take(i as int));
            }
            let hit: Option<Hit> = volumes[i].cast_ray(&ray, cast_buffer);
            match hit {
                Some(hit) => {
                    let ghost after = before.push(hit);
                    let here: bool = hit.distance.gt(Scalar::from_raw(SELF_HIT_THRESHOLD))
                        && hit.distance.le(camera_distance);
                    proof {
                        if blocked {
                            let k = choose|k: int|
                                0 <= k < before.len() && beyond_threshold(#[trigger] before[k])
                                    && before[k].distance@ <= camera_distance@;
                            assert(after[k] == before[k]);
                        }
                        if here {
                            assert(after[after.len() - 1] == hit);
                        }
                        if blocked_within(after, camera_distance) {
                            let k = choose|k: int|
                                0 <= k < after.len() && beyond_threshold(#[trigger] after[k])
                                    && after[k].distance@ <= camera_distance@;
                            if k < before.len() {
                                assert(before[k] == after[k]);
                            }
                        }
                    }
                    if here {
                        blocked = true;
                    }
                },
                None => {},
            }
            i += 1;
        }
        proof {
            assert(volumes@.take(volumes.len() as int) =~= volumes@);
        }
        !blocked
    }

    /// The pixel that a hit lights and the light that it gives to it: none
    /// for a hit that the camera does not see at any pixel. The material
    /// must be in the library.
    pub fn process_final_hit<M: Material>(
        &self,
        photon_hit: &PhotonHit,
        camera: &Camera,
        material_library: &Library<M>,
    ) -> (r: Option<(PixelCoords, Color)>)
        requires
            camera.wf(),
            photon_hit.hit.material_index < material_library.contents().len(),
        ensures
            match camera.spec_coord_for_point(photon_hit.hit.position) {
                Some(coord) => r == Some(
                    (
                        coord,
                        material_library.contents()[photon_hit.hit.material_index as int].shade(
                            camera.spec_pixel_direction(coord),
                            *photon_hit,
                        ),
                    ),
                ),
                None => r is None,
            },
            r matches Some(seen) ==> seen.0.x < camera.spec_width() && seen.0.y
                < camera.spec_height(),
            r matches Some(seen) ==> (material_library.contents()[photon_hit.hit.material_index as int].valid()
                && photon_hit.photon.color.wf() ==> seen.1.wf()),
    {
        match camera.coord_for_point(&photon_hit.hit.position) {
            Some(coord) => {
                let pixel_direction: Vector3 = camera.pixel_direction(&coord);
                let material: &M = material_library.fetch_by_index(photon_hit.hit.material_index);
                Some((coord, material.color_for_hit(&pixel_direction, photon_hit)))
            },
            None => None,
        }
    }
}

} // verus!
