//! The run of a whole render, and the watch over work in flight.

use vstd::prelude::*;
use crate::color::Color;
use crate::hit::Hit;
use crate::image::Image;
use crate::light::LightPublicInterface;
use crate::material::Material;
use crate::photon::{Photon, PhotonHit};
use crate::pixel::Pixel;
use crate::pixel_coords::PixelCoords;
use crate::random_generator::RandomGenerator;
use crate::renderer::Renderer;
use crate::scalar::Scalar;
use crate::scene::Scene;
use crate::volume::VolumePublicInterface;

verus! {

/// How many photons `render_scene` sends off.
pub const PHOTON_BUDGET: usize = 10_000;

pub struct Pipeline {
    pub renderer: Renderer,
}

/// How many pixels a photon can light at most, hit by hit, when it has
/// bounced `bounces` times already and is sent on until it has bounced
/// `threshold` times.
pub open spec fn writes_left(bounces: u32, threshold: u32) -> int {
    if bounces <= threshold {
        threshold - bounces + 1
    } else {
        1
    }
}

/// What holds of a photon that the lights of a scene have sent off: it has
/// not bounced, and it leaves as the last light of the scene sends it, with
/// the whole of that light's output; where there is no light, it has no
/// light, and no way to go.
pub open spec fn emitted_by<V: VolumePublicInterface, L: LightPublicInterface, M: Material>(
    scene: Scene<V, L, M>,
    photon: Photon,
) -> bool {
    &&& photon.bounces == 0
    &&& scene.lights@.len() == 0 ==> {
        &&& photon.color.red@ == 0 && photon.color.green@ == 0 && photon.color.blue@ == 0
        &&& photon.ray.origin.x@ == 0 && photon.ray.origin.y@ == 0 && photon.ray.origin.z@ == 0
        &&& photon.ray.direction.x@ == 0 && photon.ray.direction.y@ == 0
            && photon.ray.direction.z@ == 0
    }
    &&& scene.lights@.len() > 0 ==> {
        &&& photon.color == crate::light::emitted_color(
            scene.lights@.last().color(),
            scene.lights@.last().lumens(),
            Scalar::of(crate::scalar::SCALE as int),
        )
        &&& photon.ray.direction == scene.lights@.last().frame().rotation.spec_mul_vector(
            crate::transform::spec_unit_z(),
        )
    }
}

/// The hit of a photon on the volumes of a scene, if the camera sees it.
pub open spec fn seen_hit<V: VolumePublicInterface, L: LightPublicInterface, M: Material>(
    scene: Scene<V, L, M>,
    photon: Photon,
) -> Option<PhotonHit> {
    match Renderer::spec_process_photon(photon, scene.volumes@) {
        Some(photon_hit) => if Renderer::spec_process_hit(
            photon_hit,
            scene.camera,
            scene.volumes@,
        ) {
            Some(photon_hit)
        } else {
            None
        },
        None => None,
    }
}

/// The pixels of an image that is `width` pixels wide, after the light of
/// a hit was added to the pixel at which the camera sees the hit: the
/// light that the hit's material sends towards that pixel.
pub open spec fn lit_pixels<V: VolumePublicInterface, L: LightPublicInterface, M: Material>(
    pixels: Seq<Pixel>,
    width: nat,
    scene: Scene<V, L, M>,
    photon_hit: PhotonHit,
) -> Seq<Pixel> {
    match scene.camera.spec_coord_for_point(photon_hit.hit.position) {
        None => pixels,
        Some(coords) => {
            let place = (coords.x + coords.y * width) as int;
            pixels.update(
                place,
                pixels[place].spec_plus(
                    Pixel::spec_from_color(
                        scene.material_library.contents()[photon_hit.hit.material_index as int].shade(
                            scene.camera.spec_pixel_direction(coords),
                            photon_hit,
                        ),
                    ),
                ),
            )
        },
    }
}

/// The pixels after a photon was traced to its hit: lit by the hit if the
/// camera sees it, and as they were if not.
pub open spec fn pixels_after<V: VolumePublicInterface, L: LightPublicInterface, M: Material>(
    pixels: Seq<Pixel>,
    width: nat,
    scene: Scene<V, L, M>,
    photon: Photon,
) -> Seq<Pixel> {
    match seen_hit(scene, photon) {
        Some(photon_hit) => lit_pixels(pixels, width, scene, photon_hit),
        None => pixels,
    }
}

/// `next` is a photon that the hit of `photon` may send on: `photon` has a
/// hit and has not bounced as often as the threshold allows, and `next`
/// starts at the hit and has bounced once more.
pub open spec fn sent_on<V: VolumePublicInterface, L: LightPublicInterface, M: Material>(
    scene: Scene<V, L, M>,
    threshold: u32,
    photon: Photon,
    next: Photon,
) -> bool {
    match Renderer::spec_process_photon(photon, scene.volumes@) {
        Some(photon_hit) => photon.bounces < threshold && next.bounces == photon.bounces + 1
            && next.ray.origin == photon_hit.hit.position,
        None => false,
    }
}

/// Nothing follows on `photon`: it hits nothing, or it has bounced as often
/// as the threshold allows.
pub open spec fn comes_to_an_end<V: VolumePublicInterface, L: LightPublicInterface, M: Material>(
    scene: Scene<V, L, M>,
    threshold: u32,
    photon: Photon,
) -> bool {
    Renderer::spec_process_photon(photon, scene.volumes@) is None || photon.bounces >= threshold
}

/// `chain` is the life of `first`: it begins with `first`, every photon
/// after that was sent on by the hit of the photon before it, and nothing
/// follows on the last.
pub open spec fn is_trace<V: VolumePublicInterface, L: LightPublicInterface, M: Material>(
    scene: Scene<V, L, M>,
    threshold: u32,
    first: Photon,
    chain: Seq<Photon>,
) -> bool {
    &&& chain.len() > 0
    &&& chain[0] == first
    &&& forall|i: int|
        1 <= i < chain.len() ==> sent_on(scene, threshold, chain[i - 1], #[trigger] chain[i])
    &&& comes_to_an_end(scene, threshold, chain.last())
}

/// How many of the photons of a chain have a hit that the camera sees.
pub open spec fn trace_writes<V: VolumePublicInterface, L: LightPublicInterface, M: Material>(
    scene: Scene<V, L, M>,
    chain: Seq<Photon>,
) -> nat
    decreases chain.len(),
{
    if chain.len() == 0 {
        0
    } else {
        trace_writes(scene, chain.drop_last()) + if seen_hit(scene, chain.last()) is Some {
            1nat
        } else {
            0nat
        }
    }
}

/// The pixels after the photons of a chain were traced to their hits, one
/// after the other.
pub open spec fn trace_pixels<V: VolumePublicInterface, L: LightPublicInterface, M: Material>(
    pixels: Seq<Pixel>,
    width: nat,
    scene: Scene<V, L, M>,
    chain: Seq<Photon>,
) -> Seq<Pixel>
    decreases chain.len(),
{
    if chain.len() == 0 {
        pixels
    } else {
        pixels_after(
            trace_pixels(pixels, width, scene, chain.drop_last()),
            width,
            scene,
            chain.last(),
        )
    }
}

/// At most one pixel is lit for each photon of a chain.
pub proof fn lemma_writes_within_length<
    V: VolumePublicInterface,
    L: LightPublicInterface,
    M: Material,
>(scene: Scene<V, L, M>, chain: Seq<Photon>)
    ensures
        trace_writes(scene, chain) <= chain.len(),
    decreases chain.len(),
{
    if chain.len() > 0 {
        lemma_writes_within_length(scene, chain.drop_last());
    }
}

/// Every photon of a life has bounced once more than the one before it.
pub proof fn lemma_bounces_count_up<V: VolumePublicInterface, L: LightPublicInterface, M: Material>(
    scene: Scene<V, L, M>,
    threshold: u32,
    first: Photon,
    chain: Seq<Photon>,
    i: int,
)
    requires
        is_trace(scene, threshold, first, chain),
        0 <= i < chain.len(),
    ensures
        chain[i].bounces == first.bounces + i,
        i >= 1 ==> chain[i].bounces <= threshold,
    decreases i,
{
    if i > 0 {
        lemma_bounces_count_up(scene, threshold, first, chain, i - 1);
        assert(sent_on(scene, threshold, chain[i - 1], chain[i]));
    }
}

/// The life of a photon is no longer than the threshold allows, and so are
/// the pixels that it lights no more than `writes_left`: no photon bounces
/// more often than the threshold says.
pub proof fn lemma_trace_is_short<V: VolumePublicInterface, L: LightPublicInterface, M: Material>(
    scene: Scene<V, L, M>,
    threshold: u32,
    first: Photon,
    chain: Seq<Photon>,
)
    requires
        is_trace(scene, threshold, first, chain),
    ensures
        chain.len() <= writes_left(first.bounces, threshold),
        trace_writes(scene, chain) <= writes_left(first.bounces, threshold),
        forall|i: int| 1 <= i < chain.len() ==> (#[trigger] chain[i]).bounces <= threshold,
{
    lemma_writes_within_length(scene, chain);
    lemma_bounces_count_up(scene, threshold, first, chain, chain.len() - 1);
    assert forall|i: int| 1 <= i < chain.len() implies (#[trigger] chain[i]).bounces
        <= threshold by {
        lemma_bounces_count_up(scene, threshold, first, chain, i);
    }
}

/// A photon that hits nothing lives alone, and lights nothing.
pub proof fn lemma_lost_photon_lights_nothing<
    V: VolumePublicInterface,
    L: LightPublicInterface,
    M: Material,
>(scene: Scene<V, L, M>, threshold: u32, first: Photon, chain: Seq<Photon>, pixels: Seq<Pixel>, width: nat)
    requires
        is_trace(scene, threshold, first, chain),
        Renderer::spec_process_photon(first, scene.volumes@) is None,
    ensures
        chain == seq![first],
        trace_writes(scene, chain) == 0,
        trace_pixels(pixels, width, scene, chain) == pixels,
{
    if chain.len() > 1 {
        assert(sent_on(scene, threshold, chain[0], chain[1]));
    }
    assert(chain =~= seq![first]);
    assert(chain.drop_last() =~= Seq::<Photon>::empty());
    assert(trace_writes(scene, chain.drop_last()) == 0);
    assert(trace_pixels(pixels, width, scene, chain.drop_last()) == pixels);
}

/// A first hit that the camera sees lights a pixel, whatever follows.
pub proof fn lemma_seen_first_hit_is_lit<
    V: VolumePublicInterface,
    L: LightPublicInterface,
    M: Material,
>(scene: Scene<V, L, M>, first: Photon, chain: Seq<Photon>)
    requires
        chain.len() > 0,
        chain[0] == first,
        seen_hit(scene, first) is Some,
    ensures
        trace_writes(scene, chain) >= 1,
    decreases chain.len(),
{
    if chain.len() > 1 {
        let rest = chain.drop_last();
        assert(rest[0] == first);
        lemma_seen_first_hit_is_lit(scene, first, rest);
    }
}

/// As many black pixels as `count` says.
pub open spec fn black(count: nat) -> Seq<Pixel> {
    Seq::new(count, |i: int| Pixel { red: 0, green: 0, blue: 0 })
}

/// `history` holds the lives of photons that the lights of the scene have
/// sent off, one chain for each.
pub open spec fn is_render<V: VolumePublicInterface, L: LightPublicInterface, M: Material>(
    scene: Scene<V, L, M>,
    threshold: u32,
    history: Seq<Seq<Photon>>,
) -> bool {
    forall|k: int|
        0 <= k < history.len() ==> (#[trigger] history[k]).len() > 0 && emitted_by(
            scene,
            history[k][0],
        ) && is_trace(scene, threshold, history[k][0], history[k])
}

/// How many hits of the photons of a history the camera sees.
pub open spec fn render_writes<V: VolumePublicInterface, L: LightPublicInterface, M: Material>(
    scene: Scene<V, L, M>,
    history: Seq<Seq<Photon>>,
) -> nat
    decreases history.len(),
{
    if history.len() == 0 {
        0
    } else {
        render_writes(scene, history.drop_last()) + trace_writes(scene, history.last())
    }
}

/// The pixels after the photons of a history were traced, chain after chain.
pub open spec fn render_pixels<V: VolumePublicInterface, L: LightPublicInterface, M: Material>(
    pixels: Seq<Pixel>,
    width: nat,
    scene: Scene<V, L, M>,
    history: Seq<Seq<Photon>>,
) -> Seq<Pixel>
    decreases history.len(),
{
    if history.len() == 0 {
        pixels
    } else {
        trace_pixels(
            render_pixels(pixels, width, scene, history.drop_last()),
            width,
            scene,
            history.last(),
        )
    }
}

impl Pipeline {
    pub fn new(renderer: Renderer) -> (p: Pipeline)
        ensures
            p.renderer == renderer,
    {
        Pipeline { renderer }
    }

    /// A fresh photon, sent off by each light of the scene in turn. Every
    /// light starts the photon anew, so that it leaves as the last light
    /// sends it; a scene without lights leaves it without light.
    pub fn emit_photon<V: VolumePublicInterface, L: LightPublicInterface, M: Material>(
        &self,
        scene: &Scene<V, L, M>,
        random_generator: &mut RandomGenerator,
    ) -> (photon: Photon)
        ensures
            emitted_by(*scene, photon),
    {
        let mut photon: Photon = Photon::default();
        let mut i: usize = 0;
        while i < scene.lights.len()
            invariant
                i <= scene.lights.len(),
                photon.bounces == 0,
                i == 0 ==> photon.color.red@ == 0 && photon.color.green@ == 0 && photon.color.blue@
                    == 0,
                i == 0 ==> photon.ray.origin.x@ == 0 && photon.ray.origin.y@ == 0
                    && photon.ray.origin.z@ == 0,
                i == 0 ==> photon.ray.direction.x@ == 0 && photon.ray.direction.y@ == 0
                    && photon.ray.direction.z@ == 0,
                i > 0 ==> photon.color == crate::light::emitted_color(
                    scene.lights@[i - 1].color(),
                    scene.lights@[i - 1].lumens(),
                    Scalar::of(crate::scalar::SCALE as int),
                ),
                i > 0 ==> photon.ray.direction == scene.lights@[i - 1].frame().rotation.spec_mul_vector(
                    crate::transform::spec_unit_z(),
                ),
            decreases scene.lights.len() - i,
        {
            self.renderer.process_light(
                &scene.lights[i],
                &mut photon,
                Scalar::one(),
                random_generator,
            );
            i += 1;
        }
        photon
    }

    /// What becomes of a hit: the photon that it sends on, if any, and
    /// whether the camera sees it. This is the third stage of a render.
    pub fn route_hit<V: VolumePublicInterface, L: LightPublicInterface, M: Material>(
        &self,
        scene: &Scene<V, L, M>,
        photon_hit: &PhotonHit,
        random_generator: &mut RandomGenerator,
        cast_buffer: &mut Vec<Hit>,
    ) -> (routed: (Option<Photon>, bool))
        requires
            scene.wf(),
            photon_hit.hit.material_index < scene.material_library.contents().len(),
        ensures
            (photon_hit.photon.bounces >= self.renderer.m_bounce_threshold) <==> routed.0 is None,
            routed.0 matches Some(p) ==> p.bounces == photon_hit.photon.bounces + 1 && p.bounces
                <= self.renderer.m_bounce_threshold && p.ray.origin == photon_hit.hit.position,
            routed.0 matches Some(p) ==> (scene.material_library.contents()[photon_hit.hit.material_index as int].valid()
                && photon_hit.photon.color.wf() ==> p.color.wf()),
            routed.1 == Renderer::spec_process_hit(*photon_hit, scene.camera, scene.volumes@),
    {
        let next: Option<Photon> = self.renderer.bounce_photon_hit(
            photon_hit,
            random_generator,
            &scene.material_library,
        );
        let visible: bool = self.renderer.process_hit(
            photon_hit,
            cast_buffer,
            &scene.camera,
            &scene.volumes,
        );
        (next, visible)
    }

    /// Adds the light of a hit that the camera sees to the pixel at which it
    /// is seen, and says whether there was such a pixel. This is the last
    /// stage of a render.
    pub fn light_pixel<V: VolumePublicInterface, L: LightPublicInterface, M: Material>(
        &self,
        scene: &Scene<V, L, M>,
        photon_hit: &PhotonHit,
        image: &mut Image,
    ) -> (lit: bool)
        requires
            scene.wf(),
            photon_hit.hit.material_index < scene.material_library.contents().len(),
            old(image).wf(),
            old(image).width() == scene.camera.spec_width(),
            old(image).height() == scene.camera.spec_height(),
        ensures
            final(image).wf(),
            final(image).no_darker_than(*old(image)),
            lit == scene.camera.spec_coord_for_point(photon_hit.hit.position).is_some(),
            final(image).pixels() == lit_pixels(
                old(image).pixels(),
                old(image).width(),
                *scene,
                *photon_hit,
            ),
    {
        let seen: Option<(PixelCoords, Color)> = self.renderer.process_final_hit(
            photon_hit,
            &scene.camera,
            &scene.material_library,
        );
        match seen {
            Some((coords, color)) => {
                image.accumulate(coords.x, coords.y, Pixel::from_color(&color));
                true
            },
            None => false,
        }
    }

    /// Follows a photon from hit to hit until it is lost or is sent on no
    /// more, and adds the light of every hit that the camera sees to the
    /// image. Returns how many pixels were lit.
    ///
    /// Which photons the hits send on is a matter of chance. Whatever they
    /// are, they form a chain that is the life of the photon, the image is
    /// what tracing every photon of the chain to its hit makes of it, and
    /// the pixels lit are as many as the hits of the chain that the camera
    /// sees: at most one for each hit, and so at most `writes_left`.
    pub fn trace_photon<V: VolumePublicInterface, L: LightPublicInterface, M: Material>(
        &self,
        scene: &Scene<V, L, M>,
        photon: Photon,
        random_generator: &mut RandomGenerator,
        image: &mut Image,
    ) -> (writes: u64)
        requires
            scene.wf(),
            old(image).wf(),
            old(image).width() == scene.camera.spec_width(),
            old(image).height() == scene.camera.spec_height(),
        ensures
            final(image).wf(),
            final(image).no_darker_than(*old(image)),
            writes <= writes_left(photon.bounces, self.renderer.m_bounce_threshold),
            writes == 0 ==> final(image).pixels() == old(image).pixels(),
            exists|chain: Seq<Photon>|
                #[trigger] is_trace(*scene, self.renderer.m_bounce_threshold, photon, chain)
                    && writes == trace_writes(*scene, chain) && final(image).pixels()
                    == trace_pixels(old(image).pixels(), old(image).width(), *scene, chain),
    {
        let mut cast_buffer: Vec<Hit> = Vec::new();
        let mut volume_hit_buffer: Vec<PhotonHit> = Vec::new();
        let mut current: Photon = photon;
        let mut writes: u64 = 0;
        let mut alive: bool = true;
        let threshold: u32 = self.renderer.m_bounce_threshold;
        let ghost mut done: Seq<Photon> = Seq::empty();
        let ghost width = image.width();
        let ghost start = image.pixels();
        while alive
            invariant
                scene.wf(),
                image.wf(),
                image.no_darker_than(*old(image)),
                image.width() == scene.camera.spec_width(),
                image.height() == scene.camera.spec_height(),
                width == old(image).width(),
                start == old(image).pixels(),
                threshold == self.renderer.m_bounce_threshold,
                current.bounces >= photon.bounces,
                alive ==> writes <= current.bounces - photon.bounces,
                alive ==> current.bounces <= threshold || current.bounces == photon.bounces,
                !alive ==> writes <= writes_left(photon.bounces, threshold),
                writes == 0 ==> image.pixels() == old(image).pixels(),
                forall|i: int|
                    1 <= i < done.len() ==> sent_on(*scene, threshold, done[i - 1], #[trigger] done[i]),
                done.len() > 0 ==> done[0] == photon,
                alive && done.len() == 0 ==> current == photon,
                alive && done.len() > 0 ==> sent_on(*scene, threshold, done.last(), current),
                !alive ==> done.len() > 0 && comes_to_an_end(*scene, threshold, done.last()),
                writes == trace_writes(*scene, done),
                image.pixels() == trace_pixels(start, width, *scene, done),
            decreases
                    if alive {
                        1 + (if current.bounces <= threshold {
                            threshold - current.bounces + 1
                        } else {
                            1
                        })
                    } else {
                        0
                    },
        {
            let ghost before = done;
            let found: Option<PhotonHit> = self.renderer.process_photon(
                &current,
                &mut cast_buffer,
                &mut volume_hit_buffer,
                &scene.volumes,
            );
            proof {
                done = before.push(current);
                assert(done.drop_last() =~= before);
                assert forall|i: int| 1 <= i < done.len() implies sent_on(
                    *scene,
                    threshold,
                    done[i - 1],
                    #[trigger] done[i],
                ) by {
                    if i < before.len() {
                        assert(done[i] == before[i] && done[i - 1] == before[i - 1]);
                    }
                }
            }
            match found {
                None => {
                    alive = false;
                },
                Some(photon_hit) => {
                    let (next, visible) = self.route_hit(
                        scene,
                        &photon_hit,
                        random_generator,
                        &mut cast_buffer,
                    );
                    if visible {
                        let lit: bool = self.light_pixel(scene, &photon_hit, image);
                        if lit {
                            writes = writes + 1;
                        }
                    }
                    match next {
                        Some(bounced) => {
                            current = bounced;
                        },
                        None => {
                            alive = false;
                        },
                    }
                },
            }
        }
        proof {
            assert(is_trace(*scene, threshold, photon, done));
        }
        writes
    }

    /// Sends off `budget` photons, one after the other, and follows each to
    /// its end. Returns how many pixels were lit in all.
    ///
    /// Where the photons start and how they bounce is a matter of chance.
    /// Whatever their lives are, there are `budget` of them, each begun by
    /// the lights of the scene; the image is what tracing them one after
    /// the other makes of it; and the pixels lit are as many as the hits
    /// that the camera sees: at most one for each hit of each photon, and a
    /// photon that is sent on until it has bounced `m_bounce_threshold`
    /// times makes at most one hit more than that.
    pub fn render_photons<V: VolumePublicInterface, L: LightPublicInterface, M: Material>(
        &self,
        scene: &Scene<V, L, M>,
        budget: usize,
        random_generator: &mut RandomGenerator,
        image: &mut Image,
    ) -> (writes: u128)
        requires
            scene.wf(),
            old(image).wf(),
            old(image).width() == scene.camera.spec_width(),
            old(image).height() == scene.camera.spec_height(),
        ensures
            final(image).wf(),
            final(image).no_darker_than(*old(image)),
            writes <= budget * (self.renderer.m_bounce_threshold + 1),
            writes == 0 ==> final(image).pixels() == old(image).pixels(),
            exists|history: Seq<Seq<Photon>>|
                #[trigger] is_render(*scene, self.renderer.m_bounce_threshold, history)
                    && history.len() == budget && writes == render_writes(*scene, history)
                    && final(image).pixels() == render_pixels(
                    old(image).pixels(),
                    old(image).width(),
                    *scene,
                    history,
                ),
    {
        let mut writes: u128 = 0;
        let mut sent: usize = 0;
        let ghost per_photon: int = self.renderer.m_bounce_threshold + 1;
        let ghost threshold = self.renderer.m_bounce_threshold;
        let ghost mut history: Seq<Seq<Photon>> = Seq::empty();
        let ghost width = image.width();
        let ghost start = image.pixels();
        while sent < budget
            invariant
                scene.wf(),
                image.wf(),
                image.no_darker_than(*old(image)),
                image.width() == scene.camera.spec_width(),
                image.height() == scene.camera.spec_height(),
                width == old(image).width(),
                start == old(image).pixels(),
                threshold == self.renderer.m_bounce_threshold,
                sent <= budget,
                per_photon == self.renderer.m_bounce_threshold + 1,
                writes <= sent * per_photon,
                writes == 0 ==> image.pixels() == old(image).pixels(),
                history.len() == sent,
                is_render(*scene, threshold, history),
                writes == render_writes(*scene, history),
                image.pixels() == render_pixels(start, width, *scene, history),
            decreases budget - sent,
        {
            let ghost before = history;
            let ghost pixels_before = image.pixels();
            let photon: Photon = self.emit_photon(scene, random_generator);
            let lit: u64 = self.trace_photon(scene, photon, random_generator, image);
            proof {
                assert((sent + 1) * per_photon == sent * per_photon + per_photon)
                    by (nonlinear_arith);
                assert(sent * per_photon <= 0xffff_ffff_ffff_ffff * 0x1_0000_0000)
                    by (nonlinear_arith)
                    requires
                        0 <= sent <= 0xffff_ffff_ffff_ffff,
                        0 <= per_photon <= 0x1_0000_0000,
                ;
                let chain = choose|chain: Seq<Photon>|
                    #[trigger] is_trace(*scene, threshold, photon, chain) && lit == trace_writes(
                        *scene,
                        chain,
                    ) && image.pixels() == trace_pixels(pixels_before, width, *scene, chain);
                history = before.push(chain);
                assert(history.drop_last() =~= before);
                assert forall|k: int| 0 <= k < history.len() implies (
                #[trigger] history[k]).len() > 0 && emitted_by(*scene, history[k][0]) && is_trace(
                    *scene,
                    threshold,
                    history[k][0],
                    history[k],
                ) by {
                    if k < before.len() {
                        assert(history[k] == before[k]);
                    }
                }
            }
            writes = writes + lit as u128;
            sent += 1;
        }
        writes
    }

    /// Renders the scene with `PHOTON_BUDGET` photons into a fresh image of
    /// the size of the camera, which must be a size that a `usize` can count.
    ///
    /// The image is what tracing the photons, whatever their lives are,
    /// makes of a black image; see `render_photons`.
    pub fn render_scene<V: VolumePublicInterface, L: LightPublicInterface, M: Material>(
        &self,
        scene: &Scene<V, L, M>,
    ) -> (image: Image)
        requires
            scene.wf(),
            scene.camera.spec_width() * scene.camera.spec_height() <= usize::MAX,
        ensures
            image.wf(),
            image.width() == scene.camera.spec_width(),
            image.height() == scene.camera.spec_height(),
            exists|history: Seq<Seq<Photon>>|
                #[trigger] is_render(*scene, self.renderer.m_bounce_threshold, history)
                    && history.len() == PHOTON_BUDGET && image.pixels() == render_pixels(
                    black(scene.camera.spec_width() * scene.camera.spec_height()),
                    scene.camera.spec_width(),
                    *scene,
                    history,
                ),
    {
        let mut image: Image = Image::new(scene.camera.width(), scene.camera.height());
        proof {
            assert(image.pixels() =~= black(
                scene.camera.spec_width() * scene.camera.spec_height(),
            ));
        }
        let mut random_generator: RandomGenerator = RandomGenerator::new();
        self.render_photons(scene, PHOTON_BUDGET, &mut random_generator, &mut image);
        image
    }
}

/// What happens to the work that the stages of a render hand to one another.
#[derive(Clone, Copy, Debug, PartialEq, Eq, Structural)]
pub enum WorkEvent {
    /// A piece of work was put on a queue.
    Enqueued,
    /// A piece of work was taken off a queue and dealt with.
    Processed,
    /// The stage that sends photons off has sent its last.
    EmissionFinished,
    /// The caller asks that the render be given up.
    Cancelled,
}

/// What the stages are to do next.
#[derive(Clone, Copy, Debug, PartialEq, Eq, Structural)]
pub enum WorkAction {
    Continue,
    /// Nothing more is to be done: close every queue.
    CloseQueues,
}

/// The count of work in flight. A render is over when the emission has
/// finished and the count is back at zero, or when it was given up.
#[derive(Clone, Copy, Debug, PartialEq, Eq, Structural)]
pub struct WorkTracker {
    pub outstanding: u64,
    pub emitting: bool,
    pub cancelled: bool,
}

impl WorkTracker {
    /// The tracker after an event. The count rises with work put on a queue
    /// and falls with work dealt with; it does not pass the ends of its range.
    pub open spec fn spec_after(self, event: WorkEvent) -> WorkTracker {
        match event {
            WorkEvent::Enqueued => WorkTracker {
                outstanding: if self.outstanding < u64::MAX {
                    (self.outstanding + 1) as u64
                } else {
                    self.outstanding
                },
                ..self
            },
            WorkEvent::Processed => WorkTracker {
                outstanding: if self.outstanding > 0 {
                    (self.outstanding - 1) as u64
                } else {
                    self.outstanding
                },
                ..self
            },
            WorkEvent::EmissionFinished => WorkTracker { emitting: false, ..self },
            WorkEvent::Cancelled => WorkTracker { cancelled: true, ..self },
        }
    }

    /// Nothing is in flight and nothing will come.
    pub open spec fn quiescent(self) -> bool {
        !self.emitting && self.outstanding == 0
    }

    /// The queues are to be closed: the render has come to rest or was given up.
    pub open spec fn closing(self) -> bool {
        self.cancelled || self.quiescent()
    }

    /// The tracker after a run of events.
    pub open spec fn spec_after_all(self, events: Seq<WorkEvent>) -> WorkTracker
        decreases events.len(),
    {
        if events.len() == 0 {
            self
        } else {
            self.spec_after_all(events.drop_last()).spec_after(events.last())
        }
    }

    /// The tracker of a render that is about to begin.
    pub open spec fn spec_new() -> WorkTracker {
        WorkTracker { outstanding: 0, emitting: true, cancelled: false }
    }

    /// A tracker for a render that is about to begin.
    pub fn new() -> (t: WorkTracker)
        ensures
            t == WorkTracker::spec_new(),
    {
        WorkTracker { outstanding: 0, emitting: true, cancelled: false }
    }

    pub fn is_quiescent(&self) -> (b: bool)
        ensures
            b == self.quiescent(),
    {
        !self.emitting && self.outstanding == 0
    }

    /// Takes note of an event and says what to do next.
    pub fn step(&mut self, event: WorkEvent) -> (action: WorkAction)
        ensures
            *final(self) == old(self).spec_after(event),
            action == if final(self).closing() {
                WorkAction::CloseQueues
            } else {
                WorkAction::Continue
            },
    {
        match event {
            WorkEvent::Enqueued => {
                if self.outstanding < u64::MAX {
                    self.outstanding = self.outstanding + 1;
                }
            },
            WorkEvent::Processed => {
                if self.outstanding > 0 {
                    self.outstanding = self.outstanding - 1;
                }
            },
            WorkEvent::EmissionFinished => {
                self.emitting = false;
            },
            WorkEvent::Cancelled => {
                self.cancelled = true;
            },
        }
        if self.cancelled || (!self.emitting && self.outstanding == 0) {
            WorkAction::CloseQueues
        } else {
            WorkAction::Continue
        }
    }
}

/// How many of the events are of the given kind.
pub open spec fn count_of(events: Seq<WorkEvent>, kind: WorkEvent) -> nat
    decreases events.len(),
{
    if events.len() == 0 {
        0
    } else {
        count_of(events.drop_last(), kind) + if events.last() == kind {
            1nat
        } else {
            0nat
        }
    }
}

/// No work is dealt with before it was put on a queue.
pub open spec fn orderly(events: Seq<WorkEvent>) -> bool {
    forall|k: int|
        0 <= k <= events.len() ==> count_of(#[trigger] events.take(k), WorkEvent::Processed)
            <= count_of(events.take(k), WorkEvent::Enqueued)
}

/// After an orderly run of events, the tracker holds the number of pieces
/// of work that were put on a queue and not yet dealt with. The queues are
/// to be closed exactly when the render was given up, or the emission has
/// finished and all work is done.
pub proof fn lemma_tracker_counts(events: Seq<WorkEvent>)
    requires
        orderly(events),
        count_of(events, WorkEvent::Enqueued) <= u64::MAX,
    ensures
        ({
            let t = WorkTracker::spec_new().spec_after_all(events);
            &&& t.outstanding == count_of(events, WorkEvent::Enqueued) - count_of(
                events,
                WorkEvent::Processed,
            )
            &&& t.emitting == (count_of(events, WorkEvent::EmissionFinished) == 0)
            &&& t.cancelled == (count_of(events, WorkEvent::Cancelled) > 0)
            &&& t.closing() <==> (count_of(events, WorkEvent::Cancelled) > 0 || (count_of(
                events,
                WorkEvent::EmissionFinished,
            ) > 0 && count_of(events, WorkEvent::Enqueued) == count_of(
                events,
                WorkEvent::Processed,
            )))
        }),
    decreases events.len(),
{
    assert(events.take(events.len() as int) =~= events);
    if events.len() > 0 {
        let rest = events.drop_last();
        assert forall|k: int| 0 <= k <= rest.len() implies count_of(
            #[trigger] rest.take(k),
            WorkEvent::Processed,
        ) <= count_of(rest.take(k), WorkEvent::Enqueued) by {
            assert(rest.take(k) =~= events.take(k));
        }
        assert(rest.take(rest.len() as int) =~= rest);
        lemma_tracker_counts(rest);
    }
}

} // verus!
