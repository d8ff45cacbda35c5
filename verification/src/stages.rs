//! The four stages of a render, one step at a time.
//!
//! A render that runs its stages side by side takes its steps in an order
//! that nobody knows beforehand. Here the stages are laid out so that any
//! such order can be followed: the work in flight lies on three queues, and
//! a step takes one piece of work off a queue, deals with it, and puts what
//! comes of it on the queues that follow. Whatever the order of the steps,
//! the count of work in flight is right, every step with work to do brings
//! the render nearer to its end, and the render has come to rest exactly
//! when no stage has work left. Which of the pieces on a queue a step takes
//! is of no account; here it takes the one that came last. Taken for one
//! photon at a time, the steps render what tracing the photons one after
//! the other renders.

use vstd::prelude::*;
use crate::hit::Hit;
use crate::image::Image;
use crate::light::LightPublicInterface;
use crate::material::Material;
use crate::photon::{Photon, PhotonHit};
use crate::pipeline::{
    comes_to_an_end, emitted_by, is_render, is_trace, lit_pixels, render_pixels, render_writes,
    sent_on, trace_pixels, trace_writes, Pipeline, WorkEvent, WorkTracker,
};
use crate::renderer::Renderer;
use crate::random_generator::RandomGenerator;
use crate::scene::Scene;
use crate::volume::VolumePublicInterface;

verus! {

/// The stages of a render.
#[derive(Clone, Copy, Debug, PartialEq, Eq, Structural)]
pub enum Stage {
    /// Sends photons off.
    Emission,
    /// Finds what a photon hits.
    Intersection,
    /// Sends a hit on as a new photon, and passes on the hits that the camera sees.
    Routing,
    /// Adds the light of a hit to the image.
    Accumulation,
}

/// The work in flight between the stages, and what is still to come.
pub struct Stages {
    /// Photons that wait to be traced.
    pub photons: Vec<Photon>,
    /// Hits that wait to be sent on and judged.
    pub hits: Vec<PhotonHit>,
    /// Hits that the camera sees and that wait to light their pixel.
    pub final_hits: Vec<PhotonHit>,
    pub tracker: WorkTracker,
    /// How many photons are still to be sent off.
    pub to_emit: usize,
    /// How many pixels were lit so far.
    pub writes: u128,
}

/// How often a photon that has bounced `bounces` times can still bounce.
pub open spec fn bounces_left(bounces: u32, threshold: u32) -> int {
    if bounces <= threshold {
        threshold - bounces
    } else {
        0
    }
}

/// The sum over the photons of `slope` for every bounce left, plus `base`.
pub open spec fn photons_load(photons: Seq<Photon>, threshold: u32, slope: int, base: int) -> int
    decreases photons.len(),
{
    if photons.len() == 0 {
        0
    } else {
        photons_load(photons.drop_last(), threshold, slope, base) + slope * bounces_left(
            photons.last().bounces,
            threshold,
        ) + base
    }
}

/// The sum over the hits of `slope` for every bounce left to the photon, plus `base`.
pub open spec fn hits_load(hits: Seq<PhotonHit>, threshold: u32, slope: int, base: int) -> int
    decreases hits.len(),
{
    if hits.len() == 0 {
        0
    } else {
        hits_load(hits.drop_last(), threshold, slope, base) + slope * bounces_left(
            hits.last().photon.bounces,
            threshold,
        ) + base
    }
}

/// A load is not negative, and it is at least the number of its items times `base`.
pub proof fn lemma_photons_load_is_positive(photons: Seq<Photon>, threshold: u32, slope: int, base: int)
    requires
        slope >= 0,
        base >= 0,
    ensures
        photons_load(photons, threshold, slope, base) >= photons.len() * base,
        photons_load(photons, threshold, slope, base) >= 0,
    decreases photons.len(),
{
    if photons.len() > 0 {
        lemma_photons_load_is_positive(photons.drop_last(), threshold, slope, base);
        let b = bounces_left(photons.last().bounces, threshold);
        assert(slope * b >= 0) by (nonlinear_arith)
            requires
                slope >= 0,
                b >= 0,
        ;
        assert(photons.len() * base == (photons.len() - 1) * base + base) by (nonlinear_arith);
    }
    assert(photons.len() * base >= 0) by (nonlinear_arith)
        requires
            base >= 0,
            photons.len() >= 0,
    ;
}

/// A load is not negative, and it is at least the number of its items times `base`.
pub proof fn lemma_hits_load_is_positive(hits: Seq<PhotonHit>, threshold: u32, slope: int, base: int)
    requires
        slope >= 0,
        base >= 0,
    ensures
        hits_load(hits, threshold, slope, base) >= hits.len() * base,
        hits_load(hits, threshold, slope, base) >= 0,
    decreases hits.len(),
{
    if hits.len() > 0 {
        lemma_hits_load_is_positive(hits.drop_last(), threshold, slope, base);
        let b = bounces_left(hits.last().photon.bounces, threshold);
        assert(slope * b >= 0) by (nonlinear_arith)
            requires
                slope >= 0,
                b >= 0,
        ;
        assert(hits.len() * base == (hits.len() - 1) * base + base) by (nonlinear_arith);
    }
    assert(hits.len() * base >= 0) by (nonlinear_arith)
        requires
            base >= 0,
            hits.len() >= 0,
    ;
}

impl Stages {
    /// How many pieces of work lie on the queues.
    pub open spec fn in_flight(self) -> int {
        (self.photons@.len() + self.hits@.len() + self.final_hits@.len()) as int
    }

    /// Whether a stage has work to do.
    pub open spec fn has_work(self, stage: Stage) -> bool {
        match stage {
            Stage::Emission => self.to_emit > 0,
            Stage::Intersection => self.photons@.len() > 0,
            Stage::Routing => self.hits@.len() > 0,
            Stage::Accumulation => self.final_hits@.len() > 0,
        }
    }

    /// An upper bound on the number of steps that are still to be taken.
    ///
    /// A final hit takes one step. A hit takes one step and leaves at most
    /// a final hit and a photon that has bounced once more. A photon takes
    /// one step and leaves at most a hit. A photon to be sent off takes one
    /// step and leaves a photon that has not bounced.
    pub open spec fn effort(self, threshold: u32) -> int {
        self.to_emit * (3 * threshold + 4) + photons_load(self.photons@, threshold, 3, 3)
            + hits_load(self.hits@, threshold, 3, 2) + self.final_hits@.len()
    }

    /// An upper bound on the number of pixels that are still to be lit: a
    /// photon lights at most one pixel at each of its hits.
    pub open spec fn writes_to_come(self, threshold: u32) -> int {
        self.to_emit * (threshold + 1) + photons_load(self.photons@, threshold, 1, 1) + hits_load(
            self.hits@,
            threshold,
            1,
            1,
        ) + self.final_hits@.len()
    }

    /// The tracker counts what lies on the queues and knows whether photons
    /// are still to be sent off; the materials of all hits are in the
    /// scene's library; and the steps to come are few enough to be counted.
    pub open spec fn wf<V: VolumePublicInterface, L: LightPublicInterface, M: Material>(
        self,
        scene: Scene<V, L, M>,
        threshold: u32,
    ) -> bool {
        &&& self.tracker.outstanding == self.in_flight()
        &&& !self.tracker.cancelled
        &&& self.tracker.emitting == (self.to_emit > 0)
        &&& self.effort(threshold) <= u64::MAX
        &&& forall|i: int|
            0 <= i < self.hits@.len() ==> (#[trigger] self.hits@[i]).hit.material_index
                < scene.material_library.contents().len()
        &&& forall|i: int|
            0 <= i < self.final_hits@.len() ==> (#[trigger] self.final_hits@[i]).hit.material_index
                < scene.material_library.contents().len()
    }

    /// The state of a render that is about to send off `budget` photons.
    pub fn new(budget: usize, threshold: u32) -> (stages: Stages)
        requires
            budget * (3 * threshold + 4) <= u64::MAX,
        ensures
            stages.photons@.len() == 0,
            stages.hits@.len() == 0,
            stages.final_hits@.len() == 0,
            stages.to_emit == budget,
            stages.writes == 0,
            stages.tracker.outstanding == 0,
            !stages.tracker.cancelled,
            stages.tracker.emitting == (budget > 0),
            stages.effort(threshold) == budget * (3 * threshold + 4),
            stages.writes_to_come(threshold) == budget * (threshold + 1),
    {
        let mut tracker: WorkTracker = WorkTracker::new();
        if budget == 0 {
            tracker.step(WorkEvent::EmissionFinished);
        }
        Stages {
            photons: Vec::new(),
            hits: Vec::new(),
            final_hits: Vec::new(),
            tracker,
            to_emit: budget,
            writes: 0,
        }
    }

    /// Whether the render has come to rest: no stage has work left.
    pub fn at_rest(&self) -> (rest: bool)
        ensures
            rest == (forall|stage: Stage| !self.has_work(stage)),
            rest == (self.to_emit == 0 && self.in_flight() == 0),
    {
        let rest: bool = self.to_emit == 0 && self.photons.len() == 0 && self.hits.len() == 0
            && self.final_hits.len() == 0;
        proof {
            if !rest {
                if self.to_emit > 0 {
                    assert(self.has_work(Stage::Emission));
                } else if self.photons@.len() > 0 {
                    assert(self.has_work(Stage::Intersection));
                } else if self.hits@.len() > 0 {
                    assert(self.has_work(Stage::Routing));
                } else {
                    assert(self.has_work(Stage::Accumulation));
                }
            } else {
                assert forall|stage: Stage| !self.has_work(stage) by {
                    match stage {
                        Stage::Emission => {},
                        Stage::Intersection => {},
                        Stage::Routing => {},
                        Stage::Accumulation => {},
                    }
                }
            }
        }
        rest
    }
}

/// The tracker says that the queues are to be closed exactly when the
/// render has come to rest: no photon is to be sent off, and no work lies
/// on any queue.
pub proof fn lemma_closing_is_rest<V: VolumePublicInterface, L: LightPublicInterface, M: Material>(
    stages: Stages,
    scene: Scene<V, L, M>,
    threshold: u32,
)
    requires
        stages.wf(scene, threshold),
    ensures
        stages.tracker.closing() <==> (stages.to_emit == 0 && stages.in_flight() == 0),
        stages.tracker.closing() <==> (forall|stage: Stage| !stages.has_work(stage)),
{
    if stages.to_emit == 0 && stages.in_flight() == 0 {
        assert forall|stage: Stage| !stages.has_work(stage) by {
            match stage {
                Stage::Emission => {},
                Stage::Intersection => {},
                Stage::Routing => {},
                Stage::Accumulation => {},
            }
        }
    } else if stages.to_emit > 0 {
        assert(stages.has_work(Stage::Emission));
    } else if stages.photons@.len() > 0 {
        assert(stages.has_work(Stage::Intersection));
    } else if stages.hits@.len() > 0 {
        assert(stages.has_work(Stage::Routing));
    } else {
        assert(stages.has_work(Stage::Accumulation));
    }
}

/// What a step may rely on: the scene can be rendered, the state of the
/// stages is in order, the count of pixels has room, and the image is the
/// camera's.
pub open spec fn step_ready<V: VolumePublicInterface, L: LightPublicInterface, M: Material>(
    stages: Stages,
    image: Image,
    scene: Scene<V, L, M>,
    threshold: u32,
) -> bool {
    &&& scene.wf()
    &&& stages.wf(scene, threshold)
    &&& stages.writes + stages.writes_to_come(threshold) <= u128::MAX
    &&& image.wf()
    &&& image.width() == scene.camera.spec_width()
    &&& image.height() == scene.camera.spec_height()
}

/// What a step of a stage that has work does to the queues and the image.
///
/// Emission puts a photon that the lights have sent off on the queue of
/// photons. Intersection takes the last photon off that queue and puts its
/// hit, if it has one, on the queue of hits. Routing takes the last hit off
/// that queue; unless the photon of the hit has bounced as often as the
/// threshold allows, it puts a photon on the queue of photons that starts
/// at the hit and has bounced once more; and it puts the hit on the queue
/// of final hits if the camera sees it. Accumulation takes the last hit off
/// the queue of final hits and adds its light to the image.
pub open spec fn step_effect<V: VolumePublicInterface, L: LightPublicInterface, M: Material>(
    before: Stages,
    after: Stages,
    image_before: Image,
    image_after: Image,
    scene: Scene<V, L, M>,
    threshold: u32,
    stage: Stage,
) -> bool {
    match stage {
        Stage::Emission => {
            &&& after.photons@.len() == before.photons@.len() + 1
            &&& after.photons@.drop_last() == before.photons@
            &&& emitted_by(scene, after.photons@.last())
            &&& after.hits@ == before.hits@
            &&& after.final_hits@ == before.final_hits@
            &&& after.to_emit == before.to_emit - 1
            &&& after.writes == before.writes
            &&& image_after.pixels() == image_before.pixels()
        },
        Stage::Intersection => {
            &&& after.photons@ == before.photons@.drop_last()
            &&& after.hits@ == match Renderer::spec_process_photon(
                before.photons@.last(),
                scene.volumes@,
            ) {
                Some(photon_hit) => before.hits@.push(photon_hit),
                None => before.hits@,
            }
            &&& after.final_hits@ == before.final_hits@
            &&& after.to_emit == before.to_emit
            &&& after.writes == before.writes
            &&& image_after.pixels() == image_before.pixels()
        },
        Stage::Routing => {
            let photon_hit = before.hits@.last();
            &&& after.hits@ == before.hits@.drop_last()
            &&& after.final_hits@ == if Renderer::spec_process_hit(
                photon_hit,
                scene.camera,
                scene.volumes@,
            ) {
                before.final_hits@.push(photon_hit)
            } else {
                before.final_hits@
            }
            &&& photon_hit.photon.bounces >= threshold ==> after.photons@ == before.photons@
            &&& photon_hit.photon.bounces < threshold ==> {
                &&& after.photons@.len() == before.photons@.len() + 1
                &&& after.photons@.drop_last() == before.photons@
                &&& after.photons@.last().bounces == photon_hit.photon.bounces + 1
                &&& after.photons@.last().ray.origin == photon_hit.hit.position
            }
            &&& after.to_emit == before.to_emit
            &&& after.writes == before.writes
            &&& image_after.pixels() == image_before.pixels()
        },
        Stage::Accumulation => {
            let photon_hit = before.final_hits@.last();
            &&& after.photons@ == before.photons@
            &&& after.hits@ == before.hits@
            &&& after.final_hits@ == before.final_hits@.drop_last()
            &&& after.to_emit == before.to_emit
            &&& image_after.pixels() == lit_pixels(
                image_before.pixels(),
                image_before.width(),
                scene,
                photon_hit,
            )
            &&& after.writes == before.writes + if scene.camera.spec_coord_for_point(
                photon_hit.hit.position,
            ) is Some {
                1int
            } else {
                0int
            }
        },
    }
}

/// What a step of a stage brings about.
///
/// The state of the stages stays in order, and the image loses no light. A
/// stage without work leaves everything as it is. A step with work to do
/// does what `step_effect` says, and lowers the effort that is left. The
/// pixels lit and those still to be lit never add up to more than before.
pub open spec fn step_done<V: VolumePublicInterface, L: LightPublicInterface, M: Material>(
    before: Stages,
    after: Stages,
    image_before: Image,
    image_after: Image,
    scene: Scene<V, L, M>,
    threshold: u32,
    stage: Stage,
    progressed: bool,
) -> bool {
    &&& after.wf(scene, threshold)
    &&& image_after.wf()
    &&& image_after.no_darker_than(image_before)
    &&& progressed == before.has_work(stage)
    &&& progressed ==> after.effort(threshold) < before.effort(threshold)
    &&& progressed ==> step_effect(
        before,
        after,
        image_before,
        image_after,
        scene,
        threshold,
        stage,
    )
    &&& !progressed ==> {
        &&& after.photons@ == before.photons@
        &&& after.hits@ == before.hits@
        &&& after.final_hits@ == before.final_hits@
        &&& after.to_emit == before.to_emit
        &&& after.tracker == before.tracker
        &&& after.writes == before.writes
    }
    &&& after.writes >= before.writes
    &&& after.writes + after.writes_to_come(threshold) <= before.writes + before.writes_to_come(
        threshold,
    )
    &&& after.writes == before.writes ==> image_after.pixels() == image_before.pixels()
}

/// The parts of the effort and of the pixels to come are not negative.
pub proof fn lemma_loads_are_positive(stages: Stages, threshold: u32)
    ensures
        stages.to_emit * (3 * threshold + 4) >= 0,
        stages.to_emit * (threshold + 1) >= 0,
        photons_load(stages.photons@, threshold, 3, 3) >= stages.photons@.len() * 3,
        hits_load(stages.hits@, threshold, 3, 2) >= stages.hits@.len() * 2,
        photons_load(stages.photons@, threshold, 1, 1) >= stages.photons@.len(),
        hits_load(stages.hits@, threshold, 1, 1) >= stages.hits@.len(),
        stages.effort(threshold) >= stages.in_flight(),
        stages.effort(threshold) >= 0,
        stages.writes_to_come(threshold) >= 0,
{
    lemma_photons_load_is_positive(stages.photons@, threshold, 3, 3);
    lemma_hits_load_is_positive(stages.hits@, threshold, 3, 2);
    lemma_photons_load_is_positive(stages.photons@, threshold, 1, 1);
    lemma_hits_load_is_positive(stages.hits@, threshold, 1, 1);
    assert(stages.to_emit * (3 * threshold + 4) >= 0) by (nonlinear_arith)
        requires
            stages.to_emit >= 0,
            threshold >= 0,
    ;
    assert(stages.to_emit * (threshold + 1) >= 0) by (nonlinear_arith)
        requires
            stages.to_emit >= 0,
            threshold >= 0,
    ;
}

impl Pipeline {
    /// Sends one photon off, if any is still to be sent off.
    pub fn emission_step<V: VolumePublicInterface, L: LightPublicInterface, M: Material>(
        &self,
        scene: &Scene<V, L, M>,
        stages: &mut Stages,
        random_generator: &mut RandomGenerator,
        image: &Image,
    ) -> (progressed: bool)
        requires
            step_ready(*old(stages), *image, *scene, self.renderer.m_bounce_threshold),
        ensures
            step_done(
                *old(stages),
                *final(stages),
                *image,
                *image,
                *scene,
                self.renderer.m_bounce_threshold,
                Stage::Emission,
                progressed,
            ),
    {
        let ghost threshold = self.renderer.m_bounce_threshold;
        if stages.to_emit == 0 {
            return false;
        }
        let photon: Photon = self.emit_photon(scene, random_generator);
        proof {
            lemma_loads_are_positive(*stages, threshold);
            let left = (stages.to_emit - 1) as int;
            assert(stages.to_emit * (3 * threshold + 4) == left * (3 * threshold + 4) + (3
                * threshold + 4)) by (nonlinear_arith)
                requires
                    left == stages.to_emit - 1,
            ;
            assert(stages.to_emit * (threshold + 1) == left * (threshold + 1) + (threshold + 1))
                by (nonlinear_arith)
                requires
                    left == stages.to_emit - 1,
            ;
            assert(stages.photons@.push(photon).drop_last() =~= stages.photons@);
        }
        stages.photons.push(photon);
        stages.tracker.step(WorkEvent::Enqueued);
        stages.to_emit = stages.to_emit - 1;
        if stages.to_emit == 0 {
            stages.tracker.step(WorkEvent::EmissionFinished);
        }
        true
    }

    /// Traces one photon, if any waits, and puts its hit on the queue of hits.
    pub fn intersection_step<V: VolumePublicInterface, L: LightPublicInterface, M: Material>(
        &self,
        scene: &Scene<V, L, M>,
        stages: &mut Stages,
        image: &Image,
    ) -> (progressed: bool)
        requires
            step_ready(*old(stages), *image, *scene, self.renderer.m_bounce_threshold),
        ensures
            step_done(
                *old(stages),
                *final(stages),
                *image,
                *image,
                *scene,
                self.renderer.m_bounce_threshold,
                Stage::Intersection,
                progressed,
            ),
    {
        let ghost threshold = self.renderer.m_bounce_threshold;
        proof {
            lemma_loads_are_positive(*stages, threshold);
        }
        let photon: Photon = match stages.photons.pop() {
            Some(photon) => photon,
            None => {
                return false;
            },
        };
        let mut cast_buffer: Vec<Hit> = Vec::new();
        let mut volume_hit_buffer: Vec<PhotonHit> = Vec::new();
        let found: Option<PhotonHit> = self.renderer.process_photon(
            &photon,
            &mut cast_buffer,
            &mut volume_hit_buffer,
            &scene.volumes,
        );
        match found {
            Some(photon_hit) => {
                proof {
                    assert(stages.hits@.push(photon_hit).drop_last() =~= stages.hits@);
                    assert forall|i: int| 0 <= i < stages.hits@.len() + 1 implies (
                    #[trigger] stages.hits@.push(photon_hit)[i]).hit.material_index
                        < scene.material_library.contents().len() by {
                        if i < stages.hits@.len() {
                            assert(stages.hits@.push(photon_hit)[i] == old(stages).hits@[i]);
                        }
                    }
                }
                stages.hits.push(photon_hit);
                stages.tracker.step(WorkEvent::Enqueued);
            },
            None => {},
        }
        stages.tracker.step(WorkEvent::Processed);
        true
    }

    /// Deals with one hit, if any waits: the photon that it sends on goes
    /// to the queue of photons, and the hit itself, if the camera sees it,
    /// to the queue of the hits that light a pixel.
    pub fn routing_step<V: VolumePublicInterface, L: LightPublicInterface, M: Material>(
        &self,
        scene: &Scene<V, L, M>,
        stages: &mut Stages,
        random_generator: &mut RandomGenerator,
        image: &Image,
    ) -> (progressed: bool)
        requires
            step_ready(*old(stages), *image, *scene, self.renderer.m_bounce_threshold),
        ensures
            step_done(
                *old(stages),
                *final(stages),
                *image,
                *image,
                *scene,
                self.renderer.m_bounce_threshold,
                Stage::Routing,
                progressed,
            ),
    {
        let ghost threshold = self.renderer.m_bounce_threshold;
        proof {
            lemma_loads_are_positive(*stages, threshold);
        }
        let photon_hit: PhotonHit = match stages.hits.pop() {
            Some(photon_hit) => photon_hit,
            None => {
                return false;
            },
        };
        proof {
            assert(old(stages).hits@[old(stages).hits@.len() - 1] == photon_hit);
            assert forall|i: int| 0 <= i < stages.hits@.len() implies (
            #[trigger] stages.hits@[i]).hit.material_index
                < scene.material_library.contents().len() by {
                assert(stages.hits@[i] == old(stages).hits@[i]);
            }
        }
        let mut cast_buffer: Vec<Hit> = Vec::new();
        let (next, visible) = self.route_hit(scene, &photon_hit, random_generator, &mut cast_buffer);
        match next {
            Some(photon) => {
                proof {
                    assert(stages.photons@.push(photon).drop_last() =~= stages.photons@);
                }
                stages.photons.push(photon);
                stages.tracker.step(WorkEvent::Enqueued);
            },
            None => {},
        }
        if visible {
            proof {
                assert forall|i: int| 0 <= i < stages.final_hits@.len() + 1 implies (
                #[trigger] stages.final_hits@.push(photon_hit)[i]).hit.material_index
                    < scene.material_library.contents().len() by {
                    if i < stages.final_hits@.len() {
                        assert(stages.final_hits@.push(photon_hit)[i] == old(stages).final_hits@[i]);
                    }
                }
            }
            stages.final_hits.push(photon_hit);
            stages.tracker.step(WorkEvent::Enqueued);
        }
        stages.tracker.step(WorkEvent::Processed);
        proof {
            let left = bounces_left(photon_hit.photon.bounces, threshold);
            assert(old(stages).hits@.drop_last() =~= stages.hits@);
            assert(hits_load(old(stages).hits@, threshold, 3, 2) == hits_load(
                stages.hits@,
                threshold,
                3,
                2,
            ) + 3 * left + 2);
            assert(hits_load(old(stages).hits@, threshold, 1, 1) == hits_load(
                stages.hits@,
                threshold,
                1,
                1,
            ) + 1 * left + 1);
            match next {
                Some(photon) => {
                    assert(stages.photons@ =~= old(stages).photons@.push(photon));
                    assert(stages.photons@.drop_last() =~= old(stages).photons@);
                    assert(bounces_left(photon.bounces, threshold) == left - 1);
                    assert(photons_load(stages.photons@, threshold, 3, 3) == photons_load(
                        old(stages).photons@,
                        threshold,
                        3,
                        3,
                    ) + 3 * (left - 1) + 3);
                    assert(photons_load(stages.photons@, threshold, 1, 1) == photons_load(
                        old(stages).photons@,
                        threshold,
                        1,
                        1,
                    ) + 1 * (left - 1) + 1);
                },
                None => {
                    assert(stages.photons@ =~= old(stages).photons@);
                },
            }
            assert(stages.effort(threshold) < old(stages).effort(threshold));
            assert(stages.writes_to_come(threshold) <= old(stages).writes_to_come(threshold));
        }
        true
    }

    /// Lights the pixel of one hit that the camera sees, if any waits.
    pub fn accumulation_step<V: VolumePublicInterface, L: LightPublicInterface, M: Material>(
        &self,
        scene: &Scene<V, L, M>,
        stages: &mut Stages,
        image: &mut Image,
    ) -> (progressed: bool)
        requires
            step_ready(*old(stages), *old(image), *scene, self.renderer.m_bounce_threshold),
        ensures
            step_done(
                *old(stages),
                *final(stages),
                *old(image),
                *final(image),
                *scene,
                self.renderer.m_bounce_threshold,
                Stage::Accumulation,
                progressed,
            ),
            final(image).width() == old(image).width(),
            final(image).height() == old(image).height(),
    {
        let ghost threshold = self.renderer.m_bounce_threshold;
        proof {
            lemma_loads_are_positive(*stages, threshold);
        }
        let photon_hit: PhotonHit = match stages.final_hits.pop() {
            Some(photon_hit) => photon_hit,
            None => {
                return false;
            },
        };
        proof {
            assert(old(stages).final_hits@[old(stages).final_hits@.len() - 1] == photon_hit);
            assert forall|i: int| 0 <= i < stages.final_hits@.len() implies (
            #[trigger] stages.final_hits@[i]).hit.material_index
                < scene.material_library.contents().len() by {
                assert(stages.final_hits@[i] == old(stages).final_hits@[i]);
            }
        }
        let lit: bool = self.light_pixel(scene, &photon_hit, image);
        if lit {
            stages.writes = stages.writes + 1;
        }
        stages.tracker.step(WorkEvent::Processed);
        true
    }

    /// Takes one step of a stage, if the stage has work to do, and says
    /// whether it had; see `step_done`.
    ///
    /// Since a step with work to do lowers the effort that is left, every
    /// order of steps in which no stage with work is passed over for ever
    /// comes to an end.
    pub fn step_stage<V: VolumePublicInterface, L: LightPublicInterface, M: Material>(
        &self,
        scene: &Scene<V, L, M>,
        stages: &mut Stages,
        stage: Stage,
        random_generator: &mut RandomGenerator,
        image: &mut Image,
    ) -> (progressed: bool)
        requires
            step_ready(*old(stages), *old(image), *scene, self.renderer.m_bounce_threshold),
        ensures
            step_done(
                *old(stages),
                *final(stages),
                *old(image),
                *final(image),
                *scene,
                self.renderer.m_bounce_threshold,
                stage,
                progressed,
            ),
            final(image).width() == old(image).width(),
            final(image).height() == old(image).height(),
    {
        match stage {
            Stage::Emission => self.emission_step(scene, stages, random_generator, image),
            Stage::Intersection => self.intersection_step(scene, stages, image),
            Stage::Routing => self.routing_step(scene, stages, random_generator, image),
            Stage::Accumulation => self.accumulation_step(scene, stages, image),
        }
    }

    /// Runs the stages until the render has come to rest, one photon at a
    /// time: a photon is sent off, and the stages that follow take their
    /// steps on what comes of it until nothing is in flight; then the next
    /// photon is sent off. Returns how many pixels were lit.
    ///
    /// Taken in this order, the steps trace each photon from hit to hit as
    /// `render_photons` does. Whatever the lives of the photons are, there
    /// are `budget` of them, each begun by the lights of the scene; the
    /// image is what tracing them one after the other makes of it; and the
    /// pixels lit are as many as the hits that the camera sees.
    pub fn run_stages<V: VolumePublicInterface, L: LightPublicInterface, M: Material>(
        &self,
        scene: &Scene<V, L, M>,
        budget: usize,
        random_generator: &mut RandomGenerator,
        image: &mut Image,
    ) -> (writes: u128)
        requires
            scene.wf(),
            budget * (3 * self.renderer.m_bounce_threshold + 4) <= u64::MAX,
            old(image).wf(),
            old(image).width() == scene.camera.spec_width(),
            old(image).height() == scene.camera.spec_height(),
        ensures
            final(image).wf(),
            final(image).no_darker_than(*old(image)),
            writes <= budget * (self.renderer.m_bounce_threshold + 1),
            writes == 0 ==> final(image).pixels() == old(image).pixels(),
            exists|history: Seq<Seq<Photon>>|
                #[trigger] is_render(*scene, self.renderer.m_bounce_threshold, history)
                    && history.len() == budget && writes == render_writes(*scene, history)
                    && final(image).pixels() == render_pixels(
                    old(image).pixels(),
                    old(image).width(),
                    *scene,
                    history,
                ),
    {
        let ghost threshold = self.renderer.m_bounce_threshold;
        let mut stages: Stages = Stages::new(budget, self.renderer.m_bounce_threshold);
        let ghost bound: int = budget * (threshold + 1);
        let ghost mut history: Seq<Seq<Photon>> = Seq::empty();
        let ghost width = image.width();
        let ghost start = image.pixels();
        proof {
            assert(0 <= bound <= budget * (3 * threshold + 4)) by (nonlinear_arith)
                requires
                    bound == budget * (threshold + 1),
                    budget >= 0,
                    threshold >= 0,
            ;
        }
        while stages.to_emit > 0
            invariant
                scene.wf(),
                threshold == self.renderer.m_bounce_threshold,
                stages.wf(*scene, threshold),
                stages.writes + stages.writes_to_come(threshold) <= bound,
                0 <= bound <= u64::MAX,
                image.wf(),
                image.no_darker_than(*old(image)),
                image.width() == scene.camera.spec_width(),
                image.height() == scene.camera.spec_height(),
                width == old(image).width(),
                start == old(image).pixels(),
                stages.writes == 0 ==> image.pixels() == old(image).pixels(),
                stages.photons@.len() == 0,
                stages.hits@.len() == 0,
                stages.final_hits@.len() == 0,
                stages.to_emit <= budget,
                history.len() == budget - stages.to_emit,
                is_render(*scene, threshold, history),
                stages.writes == render_writes(*scene, history),
                image.pixels() == render_pixels(start, width, *scene, history),
            decreases stages.effort(threshold),
        {
            proof {
                lemma_loads_are_positive(stages, threshold);
            }
            let ghost lives = history;
            let ghost writes_before = stages.writes;
            let ghost pixels_before = image.pixels();
            self.emission_step(scene, &mut stages, random_generator, image);
            let ghost first = stages.photons@[0];
            let ghost mut done: Seq<Photon> = Seq::empty();
            proof {
                assert(stages.photons@.last() == first);
            }
            while stages.photons.len() > 0
                invariant
                    scene.wf(),
                    threshold == self.renderer.m_bounce_threshold,
                    stages.wf(*scene, threshold),
                    stages.writes + stages.writes_to_come(threshold) <= bound,
                    0 <= bound <= u64::MAX,
                    image.wf(),
                    image.no_darker_than(*old(image)),
                    image.width() == scene.camera.spec_width(),
                    image.height() == scene.camera.spec_height(),
                    width == old(image).width(),
                    stages.writes == 0 ==> image.pixels() == old(image).pixels(),
                    stages.photons@.len() <= 1,
                    stages.hits@.len() == 0,
                    stages.final_hits@.len() == 0,
                    stages.to_emit < budget,
                    lives.len() == budget - stages.to_emit - 1,
                    emitted_by(*scene, first),
                    forall|i: int|
                        1 <= i < done.len() ==> sent_on(
                            *scene,
                            threshold,
                            done[i - 1],
                            #[trigger] done[i],
                        ),
                    done.len() > 0 ==> done[0] == first,
                    stages.photons@.len() == 1 && done.len() == 0 ==> stages.photons@[0] == first,
                    stages.photons@.len() == 1 && done.len() > 0 ==> sent_on(
                        *scene,
                        threshold,
                        done.last(),
                        stages.photons@[0],
                    ),
                    stages.photons@.len() == 0 ==> done.len() > 0 && comes_to_an_end(
                        *scene,
                        threshold,
                        done.last(),
                    ),
                    stages.writes == writes_before + trace_writes(*scene, done),
                    image.pixels() == trace_pixels(pixels_before, width, *scene, done),
                decreases stages.effort(threshold),
            {
                proof {
                    lemma_loads_are_positive(stages, threshold);
                }
                let ghost before = done;
                let ghost current = stages.photons@[0];
                proof {
                    assert(stages.photons@.last() == current);
                    done = before.push(current);
                    assert(done.drop_last() =~= before);
                    assert forall|i: int| 1 <= i < done.len() implies sent_on(
                        *scene,
                        threshold,
                        done[i - 1],
                        #[trigger] done[i],
                    ) by {
                        if i < before.len() {
                            assert(done[i] == before[i] && done[i - 1] == before[i - 1]);
                        }
                    }
                }
                self.intersection_step(scene, &mut stages, image);
                proof {
                    assert(stages.photons@.len() == 0);
                    if stages.hits@.len() > 0 {
                        assert(stages.hits@.last() == Renderer::spec_process_photon(
                            current,
                            scene.volumes@,
                        )->0);
                    }
                }
                self.routing_step(scene, &mut stages, random_generator, image);
                proof {
                    assert(stages.hits@.len() == 0);
                    if stages.photons@.len() > 0 {
                        assert(stages.photons@.last() == stages.photons@[0]);
                    }
                }
                self.accumulation_step(scene, &mut stages, image);
                proof {
                    assert(stages.final_hits@.len() == 0);
                }
            }
            proof {
                assert(is_trace(*scene, threshold, first, done));
                history = lives.push(done);
                assert(history.drop_last() =~= lives);
                assert forall|k: int| 0 <= k < history.len() implies (
                #[trigger] history[k]).len() > 0 && emitted_by(*scene, history[k][0]) && is_trace(
                    *scene,
                    threshold,
                    history[k][0],
                    history[k],
                ) by {
                    if k < lives.len() {
                        assert(history[k] == lives[k]);
                    }
                }
                lemma_loads_are_positive(stages, threshold);
            }
        }
        proof {
            lemma_loads_are_positive(stages, threshold);
        }
        stages.writes
    }
}

} // verus!
