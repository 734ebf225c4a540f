//! The radiance estimator: what a path does at each bounce, and the recursion
//! over the bounces.

use crate::hittable::{HitRecord, Hittable, T_MIN_BITS};
use crate::material::{black, Material, ScatterRecord};
use crate::pdf::{
    fair, generate_allows, lemma_mixture_is_not_degenerate, non_negative, positive, sound,
    value_allows, Incidence, PDF,
};
use crate::ray::Ray;
use crate::scalar::{Scalar, INFINITY_BITS};
use crate::vec3::{Color, Point3, Vec3};
use vstd::prelude::*;

verus! {

/// What the scene answered to a ray.
#[derive(Clone, Copy, Debug)]
pub enum Event {
    /// The ray hit nothing.
    Miss,
    /// The ray hit a surface that does not scatter it.
    Absorbed,
    /// The ray hit a surface that sends it on as one ray.
    Specular,
    /// The ray hit a surface that scatters it; a direction was drawn from the
    /// mixture of light sampling and the material's own distribution, and
    /// `mixture_pdf` is the density of the mixture at that direction.
    Scatter { mixture_pdf: Scalar },
}

/// How the radiance that comes back along the next ray is weighted.
#[derive(Clone, Copy, Debug, PartialEq, Eq, Structural)]
pub enum Weight {
    /// By the attenuation alone.
    Attenuation,
    /// By the attenuation times the material's scattering density over the
    /// density of the mixture.
    Importance,
}

/// What the estimator does next.
#[derive(Clone, Copy, Debug, PartialEq, Eq, Structural)]
pub enum Action {
    /// The bounce limit is reached: the path contributes black.
    Black,
    /// The path left the scene: it contributes the background.
    Background,
    /// The path ends at the surface: it contributes what the surface emits.
    Emitted,
    /// The path goes on with `depth` bounces left; it contributes what the surface
    /// emits, plus the weighted radiance of the next ray.
    Continue { depth: i32, weight: Weight },
}

/// The action for a ray with `depth` bounces left to which the scene answered with
/// `event`.
///
/// With no bounce left the path is black whatever the scene answered. A miss
/// yields the background, an absorbing surface its emission. A specular surface
/// continues the path. A scattering surface continues it too, unless the density
/// of the mixture at the drawn direction is not above zero: such a path ends at
/// the surface, so that nothing is ever divided by zero.
pub open spec fn next_action(depth: i32, event: Event) -> Action {
    if depth <= 0 {
        Action::Black
    } else {
        match event {
            Event::Miss => Action::Background,
            Event::Absorbed => Action::Emitted,
            Event::Specular => Action::Continue { depth: (depth - 1) as i32, weight: Weight::Attenuation },
            Event::Scatter { mixture_pdf } => if (Scalar { bits: 0 }).less(mixture_pdf) {
                Action::Continue { depth: (depth - 1) as i32, weight: Weight::Importance }
            } else {
                Action::Emitted
            },
        }
    }
}

/// The even mixture of sampling toward the lights, as seen from `p`, and the
/// distribution `material_pdf`.
pub open spec fn mixed(p: Point3, material_pdf: PDF) -> PDF {
    PDF::Mixture { first: Box::new(PDF::Hittable { origin: p }), second: Box::new(material_pdf) }
}

/// The distribution from which the next direction is drawn at a scattering
/// surface: an even mixture of sampling toward the lights, as seen from the hit
/// point `p`, and the material's own distribution.
pub fn sampling_pdf(p: &Point3, material_pdf: PDF) -> (mixture: PDF)
    ensures
        mixture == mixed(*p, material_pdf),
        mixture.has_part(material_pdf),
{
    let light_pdf = PDF::hittable(p);
    assert(material_pdf.has_part(material_pdf));
    PDF::mixture(light_pdf, material_pdf)
}

/// Whether a ray with `depth` bounces left is traced at all.
pub fn exhausted(depth: i32) -> (r: bool)
    ensures
        r == (depth <= 0),
{
    depth <= 0
}

/// One step of the estimator: the action for a ray with `depth` bounces left to
/// which the scene answered with `event`.
pub fn step(depth: i32, event: &Event) -> (action: Action)
    ensures
        action == next_action(depth, *event),
{
    if depth <= 0 {
        return Action::Black;
    }
    match event {
        Event::Miss => Action::Background,
        Event::Absorbed => Action::Emitted,
        Event::Specular => Action::Continue { depth: depth - 1, weight: Weight::Attenuation },
        Event::Scatter { mixture_pdf } => {
            if mixture_pdf.gt(Scalar::zero()) {
                Action::Continue { depth: depth - 1, weight: Weight::Importance }
            } else {
                Action::Emitted
            }
        },
    }
}

/// The number of rays that a path traces when it starts with `depth` bounces left
/// and the scene answers its rays with `events`, one after the other.
pub open spec fn path_length(depth: i32, events: Seq<Event>) -> nat
    decreases events.len(),
{
    if events.len() == 0 {
        0
    } else {
        match next_action(depth, events[0]) {
            Action::Continue { depth: left, weight } => 1 + path_length(left, events.skip(1)),
            Action::Black => 0,
            _ => 1,
        }
    }
}

/// A path never traces more rays than it has bounces: the estimator terminates
/// whatever the scene answers.
pub proof fn lemma_path_is_bounded(depth: i32, events: Seq<Event>)
    ensures
        path_length(depth, events) <= (if depth > 0 {
            depth as nat
        } else {
            0
        }),
    decreases events.len(),
{
    if events.len() > 0 {
        match next_action(depth, events[0]) {
            Action::Continue { depth: left, weight } => {
                lemma_path_is_bounded(left, events.skip(1));
            },
            _ => {},
        }
    }
}

/// A continued path has one bounce less, and a density that is zero, negative or
/// NaN never continues a path.
pub proof fn lemma_continue_spends_a_bounce(depth: i32, event: Event)
    ensures
        next_action(depth, event) matches Action::Continue { depth: left, weight } ==> depth > 0
            && left == depth - 1,
        event matches Event::Scatter { mixture_pdf } && !(Scalar { bits: 0 }).less(mixture_pdf)
            ==> !(next_action(depth, event) is Continue),
{
}

/// What was found at a hit: the radiance that the surface emits, what became of
/// the ray, and, where the path goes on, the attenuation, the next ray and the
/// density with which the material itself scatters into it.
#[derive(Clone, Copy, Debug)]
pub struct Bounce {
    pub emitted: Color,
    pub event: Event,
    pub attenuation: Color,
    pub next: Ray,
    pub scattering_pdf: Scalar,
}

/// Why a scene cannot be rendered.
#[derive(Clone, Copy, Debug, PartialEq, Eq, Structural)]
pub enum SetupError {
    /// Light sampling is asked for, and the scene has no light to sample.
    NoLights,
}

/// Whether a scene with `lights` lights can be rendered with or without light
/// sampling: it cannot where light sampling is asked for and there is no light.
pub fn require_lights(lights: usize, light_sampling: bool) -> (out: Result<(), SetupError>)
    ensures
        out is Err <==> light_sampling && lights == 0,
        out is Err ==> out == Err::<(), SetupError>(SetupError::NoLights),
{
    if light_sampling && lights == 0 {
        Err(SetupError::NoLights)
    } else {
        Ok(())
    }
}

/// What is found where nothing is known of the surface: no emission, and the ray
/// absorbed.
pub open spec fn nothing_found(r: Ray) -> Bounce {
    Bounce {
        emitted: black(),
        event: Event::Absorbed,
        attenuation: black(),
        next: r,
        scattering_pdf: Scalar { bits: 0 },
    }
}

/// The distribution from which the next direction is drawn at `p`.
pub open spec fn sampled(p: Point3, material_pdf: PDF, light_sampling: bool) -> PDF {
    if light_sampling {
        mixed(p, material_pdf)
    } else {
        material_pdf
    }
}

/// Carries the two values that the outcome at a hit depends on: the material's
/// answer and the direction that was drawn.
pub open spec fn found(outcome: Option<ScatterRecord>, direction: Vec3) -> bool {
    true
}

/// Whether `out` is what a scattering outcome with the distribution `pdf` and the
/// given attenuation may lead to, where `direction` was drawn.
///
/// The direction is drawn from the sampling distribution; the next ray leaves the
/// hit point in that direction at the time of `r`; the density in the event is
/// that of the sampling distribution at the direction, and the scattering density
/// is the material's at the next ray.
pub open spec fn scattered_allows<
    M: Material,
    G: Fn(&PDF) -> Vec3,
    C: Fn(&Vec3, &Vec3) -> Incidence,
    T: Fn(&Point3, &Vec3) -> Scalar,
    A: Fn(Scalar, Scalar) -> Scalar,
>(
    m: M,
    r: Ray,
    rec: HitRecord,
    mixture: PDF,
    attenuation: Color,
    direction: Vec3,
    draw: G,
    incidence: C,
    toward: T,
    mean: A,
    out: Bounce,
) -> bool {
    &&& generate_allows(mixture, draw, direction)
    &&& out.next == (Ray { orig: rec.p, dir: direction, time: r.time })
    &&& out.attenuation == attenuation
    &&& out.event matches Event::Scatter { mixture_pdf } && value_allows(
        mixture,
        direction,
        incidence,
        toward,
        mean,
        mixture_pdf,
    )
    &&& m.density_allows(r, rec, out.next, out.scattering_pdf)
}

/// Whether `out` is what `shade` may find at the hit `rec` of the ray `r`.
///
/// The material is the one that the record names in `materials`; where it names
/// none, nothing is found. The emission is the material's. A ray that the
/// material does not scatter is absorbed. A specular outcome gives the next ray
/// and the attenuation as they are. For a scattering outcome a direction is drawn
/// from the sampling distribution, which is the mixture of light sampling and the
/// material's own distribution where `light_sampling` is asked for, and the
/// material's own distribution alone where it is not; the rest is what
/// `scattered_allows` describes.
pub open spec fn shade_allows<
    M: Material,
    G: Fn(&PDF) -> Vec3,
    C: Fn(&Vec3, &Vec3) -> Incidence,
    T: Fn(&Point3, &Vec3) -> Scalar,
    A: Fn(Scalar, Scalar) -> Scalar,
>(
    materials: Seq<M>,
    r: Ray,
    rec: HitRecord,
    light_sampling: bool,
    draw: G,
    incidence: C,
    toward: T,
    mean: A,
    out: Bounce,
) -> bool {
    if rec.material >= materials.len() {
        out == nothing_found(r)
    } else {
        let m = materials[rec.material as int];
        exists|outcome: Option<ScatterRecord>, direction: Vec3|
            #![trigger found(outcome, direction)]
            {
                &&& found(outcome, direction)
                &&& m.emitted_allows(r, rec, out.emitted)
                &&& m.scatter_allows(r, rec, outcome)
                &&& match outcome {
                    None => out.event is Absorbed,
                    Some(ScatterRecord::Specular { specular_ray, attenuation }) => {
                        &&& out.event is Specular
                        &&& out.attenuation == attenuation
                        &&& out.next == specular_ray
                    },
                    Some(ScatterRecord::Scatter { pdf, attenuation }) => scattered_allows(
                        m,
                        r,
                        rec,
                        sampled(rec.p, pdf, light_sampling),
                        attenuation,
                        direction,
                        draw,
                        incidence,
                        toward,
                        mean,
                        out,
                    ),
                }
            }
    }
}

/// What happens to the ray `r` at the hit `rec`. `light_sampling` says whether
/// directions are also drawn toward the lights. `draw` draws a direction from a
/// distribution that is no mixture; `incidence`, `toward` and `mean` compute the
/// densities, as for `PDF::value`.
pub fn shade<
    M: Material,
    G: Fn(&PDF) -> Vec3,
    C: Fn(&Vec3, &Vec3) -> Incidence,
    T: Fn(&Point3, &Vec3) -> Scalar,
    A: Fn(Scalar, Scalar) -> Scalar,
>(
    materials: &Vec<M>,
    r: &Ray,
    rec: &HitRecord,
    light_sampling: bool,
    draw: &G,
    incidence: &C,
    toward: &T,
    mean: &A,
) -> (out: Bounce)
    requires
        forall|leaf: &PDF| draw.requires((leaf,)),
        forall|n: &Vec3, d: &Vec3| incidence.requires((n, d)),
        forall|o: &Point3, d: &Vec3| toward.requires((o, d)),
        forall|a: Scalar, b: Scalar| mean.requires((a, b)),
    ensures
        shade_allows(materials@, *r, *rec, light_sampling, *draw, *incidence, *toward, *mean, out),
{
    let idle = Bounce {
        emitted: Vec3::default(),
        event: Event::Absorbed,
        attenuation: Vec3::default(),
        next: *r,
        scattering_pdf: Scalar::zero(),
    };
    if rec.material >= materials.len() {
        return idle;
    }
    let material = &materials[rec.material];
    let emitted = material.emitted(r, rec);
    let outcome = material.scatter(r, rec);
    match outcome {
        None => {
            assert(found(outcome, black()));
            Bounce {
                emitted,
                event: Event::Absorbed,
                attenuation: idle.attenuation,
                next: idle.next,
                scattering_pdf: idle.scattering_pdf,
            }
        },
        Some(ScatterRecord::Specular { specular_ray, attenuation }) => {
            assert(found(outcome, black()));
            Bounce {
                emitted,
                event: Event::Specular,
                attenuation,
                next: specular_ray,
                scattering_pdf: Scalar::one(),
            }
        },
        Some(ScatterRecord::Scatter { pdf, attenuation }) => {
            let mixture = if light_sampling {
                sampling_pdf(&rec.p, pdf)
            } else {
                pdf
            };
            let direction = mixture.generate(draw);
            let scattered = Ray::new(rec.p, direction, r.time());
            let mixture_pdf = mixture.value(&direction, incidence, toward, mean);
            let scattering_pdf = material.scattering_pdf(r, rec, &scattered);
            assert(found(outcome, direction));
            Bounce {
                emitted,
                event: Event::Scatter { mixture_pdf },
                attenuation,
                next: scattered,
                scattering_pdf,
            }
        },
    }
}

/// Carries the three values that the estimate of one ray depends on: the scene's
/// answer, what was found at the hit, and the radiance that came back along the
/// next ray.
pub open spec fn segment(hit: Option<HitRecord>, bounce: Bounce, incoming: Color) -> bool {
    true
}

/// Whether `out` is the radiance of a ray that hit a surface, given what was found
/// there (`bounce`) and the radiance `incoming` that came back along the next ray.
///
/// What was found is what `shade_allows` describes. Where the path ends at the
/// surface, the ray brings what the surface emits; where it goes on, the next ray
/// is estimated with one bounce less, and `blend` makes the result of the bounce
/// and of what came back.
pub open spec fn bounce_allows<
    W: Hittable,
    M: Material,
    G: Fn(&PDF) -> Vec3,
    C: Fn(&Vec3, &Vec3) -> Incidence,
    T: Fn(&Point3, &Vec3) -> Scalar,
    A: Fn(Scalar, Scalar) -> Scalar,
    B: Fn(&Bounce, Weight, &Color) -> Color,
>(
    r: Ray,
    rec: HitRecord,
    background: Color,
    world: W,
    materials: Seq<M>,
    light_sampling: bool,
    depth: i32,
    draw: G,
    incidence: C,
    toward: T,
    mean: A,
    blend: B,
    bounce: Bounce,
    incoming: Color,
    out: Color,
) -> bool
    decreases depth, 0int,
{
    &&& shade_allows(materials, r, rec, light_sampling, draw, incidence, toward, mean, bounce)
    &&& match next_action(depth, bounce.event) {
        Action::Continue { depth: left, weight } => {
            &&& depth > 0
            &&& estimate_allows(
                bounce.next,
                background,
                world,
                materials,
                light_sampling,
                left,
                draw,
                incidence,
                toward,
                mean,
                blend,
                incoming,
            )
            &&& blend.ensures((&bounce, weight, &incoming), out)
        },
        Action::Emitted => out == bounce.emitted,
        Action::Background => out == background,
        Action::Black => out == black(),
    }
}

/// Whether `out` is a radiance that `ray_color` may return.
///
/// With no bounce left, only black. Else the scene is asked for the nearest hit
/// beyond `0.001`, without an upper bound. A ray that hits nothing brings the
/// background; a ray that hits brings what `bounce_allows` describes.
pub open spec fn estimate_allows<
    W: Hittable,
    M: Material,
    G: Fn(&PDF) -> Vec3,
    C: Fn(&Vec3, &Vec3) -> Incidence,
    T: Fn(&Point3, &Vec3) -> Scalar,
    A: Fn(Scalar, Scalar) -> Scalar,
    B: Fn(&Bounce, Weight, &Color) -> Color,
>(
    r: Ray,
    background: Color,
    world: W,
    materials: Seq<M>,
    light_sampling: bool,
    depth: i32,
    draw: G,
    incidence: C,
    toward: T,
    mean: A,
    blend: B,
    out: Color,
) -> bool
    decreases depth, 1int,
{
    if depth <= 0 {
        out == black()
    } else {
        exists|hit: Option<HitRecord>, bounce: Bounce, incoming: Color|
            #![trigger segment(hit, bounce, incoming)]
            {
                &&& segment(hit, bounce, incoming)
                &&& world.hit_allows(
                    r,
                    Scalar { bits: T_MIN_BITS },
                    Scalar { bits: INFINITY_BITS },
                    hit,
                )
                &&& match hit {
                    None => out == background,
                    Some(rec) => bounce_allows(
                        r,
                        rec,
                        background,
                        world,
                        materials,
                        light_sampling,
                        depth,
                        draw,
                        incidence,
                        toward,
                        mean,
                        blend,
                        bounce,
                        incoming,
                        out,
                    ),
                }
            }
    }
}

/// The radiance that arrives along `r`, estimated with at most `depth` bounces.
///
/// The scene is `world`, its surfaces have the materials `materials`, and
/// `light_sampling` says whether directions are also drawn toward the lights.
/// `draw`, `incidence`, `toward` and `mean` are the arithmetic of the
/// distributions, as for `shade`. `blend` computes the radiance of a bounce from
/// what the surface emits and from the radiance that came back along the next
/// ray, weighted as the step says: by the attenuation, and for a scattering
/// surface also by the scattering density over the density in the event.
pub fn ray_color<
    W: Hittable,
    M: Material,
    G: Fn(&PDF) -> Vec3,
    C: Fn(&Vec3, &Vec3) -> Incidence,
    T: Fn(&Point3, &Vec3) -> Scalar,
    A: Fn(Scalar, Scalar) -> Scalar,
    B: Fn(&Bounce, Weight, &Color) -> Color,
>(
    r: &Ray,
    background: &Color,
    world: &W,
    materials: &Vec<M>,
    light_sampling: bool,
    depth: i32,
    draw: &G,
    incidence: &C,
    toward: &T,
    mean: &A,
    blend: &B,
) -> (out: Color)
    requires
        forall|leaf: &PDF| draw.requires((leaf,)),
        forall|n: &Vec3, d: &Vec3| incidence.requires((n, d)),
        forall|o: &Point3, d: &Vec3| toward.requires((o, d)),
        forall|a: Scalar, b: Scalar| mean.requires((a, b)),
        forall|bounce: &Bounce, weight: Weight, incoming: &Color|
            blend.requires((bounce, weight, incoming)),
    ensures
        estimate_allows(
            *r,
            *background,
            *world,
            materials@,
            light_sampling,
            depth,
            *draw,
            *incidence,
            *toward,
            *mean,
            *blend,
            out,
        ),
        depth <= 0 ==> out == black(),
    decreases depth,
{
    if exhausted(depth) {
        return Vec3::default();
    }
    let ghost idle = nothing_found(*r);
    let hit = world.hit(r, Scalar { bits: T_MIN_BITS }, Scalar::infinity());
    let rec = match hit {
        Some(rec) => rec,
        None => {
            assert(segment(hit, idle, black()));
            return *background;
        },
    };
    let bounce = shade(materials, r, &rec, light_sampling, draw, incidence, toward, mean);
    match step(depth, &bounce.event) {
        Action::Continue { depth: left, weight } => {
            let incoming = ray_color(
                &bounce.next,
                background,
                world,
                materials,
                light_sampling,
                left,
                draw,
                incidence,
                toward,
                mean,
                blend,
            );
            assert(segment(hit, bounce, incoming));
            blend(&bounce, weight, &incoming)
        },
        Action::Emitted => {
            assert(segment(hit, bounce, black()));
            bounce.emitted
        },
        Action::Background => {
            assert(segment(hit, bounce, black()));
            *background
        },
        Action::Black => {
            assert(segment(hit, bounce, black()));
            Vec3::default()
        },
    }
}

/// Whether the density `mixture_pdf` is the mean of `a`, the density of light
/// sampling from `p` at `direction`, and `b`, the density of `pdf` there.
pub open spec fn divides<
    C: Fn(&Vec3, &Vec3) -> Incidence,
    T: Fn(&Point3, &Vec3) -> Scalar,
    A: Fn(Scalar, Scalar) -> Scalar,
>(
    pdf: PDF,
    p: Point3,
    direction: Vec3,
    incidence: C,
    toward: T,
    mean: A,
    a: Scalar,
    b: Scalar,
    mixture_pdf: Scalar,
) -> bool {
    &&& toward.ensures((&p, &direction), a)
    &&& value_allows(pdf, direction, incidence, toward, mean, b)
    &&& mean.ensures((a, b), mixture_pdf)
}

/// The density that divides the term of a scattering bounce is the mixture's, and
/// it is positive wherever light sampling or the material's own distribution has a
/// positive density.
///
/// With light sampling, whatever is found at a hit whose event is a scattering:
/// the material allowed a scattering outcome with some distribution `pdf` and the
/// attenuation of the bounce; the density in the event is the mean of the density
/// of light sampling and the density of `pdf`, both at the direction of the next
/// ray; it is no NaN and not negative; and where one of the two is positive, the
/// path goes on, weighted by importance. This holds where the caller's arithmetic
/// is sound and the mean is fair.
pub proof fn lemma_scatter_divides_by_the_mixture<
    M: Material,
    G: Fn(&PDF) -> Vec3,
    C: Fn(&Vec3, &Vec3) -> Incidence,
    T: Fn(&Point3, &Vec3) -> Scalar,
    A: Fn(Scalar, Scalar) -> Scalar,
>(
    materials: Seq<M>,
    r: Ray,
    rec: HitRecord,
    depth: i32,
    draw: G,
    incidence: C,
    toward: T,
    mean: A,
    bounce: Bounce,
    mixture_pdf: Scalar,
)
    requires
        depth > 0,
        sound(incidence, toward),
        fair(mean),
        shade_allows(materials, r, rec, true, draw, incidence, toward, mean, bounce),
        bounce.event == (Event::Scatter { mixture_pdf }),
    ensures
        rec.material < materials.len(),
        non_negative(mixture_pdf),
        exists|pdf: PDF, a: Scalar, b: Scalar|
            {
                &&& #[trigger] divides(
                    pdf,
                    rec.p,
                    bounce.next.dir,
                    incidence,
                    toward,
                    mean,
                    a,
                    b,
                    mixture_pdf,
                )
                &&& materials[rec.material as int].scatter_allows(
                    r,
                    rec,
                    Some(ScatterRecord::Scatter { pdf, attenuation: bounce.attenuation }),
                )
                &&& non_negative(a) && non_negative(b)
                &&& positive(a) || positive(b) ==> positive(mixture_pdf) && next_action(
                    depth,
                    bounce.event,
                ) == (Action::Continue { depth: (depth - 1) as i32, weight: Weight::Importance })
            },
{
    let m = materials[rec.material as int];
    let (outcome, direction) = choose|outcome: Option<ScatterRecord>, direction: Vec3|
        #![trigger found(outcome, direction)]
        {
            &&& found(outcome, direction)
            &&& m.emitted_allows(r, rec, bounce.emitted)
            &&& m.scatter_allows(r, rec, outcome)
            &&& match outcome {
                None => bounce.event is Absorbed,
                Some(ScatterRecord::Specular { specular_ray, attenuation }) => {
                    &&& bounce.event is Specular
                    &&& bounce.attenuation == attenuation
                    &&& bounce.next == specular_ray
                },
                Some(ScatterRecord::Scatter { pdf, attenuation }) => scattered_allows(
                    m,
                    r,
                    rec,
                    sampled(rec.p, pdf, true),
                    attenuation,
                    direction,
                    draw,
                    incidence,
                    toward,
                    mean,
                    bounce,
                ),
            }
        };
    match outcome {
        Some(ScatterRecord::Scatter { pdf, attenuation }) => {
            let mixture = mixed(rec.p, pdf);
            assert(value_allows(mixture, direction, incidence, toward, mean, mixture_pdf));
            let (a, b) = choose|a: Scalar, b: Scalar|
                #![trigger crate::pdf::halves(a, b)]
                {
                    &&& crate::pdf::halves(a, b)
                    &&& value_allows(
                        PDF::Hittable { origin: rec.p },
                        direction,
                        incidence,
                        toward,
                        mean,
                        a,
                    )
                    &&& value_allows(pdf, direction, incidence, toward, mean, b)
                    &&& mean.ensures((a, b), mixture_pdf)
                };
            lemma_mixture_is_not_degenerate(
                PDF::Hittable { origin: rec.p },
                pdf,
                direction,
                incidence,
                toward,
                mean,
                a,
                b,
                mixture_pdf,
            );
            crate::pdf::lemma_value_is_non_negative(
                PDF::Hittable { origin: rec.p },
                direction,
                incidence,
                toward,
                mean,
                a,
            );
            crate::pdf::lemma_value_is_non_negative(pdf, direction, incidence, toward, mean, b);
            assert(divides(
                pdf,
                rec.p,
                bounce.next.dir,
                incidence,
                toward,
                mean,
                a,
                b,
                mixture_pdf,
            ));
        },
        _ => {},
    }
}

/// Whether the number `x` is finite and not negative.
pub open spec fn lit(x: Scalar) -> bool {
    non_negative(x) && x.less(Scalar { bits: INFINITY_BITS })
}

/// Whether every channel of `c` is a finite number that is not negative.
pub open spec fn bright(c: Color) -> bool {
    lit(c.0) && lit(c.1) && lit(c.2)
}

/// Whether the scene's arithmetic keeps radiance what it is: no material emits a
/// channel that is negative, infinite or a NaN, and a bounce whose emission and
/// incoming radiance have none has none either.
pub open spec fn keeps_bright<M: Material, B: Fn(&Bounce, Weight, &Color) -> Color>(
    materials: Seq<M>,
    blend: B,
) -> bool {
    &&& forall|i: int, r: Ray, rec: HitRecord, e: Color|
        0 <= i < materials.len() && #[trigger] materials[i].emitted_allows(r, rec, e) ==> bright(e)
    &&& forall|bounce: &Bounce, weight: Weight, incoming: &Color, out: Color|
        #[trigger] blend.ensures((bounce, weight, incoming), out) && bright(bounce.emitted)
            && bright(*incoming) ==> bright(out)
}

/// Radiance is never negative, infinite or a NaN: where the background has no such
/// channel and the scene's arithmetic keeps radiance what it is, no estimate has
/// one, whatever the scene, the ray and the number of bounces.
pub proof fn lemma_estimate_is_bright<
    W: Hittable,
    M: Material,
    G: Fn(&PDF) -> Vec3,
    C: Fn(&Vec3, &Vec3) -> Incidence,
    T: Fn(&Point3, &Vec3) -> Scalar,
    A: Fn(Scalar, Scalar) -> Scalar,
    B: Fn(&Bounce, Weight, &Color) -> Color,
>(
    r: Ray,
    background: Color,
    world: W,
    materials: Seq<M>,
    light_sampling: bool,
    depth: i32,
    draw: G,
    incidence: C,
    toward: T,
    mean: A,
    blend: B,
    out: Color,
)
    requires
        bright(background),
        keeps_bright(materials, blend),
        estimate_allows(
            r,
            background,
            world,
            materials,
            light_sampling,
            depth,
            draw,
            incidence,
            toward,
            mean,
            blend,
            out,
        ),
    ensures
        bright(out),
    decreases depth,
{
    if depth > 0 {
        let (hit, bounce, incoming) = choose|
            hit: Option<HitRecord>,
            bounce: Bounce,
            incoming: Color,
        |
            #![trigger segment(hit, bounce, incoming)]
            segment(hit, bounce, incoming) && world.hit_allows(
                r,
                Scalar { bits: T_MIN_BITS },
                Scalar { bits: INFINITY_BITS },
                hit,
            ) && match hit {
                None => out == background,
                Some(rec) => bounce_allows(
                    r,
                    rec,
                    background,
                    world,
                    materials,
                    light_sampling,
                    depth,
                    draw,
                    incidence,
                    toward,
                    mean,
                    blend,
                    bounce,
                    incoming,
                    out,
                ),
            };
        if let Some(rec) = hit {
            lemma_found_emission_is_bright(
                materials,
                r,
                rec,
                light_sampling,
                draw,
                incidence,
                toward,
                mean,
                blend,
                bounce,
            );
            if let Action::Continue { depth: left, weight } = next_action(depth, bounce.event) {
                lemma_estimate_is_bright(
                    bounce.next,
                    background,
                    world,
                    materials,
                    light_sampling,
                    left,
                    draw,
                    incidence,
                    toward,
                    mean,
                    blend,
                    incoming,
                );
                assert(blend.ensures((&bounce, weight, &incoming), out));
            }
        }
    }
}

/// What is found at a hit emits no channel that is negative, infinite or a NaN,
/// where no material does.
proof fn lemma_found_emission_is_bright<
    M: Material,
    G: Fn(&PDF) -> Vec3,
    C: Fn(&Vec3, &Vec3) -> Incidence,
    T: Fn(&Point3, &Vec3) -> Scalar,
    A: Fn(Scalar, Scalar) -> Scalar,
    B: Fn(&Bounce, Weight, &Color) -> Color,
>(
    materials: Seq<M>,
    r: Ray,
    rec: HitRecord,
    light_sampling: bool,
    draw: G,
    incidence: C,
    toward: T,
    mean: A,
    blend: B,
    bounce: Bounce,
)
    requires
        keeps_bright(materials, blend),
        shade_allows(materials, r, rec, light_sampling, draw, incidence, toward, mean, bounce),
    ensures
        bright(bounce.emitted),
{
    if rec.material < materials.len() {
        let m = materials[rec.material as int];
        assert(m.emitted_allows(r, rec, bounce.emitted));
    }
}

} // verus!
