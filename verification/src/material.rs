//! Materials: what a surface does with an incoming ray, as far as that is a
//! choice between outcomes.

use crate::hittable::HitRecord;
use crate::pdf::PDF;
use crate::ray::Ray;
use crate::scalar::Scalar;
use crate::texture::{SolidColor, Texture};
use crate::vec3::{Color, Vec3};
use vstd::prelude::*;

verus! {

/// What became of a ray that was not absorbed.
pub enum ScatterRecord {
    /// One outgoing ray, weighted by `attenuation`.
    Specular { specular_ray: Ray, attenuation: Vec3 },
    /// A distribution of outgoing directions, weighted by `attenuation`.
    Scatter { pdf: PDF, attenuation: Vec3 },
}

/// A surface's response to light.
///
/// An implementation says by three specification functions what its methods may
/// return. One that says nothing allows every answer, and nothing is then known of
/// it.
pub trait Material {
    /// Whether `out` is an outcome that `scatter` may return.
    open spec fn scatter_allows(&self, r_in: Ray, rec: HitRecord, out: Option<ScatterRecord>) -> bool {
        true
    }

    /// Whether `out` is a density that `scattering_pdf` may return.
    open spec fn density_allows(&self, ray: Ray, hit: HitRecord, scattered: Ray, out: Scalar) -> bool {
        true
    }

    /// Whether `out` is a radiance that `emitted` may return.
    open spec fn emitted_allows(&self, ray: Ray, hit: HitRecord, out: Vec3) -> bool {
        true
    }

    /// The outcome for a ray that hit the surface; none where it is absorbed.
    fn scatter(&self, r_in: &Ray, rec: &HitRecord) -> (out: Option<ScatterRecord>)
        ensures
            self.scatter_allows(*r_in, *rec, out),
    ;

    /// The density with which the material itself scatters `ray` into `scattered`.
    fn scattering_pdf(&self, ray: &Ray, hit: &HitRecord, scattered: &Ray) -> (out: Scalar)
        ensures
            self.density_allows(*ray, *hit, *scattered, out),
    ;

    /// The radiance that the surface emits at the hit.
    fn emitted(&self, ray: &Ray, hit: &HitRecord) -> (out: Vec3)
        ensures
            self.emitted_allows(*ray, *hit, out),
    ;
}

/// The colour black.
pub open spec fn black() -> Vec3 {
    Vec3(Scalar { bits: 0 }, Scalar { bits: 0 }, Scalar { bits: 0 })
}

/// The colour white.
pub open spec fn white() -> Vec3 {
    Vec3(
        Scalar { bits: 0x3ff0_0000_0000_0000 },
        Scalar { bits: 0x3ff0_0000_0000_0000 },
        Scalar { bits: 0x3ff0_0000_0000_0000 },
    )
}

/// A material that absorbs every ray and emits nothing: the placeholder of a hit
/// record that no surface has filled in yet.
pub struct UninitMaterial {}

impl Material for UninitMaterial {
    open spec fn scatter_allows(&self, r_in: Ray, rec: HitRecord, out: Option<ScatterRecord>) -> bool {
        out is None
    }

    open spec fn density_allows(&self, ray: Ray, hit: HitRecord, scattered: Ray, out: Scalar) -> bool {
        out == (Scalar { bits: 0x3ff0_0000_0000_0000 })
    }

    open spec fn emitted_allows(&self, ray: Ray, hit: HitRecord, out: Vec3) -> bool {
        out == black()
    }

    fn scatter(&self, r_in: &Ray, rec: &HitRecord) -> (out: Option<ScatterRecord>) {
        None
    }

    fn scattering_pdf(&self, ray: &Ray, hit: &HitRecord, scattered: &Ray) -> (out: Scalar) {
        Scalar::one()
    }

    fn emitted(&self, ray: &Ray, hit: &HitRecord) -> (out: Vec3) {
        Vec3::default()
    }
}

/// A diffuse surface with the colour `albedo`.
pub struct Lambertian<T: Texture> {
    pub albedo: T,
}

impl<T: Texture> Lambertian<T> {
    pub fn new(albedo: T) -> (m: Lambertian<T>)
        ensures
            m.albedo == albedo,
    {
        Lambertian { albedo }
    }

    /// The outcome for a ray that hit the surface: always a distribution, cosine-
    /// weighted about the normal, with the albedo at the hit as attenuation.
    pub fn scatter(&self, hit: &HitRecord) -> (out: Option<ScatterRecord>)
        ensures
            out matches Some(ScatterRecord::Scatter { pdf, attenuation }) && pdf == (PDF::Cosine {
                normal: hit.normal,
            }) && self.albedo.value_allows(hit.u, hit.v, hit.p, attenuation),
    {
        Some(
            ScatterRecord::Scatter {
                pdf: PDF::cosine(&hit.normal),
                attenuation: self.albedo.value(hit.u, hit.v, &hit.p),
            },
        )
    }

    /// The direction into which a ray is scattered, given the direction
    /// `scatter_direction` that was drawn for it: where that is close to zero in
    /// all dimensions, the normal takes its place.
    pub fn scatter_direction(scatter_direction: Vec3, normal: Vec3) -> (out: Vec3)
        ensures
            out == (if scatter_direction.tiny() {
                normal
            } else {
                scatter_direction
            }),
    {
        if scatter_direction.near_zero() {
            normal
        } else {
            scatter_direction
        }
    }

    /// The density with which the surface scatters into a direction, given
    /// `cosine`, the cosine of the angle between the normal and that direction,
    /// and `cosine_over_pi`, the same divided by pi: the quotient where the cosine
    /// is a number that is not negative, and zero elsewhere.
    pub fn scattering_pdf(&self, cosine: Scalar, cosine_over_pi: Scalar) -> (out: Scalar)
        ensures
            out == (if (Scalar { bits: 0 }).at_most(cosine) {
                cosine_over_pi
            } else {
                Scalar { bits: 0 }
            }),
    {
        if cosine.ge(Scalar::zero()) {
            cosine_over_pi
        } else {
            Scalar::zero()
        }
    }
}

impl Lambertian<SolidColor> {
    pub fn from_color(c: Color) -> (m: Lambertian<SolidColor>)
        ensures
            m.albedo.color == c,
    {
        Lambertian { albedo: SolidColor::from_color(c) }
    }
}

/// A mirror with the colour `albedo`, blurred by `fuzz`.
#[derive(Clone, Copy, Debug)]
pub struct Metal {
    pub albedo: Vec3,
    pub fuzz: Scalar,
}

/// The reflection of a ray at a metal surface: the direction in which the ray
/// leaves, and `facing`, the dot product of that direction with the normal.
#[derive(Clone, Copy, Debug)]
pub struct Mirroring {
    pub direction: Vec3,
    pub facing: Scalar,
}

/// The outcome of a reflection: the reflected ray, tinted by the metal's colour,
/// where it leaves on the side of the normal, and nothing where it does not.
pub open spec fn mirrored(metal: Metal, ray: Ray, hit: HitRecord, m: Mirroring) -> Option<ScatterRecord> {
    if (Scalar { bits: 0 }).less(m.facing) {
        Some(
            ScatterRecord::Specular {
                specular_ray: Ray { orig: hit.p, dir: m.direction, time: ray.time },
                attenuation: metal.albedo,
            },
        )
    } else {
        None
    }
}

impl Metal {
    /// The metal with the given colour; a `fuzz` that is not below 1 counts as 1.
    pub fn new(albedo: Vec3, fuzz: Scalar) -> (m: Metal)
        ensures
            m.albedo == albedo,
            m.fuzz == (if fuzz.less(Scalar { bits: 0x3ff0_0000_0000_0000 }) {
                fuzz
            } else {
                Scalar { bits: 0x3ff0_0000_0000_0000 }
            }),
    {
        Metal {
            albedo,
            fuzz: if fuzz.lt(Scalar::one()) {
                fuzz
            } else {
                Scalar::one()
            },
        }
    }

    /// Whether the reflected direction is to be perturbed.
    pub fn is_fuzzy(&self) -> (r: bool)
        ensures
            r == (Scalar { bits: 0 }).less(self.fuzz),
    {
        self.fuzz.gt(Scalar::zero())
    }

    /// The outcome for a ray that hit the surface: the ray leaves in the reflected
    /// direction, perturbed where the metal is fuzzy, and is absorbed unless it
    /// leaves on the side of the normal.
    ///
    /// `reflect` computes the direction in which the mirror sends the ray; it is
    /// told whether to perturb it.
    pub fn scatter<F: Fn(bool) -> Mirroring>(&self, ray: &Ray, hit: &HitRecord, reflect: &F) -> (out: Option<
        ScatterRecord,
    >)
        requires
            forall|fuzzy: bool| reflect.requires((fuzzy,)),
        ensures
            exists|m: Mirroring|
                #[trigger] reflect.ensures(((Scalar { bits: 0 }).less(self.fuzz),), m) && out
                    == mirrored(*self, *ray, *hit, m),
    {
        let m = reflect(self.is_fuzzy());
        if m.facing.gt(Scalar::zero()) {
            Some(
                ScatterRecord::Specular {
                    specular_ray: Ray::new(hit.p, m.direction, ray.time()),
                    attenuation: self.albedo,
                },
            )
        } else {
            None
        }
    }
}

/// Glass with the refractive index `ref_idx`.
#[derive(Clone, Copy, Debug)]
pub struct Dielectric {
    pub ref_idx: Scalar,
}

/// The optics of a ray at a glass surface, for one refraction ratio: `ratio_sine`
/// is the ratio times the sine of the angle of incidence, `reflectance` the share
/// of the light that is reflected at that angle, and `reflected` and `refracted`
/// are the two directions in which the ray can leave.
#[derive(Clone, Copy, Debug)]
pub struct Bending {
    pub ratio_sine: Scalar,
    pub reflectance: Scalar,
    pub reflected: Vec3,
    pub refracted: Vec3,
}

/// Whether a ray is reflected rather than refracted: it is where refraction is
/// impossible (`ratio_sine` is above 1), or where the reflectance is above the
/// random number `sample`.
pub open spec fn turned_back(ratio_sine: Scalar, reflectance: Scalar, sample: Scalar) -> bool {
    (Scalar { bits: 0x3ff0_0000_0000_0000 }).less(ratio_sine) || sample.less(reflectance)
}

/// The direction in which a ray leaves a glass surface.
pub open spec fn leaving(optics: Bending, sample: Scalar) -> Vec3 {
    if turned_back(optics.ratio_sine, optics.reflectance, sample) {
        optics.reflected
    } else {
        optics.refracted
    }
}

impl Dielectric {
    pub fn new(ref_idx: Scalar) -> (m: Dielectric)
        ensures
            m.ref_idx == ref_idx,
    {
        Dielectric { ref_idx }
    }

    /// The ratio of the refractive indices on the ray's way: `inverse` where the
    /// ray enters the glass, `ref_idx` where it leaves.
    pub open spec fn ratio(&self, front_face: bool, inverse: Scalar) -> Scalar {
        if front_face {
            inverse
        } else {
            self.ref_idx
        }
    }

    /// The ratio of the refractive indices on the ray's way: `inverse`, which is
    /// `1 / ref_idx`, where the ray enters the glass, `ref_idx` where it leaves.
    pub fn refraction_ratio(&self, front_face: bool, inverse: Scalar) -> (ratio: Scalar)
        ensures
            ratio == self.ratio(front_face, inverse),
    {
        if front_face {
            inverse
        } else {
            self.ref_idx
        }
    }

    /// Whether the ray is reflected rather than refracted: it is where refraction
    /// is impossible (`ratio_sine`, the refraction ratio times the sine of the
    /// angle of incidence, is above 1), or where the reflectance is above the
    /// random number `sample`.
    pub fn reflects(ratio_sine: Scalar, reflectance: Scalar, sample: Scalar) -> (r: bool)
        ensures
            r == turned_back(ratio_sine, reflectance, sample),
    {
        let cannot_refract = ratio_sine.gt(Scalar::one());
        cannot_refract || reflectance.gt(sample)
    }

    /// The outcome for a ray that hit the surface: always one ray, untinted, which
    /// is reflected where refraction is impossible or the reflectance is above
    /// `sample`, and refracted otherwise.
    ///
    /// `inverse` is `1 / ref_idx`, `sample` a random number between 0 and 1, and
    /// `bend` computes, for the refraction ratio, the optics of the ray at the
    /// surface.
    pub fn scatter<F: Fn(Scalar) -> Bending>(
        &self,
        r_in: &Ray,
        rec: &HitRecord,
        inverse: Scalar,
        sample: Scalar,
        bend: &F,
    ) -> (out: Option<ScatterRecord>)
        requires
            forall|ratio: Scalar| bend.requires((ratio,)),
        ensures
            exists|optics: Bending|
                #[trigger] bend.ensures((self.ratio(rec.front_face, inverse),), optics) && out
                    == Some(
                    ScatterRecord::Specular {
                        specular_ray: Ray {
                            orig: rec.p,
                            dir: leaving(optics, sample),
                            time: r_in.time,
                        },
                        attenuation: white(),
                    },
                ),
    {
        let ratio = self.refraction_ratio(rec.front_face, inverse);
        let optics = bend(ratio);
        let direction = if Dielectric::reflects(optics.ratio_sine, optics.reflectance, sample) {
            optics.reflected
        } else {
            optics.refracted
        };
        Some(
            ScatterRecord::Specular {
                specular_ray: Ray::new(rec.p, direction, r_in.time()),
                attenuation: Vec3::new(Scalar::one(), Scalar::one(), Scalar::one()),
            },
        )
    }
}

/// Glass reflects every ray that it cannot refract: where the refraction ratio
/// times the sine of the angle of incidence is above 1, the ray leaves in the
/// reflected direction, whatever the random number.
pub proof fn lemma_total_internal_reflection(optics: Bending, sample: Scalar)
    requires
        (Scalar { bits: 0x3ff0_0000_0000_0000 }).less(optics.ratio_sine),
    ensures
        leaving(optics, sample) == optics.reflected,
{
}

/// A light that emits the colour `emit` from its front.
pub struct DiffuseLight<T: Texture> {
    pub emit: T,
}

impl<T: Texture> DiffuseLight<T> {
    pub fn new(emit: T) -> (m: DiffuseLight<T>)
        ensures
            m.emit == emit,
    {
        DiffuseLight { emit }
    }
}

impl<T: Texture> Material for DiffuseLight<T> {
    /// A light never scatters.
    open spec fn scatter_allows(&self, r_in: Ray, rec: HitRecord, out: Option<ScatterRecord>) -> bool {
        out is None
    }

    open spec fn density_allows(&self, ray: Ray, hit: HitRecord, scattered: Ray, out: Scalar) -> bool {
        out == (Scalar { bits: 0x3ff0_0000_0000_0000 })
    }

    /// A light emits its colour from its front and nothing from its back.
    open spec fn emitted_allows(&self, ray: Ray, hit: HitRecord, out: Vec3) -> bool {
        if hit.front_face {
            self.emit.value_allows(hit.u, hit.v, hit.p, out)
        } else {
            out == black()
        }
    }

    fn scatter(&self, r_in: &Ray, rec: &HitRecord) -> (out: Option<ScatterRecord>) {
        None
    }

    fn scattering_pdf(&self, ray: &Ray, hit: &HitRecord, scattered: &Ray) -> (out: Scalar) {
        Scalar::one()
    }

    fn emitted(&self, ray: &Ray, hit: &HitRecord) -> (out: Vec3) {
        if hit.front_face {
            self.emit.value(hit.u, hit.v, &hit.p)
        } else {
            Vec3::default()
        }
    }
}

/// The phase function of a medium: scatters into every direction alike.
pub struct Isotropic<T: Texture> {
    pub albedo: T,
}

impl<T: Texture> Isotropic<T> {
    pub fn new(albedo: T) -> (m: Isotropic<T>)
        ensures
            m.albedo == albedo,
    {
        Isotropic { albedo }
    }

    /// The outcome for a ray that scattered in the medium, given the direction
    /// that was drawn for it: that one ray, with the albedo at the hit as
    /// attenuation.
    pub fn scatter(&self, ray: &Ray, hit: &HitRecord, direction: Vec3) -> (out: Option<ScatterRecord>)
        ensures
            out matches Some(ScatterRecord::Specular { specular_ray, attenuation })
                && specular_ray == (Ray { orig: hit.p, dir: direction, time: ray.time })
                && self.albedo.value_allows(hit.u, hit.v, hit.p, attenuation),
    {
        Some(
            ScatterRecord::Specular {
                specular_ray: Ray::new(hit.p, direction, ray.time()),
                attenuation: self.albedo.value(hit.u, hit.v, &hit.p),
            },
        )
    }
}

/// The vector in the hemisphere of `normal`, given a vector `in_unit_sphere` and
/// `facing`, its dot product with the normal: the vector itself where it is on
/// the normal's side, else its opposite.
pub fn random_in_hemisphere(in_unit_sphere: Vec3, facing: Scalar) -> (out: Vec3)
    ensures
        out == (if (Scalar { bits: 0 }).less(facing) {
            in_unit_sphere
        } else {
            in_unit_sphere.negated()
        }),
{
    if facing.gt(Scalar::zero()) {
        in_unit_sphere
    } else {
        in_unit_sphere.neg()
    }
}

} // verus!
