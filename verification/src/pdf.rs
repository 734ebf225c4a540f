//! Distributions over directions: what they are made of, and which part of a
//! mixture supplies a sample.

use crate::scalar::Scalar;
use crate::vec3::{Point3, Vec3};
use rand::Rng;
use vstd::prelude::*;

verus! {

/// A distribution over directions.
pub enum PDF {
    /// Cosine-weighted over the hemisphere around `normal`.
    Cosine { normal: Vec3 },
    /// Toward the scene's lights, as seen from `origin`.
    Hittable { origin: Point3 },
    /// One of two distributions, each with the same chance.
    Mixture { first: Box<PDF>, second: Box<PDF> },
}

/// `rand::Rng::gen::<bool>` on the generator of the calling thread: a fair coin.
#[verifier::external_body]
fn fair_coin() -> bool {
    rand::thread_rng().gen::<bool>()
}

impl PDF {
    /// Whether `part` is this distribution or one that it is mixed from.
    pub open spec fn has_part(self, part: PDF) -> bool
        decreases self,
    {
        self == part || match self {
            PDF::Mixture { first, second } => first.has_part(part) || second.has_part(part),
            _ => false,
        }
    }

    /// The part of a mixture that a coin selects: the first on heads, the second on
    /// tails. A distribution that is no mixture is its own only part.
    pub open spec fn side(self, heads: bool) -> PDF {
        match self {
            PDF::Mixture { first, second } => if heads {
                *first
            } else {
                *second
            },
            _ => self,
        }
    }

    pub fn cosine(w: &Vec3) -> (pdf: PDF)
        ensures
            pdf == (PDF::Cosine { normal: *w }),
    {
        PDF::Cosine { normal: *w }
    }

    pub fn hittable(origin: &Point3) -> (pdf: PDF)
        ensures
            pdf == (PDF::Hittable { origin: *origin }),
    {
        PDF::Hittable { origin: *origin }
    }

    pub fn mixture(first: PDF, second: PDF) -> (pdf: PDF)
        ensures
            pdf == (PDF::Mixture { first: Box::new(first), second: Box::new(second) }),
    {
        PDF::Mixture { first: Box::new(first), second: Box::new(second) }
    }

    /// The part that supplies the sample when the coin shows `heads`.
    pub fn component(&self, heads: bool) -> (part: &PDF)
        ensures
            *part == self.side(heads),
    {
        match self {
            PDF::Mixture { first, second } => if heads {
                first
            } else {
                second
            },
            _ => self,
        }
    }

    /// The distribution that supplies the next sample: a mixture flips a fair coin
    /// to pick one of its two parts, and so on until the part is no mixture.
    pub fn generator(&self) -> (part: &PDF)
        ensures
            self.has_part(*part),
            !(*part is Mixture),
        decreases self,
    {
        match self {
            PDF::Mixture { first, second } => {
                let chosen = self.component(fair_coin());
                chosen.generator()
            },
            _ => self,
        }
    }
}

/// Carries the densities of the two parts of a mixture.
pub open spec fn halves(a: Scalar, b: Scalar) -> bool {
    true
}

/// What the caller computes for a cosine-weighted distribution and a direction:
/// `cosine`, the cosine of the angle between the normal and the direction, and
/// `over_pi`, the same divided by pi.
#[derive(Clone, Copy, Debug)]
pub struct Incidence {
    pub cosine: Scalar,
    pub over_pi: Scalar,
}

/// Whether `x` is a number above zero.
pub open spec fn positive(x: Scalar) -> bool {
    (Scalar { bits: 0 }).less(x)
}

/// Whether `x` is a number and not below zero.
pub open spec fn non_negative(x: Scalar) -> bool {
    (Scalar { bits: 0 }).at_most(x)
}

/// The density of a cosine-weighted distribution: the cosine over pi in the
/// hemisphere of the normal, where the cosine is positive, and zero elsewhere.
pub open spec fn cosine_weight(at: Incidence) -> Scalar {
    if positive(at.cosine) {
        at.over_pi
    } else {
        Scalar { bits: 0 }
    }
}

/// The density of a cosine-weighted distribution at a direction, given the cosine
/// of the angle between the normal and that direction and the same over pi.
pub fn cosine_density(at: &Incidence) -> (out: Scalar)
    ensures
        out == cosine_weight(*at),
{
    if at.cosine.gt(Scalar::zero()) {
        at.over_pi
    } else {
        Scalar::zero()
    }
}

/// Whether `out` is a density that `value` may return for `pdf` at `direction`.
///
/// The density of a mixture is what `mean` makes of the densities of its two
/// parts. The density of a cosine-weighted distribution is the cosine over pi that
/// `incidence` computed for its normal and the direction, where the cosine is
/// positive, and zero elsewhere. The density of light sampling is what `toward`
/// computes for its origin and the direction.
pub open spec fn value_allows<
    C: Fn(&Vec3, &Vec3) -> Incidence,
    T: Fn(&Point3, &Vec3) -> Scalar,
    M: Fn(Scalar, Scalar) -> Scalar,
>(pdf: PDF, direction: Vec3, incidence: C, toward: T, mean: M, out: Scalar) -> bool
    decreases pdf,
{
    match pdf {
        PDF::Mixture { first, second } => exists|a: Scalar, b: Scalar|
            #![trigger halves(a, b)]
            {
                &&& halves(a, b)
                &&& value_allows(*first, direction, incidence, toward, mean, a)
                &&& value_allows(*second, direction, incidence, toward, mean, b)
                &&& mean.ensures((a, b), out)
            },
        PDF::Cosine { normal } => exists|at: Incidence| #[trigger]
            incidence.ensures((&normal, &direction), at) && out == cosine_weight(at),
        PDF::Hittable { origin } => toward.ensures((&origin, &direction), out),
    }
}

/// Whether `out` is a direction that `generate` may return for `pdf`: one that
/// `draw` draws from a part of `pdf` that is no mixture.
pub open spec fn generate_allows<G: Fn(&PDF) -> Vec3>(pdf: PDF, draw: G, out: Vec3) -> bool {
    exists|leaf: PDF| pdf.has_part(leaf) && !(leaf is Mixture) && #[trigger] draw.ensures((&leaf,), out)
}

/// Whether `mean` keeps densities what they are: of two numbers that are not
/// negative it makes one that is not negative, and one that is positive where one
/// of the two is.
pub open spec fn fair<M: Fn(Scalar, Scalar) -> Scalar>(mean: M) -> bool {
    forall|a: Scalar, b: Scalar, m: Scalar|
        #[trigger] mean.ensures((a, b), m) && non_negative(a) && non_negative(b) ==> non_negative(m)
            && (positive(a) || positive(b) ==> positive(m))
}

/// Whether the caller's arithmetic never yields a negative density or a NaN:
/// `toward` computes none, and `incidence` computes none as the quotient of a
/// positive cosine.
pub open spec fn sound<C: Fn(&Vec3, &Vec3) -> Incidence, T: Fn(&Point3, &Vec3) -> Scalar>(
    incidence: C,
    toward: T,
) -> bool {
    &&& forall|origin: &Point3, direction: &Vec3, x: Scalar| #[trigger]
        toward.ensures((origin, direction), x) ==> non_negative(x)
    &&& forall|normal: &Vec3, direction: &Vec3, at: Incidence|
        #[trigger] incidence.ensures((normal, direction), at) && positive(at.cosine)
            ==> non_negative(at.over_pi)
}

impl PDF {
    /// The density of the distribution at `direction`. `incidence` computes the
    /// cosine between a normal and a direction, and the same over pi; `toward`
    /// computes the density of light sampling from an origin at a direction;
    /// `mean` computes the mean of two densities.
    pub fn value<
        C: Fn(&Vec3, &Vec3) -> Incidence,
        T: Fn(&Point3, &Vec3) -> Scalar,
        M: Fn(Scalar, Scalar) -> Scalar,
    >(&self, direction: &Vec3, incidence: &C, toward: &T, mean: &M) -> (out: Scalar)
        requires
            forall|n: &Vec3, d: &Vec3| incidence.requires((n, d)),
            forall|o: &Point3, d: &Vec3| toward.requires((o, d)),
            forall|a: Scalar, b: Scalar| mean.requires((a, b)),
        ensures
            value_allows(*self, *direction, *incidence, *toward, *mean, out),
        decreases self,
    {
        match self {
            PDF::Mixture { first, second } => {
                let a = first.value(direction, incidence, toward, mean);
                let b = second.value(direction, incidence, toward, mean);
                assert(halves(a, b));
                mean(a, b)
            },
            PDF::Cosine { normal } => {
                let at = incidence(normal, direction);
                cosine_density(&at)
            },
            PDF::Hittable { origin } => toward(origin, direction),
        }
    }

    /// A direction drawn from the distribution. `draw` draws from a distribution
    /// that is no mixture; which part of a mixture draws is decided by fair coins.
    pub fn generate<G: Fn(&PDF) -> Vec3>(&self, draw: &G) -> (out: Vec3)
        requires
            forall|leaf: &PDF| draw.requires((leaf,)),
        ensures
            generate_allows(*self, *draw, out),
    {
        let leaf = self.generator();
        draw(leaf)
    }
}

/// A density is never negative: where the caller's arithmetic is sound and the mean
/// is fair, no distribution has a negative density or a NaN for one.
pub proof fn lemma_value_is_non_negative<
    C: Fn(&Vec3, &Vec3) -> Incidence,
    T: Fn(&Point3, &Vec3) -> Scalar,
    M: Fn(Scalar, Scalar) -> Scalar,
>(pdf: PDF, direction: Vec3, incidence: C, toward: T, mean: M, out: Scalar)
    requires
        sound(incidence, toward),
        fair(mean),
        value_allows(pdf, direction, incidence, toward, mean, out),
    ensures
        non_negative(out),
    decreases pdf,
{
    match pdf {
        PDF::Mixture { first, second } => {
            let (a, b) = choose|a: Scalar, b: Scalar|
                #![trigger halves(a, b)]
                {
                    &&& halves(a, b)
                    &&& value_allows(*first, direction, incidence, toward, mean, a)
                    &&& value_allows(*second, direction, incidence, toward, mean, b)
                    &&& mean.ensures((a, b), out)
                };
            lemma_value_is_non_negative(*first, direction, incidence, toward, mean, a);
            lemma_value_is_non_negative(*second, direction, incidence, toward, mean, b);
        },
        PDF::Cosine { normal } => {
            let at = choose|at: Incidence| #[trigger]
                incidence.ensures((&normal, &direction), at) && out == cosine_weight(at);
            assert(incidence.ensures((&normal, &direction), at));
        },
        PDF::Hittable { origin } => {
            assert(toward.ensures((&origin, &direction), out));
        },
    }
}

/// A mixture is not degenerate: its density is positive wherever the density of
/// one of its two parts is, provided that the caller's arithmetic is sound and the
/// mean is fair.
pub proof fn lemma_mixture_is_not_degenerate<
    C: Fn(&Vec3, &Vec3) -> Incidence,
    T: Fn(&Point3, &Vec3) -> Scalar,
    M: Fn(Scalar, Scalar) -> Scalar,
>(
    first: PDF,
    second: PDF,
    direction: Vec3,
    incidence: C,
    toward: T,
    mean: M,
    a: Scalar,
    b: Scalar,
    out: Scalar,
)
    requires
        sound(incidence, toward),
        fair(mean),
        value_allows(first, direction, incidence, toward, mean, a),
        value_allows(second, direction, incidence, toward, mean, b),
        mean.ensures((a, b), out),
    ensures
        value_allows(
            PDF::Mixture { first: Box::new(first), second: Box::new(second) },
            direction,
            incidence,
            toward,
            mean,
            out,
        ),
        non_negative(out),
        positive(a) || positive(b) ==> positive(out),
{
    lemma_value_is_non_negative(first, direction, incidence, toward, mean, a);
    lemma_value_is_non_negative(second, direction, incidence, toward, mean, b);
    assert(halves(a, b));
}

/// Being a part is transitive.
pub proof fn lemma_part_of_part(whole: PDF, part: PDF, inner: PDF)
    requires
        whole.has_part(part),
        part.has_part(inner),
    ensures
        whole.has_part(inner),
    decreases whole,
{
    if whole != part {
        match whole {
            PDF::Mixture { first, second } => {
                if first.has_part(part) {
                    lemma_part_of_part(*first, part, inner);
                } else {
                    lemma_part_of_part(*second, part, inner);
                }
            },
            _ => {},
        }
    }
}

} // verus!
