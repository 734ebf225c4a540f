use pathtracer::aabb::{Slab, AABB};
use pathtracer::aarect::{get_axis, AARect, Plane, PlaneCrossing};
use pathtracer::bvh::{BuildError, Node, BVH};
use pathtracer::cube::Cube;
use pathtracer::hittable::{calc_face_normal, FlipNormals, HitRecord, Hittable};
use pathtracer::hittable_list::HittableList;
use pathtracer::ray::Ray;
use pathtracer::rotate::{Axis, Rotate};
use pathtracer::translate::Translate;
use pathtracer::scalar::Scalar;
use pathtracer::sphere::{select_root, MovingSphere, Roots, Sphere, SurfacePoint};
use pathtracer::vec3::Vec3;
use rand::rngs::StdRng;
use rand::{Rng, SeedableRng};

fn gs(x: f64) -> Scalar {
    Scalar::from_bits(x.to_bits())
}

fn gf(x: Scalar) -> f64 {
    f64::from_bits(x.to_bits())
}

fn gv(x: f64, y: f64, z: f64) -> Vec3 {
    Vec3::new(gs(x), gs(y), gs(z))
}

fn tuple(v: Vec3) -> (f64, f64, f64) {
    (gf(v.0), gf(v.1), gf(v.2))
}

fn dot(a: (f64, f64, f64), b: (f64, f64, f64)) -> f64 {
    a.0 * b.0 + a.1 * b.1 + a.2 * b.2
}

fn at(r: &Ray, t: f64) -> (f64, f64, f64) {
    let o = tuple(*r.origin());
    let d = tuple(*r.direction());
    (o.0 + t * d.0, o.1 + t * d.1, o.2 + t * d.2)
}

fn slabs_of(b: &AABB, r: &Ray) -> [Slab; 3] {
    let mut out = [Slab { t0: gs(0.0), t1: gs(0.0), inv_d: gs(0.0) }; 3];
    for a in 0..3 {
        let inv_d = 1.0 / gf(r.direction().get(a));
        let t0 = (gf(b.min.get(a)) - gf(r.origin().get(a))) * inv_d;
        let t1 = (gf(b.max.get(a)) - gf(r.origin().get(a))) * inv_d;
        out[a] = Slab { t0: gs(t0), t1: gs(t1), inv_d: gs(inv_d) };
    }
    out
}

/// A sphere whose arithmetic is done here and whose decisions are the library's.
struct Ball {
    shape: Sphere,
    bounded: bool,
}

fn ball(center: (f64, f64, f64), radius: f64, material: usize) -> Ball {
    Ball {
        shape: Sphere::new(gv(center.0, center.1, center.2), gs(radius), material),
        bounded: true,
    }
}

impl Hittable for Ball {
    fn hit(&self, r: &Ray, t_min: Scalar, t_max: Scalar) -> Option<HitRecord> {
        let c = tuple(self.shape.center);
        let radius = gf(self.shape.radius);
        let o = tuple(*r.origin());
        let d = tuple(*r.direction());
        let oc = (o.0 - c.0, o.1 - c.1, o.2 - c.2);
        let a = dot(d, d);
        let half_b = dot(oc, d);
        let cc = dot(oc, oc) - radius * radius;
        let discriminant = half_b * half_b - a * cc;
        let sqrtd = discriminant.sqrt();
        let roots = Roots {
            discriminant: gs(discriminant),
            near: gs((-half_b - sqrtd) / a),
            far: gs((-half_b + sqrtd) / a),
        };
        let surface = |t: Scalar| {
            let p = at(r, gf(t));
            let n = ((p.0 - c.0) / radius, (p.1 - c.1) / radius, (p.2 - c.2) / radius);
            SurfacePoint {
                p: gv(p.0, p.1, p.2),
                outward_normal: gv(n.0, n.1, n.2),
                u: gs(0.125),
                v: gs(0.875),
                facing: gs(dot(d, n)),
            }
        };
        self.shape.hit(&roots, t_min, t_max, &surface)
    }

    fn bounding_box(&self, _t0: Scalar, _t1: Scalar) -> Option<AABB> {
        if !self.bounded {
            return None;
        }
        let c = tuple(self.shape.center);
        let r = gf(self.shape.radius);
        Some(AABB::new(gv(c.0 - r, c.1 - r, c.2 - r), gv(c.0 + r, c.1 + r, c.2 + r)))
    }

    fn pdf_value(&self, _o: &Vec3, _v: &Vec3) -> Scalar {
        self.shape.radius
    }

    fn random(&self, o: &Vec3) -> Vec3 {
        let c = tuple(self.shape.center);
        let o = tuple(*o);
        gv(c.0 - o.0, c.1 - o.1, c.2 - o.2)
    }
}

fn crossing_of(rect: &AARect, r: &Ray) -> PlaneCrossing {
    let (k_axis, a_axis, b_axis) = get_axis(&rect.plane);
    let o = *r.origin();
    let d = *r.direction();
    let t = (gf(rect.k) - gf(o.get(k_axis))) / gf(d.get(k_axis));
    let a = gf(o.get(a_axis)) + t * gf(d.get(a_axis));
    let b = gf(o.get(b_axis)) + t * gf(d.get(b_axis));
    let u = (a - gf(rect.a0)) / (gf(rect.a1) - gf(rect.a0));
    let v = (b - gf(rect.b0)) / (gf(rect.b1) - gf(rect.b0));
    let p = at(r, t);
    PlaneCrossing {
        t: gs(t),
        a: gs(a),
        b: gs(b),
        u: gs(u),
        v: gs(v),
        p: gv(p.0, p.1, p.2),
        facing: gs(dot(tuple(d), tuple(rect.outward_normal()))),
    }
}

#[test]
fn sphere_intersection() {
    let world = ball((0.0, 0.0, 0.0), 1.0, 3);
    let r = Ray::new(gv(0.0, 0.0, -5.0), gv(0.0, 0.0, 1.0), gs(0.0));
    let rec = world.hit(&r, gs(0.001), gs(f64::INFINITY)).unwrap();
    assert_eq!(gf(rec.t), 4.0);
    assert_eq!(tuple(rec.p), (0.0, 0.0, -1.0));
    assert_eq!(tuple(rec.normal), (0.0, 0.0, -1.0));
    assert!(rec.front_face);
    assert_eq!(rec.material, 3);
    assert_eq!((gf(rec.u), gf(rec.v)), (0.125, 0.875));
}

#[test]
fn sphere_falls_back_to_the_far_root_from_inside() {
    let world = ball((0.0, 0.0, 0.0), 1.0, 0);
    let r = Ray::new(gv(0.0, 0.0, 0.0), gv(0.0, 0.0, 1.0), gs(0.0));
    let rec = world.hit(&r, gs(0.001), gs(f64::INFINITY)).unwrap();
    assert_eq!(gf(rec.t), 1.0);
    assert!(!rec.front_face);
    // the outward normal (0, 0, 1) is turned against the ray
    assert_eq!(tuple(rec.normal), (-0.0, -0.0, -1.0));
}

#[test]
fn sphere_misses_are_none() {
    let world = ball((0.0, 0.0, 0.0), 1.0, 0);
    let off = Ray::new(gv(0.0, 2.0, -5.0), gv(0.0, 0.0, 1.0), gs(0.0));
    assert!(world.hit(&off, gs(0.001), gs(f64::INFINITY)).is_none());
    let r = Ray::new(gv(0.0, 0.0, -5.0), gv(0.0, 0.0, 1.0), gs(0.0));
    assert!(world.hit(&r, gs(0.001), gs(3.9)).is_none());
    assert!(world.hit(&r, gs(6.1), gs(f64::INFINITY)).is_none());
    assert_eq!(gf(world.hit(&r, gs(4.5), gs(f64::INFINITY)).unwrap().t), 6.0);
}

#[test]
fn select_root_follows_the_order_of_the_roots() {
    let roots = Roots { discriminant: gs(1.0), near: gs(4.0), far: gs(6.0) };
    assert_eq!(gf(select_root(&roots, gs(0.0), gs(10.0)).unwrap()), 4.0);
    assert_eq!(gf(select_root(&roots, gs(4.0), gs(10.0)).unwrap()), 4.0);
    assert_eq!(gf(select_root(&roots, gs(0.0), gs(4.0)).unwrap()), 4.0);
    assert_eq!(gf(select_root(&roots, gs(5.0), gs(10.0)).unwrap()), 6.0);
    assert_eq!(gf(select_root(&roots, gs(5.0), gs(6.0)).unwrap()), 6.0);
    assert!(select_root(&roots, gs(4.5), gs(5.5)).is_none());
    assert!(select_root(&roots, gs(7.0), gs(10.0)).is_none());
    assert!(select_root(&roots, gs(0.0), gs(3.0)).is_none());
    let none = Roots { discriminant: gs(-0.5), near: gs(4.0), far: gs(6.0) };
    assert!(select_root(&none, gs(0.0), gs(10.0)).is_none());
    let grazing = Roots { discriminant: gs(0.0), near: gs(5.0), far: gs(5.0) };
    assert_eq!(gf(select_root(&grazing, gs(0.0), gs(10.0)).unwrap()), 5.0);
    let negative_zero = Roots { discriminant: gs(-0.0), near: gs(5.0), far: gs(5.0) };
    assert_eq!(gf(select_root(&negative_zero, gs(0.0), gs(10.0)).unwrap()), 5.0);
}

#[test]
fn moving_sphere_merges_the_boxes_of_both_ends() {
    let m = MovingSphere::new(
        gv(0.0, 0.0, 0.0),
        gv(2.0, 0.0, 0.0),
        gs(0.0),
        gs(1.0),
        gs(1.0),
        5,
    );
    assert_eq!(m.material, 5);
    assert_eq!(gf(m.center1.0), 2.0);
    let at_start = AABB::new(gv(-1.0, -1.0, -1.0), gv(1.0, 1.0, 1.0));
    let at_end = AABB::new(gv(1.0, -1.0, -1.0), gv(3.0, 1.0, 1.0));
    let b = m.bounding_box(&at_start, &at_end).unwrap();
    assert_eq!(tuple(b.min), (-1.0, -1.0, -1.0));
    assert_eq!(tuple(b.max), (3.0, 1.0, 1.0));
    let roots = Roots { discriminant: gs(1.0), near: gs(-1.0), far: gs(2.0) };
    let surface = |t: Scalar| SurfacePoint {
        p: gv(gf(t), 0.0, 0.0),
        outward_normal: gv(0.0, 0.0, 1.0),
        u: gs(0.5),
        v: gs(0.25),
        facing: gs(-1.0),
    };
    let rec = m.hit(&roots, gs(0.001), gs(100.0), &surface).unwrap();
    assert_eq!(gf(rec.t), 2.0);
    assert_eq!(tuple(rec.p), (2.0, 0.0, 0.0));
    assert_eq!(tuple(rec.normal), (0.0, 0.0, 1.0));
    assert!(rec.front_face);
    assert_eq!(rec.material, 5);
    assert_eq!((gf(rec.u), gf(rec.v)), (0.5, 0.25));
    assert!(m.hit(&roots, gs(2.5), gs(100.0), &surface).is_none());
}

#[test]
fn rectangle_intersection() {
    let rect = AARect::new(Plane::XY, gs(0.0), gs(1.0), gs(0.0), gs(1.0), gs(0.0), 2);
    let r = Ray::new(gv(0.5, 0.5, -1.0), gv(0.0, 0.0, 1.0), gs(0.0));
    let rec = rect.hit(gs(0.001), gs(f64::INFINITY), &crossing_of(&rect, &r)).unwrap();
    assert_eq!(gf(rec.t), 1.0);
    assert_eq!(gf(rec.u), 0.5);
    assert_eq!(gf(rec.v), 0.5);
    assert_eq!(tuple(rec.p), (0.5, 0.5, 0.0));
    assert_eq!(rec.material, 2);
    // the ray runs along the outward normal, so it meets the back
    assert!(!rec.front_face);
    assert_eq!(gf(rec.normal.z()), -1.0);
    let outside = Ray::new(gv(2.0, 2.0, -1.0), gv(0.0, 0.0, 1.0), gs(0.0));
    assert!(rect.hit(gs(0.001), gs(f64::INFINITY), &crossing_of(&rect, &outside)).is_none());
}

#[test]
fn rectangle_rejects_crossings_outside_the_span_or_the_extents() {
    let rect = AARect::new(Plane::ZX, gs(0.0), gs(2.0), gs(-1.0), gs(1.0), gs(5.0), 0);
    // spans z in [0, 2] and x in [-1, 1] at y = 5
    let r = Ray::new(gv(0.5, 0.0, 1.0), gv(0.0, 1.0, 0.0), gs(0.0));
    let c = crossing_of(&rect, &r);
    assert_eq!(gf(c.t), 5.0);
    assert_eq!((gf(c.a), gf(c.b)), (1.0, 0.5));
    assert!(rect.hit(gs(0.001), gs(10.0), &c).is_some());
    assert!(rect.hit(gs(0.001), gs(5.0), &c).is_some());
    assert!(rect.hit(gs(5.0), gs(10.0), &c).is_some());
    assert!(rect.hit(gs(0.001), gs(4.9), &c).is_none());
    assert!(rect.hit(gs(5.1), gs(10.0), &c).is_none());
    for (x, z) in [(1.5, 1.0), (-1.5, 1.0), (0.0, 2.5), (0.0, -0.5)] {
        let miss = Ray::new(gv(x, 0.0, z), gv(0.0, 1.0, 0.0), gs(0.0));
        assert!(rect.hit(gs(0.001), gs(10.0), &crossing_of(&rect, &miss)).is_none());
    }
    for (x, z) in [(1.0, 2.0), (-1.0, 0.0)] {
        let edge = Ray::new(gv(x, 0.0, z), gv(0.0, 1.0, 0.0), gs(0.0));
        assert!(rect.hit(gs(0.001), gs(10.0), &crossing_of(&rect, &edge)).is_some());
    }
}

#[test]
fn plane_axes_and_normals() {
    assert_eq!(get_axis(&Plane::YZ), (0, 1, 2));
    assert_eq!(get_axis(&Plane::ZX), (1, 2, 0));
    assert_eq!(get_axis(&Plane::XY), (2, 0, 1));
    let z = gs(0.0);
    let normal = |p: Plane| tuple(AARect::new(p, z, z, z, z, z, 0).outward_normal());
    assert_eq!(normal(Plane::YZ), (1.0, 0.0, 0.0));
    assert_eq!(normal(Plane::ZX), (0.0, 1.0, 0.0));
    assert_eq!(normal(Plane::XY), (0.0, 0.0, 1.0));
}

#[test]
fn rectangle_box_is_thickened_along_the_fixed_axis() {
    let rect = AARect::new(Plane::ZX, gs(0.0), gs(2.0), gs(-1.0), gs(1.0), gs(5.0), 0);
    let b = rect.bounding_box(gs(5.0 - 0.0001), gs(5.0 + 0.0001)).unwrap();
    assert_eq!(tuple(b.min), (-1.0, 5.0 - 0.0001, 0.0));
    assert_eq!(tuple(b.max), (1.0, 5.0 + 0.0001, 2.0));
    let xy = AARect::new(Plane::XY, gs(0.0), gs(1.0), gs(2.0), gs(3.0), gs(4.0), 0);
    let b = xy.bounding_box(gs(3.5), gs(4.5)).unwrap();
    assert_eq!(tuple(b.min), (0.0, 2.0, 3.5));
    assert_eq!(tuple(b.max), (1.0, 3.0, 4.5));
    let yz = AARect::new(Plane::YZ, gs(0.0), gs(1.0), gs(2.0), gs(3.0), gs(4.0), 0);
    let b = yz.bounding_box(gs(3.5), gs(4.5)).unwrap();
    assert_eq!(tuple(b.min), (3.5, 0.0, 2.0));
    assert_eq!(tuple(b.max), (4.5, 1.0, 3.0));
}

#[test]
fn face_normal_points_against_the_ray() {
    let (front, n) = calc_face_normal(gs(-0.5), gv(0.0, 1.0, 0.0));
    assert!(front);
    assert_eq!(tuple(n), (0.0, 1.0, 0.0));
    let (front, n) = calc_face_normal(gs(0.5), gv(0.0, 1.0, 0.0));
    assert!(!front);
    assert_eq!(tuple(n), (-0.0, -1.0, -0.0));
    let (front, _) = calc_face_normal(gs(0.0), gv(0.0, 1.0, 0.0));
    assert!(!front);
    let (front, _) = calc_face_normal(gs(f64::NAN), gv(0.0, 1.0, 0.0));
    assert!(!front);
}

#[test]
fn flip_normals_inverts_only_the_side() {
    let r = Ray::new(gv(0.0, 0.0, -5.0), gv(0.0, 0.0, 1.0), gs(0.0));
    let plain = ball((0.0, 0.0, 0.0), 1.0, 9).hit(&r, gs(0.001), gs(100.0)).unwrap();
    let wrapped = FlipNormals::new(ball((0.0, 0.0, 0.0), 1.0, 9));
    let rec = wrapped.hit(&r, gs(0.001), gs(100.0)).unwrap();
    assert_eq!(rec.front_face, !plain.front_face);
    assert_eq!(gf(rec.t), gf(plain.t));
    assert_eq!(tuple(rec.p), tuple(plain.p));
    assert_eq!(tuple(rec.normal), tuple(plain.normal));
    assert_eq!(rec.material, plain.material);
    let off = Ray::new(gv(0.0, 5.0, -5.0), gv(0.0, 0.0, 1.0), gs(0.0));
    assert!(wrapped.hit(&off, gs(0.001), gs(100.0)).is_none());
    let b = wrapped.bounding_box(gs(0.0), gs(1.0)).unwrap();
    assert_eq!(tuple(b.min), (-1.0, -1.0, -1.0));
    // the wrapper is no light
    assert_eq!(gf(wrapped.pdf_value(&gv(0.0, 0.0, 0.0), &gv(0.0, 0.0, 1.0))), 0.0);
    assert_eq!(tuple(wrapped.random(&gv(3.0, 3.0, 3.0))), (1.0, 0.0, 0.0));
}

#[test]
fn list_returns_the_nearest_hit_whatever_the_order() {
    let r = Ray::new(gv(0.0, 0.0, -10.0), gv(0.0, 0.0, 1.0), gs(0.0));
    let centers = [5.0, -3.0, 0.0, 8.0];
    let orders: [[usize; 4]; 4] = [[0, 1, 2, 3], [3, 2, 1, 0], [1, 0, 3, 2], [2, 3, 0, 1]];
    for order in orders {
        let mut list = HittableList::new();
        for &i in &order {
            list.push(ball((0.0, 0.0, centers[i]), 1.0, i));
        }
        let rec = list.hit(&r, gs(0.001), gs(f64::INFINITY)).unwrap();
        assert_eq!(rec.material, 1);
        assert_eq!(gf(rec.t), 6.0);
        // beyond the first sphere the next one is nearest
        let rec = list.hit(&r, gs(8.5), gs(f64::INFINITY)).unwrap();
        assert_eq!(rec.material, 2);
        assert_eq!(gf(rec.t), 9.0);
        assert!(list.hit(&r, gs(0.001), gs(5.9)).is_none());
    }
}

#[test]
fn list_prefers_the_later_of_two_equally_near_hits() {
    let r = Ray::new(gv(0.0, 0.0, -10.0), gv(0.0, 0.0, 1.0), gs(0.0));
    let mut list = HittableList::new();
    list.push(ball((0.0, 0.0, 0.0), 1.0, 0));
    list.push(ball((0.0, 0.0, 0.0), 1.0, 1));
    assert_eq!(list.hit(&r, gs(0.001), gs(100.0)).unwrap().material, 1);
}

#[test]
fn empty_list_hits_nothing_and_has_no_box() {
    let list: HittableList<Ball> = HittableList::new();
    let r = Ray::new(gv(0.0, 0.0, -10.0), gv(0.0, 0.0, 1.0), gs(0.0));
    assert!(list.hit(&r, gs(0.001), gs(100.0)).is_none());
    assert!(list.bounding_box(gs(0.0), gs(1.0)).is_none());
    assert!(list.pdf_values(&gv(0.0, 0.0, 0.0), &gv(0.0, 0.0, 1.0)).is_empty());
}

#[test]
fn list_members_are_kept_in_the_order_of_their_arrival() {
    let mut list = HittableList::new();
    list.push(ball((0.0, 0.0, 0.0), 1.0, 10));
    list.add(ball((0.0, 0.0, 0.0), 1.0, 11));
    list.push(ball((0.0, 0.0, 0.0), 1.0, 12));
    let handles: Vec<usize> = list.objects.iter().map(|b| b.shape.material).collect();
    assert_eq!(handles, vec![10, 11, 12]);
}

#[test]
fn list_box_is_the_merge_of_the_members_boxes() {
    let mut list = HittableList::new();
    list.push(ball((0.0, 0.0, 0.0), 1.0, 0));
    let b = list.bounding_box(gs(0.0), gs(1.0)).unwrap();
    assert_eq!((tuple(b.min), tuple(b.max)), ((-1.0, -1.0, -1.0), (1.0, 1.0, 1.0)));
    list.push(ball((5.0, 0.0, -2.0), 2.0, 0));
    list.push(ball((0.0, -4.0, 0.0), 0.5, 0));
    let b = list.bounding_box(gs(0.0), gs(1.0)).unwrap();
    assert_eq!((tuple(b.min), tuple(b.max)), ((-1.0, -4.5, -4.0), (7.0, 2.0, 1.0)));
    let mut unbounded = ball((0.0, 0.0, 0.0), 1.0, 0);
    unbounded.bounded = false;
    list.push(unbounded);
    list.push(ball((0.0, 0.0, 0.0), 1.0, 0));
    assert!(list.bounding_box(gs(0.0), gs(1.0)).is_none());
}

#[test]
fn list_collects_the_densities_of_its_members() {
    let mut list = HittableList::new();
    list.push(ball((0.0, 0.0, 0.0), 1.0, 0));
    list.push(ball((0.0, 0.0, 0.0), 2.5, 0));
    list.push(ball((0.0, 0.0, 0.0), 4.0, 0));
    let values = list.pdf_values(&gv(0.0, 0.0, 0.0), &gv(0.0, 0.0, 1.0));
    let values: Vec<f64> = values.into_iter().map(gf).collect();
    assert_eq!(values, vec![1.0, 2.5, 4.0]);
}

#[test]
fn list_draws_from_each_member_in_time() {
    let mut list = HittableList::new();
    list.push(ball((1.0, 0.0, 0.0), 1.0, 0));
    list.push(ball((0.0, 2.0, 0.0), 1.0, 0));
    list.push(ball((0.0, 0.0, 3.0), 1.0, 0));
    let mut seen = [0usize; 3];
    for _ in 0..600 {
        let d = tuple(list.random(&gv(0.0, 0.0, 0.0)));
        if d == (1.0, 0.0, 0.0) {
            seen[0] += 1;
        } else if d == (0.0, 2.0, 0.0) {
            seen[1] += 1;
        } else if d == (0.0, 0.0, 3.0) {
            seen[2] += 1;
        } else {
            panic!("a direction that no member draws: {:?}", d);
        }
    }
    // each member has a chance of one in three per draw
    assert!(seen.iter().all(|&n| n > 100), "{:?}", seen);
}

#[test]
fn cube_has_six_faces_with_outward_sides() {
    let cube = Cube::new(gv(0.0, 1.0, 2.0), gv(3.0, 5.0, 7.0), 4);
    assert_eq!(tuple(cube.p_min), (0.0, 1.0, 2.0));
    assert_eq!(tuple(cube.p_max), (3.0, 5.0, 7.0));
    assert_eq!(cube.sides.len(), 6);
    let expect = [
        (Plane::XY, 0.0, 3.0, 1.0, 5.0, 7.0, false),
        (Plane::XY, 0.0, 3.0, 1.0, 5.0, 2.0, true),
        (Plane::ZX, 2.0, 7.0, 0.0, 3.0, 5.0, false),
        (Plane::ZX, 2.0, 7.0, 0.0, 3.0, 1.0, true),
        (Plane::YZ, 1.0, 5.0, 2.0, 7.0, 3.0, false),
        (Plane::YZ, 1.0, 5.0, 2.0, 7.0, 0.0, true),
    ];
    for (side, e) in cube.sides.iter().zip(expect.iter()) {
        assert!(side.rect.plane == e.0);
        assert_eq!(gf(side.rect.a0), e.1);
        assert_eq!(gf(side.rect.a1), e.2);
        assert_eq!(gf(side.rect.b0), e.3);
        assert_eq!(gf(side.rect.b1), e.4);
        assert_eq!(gf(side.rect.k), e.5);
        assert_eq!(side.flipped, e.6);
        assert_eq!(side.rect.material, 4);
    }
    let b = cube.bounding_box(gs(0.0), gs(1.0)).unwrap();
    assert_eq!((tuple(b.min), tuple(b.max)), ((0.0, 1.0, 2.0), (3.0, 5.0, 7.0)));
}

fn cube_hit(cube: &Cube, r: &Ray, t_min: f64, t_max: f64) -> Option<HitRecord> {
    let z = PlaneCrossing {
        t: gs(0.0),
        a: gs(0.0),
        b: gs(0.0),
        u: gs(0.0),
        v: gs(0.0),
        p: gv(0.0, 0.0, 0.0),
        facing: gs(0.0),
    };
    let mut crossings = [z; 6];
    for (i, side) in cube.sides.iter().enumerate() {
        crossings[i] = crossing_of(&side.rect, r);
    }
    cube.hit(gs(t_min), gs(t_max), &crossings)
}

#[test]
fn cube_is_entered_through_a_front_face_from_every_side() {
    let cube = Cube::new(gv(-1.0, -1.0, -1.0), gv(1.0, 1.0, 1.0), 0);
    let rays = [
        ((0.2, 0.3, 5.0), (0.0, 0.0, -1.0)),
        ((0.2, 0.3, -5.0), (0.0, 0.0, 1.0)),
        ((0.2, 5.0, 0.3), (0.0, -1.0, 0.0)),
        ((0.2, -5.0, 0.3), (0.0, 1.0, 0.0)),
        ((5.0, 0.2, 0.3), (-1.0, 0.0, 0.0)),
        ((-5.0, 0.2, 0.3), (1.0, 0.0, 0.0)),
    ];
    for (o, d) in rays {
        let r = Ray::new(gv(o.0, o.1, o.2), gv(d.0, d.1, d.2), gs(0.0));
        let rec = cube_hit(&cube, &r, 0.001, f64::INFINITY).unwrap();
        assert_eq!(gf(rec.t), 4.0);
        assert!(rec.front_face, "entering along {:?}", d);
        // the normal points against the ray
        assert!(dot(tuple(rec.normal), d) < 0.0);
        // from inside, the ray leaves through a back face
        let inside = Ray::new(gv(0.0, 0.0, 0.0), gv(d.0, d.1, d.2), gs(0.0));
        let rec = cube_hit(&cube, &inside, 0.001, f64::INFINITY).unwrap();
        assert_eq!(gf(rec.t), 1.0);
        assert!(!rec.front_face, "leaving along {:?}", d);
    }
    let miss = Ray::new(gv(3.0, 3.0, -5.0), gv(0.0, 0.0, 1.0), gs(0.0));
    assert!(cube_hit(&cube, &miss, 0.001, f64::INFINITY).is_none());
}

fn leaves(node: &Node, out: &mut Vec<usize>) {
    match node {
        Node::Leaf { index } => out.push(*index),
        Node::Branch { left, right, .. } => {
            leaves(left, out);
            leaves(right, out);
        }
    }
}

fn count(node: &Node) -> usize {
    let mut all = Vec::new();
    leaves(node, &mut all);
    all.len()
}

fn node_box(node: &Node, boxes: &[AABB]) -> AABB {
    match node {
        Node::Leaf { index } => boxes[*index],
        Node::Branch { bounds, .. } => *bounds,
    }
}

fn check_shape(node: &Node, boxes: &[AABB], axis: usize) {
    if let Node::Branch { left, right, bounds } = node {
        let n = count(node);
        assert_eq!(count(left), n / 2);
        assert_eq!(count(right), n - n / 2);
        let lb = node_box(left, boxes);
        let rb = node_box(right, boxes);
        for i in 0..3 {
            assert_eq!(gf(bounds.min.get(i)), gf(lb.min.get(i)).min(gf(rb.min.get(i))));
            assert_eq!(gf(bounds.max.get(i)), gf(lb.max.get(i)).max(gf(rb.max.get(i))));
        }
        let mut l = Vec::new();
        let mut r = Vec::new();
        leaves(left, &mut l);
        leaves(right, &mut r);
        for &a in &l {
            for &b in &r {
                assert!(gf(boxes[a].min.get(axis)) <= gf(boxes[b].min.get(axis)));
            }
        }
        check_shape(left, boxes, (axis + 1) % 3);
        check_shape(right, boxes, (axis + 1) % 3);
    }
}

fn random_balls(rng: &mut StdRng, n: usize) -> Vec<((f64, f64, f64), f64)> {
    (0..n)
        .map(|_| {
            (
                (
                    rng.gen_range(-10.0..10.0),
                    rng.gen_range(-10.0..10.0),
                    rng.gen_range(-10.0..10.0),
                ),
                rng.gen_range(0.1..1.5),
            )
        })
        .collect()
}

#[test]
fn bvh_is_balanced_sorted_and_holds_every_primitive_once() {
    let mut rng = StdRng::seed_from_u64(7);
    for n in [1usize, 2, 3, 4, 5, 8, 13, 64, 100] {
        let mut list = HittableList::new();
        for (i, (c, r)) in random_balls(&mut rng, n).into_iter().enumerate() {
            list.push(ball(c, r, i));
        }
        let bvh = match BVH::new(list.objects, gs(0.0), gs(1.0)) {
            Ok(bvh) => bvh,
            Err(_) => panic!("every ball has a box"),
        };
        assert_eq!(bvh.objects.len(), n);
        assert_eq!(bvh.boxes.len(), n);
        for (i, o) in bvh.objects.iter().enumerate() {
            assert_eq!(o.shape.material, i);
            let b = o.bounding_box(gs(0.0), gs(1.0)).unwrap();
            assert_eq!(tuple(b.min), tuple(bvh.boxes[i].min));
            assert_eq!(tuple(b.max), tuple(bvh.boxes[i].max));
        }
        let mut all = Vec::new();
        leaves(&bvh.root, &mut all);
        all.sort();
        assert_eq!(all, (0..n).collect::<Vec<usize>>());
        check_shape(&bvh.root, &bvh.boxes, 0);
        let whole = bvh.bounding_box();
        for b in &bvh.boxes {
            for i in 0..3 {
                assert!(gf(whole.min.get(i)) <= gf(b.min.get(i)));
                assert!(gf(whole.max.get(i)) >= gf(b.max.get(i)));
            }
        }
    }
}

#[test]
fn bvh_cannot_be_built_from_nothing_or_from_the_unbounded() {
    let empty: HittableList<Ball> = HittableList::new();
    assert!(matches!(BVH::new(empty.objects, gs(0.0), gs(1.0)), Err(BuildError::Empty)));
    let mut list = HittableList::new();
    list.push(ball((0.0, 0.0, 0.0), 1.0, 0));
    list.push(ball((1.0, 0.0, 0.0), 1.0, 1));
    let mut loose = ball((2.0, 0.0, 0.0), 1.0, 2);
    loose.bounded = false;
    list.push(loose);
    list.push(ball((3.0, 0.0, 0.0), 1.0, 3));
    let mut also_loose = ball((4.0, 0.0, 0.0), 1.0, 4);
    also_loose.bounded = false;
    list.push(also_loose);
    assert!(matches!(
        BVH::new(list.objects, gs(0.0), gs(1.0)),
        Err(BuildError::Unbounded { index: 2 })
    ));
}

#[test]
fn bvh_and_list_agree_on_the_nearest_hit() {
    let mut rng = StdRng::seed_from_u64(2024);
    let mut rays = 0;
    let mut hits = 0;
    for n in [1usize, 2, 3, 7, 40, 150] {
        let balls = random_balls(&mut rng, n);
        let mut list = HittableList::new();
        let mut for_tree = HittableList::new();
        for (i, &(c, r)) in balls.iter().enumerate() {
            list.push(ball(c, r, i));
            for_tree.push(ball(c, r, i));
        }
        let bvh = match BVH::new(for_tree.objects, gs(0.0), gs(1.0)) {
            Ok(bvh) => bvh,
            Err(_) => panic!("every ball has a box"),
        };
        for _ in 0..2000 {
            let o: (f64, f64, f64) = (
                rng.gen_range(-15.0..15.0),
                rng.gen_range(-15.0..15.0),
                rng.gen_range(-15.0..15.0),
            );
            // aim at one of the balls, a little off its centre
            let (c, radius) = balls[rng.gen_range(0..n)];
            let aim = (
                c.0 + rng.gen_range(-1.5..1.5) * radius,
                c.1 + rng.gen_range(-1.5..1.5) * radius,
                c.2 + rng.gen_range(-1.5..1.5) * radius,
            );
            let r = Ray::new(
                gv(o.0, o.1, o.2),
                gv(aim.0 - o.0, aim.1 - o.1, aim.2 - o.2),
                gs(0.0),
            );
            let t_max = if rng.gen::<bool>() { f64::INFINITY } else { rng.gen_range(0.2..1.5) };
            let from_list = list.hit(&r, gs(0.001), gs(t_max));
            let from_tree = bvh.hit(&r, gs(0.001), gs(t_max), &slabs_of);
            rays += 1;
            match (from_list, from_tree) {
                (None, None) => {}
                (Some(a), Some(b)) => {
                    hits += 1;
                    assert!((gf(a.t) - gf(b.t)).abs() <= 1e-9 * gf(a.t).abs().max(1.0));
                    assert_eq!(a.material, b.material);
                }
                (a, b) => panic!("list {:?}, hierarchy {:?}", a.map(|x| gf(x.t)), b.map(|x| gf(x.t))),
            }
        }
    }
    assert!(rays >= 10_000);
    assert!(hits > 3000, "only {} of {} rays hit anything", hits, rays);
}

fn plus(a: &Vec3, b: &Vec3) -> Vec3 {
    let (a, b) = (tuple(*a), tuple(*b));
    gv(a.0 + b.0, a.1 + b.1, a.2 + b.2)
}

fn minus(a: &Vec3, b: &Vec3) -> Vec3 {
    let (a, b) = (tuple(*a), tuple(*b));
    gv(a.0 - b.0, a.1 - b.1, a.2 - b.2)
}

#[test]
fn translate_moves_the_point_and_keeps_the_normal() {
    let moved = Translate::new(ball((0.0, 0.0, 0.0), 1.0, 6), gv(10.0, 0.0, 0.0));
    let r = Ray::new(gv(10.0, 0.0, -5.0), gv(0.0, 0.0, 1.0), gs(0.25));
    let rec = moved.hit(&r, gs(0.001), gs(f64::INFINITY), &minus, &plus).unwrap();
    assert_eq!(gf(rec.t), 4.0);
    assert_eq!(tuple(rec.p), (10.0, 0.0, -1.0));
    assert_eq!(tuple(rec.normal), (0.0, 0.0, -1.0));
    assert!(rec.front_face);
    assert_eq!(rec.material, 6);
    // where the primitive was, there is nothing now
    let old = Ray::new(gv(0.0, 0.0, -5.0), gv(0.0, 0.0, 1.0), gs(0.0));
    assert!(moved.hit(&old, gs(0.001), gs(f64::INFINITY), &minus, &plus).is_none());
    let b = moved.bounding_box(gs(0.0), gs(1.0), &plus).unwrap();
    assert_eq!((tuple(b.min), tuple(b.max)), ((9.0, -1.0, -1.0), (11.0, 1.0, 1.0)));
    let mut loose = ball((0.0, 0.0, 0.0), 1.0, 6);
    loose.bounded = false;
    let unbounded = Translate::new(loose, gv(10.0, 0.0, 0.0));
    assert!(unbounded.bounding_box(gs(0.0), gs(1.0), &plus).is_none());
}

/// A quarter turn about the second axis: the third axis goes to the first.
fn quarter(p: &Vec3) -> Vec3 {
    let p = tuple(*p);
    gv(p.2, p.1, -p.0)
}

fn quarter_back(p: &Vec3) -> Vec3 {
    let p = tuple(*p);
    gv(-p.2, p.1, p.0)
}

#[test]
fn rotate_turns_the_ray_in_and_the_hit_out() {
    // a ball on the third axis is carried onto the first
    let turned = Rotate::new(Axis::Y, ball((0.0, 0.0, 5.0), 1.0, 8), gs(1.0), gs(0.0), &quarter);
    assert!(turned.axis == Axis::Y);
    assert_eq!((gf(turned.sin_theta), gf(turned.cos_theta)), (1.0, 0.0));
    let b = turned.bounding_box(gs(0.0), gs(1.0)).unwrap();
    assert_eq!((tuple(b.min), tuple(b.max)), ((4.0, -1.0, -1.0), (6.0, 1.0, 1.0)));
    let r = Ray::new(gv(0.0, 0.0, 0.0), gv(1.0, 0.0, 0.0), gs(0.5));
    let rec = turned.hit(&r, gs(0.001), gs(f64::INFINITY), &quarter_back, &quarter).unwrap();
    assert_eq!(gf(rec.t), 4.0);
    assert_eq!(tuple(rec.p), (4.0, 0.0, 0.0));
    assert_eq!(tuple(rec.normal), (-1.0, 0.0, 0.0));
    assert!(rec.front_face);
    assert_eq!(rec.material, 8);
    let along_z = Ray::new(gv(0.0, 0.0, 0.0), gv(0.0, 0.0, 1.0), gs(0.5));
    assert!(turned.hit(&along_z, gs(0.001), gs(f64::INFINITY), &quarter_back, &quarter).is_none());
    let mut loose = ball((0.0, 0.0, 5.0), 1.0, 8);
    loose.bounded = false;
    let unbounded = Rotate::new(Axis::Y, loose, gs(1.0), gs(0.0), &quarter);
    assert!(unbounded.bounding_box(gs(0.0), gs(1.0)).is_none());
}

#[test]
fn hierarchy_finds_a_crossing_exactly_at_the_upper_bound() {
    let r = Ray::new(gv(0.0, 0.0, -5.0), gv(0.0, 0.0, 1.0), gs(0.0));
    let mut list = HittableList::new();
    list.push(ball((0.0, 0.0, 0.0), 1.0, 0));
    list.push(ball((10.0, 0.0, 0.0), 1.0, 1));
    let bvh = match BVH::new(
        vec![ball((0.0, 0.0, 0.0), 1.0, 0), ball((10.0, 0.0, 0.0), 1.0, 1)],
        gs(0.0),
        gs(1.0),
    ) {
        Ok(bvh) => bvh,
        Err(_) => panic!("every ball has a box"),
    };
    // the ray enters the box of the hierarchy where it meets the ball, at t = 4:
    // the span from 4 to 4 holds the crossing
    assert_eq!(gf(list.hit(&r, gs(0.001), gs(4.0)).unwrap().t), 4.0);
    assert_eq!(gf(bvh.hit(&r, gs(0.001), gs(4.0), &slabs_of).unwrap().t), 4.0);
    assert_eq!(gf(bvh.hit(&r, gs(0.001), gs(f64::INFINITY), &slabs_of).unwrap().t), 4.0);
    let before = f64::from_bits(4.0f64.to_bits() - 1);
    assert!(list.hit(&r, gs(0.001), gs(before)).is_none());
    assert!(bvh.hit(&r, gs(0.001), gs(before), &slabs_of).is_none());
}

#[test]
fn a_ray_in_the_plane_of_a_rectangle_does_not_hit_it() {
    let rect = AARect::new(Plane::XY, gs(0.0), gs(1.0), gs(0.0), gs(1.0), gs(0.0), 2);
    let r = Ray::new(gv(0.5, 0.5, 0.0), gv(1.0, 0.0, 0.0), gs(0.0));
    let crossing = crossing_of(&rect, &r);
    assert!(gf(crossing.t).is_nan());
    assert!(rect.hit(gs(0.001), gs(f64::INFINITY), &crossing).is_none());
    // a crossing with a NaN for one of the plane coordinates is none either
    let mut odd = crossing_of(&rect, &Ray::new(gv(0.5, 0.5, -1.0), gv(0.0, 0.0, 1.0), gs(0.0)));
    assert!(rect.hit(gs(0.001), gs(f64::INFINITY), &odd).is_some());
    odd.a = gs(f64::NAN);
    assert!(rect.hit(gs(0.001), gs(f64::INFINITY), &odd).is_none());
    odd.a = gs(0.5);
    odd.b = gs(f64::NAN);
    assert!(rect.hit(gs(0.001), gs(f64::INFINITY), &odd).is_none());
    // and so is every face of a box for a ray in its plane
    let cube = Cube::new(gv(0.0, 0.0, 0.0), gv(1.0, 1.0, 1.0), 0);
    let flat = Ray::new(gv(0.5, 0.5, 0.0), gv(0.0, 0.0, 0.0), gs(0.0));
    assert!(cube_hit(&cube, &flat, 0.001, f64::INFINITY).is_none());
}

#[test]
fn roots_that_are_no_numbers_are_no_hit() {
    let nan = f64::NAN;
    for roots in [
        Roots { discriminant: gs(0.0), near: gs(nan), far: gs(nan) },
        Roots { discriminant: gs(nan), near: gs(4.0), far: gs(6.0) },
        Roots { discriminant: gs(nan), near: gs(nan), far: gs(nan) },
    ] {
        assert!(select_root(&roots, gs(0.001), gs(f64::INFINITY)).is_none());
    }
    let half = Roots { discriminant: gs(1.0), near: gs(nan), far: gs(6.0) };
    assert_eq!(gf(select_root(&half, gs(0.001), gs(f64::INFINITY)).unwrap()), 6.0);
    // a ray without a direction has no root that is a number
    let world = ball((0.0, 0.0, 0.0), 1.0, 0);
    let still = Ray::new(gv(0.0, 0.0, 0.0), gv(0.0, 0.0, 0.0), gs(0.0));
    assert!(world.hit(&still, gs(0.001), gs(f64::INFINITY)).is_none());
}

#[test]
fn density_toward_a_rectangle_is_zero_where_the_ray_misses_it() {
    let rect = AARect::new(Plane::ZX, gs(0.0), gs(2.0), gs(0.0), gs(2.0), gs(5.0), 0);
    let shows_t = |rec: &HitRecord| rec.t;
    let up = Ray::new(gv(1.0, 0.0, 1.0), gv(0.0, 1.0, 0.0), gs(0.0));
    assert_eq!(gf(rect.pdf_value(&crossing_of(&rect, &up), &shows_t)), 5.0);
    let aside = Ray::new(gv(3.0, 0.0, 1.0), gv(0.0, 1.0, 0.0), gs(0.0));
    assert_eq!(rect.pdf_value(&crossing_of(&rect, &aside), &shows_t).to_bits(), 0);
    let away = Ray::new(gv(1.0, 0.0, 1.0), gv(0.0, -1.0, 0.0), gs(0.0));
    assert_eq!(rect.pdf_value(&crossing_of(&rect, &away), &shows_t).to_bits(), 0);
    // nearer than 0.001 is no hit
    let close = Ray::new(gv(1.0, 4.9995, 1.0), gv(0.0, 1.0, 0.0), gs(0.0));
    assert_eq!(rect.pdf_value(&crossing_of(&rect, &close), &shows_t).to_bits(), 0);
}

#[test]
fn density_toward_a_sphere_is_zero_where_the_ray_misses_it() {
    let sphere = Sphere::new(gv(0.0, 0.0, 0.0), gs(1.0), 0);
    let surface = |t: Scalar| SurfacePoint {
        p: gv(0.0, 0.0, gf(t) - 5.0),
        outward_normal: gv(0.0, 0.0, -1.0),
        u: gs(0.0),
        v: gs(0.0),
        facing: gs(-1.0),
    };
    let fixed = |_rec: &HitRecord| gs(0.375);
    let hit = Roots { discriminant: gs(1.0), near: gs(4.0), far: gs(6.0) };
    assert_eq!(gf(sphere.pdf_value(&hit, &surface, &fixed)), 0.375);
    let miss = Roots { discriminant: gs(-3.0), near: gs(f64::NAN), far: gs(f64::NAN) };
    assert_eq!(sphere.pdf_value(&miss, &surface, &fixed).to_bits(), 0);
    let behind = Roots { discriminant: gs(1.0), near: gs(-6.0), far: gs(-4.0) };
    assert_eq!(sphere.pdf_value(&behind, &surface, &fixed).to_bits(), 0);
}

/// A list that stands as one member of another list.
struct Group {
    members: HittableList<Ball>,
}

impl Hittable for Group {
    fn hit(&self, r: &Ray, t_min: Scalar, t_max: Scalar) -> Option<HitRecord> {
        self.members.hit(r, t_min, t_max)
    }

    fn bounding_box(&self, t0: Scalar, t1: Scalar) -> Option<AABB> {
        self.members.bounding_box(t0, t1)
    }

    fn pdf_value(&self, _o: &Vec3, _v: &Vec3) -> Scalar {
        gs(0.0)
    }

    fn random(&self, _o: &Vec3) -> Vec3 {
        gv(1.0, 0.0, 0.0)
    }
}

fn same_record(a: &Option<HitRecord>, b: &Option<HitRecord>) -> bool {
    match (a, b) {
        (None, None) => true,
        (Some(x), Some(y)) => {
            x.t.to_bits() == y.t.to_bits()
                && tuple(x.p) == tuple(y.p)
                && tuple(x.normal) == tuple(y.normal)
                && x.front_face == y.front_face
                && x.u.to_bits() == y.u.to_bits()
                && x.v.to_bits() == y.v.to_bits()
                && x.material == y.material
        }
        _ => false,
    }
}

#[test]
fn the_nearest_hit_depends_neither_on_order_nor_on_grouping() {
    let mut rng = StdRng::seed_from_u64(99);
    let balls = random_balls(&mut rng, 12);
    let mut flat = HittableList::new();
    let mut turned = HittableList::new();
    let mut nested = HittableList::new();
    for (i, &(c, r)) in balls.iter().enumerate() {
        flat.push(ball(c, r, i));
    }
    for (i, &(c, r)) in balls.iter().enumerate().rev() {
        turned.push(ball(c, r, i));
    }
    for chunk in [0..5usize, 5..6, 6..12] {
        let mut members = HittableList::new();
        for i in chunk {
            members.push(ball(balls[i].0, balls[i].1, i));
        }
        nested.push(Group { members });
    }
    let mut hits = 0;
    for _ in 0..3000 {
        let o: (f64, f64, f64) = (
            rng.gen_range(-15.0..15.0),
            rng.gen_range(-15.0..15.0),
            rng.gen_range(-15.0..15.0),
        );
        let (c, radius) = balls[rng.gen_range(0..balls.len())];
        let r = Ray::new(
            gv(o.0, o.1, o.2),
            gv(
                c.0 + rng.gen_range(-1.2..1.2) * radius - o.0,
                c.1 + rng.gen_range(-1.2..1.2) * radius - o.1,
                c.2 + rng.gen_range(-1.2..1.2) * radius - o.2,
            ),
            gs(0.0),
        );
        let t_max = if rng.gen::<bool>() { f64::INFINITY } else { rng.gen_range(0.2..1.5) };
        let a = flat.hit(&r, gs(0.001), gs(t_max));
        let b = turned.hit(&r, gs(0.001), gs(t_max));
        let c = nested.hit(&r, gs(0.001), gs(t_max));
        assert!(same_record(&a, &b));
        assert!(same_record(&a, &c));
        if a.is_some() {
            hits += 1;
        }
    }
    assert!(hits > 500, "only {} rays hit anything", hits);
}
