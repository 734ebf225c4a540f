use pathtracer::aabb::{enclosing, surrounding_box, Slab, Span, AABB};
use pathtracer::ray::Ray;
use pathtracer::scalar::Scalar;
use pathtracer::vec3::Vec3;

fn bs(x: f64) -> Scalar {
    Scalar::from_bits(x.to_bits())
}

fn bf(x: Scalar) -> f64 {
    f64::from_bits(x.to_bits())
}

fn bv(x: f64, y: f64, z: f64) -> Vec3 {
    Vec3::new(bs(x), bs(y), bs(z))
}

fn bbox(min: (f64, f64, f64), max: (f64, f64, f64)) -> AABB {
    AABB::new(bv(min.0, min.1, min.2), bv(max.0, max.1, max.2))
}

fn corners(b: &AABB) -> ((f64, f64, f64), (f64, f64, f64)) {
    (
        (bf(b.min.0), bf(b.min.1), bf(b.min.2)),
        (bf(b.max.0), bf(b.max.1), bf(b.max.2)),
    )
}

fn same_box(a: &AABB, b: &AABB) -> bool {
    a.min.0.to_bits() == b.min.0.to_bits()
        && a.min.1.to_bits() == b.min.1.to_bits()
        && a.min.2.to_bits() == b.min.2.to_bits()
        && a.max.0.to_bits() == b.max.0.to_bits()
        && a.max.1.to_bits() == b.max.1.to_bits()
        && a.max.2.to_bits() == b.max.2.to_bits()
}

fn slabs_for(b: &AABB, r: &Ray) -> [Slab; 3] {
    let mut out = [Slab { t0: bs(0.0), t1: bs(0.0), inv_d: bs(0.0) }; 3];
    for a in 0..3 {
        let inv_d = 1.0 / bf(r.direction().get(a));
        let t0 = (bf(b.min.get(a)) - bf(r.origin().get(a))) * inv_d;
        let t1 = (bf(b.max.get(a)) - bf(r.origin().get(a))) * inv_d;
        out[a] = Slab { t0: bs(t0), t1: bs(t1), inv_d: bs(inv_d) };
    }
    out
}

#[test]
fn surrounding_box_of_two_boxes() {
    let a = bbox((0.0, 0.0, 0.0), (1.0, 1.0, 1.0));
    let b = bbox((-1.0, 2.0, -1.0), (0.5, 3.0, 0.5));
    let m = surrounding_box(&a, &b);
    assert_eq!(corners(&m), ((-1.0, 0.0, -1.0), (1.0, 3.0, 1.0)));
}

#[test]
fn surrounding_box_is_commutative_and_associative() {
    let boxes = vec![
        bbox((0.0, 0.0, 0.0), (1.0, 1.0, 1.0)),
        bbox((-1.0, 2.0, -1.0), (0.5, 3.0, 0.5)),
        bbox((-0.0, -5.0, 0.25), (0.0, 7.0, 0.25)),
        bbox((100.0, -100.0, 1e-9), (1e9, -99.0, 1.0)),
        bbox((f64::NEG_INFINITY, 0.0, 0.0), (f64::INFINITY, 0.0, 0.0)),
    ];
    for a in &boxes {
        assert!(same_box(&surrounding_box(a, a), a));
        for b in &boxes {
            let ab = surrounding_box(a, b);
            let ba = surrounding_box(b, a);
            assert!(same_box(&ab, &ba));
            for c in &boxes {
                let left = surrounding_box(&surrounding_box(a, b), c);
                let right = surrounding_box(a, &surrounding_box(b, c));
                assert!(same_box(&left, &right));
            }
        }
    }
}

#[test]
fn surrounding_box_holds_both_boxes() {
    let a = bbox((0.0, -3.0, 2.0), (1.0, 1.0, 4.0));
    let b = bbox((-1.0, 2.0, -1.0), (0.5, 3.0, 0.5));
    let m = surrounding_box(&a, &b);
    for x in [&a, &b] {
        for i in 0..3 {
            assert!(bf(m.min.get(i)) <= bf(x.min.get(i)));
            assert!(bf(m.max.get(i)) >= bf(x.max.get(i)));
        }
    }
    assert_eq!(corners(&m), ((-1.0, -3.0, -1.0), (1.0, 3.0, 4.0)));
}

#[test]
fn aabb_getters_return_the_corners() {
    let a = bbox((0.0, -3.0, 2.0), (1.0, 1.0, 4.0));
    assert_eq!(bf(a.min().y()), -3.0);
    assert_eq!(bf(a.max().z()), 4.0);
}

#[test]
fn slab_test_accepts_a_ray_through_the_box() {
    let b = bbox((-1.0, -1.0, -1.0), (1.0, 1.0, 1.0));
    let r = Ray::new(bv(0.0, 0.0, -5.0), bv(0.1, 0.05, 1.0), bs(0.0));
    assert!(b.hit(&slabs_for(&b, &r), bs(0.001), bs(f64::INFINITY)));
    // the box lies between t = 4 and t = 6
    assert!(b.hit(&slabs_for(&b, &r), bs(0.001), bs(4.5)));
    assert!(!b.hit(&slabs_for(&b, &r), bs(0.001), bs(3.9)));
    assert!(!b.hit(&slabs_for(&b, &r), bs(6.1), bs(f64::INFINITY)));
}

#[test]
fn slab_test_rejects_a_ray_that_passes_by() {
    let b = bbox((-1.0, -1.0, -1.0), (1.0, 1.0, 1.0));
    let r = Ray::new(bv(3.0, 0.0, -5.0), bv(0.0, 0.0, 1.0), bs(0.0));
    assert!(!b.hit(&slabs_for(&b, &r), bs(0.001), bs(f64::INFINITY)));
    let away = Ray::new(bv(0.0, 0.0, -5.0), bv(0.0, 0.0, -1.0), bs(0.0));
    assert!(!b.hit(&slabs_for(&b, &away), bs(0.001), bs(f64::INFINITY)));
}

#[test]
fn slab_test_handles_a_reversed_direction() {
    let b = bbox((-1.0, -1.0, -1.0), (1.0, 1.0, 1.0));
    let r = Ray::new(bv(0.5, 0.5, 5.0), bv(-0.01, -0.01, -1.0), bs(0.0));
    assert!(b.hit(&slabs_for(&b, &r), bs(0.001), bs(f64::INFINITY)));
    assert!(!b.hit(&slabs_for(&b, &r), bs(0.001), bs(3.5)));
}

#[test]
fn slab_narrowing_swaps_the_ends_for_a_negative_direction() {
    let forward = Slab { t0: bs(2.0), t1: bs(5.0), inv_d: bs(1.0) };
    let out = forward.narrow(Span { lo: bs(0.0), hi: bs(10.0) });
    assert_eq!((bf(out.lo), bf(out.hi)), (2.0, 5.0));
    let backward = Slab { t0: bs(5.0), t1: bs(2.0), inv_d: bs(-1.0) };
    let out = backward.narrow(Span { lo: bs(0.0), hi: bs(10.0) });
    assert_eq!((bf(out.lo), bf(out.hi)), (2.0, 5.0));
    let out = forward.narrow(Span { lo: bs(3.0), hi: bs(4.0) });
    assert_eq!((bf(out.lo), bf(out.hi)), (3.0, 4.0));
}

#[test]
fn enclosing_box_of_points() {
    let points = vec![
        bv(1.0, 5.0, -2.0),
        bv(-3.0, 6.0, 0.0),
        bv(2.0, -1.0, 0.5),
        bv(0.0, 0.0, 9.0),
    ];
    let b = enclosing(&points);
    assert_eq!(corners(&b), ((-3.0, -1.0, -2.0), (2.0, 6.0, 9.0)));
    let one = enclosing(&vec![bv(1.0, 2.0, 3.0)]);
    assert_eq!(corners(&one), ((1.0, 2.0, 3.0), (1.0, 2.0, 3.0)));
}

#[test]
fn stretch_grows_a_box_to_a_point() {
    let b = bbox((0.0, 0.0, 0.0), (1.0, 1.0, 1.0));
    let grown = b.stretch(&bv(-2.0, 0.5, 3.0));
    assert_eq!(corners(&grown), ((-2.0, 0.0, 0.0), (1.0, 1.0, 3.0)));
}

#[test]
fn corners_are_listed_by_their_three_bits() {
    let b = bbox((0.0, 10.0, 20.0), (1.0, 11.0, 21.0));
    let c = b.corners();
    assert_eq!(c.len(), 8);
    for i in 0..2 {
        for j in 0..2 {
            for k in 0..2 {
                let corner = c[4 * i + 2 * j + k];
                assert_eq!(bf(corner.x()), i as f64);
                assert_eq!(bf(corner.y()), 10.0 + j as f64);
                assert_eq!(bf(corner.z()), 20.0 + k as f64);
            }
        }
    }
    let hull = enclosing(&c);
    assert_eq!(corners(&hull), corners(&b));
}

#[test]
fn slab_test_counts_a_span_of_one_number() {
    let b = bbox((-1.0, -1.0, -1.0), (1.0, 1.0, 1.0));
    let r = Ray::new(bv(0.0, 0.0, -5.0), bv(0.0, 0.0, 1.0), bs(0.0));
    // the box lies between t = 4 and t = 6, ends included
    assert!(b.hit(&slabs_for(&b, &r), bs(0.001), bs(4.0)));
    assert!(b.hit(&slabs_for(&b, &r), bs(6.0), bs(f64::INFINITY)));
    assert!(!b.hit(&slabs_for(&b, &r), bs(0.001), bs(3.999)));
    assert!(!b.hit(&slabs_for(&b, &r), bs(6.001), bs(f64::INFINITY)));
    // a box without thickness is crossed where the ray meets it
    let flat = bbox((-1.0, -1.0, 0.0), (1.0, 1.0, 0.0));
    assert!(flat.hit(&slabs_for(&flat, &r), bs(0.001), bs(f64::INFINITY)));
    let aside = Ray::new(bv(3.0, 0.0, -5.0), bv(0.0, 0.0, 1.0), bs(0.0));
    assert!(!flat.hit(&slabs_for(&flat, &aside), bs(0.001), bs(f64::INFINITY)));
}
