use pathtracer::image::{assemble, ppm, ppm_header, push_pixel, scanline};
use pathtracer::perlin::{perlin_generate_perm, permute, permute_by, Perlin};
use pathtracer::render::{render_pixel, render_row};
use pathtracer::scalar::Scalar;
use pathtracer::texture::{ImageTexture, NoiseTexture};
use pathtracer::vec3::Vec3;

fn rs(x: f64) -> Scalar {
    Scalar::from_bits(x.to_bits())
}

fn rf(x: Scalar) -> f64 {
    f64::from_bits(x.to_bits())
}

#[test]
fn scanlines_run_from_the_top() {
    assert_eq!(scanline(0, 400), 399);
    assert_eq!(scanline(399, 400), 0);
    assert_eq!(scanline(10, 400), 389);
    assert_eq!(scanline(0, 1), 0);
}

#[test]
fn rows_are_joined_in_row_order() {
    let rows = vec![
        vec![(1, 2, 3), (4, 5, 6)],
        vec![(7, 8, 9), (10, 11, 12)],
        vec![(13, 14, 15), (16, 17, 18)],
    ];
    let flat = assemble(&rows);
    assert_eq!(flat.len(), 6);
    for r in 0..3 {
        for i in 0..2 {
            assert_eq!(flat[r * 2 + i], rows[r][i]);
        }
    }
    assert!(assemble(&Vec::new()).is_empty());
    assert_eq!(assemble(&vec![vec![], vec![(1, 1, 1)], vec![]]), vec![(1, 1, 1)]);
}

/// The expected header: the magic line of the plain pixmap format, the sizes, 255.
fn header(width: i32, height: i32) -> Vec<u8> {
    let mut text = vec![b'P', b'3', b'\n'];
    text.extend(format!("{} {}\n255\n", width, height).into_bytes());
    text
}

#[test]
fn header_names_the_format_the_sizes_and_the_range() {
    assert_eq!(ppm_header(600, 400), header(600, 400));
    assert_eq!(ppm_header(1, 1), header(1, 1));
    assert_eq!(ppm_header(1, 1).len(), 11);
    assert_eq!(ppm_header(0, 1200), header(0, 1200));
    assert_eq!(ppm_header(i32::MAX, i32::MIN), header(i32::MAX, i32::MIN));
    assert_eq!(&ppm_header(-7, 42)[3..], b"-7 42\n255\n");
}

#[test]
fn a_pixel_is_one_line_of_three_numbers() {
    let mut out = b"x".to_vec();
    push_pixel(&mut out, &(255, 0, 17));
    assert_eq!(out, b"x255 0 17\n".to_vec());
    for p in [(0, 0, 0), (9, 10, 11), (99, 100, 101), (255, 255, 255), (-1, 1000, -2147483648)] {
        let mut out = Vec::new();
        push_pixel(&mut out, &p);
        assert_eq!(out, format!("{} {} {}\n", p.0, p.1, p.2).into_bytes());
    }
}

#[test]
fn image_text_is_header_then_pixels() {
    let pixels = vec![(255, 128, 0), (0, 0, 0), (12, 34, 56), (7, 8, 9)];
    let text = ppm(2, 2, &pixels);
    let mut expected = header(2, 2);
    expected.extend(b"255 128 0\n0 0 0\n12 34 56\n7 8 9\n".to_vec());
    assert_eq!(text, expected);
    let lines = text.iter().filter(|&&b| b == b'\n').count();
    assert_eq!(lines, 3 + 2 * 2);
    assert_eq!(ppm(0, 0, &Vec::new()), header(0, 0));
}

#[test]
fn image_texture_keeps_what_it_is_given() {
    let t = ImageTexture::new(vec![1, 2, 3, 4, 5, 6], 2, 1);
    assert_eq!(t.data, vec![1, 2, 3, 4, 5, 6]);
    assert_eq!(t.nx, 2);
    assert_eq!(t.ny, 1);
}

#[test]
fn image_texture_looks_up_and_clamps() {
    // 3 columns, 2 rows
    let data: Vec<u8> = (0..18).collect();
    let t = ImageTexture::new(data, 3, 2);
    assert_eq!(t.texel(0, 0), (0, 1, 2));
    assert_eq!(t.texel(1, 0), (3, 4, 5));
    assert_eq!(t.texel(2, 0), (6, 7, 8));
    assert_eq!(t.texel(0, 1), (9, 10, 11));
    assert_eq!(t.texel(2, 1), (15, 16, 17));
    assert_eq!(t.texel(3, 0), (6, 7, 8));
    assert_eq!(t.texel(0, 2), (9, 10, 11));
    assert_eq!(t.texel(usize::MAX, usize::MAX), (15, 16, 17));
}

#[test]
fn permutation_table_holds_every_number_once() {
    let mut identities = 0;
    for _ in 0..20 {
        let p = perlin_generate_perm();
        assert_eq!(p.len(), 256);
        if p.iter().enumerate().all(|(i, &x)| i == x) {
            identities += 1;
        }
        let mut sorted = p.clone();
        sorted.sort();
        assert_eq!(sorted, (0..256).collect::<Vec<usize>>());
    }
    // a shuffle that left every table in order would be no shuffle
    assert_eq!(identities, 0);
}

#[test]
fn permute_shuffles_only_the_first_entries() {
    let mut moved = false;
    for _ in 0..20 {
        let mut p: Vec<usize> = (0..100).map(|i| i * 3).collect();
        permute(&mut p, 60);
        assert_eq!(p.len(), 100);
        for i in 60..100 {
            assert_eq!(p[i], i * 3);
        }
        let mut head: Vec<usize> = p[..60].to_vec();
        if head.iter().enumerate().any(|(i, &x)| x != i * 3) {
            moved = true;
        }
        head.sort();
        assert_eq!(head, (0..60).map(|i| i * 3).collect::<Vec<usize>>());
    }
    assert!(moved);
    let mut untouched = vec![5, 6, 7];
    permute(&mut untouched, 0);
    assert_eq!(untouched, vec![5, 6, 7]);
    permute(&mut untouched, 1);
    assert_eq!(untouched, vec![5, 6, 7]);
}

fn gradients() -> Vec<Vec3> {
    (0..256).map(|i| Vec3::new(rs(i as f64), rs(-(i as f64)), rs(0.5))).collect()
}

#[test]
fn noise_lattice_hashes_the_three_tables() {
    let perlin = Perlin::new(gradients());
    assert_eq!(perlin.ranvec.len(), 256);
    for table in [&perlin.perm_x, &perlin.perm_y, &perlin.perm_z] {
        let mut sorted = table.clone();
        sorted.sort();
        assert_eq!(sorted, (0..256).collect::<Vec<usize>>());
    }
    for &(i, j, k) in &[(0usize, 0usize, 0usize), (1, 2, 3), (255, 255, 255), (256, 511, 1000), (12345, 6, 789)] {
        let expected = perlin.perm_x[i & 255] ^ perlin.perm_y[j & 255] ^ perlin.perm_z[k & 255];
        assert_eq!(rf(perlin.corner(i, j, k).x()), expected as f64);
        let c = perlin.noise(i, j, k);
        assert_eq!(c.len(), 8);
        for di in 0..2 {
            for dj in 0..2 {
                for dk in 0..2 {
                    let expected = perlin.perm_x[(i + di) & 255]
                        ^ perlin.perm_y[(j + dj) & 255]
                        ^ perlin.perm_z[(k + dk) & 255];
                    assert_eq!(rf(c[4 * di + 2 * dj + dk].x()), expected as f64);
                    assert_eq!(rf(c[4 * di + 2 * dj + dk].y()), -(expected as f64));
                }
            }
        }
    }
}

#[test]
fn noise_texture_keeps_its_tables_and_scale() {
    let t = NoiseTexture::new(Perlin::new(gradients()), rs(4.0));
    assert_eq!(rf(t.scale), 4.0);
    assert_eq!(t.noise.perm_x.len(), 256);
}

fn rv(x: f64, y: f64, z: f64) -> Vec3 {
    Vec3::new(rs(x), rs(y), rs(z))
}

/// A sample that shows its pixel: the column in red, the scanline in green.
fn coordinates(i: usize, j: usize) -> Vec3 {
    rv(i as f64 / 4.0, j as f64 / 4.0, 0.0625)
}

fn sum(a: &Vec3, b: &Vec3) -> Vec3 {
    rv(rf(a.x()) + rf(b.x()), rf(a.y()) + rf(b.y()), rf(a.z()) + rf(b.z()))
}

fn root_mean(c: Scalar, n: i32) -> Scalar {
    rs((rf(c) / n as f64).sqrt())
}

#[test]
fn a_pixel_is_the_encoded_sum_of_its_samples() {
    // each channel is the root of the mean of equal samples: the root of one of them
    assert_eq!(render_pixel(1, 0, 10, &coordinates, &sum, &root_mean), (128, 0, 64));
    assert_eq!(render_pixel(0, 1, 1, &coordinates, &sum, &root_mean), (0, 128, 64));
    assert_eq!(render_pixel(4, 4, 100, &coordinates, &sum, &root_mean), (255, 255, 64));
    let taken = std::cell::Cell::new(0);
    let counting = |_i: usize, _j: usize| {
        taken.set(taken.get() + 1);
        rv(1.0, 1.0, 1.0)
    };
    render_pixel(0, 0, 37, &counting, &sum, &root_mean);
    assert_eq!(taken.get(), 37);
    // no sample: black, whatever the correction makes of zero by zero
    assert_eq!(render_pixel(0, 0, 0, &coordinates, &sum, &root_mean), (0, 0, 0));
}

#[test]
fn a_row_holds_its_pixels_from_the_first_column_on() {
    let row = render_row(1, 5, 4, &coordinates, &sum, &root_mean);
    assert_eq!(row.len(), 5);
    for (i, pixel) in row.iter().enumerate() {
        assert_eq!(*pixel, render_pixel(i, 1, 4, &coordinates, &sum, &root_mean));
    }
    assert_eq!(row[0], (0, 128, 64));
    assert_eq!(row[1], (128, 128, 64));
    assert_eq!(row[4], (255, 128, 64));
    assert!(render_row(0, 0, 4, &coordinates, &sum, &root_mean).is_empty());
}

#[test]
fn permute_by_exchanges_each_entry_with_the_one_at_its_draw() {
    // from the last position down: 3 with 0, 2 with 1, 1 with 0, 0 with itself
    let mut p = vec![10, 20, 30, 40];
    permute_by(&mut p, &vec![0, 0, 1, 0]);
    assert_eq!(p, vec![30, 40, 20, 10]);
    // draws that name each position itself change nothing
    let mut p = vec![10, 20, 30, 40];
    permute_by(&mut p, &vec![0, 1, 2, 3]);
    assert_eq!(p, vec![10, 20, 30, 40]);
    // every entry drawn to the front: the order turns by one place
    let mut p = vec![10, 20, 30, 40];
    permute_by(&mut p, &vec![0, 0, 0, 0]);
    assert_eq!(p, vec![20, 30, 40, 10]);
}

#[test]
fn permute_by_leaves_the_entries_without_a_draw_alone() {
    let mut p = vec![1, 2, 3, 4, 5, 6];
    permute_by(&mut p, &vec![0, 0, 1]);
    assert_eq!(p, vec![3, 1, 2, 4, 5, 6]);
    let mut p = vec![1, 2, 3];
    permute_by(&mut p, &Vec::new());
    assert_eq!(p, vec![1, 2, 3]);
    let mut p = vec![1, 2, 3];
    permute_by(&mut p, &vec![0]);
    assert_eq!(p, vec![1, 2, 3]);
}

#[test]
fn permute_reaches_every_order_of_three_entries() {
    let mut seen = std::collections::BTreeSet::new();
    for _ in 0..600 {
        let mut p = vec![7, 8, 9, 10];
        permute(&mut p, 3);
        assert_eq!(p[3], 10);
        seen.insert(p);
    }
    // three entries have six orders, each with a chance of one in six per shuffle
    assert_eq!(seen.len(), 6);
}
