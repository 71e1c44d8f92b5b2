use raytracer::accumulate::ImageBuffer;

type Rgb = (f64, f64, f64);

fn add_rgb(a: Rgb, b: Rgb) -> Rgb {
    (a.0 + b.0, a.1 + b.1, a.2 + b.2)
}

fn gamma(c: Rgb, n: usize) -> Rgb {
    let s = 1.0 / (n as f64);
    ((c.0 * s).sqrt(), (c.1 * s).sqrt(), (c.2 * s).sqrt())
}

#[test]
fn new_buffer_is_empty() {
    let b: ImageBuffer<Rgb> = ImageBuffer::new(4, 3, (0.0, 0.0, 0.0));
    assert_eq!(b.width(), 4);
    assert_eq!(b.height(), 3);
    let snap = b.snapshot(|c, n| (c, n));
    assert_eq!(snap.len(), 12);
    assert!(snap.iter().all(|&(c, n)| c == (0.0, 0.0, 0.0) && n == 0));
}

#[test]
fn update_counts_and_sums_one_pixel() {
    let mut b: ImageBuffer<Rgb> = ImageBuffer::new(3, 2, (0.0, 0.0, 0.0));
    b.update_at((2, 1, (0.5, 0.25, 1.0)), add_rgb);
    b.update_at((2, 1, (0.5, 0.25, 1.0)), add_rgb);
    assert_eq!(b.pixel_at(2, 1), ((1.0, 0.5, 2.0), 2));
    assert_eq!(b.pixel_at(0, 0), ((0.0, 0.0, 0.0), 0));
    assert_eq!(b.pixel_at(2, 0), ((0.0, 0.0, 0.0), 0));
}

#[test]
fn y_axis_points_up() {
    // Pixel (0, 0) is the bottom-left corner: stored in the last row.
    let mut b: ImageBuffer<u32> = ImageBuffer::new(2, 2, 0);
    b.update_at((0, 0, 7), |a, s| a + s);
    assert_eq!(b.slot_of(0, 0), 2);
    assert_eq!(b.slot_of(1, 1), 1);
    let snap = b.snapshot(|c, n| (c, n));
    assert_eq!(snap, vec![(0, 0), (0, 0), (7, 1), (0, 0)]);
}

#[test]
fn identical_samples_average_to_the_sample() {
    let color = (0.25, 0.5, 1.0);
    for n in [1usize, 3, 8, 50] {
        let mut b: ImageBuffer<Rgb> = ImageBuffer::new(2, 2, (0.0, 0.0, 0.0));
        for _ in 0..n {
            b.update_at((1, 0, color), add_rgb);
        }
        let snap = b.snapshot(gamma);
        let want = gamma(color, 1);
        let got = snap[b.slot_of(1, 0)];
        assert!((got.0 - want.0).abs() < 1e-12);
        assert!((got.1 - want.1).abs() < 1e-12);
        assert!((got.2 - want.2).abs() < 1e-12);
        assert_eq!(b.pixel_at(1, 0).1, n);
    }
}

#[test]
fn snapshot_finishes_each_pixel_from_its_own_count() {
    let mut b: ImageBuffer<Rgb> = ImageBuffer::new(2, 1, (0.0, 0.0, 0.0));
    b.update_at((0, 0, (1.0, 1.0, 1.0)), add_rgb);
    b.update_at((1, 0, (0.0, 0.0, 0.0)), add_rgb);
    b.update_at((1, 0, (0.5, 0.5, 0.5)), add_rgb);
    let snap = b.snapshot(gamma);
    assert_eq!(snap[0], (1.0, 1.0, 1.0));
    assert_eq!(snap[1], (0.5, 0.5, 0.5));
}
