use rsfract::fractal::generate_mandelbrot;

#[test]
fn mandelbrot_shape() {
    let b = generate_mandelbrot(4);
    assert_eq!(b.rows, 4);
    assert_eq!(b.cols, 4);
    assert_eq!(b.bytes().len(), 4 * 4 * 3);
}

#[test]
fn mandelbrot_deterministic() {
    let a = generate_mandelbrot(16);
    let b = generate_mandelbrot(16);
    assert_eq!(a.bytes(), b.bytes());
}

#[test]
fn mandelbrot_interior_pixel_is_black() {
    // For size 4, pixel (2, 2) maps exactly onto c = (-0.5, 0.0), a known
    // interior point: it never escapes and must be pure black.
    let b = generate_mandelbrot(4);
    assert_eq!(b.get(2, 2, 0), 0);
    assert_eq!(b.get(2, 2, 1), 0);
    assert_eq!(b.get(2, 2, 2), 0);
}

#[test]
fn mandelbrot_escaping_pixel_near_start_color() {
    // Pixel (0, 0) maps onto c = (-2.0, -1.5), outside the disk of radius 2:
    // it escapes after one step and gets roughly the doubled start color —
    // (129, 0, 129), one gradient step above (128, 0, 128).
    let b = generate_mandelbrot(4);
    assert_eq!(b.get(0, 0, 0), 129);
    assert_eq!(b.get(0, 0, 1), 0);
    assert_eq!(b.get(0, 0, 2), 129);
    assert!(b.get(0, 0, 0) > 0);
}

#[test]
fn mandelbrot_size_one() {
    // The single pixel maps onto c = (-2.0, -1.5) and escapes at once.
    let b = generate_mandelbrot(1);
    assert_eq!(b.bytes(), &vec![129, 0, 129]);
}

#[test]
fn mandelbrot_size_two_exact() {
    // The four pixels map onto (-2, -1.5), (-2, 0), (-0.5, -1.5), (-0.5, 0):
    // escape counts 1, none, 2, none.
    let b = generate_mandelbrot(2);
    assert_eq!(b.bytes(), &vec![129, 0, 129, 0, 0, 0, 130, 0, 130, 0, 0, 0]);
}

#[test]
fn mandelbrot_clamps_bright_escapes() {
    // For size 7, pixel (4, 2) sits just outside the set and escapes only
    // after 187 steps; the doubled gradient overshoots a byte and must be
    // clamped to the end color (255, 0, 255).
    let b = generate_mandelbrot(7);
    assert_eq!(b.get(4, 2, 0), 255);
    assert_eq!(b.get(4, 2, 1), 0);
    assert_eq!(b.get(4, 2, 2), 255);
}

#[test]
fn mandelbrot_has_interior_and_exterior() {
    // A size that straddles the set shows both black interior pixels and
    // colored escaping ones.
    let b = generate_mandelbrot(32);
    let bytes = b.bytes();
    assert!(bytes.iter().any(|&v| v == 0));
    assert!(bytes.iter().any(|&v| v > 0));
}
