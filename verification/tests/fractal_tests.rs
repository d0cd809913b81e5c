use pixelgen::fractal::{
    fractal_pixel, gradient_channel, render_fractal, BITS_1_5, BITS_2_0, BITS_3_0, FRACTAL_C_IM,
    FRACTAL_C_RE,
};
use pixelgen::pixel::Rgb;

/// The bit-pattern constants the fractal contracts are stated over denote
/// exactly the numbers the algorithm calls for.
#[test]
fn fractal_bit_constants_denote_their_numbers() {
    assert_eq!(BITS_3_0, 3.0f32.to_bits());
    assert_eq!(BITS_1_5, 1.5f32.to_bits());
    assert_eq!(BITS_2_0, 2.0f32.to_bits());
    assert_eq!(FRACTAL_C_RE, (-0.4f32).to_bits());
    assert_eq!(FRACTAL_C_IM, 0.6f32.to_bits());
}

/// The gradient channel is floor(0.3 * v) wrapped into a byte, not clamped:
/// for v = 1000 it wraps to 300 mod 256 = 44.
#[test]
fn gradient_channel_wraps_instead_of_clamping() {
    assert_eq!(gradient_channel(0), 0);
    assert_eq!(gradient_channel(1), 0);
    assert_eq!(gradient_channel(10), 3);
    assert_eq!(gradient_channel(799), 239);
    assert_eq!(gradient_channel(1000), 44);
    assert_eq!(gradient_channel(860), 2);
}

/// The corner pixel of the 800 x 800 canvas starts at z = (-1.5, -1.5),
/// whose magnitude 2.12 already exceeds 2.0, so its green count is 0.
#[test]
fn fractal_corner_pixel_escapes_at_once() {
    assert_eq!(fractal_pixel(0, 0, 800, 800), Rgb { r: 0, g: 0, b: 0 });
    assert_eq!(fractal_pixel(799, 0, 800, 800), Rgb { r: 239, g: 0, b: 0 });
}

/// Reference iteration, written directly over hardware floats: the point of
/// the centre pixel is (0, 0), its orbit under z := z * z + c stays inside
/// the escape disc for the first ten steps, then escapes on step 26, so the
/// centre pixel's green channel is 26.
#[test]
fn fractal_centre_orbit_follows_the_reference_sequence() {
    let c = num_complex::Complex32::new(-0.4, 0.6);
    let mut z = num_complex::Complex32::new(0.0, 0.0);
    for _ in 0..10 {
        z = z * z + c;
        assert!(libm::hypotf(z.re, z.im) <= 2.0);
    }
    let mut z = num_complex::Complex32::new(0.0, 0.0);
    let mut green: u32 = 0;
    while green < 255 && libm::hypotf(z.re, z.im) <= 2.0 {
        z = z * z + c;
        green += 1;
    }
    assert_eq!(green, 26);
    let p = fractal_pixel(400, 400, 800, 800);
    assert_eq!(p.g, 26);
    assert_eq!(p.r, 120);
    assert_eq!(p.b, 120);
}

/// The library's pixels agree with a reference computation of the whole
/// algorithm over hardware floats. This fails if any trusted arithmetic
/// wrapper handed an argument back unchanged.
#[test]
fn fractal_pixels_match_reference_computation() {
    let samples: [(u32, u32); 5] = [(123, 456), (50, 700), (400, 100), (211, 373), (799, 799)];
    for (x, y) in samples {
        let scale_x = 3.0f32 / 800.0f32;
        let scale_y = 3.0f32 / 800.0f32;
        let cx = y as f32 * scale_x - 1.5;
        let cy = x as f32 * scale_y - 1.5;
        let c = num_complex::Complex32::new(-0.4, 0.6);
        let mut z = num_complex::Complex32::new(cx, cy);
        let mut green: u32 = 0;
        while green < 255 && libm::hypotf(z.re, z.im) <= 2.0 {
            z = z * z + c;
            green += 1;
        }
        let expected = Rgb {
            r: ((3 * x / 10) % 256) as u8,
            g: green as u8,
            b: ((3 * y / 10) % 256) as u8,
        };
        assert_eq!(fractal_pixel(x, y, 800, 800), expected);
    }
}

/// Two renders of the same canvas are byte-identical, and every pixel of
/// the buffer equals the per-pixel function: nothing is left unassigned.
#[test]
fn fractal_render_is_deterministic_and_complete() {
    let a = render_fractal(64, 48);
    let b = render_fractal(64, 48);
    assert_eq!(a.width, 64);
    assert_eq!(a.height, 48);
    assert_eq!(a.data.len(), 64 * 48);
    assert_eq!(a.data, b.data);
    for (x, y) in [(5u32, 9u32), (0, 0), (63, 47), (31, 20)] {
        assert_eq!(a.get(x, y), fractal_pixel(x, y, 64, 48));
    }
}
