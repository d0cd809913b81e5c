use pixelgen::pixel::Rgb;
use pixelgen::polar::{
    classify_on_curve, polar_pixel, recenter, render_polar, TrigTemplate, BITS_1_0, BITS_400_0,
    BITS_5_0,
};
use pixelgen::rng::{amplitude_from_entropy, draw_polar_params, template_of_selector};

const BASE: Rgb = Rgb { r: 10, g: 10, b: 10 };
const ACCENT: Rgb = Rgb { r: 200, g: 50, b: 50 };

/// The bit-pattern constants the polar contracts are stated over denote
/// exactly the numbers the algorithm calls for.
#[test]
fn polar_bit_constants_denote_their_numbers() {
    assert_eq!(BITS_400_0, 400.0f32.to_bits());
    assert_eq!(BITS_5_0, 5.0f32.to_bits());
    assert_eq!(BITS_1_0, 1.0f32.to_bits());
}

/// Both recentred coordinates are gated on the column alone.
#[test]
fn recenter_is_gated_on_the_column() {
    assert_eq!(recenter(0, 0), (-400, -400));
    assert_eq!(recenter(400, 500), (0, 100));
    assert_eq!(recenter(401, 100), (-1, 300));
    assert_eq!(recenter(799, 0), (-399, 400));
}

/// A NaN radius classifies as background, never on-curve.
#[test]
fn nan_radius_classifies_as_background() {
    assert!(!classify_on_curve(400.0f32.to_bits(), f32::NAN.to_bits()));
    assert!(!classify_on_curve(f32::NAN.to_bits(), 0.0f32.to_bits()));
    assert!(classify_on_curve(0.0f32.to_bits(), 3.0f32.to_bits()));
    assert!(!classify_on_curve(0.0f32.to_bits(), 6.0f32.to_bits()));
}

/// At the exact canvas midpoint both recentred coordinates are zero, the
/// ratio 0/0 is a NaN, the radius follows it, and the pixel is background.
#[test]
fn midpoint_pixel_is_background() {
    for template in [TrigTemplate::Cosine, TrigTemplate::Sine, TrigTemplate::Tangent] {
        let p = polar_pixel(400, 400, template, 2.0f32.to_bits(), BASE, ACCENT);
        assert_eq!(p, BASE);
    }
}

/// Reference computation for the corner pixel with the cosine template and
/// a1 = 2: x_ = y_ = -400, the angle is atan(1), the radius is
/// -400 / cos(atan(1)) = -565.7, while the template radius
/// 400 * cos(2 * atan(1)) is nearly zero; the difference is far above the
/// tolerance 5, so the corner is background.
#[test]
fn corner_pixel_with_cosine_template_is_background() {
    let angle = 1.0f32.atan();
    let radius = -400.0f32 / angle.cos();
    let r_c = 400.0f32 * (2.0f32 * angle).cos();
    assert!((r_c - radius).abs() >= 5.0);
    let p = polar_pixel(0, 0, TrigTemplate::Cosine, 2.0f32.to_bits(), BASE, ACCENT);
    assert_eq!(p, BASE);
}

/// On-curve pixels of each template wear the accent colour. Each case
/// fails if the matching trigonometric wrapper handed its argument back
/// unchanged.
#[test]
fn on_curve_pixels_wear_the_accent_colour() {
    // Sine, a1 = 1, pixel (200, 600): x_ = -200, y_ = 200, the radius is
    // -283 and so is 400 * sin(atan(-1)).
    let p = polar_pixel(200, 600, TrigTemplate::Sine, 1.0f32.to_bits(), BASE, ACCENT);
    assert_eq!(p, ACCENT);
    // Tangent, a1 = 1, pixel (220, 490): the radius is -201.2 and the
    // template radius 400 * tan(atan(-0.5)) = -200.
    let p = polar_pixel(220, 490, TrigTemplate::Tangent, 1.0f32.to_bits(), BASE, ACCENT);
    assert_eq!(p, ACCENT);
    // Cosine, a1 = 2, pixel (300, 716): the radius is -331.4 and the
    // template radius -327.2.
    let p = polar_pixel(300, 716, TrigTemplate::Cosine, 2.0f32.to_bits(), BASE, ACCENT);
    assert_eq!(p, ACCENT);
}

/// Every pixel of a polar render wears one of the two colours, and with
/// distinct non-zero colours no pixel is left at a zero default.
#[test]
fn polar_render_assigns_every_pixel() {
    let buf = render_polar(48, 40, BASE, TrigTemplate::Sine, 1.5f32.to_bits(), ACCENT);
    assert_eq!(buf.width, 48);
    assert_eq!(buf.height, 40);
    assert_eq!(buf.data.len(), 48 * 40);
    for p in &buf.data {
        assert!(*p == BASE || *p == ACCENT);
    }
}

/// Two polar renders with identical inputs are byte-identical, and the
/// buffer agrees with the per-pixel function.
#[test]
fn polar_render_is_deterministic() {
    let a = render_polar(40, 32, BASE, TrigTemplate::Tangent, 2.5f32.to_bits(), ACCENT);
    let b = render_polar(40, 32, BASE, TrigTemplate::Tangent, 2.5f32.to_bits(), ACCENT);
    assert_eq!(a.data, b.data);
    for (x, y) in [(0u32, 0u32), (17, 25), (39, 31)] {
        assert_eq!(
            a.get(x, y),
            polar_pixel(x, y, TrigTemplate::Tangent, 2.5f32.to_bits(), BASE, ACCENT)
        );
    }
}

/// A render that spans the midpoint puts the base colour there.
#[test]
fn polar_render_midpoint_is_base() {
    let buf = render_polar(410, 405, BASE, TrigTemplate::Cosine, 3.0f32.to_bits(), ACCENT);
    assert_eq!(buf.get(400, 400), BASE);
}

/// The amplitude construction reproduces 1 + 4 * (m / 2^23) exactly at the
/// ends and at a binade boundary.
#[test]
fn amplitude_from_entropy_hits_exact_values() {
    assert_eq!(amplitude_from_entropy(0), 1.0f32.to_bits());
    assert_eq!(amplitude_from_entropy(0x4000_0000), 2.0f32.to_bits());
    assert_eq!(amplitude_from_entropy(0x8000_0000), 3.0f32.to_bits());
    assert_eq!(amplitude_from_entropy(0xC000_0000), 4.0f32.to_bits());
    assert_eq!(amplitude_from_entropy(u32::MAX), 0x409F_FFFF);
    let v = f32::from_bits(amplitude_from_entropy(u32::MAX));
    assert!(4.0 < v && v < 5.0);
}

/// The selector dispatch: 1 is cosine, 2 is sine, 3 is tangent.
#[test]
fn template_selector_dispatch() {
    assert_eq!(template_of_selector(1), TrigTemplate::Cosine);
    assert_eq!(template_of_selector(2), TrigTemplate::Sine);
    assert_eq!(template_of_selector(3), TrigTemplate::Tangent);
}

/// Drawn parameters satisfy their documented ranges.
#[test]
fn drawn_parameters_lie_in_their_ranges() {
    let mut rng = rand::thread_rng();
    for _ in 0..32 {
        let p = draw_polar_params(&mut rng);
        let a1 = f32::from_bits(p.a1);
        assert!((1.0..5.0).contains(&a1));
        assert!(p.accent.r >= 1 && p.accent.g >= 1 && p.accent.b >= 1);
        assert!(matches!(
            p.template,
            TrigTemplate::Cosine | TrigTemplate::Sine | TrigTemplate::Tangent
        ));
    }
}
