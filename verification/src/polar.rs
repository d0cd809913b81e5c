use vstd::prelude::*;

use crate::float_bits::{f32_atan, f32_cos, f32_div, f32_mul, f32_of_i32, f32_sin, f32_sub, f32_tan};
use crate::float_bits::{abs_bits, f32_sub_bits, is_nan_bits, lt_bits};
use crate::float_bits::{atan_bits, cos_bits, f32_div_bits, f32_mul_bits, f32_of_i32_bits, sin_bits, tan_bits};
use crate::float_bits::{f32_abs, f32_lt};
use crate::float_bits::lemma_abs_keeps_nan;
use crate::pixel::{PixelBuffer, Rgb};

verus! {

// The polar pattern: every pixel is recentred on the canvas midpoint
// (400, 400), read as a pseudo-polar angle and radius, and compared against
// a template curve 400 * trig(a1 * angle). A pixel within tolerance 5.0 of
// the curve gets the accent colour, every other pixel the base colour.
// Both recentred coordinates are gated on the column alone; that asymmetry
// is part of the rendered picture and is kept as it is.

/// Bit pattern of 400.0, the template curve's amplitude.
pub const BITS_400_0: u32 = 0x43C8_0000;

/// Bit pattern of 5.0, the on-curve match tolerance.
pub const BITS_5_0: u32 = 0x40A0_0000;

/// Bit pattern of 1.0, the lower bound of the amplitude parameter a1.
pub const BITS_1_0: u32 = 0x3F80_0000;

/// The three template curves a pixel can be held against.
#[derive(Clone, Copy, Debug, PartialEq, Eq, Structural)]
pub enum TrigTemplate {
    Cosine,
    Sine,
    Tangent,
}

/// The recentred column: at most 0, whichever side of the midpoint.
pub open spec fn recenter_x_spec(x: int) -> int {
    if x <= 400 {
        x - 400
    } else {
        400 - x
    }
}

/// The recentred row, gated on the column, not the row.
pub open spec fn recenter_y_spec(x: int, y: int) -> int {
    if x <= 400 {
        y - 400
    } else {
        400 - y
    }
}

/// Recentres a pixel coordinate on the canvas midpoint (400, 400).
pub fn recenter(x: u32, y: u32) -> (c: (i32, i32))
    requires
        x <= i32::MAX,
        y <= i32::MAX,
    ensures
        c.0 == recenter_x_spec(x as int),
        c.1 == recenter_y_spec(x as int, y as int),
{
    if x <= 400 {
        ((x as i32) - 400, (y as i32) - 400)
    } else {
        (400 - (x as i32), 400 - (y as i32))
    }
}

/// A pixel is on the curve when |r_c - radius| compares strictly below 5.0.
pub open spec fn on_curve_bits(r_c: u32, radius: u32) -> bool {
    lt_bits(abs_bits(f32_sub_bits(r_c, radius)), BITS_5_0)
}

/// Decides whether a pixel lies on the template curve. A NaN radius fails
/// the comparison and always classifies as background.
pub fn classify_on_curve(r_c: u32, radius: u32) -> (on: bool)
    ensures
        on == on_curve_bits(r_c, radius),
        is_nan_bits(radius) ==> !on,
{
    let d = f32_sub(r_c, radius);
    proof {
        lemma_abs_keeps_nan(d);
    }
    f32_lt(f32_abs(d), BITS_5_0)
}

/// The pseudo-polar angle of a recentred pixel: atan of the ratio of the
/// recentred coordinates. At (0, 0) the ratio is 0/0, a NaN, and the angle
/// follows it.
pub open spec fn angle_bits_spec(x_: int, y_: int) -> u32 {
    atan_bits(f32_div_bits(f32_of_i32_bits(y_), f32_of_i32_bits(x_)))
}

/// The pseudo-polar radius: the recentred column over the cosine of the
/// angle.
pub open spec fn radius_bits_spec(x_: int, y_: int) -> u32 {
    f32_div_bits(f32_of_i32_bits(x_), cos_bits(angle_bits_spec(x_, y_)))
}

/// The value of the chosen trigonometric template at an angle pattern.
pub open spec fn template_value_bits(template: TrigTemplate, a: u32) -> u32 {
    match template {
        TrigTemplate::Cosine => cos_bits(a),
        TrigTemplate::Sine => sin_bits(a),
        TrigTemplate::Tangent => tan_bits(a),
    }
}

/// The template radius 400 * trig(a1 * angle).
pub open spec fn template_radius_spec(template: TrigTemplate, a1: u32, angle: u32) -> u32 {
    f32_mul_bits(BITS_400_0, template_value_bits(template, f32_mul_bits(a1, angle)))
}

/// Evaluates the template radius 400 * trig(a1 * angle).
fn template_radius(template: TrigTemplate, a1: u32, angle: u32) -> (r_c: u32)
    ensures
        r_c == template_radius_spec(template, a1, angle),
{
    let t = f32_mul(a1, angle);
    let tv = match template {
        TrigTemplate::Cosine => f32_cos(t),
        TrigTemplate::Sine => f32_sin(t),
        TrigTemplate::Tangent => f32_tan(t),
    };
    f32_mul(BITS_400_0, tv)
}

/// The colour of the polar-pattern pixel at (x, y): accent when the pixel
/// lies on the template curve, base otherwise.
pub open spec fn polar_pixel_spec(
    x: int,
    y: int,
    template: TrigTemplate,
    a1: u32,
    base: Rgb,
    accent: Rgb,
) -> Rgb {
    let x_ = recenter_x_spec(x);
    let y_ = recenter_y_spec(x, y);
    let angle = angle_bits_spec(x_, y_);
    if on_curve_bits(template_radius_spec(template, a1, angle), radius_bits_spec(x_, y_)) {
        accent
    } else {
        base
    }
}

/// Computes one pixel of the polar pattern. At the exact midpoint both
/// recentred coordinates are zero, the angle and the radius degenerate to
/// NaN, and the pixel falls to the base colour.
pub fn polar_pixel(x: u32, y: u32, template: TrigTemplate, a1: u32, base: Rgb, accent: Rgb) -> (p:
    Rgb)
    requires
        x <= i32::MAX,
        y <= i32::MAX,
        BITS_1_0 <= a1 < BITS_5_0,
    ensures
        p == polar_pixel_spec(x as int, y as int, template, a1, base, accent),
        p == base || p == accent,
        x == 400 && y == 400 ==> p == base,
{
    let (x_, y_) = recenter(x, y);
    let xb = f32_of_i32(x_);
    let yb = f32_of_i32(y_);
    let angle = f32_atan(f32_div(yb, xb));
    let radius = f32_div(xb, f32_cos(angle));
    let r_c = template_radius(template, a1, angle);
    if classify_on_curve(r_c, radius) {
        accent
    } else {
        base
    }
}

/// The buffer holds exactly the polar pattern of the given inputs: every
/// pixel wears the colour the per-pixel function gives it, so every pixel
/// wears one of the two colours, and the canvas midpoint wears the base.
pub open spec fn polar_rendered(
    buf: PixelBuffer,
    width: int,
    height: int,
    template: TrigTemplate,
    a1: u32,
    base: Rgb,
    accent: Rgb,
) -> bool {
    &&& buf.width == width
    &&& buf.height == height
    &&& buf.data@.len() == width * height
    &&& forall|x: int, y: int|
        0 <= x < width && 0 <= y < height ==> buf.data@[y * width + x]
            == #[trigger] polar_pixel_spec(x, y, template, a1, base, accent)
    &&& forall|i: int| 0 <= i < width * height ==> #[trigger] buf.data@[i] == base || buf.data@[i]
        == accent
    &&& 400 < width && 400 < height ==> buf.data@[400 * width + 400] == base
}

/// Renders the polar pattern over a width x height canvas, row by row.
pub fn render_polar(width: u32, height: u32, base: Rgb, template: TrigTemplate, a1: u32, accent: Rgb)
    -> (buf: PixelBuffer)
    requires
        width <= i32::MAX,
        height <= i32::MAX,
        width * height <= usize::MAX,
        BITS_1_0 <= a1 < BITS_5_0,
    ensures
        buf.wf(),
        polar_rendered(buf, width as int, height as int, template, a1, base, accent),
{
    let mut data: Vec<Rgb> = Vec::new();
    let mut y: u32 = 0;
    while y < height
        invariant
            y <= height,
            width <= i32::MAX,
            height <= i32::MAX,
            width * height <= usize::MAX,
            BITS_1_0 <= a1 < BITS_5_0,
            data@.len() == y * width,
            forall|xi: int, yi: int|
                0 <= xi < width && 0 <= yi < y ==> data@[yi * width + xi]
                    == #[trigger] polar_pixel_spec(xi, yi, template, a1, base, accent),
            forall|i: int| 0 <= i < data@.len() ==> #[trigger] data@[i] == base || data@[i]
                == accent,
            400 < width && 400 < y ==> data@[400 * width + 400] == base,
        decreases height - y,
    {
        let mut x: u32 = 0;
        proof {
            assert((y + 1) * width == y * width + width) by (nonlinear_arith);
            assert(y * width + width <= width * height) by (nonlinear_arith)
                requires
                    y < height,
            ;
            assert(400 < width && 400 < y ==> 400 * width + 400 < y * width) by (nonlinear_arith);
        }
        while x < width
            invariant
                x <= width,
                y < height,
                width <= i32::MAX,
                height <= i32::MAX,
                BITS_1_0 <= a1 < BITS_5_0,
                y * width + width <= width * height,
                400 < width && 400 < y ==> 400 * width + 400 < y * width,
                data@.len() == y * width + x,
                forall|xi: int, yi: int|
                    0 <= xi < width && 0 <= yi < y ==> data@[yi * width + xi]
                        == #[trigger] polar_pixel_spec(xi, yi, template, a1, base, accent),
                forall|xi: int|
                    0 <= xi < x ==> data@[y * width + xi]
                        == #[trigger] polar_pixel_spec(xi, y as int, template, a1, base, accent),
                forall|i: int| 0 <= i < data@.len() ==> #[trigger] data@[i] == base || data@[i]
                    == accent,
                400 < width && (400 < y || (y == 400 && 400 < x)) ==> data@[400 * width + 400]
                    == base,
            decreases width - x,
        {
            let p = polar_pixel(x, y, template, a1, base, accent);
            data.push(p);
            x = x + 1;
            proof {
                assert forall|xi: int, yi: int|
                    0 <= xi < width && 0 <= yi < y implies data@[yi * width + xi]
                    == #[trigger] polar_pixel_spec(xi, yi, template, a1, base, accent) by {
                    assert(yi * width + xi < y * width) by (nonlinear_arith)
                        requires
                            0 <= xi < width,
                            0 <= yi < y,
                    ;
                }
            }
        }
        y = y + 1;
    }
    proof {
        assert(height * width == width * height) by (nonlinear_arith);
    }
    PixelBuffer { width, height, data }
}

/// The polar pattern is deterministic: two buffers that both hold the
/// pattern of the same inputs agree pixel for pixel.
pub proof fn lemma_polar_deterministic(
    a: PixelBuffer,
    b: PixelBuffer,
    width: int,
    height: int,
    template: TrigTemplate,
    a1: u32,
    base: Rgb,
    accent: Rgb,
)
    requires
        polar_rendered(a, width, height, template, a1, base, accent),
        polar_rendered(b, width, height, template, a1, base, accent),
    ensures
        a.width == b.width,
        a.height == b.height,
        a.data@ =~= b.data@,
{
    assert forall|i: int| 0 <= i < a.data@.len() implies a.data@[i] == b.data@[i] by {
        assert(width > 0 && height > 0) by (nonlinear_arith)
            requires
                0 <= width,
                0 <= height,
                0 < width * height,
        ;
        vstd::arithmetic::div_mod::lemma_mod_bound(i, width);
        vstd::arithmetic::div_mod::lemma_multiply_divide_lt(i, width, height);
        vstd::arithmetic::div_mod::lemma_fundamental_div_mod(i, width);
        let xi = i % width;
        let yi = i / width;
        assert(yi * width + xi == i);
        assert(a.data@[yi * width + xi] == polar_pixel_spec(xi, yi, template, a1, base, accent));
        assert(b.data@[yi * width + xi] == polar_pixel_spec(xi, yi, template, a1, base, accent));
    }
}

} // verus!
