use vstd::prelude::*;

use crate::float_bits::{f32_div, f32_hypot, f32_le, f32_mul, f32_of_i32, f32_sub};
use crate::float_bits::{f32_div_bits, f32_mul_bits, f32_of_i32_bits, f32_sub_bits, hypot_bits, le_bits};
use crate::pixel::{PixelBuffer, Rgb};

verus! {

// The escape-time fractal: every pixel of the canvas is mapped to a point
// of the complex plane, the quadratic map z := z * z + c is iterated until
// the orbit leaves the disc of radius 2 or 255 iterations have run, and the
// iteration count becomes the green channel. Red and blue form a positional
// gradient. The whole computation is a function of the pixel coordinates
// and the canvas size alone, so the buffer is pinned bit for bit.

/// Bit pattern of the real part of the iteration constant c, -0.4.
pub const FRACTAL_C_RE: u32 = 0xBECC_CCCD;

/// Bit pattern of the imaginary part of the iteration constant c, 0.6.
pub const FRACTAL_C_IM: u32 = 0x3F19_999A;

/// Bit pattern of 3.0, the width of the complex window the canvas spans.
pub const BITS_3_0: u32 = 0x4040_0000;

/// Bit pattern of 1.5, the offset that centres the complex window.
pub const BITS_1_5: u32 = 0x3FC0_0000;

/// Bit pattern of 2.0, the escape radius.
pub const BITS_2_0: u32 = 0x4000_0000;

/// The pattern pair of the product of two complex numbers given as
/// (real, imaginary) bit-pattern pairs.
pub uninterp spec fn complex_mul_bits(ar: u32, ai: u32, br: u32, bi: u32) -> (u32, u32);

/// The pattern pair of the sum of two complex numbers given as
/// (real, imaginary) bit-pattern pairs.
pub uninterp spec fn complex_add_bits(ar: u32, ai: u32, br: u32, bi: u32) -> (u32, u32);

/// Relies on `num_complex::Complex32` multiplication:
/// (a+bi)(c+di) = (ac-bd) + (ad+bc)i over IEEE single-precision
/// operations, hence a function of the operand bit patterns alone.
#[verifier::external_body]
fn complex_mul(ar: u32, ai: u32, br: u32, bi: u32) -> (r: (u32, u32))
    ensures
        r == complex_mul_bits(ar, ai, br, bi),
{
    let a = num_complex::Complex32::new(bytemuck::cast(ar), bytemuck::cast(ai));
    let b = num_complex::Complex32::new(bytemuck::cast(br), bytemuck::cast(bi));
    let c = a * b;
    (bytemuck::cast(c.re), bytemuck::cast(c.im))
}

/// Relies on `num_complex::Complex32` addition: component-wise IEEE
/// single-precision sums, hence a function of the operand bit patterns alone.
#[verifier::external_body]
fn complex_add(ar: u32, ai: u32, br: u32, bi: u32) -> (r: (u32, u32))
    ensures
        r == complex_add_bits(ar, ai, br, bi),
{
    let a = num_complex::Complex32::new(bytemuck::cast(ar), bytemuck::cast(ai));
    let b = num_complex::Complex32::new(bytemuck::cast(br), bytemuck::cast(bi));
    let c = a + b;
    (bytemuck::cast(c.re), bytemuck::cast(c.im))
}

/// One step of the iteration: z * z + c, on bit-pattern pairs.
pub open spec fn step_bits(zr: u32, zi: u32, cr: u32, ci: u32) -> (u32, u32) {
    let m = complex_mul_bits(zr, zi, zr, zi);
    complex_add_bits(m.0, m.1, cr, ci)
}

/// The orbit has escaped when its magnitude no longer compares at or below
/// 2.0; a NaN magnitude compares false and therefore counts as escaped.
pub open spec fn escaped_bits(zr: u32, zi: u32) -> bool {
    !le_bits(hypot_bits(zr, zi), BITS_2_0)
}

/// The n-th iterate of z := z * z + c starting from (zr, zi).
pub open spec fn iterate_bits(zr: u32, zi: u32, cr: u32, ci: u32, n: nat) -> (u32, u32)
    decreases n,
{
    if n == 0 {
        (zr, zi)
    } else {
        let p = iterate_bits(zr, zi, cr, ci, (n - 1) as nat);
        step_bits(p.0, p.1, cr, ci)
    }
}

/// The number of iteration steps taken before the orbit escapes, capped at
/// `fuel`: 0 when the start has already escaped, `fuel` when the orbit stays
/// bounded that long.
pub open spec fn escape_count(zr: u32, zi: u32, cr: u32, ci: u32, fuel: nat) -> nat
    decreases fuel,
{
    if fuel == 0 || escaped_bits(zr, zi) {
        0
    } else {
        let s = step_bits(zr, zi, cr, ci);
        1 + escape_count(s.0, s.1, cr, ci, (fuel - 1) as nat)
    }
}

/// The escape count never exceeds its fuel: with fuel 255 it lies in [0, 255].
pub proof fn lemma_escape_count_in_range(zr: u32, zi: u32, cr: u32, ci: u32, fuel: nat)
    ensures
        escape_count(zr, zi, cr, ci, fuel) <= fuel,
    decreases fuel,
{
    if fuel > 0 && !escaped_bits(zr, zi) {
        let s = step_bits(zr, zi, cr, ci);
        lemma_escape_count_in_range(s.0, s.1, cr, ci, (fuel - 1) as nat);
    }
}

/// Unrolling the iteration from the front: the (k+1)-th iterate of z is the
/// k-th iterate of z's successor.
proof fn lemma_iterate_shift(zr: u32, zi: u32, cr: u32, ci: u32, k: nat)
    ensures
        iterate_bits(zr, zi, cr, ci, k + 1) == {
            let s = step_bits(zr, zi, cr, ci);
            iterate_bits(s.0, s.1, cr, ci, k)
        },
    decreases k,
{
    let s = step_bits(zr, zi, cr, ci);
    if k == 0 {
        assert(iterate_bits(zr, zi, cr, ci, 1) == step_bits(zr, zi, cr, ci)) by {
            reveal_with_fuel(iterate_bits, 2);
        }
        assert(iterate_bits(s.0, s.1, cr, ci, 0) == (s.0, s.1));
        assert((s.0, s.1) =~= s);
    } else {
        lemma_iterate_shift(zr, zi, cr, ci, (k - 1) as nat);
        assert(iterate_bits(zr, zi, cr, ci, k + 1) == {
            let p = iterate_bits(zr, zi, cr, ci, ((k + 1) - 1) as nat);
            step_bits(p.0, p.1, cr, ci)
        });
        assert(iterate_bits(zr, zi, cr, ci, k) == iterate_bits(s.0, s.1, cr, ci, (k - 1) as nat));
    }
}

/// The escape count reaches its cap exactly when no iterate within the cap
/// has escaped.
pub proof fn lemma_escape_count_saturates_iff(zr: u32, zi: u32, cr: u32, ci: u32, fuel: nat)
    ensures
        escape_count(zr, zi, cr, ci, fuel) == fuel <==> (forall|k: nat|
            k < fuel ==> !{
                let p = #[trigger] iterate_bits(zr, zi, cr, ci, k);
                escaped_bits(p.0, p.1)
            }),
    decreases fuel,
{
    if fuel == 0 {
        return;
    }
    if escaped_bits(zr, zi) {
        assert(iterate_bits(zr, zi, cr, ci, 0) == (zr, zi));
        assert(escape_count(zr, zi, cr, ci, fuel) == 0);
    } else {
        let s = step_bits(zr, zi, cr, ci);
        lemma_escape_count_saturates_iff(s.0, s.1, cr, ci, (fuel - 1) as nat);
        lemma_escape_count_in_range(s.0, s.1, cr, ci, (fuel - 1) as nat);
        if escape_count(s.0, s.1, cr, ci, (fuel - 1) as nat) == fuel - 1 {
            assert forall|k: nat| k < fuel implies !{
                let p = #[trigger] iterate_bits(zr, zi, cr, ci, k);
                escaped_bits(p.0, p.1)
            } by {
                if k > 0 {
                    lemma_iterate_shift(zr, zi, cr, ci, (k - 1) as nat);
                    assert(iterate_bits(zr, zi, cr, ci, k)
                        == iterate_bits(s.0, s.1, cr, ci, (k - 1) as nat));
                }
            }
        } else {
            let j: nat = choose|j: nat|
                j < fuel - 1 && {
                    let p = #[trigger] iterate_bits(s.0, s.1, cr, ci, j);
                    escaped_bits(p.0, p.1)
                };
            lemma_iterate_shift(zr, zi, cr, ci, j);
            assert(iterate_bits(zr, zi, cr, ci, j + 1)
                == iterate_bits(s.0, s.1, cr, ci, j));
        }
    }
}

/// The escape count is the index of the first escaped iterate: every
/// earlier iterate is bounded, and when the count falls short of its cap
/// the iterate it points at has escaped.
pub proof fn lemma_escape_count_stops_at_first_escape(
    zr: u32,
    zi: u32,
    cr: u32,
    ci: u32,
    fuel: nat,
)
    ensures
        ({
            let n = escape_count(zr, zi, cr, ci, fuel);
            &&& forall|k: nat|
                k < n ==> !{
                    let p = #[trigger] iterate_bits(zr, zi, cr, ci, k);
                    escaped_bits(p.0, p.1)
                }
            &&& n < fuel ==> {
                let p = iterate_bits(zr, zi, cr, ci, n);
                escaped_bits(p.0, p.1)
            }
        }),
    decreases fuel,
{
    let n = escape_count(zr, zi, cr, ci, fuel);
    if fuel == 0 {
        return;
    }
    if escaped_bits(zr, zi) {
        assert(iterate_bits(zr, zi, cr, ci, 0) == (zr, zi));
    } else {
        let s = step_bits(zr, zi, cr, ci);
        lemma_escape_count_stops_at_first_escape(s.0, s.1, cr, ci, (fuel - 1) as nat);
        let m = escape_count(s.0, s.1, cr, ci, (fuel - 1) as nat);
        assert forall|k: nat| k < n implies !{
            let p = #[trigger] iterate_bits(zr, zi, cr, ci, k);
            escaped_bits(p.0, p.1)
        } by {
            if k > 0 {
                lemma_iterate_shift(zr, zi, cr, ci, (k - 1) as nat);
                assert(iterate_bits(zr, zi, cr, ci, k)
                    == iterate_bits(s.0, s.1, cr, ci, (k - 1) as nat));
            }
        }
        if n < fuel {
            lemma_iterate_shift(zr, zi, cr, ci, m);
            assert(iterate_bits(zr, zi, cr, ci, m + 1)
                == iterate_bits(s.0, s.1, cr, ci, m));
        }
    }
}

/// Runs z := z * z + c from (zr0, zi0) while the magnitude stays at or
/// below 2.0, at most 255 times, and returns the number of steps taken.
pub fn escape_iterations(zr0: u32, zi0: u32, cr: u32, ci: u32) -> (green: u8)
    ensures
        green as nat == escape_count(zr0, zi0, cr, ci, 255),
{
    let mut zr = zr0;
    let mut zi = zi0;
    let mut green: u8 = 0;
    let m0 = f32_hypot(zr, zi);
    let mut bounded = f32_le(m0, BITS_2_0);
    while green < 255 && bounded
        invariant
            green <= 255,
            (zr, zi) == iterate_bits(zr0, zi0, cr, ci, green as nat),
            bounded == !escaped_bits(zr, zi),
            escape_count(zr0, zi0, cr, ci, 255) == green + escape_count(
                zr,
                zi,
                cr,
                ci,
                (255 - green) as nat,
            ),
        decreases 255 - green,
    {
        let m = complex_mul(zr, zi, zr, zi);
        let s = complex_add(m.0, m.1, cr, ci);
        proof {
            assert(step_bits(zr, zi, cr, ci) == complex_add_bits(
                complex_mul_bits(zr, zi, zr, zi).0,
                complex_mul_bits(zr, zi, zr, zi).1,
                cr,
                ci,
            ));
        }
        zr = s.0;
        zi = s.1;
        green = green + 1;
        let m = f32_hypot(zr, zi);
        bounded = f32_le(m, BITS_2_0);
    }
    proof {
        if green < 255 {
            assert(escape_count(zr, zi, cr, ci, (255 - green) as nat) == 0);
        }
    }
    green
}

/// A gradient channel: three tenths of the coordinate, rounded down, wrapped
/// into a byte. Wrapping, not clamping: a coordinate of 1000 gives 44.
pub open spec fn gradient_channel_spec(v: int) -> int {
    ((3 * v) / 10) % 256
}

/// Computes the positional gradient channel for one coordinate.
pub fn gradient_channel(v: u32) -> (c: u8)
    ensures
        c == gradient_channel_spec(v as int),
{
    (((3 * (v as u64)) / 10) % 256) as u8
}

/// Bit pattern of the scale factor 3.0 / d mapping pixels to the plane.
pub open spec fn scale_bits(d: int) -> u32 {
    f32_div_bits(BITS_3_0, f32_of_i32_bits(d))
}

/// Real part of the plane point for a pixel: its row, scaled by the width's
/// scale factor, shifted left by 1.5. The axis swap (the row drives the real
/// part, against the width's scale) is part of the rendered picture.
pub open spec fn z0_re_bits(y: int, width: int) -> u32 {
    f32_sub_bits(f32_mul_bits(f32_of_i32_bits(y), scale_bits(width)), BITS_1_5)
}

/// Imaginary part of the plane point for a pixel: its column, scaled by the
/// height's scale factor, shifted by 1.5.
pub open spec fn z0_im_bits(x: int, height: int) -> u32 {
    f32_sub_bits(f32_mul_bits(f32_of_i32_bits(x), scale_bits(height)), BITS_1_5)
}

/// The green channel: how many iteration steps the pixel's orbit survives,
/// capped at 255.
pub open spec fn fractal_green_spec(x: int, y: int, width: int, height: int) -> nat {
    escape_count(z0_re_bits(y, width), z0_im_bits(x, height), FRACTAL_C_RE, FRACTAL_C_IM, 255)
}

/// The full colour of the fractal pixel at (x, y).
pub open spec fn fractal_pixel_spec(x: int, y: int, width: int, height: int) -> Rgb {
    Rgb {
        r: gradient_channel_spec(x) as u8,
        g: fractal_green_spec(x, y, width, height) as u8,
        b: gradient_channel_spec(y) as u8,
    }
}

/// Computes the fractal colour of the pixel at (x, y) on a width x height
/// canvas.
pub fn fractal_pixel(x: u32, y: u32, width: u32, height: u32) -> (p: Rgb)
    requires
        x <= i32::MAX,
        y <= i32::MAX,
        width <= i32::MAX,
        height <= i32::MAX,
    ensures
        p == fractal_pixel_spec(x as int, y as int, width as int, height as int),
{
    let sx = f32_div(BITS_3_0, f32_of_i32(width as i32));
    let sy = f32_div(BITS_3_0, f32_of_i32(height as i32));
    let zr0 = f32_sub(f32_mul(f32_of_i32(y as i32), sx), BITS_1_5);
    let zi0 = f32_sub(f32_mul(f32_of_i32(x as i32), sy), BITS_1_5);
    let green = escape_iterations(zr0, zi0, FRACTAL_C_RE, FRACTAL_C_IM);
    proof {
        lemma_escape_count_in_range(zr0, zi0, FRACTAL_C_RE, FRACTAL_C_IM, 255);
    }
    Rgb { r: gradient_channel(x), g: green, b: gradient_channel(y) }
}

/// The buffer holds exactly the fractal image of the given dimensions.
pub open spec fn fractal_rendered(buf: PixelBuffer, width: int, height: int) -> bool {
    &&& buf.width == width
    &&& buf.height == height
    &&& buf.data@.len() == width * height
    &&& forall|x: int, y: int|
        0 <= x < width && 0 <= y < height ==> buf.data@[y * width + x]
            == #[trigger] fractal_pixel_spec(x, y, width, height)
}

/// Renders the escape-time fractal over a width x height canvas, row by row.
pub fn render_fractal(width: u32, height: u32) -> (buf: PixelBuffer)
    requires
        width <= i32::MAX,
        height <= i32::MAX,
        width * height <= usize::MAX,
    ensures
        buf.wf(),
        fractal_rendered(buf, width as int, height as int),
{
    let mut data: Vec<Rgb> = Vec::new();
    let mut y: u32 = 0;
    while y < height
        invariant
            y <= height,
            width <= i32::MAX,
            height <= i32::MAX,
            width * height <= usize::MAX,
            data@.len() == y * width,
            forall|xi: int, yi: int|
                0 <= xi < width && 0 <= yi < y ==> data@[yi * width + xi]
                    == #[trigger] fractal_pixel_spec(xi, yi, width as int, height as int),
        decreases height - y,
    {
        let mut x: u32 = 0;
        proof {
            assert((y + 1) * width == y * width + width) by (nonlinear_arith);
            assert(y * width + width <= width * height) by (nonlinear_arith)
                requires
                    y < height,
            ;
        }
        while x < width
            invariant
                x <= width,
                y < height,
                width <= i32::MAX,
                height <= i32::MAX,
                width * height <= usize::MAX,
                y * width + width <= width * height,
                data@.len() == y * width + x,
                forall|xi: int, yi: int|
                    0 <= xi < width && 0 <= yi < y ==> data@[yi * width + xi]
                        == #[trigger] fractal_pixel_spec(xi, yi, width as int, height as int),
                forall|xi: int|
                    0 <= xi < x ==> data@[y * width + xi]
                        == #[trigger] fractal_pixel_spec(xi, y as int, width as int, height as int),
            decreases width - x,
        {
            let p = fractal_pixel(x, y, width, height);
            data.push(p);
            x = x + 1;
            proof {
                assert forall|xi: int, yi: int|
                    0 <= xi < width && 0 <= yi < y implies data@[yi * width + xi]
                    == #[trigger] fractal_pixel_spec(xi, yi, width as int, height as int) by {
                    assert(yi * width + xi < y * width) by (nonlinear_arith)
                        requires
                            0 <= xi < width,
                            0 <= yi < y,
                    ;
                }
            }
        }
        y = y + 1;
    }
    proof {
        assert(height * width == width * height) by (nonlinear_arith);
    }
    PixelBuffer { width, height, data }
}

/// The fractal is deterministic: two buffers that both hold the fractal
/// image of the same dimensions agree pixel for pixel.
pub proof fn lemma_fractal_deterministic(a: PixelBuffer, b: PixelBuffer, width: int, height: int)
    requires
        fractal_rendered(a, width, height),
        fractal_rendered(b, width, height),
    ensures
        a.width == b.width,
        a.height == b.height,
        a.data@ =~= b.data@,
{
    assert forall|i: int| 0 <= i < a.data@.len() implies a.data@[i] == b.data@[i] by {
        assert(width > 0 && height > 0) by (nonlinear_arith)
            requires
                0 <= width,
                0 <= height,
                0 < width * height,
        ;
        vstd::arithmetic::div_mod::lemma_mod_bound(i, width);
        vstd::arithmetic::div_mod::lemma_multiply_divide_lt(i, width, height);
        vstd::arithmetic::div_mod::lemma_fundamental_div_mod(i, width);
        let xi = i % width;
        let yi = i / width;
        assert(yi * width + xi == i);
        assert(a.data@[yi * width + xi] == fractal_pixel_spec(xi, yi, width, height));
        assert(b.data@[yi * width + xi] == fractal_pixel_spec(xi, yi, width, height));
    }
}

} // verus!

