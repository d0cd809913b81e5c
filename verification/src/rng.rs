use rand::Rng;
use vstd::prelude::*;

use crate::pixel::Rgb;
use crate::polar::{TrigTemplate, BITS_1_0, BITS_5_0};

verus! {

// The polar pattern's parameters are drawn from the thread-local random
// generator: one of the three templates, an amplitude a1 uniform over
// [1.0, 5.0), and an accent colour of three bytes from [1, 255]. The draws
// come through trusted wrappers that state only the ranges the generator
// documents; everything built from them is verified for every outcome.

#[verifier::external_type_specification]
#[verifier::external_body]
pub struct ExThreadRng(rand::rngs::ThreadRng);

/// Relies on `rand::Rng::gen_range` over `1..=3u8`: the draw lies in that
/// inclusive range.
#[verifier::external_body]
fn draw_template_selector(rng: &mut rand::rngs::ThreadRng) -> (s: u8)
    ensures
        1 <= s <= 3,
{
    rng.gen_range(1u8..=3u8)
}

/// Relies on `rand::Rng::gen` for `u32`: one word of entropy, of which
/// nothing is assumed.
#[verifier::external_body]
fn draw_entropy_word(rng: &mut rand::rngs::ThreadRng) -> (e: u32) {
    rng.gen()
}

/// Relies on `rand::Rng::gen_range` over `1..=255u8`: the draw lies in that
/// inclusive range, so an accent channel is never zero.
#[verifier::external_body]
fn draw_accent_channel(rng: &mut rand::rngs::ThreadRng) -> (c: u8)
    ensures
        1 <= c,
{
    rng.gen_range(1u8..=255u8)
}

/// Maps a selector from 1..=3 to its template curve.
pub open spec fn template_of_selector_spec(s: int) -> TrigTemplate {
    if s == 1 {
        TrigTemplate::Cosine
    } else if s == 2 {
        TrigTemplate::Sine
    } else {
        TrigTemplate::Tangent
    }
}

/// Dispatches a drawn selector to its template curve.
pub fn template_of_selector(s: u8) -> (t: TrigTemplate)
    requires
        1 <= s <= 3,
    ensures
        t == template_of_selector_spec(s as int),
{
    if s == 1 {
        TrigTemplate::Cosine
    } else if s == 2 {
        TrigTemplate::Sine
    } else {
        TrigTemplate::Tangent
    }
}

/// The bit pattern of 1 + 4 * (m / 2^23), where m is the 23 high bits of
/// the entropy word: the 2^23 evenly spaced values of [1.0, 5.0). The three
/// arms cover the binades [1, 2), [2, 4) and [4, 5).
pub open spec fn amplitude_bits_spec(e: u32) -> u32 {
    let m = e >> 9;
    if m < 0x20_0000 {
        0x3F80_0000 | (m << 2)
    } else if m < 0x60_0000 {
        0x4000_0000 | (((m - 0x20_0000) as u32) << 1)
    } else {
        0x4080_0000 | ((m - 0x60_0000) as u32)
    }
}

/// Builds the amplitude pattern from an entropy word: exactly the evenly
/// spaced grid of `amplitude_bits_spec`, hit uniformly when the entropy is
/// uniform.
pub fn amplitude_from_entropy(e: u32) -> (a1: u32)
    ensures
        a1 == amplitude_bits_spec(e),
        BITS_1_0 <= a1 < BITS_5_0,
{
    let m = e >> 9;
    proof {
        assert(e >> 9 < 0x80_0000u32) by (bit_vector);
    }
    if m < 0x20_0000 {
        proof {
            assert(m < 0x20_0000 ==> 0x3F80_0000u32 <= (0x3F80_0000u32 | (m << 2)) < 0x4000_0000u32)
                by (bit_vector);
        }
        0x3F80_0000 | (m << 2)
    } else if m < 0x60_0000 {
        proof {
            assert(0x20_0000u32 <= m < 0x60_0000 ==> 0x4000_0000u32 <= (0x4000_0000u32 | (((m
                - 0x20_0000) as u32) << 1)) < 0x4080_0000u32) by (bit_vector);
        }
        0x4000_0000 | ((m - 0x20_0000) << 1)
    } else {
        proof {
            assert(0x60_0000u32 <= m < 0x80_0000 ==> 0x4080_0000u32 <= (0x4080_0000u32 | ((m
                - 0x60_0000) as u32)) < 0x40A0_0000u32) by (bit_vector);
        }
        0x4080_0000 | (m - 0x60_0000)
    }
}

/// The randomly drawn inputs of one polar render: the template curve, the
/// amplitude a1 and the accent colour.
#[derive(Clone, Copy, Debug)]
pub struct PolarParams {
    pub template: TrigTemplate,
    pub a1: u32,
    pub accent: Rgb,
}

impl PolarParams {
    /// The amplitude lies in [1.0, 5.0) and no accent channel is zero.
    pub open spec fn wf(self) -> bool {
        &&& BITS_1_0 <= self.a1 < BITS_5_0
        &&& self.accent.r >= 1
        &&& self.accent.g >= 1
        &&& self.accent.b >= 1
    }
}

/// Draws the parameters of one polar render from the thread-local
/// generator: a template chosen among the three, an amplitude uniform over
/// [1.0, 5.0), and an accent colour of three bytes from [1, 255].
pub fn draw_polar_params(rng: &mut rand::rngs::ThreadRng) -> (p: PolarParams)
    ensures
        p.wf(),
{
    let s = draw_template_selector(rng);
    let template = template_of_selector(s);
    let a1 = amplitude_from_entropy(draw_entropy_word(rng));
    let accent = Rgb {
        r: draw_accent_channel(rng),
        g: draw_accent_channel(rng),
        b: draw_accent_channel(rng),
    };
    PolarParams { template, a1, accent }
}

} // verus!
