pub mod float_bits;
pub mod fractal;
pub mod pixel;
pub mod polar;
pub mod rng;
