use vstd::prelude::*;

verus! {

/// One pixel: three 8-bit channels, red, green, blue.
#[derive(Clone, Copy, Debug, PartialEq, Eq, Structural)]
pub struct Rgb {
    pub r: u8,
    pub g: u8,
    pub b: u8,
}

/// A width x height grid of RGB pixels, row-major, origin at the top left:
/// the pixel at column x of row y sits at index y * width + x.
pub struct PixelBuffer {
    pub width: u32,
    pub height: u32,
    pub data: Vec<Rgb>,
}

impl PixelBuffer {
    /// The buffer holds exactly one pixel per canvas coordinate.
    pub open spec fn wf(self) -> bool {
        self.data@.len() == self.width * self.height
    }

    /// Row-major pixel access.
    pub fn get(&self, x: u32, y: u32) -> (p: Rgb)
        requires
            self.wf(),
            x < self.width,
            y < self.height,
        ensures
            p == self.data@[y as int * self.width as int + x as int],
    {
        // Reading the length as a usize puts the row-major index, which is
        // smaller, below usize::MAX.
        let len = self.data.len();
        proof {
            assert((y as int) * (self.width as int) + (x as int) < (self.width as int) * (self.height as int))
                by (nonlinear_arith)
                requires
                    x < self.width,
                    y < self.height,
            ;
        }
        self.data[(y as usize) * (self.width as usize) + (x as usize)]
    }
}

} // verus!
