//! Render configuration: pixel dimensions, sampling rates and the size of
//! the worker pool, fixed for the lifetime of one render.
use vstd::prelude::*;

verus! {

/// Immutable settings of one render invocation.
#[derive(Clone, Copy, Debug)]
pub struct RenderConfig {
    /// Image width in pixels.
    pub width: u32,
    /// Image height in pixels; also the number of scanline tasks.
    pub height: u32,
    /// Upper bound on concurrently running row workers.
    pub tasks: u32,
    /// Independent primary-ray samples per subpixel cell.
    pub samples: u32,
    /// Supersampling grid factor per axis.
    pub super_samples: u32,
}

impl RenderConfig {
    /// Number of pixels of the output image.
    pub fn pixel_count(&self) -> (n: usize)
        requires
            self.width * self.height <= usize::MAX,
        ensures
            n == self.width * self.height,
    {
        (self.width as usize) * (self.height as usize)
    }

    /// Number of channel values of the output image: three per pixel.
    pub fn channel_count(&self) -> (n: usize)
        requires
            3 * self.width * self.height <= usize::MAX,
        ensures
            n == 3 * self.width * self.height,
    {
        proof {
            assert((self.width as int) * (self.height as int) <= 3 * (self.width as int) * (
            self.height as int) && 3 * ((self.width as int) * (self.height as int)) == 3 * (
            self.width as int) * (self.height as int)) by (nonlinear_arith);
        }
        3 * ((self.width as usize) * (self.height as usize))
    }
}

} // verus!
