//! Why a conversion failed.
use vstd::prelude::*;

verus! {

/// Why a conversion failed.
#[derive(Clone, Copy, Debug, PartialEq, Eq, Structural)]
pub enum ConvertError {
    /// Width or height is zero.
    ZeroSize,
    /// The buffer does not hold four bytes for each of `width * height` pixels.
    LengthMismatch,
    /// The raster, once padded to multiples of 16, does not fit in memory.
    TooLarge,
    /// The resampler failed.
    Resample,
    /// The color quantizer failed, or handed back an inconsistent result.
    Quantize,
}

impl ConvertError {
    /// A short description of the error.
    pub fn message(&self) -> (r: &'static str) {
        match self {
            ConvertError::ZeroSize => "width and height must be at least 1",
            ConvertError::LengthMismatch => "buffer length is not 4 * width * height",
            ConvertError::TooLarge => "padded image does not fit in memory",
            ConvertError::Resample => "resampling failed",
            ConvertError::Quantize => "color quantization failed",
        }
    }
}

} // verus!
