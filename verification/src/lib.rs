//! Normalizes a decoded raster image to fixed square canvas sizes: a
//! proportional-fit sizing calculation, alpha flattening against white,
//! and constant-color border padding, together with the per-size pipeline
//! decisions and output naming. Decoding, resample interpolation and JPEG
//! encoding are left to an external image library; this crate states and
//! checks the sequence and parameters of those steps.

use vstd::prelude::*;

pub mod fit;
pub mod flatten;
pub mod naming;
pub mod pad;
pub mod pipeline;
pub mod raster;
pub mod sizes;

verus! {

/// One error per pipeline stage; any failure aborts the whole run.
#[derive(Clone, Copy, Debug, PartialEq, Eq, Structural)]
pub enum PipelineError {
    /// The input bytes are not a recognized or complete image.
    Decode,
    /// Invalid target geometry: a source dimension or the target edge is zero.
    Fit,
    /// Invalid resample target: a computed dimension is zero.
    Resize,
    /// The raster handed to the alpha flattener does not have 4 channels.
    Alpha,
    /// A border handed to the padder is negative.
    Pad,
    /// The raster layout cannot be serialized.
    Encode,
    /// A read or write failed at the storage boundary.
    Io,
}

} // verus!
