use vstd::prelude::*;
use crate::fit::FitResult;
use crate::flatten::{flat_sample, flatten_alpha, FlattenMode};
use crate::pad::{pad, pad_sample};
use crate::raster::Raster;

verus! {

/// JPEG quality used for every size processed in one run.
pub const JPEG_QUALITY: i32 = 90;

/// What the finished canvas holds at `(x, y)` in channel `c`: inside the
/// borders, the resized raster — flattened against white when this is the
/// first iteration of a 4-channel image — and solid white on the borders.
pub open spec fn finish_sample(
    r: Raster,
    f: FitResult,
    first: bool,
    mode: FlattenMode,
    x: int,
    y: int,
    c: int,
) -> int {
    if f.h_border <= x < f.h_border + f.width && f.v_border <= y < f.v_border + f.height {
        let sx = x - f.h_border;
        let sy = y - f.v_border;
        if first && r.channels == 4 {
            flat_sample(mode, r.at(sx, sy, c), r.at(sx, sy, 3))
        } else {
            r.at(sx, sy, c) as int
        }
    } else {
        255
    }
}

/// The steps of one pipeline iteration that follow the external resample:
/// on the first iteration a 4-channel raster is flattened against white
/// (exactly once per run, and before any padding), then the raster is padded
/// to the exact square of the fit — skipped when the fit is already square.
/// Consumes the resized raster and yields the finished square canvas.
pub fn finish_size(resized: Raster, fit: &FitResult, first: bool, mode: FlattenMode) -> (out:
    Raster)
    requires
        resized.wf(),
        fit.wf(),
        resized.width == fit.width,
        resized.height == fit.height,
        (fit.square_edge() * fit.square_edge()) * resized.channels <= usize::MAX,
    ensures
        out.wf(),
        out.width == fit.square_edge(),
        out.height == fit.square_edge(),
        out.channels == if first && resized.channels == 4 {
            3int
        } else {
            resized.channels as int
        },
        forall|x: int, y: int, c: int|
            0 <= x < out.width && 0 <= y < out.height && 0 <= c < out.channels
                ==> #[trigger] out.at(x, y, c) == finish_sample(resized, *fit, first, mode, x, y, c),
{
    let ghost orig = resized;
    let flattened: bool = first && resized.channels == 4;
    let mid: Raster = if flattened {
        match flatten_alpha(&resized, mode) {
            Ok(m) => m,
            Err(_) => {
                proof {
                    assert(false);
                }
                resized
            },
        }
    } else {
        resized
    };
    proof {
        assert((fit.square_edge() * fit.square_edge()) * mid.channels <= usize::MAX)
            by (nonlinear_arith)
            requires
                0 <= fit.square_edge(),
                0 <= mid.channels <= orig.channels,
                (fit.square_edge() * fit.square_edge()) * orig.channels <= usize::MAX,
        ;
    }
    let out: Raster = if fit.width != fit.height {
        match pad(&mid, fit.v_border as i32, fit.h_border as i32) {
            Ok(p) => p,
            Err(_) => {
                proof {
                    assert(false);
                }
                mid
            },
        }
    } else {
        mid
    };
    proof {
        assert forall|x: int, y: int, c: int|
            0 <= x < out.width && 0 <= y < out.height && 0 <= c < out.channels implies #[trigger] out.at(
            x,
            y,
            c,
        ) == finish_sample(orig, *fit, first, mode, x, y, c) by {
            if fit.width != fit.height {
                assert(out.at(x, y, c) == pad_sample(
                    mid,
                    fit.v_border as int,
                    fit.h_border as int,
                    x,
                    y,
                    c,
                ));
            }
        }
    }
    out
}

} // verus!
