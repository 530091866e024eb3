use vstd::prelude::*;
use vstd::arithmetic::div_mod::lemma_div_is_ordered;
use vstd::arithmetic::mul::{lemma_mul_inequality, lemma_mul_nonnegative};
use crate::raster::Raster;
use crate::PipelineError;

verus! {

/// How the alpha channel is applied when compositing against white.
#[derive(Clone, Copy, Debug, PartialEq, Eq, Structural)]
pub enum FlattenMode {
    /// Per-pixel linear interpolation between the color and white.
    Blend,
    /// Binarize alpha at `ALPHA_CUTOFF`: keep the color or substitute white.
    Threshold,
}

/// Alpha values at or above this cutoff keep the source color in threshold
/// mode; anything below becomes pure white.
pub const ALPHA_CUTOFF: u8 = 254;

/// One color sample blended against white with alpha as the mask:
/// `v * (a/255) + 255 * (1 - a/255)`, carried out in integers.
pub open spec fn blend_sample(v: u8, a: u8) -> int {
    (v * a + 255 * (255 - a)) / 255
}

/// One color sample composited with the hard-edged threshold rule.
pub open spec fn threshold_sample(v: u8, a: u8) -> int {
    if a >= ALPHA_CUTOFF {
        v as int
    } else {
        255
    }
}

/// The sample the flattener writes for color `v` under alpha `a`.
pub open spec fn flat_sample(mode: FlattenMode, v: u8, a: u8) -> int {
    match mode {
        FlattenMode::Blend => blend_sample(v, a),
        FlattenMode::Threshold => threshold_sample(v, a),
    }
}

/// Composites a 4-channel raster against solid white, using the alpha channel
/// as the per-pixel blend mask, and drops the alpha channel. A raster with
/// any other channel count is rejected, never passed through.
pub fn flatten_alpha(src: &Raster, mode: FlattenMode) -> (r: Result<Raster, PipelineError>)
    requires
        src.wf(),
    ensures
        r is Err <==> src.channels != 4,
        r is Err ==> r->Err_0 == PipelineError::Alpha,
        r is Ok ==> ({
            let out = r->Ok_0;
            &&& out.wf()
            &&& out.width == src.width
            &&& out.height == src.height
            &&& out.channels == 3
            &&& forall|x: int, y: int, cc: int|
                0 <= x < out.width && 0 <= y < out.height && 0 <= cc < 3 ==> #[trigger] out.at(
                    x,
                    y,
                    cc,
                ) == flat_sample(mode, src.at(x, y, cc), src.at(x, y, 3))
        }),
{
    if src.channels != 4 {
        return Err(PipelineError::Alpha);
    }
    let npx: usize = src.data.len() / 4;
    proof {
        assert(npx == src.pixels() && src.data@.len() == 4 * src.pixels());
    }
    let mut out_data: Vec<u8> = Vec::new();
    let mut p: usize = 0;
    while p < npx
        invariant
            src.wf(),
            src.channels == 4,
            npx == src.pixels(),
            src.data@.len() == 4 * npx,
            src.data@.len() <= usize::MAX,
            p <= npx,
            out_data@.len() == 3 * p,
            forall|q: int, cc: int|
                0 <= q < p && 0 <= cc < 3 ==> #[trigger] out_data@[q * 3 + cc] == flat_sample(
                    mode,
                    src.data@[q * 4 + cc],
                    src.data@[q * 4 + 3],
                ),
        decreases npx - p,
    {
        let base: usize = 4 * p;
        let a: u8 = src.data[base + 3];
        let mut c: usize = 0;
        while c < 3
            invariant
                src.wf(),
                src.channels == 4,
                npx == src.pixels(),
                src.data@.len() == 4 * npx,
                p < npx,
                base == 4 * p,
                a == src.data@[p * 4 + 3],
                c <= 3,
                out_data@.len() == 3 * p + c,
                forall|q: int, cc: int|
                    0 <= q < p && 0 <= cc < 3 ==> #[trigger] out_data@[q * 3 + cc] == flat_sample(
                        mode,
                        src.data@[q * 4 + cc],
                        src.data@[q * 4 + 3],
                    ),
                forall|cc: int|
                    0 <= cc < c ==> #[trigger] out_data@[p * 3 + cc] == flat_sample(
                        mode,
                        src.data@[p * 4 + cc],
                        src.data@[p * 4 + 3],
                    ),
            decreases 3 - c,
        {
            let v: u8 = src.data[base + c];
            let s: u8 = match mode {
                FlattenMode::Blend => {
                    proof {
                        lemma_mul_nonnegative(v as int, a as int);
                        lemma_mul_inequality(v as int, 255, a as int);
                        lemma_div_is_ordered(
                            v as int * a as int + 255 * (255 - a as int),
                            65025,
                            255,
                        );
                    }
                    (((v as u32) * (a as u32) + 255 * (255 - (a as u32))) / 255) as u8
                },
                FlattenMode::Threshold => {
                    if a >= ALPHA_CUTOFF {
                        v
                    } else {
                        255
                    }
                },
            };
            out_data.push(s);
            c += 1;
        }
        p += 1;
    }
    let out = Raster { width: src.width, height: src.height, channels: 3, data: out_data };
    proof {
        assert(out.data@.len() == out.width * out.height * out.channels);
        assert forall|x: int, y: int, cc: int|
            0 <= x < out.width && 0 <= y < out.height && 0 <= cc < 3 implies #[trigger] out.at(
            x,
            y,
            cc,
        ) == flat_sample(mode, src.at(x, y, cc), src.at(x, y, 3)) by {
            let q = y * src.width + x;
            assert(0 <= q < src.width * src.height) by (nonlinear_arith)
                requires
                    0 <= x < src.width,
                    0 <= y < src.height,
                    q == y * src.width + x,
            ;
            assert(out_data@[q * 3 + cc] == flat_sample(
                mode,
                src.data@[q * 4 + cc],
                src.data@[q * 4 + 3],
            ));
        }
    }
    Ok(out)
}

} // verus!
