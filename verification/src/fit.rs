use vstd::prelude::*;
use vstd::arithmetic::div_mod::{
    lemma_div_is_ordered, lemma_div_multiples_vanish, lemma_fundamental_div_mod,
    lemma_mod_bound,
};
use vstd::arithmetic::mul::{lemma_mul_inequality, lemma_mul_upper_bound};
use crate::PipelineError;

verus! {

/// The longer of the two source edges; the proportional scale ratio is
/// `target / longest_edge`, which is `min(target / w, target / h)`.
pub open spec fn longest_edge(w: int, h: int) -> int {
    if w >= h {
        w
    } else {
        h
    }
}

/// Width after the proportional scale: `floor(w * target / longest_edge)`.
pub open spec fn scaled_width(w: int, h: int, target: int) -> int {
    w * target / longest_edge(w, h)
}

/// Height after the proportional scale: `floor(h * target / longest_edge)`.
pub open spec fn scaled_height(w: int, h: int, target: int) -> int {
    h * target / longest_edge(w, h)
}

/// Width the fit calculator reports: the scaled width, plus the odd pixel of
/// the axis difference when the height is the longer result, so that the
/// padded canvas lands exactly on the longer edge.
pub open spec fn fit_width(w: int, h: int, target: int) -> int {
    let nw = scaled_width(w, h, target);
    let nh = scaled_height(w, h, target);
    if nh >= nw {
        nw + (nh - nw) % 2
    } else {
        nw
    }
}

/// Height the fit calculator reports, with the odd pixel recovered on the
/// other axis in the symmetric case.
pub open spec fn fit_height(w: int, h: int, target: int) -> int {
    let nw = scaled_width(w, h, target);
    let nh = scaled_height(w, h, target);
    if nh >= nw {
        nh
    } else {
        nh + (nw - nh) % 2
    }
}

/// Pixels of white to add on the left and on the right.
pub open spec fn fit_h_border(w: int, h: int, target: int) -> int {
    let nw = scaled_width(w, h, target);
    let nh = scaled_height(w, h, target);
    if nh >= nw {
        (nh - nw) / 2
    } else {
        0
    }
}

/// Pixels of white to add at the top and at the bottom.
pub open spec fn fit_v_border(w: int, h: int, target: int) -> int {
    let nw = scaled_width(w, h, target);
    let nh = scaled_height(w, h, target);
    if nh >= nw {
        0
    } else {
        (nw - nh) / 2
    }
}

/// What the fit calculator hands to the resizer and the padder: the scaled
/// dimensions and the symmetric border for the shorter axis.
#[derive(Clone, Copy, Debug, PartialEq, Eq, Structural)]
pub struct FitResult {
    pub width: u32,
    pub height: u32,
    pub v_border: u32,
    pub h_border: u32,
}

impl FitResult {
    /// At most one axis carries a border, a square fit carries none, and the
    /// two padded extents agree, so padding yields an exact square.
    pub open spec fn wf(self) -> bool {
        &&& self.v_border == 0 || self.h_border == 0
        &&& self.width == self.height ==> self.v_border == 0 && self.h_border == 0
        &&& self.width + 2 * self.h_border == self.height + 2 * self.v_border
    }

    /// Edge of the square canvas the padder will produce.
    pub open spec fn square_edge(self) -> int {
        self.width + 2 * self.h_border
    }

    /// Whether the final square canvas, with `channels` samples per pixel,
    /// fits in this machine's address space. Callers outside the verified
    /// pipeline check this before running the padder.
    pub fn canvas_fits(&self, channels: u32) -> (b: bool)
        requires
            self.wf(),
        ensures
            b == ((self.square_edge() * self.square_edge()) * channels <= usize::MAX),
    {
        let sq: u128 = (self.width as u128) + 2 * (self.h_border as u128);
        proof {
            assert(sq * sq <= 0x1_0000_0000_0000_0000 && (sq * sq) * (channels as u128)
                <= 0x1_0000_0000_0000_0000_0000_0000) by (nonlinear_arith)
                requires
                    0 <= sq <= 0x1_0000_0000,
                    channels <= 0x1_0000_0000,
            ;
        }
        (sq * sq) * (channels as u128) <= (usize::MAX as u128)
    }

    /// The dimensions the resizer must be called with; a zero dimension is an
    /// invalid resample target.
    pub fn resize_target(&self) -> (r: Result<(u32, u32), PipelineError>)
        ensures
            r is Err <==> (self.width == 0 || self.height == 0),
            r is Err ==> r->Err_0 == PipelineError::Resize,
            r is Ok ==> r->Ok_0 == (self.width, self.height),
    {
        if self.width == 0 || self.height == 0 {
            Err(PipelineError::Resize)
        } else {
            Ok((self.width, self.height))
        }
    }
}

/// Proportional fit of `(src_width, src_height)` into the square of edge
/// `target_edge`: one scale ratio `min(target/w, target/h)`, floor-scaled
/// dimensions, and the symmetric border for the shorter axis, with the odd
/// pixel of the difference given back to that axis.
pub fn compute_fit(src_width: u32, src_height: u32, target_edge: u32) -> (r: Result<
    FitResult,
    PipelineError,
>)
    ensures
        r is Err <==> (src_width == 0 || src_height == 0 || target_edge == 0),
        r is Err ==> r->Err_0 == PipelineError::Fit,
        r is Ok ==> ({
            let f = r->Ok_0;
            &&& f.wf()
            &&& f.width == fit_width(src_width as int, src_height as int, target_edge as int)
            &&& f.height == fit_height(src_width as int, src_height as int, target_edge as int)
            &&& f.v_border == fit_v_border(src_width as int, src_height as int, target_edge as int)
            &&& f.h_border == fit_h_border(src_width as int, src_height as int, target_edge as int)
            &&& f.square_edge() == longest_edge(
                scaled_width(src_width as int, src_height as int, target_edge as int),
                scaled_height(src_width as int, src_height as int, target_edge as int),
            )
        }),
{
    if src_width == 0 || src_height == 0 || target_edge == 0 {
        return Err(PipelineError::Fit);
    }
    let longest: u32 = if src_width >= src_height {
        src_width
    } else {
        src_height
    };
    proof {
        lemma_mul_upper_bound(src_width as int, 0xffff_ffff, target_edge as int, 0xffff_ffff);
        lemma_mul_upper_bound(src_height as int, 0xffff_ffff, target_edge as int, 0xffff_ffff);
        lemma_mul_inequality(src_width as int, longest as int, target_edge as int);
        lemma_mul_inequality(src_height as int, longest as int, target_edge as int);
        lemma_div_is_ordered(
            (src_width as int) * (target_edge as int),
            (longest as int) * (target_edge as int),
            longest as int,
        );
        lemma_div_is_ordered(
            (src_height as int) * (target_edge as int),
            (longest as int) * (target_edge as int),
            longest as int,
        );
        lemma_div_multiples_vanish(target_edge as int, longest as int);
    }
    let nw: u32 = ((src_width as u64) * (target_edge as u64) / (longest as u64)) as u32;
    let nh: u32 = ((src_height as u64) * (target_edge as u64) / (longest as u64)) as u32;
    if nh >= nw {
        let diff: u32 = nh - nw;
        proof {
            lemma_fundamental_div_mod(diff as int, 2);
        }
        Ok(FitResult { width: nw + diff % 2, height: nh, v_border: 0, h_border: diff / 2 })
    } else {
        let diff: u32 = nw - nh;
        proof {
            lemma_fundamental_div_mod(diff as int, 2);
        }
        Ok(FitResult { width: nw, height: nh + diff % 2, v_border: diff / 2, h_border: 0 })
    }
}

/// After the fit calculator and the padder the canvas is an exact square:
/// both padded extents equal the longer of the two scaled dimensions.
pub proof fn lemma_fit_then_pad_is_square(w: int, h: int, target: int)
    requires
        w > 0,
        h > 0,
        target > 0,
    ensures
        fit_width(w, h, target) + 2 * fit_h_border(w, h, target) == fit_height(w, h, target) + 2
            * fit_v_border(w, h, target),
        fit_width(w, h, target) + 2 * fit_h_border(w, h, target) == longest_edge(
            scaled_width(w, h, target),
            scaled_height(w, h, target),
        ),
{
    let nw = scaled_width(w, h, target);
    let nh = scaled_height(w, h, target);
    if nh >= nw {
        lemma_fundamental_div_mod(nh - nw, 2);
    } else {
        lemma_fundamental_div_mod(nw - nh, 2);
    }
}

/// The proportional scale preserves the aspect ratio within truncation: the
/// longer axis lands exactly on the target edge, and the shorter one is the
/// floor of the ideal value, so the cross products differ by less than one
/// source pixel row or column.
pub proof fn lemma_fit_preserves_aspect(w: int, h: int, target: int)
    requires
        w > 0,
        h > 0,
        target > 0,
    ensures
        w >= h ==> scaled_width(w, h, target) == target && 0 <= h * scaled_width(w, h, target) - w
            * scaled_height(w, h, target) < w,
        h >= w ==> scaled_height(w, h, target) == target && 0 <= w * scaled_height(w, h, target)
            - h * scaled_width(w, h, target) < h,
{
    if w >= h {
        lemma_div_multiples_vanish(target, w);
        lemma_fundamental_div_mod(h * target, w);
        lemma_mod_bound(h * target, w);
    } else {
        lemma_div_multiples_vanish(target, h);
        lemma_fundamental_div_mod(w * target, h);
        lemma_mod_bound(w * target, h);
    }
}

} // verus!
