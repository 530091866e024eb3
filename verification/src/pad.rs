use vstd::prelude::*;
use crate::raster::Raster;
use crate::PipelineError;

verus! {

/// The sample at `(x, y)` in channel `c` of a row-major interleaved buffer
/// that is `width` pixels wide with `channels` samples per pixel.
pub open spec fn cell(data: Seq<u8>, width: int, channels: int, x: int, y: int, c: int) -> u8 {
    data[(y * width + x) * channels + c]
}

/// What the padder writes at `(x, y)` in channel `c`: the source sample once
/// the borders are stepped over, and solid white (255) on the borders.
pub open spec fn pad_sample(
    src: Raster,
    v_border: int,
    h_border: int,
    x: int,
    y: int,
    c: int,
) -> int {
    if h_border <= x < h_border + src.width && v_border <= y < v_border + src.height {
        src.at(x - h_border, y - v_border, c) as int
    } else {
        255
    }
}

/// Row-major order: a cell that comes earlier in (row, column, channel) order
/// sits at a strictly smaller buffer index, and every index stays below the
/// buffer total.
proof fn lemma_row_major(
    yy: int,
    xx: int,
    cc: int,
    y: int,
    x: int,
    c: int,
    w: int,
    h: int,
    ch: int,
)
    by (nonlinear_arith)
    requires
        0 <= yy < h,
        0 <= xx < w,
        0 <= cc < ch,
        0 <= y < h,
        0 <= x < w,
        0 <= c <= ch,
        yy < y || (yy == y && xx < x) || (yy == y && xx == x && cc < c),
    ensures
        (yy * w + xx) * ch + cc < (y * w + x) * ch + c,
        (yy * w + xx) * ch + cc < (h * w) * ch,
{
}

/// The index of `(sx, sy, c)` in a `w` by `h` buffer with `ch` channels stays
/// below the buffer total, at every intermediate step of computing it.
proof fn lemma_src_index(sy: int, sx: int, c: int, w: int, h: int, ch: int)
    by (nonlinear_arith)
    requires
        0 <= sy < h,
        0 <= sx < w,
        0 <= c < ch,
        1 <= ch,
    ensures
        sy * w <= (w * h) * ch,
        sy * w + sx < (w * h) * ch,
        (sy * w + sx) * ch <= (w * h) * ch,
        (sy * w + sx) * ch + c < (w * h) * ch,
{
}

/// Adds `v_border` rows of solid white above and below and `h_border` columns
/// of solid white to the left and to the right, in every channel. A negative
/// border is rejected.
pub fn pad(src: &Raster, v_border: i32, h_border: i32) -> (r: Result<Raster, PipelineError>)
    requires
        src.wf(),
        src.width + 2 * h_border <= u32::MAX,
        src.height + 2 * v_border <= u32::MAX,
        ((src.width + 2 * h_border) * (src.height + 2 * v_border)) * src.channels <= usize::MAX,
    ensures
        r is Err <==> (v_border < 0 || h_border < 0),
        r is Err ==> r->Err_0 == PipelineError::Pad,
        r is Ok ==> ({
            let out = r->Ok_0;
            &&& out.wf()
            &&& out.channels == src.channels
            &&& out.width == src.width + 2 * h_border
            &&& out.height == src.height + 2 * v_border
            &&& forall|x: int, y: int, c: int|
                0 <= x < out.width && 0 <= y < out.height && 0 <= c < out.channels
                    ==> #[trigger] out.at(x, y, c) == pad_sample(
                    *src,
                    v_border as int,
                    h_border as int,
                    x,
                    y,
                    c,
                )
        }),
{
    if v_border < 0 || h_border < 0 {
        return Err(PipelineError::Pad);
    }
    let vb: u32 = v_border as u32;
    let hb: u32 = h_border as u32;
    let w: u32 = src.width;
    let h: u32 = src.height;
    let ch: u32 = src.channels;
    let src_len: usize = src.data.len();
    let ow: u32 = w + 2 * hb;
    let oh: u32 = h + 2 * vb;
    let mut data: Vec<u8> = Vec::new();
    let mut y: u32 = 0;
    proof {
        assert((0 * (ow as int)) * (ch as int) == 0) by (nonlinear_arith);
    }
    while y < oh
        invariant
            src.wf(),
            w == src.width,
            h == src.height,
            ch == src.channels,
            vb == v_border as int,
            hb == h_border as int,
            ow == w + 2 * hb,
            oh == h + 2 * vb,
            (ow * oh) * ch <= usize::MAX,
            src_len == src.data@.len(),
            y <= oh,
            data@.len() == (y * ow) * ch,
            forall|yy: int, xx: int, cc: int|
                0 <= yy < y && 0 <= xx < ow && 0 <= cc < ch ==> #[trigger] cell(
                    data@,
                    ow as int,
                    ch as int,
                    xx,
                    yy,
                    cc,
                ) == pad_sample(*src, vb as int, hb as int, xx, yy, cc),
        decreases oh - y,
    {
        let mut x: u32 = 0;
        while x < ow
            invariant
                src.wf(),
                w == src.width,
                h == src.height,
                ch == src.channels,
                vb == v_border as int,
                hb == h_border as int,
                ow == w + 2 * hb,
                oh == h + 2 * vb,
                (ow * oh) * ch <= usize::MAX,
                src_len == src.data@.len(),
                y < oh,
                x <= ow,
                data@.len() == (y * ow + x) * ch,
                forall|yy: int, xx: int, cc: int|
                    0 <= yy < y && 0 <= xx < ow && 0 <= cc < ch ==> #[trigger] cell(
                        data@,
                        ow as int,
                        ch as int,
                        xx,
                        yy,
                        cc,
                    ) == pad_sample(*src, vb as int, hb as int, xx, yy, cc),
                forall|xx: int, cc: int|
                    0 <= xx < x && 0 <= cc < ch ==> #[trigger] cell(
                        data@,
                        ow as int,
                        ch as int,
                        xx,
                        y as int,
                        cc,
                    ) == pad_sample(*src, vb as int, hb as int, xx, y as int, cc),
            decreases ow - x,
        {
            let inside: bool = x >= hb && x < hb + w && y >= vb && y < vb + h;
            let mut c: u32 = 0;
            while c < ch
                invariant
                    src.wf(),
                    w == src.width,
                    h == src.height,
                    ch == src.channels,
                    vb == v_border as int,
                    hb == h_border as int,
                    ow == w + 2 * hb,
                    oh == h + 2 * vb,
                    (ow * oh) * ch <= usize::MAX,
                    src_len == src.data@.len(),
                    y < oh,
                    x < ow,
                    c <= ch,
                    inside == (hb <= x < hb + w && vb <= y < vb + h),
                    data@.len() == (y * ow + x) * ch + c,
                    forall|yy: int, xx: int, cc: int|
                        0 <= yy < y && 0 <= xx < ow && 0 <= cc < ch ==> #[trigger] cell(
                            data@,
                            ow as int,
                            ch as int,
                            xx,
                            yy,
                            cc,
                        ) == pad_sample(*src, vb as int, hb as int, xx, yy, cc),
                    forall|xx: int, cc: int|
                        0 <= xx < x && 0 <= cc < ch ==> #[trigger] cell(
                            data@,
                            ow as int,
                            ch as int,
                            xx,
                            y as int,
                            cc,
                        ) == pad_sample(*src, vb as int, hb as int, xx, y as int, cc),
                    forall|cc: int|
                        0 <= cc < c ==> #[trigger] cell(
                            data@,
                            ow as int,
                            ch as int,
                            x as int,
                            y as int,
                            cc,
                        ) == pad_sample(*src, vb as int, hb as int, x as int, y as int, cc),
                decreases ch - c,
            {
                let s: u8 = if inside {
                    let sx: u32 = x - hb;
                    let sy: u32 = y - vb;
                    proof {
                        lemma_src_index(
                            sy as int,
                            sx as int,
                            c as int,
                            w as int,
                            h as int,
                            ch as int,
                        );
                    }
                    src.data[((sy as usize) * (w as usize) + (sx as usize)) * (ch as usize)
                        + (c as usize)]
                } else {
                    255
                };
                proof {
                    assert(s == pad_sample(*src, vb as int, hb as int, x as int, y as int, c as int));
                }
                let ghost prev = data@;
                data.push(s);
                proof {
                    assert forall|yy: int, xx: int, cc: int|
                        0 <= yy < oh && 0 <= xx < ow && 0 <= cc < ch && (yy < y || (yy == y && xx
                            < x) || (yy == y && xx == x && cc < c)) implies #[trigger] cell(
                        data@,
                        ow as int,
                        ch as int,
                        xx,
                        yy,
                        cc,
                    ) == cell(prev, ow as int, ch as int, xx, yy, cc) by {
                        lemma_row_major(
                            yy,
                            xx,
                            cc,
                            y as int,
                            x as int,
                            c as int,
                            ow as int,
                            oh as int,
                            ch as int,
                        );
                    }
                    assert(cell(data@, ow as int, ch as int, x as int, y as int, c as int) == s);
                }
                c += 1;
            }
            proof {
                assert((y * ow + x) * ch + ch == (y * ow + (x + 1)) * ch) by (nonlinear_arith);
            }
            x += 1;
        }
        proof {
            assert((y * ow + ow) * ch == ((y + 1) * ow) * ch) by (nonlinear_arith);
        }
        y += 1;
    }
    let out = Raster { width: ow, height: oh, channels: ch, data };
    proof {
        assert((oh * ow) * ch == (ow * oh) * ch) by (nonlinear_arith);
        assert(out.wf());
        assert forall|x: int, y: int, c: int|
            0 <= x < out.width && 0 <= y < out.height && 0 <= c < out.channels implies #[trigger] out.at(
            x,
            y,
            c,
        ) == pad_sample(*src, v_border as int, h_border as int, x, y, c) by {
            assert(cell(out.data@, ow as int, ch as int, x, y, c) == pad_sample(
                *src,
                v_border as int,
                h_border as int,
                x,
                y,
                c,
            ));
        }
    }
    Ok(out)
}

} // verus!
