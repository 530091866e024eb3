use square_image::fit::compute_fit;
use square_image::flatten::{flatten_alpha, FlattenMode};
use square_image::pad::pad;
use square_image::pipeline::finish_size;
use square_image::raster::Raster;
use square_image::PipelineError;

fn raster(width: u32, height: u32, channels: u32, data: Vec<u8>) -> Raster {
    Raster::from_parts(width, height, channels, data).unwrap()
}

#[test]
fn from_parts_checks_shape() {
    assert!(Raster::from_parts(2, 2, 3, vec![0; 12]).is_some());
    assert!(Raster::from_parts(0, 2, 3, vec![0; 12]).is_none());
    assert!(Raster::from_parts(2, 2, 2, vec![0; 8]).is_none());
    assert!(Raster::from_parts(2, 2, 3, vec![0; 11]).is_none());
}

#[test]
fn blend_flatten_exact_values() {
    // Two pixels: one fully opaque (kept), one at alpha 128.
    // For v=100,a=128: (100*128 + 255*127)/255 = 45185/255 = 177, and so on.
    let src = raster(2, 1, 4, vec![10, 20, 30, 255, 100, 150, 200, 128]);
    let out = flatten_alpha(&src, FlattenMode::Blend).unwrap();
    assert_eq!((out.width, out.height, out.channels), (2, 1, 3));
    assert_eq!(out.data, vec![10, 20, 30, 177, 202, 227]);
}

#[test]
fn blend_flatten_transparent_is_white() {
    let src = raster(1, 1, 4, vec![7, 99, 201, 0]);
    let out = flatten_alpha(&src, FlattenMode::Blend).unwrap();
    assert_eq!(out.data, vec![255, 255, 255]);
}

#[test]
fn threshold_flatten_cuts_at_254() {
    // Alpha 254 keeps the color, 253 substitutes white entirely.
    let src = raster(2, 1, 4, vec![10, 20, 30, 254, 100, 150, 200, 253]);
    let out = flatten_alpha(&src, FlattenMode::Threshold).unwrap();
    assert_eq!(out.data, vec![10, 20, 30, 255, 255, 255]);
}

#[test]
fn flatten_rejects_opaque_raster() {
    // An already-3-channel raster is rejected, never passed through.
    let src = raster(1, 1, 3, vec![1, 2, 3]);
    assert_eq!(flatten_alpha(&src, FlattenMode::Blend).unwrap_err(), PipelineError::Alpha);
    let gray = raster(1, 1, 1, vec![9]);
    assert_eq!(flatten_alpha(&gray, FlattenMode::Threshold).unwrap_err(), PipelineError::Alpha);
}

#[test]
fn pad_adds_white_columns() {
    let src = raster(1, 1, 3, vec![1, 2, 3]);
    let out = pad(&src, 0, 1).unwrap();
    assert_eq!((out.width, out.height, out.channels), (3, 1, 3));
    assert_eq!(out.data, vec![255, 255, 255, 1, 2, 3, 255, 255, 255]);
}

#[test]
fn pad_adds_white_rows() {
    let src = raster(2, 1, 1, vec![8, 9]);
    let out = pad(&src, 1, 0).unwrap();
    assert_eq!((out.width, out.height, out.channels), (2, 3, 1));
    assert_eq!(out.data, vec![255, 255, 8, 9, 255, 255]);
}

#[test]
fn pad_rejects_negative_border() {
    let src = raster(1, 1, 3, vec![1, 2, 3]);
    assert_eq!(pad(&src, -1, 0).unwrap_err(), PipelineError::Pad);
    assert_eq!(pad(&src, 0, -2).unwrap_err(), PipelineError::Pad);
}

#[test]
fn finish_size_pads_to_exact_square() {
    // 4x1 source into edge 4: fit is 4x2 with a one-row border top and
    // bottom; the finished canvas is the exact 4x4 square.
    let fit = compute_fit(4, 1, 4).unwrap();
    assert_eq!((fit.width, fit.height, fit.v_border, fit.h_border), (4, 2, 1, 0));
    let resized = raster(4, 2, 3, (0..24).collect());
    assert!(fit.canvas_fits(resized.channels));
    let out = finish_size(resized, &fit, false, FlattenMode::Blend);
    assert_eq!((out.width, out.height, out.channels), (4, 4, 3));
    let mut want: Vec<u8> = vec![255; 12];
    want.extend(0..24);
    want.extend(vec![255; 12]);
    assert_eq!(out.data, want);
}

#[test]
fn finish_size_flattens_only_first() {
    // A 4-channel raster on the first iteration comes out with 3 channels
    // and no border work on a square fit; on a later iteration a 3-channel
    // raster passes through unchanged.
    let fit = compute_fit(2, 2, 2).unwrap();
    let first = raster(2, 2, 4, vec![
        10, 20, 30, 255, 40, 50, 60, 255, 70, 80, 90, 0, 1, 2, 3, 255,
    ]);
    assert!(fit.canvas_fits(first.channels));
    let out = finish_size(first, &fit, true, FlattenMode::Blend);
    assert_eq!((out.width, out.height, out.channels), (2, 2, 3));
    assert_eq!(out.data, vec![10, 20, 30, 40, 50, 60, 255, 255, 255, 1, 2, 3]);

    let later = raster(2, 2, 3, (0..12).collect());
    let again = finish_size(later, &fit, false, FlattenMode::Blend);
    assert_eq!(again.channels, 3);
    assert_eq!(again.data, (0..12).collect::<Vec<u8>>());
}

#[test]
fn chained_iterations_stay_square() {
    // Two sizes processed largest-first, each from the previous output:
    // 4x2 source, sizes [4, 2]: first a 4x4 canvas, then a 2x2 one.
    let fit1 = compute_fit(4, 2, 4).unwrap();
    let r1 = raster(fit1.width, fit1.height, 3, vec![9; (fit1.width * fit1.height * 3) as usize]);
    let out1 = finish_size(r1, &fit1, true, FlattenMode::Blend);
    assert_eq!((out1.width, out1.height), (4, 4));
    let fit2 = compute_fit(out1.width, out1.height, 2).unwrap();
    assert_eq!((fit2.width, fit2.height, fit2.v_border, fit2.h_border), (2, 2, 0, 0));
    let r2 = raster(2, 2, 3, vec![9; 12]);
    let out2 = finish_size(r2, &fit2, false, FlattenMode::Blend);
    assert_eq!((out2.width, out2.height), (2, 2));
}
