use vstd::prelude::*;

verus! {

/// A decoded in-memory image. Pixel data is interleaved and row-major, so the
/// sample of pixel `(x, y)` in channel `c` sits at index
/// `(y * width + x) * channels + c`.
#[derive(Debug)]
pub struct Raster {
    pub width: u32,
    pub height: u32,
    pub channels: u32,
    pub data: Vec<u8>,
}

impl Raster {
    /// Well-formed: positive dimensions, a gray (1), opaque color (3) or
    /// color-with-alpha (4) channel layout, and a pixel buffer of exactly the
    /// right length.
    pub open spec fn wf(self) -> bool {
        &&& self.width > 0
        &&& self.height > 0
        &&& (self.channels == 1 || self.channels == 3 || self.channels == 4)
        &&& self.data@.len() == self.width * self.height * self.channels
    }

    /// The sample of pixel `(x, y)` in channel `c`.
    pub open spec fn at(self, x: int, y: int, c: int) -> u8 {
        self.data@[(y * self.width + x) * self.channels + c]
    }

    /// Number of pixels.
    pub open spec fn pixels(self) -> int {
        self.width * self.height
    }

    /// Builds a raster from plain parts, checking well-formedness at run time.
    /// This is the entry point for callers outside the verified pipeline,
    /// e.g. for a buffer that an external decode produced.
    pub fn from_parts(width: u32, height: u32, channels: u32, data: Vec<u8>) -> (r: Option<
        Raster,
    >)
        ensures
            match r {
                Some(raster) => {
                    &&& raster.wf()
                    &&& raster.width == width
                    &&& raster.height == height
                    &&& raster.channels == channels
                    &&& raster.data@ == data@
                },
                None => !(width > 0 && height > 0 && (channels == 1 || channels == 3
                    || channels == 4) && data@.len() == width * height * channels),
            },
    {
        if width > 0 && height > 0 && (channels == 1 || channels == 3 || channels == 4) {
            proof {
                assert(width * height * channels <= 0xffff_ffff * 0xffff_ffff * 4)
                    by (nonlinear_arith)
                    requires
                        width <= 0xffff_ffff,
                        height <= 0xffff_ffff,
                        channels <= 4,
                ;
            }
            let need: u128 = (width as u128) * (height as u128) * (channels as u128);
            if (data.len() as u128) == need {
                return Some(Raster { width, height, channels, data });
            }
        }
        None
    }
}

} // verus!
