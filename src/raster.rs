use vstd::prelude::*;

verus! {

/// A single-channel raster, one intensity byte per pixel, row by row.
#[derive(Clone, Debug)]
pub struct GrayRaster {
    pub width: u32,
    pub height: u32,
    pub pixels: Vec<u8>,
}

/// An RGBA raster, four bytes per pixel, row by row.
#[derive(Clone, Debug)]
pub struct RgbaRaster {
    pub width: u32,
    pub height: u32,
    pub pixels: Vec<u8>,
}

/// An RGBA picture as the contracts see it.
pub struct Picture {
    pub pixels: Seq<u8>,
    pub width: nat,
    pub height: nat,
}

impl View for RgbaRaster {
    type V = Picture;

    open spec fn view(&self) -> Picture {
        Picture { pixels: self.pixels@, width: self.width as nat, height: self.height as nat }
    }
}

/// What image::imageops::resize with the nearest-neighbor filter makes of an RGBA picture.
pub uninterp spec fn resized_nearest(
    pixels: Seq<u8>,
    width: nat,
    height: nat,
    new_width: nat,
    new_height: nat,
) -> Seq<u8>;

/// What image::imageops::overlay makes of the picture `bottom` with `top` laid over it at
/// column `x`, row `y`.
pub uninterp spec fn overlaid(
    bottom: Seq<u8>,
    bottom_width: nat,
    bottom_height: nat,
    top: Seq<u8>,
    top_width: nat,
    top_height: nat,
    x: nat,
    y: nat,
) -> Seq<u8>;

pub open spec fn resize_view(p: Picture, width: nat, height: nat) -> Picture {
    Picture {
        pixels: resized_nearest(p.pixels, p.width, p.height, width, height),
        width,
        height,
    }
}

pub open spec fn overlay_view(bottom: Picture, top: Picture, x: nat, y: nat) -> Picture {
    Picture {
        pixels: overlaid(
            bottom.pixels,
            bottom.width,
            bottom.height,
            top.pixels,
            top.width,
            top.height,
            x,
            y,
        ),
        width: bottom.width,
        height: bottom.height,
    }
}

/// Relies on image::imageops::resize with FilterType::Nearest: the result has exactly the
/// size asked for, and its pixels depend on the source picture and the two sizes alone.
#[verifier::external_body]
pub(crate) fn resize_nearest(src: &RgbaRaster, width: u32, height: u32) -> (r: RgbaRaster)
    requires
        src.wf(),
        src.width > 0,
        src.height > 0,
        width > 0,
        height > 0,
        4 * (width as int * height as int) <= usize::MAX,
    ensures
        r.wf(),
        r.width == width,
        r.height == height,
        r.pixels@ == resized_nearest(
            src.pixels@,
            src.width as nat,
            src.height as nat,
            width as nat,
            height as nat,
        ),
{
    let img = image::RgbaImage::from_raw(src.width, src.height, src.pixels.clone()).unwrap();
    let out = image::imageops::resize(&img, width, height, image::imageops::FilterType::Nearest);
    RgbaRaster { width: out.width(), height: out.height(), pixels: out.into_raw() }
}

/// Relies on image::imageops::overlay: `top` is blended onto `canvas` at column `x`, row `y`,
/// clipped to the canvas, whose size stays the same.
#[verifier::external_body]
pub(crate) fn overlay_at(canvas: &mut RgbaRaster, top: &RgbaRaster, x: u32, y: u32)
    requires
        old(canvas).wf(),
        top.wf(),
    ensures
        final(canvas).wf(),
        final(canvas).width == old(canvas).width,
        final(canvas).height == old(canvas).height,
        final(canvas).pixels@ == overlaid(
            old(canvas).pixels@,
            old(canvas).width as nat,
            old(canvas).height as nat,
            top.pixels@,
            top.width as nat,
            top.height as nat,
            x as nat,
            y as nat,
        ),
{
    let mut bottom = image::RgbaImage::from_raw(canvas.width, canvas.height, canvas.pixels.clone())
        .unwrap();
    let upper = image::RgbaImage::from_raw(top.width, top.height, top.pixels.clone()).unwrap();
    image::imageops::overlay(&mut bottom, &upper, x as i64, y as i64);
    canvas.pixels = bottom.into_raw();
}

impl GrayRaster {
    pub open spec fn wf(&self) -> bool {
        self.pixels@.len() == self.width as int * self.height as int
    }

    /// A raster of the given size, if `pixels` holds exactly one byte per pixel.
    pub fn new(width: u32, height: u32, pixels: Vec<u8>) -> (r: Option<GrayRaster>)
        ensures
            r is Some <==> pixels@.len() == width as int * height as int,
            r is Some ==> r->Some_0 == (GrayRaster { width, height, pixels }),
    {
        assert(width as u64 * height as u64 <= 0xFFFF_FFFE_0000_0001) by (nonlinear_arith)
            requires
                width <= 0xFFFF_FFFF,
                height <= 0xFFFF_FFFF,
        ;
        let n = width as u64 * height as u64;
        if pixels.len() as u64 == n {
            Some(GrayRaster { width, height, pixels })
        } else {
            None
        }
    }
}

impl RgbaRaster {
    pub open spec fn wf(&self) -> bool {
        self.pixels@.len() == 4 * (self.width as int * self.height as int)
    }

    /// Whether the pixel bytes fit the size.
    pub fn is_wf(&self) -> (r: bool)
        ensures
            r == self.wf(),
    {
        assert(self.width as u128 * self.height as u128 <= 0xFFFF_FFFE_0000_0001) by (nonlinear_arith)
            requires
                self.width <= 0xFFFF_FFFF,
                self.height <= 0xFFFF_FFFF,
        ;
        self.pixels.len() as u128 == self.width as u128 * self.height as u128 * 4
    }

    /// A raster of the given size, if `pixels` holds exactly four bytes per pixel.
    pub fn new(width: u32, height: u32, pixels: Vec<u8>) -> (r: Option<RgbaRaster>)
        ensures
            r is Some <==> pixels@.len() == 4 * (width as int * height as int),
            r is Some ==> r->Some_0 == (RgbaRaster { width, height, pixels }),
    {
        assert(width as u128 * height as u128 <= 0xFFFF_FFFE_0000_0001) by (nonlinear_arith)
            requires
                width <= 0xFFFF_FFFF,
                height <= 0xFFFF_FFFF,
        ;
        let n = width as u128 * height as u128 * 4;
        if pixels.len() as u128 == n {
            Some(RgbaRaster { width, height, pixels })
        } else {
            None
        }
    }
}

} // verus!
