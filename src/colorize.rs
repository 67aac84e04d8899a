use vstd::prelude::*;
use crate::raster::{GrayRaster, RgbaRaster};

verus! {

/// The entry of a table of `width` colors that an intensity in `0..=255` selects:
/// `intensity / 256 * width`, rounded half up, then clamped to the last entry.
pub open spec fn table_index(intensity: int, width: int) -> int {
    let r = (2 * intensity * width + 256) / 512;
    if r > width - 1 {
        width - 1
    } else {
        r
    }
}

/// The RGBA bytes that the table gives the intensities `gray`.
pub open spec fn colorized(gray: Seq<u8>, table: Seq<[u8; 4]>) -> Seq<u8> {
    Seq::new(
        4 * gray.len(),
        |j: int| table[table_index(gray[j / 4] as int, table.len() as int)]@[j % 4],
    )
}

/// The first byte of each RGBA pixel.
pub open spec fn first_channel(rgba: Seq<u8>) -> Seq<u8> {
    Seq::new(rgba.len() / 4, |i: int| rgba[4 * i])
}

/// The table of 256 grays that gives each intensity back as itself, opaque.
pub open spec fn identity_table() -> Seq<[u8; 4]> {
    Seq::new(256, |k: int| [k as u8, k as u8, k as u8, 255u8])
}

/// Which entry of a table of `width` colors an intensity selects.
pub fn clut_index(intensity: u8, width: usize) -> (r: usize)
    requires
        width >= 1,
    ensures
        r == table_index(intensity as int, width as int),
        r < width,
{
    let w = width as u128;
    assert(2 * (intensity as u128) * w + 256 < 0x1_0000_0000_0000_0000_0000) by (nonlinear_arith)
        requires
            intensity <= 255,
            w <= 0xFFFF_FFFF_FFFF_FFFF,
    ;
    let t = (2 * (intensity as u128) * w + 256) / 512;
    if t > w - 1 {
        width - 1
    } else {
        t as usize
    }
}

/// Replaces each intensity of `gray` by the color the table gives it.
pub fn apply_clut(gray: &GrayRaster, table: &Vec<[u8; 4]>) -> (r: RgbaRaster)
    requires
        gray.wf(),
        table@.len() >= 1,
    ensures
        r.width == gray.width,
        r.height == gray.height,
        r.wf(),
        r.pixels@ == colorized(gray.pixels@, table@),
{
    let n = gray.pixels.len();
    let mut out: Vec<u8> = Vec::new();
    for i in 0..n
        invariant
            n == gray.pixels@.len(),
            table@.len() >= 1,
            out@ == colorized(gray.pixels@, table@).subrange(0, 4 * i),
    {
        let t = clut_index(gray.pixels[i], table.len());
        let entry = table[t];
        out.push(entry[0]);
        out.push(entry[1]);
        out.push(entry[2]);
        out.push(entry[3]);
        let ghost want = colorized(gray.pixels@, table@);
        assert forall|j: int| 4 * i <= j < 4 * i + 4 implies j / 4 == i && #[trigger] want[j]
            == entry@[j - 4 * i] by {
            assert(j / 4 == i);
        }
        assert(out@ =~= want.subrange(0, 4 * (i + 1)));
    }
    assert(out@ =~= colorized(gray.pixels@, table@));
    RgbaRaster { width: gray.width, height: gray.height, pixels: out }
}

/// The intensities a picture's first channel holds, one per pixel.
pub fn first_channel_raster(rgba: &RgbaRaster) -> (r: GrayRaster)
    requires
        rgba.wf(),
    ensures
        r.width == rgba.width,
        r.height == rgba.height,
        r.wf(),
        r.pixels@ == first_channel(rgba.pixels@),
{
    let n = rgba.pixels.len() / 4;
    assert(4 * n == rgba.pixels@.len());
    let mut out: Vec<u8> = Vec::new();
    for i in 0..n
        invariant
            n == rgba.pixels@.len() / 4,
            4 * n == rgba.pixels@.len(),
            rgba.pixels@.len() == rgba.pixels.len(),
            out@ == first_channel(rgba.pixels@).subrange(0, i as int),
    {
        out.push(rgba.pixels[4 * i]);
        assert(out@ =~= first_channel(rgba.pixels@).subrange(0, i + 1));
    }
    assert(out@ =~= first_channel(rgba.pixels@));
    assert(out@.len() == rgba.width as int * rgba.height as int);
    GrayRaster { width: rgba.width, height: rgba.height, pixels: out }
}

/// A brighter pixel never selects an earlier table entry, whatever the table's width.
pub proof fn lemma_table_index_monotonic(i: int, j: int, width: int)
    requires
        0 <= i <= j <= 255,
        width >= 1,
    ensures
        table_index(i, width) <= table_index(j, width),
        0 <= table_index(i, width) < width,
{
    assert(2 * i * width + 256 <= 2 * j * width + 256) by (nonlinear_arith)
        requires
            i <= j,
            width >= 1,
    ;
    assert(0 <= 2 * i * width) by (nonlinear_arith)
        requires
            0 <= i,
            width >= 1,
    ;
    vstd::arithmetic::div_mod::lemma_div_is_ordered(2 * i * width + 256, 2 * j * width + 256, 512);
}

/// With the identity table the colors are the intensities again, so coloring the result once
/// more changes nothing.
pub proof fn lemma_identity_table_idempotent(gray: Seq<u8>)
    ensures
        colorized(first_channel(colorized(gray, identity_table())), identity_table()) == colorized(
            gray,
            identity_table(),
        ),
{
    let id = identity_table();
    let once = colorized(gray, id);
    assert forall|k: int| 0 <= k < 256 implies table_index(k, 256) == k by {
        assert((2 * k * 256 + 256) / 512 == k);
    }
    assert forall|i: int| 0 <= i < gray.len() implies #[trigger] once[4 * i] == gray[i] by {
        assert((4 * i) / 4 == i);
        assert((4 * i) % 4 == 0);
        assert(table_index(gray[i] as int, 256) == gray[i] as int);
    }
    assert(first_channel(once) =~= gray);
}

} // verus!
