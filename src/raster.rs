//! Decoded pixel data, and cropping of sub-images out of atlas pages.
use vstd::prelude::*;

use crate::cursor::{u32_at, ByteCursor};

verus! {

/// The element in column `i` and row `j` of a row-major grid `w` wide.
pub open spec fn at2(s: Seq<u32>, w: int, i: int, j: int) -> u32 {
    s[j * w + i]
}

pub open spec fn min(a: int, b: int) -> int {
    if a < b {
        a
    } else {
        b
    }
}

/// A row-major raster of RGBA pixels, each packed little-endian into a `u32`
/// (red in the lowest byte).
#[derive(Debug)]
pub struct Raster {
    pub width: u32,
    pub height: u32,
    pub pixels: Vec<u32>,
}

/// `0 <= jj * w + ii < j * w` for a cell of the first `j` rows.
pub proof fn lemma_grid_index(jj: int, ii: int, j: int, w: int)
    requires
        0 <= jj < j,
        0 <= ii < w,
    ensures
        0 <= jj * w + ii < j * w,
        jj * w + ii + 1 <= j * w,
{
    assert(jj * w + ii < j * w) by (nonlinear_arith)
        requires
            0 <= jj < j,
            0 <= ii < w,
    ;
    assert(0 <= jj * w) by (nonlinear_arith)
        requires
            0 <= jj,
            0 <= w,
    ;
}

/// What the image codec makes of `data`: its width, its height and its
/// pixels as 8-bit RGBA, four bytes per pixel, row by row; `None` where it
/// rejects the bytes.
pub uninterp spec fn decoded_rgba(data: Seq<u8>) -> Option<(u32, u32, Seq<u8>)>;

/// Relies on `image::load_from_memory`, which guesses the format from the
/// bytes and decodes them, and on `DynamicImage::to_rgba8` and
/// `ImageBuffer::into_raw`, which give the pixels as 8-bit RGBA rows.
#[verifier::external_body]
fn decode_rgba(data: &[u8]) -> (r: Option<(u32, u32, Vec<u8>)>)
    ensures
        match r {
            Some((w, h, px)) => decoded_rgba(data@) == Some((w, h, px@)) && px@.len() == 4 * w * h,
            None => decoded_rgba(data@) is None,
        },
{
    let img = image::load_from_memory(data).ok()?.to_rgba8();
    Some((img.width(), img.height(), img.into_raw()))
}

/// `r` holds the image that `data` encodes.
pub open spec fn raster_of(data: Seq<u8>, r: Raster) -> bool {
    match decoded_rgba(data) {
        Some((w, h, px)) => r.width == w && r.height == h && r.is_rgba(px),
        None => false,
    }
}

/// Decodes an embedded image; the format is recognised from its content.
pub fn decode_image(data: &[u8]) -> (r: Option<Raster>)
    ensures
        match r {
            Some(img) => raster_of(data@, img),
            None => decoded_rgba(data@) is None,
        },
{
    match decode_rgba(data) {
        Some((w, h, px)) => Some(Raster::from_rgba(w, h, &px)),
        None => None,
    }
}

impl Raster {
    /// Pixel `k` packs bytes `4k..4k+4` of `rgba`, and there are as many
    /// pixels as the size says.
    pub open spec fn is_rgba(&self, rgba: Seq<u8>) -> bool {
        &&& self.wf()
        &&& forall|k: int| 0 <= k < self.pixels@.len() ==> #[trigger] self.pixels@[k] == u32_at(rgba, 4 * k)
    }

    /// Packs `width * height` RGBA quadruples into pixels.
    pub fn from_rgba(width: u32, height: u32, rgba: &Vec<u8>) -> (r: Raster)
        requires
            rgba@.len() == 4 * width * height,
        ensures
            r.width == width,
            r.height == height,
            r.is_rgba(rgba@),
    {
        let buf = ByteCursor::new(rgba.as_slice(), 0);
        let len = rgba.len();
        assert(len == 4 * (width as int * height as int)) by (nonlinear_arith)
            requires
                len == 4 * width * height,
        ;
        let n: usize = len / 4;
        let mut pixels: Vec<u32> = Vec::new();
        let mut k: usize = 0;
        while k < n
            invariant
                buf.bytes@ == rgba@,
                n * 4 == rgba@.len(),
                rgba@.len() <= usize::MAX,
                k <= n,
                pixels@.len() == k,
                forall|kk: int| 0 <= kk < k ==> #[trigger] pixels@[kk] == u32_at(rgba@, 4 * kk),
            decreases n - k,
        {
            pixels.push(buf.get_u32(4 * k as u64));
            k = k + 1;
        }
        assert(n == width as int * height as int) by (nonlinear_arith)
            requires
                n * 4 == 4 * width * height,
        ;
        Raster { width, height, pixels }
    }

    /// Holds exactly `width * height` pixels.
    pub open spec fn wf(&self) -> bool {
        self.pixels@.len() == self.width as int * self.height as int
    }

    /// The pixel in column `i` and row `j`.
    pub open spec fn pixel(&self, i: int, j: int) -> u32 {
        at2(self.pixels@, self.width as int, i, j)
    }

    /// `out` is the rectangle at (`x`, `y`) of size `w` by `h`, clamped to
    /// the raster's bounds, of `self`.
    pub open spec fn is_crop(&self, x: u32, y: u32, w: u32, h: u32, out: Raster) -> bool {
        let cx = min(x as int, self.width as int);
        let cy = min(y as int, self.height as int);
        let cw = min(w as int, self.width - cx);
        let ch = min(h as int, self.height - cy);
        &&& out.width == cw
        &&& out.height == ch
        &&& out.wf()
        &&& forall|i: int, j: int| 0 <= i < cw && 0 <= j < ch ==> #[trigger] out.pixel(i, j) == self.pixel(cx + i, cy + j)
    }

    /// Copies out the rectangle at (`x`, `y`) of size `width` by `height`;
    /// a rectangle that reaches past the raster is cut at its edges.
    pub fn crop(&self, x: u32, y: u32, width: u32, height: u32) -> (r: Raster)
        requires
            self.wf(),
        ensures
            self.is_crop(x, y, width, height, r),
    {
        let ghost src = self.pixels@;
        let sw = self.width;
        let sh = self.height;
        let _n = self.pixels.len();
        let cx = if x < sw { x } else { sw };
        let cy = if y < sh { y } else { sh };
        let cw = if width < sw - cx { width } else { sw - cx };
        let ch = if height < sh - cy { height } else { sh - cy };
        let mut out: Vec<u32> = Vec::new();
        let mut j: u32 = 0;
        while j < ch
            invariant
                self.wf(),
                src == self.pixels@,
                sw == self.width,
                sh == self.height,
                src.len() <= usize::MAX,
                cx <= sw,
                cy <= sh,
                cx + cw <= sw,
                cy + ch <= sh,
                j <= ch,
                out@.len() == j as int * cw as int,
                forall|ii: int, jj: int| 0 <= ii < cw && 0 <= jj < j ==> #[trigger] at2(out@, cw as int, ii, jj)
                    == self.pixel(cx + ii, cy + jj),
            decreases ch - j,
        {
            if cw > 0 {
                proof {
                    lemma_grid_index((cy + j) as int, cx as int, sh as int, sw as int);
                    assert(sh as int * sw as int == sw as int * sh as int) by (nonlinear_arith);
                }
            }
            let row: usize = if cw > 0 { (cy + j) as usize * sw as usize + cx as usize } else { 0 };
            let ghost base = out@.len();
            let mut i: u32 = 0;
            while i < cw
                invariant
                    self.wf(),
                    src == self.pixels@,
                    sw == self.width,
                    sh == self.height,
                    src.len() <= usize::MAX,
                    cx + cw <= sw,
                    cy + ch <= sh,
                    j < ch,
                    i <= cw,
                    cw > 0 ==> row == (cy + j) as int * sw as int + cx as int,
                    base == j as int * cw as int,
                    out@.len() == base + i,
                    forall|ii: int, jj: int| 0 <= ii < cw && 0 <= jj < j ==> #[trigger] at2(out@, cw as int, ii, jj)
                        == self.pixel(cx + ii, cy + jj),
                    forall|ii: int| 0 <= ii < i ==> #[trigger] at2(out@, cw as int, ii, j as int)
                        == self.pixel(cx + ii, cy + j),
                decreases cw - i,
            {
                proof {
                    lemma_grid_index((cy + j) as int, (cx + i) as int, sh as int, sw as int);
                    assert(sh as int * sw as int == sw as int * sh as int) by (nonlinear_arith);
                }
                let ghost before = out@;
                out.push(self.pixels[row + i as usize]);
                assert forall|ii: int| 0 <= ii < i + 1 implies #[trigger] at2(out@, cw as int, ii, j as int)
                    == self.pixel(cx + ii, cy + j) by {
                    if ii < i {
                        assert(at2(out@, cw as int, ii, j as int) == at2(before, cw as int, ii, j as int));
                    }
                }
                assert forall|ii: int, jj: int| 0 <= ii < cw && 0 <= jj < j implies #[trigger] at2(out@, cw as int, ii, jj)
                    == self.pixel(cx + ii, cy + jj) by {
                    lemma_grid_index(jj, ii, j as int, cw as int);
                    assert(at2(out@, cw as int, ii, jj) == at2(before, cw as int, ii, jj));
                }
                i = i + 1;
            }
            assert forall|ii: int, jj: int| 0 <= ii < cw && 0 <= jj < j + 1 implies #[trigger] at2(out@, cw as int, ii, jj)
                == self.pixel(cx + ii, cy + jj) by {

            }
            assert(out@.len() == (j + 1) as int * cw as int) by (nonlinear_arith)
                requires
                    out@.len() == j as int * cw as int + cw as int,
            ;
            j = j + 1;
        }
        assert(out@.len() == cw as int * ch as int) by (nonlinear_arith)
            requires
                out@.len() == ch as int * cw as int,
        ;
        let r = Raster { width: cw, height: ch, pixels: out };
        assert forall|i: int, j: int| 0 <= i < cw && 0 <= j < ch implies #[trigger] r.pixel(i, j)
            == self.pixel(cx + i, cy + j) by {
            assert(r.pixel(i, j) == at2(out@, cw as int, i, j));
        }
        r
    }
}

} // verus!
