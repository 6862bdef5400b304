//! Owned RGBA rasters and the pixel operations the save pipeline performs on
//! them.
//!
//! Pixels are stored row-major, one `Rgba` per pixel. Every operation is
//! specified pixel by pixel against the abstract `Raster` view.

use vstd::prelude::*;

verus! {

/// One straight-alpha RGBA pixel.
#[derive(Clone, Copy, PartialEq, Eq, Debug, Structural)]
pub struct Rgba {
    pub r: u8,
    pub g: u8,
    pub b: u8,
    pub a: u8,
}

/// The abstract content of an image: its dimensions and its pixels in
/// row-major order.
#[verifier::ext_equal]
pub struct Raster {
    pub width: nat,
    pub height: nat,
    pub pixels: Seq<Rgba>,
}

impl Raster {
    /// The pixel sequence holds exactly one entry per coordinate.
    pub open spec fn wf(self) -> bool {
        self.pixels.len() == self.width * self.height
    }

    /// True when (x, y) lies inside the image.
    pub open spec fn contains(self, x: int, y: int) -> bool {
        0 <= x < self.width && 0 <= y < self.height
    }

    /// The pixel at column `x`, row `y`.
    pub open spec fn at(self, x: int, y: int) -> Rgba {
        self.pixels[y * self.width + x]
    }
}

/// Row-major offset of (x, y) in an image `w` pixels wide.
pub open spec fn offset(w: int, x: int, y: int) -> int {
    y * w + x
}

/// The raster that `width` x `height` row-major R, G, B, A bytes describe.
pub open spec fn raster_from_rgba(width: u32, height: u32, data: Seq<u8>) -> Raster {
    Raster {
        width: width as nat,
        height: height as nat,
        pixels: Seq::new(
            (width * height) as nat,
            |j: int| Rgba { r: data[4 * j], g: data[4 * j + 1], b: data[4 * j + 2], a: data[4 * j + 3] },
        ),
    }
}

/// The bytes of `pixels` in order, R, G, B, A for each.
pub open spec fn rgba_bytes(pixels: Seq<Rgba>) -> Seq<u8>
    decreases pixels.len(),
{
    if pixels.len() == 0 {
        seq![]
    } else {
        let p = pixels.last();
        rgba_bytes(pixels.drop_last()) + seq![p.r, p.g, p.b, p.a]
    }
}

/// The bytes of `pixels` in order, R, G, B for each.
pub open spec fn rgb_bytes(pixels: Seq<Rgb>) -> Seq<u8>
    decreases pixels.len(),
{
    if pixels.len() == 0 {
        seq![]
    } else {
        let p = pixels.last();
        rgb_bytes(pixels.drop_last()) + seq![p.r, p.g, p.b]
    }
}

pub proof fn lemma_offset_bounds(w: int, h: int, x: int, y: int)
    requires
        0 <= x < w,
        0 <= y < h,
    ensures
        0 <= y * w + x < w * h,
        y * w + x + 1 <= (y + 1) * w,
        (y + 1) * w <= w * h,
{
    assert(0 <= y * w) by (nonlinear_arith)
        requires
            0 <= y,
            0 <= w,
    ;
    assert((y + 1) * w == y * w + w) by (nonlinear_arith);
    assert((y + 1) * w <= h * w) by (nonlinear_arith)
        requires
            y + 1 <= h,
            0 <= w,
    ;
    assert(w * h == h * w) by (nonlinear_arith);
}

pub proof fn lemma_offset_row_order(w: int, x1: int, y1: int, y2: int)
    requires
        0 <= x1 < w,
        y1 < y2,
    ensures
        y1 * w + x1 < y2 * w,
{
    assert(y1 * w + w <= y2 * w) by (nonlinear_arith)
        requires
            y1 + 1 <= y2,
            0 <= w,
    ;
}

pub proof fn lemma_offset_injective(w: int, x1: int, y1: int, x2: int, y2: int)
    requires
        0 <= x1 < w,
        0 <= x2 < w,
        0 <= y1,
        0 <= y2,
        y1 * w + x1 == y2 * w + x2,
    ensures
        x1 == x2,
        y1 == y2,
{
    if y1 < y2 {
        lemma_offset_row_order(w, x1, y1, y2);
    } else if y2 < y1 {
        lemma_offset_row_order(w, x2, y2, y1);
    }
}

/// Two well-formed rasters with the same dimensions and the same pixel at
/// every coordinate are the same raster.
pub proof fn lemma_raster_ext(a: Raster, b: Raster)
    requires
        a.wf(),
        b.wf(),
        a.width == b.width,
        a.height == b.height,
        forall|x: int, y: int| a.contains(x, y) ==> #[trigger] a.at(x, y) == b.at(x, y),
    ensures
        a == b,
{
    let w = a.width as int;
    let h = a.height as int;
    assert forall|i: int| 0 <= i < a.pixels.len() implies a.pixels[i] == b.pixels[i] by {
        let x = i % w;
        let y = i / w;
        vstd::arithmetic::div_mod::lemma_fundamental_div_mod(i, w);
        assert(0 <= x < w);
        assert(0 <= y) by {
            vstd::arithmetic::div_mod::lemma_div_pos_is_pos(i, w);
        }
        assert(i == y * w + x) by {
            assert(w * (i / w) == (i / w) * w) by (nonlinear_arith);
        }
        assert(y < h) by {
            if y >= h {
                assert(y * w >= w * h) by (nonlinear_arith)
                    requires
                        y >= h,
                        w >= 0,
                ;
            }
        }
        assert(a.at(x, y) == b.at(x, y));
    }
    assert(a.pixels =~= b.pixels);
}

/// An owned RGBA image.
pub struct RgbaImage {
    width: u32,
    height: u32,
    pixels: Vec<Rgba>,
}

impl RgbaImage {
    /// Every image holds exactly one pixel per coordinate.
    #[verifier::type_invariant]
    pub open spec fn well_formed(self) -> bool {
        self@.wf()
    }
}

impl View for RgbaImage {
    type V = Raster;

    closed spec fn view(&self) -> Raster {
        Raster { width: self.width as nat, height: self.height as nat, pixels: self.pixels@ }
    }
}

impl RgbaImage {
    /// A `width` x `height` image filled with `px`.
    pub fn from_pixel(width: u32, height: u32, px: Rgba) -> (out: RgbaImage)
        requires
            width * height <= usize::MAX,
        ensures
            out@.wf(),
            out@.width == width,
            out@.height == height,
            forall|x: int, y: int| out@.contains(x, y) ==> #[trigger] out@.at(x, y) == px,
    {
        let n = width as usize * height as usize;
        let mut pixels: Vec<Rgba> = Vec::with_capacity(n);
        let mut i: usize = 0;
        while i < n
            invariant
                n == width * height,
                i <= n,
                pixels@.len() == i,
                forall|j: int| 0 <= j < i ==> pixels@[j] == px,
            decreases n - i,
        {
            pixels.push(px);
            i = i + 1;
        }
        let out = RgbaImage { width, height, pixels };
        proof {
            assert forall|x: int, y: int| out@.contains(x, y) implies #[trigger] out@.at(x, y) == px by {
                lemma_offset_bounds(width as int, height as int, x, y);
            }
        }
        out
    }

    /// An identical copy of the image.
    pub fn duplicate(&self) -> (out: RgbaImage)
        ensures
            out@ == self@,
    {
        proof {
            use_type_invariant(self);
        }
        let pixels = self.pixels.clone();
        proof {
            assert(pixels@ =~= self.pixels@);
        }
        RgbaImage { width: self.width, height: self.height, pixels }
    }

    /// A fully transparent black image.
    pub fn new(width: u32, height: u32) -> (out: RgbaImage)
        requires
            width * height <= usize::MAX,
        ensures
            out@.wf(),
            out@.width == width,
            out@.height == height,
            forall|x: int, y: int| out@.contains(x, y) ==> #[trigger] out@.at(x, y) == (Rgba { r: 0, g: 0, b: 0, a: 0 }),
    {
        RgbaImage::from_pixel(width, height, Rgba { r: 0, g: 0, b: 0, a: 0 })
    }

    pub fn width(&self) -> (w: u32)
        ensures
            w == self@.width,
    {
        self.width
    }

    pub fn height(&self) -> (h: u32)
        ensures
            h == self@.height,
    {
        self.height
    }

    /// The pixel at (x, y). Coordinates outside the image are refused.
    pub fn get_pixel(&self, x: u32, y: u32) -> (px: Rgba)
        requires
            self@.contains(x as int, y as int),
        ensures
            px == self@.at(x as int, y as int),
    {
        proof {
            use_type_invariant(self);
        }
        let n = self.pixels.len();
        proof {
            lemma_offset_bounds(self.width as int, self.height as int, x as int, y as int);
        }
        let i = y as usize * self.width as usize + x as usize;
        self.pixels[i]
    }

    /// Overwrite the pixel at (x, y), leaving every other pixel unchanged.
    pub fn put_pixel(&mut self, x: u32, y: u32, px: Rgba)
        requires
            old(self)@.contains(x as int, y as int),
        ensures
            final(self)@.wf(),
            final(self)@.width == old(self)@.width,
            final(self)@.height == old(self)@.height,
            final(self)@.at(x as int, y as int) == px,
            forall|xx: int, yy: int|
                old(self)@.contains(xx, yy) && !(xx == x && yy == y) ==> #[trigger] final(self)@.at(xx, yy)
                    == old(self)@.at(xx, yy),
    {
        proof {
            use_type_invariant(&*self);
        }
        let n = self.pixels.len();
        proof {
            lemma_offset_bounds(self.width as int, self.height as int, x as int, y as int);
        }
        let i = y as usize * self.width as usize + x as usize;
        // Take the image apart to write the pixel, then put it back together.
        let mut taken = RgbaImage { width: 0, height: 0, pixels: Vec::new() };
        std::mem::swap(self, &mut taken);
        let RgbaImage { width, height, mut pixels } = taken;
        pixels.set(i, px);
        *self = RgbaImage { width, height, pixels };
        proof {
            let w = self.width as int;
            assert forall|xx: int, yy: int|
                old(self)@.contains(xx, yy) && !(xx == x && yy == y) implies #[trigger] self@.at(xx, yy)
                    == old(self)@.at(xx, yy) by {
                lemma_offset_bounds(w, self.height as int, xx, yy);
                if yy * w + xx == y * w + x {
                    lemma_offset_injective(w, xx, yy, x as int, y as int);
                }
            }
        }
    }
}


/// `v` clamped into `[lo, hi]`.
pub open spec fn clamp_int(v: int, lo: int, hi: int) -> int {
    if v < lo {
        lo
    } else if v > hi {
        hi
    } else {
        v
    }
}

/// The pixel window a crop request keeps: `(x0, y0, x1, y1)`, the request
/// clamped to the image and with negative sizes treated as empty.
pub open spec fn crop_window(iw: int, ih: int, x: int, y: int, w: int, h: int) -> (int, int, int, int) {
    let x0 = clamp_int(x, 0, iw);
    let y0 = clamp_int(y, 0, ih);
    let x1 = clamp_int(x + (if w < 0 { 0 } else { w }), 0, iw);
    let y1 = clamp_int(y + (if h < 0 { 0 } else { h }), 0, ih);
    (x0, y0, x1, y1)
}

/// A crop keeps the rows the vertical request selects and the columns the
/// horizontal one selects, each independently of the other: the kept rows do
/// not depend on the requested width nor the kept columns on the requested
/// height, the window lies inside the image, and a selection that lies inside
/// the image is kept exactly, a `w` x `h` window at (`x`, `y`).
pub proof fn law_crop_keeps_the_selected_rows_and_columns(
    iw: int,
    ih: int,
    x: int,
    y: int,
    w: int,
    h: int,
    other_w: int,
    other_h: int,
)
    requires
        0 <= iw,
        0 <= ih,
    ensures
        ({
            let (x0, y0, x1, y1) = crop_window(iw, ih, x, y, w, h);
            let (ox0, oy0, ox1, oy1) = crop_window(iw, ih, x, y, other_w, other_h);
            let (ax0, ay0, ax1, ay1) = crop_window(iw, ih, x, y, other_w, h);
            let (bx0, by0, bx1, by1) = crop_window(iw, ih, x, y, w, other_h);
            &&& ay0 == y0 && ay1 == y1
            &&& bx0 == x0 && bx1 == x1
            &&& 0 <= x0 <= x1 <= iw
            &&& 0 <= y0 <= y1 <= ih
            &&& (0 <= x && 0 <= w && x + w <= iw) ==> (x0 == x && x1 - x0 == w)
            &&& (0 <= y && 0 <= h && y + h <= ih) ==> (y0 == y && y1 - y0 == h)
        }),
{
}

/// `out` is the `cw` x `ch` window of `src` whose top-left corner is (x0, y0).
pub open spec fn is_window(src: Raster, out: Raster, x0: int, y0: int, cw: int, ch: int) -> bool {
    &&& out.wf()
    &&& out.width == cw
    &&& out.height == ch
    &&& forall|i: int, j: int| out.contains(i, j) ==> #[trigger] out.at(i, j) == src.at(x0 + i, y0 + j)
}

impl RgbaImage {
    /// Copy the `cw` x `ch` window at (x0, y0) into a new image.
    fn copy_window(&self, x0: u32, y0: u32, cw: u32, ch: u32) -> (out: RgbaImage)
        requires
            x0 + cw <= self@.width,
            y0 + ch <= self@.height,
        ensures
            is_window(self@, out@, x0 as int, y0 as int, cw as int, ch as int),
    {
        proof {
            use_type_invariant(self);
        }
        let n_src = self.pixels.len();
        proof {
            assert(cw * ch <= self@.width * self@.height) by (nonlinear_arith)
                requires
                    cw <= self@.width,
                    ch <= self@.height,
            ;
        }
        let mut pixels: Vec<Rgba> = Vec::with_capacity(cw as usize * ch as usize);
        let mut j: u32 = 0;
        while j < ch
            invariant
                self@.wf(),
                n_src == self@.pixels.len(),
                x0 + cw <= self@.width,
                y0 + ch <= self@.height,
                j <= ch,
                pixels@.len() == j * cw,
                forall|jj: int, ii: int|
                    0 <= jj < j && 0 <= ii < cw ==> #[trigger] pixels@[offset(cw as int, ii, jj)]
                        == self@.at(x0 + ii, y0 + jj),
            decreases ch - j,
        {
            let mut i: u32 = 0;
            while i < cw
                invariant
                    self@.wf(),
                    n_src == self@.pixels.len(),
                    x0 + cw <= self@.width,
                    y0 + ch <= self@.height,
                    j < ch,
                    i <= cw,
                    pixels@.len() == j * cw + i,
                    forall|jj: int, ii: int|
                        0 <= jj < j && 0 <= ii < cw ==> #[trigger] pixels@[offset(cw as int, ii, jj)]
                            == self@.at(x0 + ii, y0 + jj),
                    forall|ii: int| 0 <= ii < i ==> #[trigger] pixels@[offset(cw as int, ii, j as int)]
                        == self@.at(x0 + ii, y0 + j),
                decreases cw - i,
            {
                let px = self.get_pixel(x0 + i, y0 + j);
                proof {
                    assert forall|jj: int, ii: int| 0 <= jj < j && 0 <= ii < cw implies offset(cw as int, ii, jj) < pixels@.len() by {
                        lemma_offset_row_order(cw as int, ii, jj, j as int);
                    }
                }
                pixels.push(px);
                i = i + 1;
            }
            proof {
                assert((j + 1) * cw == j * cw + cw) by (nonlinear_arith);
            }
            j = j + 1;
        }
        proof {
            assert(ch * cw == cw * ch) by (nonlinear_arith);
        }
        let out = RgbaImage { width: cw, height: ch, pixels };
        proof {
            assert forall|i: int, jj: int| out@.contains(i, jj) implies #[trigger] out@.at(i, jj) == self@.at(
                x0 + i,
                y0 + jj,
            ) by {
                assert(out@.at(i, jj) == pixels@[offset(cw as int, i, jj)]);
            }
        }
        out
    }
}

/// Crop an image, clamping the rectangle to the image bounds.
///
/// The input is returned unchanged when the clamped rectangle is empty, which
/// is safer than producing a zero-sized image the encoder would reject.
pub fn crop_rgba(img: RgbaImage, x: i32, y: i32, w: i32, h: i32) -> (out: RgbaImage)
    ensures
        ({
            let (x0, y0, x1, y1) = crop_window(img@.width as int, img@.height as int, x as int, y as int, w as int, h as int);
            if x1 - x0 == 0 || y1 - y0 == 0 {
                out@ == img@
            } else {
                is_window(img@, out@, x0, y0, x1 - x0, y1 - y0)
            }
        }),
{
    proof {
        use_type_invariant(&img);
    }
    let iw = img.width() as i64;
    let ih = img.height() as i64;

    let x0 = clamp_i64(x as i64, 0, iw);
    let y0 = clamp_i64(y as i64, 0, ih);
    let x1 = clamp_i64(x as i64 + (if w < 0 { 0 } else { w }) as i64, 0, iw);
    let y1 = clamp_i64(y as i64 + (if h < 0 { 0 } else { h }) as i64, 0, ih);

    if x1 - x0 <= 0 || y1 - y0 <= 0 {
        return img;
    }
    let cw = (x1 - x0) as u32;
    let ch = (y1 - y0) as u32;
    img.copy_window(x0 as u32, y0 as u32, cw, ch)
}

fn clamp_i64(v: i64, lo: i64, hi: i64) -> (r: i64)
    requires
        lo <= hi,
    ensures
        r == clamp_int(v as int, lo as int, hi as int),
{
    if v < lo {
        lo
    } else if v > hi {
        hi
    } else {
        v
    }
}


/// Channel `c` of a pixel: 0 red, 1 green, 2 blue, 3 alpha.
pub open spec fn channel(p: Rgba, c: int) -> int {
    if c == 0 {
        p.r as int
    } else if c == 1 {
        p.g as int
    } else if c == 2 {
        p.b as int
    } else {
        p.a as int
    }
}

/// Sum of channel `c` over columns `[x0, x1)` of row `y`.
pub open spec fn row_sum(r: Raster, c: int, y: int, x0: int, x1: int) -> int
    decreases x1 - x0,
{
    if x1 <= x0 {
        0
    } else {
        row_sum(r, c, y, x0, x1 - 1) + channel(r.at(x1 - 1, y), c)
    }
}

/// Sum of channel `c` over the rectangle `[x0, x1) x [y0, y1)`.
pub open spec fn rect_sum(r: Raster, c: int, x0: int, y0: int, x1: int, y1: int) -> int
    decreases y1 - y0,
{
    if y1 <= y0 {
        0
    } else {
        rect_sum(r, c, x0, y0, x1, y1 - 1) + row_sum(r, c, y1 - 1, x0, x1)
    }
}

/// The per-channel average of the rectangle `[x0, x1) x [y0, y1)`, each
/// channel truncated to a byte.
pub open spec fn rect_mean(r: Raster, x0: int, y0: int, x1: int, y1: int) -> Rgba {
    let n = (x1 - x0) * (y1 - y0);
    Rgba {
        r: (rect_sum(r, 0, x0, y0, x1, y1) / n) as u8,
        g: (rect_sum(r, 1, x0, y0, x1, y1) / n) as u8,
        b: (rect_sum(r, 2, x0, y0, x1, y1) / n) as u8,
        a: (rect_sum(r, 3, x0, y0, x1, y1) / n) as u8,
    }
}

proof fn lemma_row_sum_frame(a: Raster, b: Raster, c: int, y: int, x0: int, x1: int)
    requires
        forall|x: int| x0 <= x < x1 ==> #[trigger] a.at(x, y) == b.at(x, y),
    ensures
        row_sum(a, c, y, x0, x1) == row_sum(b, c, y, x0, x1),
    decreases x1 - x0,
{
    if x1 > x0 {
        lemma_row_sum_frame(a, b, c, y, x0, x1 - 1);
    }
}

proof fn lemma_rect_sum_frame(a: Raster, b: Raster, c: int, x0: int, y0: int, x1: int, y1: int)
    requires
        forall|x: int, y: int| x0 <= x < x1 && y0 <= y < y1 ==> #[trigger] a.at(x, y) == b.at(x, y),
    ensures
        rect_sum(a, c, x0, y0, x1, y1) == rect_sum(b, c, x0, y0, x1, y1),
    decreases y1 - y0,
{
    if y1 > y0 {
        lemma_rect_sum_frame(a, b, c, x0, y0, x1, y1 - 1);
        lemma_row_sum_frame(a, b, c, y1 - 1, x0, x1);
    }
}

/// Average a channel-sum accumulator, or `None` for an empty block.
pub fn mean_pixel(sum: [u64; 4], count: u64) -> (out: Option<Rgba>)
    ensures
        count == 0 <==> out is None,
        count != 0 ==> out == Some(
            Rgba {
                r: (sum[0] / count) as u8,
                g: (sum[1] / count) as u8,
                b: (sum[2] / count) as u8,
                a: (sum[3] / count) as u8,
            },
        ),
{
    if count == 0 {
        return None;
    }
    Some(
        Rgba {
            r: (sum[0] / count) as u8,
            g: (sum[1] / count) as u8,
            b: (sum[2] / count) as u8,
            a: (sum[3] / count) as u8,
        },
    )
}

impl RgbaImage {
    /// Per-channel sums over a block of at most 64 x 64 pixels
    /// (`[bx, ex) x [by, ey)`), in R, G, B, A order, and the block's pixel count.
    pub fn block_sums(&self, bx: u32, by: u32, ex: u32, ey: u32) -> (out: ([u64; 4], u64))
        requires
            bx < ex <= self@.width,
            by < ey <= self@.height,
            ex - bx <= 64,
            ey - by <= 64,
        ensures
            out.0[0] == rect_sum(self@, 0, bx as int, by as int, ex as int, ey as int),
            out.0[1] == rect_sum(self@, 1, bx as int, by as int, ex as int, ey as int),
            out.0[2] == rect_sum(self@, 2, bx as int, by as int, ex as int, ey as int),
            out.0[3] == rect_sum(self@, 3, bx as int, by as int, ex as int, ey as int),
            out.1 == (ex - bx) * (ey - by),
            out.1 > 0,
    {
        proof {
            use_type_invariant(self);
        }
        let ghost r = self@;
        let ghost wd = (ex - bx) as int;
        let mut s0: u64 = 0;
        let mut s1: u64 = 0;
        let mut s2: u64 = 0;
        let mut s3: u64 = 0;
        let mut count: u64 = 0;
        let mut y = by;
        while y < ey
            invariant
                r == self@,
                self@.wf(),
                wd == ex - bx,
                bx < ex <= self@.width,
                by < ey <= self@.height,
                ex - bx <= 64,
                ey - by <= 64,
                by <= y <= ey,
                count == (y - by) * wd,
                count <= 4096,
                s0 == rect_sum(r, 0, bx as int, by as int, ex as int, y as int),
                s1 == rect_sum(r, 1, bx as int, by as int, ex as int, y as int),
                s2 == rect_sum(r, 2, bx as int, by as int, ex as int, y as int),
                s3 == rect_sum(r, 3, bx as int, by as int, ex as int, y as int),
                s0 <= 255 * count,
                s1 <= 255 * count,
                s2 <= 255 * count,
                s3 <= 255 * count,
            decreases ey - y,
        {
            let mut x = bx;
            let ghost c0 = count;
            let ghost t0 = s0;
            let ghost t1 = s1;
            let ghost t2 = s2;
            let ghost t3 = s3;
            proof {
                assert((y - by) * wd + wd <= 64 * 64) by (nonlinear_arith)
                    requires
                        y < ey,
                        ey - by <= 64,
                        0 <= wd <= 64,
                        by <= y,
                ;
                assert((y - by) * wd + wd == (y + 1 - by) * wd) by (nonlinear_arith);
            }
            while x < ex
                invariant
                    r == self@,
                    self@.wf(),
                    bx < ex <= self@.width,
                    by <= y < ey <= self@.height,
                    bx <= x <= ex,
                    c0 + wd <= 4096,
                    count == c0 + (x - bx),
                    wd == ex - bx,
                    s0 == t0 + row_sum(r, 0, y as int, bx as int, x as int),
                    s1 == t1 + row_sum(r, 1, y as int, bx as int, x as int),
                    s2 == t2 + row_sum(r, 2, y as int, bx as int, x as int),
                    s3 == t3 + row_sum(r, 3, y as int, bx as int, x as int),
                    s0 <= 255 * count,
                    s1 <= 255 * count,
                    s2 <= 255 * count,
                    s3 <= 255 * count,
                decreases ex - x,
            {
                let px = self.get_pixel(x, y);
                s0 = s0 + px.r as u64;
                s1 = s1 + px.g as u64;
                s2 = s2 + px.b as u64;
                s3 = s3 + px.a as u64;
                count = count + 1;
                x = x + 1;
            }
            y = y + 1;
        }
        proof {
            assert(count == wd * (ey - by)) by (nonlinear_arith)
                requires
                    count == (ey - by) * wd,
            ;
            assert(count > 0) by (nonlinear_arith)
                requires
                    count == wd * (ey - by),
                    wd > 0,
                    ey - by > 0,
            ;
        }
        ([s0, s1, s2, s3], count)
    }

    /// Per-channel average of a block of at most 64 x 64 pixels.
    fn block_average(&self, bx: u32, by: u32, ex: u32, ey: u32) -> (out: Rgba)
        requires
            bx < ex <= self@.width,
            by < ey <= self@.height,
            ex - bx <= 64,
            ey - by <= 64,
        ensures
            out == rect_mean(self@, bx as int, by as int, ex as int, ey as int),
    {
        proof {
            use_type_invariant(self);
        }
        let (sum, count) = self.block_sums(bx, by, ex, ey);
        let avg = mean_pixel(sum, count);
        avg.unwrap()
    }
}

/// Overwrite the rectangle `[x0, x1) x [y0, y1)` with `px`.
pub fn fill_rect(img: &mut RgbaImage, x0: u32, y0: u32, x1: u32, y1: u32, px: Rgba)
    requires
        x0 <= x1 <= old(img)@.width,
        y0 <= y1 <= old(img)@.height,
    ensures
        final(img)@.wf(),
        final(img)@.width == old(img)@.width,
        final(img)@.height == old(img)@.height,
        forall|x: int, y: int|
            #![trigger final(img)@.at(x, y)]
            old(img)@.contains(x, y) ==> final(img)@.at(x, y) == if x0 <= x < x1 && y0 <= y < y1 {
                px
            } else {
                old(img)@.at(x, y)
            },
{
    proof {
        use_type_invariant(&*img);
    }
    let ghost r = img@;
    let mut y = y0;
    while y < y1
        invariant
            img@.wf(),
            img@.width == r.width,
            img@.height == r.height,
            x0 <= x1 <= r.width,
            y0 <= y <= y1 <= r.height,
            forall|x: int, yy: int|
                #![trigger img@.at(x, yy)]
                r.contains(x, yy) ==> img@.at(x, yy) == if x0 <= x < x1 && y0 <= yy < y {
                    px
                } else {
                    r.at(x, yy)
                },
        decreases y1 - y,
    {
        let mut x = x0;
        while x < x1
            invariant
                img@.wf(),
                img@.width == r.width,
                img@.height == r.height,
                x0 <= x <= x1 <= r.width,
                y0 <= y < y1 <= r.height,
                forall|xx: int, yy: int|
                    #![trigger img@.at(xx, yy)]
                    r.contains(xx, yy) ==> img@.at(xx, yy) == if x0 <= xx < x1 && y0 <= yy < y {
                        px
                    } else if yy == y && x0 <= xx < x {
                        px
                    } else {
                        r.at(xx, yy)
                    },
            decreases x1 - x,
        {
            img.put_pixel(x, y, px);
            x = x + 1;
        }
        y = y + 1;
    }
}


/// First coordinate of the mosaic block holding `v`, for blocks of `block`
/// pixels laid out from `lo`.
pub open spec fn block_start(lo: int, block: int, v: int) -> int {
    lo + ((v - lo) / block) * block
}

/// One past the last coordinate of the block holding `v`, clipped to `hi`.
pub open spec fn block_end(lo: int, hi: int, block: int, v: int) -> int {
    if block_start(lo, block, v) + block < hi {
        block_start(lo, block, v) + block
    } else {
        hi
    }
}

/// The value a pixelated rectangle holds at (x, y): the mean of the block
/// containing (x, y), taken over the original pixels.
pub open spec fn pixelated_at(
    r: Raster,
    x0: int,
    y0: int,
    x1: int,
    y1: int,
    block: int,
    x: int,
    y: int,
) -> Rgba {
    rect_mean(
        r,
        block_start(x0, block, x),
        block_start(y0, block, y),
        block_end(x0, x1, block, x),
        block_end(y0, y1, block, y),
    )
}

proof fn lemma_block_start(lo: int, block: int, k: int, v: int)
    requires
        block > 0,
        k >= 0,
        lo + k * block <= v < lo + k * block + block,
    ensures
        block_start(lo, block, v) == lo + k * block,
{
    vstd::arithmetic::div_mod::lemma_fundamental_div_mod_converse_div(
        v - lo,
        block,
        k,
        v - lo - k * block,
    );
}

/// Replace every `block` x `block` tile of the rectangle `[x0, x1) x [y0, y1)`
/// by its average, tiles being laid out from (x0, y0) and clipped to the
/// rectangle. Pixels outside the rectangle are untouched.
pub fn pixelate_rect(img: &mut RgbaImage, x0: u32, y0: u32, x1: u32, y1: u32, block: u32)
    requires
        x0 <= x1 <= old(img)@.width,
        y0 <= y1 <= old(img)@.height,
        1 <= block <= 64,
    ensures
        final(img)@.wf(),
        final(img)@.width == old(img)@.width,
        final(img)@.height == old(img)@.height,
        forall|x: int, y: int|
            #![trigger final(img)@.at(x, y)]
            old(img)@.contains(x, y) ==> final(img)@.at(x, y) == if x0 <= x < x1 && y0 <= y < y1 {
                pixelated_at(old(img)@, x0 as int, y0 as int, x1 as int, y1 as int, block as int, x, y)
            } else {
                old(img)@.at(x, y)
            },
{
    proof {
        use_type_invariant(&*img);
    }
    let ghost r = img@;
    let ghost b = block as int;
    let mut by: u64 = y0 as u64;
    let ghost mut ky: int = 0;
    while by < y1 as u64
        invariant
            img@.wf(),
            img@.width == r.width,
            img@.height == r.height,
            r.wf(),
            x0 <= x1 <= r.width,
            y0 <= y1 <= r.height,
            1 <= block <= 64,
            b == block,
            ky >= 0,
            by == y0 + ky * b,
            y0 <= by,
            by < y1 ==> by <= y1,
            forall|x: int, y: int|
                #![trigger img@.at(x, y)]
                r.contains(x, y) ==> img@.at(x, y) == if x0 <= x < x1 && y0 <= y < y1 && y < by {
                    pixelated_at(r, x0 as int, y0 as int, x1 as int, y1 as int, b, x, y)
                } else {
                    r.at(x, y)
                },
        decreases y1 + block - by,
    {
        let by_end: u64 = if by + block as u64 <= y1 as u64 {
            by + block as u64
        } else {
            y1 as u64
        };
        let mut bx: u64 = x0 as u64;
        let ghost mut kx: int = 0;
        while bx < x1 as u64
            invariant
                img@.wf(),
                img@.width == r.width,
                img@.height == r.height,
                r.wf(),
                x0 <= x1 <= r.width,
                y0 <= by < by_end <= y1 <= r.height,
                by_end == (if by + b <= y1 { by + b } else { y1 as int }),
                1 <= block <= 64,
                b == block,
                ky >= 0,
                by == y0 + ky * b,
                kx >= 0,
                bx == x0 + kx * b,
                x0 <= bx,
                forall|x: int, y: int|
                    #![trigger img@.at(x, y)]
                    r.contains(x, y) ==> img@.at(x, y) == if x0 <= x < x1 && y0 <= y < y1 && (y < by
                        || (y < by_end && x < bx)) {
                        pixelated_at(r, x0 as int, y0 as int, x1 as int, y1 as int, b, x, y)
                    } else {
                        r.at(x, y)
                    },
            decreases x1 + block - bx,
        {
            let bx_end: u64 = if bx + block as u64 <= x1 as u64 {
                bx + block as u64
            } else {
                x1 as u64
            };
            let ghost cur = img@;
            proof {
                assert forall|x: int, y: int| bx <= x < bx_end && by <= y < by_end implies #[trigger] cur.at(x, y)
                    == r.at(x, y) by {
                    assert(r.contains(x, y));
                }
                lemma_rect_sum_frame(cur, r, 0, bx as int, by as int, bx_end as int, by_end as int);
                lemma_rect_sum_frame(cur, r, 1, bx as int, by as int, bx_end as int, by_end as int);
                lemma_rect_sum_frame(cur, r, 2, bx as int, by as int, bx_end as int, by_end as int);
                lemma_rect_sum_frame(cur, r, 3, bx as int, by as int, bx_end as int, by_end as int);
            }
            let avg = img.block_average(bx as u32, by as u32, bx_end as u32, by_end as u32);
            assert(avg == rect_mean(r, bx as int, by as int, bx_end as int, by_end as int));
            fill_rect(img, bx as u32, by as u32, bx_end as u32, by_end as u32, avg);
            proof {
                assert forall|x: int, y: int|
                    #![trigger img@.at(x, y)]
                    r.contains(x, y) && x0 <= x < x1 && y0 <= y < y1 && !(y < by || (y < by_end && x < bx))
                        && (y < by_end && x < bx_end) implies img@.at(x, y) == pixelated_at(
                    r,
                    x0 as int,
                    y0 as int,
                    x1 as int,
                    y1 as int,
                    b,
                    x,
                    y,
                ) by {
                    lemma_block_start(x0 as int, b, kx, x);
                    lemma_block_start(y0 as int, b, ky, y);
                }
            }
            bx = bx + block as u64;
            proof {
                kx = kx + 1;
                assert(x0 + kx * b == x0 + (kx - 1) * b + b) by (nonlinear_arith);
            }
        }
        proof {
            assert forall|x: int, y: int|
                #![trigger img@.at(x, y)]
                r.contains(x, y) implies img@.at(x, y) == if x0 <= x < x1 && y0 <= y < y1 && y < by_end {
                    pixelated_at(r, x0 as int, y0 as int, x1 as int, y1 as int, b, x, y)
                } else {
                    r.at(x, y)
                } by {}
        }
        by = by + block as u64;
        proof {
            ky = ky + 1;
            assert(y0 + ky * b == y0 + (ky - 1) * b + b) by (nonlinear_arith);
            assert forall|x: int, y: int|
                #![trigger img@.at(x, y)]
                r.contains(x, y) implies img@.at(x, y) == if x0 <= x < x1 && y0 <= y < y1 && y < by {
                    pixelated_at(r, x0 as int, y0 as int, x1 as int, y1 as int, b, x, y)
                } else {
                    r.at(x, y)
                } by {}
        }
    }
}


/// A rearrangement of the pixel grid.
#[derive(Clone, Copy, PartialEq, Eq, Debug, Structural)]
pub enum Remap {
    /// Quarter turn clockwise.
    Rot90,
    /// Half turn.
    Rot180,
    /// Quarter turn counter-clockwise.
    Rot270,
    /// Mirror left to right.
    FlipH,
    /// Mirror top to bottom.
    FlipV,
}

/// Width and height of the image a remap produces from a `w` x `h` one.
pub open spec fn remap_dims(kind: Remap, w: int, h: int) -> (int, int) {
    match kind {
        Remap::Rot90 | Remap::Rot270 => (h, w),
        _ => (w, h),
    }
}

/// The source pixel that lands at (u, v) when a `w` x `h` image is remapped.
pub open spec fn remap_source(kind: Remap, w: int, h: int, u: int, v: int) -> (int, int) {
    match kind {
        Remap::Rot90 => (v, h - 1 - u),
        Remap::Rot180 => (w - 1 - u, h - 1 - v),
        Remap::Rot270 => (w - 1 - v, u),
        Remap::FlipH => (w - 1 - u, v),
        Remap::FlipV => (u, h - 1 - v),
    }
}

/// `out` is `src` remapped by `kind`.
pub open spec fn is_remap(kind: Remap, src: Raster, out: Raster) -> bool {
    let (ow, oh) = remap_dims(kind, src.width as int, src.height as int);
    &&& out.wf()
    &&& out.width == ow
    &&& out.height == oh
    &&& forall|u: int, v: int|
        out.contains(u, v) ==> #[trigger] out.at(u, v) == src.at(
            remap_source(kind, src.width as int, src.height as int, u, v).0,
            remap_source(kind, src.width as int, src.height as int, u, v).1,
        )
}

fn remap_source_exec(kind: Remap, w: u32, h: u32, u: u32, v: u32) -> (s: (u32, u32))
    requires
        ({
            let (ow, oh) = remap_dims(kind, w as int, h as int);
            u < ow && v < oh
        }),
    ensures
        s.0 == remap_source(kind, w as int, h as int, u as int, v as int).0,
        s.1 == remap_source(kind, w as int, h as int, u as int, v as int).1,
        s.0 < w,
        s.1 < h,
{
    match kind {
        Remap::Rot90 => (v, h - 1 - u),
        Remap::Rot180 => (w - 1 - u, h - 1 - v),
        Remap::Rot270 => (w - 1 - v, u),
        Remap::FlipH => (w - 1 - u, v),
        Remap::FlipV => (u, h - 1 - v),
    }
}

impl RgbaImage {
    /// The image rearranged by `kind`.
    pub fn remap(&self, kind: Remap) -> (out: RgbaImage)
        ensures
            is_remap(kind, self@, out@),
    {
        proof {
            use_type_invariant(self);
        }
        let w = self.width;
        let h = self.height;
        let n_src = self.pixels.len();
        let (ow, oh) = match kind {
            Remap::Rot90 | Remap::Rot270 => (h, w),
            _ => (w, h),
        };
        proof {
            assert(ow * oh == w * h) by (nonlinear_arith)
                requires
                    (ow == w && oh == h) || (ow == h && oh == w),
            ;
        }
        let mut pixels: Vec<Rgba> = Vec::with_capacity(ow as usize * oh as usize);
        let mut v: u32 = 0;
        while v < oh
            invariant
                self@.wf(),
                n_src == self@.pixels.len(),
                w == self@.width,
                h == self@.height,
                (ow as int, oh as int) == remap_dims(kind, w as int, h as int),
                v <= oh,
                pixels@.len() == v * ow,
                forall|vv: int, uu: int|
                    0 <= vv < v && 0 <= uu < ow ==> #[trigger] pixels@[offset(ow as int, uu, vv)] == self@.at(
                        remap_source(kind, w as int, h as int, uu, vv).0,
                        remap_source(kind, w as int, h as int, uu, vv).1,
                    ),
            decreases oh - v,
        {
            let mut u: u32 = 0;
            while u < ow
                invariant
                    self@.wf(),
                    n_src == self@.pixels.len(),
                    w == self@.width,
                    h == self@.height,
                    (ow as int, oh as int) == remap_dims(kind, w as int, h as int),
                    v < oh,
                    u <= ow,
                    pixels@.len() == v * ow + u,
                    forall|vv: int, uu: int|
                        0 <= vv < v && 0 <= uu < ow ==> #[trigger] pixels@[offset(ow as int, uu, vv)]
                            == self@.at(
                            remap_source(kind, w as int, h as int, uu, vv).0,
                            remap_source(kind, w as int, h as int, uu, vv).1,
                        ),
                    forall|uu: int|
                        0 <= uu < u ==> #[trigger] pixels@[offset(ow as int, uu, v as int)] == self@.at(
                            remap_source(kind, w as int, h as int, uu, v as int).0,
                            remap_source(kind, w as int, h as int, uu, v as int).1,
                        ),
                decreases ow - u,
            {
                let (sx, sy) = remap_source_exec(kind, w, h, u, v);
                let px = self.get_pixel(sx, sy);
                proof {
                    assert forall|vv: int, uu: int| 0 <= vv < v && 0 <= uu < ow implies offset(ow as int, uu, vv)
                        < pixels@.len() by {
                        lemma_offset_row_order(ow as int, uu, vv, v as int);
                    }
                }
                pixels.push(px);
                u = u + 1;
            }
            proof {
                assert((v + 1) * ow == v * ow + ow) by (nonlinear_arith);
            }
            v = v + 1;
        }
        let out = RgbaImage { width: ow, height: oh, pixels };
        proof {
            assert(out@.wf()) by {
                assert(oh * ow == ow * oh) by (nonlinear_arith);
            }
            assert forall|uu: int, vv: int| out@.contains(uu, vv) implies #[trigger] out@.at(uu, vv) == self@.at(
                remap_source(kind, w as int, h as int, uu, vv).0,
                remap_source(kind, w as int, h as int, uu, vv).1,
            ) by {
                assert(out@.at(uu, vv) == pixels@[offset(ow as int, uu, vv)]);
            }
        }
        out
    }
}

/// Mirroring twice along the same axis restores the image.
pub proof fn law_flips_are_involutions(a: Raster, b: Raster, c: Raster, kind: Remap)
    requires
        a.wf(),
        kind == Remap::FlipH || kind == Remap::FlipV,
        is_remap(kind, a, b),
        is_remap(kind, b, c),
    ensures
        c == a,
{
    assert forall|x: int, y: int| c.contains(x, y) implies #[trigger] c.at(x, y) == a.at(x, y) by {
        let (sx, sy) = remap_source(kind, b.width as int, b.height as int, x, y);
        assert(b.contains(sx, sy));
        assert(b.at(sx, sy) == a.at(
            remap_source(kind, a.width as int, a.height as int, sx, sy).0,
            remap_source(kind, a.width as int, a.height as int, sx, sy).1,
        ));
    }
    lemma_raster_ext(c, a);
}

/// A quarter turn one way followed by a quarter turn the other way restores
/// the image, in either order.
pub proof fn law_quarter_turns_cancel(a: Raster, b: Raster, c: Raster, first: Remap, second: Remap)
    requires
        a.wf(),
        (first == Remap::Rot90 && second == Remap::Rot270) || (first == Remap::Rot270 && second
            == Remap::Rot90),
        is_remap(first, a, b),
        is_remap(second, b, c),
    ensures
        c == a,
{
    assert forall|x: int, y: int| c.contains(x, y) implies #[trigger] c.at(x, y) == a.at(x, y) by {
        let (sx, sy) = remap_source(second, b.width as int, b.height as int, x, y);
        assert(b.contains(sx, sy));
        assert(b.at(sx, sy) == a.at(
            remap_source(first, a.width as int, a.height as int, sx, sy).0,
            remap_source(first, a.width as int, a.height as int, sx, sy).1,
        ));
    }
    lemma_raster_ext(c, a);
}

/// Two quarter turns clockwise make a half turn, and two half turns restore
/// the image; so four quarter turns are the identity.
pub proof fn law_four_quarter_turns_are_the_identity(a: Raster, b: Raster, c: Raster, d: Raster, e: Raster)
    requires
        a.wf(),
        is_remap(Remap::Rot90, a, b),
        is_remap(Remap::Rot90, b, c),
        is_remap(Remap::Rot90, c, d),
        is_remap(Remap::Rot90, d, e),
    ensures
        e == a,
        is_remap(Remap::Rot180, a, c),
{
    assert forall|x: int, y: int| c.contains(x, y) implies #[trigger] c.at(x, y) == a.at(
        remap_source(Remap::Rot180, a.width as int, a.height as int, x, y).0,
        remap_source(Remap::Rot180, a.width as int, a.height as int, x, y).1,
    ) by {
        let (sx, sy) = remap_source(Remap::Rot90, b.width as int, b.height as int, x, y);
        assert(b.contains(sx, sy));
        assert(b.at(sx, sy) == a.at(
            remap_source(Remap::Rot90, a.width as int, a.height as int, sx, sy).0,
            remap_source(Remap::Rot90, a.width as int, a.height as int, sx, sy).1,
        ));
    }
    assert forall|x: int, y: int| e.contains(x, y) implies #[trigger] e.at(x, y) == a.at(x, y) by {
        let (sx, sy) = remap_source(Remap::Rot90, d.width as int, d.height as int, x, y);
        assert(d.contains(sx, sy));
        let (tx, ty) = remap_source(Remap::Rot90, c.width as int, c.height as int, sx, sy);
        assert(c.contains(tx, ty));
        assert(d.at(sx, sy) == c.at(tx, ty));
        assert(c.at(tx, ty) == a.at(
            remap_source(Remap::Rot180, a.width as int, a.height as int, tx, ty).0,
            remap_source(Remap::Rot180, a.width as int, a.height as int, tx, ty).1,
        ));
    }
    lemma_raster_ext(e, a);
}


/// A colour operation applied to every pixel independently.
#[derive(Clone, Copy, PartialEq, Eq, Debug, Structural)]
pub enum PixelOp {
    /// Replace each colour channel `c` by `255 - c`, keeping alpha.
    Invert,
    /// Add the amount to each colour channel, saturating at 0 and 255, keeping alpha.
    Brighten(i32),
    /// Replace the colour by its Rec. 709 luma, keeping alpha.
    Grayscale,
}

/// `c + v` saturated into a byte.
pub open spec fn saturate(c: int, v: int) -> u8 {
    if c + v < 0 {
        0
    } else if c + v > 255 {
        255
    } else {
        (c + v) as u8
    }
}

/// Integer Rec. 709 luma of a pixel's colour.
pub open spec fn luma(p: Rgba) -> u8 {
    ((2126 * p.r + 7152 * p.g + 722 * p.b) / 10000) as u8
}

pub open spec fn apply_op(op: PixelOp, p: Rgba) -> Rgba {
    match op {
        PixelOp::Invert => Rgba { r: (255 - p.r) as u8, g: (255 - p.g) as u8, b: (255 - p.b) as u8, a: p.a },
        PixelOp::Brighten(v) => Rgba {
            r: saturate(p.r as int, v as int),
            g: saturate(p.g as int, v as int),
            b: saturate(p.b as int, v as int),
            a: p.a,
        },
        PixelOp::Grayscale => Rgba { r: luma(p), g: luma(p), b: luma(p), a: p.a },
    }
}

/// `out` is `src` with `op` applied to every pixel.
pub open spec fn is_mapped(op: PixelOp, src: Raster, out: Raster) -> bool {
    &&& out.wf()
    &&& out.width == src.width
    &&& out.height == src.height
    &&& forall|x: int, y: int| out.contains(x, y) ==> #[trigger] out.at(x, y) == apply_op(op, src.at(x, y))
}

fn saturate_exec(c: u8, v: i32) -> (out: u8)
    ensures
        out == saturate(c as int, v as int),
{
    let s = c as i64 + v as i64;
    if s < 0 {
        0
    } else if s > 255 {
        255
    } else {
        s as u8
    }
}

fn apply_op_exec(op: PixelOp, p: Rgba) -> (out: Rgba)
    ensures
        out == apply_op(op, p),
{
    match op {
        PixelOp::Invert => Rgba { r: 255 - p.r, g: 255 - p.g, b: 255 - p.b, a: p.a },
        PixelOp::Brighten(v) => Rgba {
            r: saturate_exec(p.r, v),
            g: saturate_exec(p.g, v),
            b: saturate_exec(p.b, v),
            a: p.a,
        },
        PixelOp::Grayscale => {
            let l = ((2126u32 * p.r as u32 + 7152u32 * p.g as u32 + 722u32 * p.b as u32) / 10000)
                as u8;
            Rgba { r: l, g: l, b: l, a: p.a }
        },
    }
}

impl RgbaImage {
    /// The image with `op` applied to every pixel.
    pub fn map_pixels(&self, op: PixelOp) -> (out: RgbaImage)
        ensures
            is_mapped(op, self@, out@),
    {
        proof {
            use_type_invariant(self);
        }
        let n = self.pixels.len();
        let mut pixels: Vec<Rgba> = Vec::with_capacity(n);
        let mut i: usize = 0;
        while i < n
            invariant
                n == self.pixels@.len(),
                i <= n,
                pixels@.len() == i,
                forall|j: int| 0 <= j < i ==> #[trigger] pixels@[j] == apply_op(op, self.pixels@[j]),
            decreases n - i,
        {
            pixels.push(apply_op_exec(op, self.pixels[i]));
            i = i + 1;
        }
        let out = RgbaImage { width: self.width, height: self.height, pixels };
        proof {
            assert forall|x: int, y: int| out@.contains(x, y) implies #[trigger] out@.at(x, y) == apply_op(
                op,
                self@.at(x, y),
            ) by {
                lemma_offset_bounds(self.width as int, self.height as int, x, y);
            }
        }
        out
    }

    /// Invert the colours in place, keeping alpha.
    pub fn invert(&mut self)
        ensures
            is_mapped(PixelOp::Invert, old(self)@, final(self)@),
    {
        proof {
            use_type_invariant(&*self);
        }
        *self = self.map_pixels(PixelOp::Invert);
    }

    /// Add `value` to every colour channel, saturating, keeping alpha.
    pub fn brighten(&self, value: i32) -> (out: RgbaImage)
        ensures
            is_mapped(PixelOp::Brighten(value), self@, out@),
    {
        proof {
            use_type_invariant(self);
        }
        self.map_pixels(PixelOp::Brighten(value))
    }

    /// A grayscale copy that keeps the RGBA pixel type and the alpha channel.
    pub fn grayscale(&self) -> (out: RgbaImage)
        ensures
            is_mapped(PixelOp::Grayscale, self@, out@),
    {
        proof {
            use_type_invariant(self);
        }
        self.map_pixels(PixelOp::Grayscale)
    }
}

/// Inverting twice restores the image.
pub proof fn law_invert_is_an_involution(a: Raster, b: Raster, c: Raster)
    requires
        a.wf(),
        is_mapped(PixelOp::Invert, a, b),
        is_mapped(PixelOp::Invert, b, c),
    ensures
        c == a,
{
    assert forall|x: int, y: int| c.contains(x, y) implies #[trigger] c.at(x, y) == a.at(x, y) by {
        assert(b.at(x, y) == apply_op(PixelOp::Invert, a.at(x, y)));
    }
    lemma_raster_ext(c, a);
}

/// Inverting flips each colour channel, `c` becoming `255 - c`, and keeps
/// each pixel's alpha.
pub proof fn law_invert_flips_colours_and_keeps_alpha(src: Raster, out: Raster)
    requires
        is_mapped(PixelOp::Invert, src, out),
    ensures
        forall|x: int, y: int|
            #![trigger out.at(x, y)]
            out.contains(x, y) ==> {
                &&& out.at(x, y).r == 255 - src.at(x, y).r
                &&& out.at(x, y).g == 255 - src.at(x, y).g
                &&& out.at(x, y).b == 255 - src.at(x, y).b
                &&& out.at(x, y).a == src.at(x, y).a
            },
{
    assert forall|x: int, y: int| out.contains(x, y) implies {
        &&& out.at(x, y).r == 255 - src.at(x, y).r
        &&& out.at(x, y).g == 255 - src.at(x, y).g
        &&& out.at(x, y).b == 255 - src.at(x, y).b
        &&& out.at(x, y).a == src.at(x, y).a
    } by {
        assert(out.at(x, y) == apply_op(PixelOp::Invert, src.at(x, y)));
    }
}

/// Every colour adjustment keeps each pixel's alpha.
pub proof fn law_adjustments_keep_alpha(op: PixelOp, src: Raster, out: Raster)
    requires
        is_mapped(op, src, out),
    ensures
        forall|x: int, y: int| #![trigger out.at(x, y)] out.contains(x, y) ==> out.at(x, y).a == src.at(x, y).a,
{
    assert forall|x: int, y: int| out.contains(x, y) implies out.at(x, y).a == src.at(x, y).a by {
        assert(out.at(x, y) == apply_op(op, src.at(x, y)));
    }
}

/// One opaque RGB pixel.
#[derive(Clone, Copy, PartialEq, Eq, Debug, Structural)]
pub struct Rgb {
    pub r: u8,
    pub g: u8,
    pub b: u8,
}

/// An owned opaque RGB image, as handed to the JPEG encoder.
pub struct RgbImage {
    width: u32,
    height: u32,
    pixels: Vec<Rgb>,
}

impl RgbImage {
    pub closed spec fn spec_width(&self) -> nat {
        self.width as nat
    }

    pub closed spec fn spec_height(&self) -> nat {
        self.height as nat
    }

    /// The pixel at column `x`, row `y`.
    pub closed spec fn spec_at(&self, x: int, y: int) -> Rgb {
        self.pixels@[y * self.width + x]
    }

    pub closed spec fn wf(&self) -> bool {
        self.pixels@.len() == self.width * self.height
    }

    /// The pixels in row-major order.
    pub closed spec fn spec_pixels(&self) -> Seq<Rgb> {
        self.pixels@
    }

    pub fn width(&self) -> (w: u32)
        ensures
            w == self.spec_width(),
    {
        self.width
    }

    pub fn height(&self) -> (h: u32)
        ensures
            h == self.spec_height(),
    {
        self.height
    }

    pub fn get_pixel(&self, x: u32, y: u32) -> (px: Rgb)
        requires
            self.wf(),
            x < self.spec_width(),
            y < self.spec_height(),
        ensures
            px == self.spec_at(x as int, y as int),
    {
        let n = self.pixels.len();
        proof {
            lemma_offset_bounds(self.width as int, self.height as int, x as int, y as int);
        }
        self.pixels[y as usize * self.width as usize + x as usize]
    }

    /// The pixel bytes, row-major, three per pixel.
    pub fn to_raw(&self) -> (out: Vec<u8>)
        requires
            self.wf(),
        ensures
            out@.len() == 3 * (self.spec_width() * self.spec_height()),
            out@ == rgb_bytes(self.spec_pixels()),
            forall|x: int, y: int|
                #![trigger self.spec_at(x, y)]
                0 <= x < self.spec_width() && 0 <= y < self.spec_height() ==> {
                    let i = 3 * (y * self.spec_width() + x);
                    &&& out@[i] == self.spec_at(x, y).r
                    &&& out@[i + 1] == self.spec_at(x, y).g
                    &&& out@[i + 2] == self.spec_at(x, y).b
                },
    {
        let n = self.pixels.len();
        let mut out: Vec<u8> = Vec::new();
        let mut i: usize = 0;
        while i < n
            invariant
                n == self.pixels@.len(),
                i <= n,
                out@.len() == 3 * i,
                out@ == rgb_bytes(self.pixels@.take(i as int)),
                forall|j: int|
                    #![trigger self.pixels@[j]]
                    0 <= j < i ==> out@[3 * j] == self.pixels@[j].r && out@[3 * j + 1] == self.pixels@[j].g
                        && out@[3 * j + 2] == self.pixels@[j].b,
            decreases n - i,
        {
            let p = self.pixels[i];
            out.push(p.r);
            out.push(p.g);
            out.push(p.b);
            proof {
                assert(self.pixels@.take(i + 1).drop_last() =~= self.pixels@.take(i as int));
            }
            i = i + 1;
        }
        proof {
            assert(self.pixels@.take(n as int) =~= self.pixels@);
            assert forall|x: int, y: int|
                #![trigger self.spec_at(x, y)]
                0 <= x < self.spec_width() && 0 <= y < self.spec_height() implies {
                    let i = 3 * (y * self.spec_width() + x);
                    &&& out@[i] == self.spec_at(x, y).r
                    &&& out@[i + 1] == self.spec_at(x, y).g
                    &&& out@[i + 2] == self.spec_at(x, y).b
                } by {
                lemma_offset_bounds(self.width as int, self.height as int, x, y);
                assert(self.pixels@[y * self.width + x] == self.spec_at(x, y));
            }
        }
        out
    }
}

/// Composite one channel over opaque white.
pub open spec fn over_white(c: u8, a: u8) -> u8 {
    ((c * a + 255 * (255 - a)) / 255) as u8
}

fn over_white_exec(c: u8, a: u8) -> (out: u8)
    ensures
        out == over_white(c, a),
{
    let a32 = a as u32;
    let c32 = c as u32;
    proof {
        assert(c32 * a32 <= 255 * 255) by (nonlinear_arith)
            requires
                c32 <= 255,
                a32 <= 255,
        ;
    }
    ((c32 * a32 + 255 * (255 - a32)) / 255) as u8
}

/// One pixel composited over opaque white.
pub open spec fn flatten_pixel(p: Rgba) -> Rgb {
    Rgb { r: over_white(p.r, p.a), g: over_white(p.g, p.a), b: over_white(p.b, p.a) }
}

/// Composite an RGBA image over an opaque white background.
///
/// JPEG has no alpha channel; flattening onto white matches what other
/// screenshot tools produce for a transparent capture.
pub fn flatten_to_rgb(img: &RgbaImage) -> (out: RgbImage)
    ensures
        out.wf(),
        out.spec_width() == img@.width,
        out.spec_height() == img@.height,
        out.spec_pixels() == img@.pixels.map_values(|p: Rgba| flatten_pixel(p)),
        forall|x: int, y: int|
            img@.contains(x, y) ==> #[trigger] out.spec_at(x, y) == ({
                let p = img@.at(x, y);
                Rgb { r: over_white(p.r, p.a), g: over_white(p.g, p.a), b: over_white(p.b, p.a) }
            }),
{
    proof {
        use_type_invariant(img);
    }
    let n = img.pixels.len();
    let mut pixels: Vec<Rgb> = Vec::with_capacity(n);
    let mut i: usize = 0;
    while i < n
        invariant
            n == img.pixels@.len(),
            i <= n,
            pixels@.len() == i,
            forall|j: int|
                0 <= j < i ==> #[trigger] pixels@[j] == ({
                    let p = img.pixels@[j];
                    Rgb { r: over_white(p.r, p.a), g: over_white(p.g, p.a), b: over_white(p.b, p.a) }
                }),
        decreases n - i,
    {
        let p = img.pixels[i];
        pixels.push(Rgb { r: over_white_exec(p.r, p.a), g: over_white_exec(p.g, p.a), b: over_white_exec(p.b, p.a) });
        i = i + 1;
    }
    let out = RgbImage { width: img.width, height: img.height, pixels };
    proof {
        assert(out.spec_pixels() =~= img@.pixels.map_values(|p: Rgba| flatten_pixel(p)));
        assert forall|x: int, y: int| img@.contains(x, y) implies #[trigger] out.spec_at(x, y) == ({
            let p = img@.at(x, y);
            Rgb { r: over_white(p.r, p.a), g: over_white(p.g, p.a), b: over_white(p.b, p.a) }
        }) by {
            lemma_offset_bounds(img.width as int, img.height as int, x, y);
        }
    }
    out
}

impl RgbaImage {
    /// The pixel bytes, row-major, in R, G, B, A order.
    pub fn to_raw(&self) -> (out: Vec<u8>)
        ensures
            out@.len() == 4 * self@.pixels.len(),
            out@ == rgba_bytes(self@.pixels),
            forall|x: int, y: int|
                #![trigger self@.at(x, y)]
                self@.contains(x, y) ==> {
                    let i = 4 * (y * self@.width + x);
                    &&& out@[i] == self@.at(x, y).r
                    &&& out@[i + 1] == self@.at(x, y).g
                    &&& out@[i + 2] == self@.at(x, y).b
                    &&& out@[i + 3] == self@.at(x, y).a
                },
    {
        proof {
            use_type_invariant(self);
        }
        let n = self.pixels.len();
        let mut out: Vec<u8> = Vec::new();
        let mut i: usize = 0;
        while i < n
            invariant
                n == self.pixels@.len(),
                i <= n,
                out@.len() == 4 * i,
                out@ == rgba_bytes(self.pixels@.take(i as int)),
                forall|j: int|
                    #![trigger self.pixels@[j]]
                    0 <= j < i ==> out@[4 * j] == self.pixels@[j].r && out@[4 * j + 1] == self.pixels@[j].g
                        && out@[4 * j + 2] == self.pixels@[j].b && out@[4 * j + 3] == self.pixels@[j].a,
            decreases n - i,
        {
            let p = self.pixels[i];
            out.push(p.r);
            out.push(p.g);
            out.push(p.b);
            out.push(p.a);
            proof {
                assert(self.pixels@.take(i + 1).drop_last() =~= self.pixels@.take(i as int));
            }
            i = i + 1;
        }
        proof {
            assert(self.pixels@.take(n as int) =~= self.pixels@);
            assert forall|x: int, y: int|
                #![trigger self@.at(x, y)]
                self@.contains(x, y) implies {
                let i = 4 * (y * self@.width + x);
                &&& out@[i] == self@.at(x, y).r
                &&& out@[i + 1] == self@.at(x, y).g
                &&& out@[i + 2] == self@.at(x, y).b
                &&& out@[i + 3] == self@.at(x, y).a
            } by {
                lemma_offset_bounds(self.width as int, self.height as int, x, y);
            }
        }
        out
    }

    /// Build an image from row-major R, G, B, A bytes; `None` unless there are
    /// exactly four bytes per pixel.
    pub fn from_raw(width: u32, height: u32, data: &Vec<u8>) -> (out: Option<RgbaImage>)
        ensures
            out is Some <==> data@.len() == 4 * (width * height),
            out matches Some(img) ==> img@ == raster_from_rgba(width, height, data@),
            out matches Some(img) ==> {
                &&& img@.wf()
                &&& img@.width == width
                &&& img@.height == height
                &&& forall|x: int, y: int|
                    #![trigger img@.at(x, y)]
                    img@.contains(x, y) ==> {
                        let i = 4 * (y * width + x);
                        img@.at(x, y) == (Rgba { r: data@[i], g: data@[i + 1], b: data@[i + 2], a: data@[i + 3] })
                    }
            },
    {
        let len = data.len();
        proof {
            assert(width * height <= u32::MAX * u32::MAX) by (nonlinear_arith)
                requires
                    width <= u32::MAX,
                    height <= u32::MAX,
            ;
        }
        let n64: u64 = width as u64 * height as u64;
        if n64 > (len / 4) as u64 || len % 4 != 0 || n64 * 4 != len as u64 {
            return None;
        }
        let n = n64 as usize;
        let mut pixels: Vec<Rgba> = Vec::with_capacity(n);
        let mut i: usize = 0;
        while i < n
            invariant
                n == width * height,
                4 * n == data@.len(),
                len == data@.len(),
                i <= n,
                pixels@.len() == i,
                forall|j: int|
                    0 <= j < i ==> #[trigger] pixels@[j] == (Rgba {
                        r: data@[4 * j],
                        g: data@[4 * j + 1],
                        b: data@[4 * j + 2],
                        a: data@[4 * j + 3],
                    }),
            decreases n - i,
        {
            pixels.push(Rgba { r: data[4 * i], g: data[4 * i + 1], b: data[4 * i + 2], a: data[4 * i + 3] });
            i = i + 1;
        }
        let out = RgbaImage { width, height, pixels };
        proof {
            assert(out@ =~= raster_from_rgba(width, height, data@));
            assert forall|x: int, y: int|
                #![trigger out@.at(x, y)]
                out@.contains(x, y) implies {
                let i = 4 * (y * width + x);
                out@.at(x, y) == (Rgba { r: data@[i], g: data@[i + 1], b: data@[i + 2], a: data@[i + 3] })
            } by {
                lemma_offset_bounds(width as int, height as int, x, y);
            }
        }
        Some(out)
    }
}


/// A straight-alpha channel premultiplied by alpha, rounded to nearest.
pub open spec fn premultiply(c: u8, a: u8) -> u8 {
    ((c * a + 127) / 255) as u8
}

/// Byte `k` of a pixel in Cairo's ARGB32 layout: premultiplied, stored as
/// native-endian 32-bit words, which on little-endian targets is B, G, R, A.
pub open spec fn bgra_byte(p: Rgba, k: int) -> u8 {
    if k == 0 {
        premultiply(p.b, p.a)
    } else if k == 1 {
        premultiply(p.g, p.a)
    } else if k == 2 {
        premultiply(p.r, p.a)
    } else {
        p.a
    }
}

/// Index of byte `k` of pixel (x, y) in a surface whose rows are `stride`
/// bytes apart.
pub open spec fn surface_index(stride: int, x: int, y: int, k: int) -> int {
    y * stride + 4 * x + k
}

/// Index of byte `j` of row `y` in a surface whose rows are `stride` bytes apart.
pub open spec fn row_index(stride: int, y: int, j: int) -> int {
    y * stride + j
}

proof fn lemma_surface_rows(stride: int, y: int, yy: int, j: int)
    requires
        0 <= yy < y,
        0 <= j < stride,
    ensures
        yy * stride + j < y * stride,
{
    assert(yy * stride + stride <= y * stride) by (nonlinear_arith)
        requires
            yy + 1 <= y,
            0 <= stride,
    ;
}

fn premultiply_exec(c: u8, a: u8) -> (out: u8)
    ensures
        out == premultiply(c, a),
{
    let c32 = c as u32;
    let a32 = a as u32;
    proof {
        assert(c32 * a32 <= 255 * 255) by (nonlinear_arith)
            requires
                c32 <= 255,
                a32 <= 255,
        ;
    }
    ((c32 * a32 + 127) / 255) as u8
}

/// Encode an image as the pixel data of a Cairo ARGB32 surface whose rows are
/// `stride` bytes apart; the bytes past each row's last pixel are zero.
///
/// Rows are laid out through the stride, which Cairo pads and which therefore
/// cannot be assumed equal to `width * 4`.
pub fn to_premultiplied_bgra(img: &RgbaImage, stride: usize) -> (out: Vec<u8>)
    requires
        4 * img@.width <= stride,
        stride * img@.height <= usize::MAX,
    ensures
        out@.len() == stride * img@.height,
        forall|x: int, y: int, k: int|
            img@.contains(x, y) && 0 <= k < 4 ==> #[trigger] out@[surface_index(stride as int, x, y, k)]
                == bgra_byte(img@.at(x, y), k),
        forall|y: int, j: int|
            0 <= y < img@.height && 4 * img@.width <= j < stride ==> #[trigger] out@[row_index(
                stride as int,
                y,
                j,
            )] == 0,
{
    proof {
        use_type_invariant(img);
    }
    let w = img.width();
    let h = img.height();
    let ghost st = stride as int;
    let mut out: Vec<u8> = Vec::new();
    let mut y: u32 = 0;
    while y < h
        invariant
            img@.wf(),
            w == img@.width,
            h == img@.height,
            st == stride,
            4 * w <= stride,
            stride * h <= usize::MAX,
            y <= h,
            out@.len() == y * st,
            forall|xx: int, yy: int, k: int|
                0 <= yy < y && 0 <= xx < w && 0 <= k < 4 ==> #[trigger] out@[surface_index(st, xx, yy, k)]
                    == bgra_byte(img@.at(xx, yy), k),
            forall|yy: int, j: int|
                0 <= yy < y && 4 * w <= j < stride ==> #[trigger] out@[row_index(st, yy, j)] == 0,
        decreases h - y,
    {
        proof {
            assert(y * st + st <= h * st) by (nonlinear_arith)
                requires
                    y < h,
                    st >= 0,
            ;
            assert(h * st == st * h) by (nonlinear_arith);
        }
        let ghost row = y * st;
        let mut x: u32 = 0;
        while x < w
            invariant
                img@.wf(),
                w == img@.width,
                h == img@.height,
                st == stride,
                4 * w <= stride,
                row == y * st,
                row + st <= usize::MAX,
                y < h,
                x <= w,
                out@.len() == row + 4 * x,
                forall|xx: int, yy: int, k: int|
                    0 <= yy < y && 0 <= xx < w && 0 <= k < 4 ==> #[trigger] out@[surface_index(st, xx, yy, k)]
                        == bgra_byte(img@.at(xx, yy), k),
                forall|yy: int, j: int|
                    0 <= yy < y && 4 * w <= j < stride ==> #[trigger] out@[row_index(st, yy, j)] == 0,
                forall|xx: int, k: int|
                    0 <= xx < x && 0 <= k < 4 ==> #[trigger] out@[surface_index(st, xx, y as int, k)]
                        == bgra_byte(img@.at(xx, y as int), k),
            decreases w - x,
        {
            let p = img.get_pixel(x, y);
            let ghost before = out@;
            out.push(premultiply_exec(p.b, p.a));
            out.push(premultiply_exec(p.g, p.a));
            out.push(premultiply_exec(p.r, p.a));
            out.push(p.a);
            proof {
                assert forall|xx: int, yy: int, k: int|
                    0 <= yy < y && 0 <= xx < w && 0 <= k < 4 implies #[trigger] out@[surface_index(st, xx, yy, k)]
                        == bgra_byte(img@.at(xx, yy), k) by {
                    lemma_surface_rows(st, y as int, yy, 4 * xx + k);
                    assert(out@[surface_index(st, xx, yy, k)] == before[surface_index(st, xx, yy, k)]);
                }
                assert forall|yy: int, j: int| 0 <= yy < y && 4 * w <= j < stride implies #[trigger] out@[row_index(
                    st,
                    yy,
                    j,
                )] == 0 by {
                    lemma_surface_rows(st, y as int, yy, j);
                    assert(out@[row_index(st, yy, j)] == before[row_index(st, yy, j)]);
                }
                assert forall|xx: int, k: int|
                    0 <= xx < x + 1 && 0 <= k < 4 implies #[trigger] out@[surface_index(st, xx, y as int, k)]
                        == bgra_byte(img@.at(xx, y as int), k) by {
                    if xx < x {
                        assert(out@[surface_index(st, xx, y as int, k)] == before[surface_index(st, xx, y as int, k)]);
                    }
                }
            }
            x = x + 1;
        }
        let mut j: usize = 4 * w as usize;
        while j < stride
            invariant
                img@.wf(),
                w == img@.width,
                h == img@.height,
                st == stride,
                4 * w <= j <= stride,
                row == y * st,
                y < h,
                out@.len() == row + j,
                forall|xx: int, yy: int, k: int|
                    0 <= yy < y && 0 <= xx < w && 0 <= k < 4 ==> #[trigger] out@[surface_index(st, xx, yy, k)]
                        == bgra_byte(img@.at(xx, yy), k),
                forall|yy: int, jj: int|
                    0 <= yy < y && 4 * w <= jj < stride ==> #[trigger] out@[row_index(st, yy, jj)] == 0,
                forall|xx: int, k: int|
                    0 <= xx < w && 0 <= k < 4 ==> #[trigger] out@[surface_index(st, xx, y as int, k)]
                        == bgra_byte(img@.at(xx, y as int), k),
                forall|jj: int| 4 * w <= jj < j ==> #[trigger] out@[row_index(st, y as int, jj)] == 0,
            decreases stride - j,
        {
            let ghost before = out@;
            out.push(0);
            proof {
                assert forall|xx: int, yy: int, k: int|
                    0 <= yy < y && 0 <= xx < w && 0 <= k < 4 implies #[trigger] out@[surface_index(st, xx, yy, k)]
                        == bgra_byte(img@.at(xx, yy), k) by {
                    lemma_surface_rows(st, y as int, yy, 4 * xx + k);
                    assert(out@[surface_index(st, xx, yy, k)] == before[surface_index(st, xx, yy, k)]);
                }
                assert forall|yy: int, jj: int| 0 <= yy < y && 4 * w <= jj < stride implies #[trigger] out@[row_index(
                    st,
                    yy,
                    jj,
                )] == 0 by {
                    lemma_surface_rows(st, y as int, yy, jj);
                    assert(out@[row_index(st, yy, jj)] == before[row_index(st, yy, jj)]);
                }
                assert forall|xx: int, k: int| 0 <= xx < w && 0 <= k < 4 implies #[trigger] out@[surface_index(
                    st,
                    xx,
                    y as int,
                    k,
                )] == bgra_byte(img@.at(xx, y as int), k) by {
                    assert(out@[surface_index(st, xx, y as int, k)] == before[surface_index(st, xx, y as int, k)]);
                }
                assert forall|jj: int| 4 * w <= jj < j + 1 implies #[trigger] out@[row_index(st, y as int, jj)] == 0 by {
                    if jj < j {
                        assert(out@[row_index(st, y as int, jj)] == before[row_index(st, y as int, jj)]);
                    }
                }
            }
            j = j + 1;
        }
        proof {
            assert((y + 1) * st == y * st + st) by (nonlinear_arith);
        }
        y = y + 1;
    }
    proof {
        assert(h * st == st * h) by (nonlinear_arith);
    }
    out
}

/// Undo alpha premultiplication, rounding to nearest and saturating:
/// premultiplied values can exceed alpha by one after Cairo's own rounding.
pub open spec fn unpremultiply(c: u8, a: u8) -> u8 {
    let q = (c as int * 255 + a as int / 2) / (a as int);
    if q > 255 {
        255
    } else {
        q as u8
    }
}

/// The straight-alpha pixel stored as premultiplied bytes B, G, R, A.
pub open spec fn pixel_from_bgra(b: u8, g: u8, r: u8, a: u8) -> Rgba {
    if a == 0 {
        Rgba { r: 0, g: 0, b: 0, a: 0 }
    } else if a == 255 {
        Rgba { r, g, b, a }
    } else {
        Rgba { r: unpremultiply(r, a), g: unpremultiply(g, a), b: unpremultiply(b, a), a }
    }
}

fn unpremultiply_exec(c: u8, a: u8) -> (out: u8)
    requires
        a > 0,
    ensures
        out == unpremultiply(c, a),
{
    let v = (c as u32 * 255 + a as u32 / 2) / a as u32;
    if v > 255 {
        255
    } else {
        v as u8
    }
}

/// Decode the pixel data of a Cairo ARGB32 surface into a straight-alpha
/// image.
pub fn from_premultiplied_bgra(width: u32, height: u32, stride: usize, data: &Vec<u8>) -> (out: RgbaImage)
    requires
        4 * width <= stride,
        data@.len() == stride * height,
    ensures
        out@.wf(),
        out@.width == width,
        out@.height == height,
        forall|x: int, y: int|
            out@.contains(x, y) ==> #[trigger] out@.at(x, y) == pixel_from_bgra(
                data@[surface_index(stride as int, x, y, 0)],
                data@[surface_index(stride as int, x, y, 1)],
                data@[surface_index(stride as int, x, y, 2)],
                data@[surface_index(stride as int, x, y, 3)],
            ),
{
    let len = data.len();
    let ghost st = stride as int;
    proof {
        assert(width * height <= stride * height) by (nonlinear_arith)
            requires
                4 * width <= stride,
        ;
    }
    let mut pixels: Vec<Rgba> = Vec::with_capacity(width as usize * height as usize);
    let mut y: u32 = 0;
    while y < height
        invariant
            len == data@.len(),
            data@.len() == st * height,
            st == stride,
            4 * width <= stride,
            y <= height,
            pixels@.len() == y * width,
            forall|yy: int, xx: int|
                0 <= yy < y && 0 <= xx < width ==> #[trigger] pixels@[offset(width as int, xx, yy)]
                    == pixel_from_bgra(
                    data@[surface_index(st, xx, yy, 0)],
                    data@[surface_index(st, xx, yy, 1)],
                    data@[surface_index(st, xx, yy, 2)],
                    data@[surface_index(st, xx, yy, 3)],
                ),
        decreases height - y,
    {
        proof {
            assert(y * st + st <= st * height) by (nonlinear_arith)
                requires
                    y < height,
                    st >= 0,
            ;
        }
        let row: usize = y as usize * stride;
        let mut x: u32 = 0;
        while x < width
            invariant
                len == data@.len(),
                data@.len() == st * height,
                st == stride,
                4 * width <= stride,
                y < height,
                row == y * st,
                row + st <= data@.len(),
                x <= width,
                pixels@.len() == y * width + x,
                forall|yy: int, xx: int|
                    0 <= yy < y && 0 <= xx < width ==> #[trigger] pixels@[offset(width as int, xx, yy)]
                        == pixel_from_bgra(
                        data@[surface_index(st, xx, yy, 0)],
                        data@[surface_index(st, xx, yy, 1)],
                        data@[surface_index(st, xx, yy, 2)],
                        data@[surface_index(st, xx, yy, 3)],
                    ),
                forall|xx: int|
                    0 <= xx < x ==> #[trigger] pixels@[offset(width as int, xx, y as int)] == pixel_from_bgra(
                        data@[surface_index(st, xx, y as int, 0)],
                        data@[surface_index(st, xx, y as int, 1)],
                        data@[surface_index(st, xx, y as int, 2)],
                        data@[surface_index(st, xx, y as int, 3)],
                    ),
            decreases width - x,
        {
            let i = row + 4 * x as usize;
            let b = data[i];
            let g = data[i + 1];
            let r = data[i + 2];
            let a = data[i + 3];
            let px = if a == 0 {
                Rgba { r: 0, g: 0, b: 0, a: 0 }
            } else if a == 255 {
                Rgba { r, g, b, a }
            } else {
                Rgba {
                    r: unpremultiply_exec(r, a),
                    g: unpremultiply_exec(g, a),
                    b: unpremultiply_exec(b, a),
                    a,
                }
            };
            proof {
                assert forall|yy: int, xx: int| 0 <= yy < y && 0 <= xx < width implies offset(width as int, xx, yy)
                    < pixels@.len() by {
                    lemma_offset_row_order(width as int, xx, yy, y as int);
                }
            }
            pixels.push(px);
            x = x + 1;
        }
        proof {
            assert((y + 1) * width == y * width + width) by (nonlinear_arith);
        }
        y = y + 1;
    }
    proof {
        assert(height * width == width * height) by (nonlinear_arith);
    }
    let out = RgbaImage { width, height, pixels };
    proof {
        assert forall|x: int, y: int| out@.contains(x, y) implies #[trigger] out@.at(x, y) == pixel_from_bgra(
            data@[surface_index(st, x, y, 0)],
            data@[surface_index(st, x, y, 1)],
            data@[surface_index(st, x, y, 2)],
            data@[surface_index(st, x, y, 3)],
        ) by {
            assert(out@.at(x, y) == pixels@[offset(width as int, x, y)]);
        }
    }
    out
}

} // verus!
