//! Composing the frame shown on screen from sprite images.
use vstd::prelude::*;
use crate::image::Image;
use crate::physics::trunc_div;
use crate::vector::{in_world, Vec2, UNITS_PER_PIXEL, WORLD_LIMIT};
use vstd::arithmetic::div_mod::{
    lemma_fundamental_div_mod, lemma_fundamental_div_mod_converse_div,
    lemma_fundamental_div_mod_converse_mod,
};

verus! {

/// `x` is `q` rows of `d` plus `r`.
proof fn lemma_split(x: int, d: int, q: int, r: int)
    requires
        0 <= r < d,
        x == q * d + r,
    ensures
        x % d == r,
        x / d == q,
{
    lemma_fundamental_div_mod_converse_mod(x, d, q, r);
    lemma_fundamental_div_mod_converse_div(x, d, q, r);
}

/// Byte `j` of a buffer of `bw` by `bh` pixels lies in pixel
/// `(p % bw, p / bw)` with `p = j / 4`, inside the buffer.
proof fn lemma_cell(j: int, bw: int, bh: int)
    requires
        bw >= 0,
        bh >= 0,
        0 <= j < bw * bh * 4,
    ensures
        bw > 0,
        bh > 0,
        j / 4 == bw * ((j / 4) / bw) + (j / 4) % bw,
        j % 4 == j - (j / 4) * 4,
        0 <= (j / 4) % bw < bw,
        0 <= (j / 4) / bw < bh,
        (j / 4) * 4 <= j < (j / 4) * 4 + 4,
{
    assert(bw > 0 && bh > 0) by (nonlinear_arith)
        requires
            0 <= j < bw * bh * 4,
            bw >= 0,
            bh >= 0,
    ;
    lemma_fundamental_div_mod(j, 4);
    lemma_fundamental_div_mod(j / 4, bw);
    assert(0 <= j / 4 < bw * bh);
    assert((j / 4) / bw < bh) by (nonlinear_arith)
        requires
            0 <= j / 4 < bw * bh,
            bw > 0,
    ;
}

/// Byte `j` of the buffer `buf`, `bw` pixels wide, once the source pixels
/// numbered below `done` of `img` (`width` pixels wide, `rows` rows, drawn
/// with its top-left corner at `(x, y)`, mirrored when `flipped`) have been laid
/// over it. A source pixel with alpha zero leaves the buffer as it is; any other
/// is copied opaque.
pub open spec fn laid(
    buf: Seq<u8>,
    bw: int,
    img: Seq<u8>,
    width: int,
    rows: int,
    x: int,
    y: int,
    flipped: bool,
    done: int,
    j: int,
) -> u8 {
    let p = j / 4;
    let lx = p % bw - x;
    let ly = p / bw - y;
    let sx = if flipped {
        width - 1 - lx
    } else {
        lx
    };
    let s = (sx + ly * width) * 4;
    if 0 <= lx < width && 0 <= ly < rows && lx + ly * width < done && img[s + 3] != 0 {
        if j % 4 == 3 {
            255
        } else {
            img[s + j % 4]
        }
    } else {
        buf[j]
    }
}

/// Where an image `size` pixels long starts, along an axis of a buffer `extent`
/// pixels long, for an entity at coordinate `coord` in engine units; the y axis
/// (`upward`) points up in the world and down in the buffer.
pub open spec fn image_origin(extent: int, size: int, coord: int, upward: bool) -> int {
    let c = trunc_div(coord, UNITS_PER_PIXEL as int);
    if upward {
        extent / 2 - size / 2 - c
    } else {
        extent / 2 - size / 2 + c
    }
}

fn trunc_div_exec(a: i64, b: i64) -> (r: i64)
    requires
        b > 0,
        in_world(a as int),
    ensures
        r == trunc_div(a as int, b as int),
        -WORLD_LIMIT <= r <= WORLD_LIMIT,
{
    let r = if a >= 0 {
        a / b
    } else {
        -((-a) / b)
    };
    assert(-WORLD_LIMIT <= r <= WORLD_LIMIT) by (nonlinear_arith)
        requires
            r == trunc_div(a as int, b as int),
            in_world(a as int),
            b >= 1,
    ;
    r
}

/// An RGBA raster the size of the screen, into which images are drawn.
pub struct FrameBuffer {
    data: Vec<u8>,
    width: usize,
    height: usize,
}

impl View for FrameBuffer {
    /// The bytes, the width and the height.
    type V = (Seq<u8>, nat, nat);

    closed spec fn view(&self) -> (Seq<u8>, nat, nat) {
        (self.data@, self.width as nat, self.height as nat)
    }
}

impl FrameBuffer {
    /// Four bytes for each pixel.
    pub open spec fn wf(&self) -> bool {
        self@.0.len() == self@.1 * self@.2 * 4
    }

    /// A transparent black buffer of `w` by `h` pixels.
    pub fn new(w: usize, h: usize) -> (r: FrameBuffer)
        requires
            w * h * 4 <= usize::MAX,
        ensures
            r.wf(),
            r@.1 == w,
            r@.2 == h,
            forall|j: int| 0 <= j < r@.0.len() ==> r@.0[j] == 0,
    {
        let n = w * h * 4;
        let mut data: Vec<u8> = Vec::new();
        let mut i: usize = 0;
        while i < n
            invariant
                i <= n,
                data@.len() == i,
                forall|j: int| 0 <= j < i ==> data@[j] == 0,
            decreases n - i,
        {
            data.push(0);
            i += 1;
        }
        FrameBuffer { data, width: w, height: h }
    }

    pub fn data(&self) -> (r: &Vec<u8>)
        ensures
            r@ == self@.0,
    {
        &self.data
    }

    /// Draws `img`, `width` pixels wide, with its top-left corner at `(x, y)`;
    /// the parts outside the buffer are cut off.
    pub fn put(&mut self, img: &Vec<u8>, width: usize, x: i32, y: i32)
        requires
            old(self).wf(),
            width > 0,
            img@.len() <= 0x1_0000_0000_0000,
        ensures
            final(self).wf(),
            final(self)@.1 == old(self)@.1,
            final(self)@.2 == old(self)@.2,
            final(self)@.0.len() == old(self)@.0.len(),
            forall|j: int|
                0 <= j < final(self)@.0.len() ==> final(self)@.0[j] == laid(
                    old(self)@.0,
                    old(self)@.1 as int,
                    img@,
                    width as int,
                    img@.len() as int / 4 / width as int,
                    x as int,
                    y as int,
                    false,
                    width * (img@.len() as int / 4 / width as int),
                    j,
                ),
    {
        self.lay(img, width, x as i64, y as i64, false);
    }

    /// Draws `img` mirrored left to right, as `put` does otherwise.
    pub fn put_flipped(&mut self, img: &Vec<u8>, width: usize, x: i32, y: i32)
        requires
            old(self).wf(),
            width > 0,
            img@.len() <= 0x1_0000_0000_0000,
        ensures
            final(self).wf(),
            final(self)@.1 == old(self)@.1,
            final(self)@.2 == old(self)@.2,
            final(self)@.0.len() == old(self)@.0.len(),
            forall|j: int|
                0 <= j < final(self)@.0.len() ==> final(self)@.0[j] == laid(
                    old(self)@.0,
                    old(self)@.1 as int,
                    img@,
                    width as int,
                    img@.len() as int / 4 / width as int,
                    x as int,
                    y as int,
                    true,
                    width * (img@.len() as int / 4 / width as int),
                    j,
                ),
    {
        self.lay(img, width, x as i64, y as i64, true);
    }

    fn lay(&mut self, img: &Vec<u8>, width: usize, x: i64, y: i64, flipped: bool)
        requires
            -0x100_0000_0000 <= x <= 0x100_0000_0000,
            -0x100_0000_0000 <= y <= 0x100_0000_0000,
            old(self).wf(),
            width > 0,
            img@.len() <= 0x1_0000_0000_0000,
        ensures
            final(self).wf(),
            final(self)@.1 == old(self)@.1,
            final(self)@.2 == old(self)@.2,
            final(self)@.0.len() == old(self)@.0.len(),
            forall|j: int|
                0 <= j < final(self)@.0.len() ==> final(self)@.0[j] == laid(
                    old(self)@.0,
                    old(self)@.1 as int,
                    img@,
                    width as int,
                    img@.len() as int / 4 / width as int,
                    x as int,
                    y as int,
                    flipped,
                    width * (img@.len() as int / 4 / width as int),
                    j,
                ),
    {
        let ghost buf = self.data@;
        let bw = self.width;
        let bh = self.height;
        let dl = self.data.len();
        let il = img.len();
        let rows = img.len() / 4 / width;
        assert(width * rows <= img@.len() / 4) by (nonlinear_arith)
            requires
                rows == img@.len() as int / 4 / width as int,
                width > 0,
        ;
        let n = width * rows;
        let mut i: usize = 0;
        while i < n
            invariant
                n == width * rows,
                n <= img@.len() / 4,
                il == img@.len(),
                dl == self.data@.len(),
                -0x100_0000_0000 <= x <= 0x100_0000_0000,
                -0x100_0000_0000 <= y <= 0x100_0000_0000,
                rows == img@.len() as int / 4 / width as int,
                width > 0,
                img@.len() <= 0x1_0000_0000_0000,
                i <= n,
                bw == self.width,
                bh == self.height,
                self.width == old(self).width,
                self.height == old(self).height,
                self.data@.len() == bw * bh * 4,
                buf == old(self).data@,
                forall|j: int|
                    0 <= j < self.data@.len() ==> self.data@[j] == laid(
                        buf,
                        bw as int,
                        img@,
                        width as int,
                        rows as int,
                        x as int,
                        y as int,
                        flipped,
                        i as int,
                        j,
                    ),
            decreases n - i,
        {
            let ix = i % width;
            let iy = i / width;
            proof {
                lemma_fundamental_div_mod(i as int, width as int);
                assert(iy < rows) by (nonlinear_arith)
                    requires
                        iy == i / width,
                        i < width * rows,
                        width > 0,
                ;
            }
            assert(ix < width && iy <= i && i < n && n <= 0x4000_0000_0000);
            assert(width <= n) by (nonlinear_arith)
                requires
                    n == width * rows,
                    i < n,
                    width > 0,
            ;
            let gx: i64 = x + ix as i64;
            let gy: i64 = y + iy as i64;
            if 0 <= gx && (gx as i128) < (bw as i128) && 0 <= gy && (gy as i128) < (bh as i128) {
                let sx: usize = if flipped {
                    width - ix - 1
                } else {
                    ix
                };
                assert(0 <= iy * width && iy * width + sx < n) by (nonlinear_arith)
                    requires
                        sx < width,
                        iy < rows,
                        n == width * rows,
                ;
                let src = (sx + iy * width) * 4;
                assert(gy * bw >= 0 && gy * bw + gx < bw * bh) by (nonlinear_arith)
                    requires
                        0 <= gx < bw,
                        0 <= gy < bh,
                ;
                let gp = gx as usize + gy as usize * bw;
                let gi = gp * 4;
                if img[src + 3] != 0 {
                    self.data.set(gi, img[src]);
                    self.data.set(gi + 1, img[src + 1]);
                    self.data.set(gi + 2, img[src + 2]);
                    self.data.set(gi + 3, 255);
                }
                proof {
                    assert forall|j: int| 0 <= j < self.data@.len() implies self.data@[j] == laid(
                        buf,
                        bw as int,
                        img@,
                        width as int,
                        rows as int,
                        x as int,
                        y as int,
                        flipped,
                        i + 1,
                        j,
                    ) by {
                        lemma_cell(j, bw as int, bh as int);
                        let p = j / 4;
                        let px = p % (bw as int);
                        let py = p / (bw as int);
                        let lx = px - x;
                        let ly = py - y;
                        if p == gp {
                            lemma_split(gp as int, bw as int, gy as int, gx as int);
                            assert(lx == ix && ly == iy);
                            assert(lx + ly * width == i);
                        } else if 0 <= lx < width && 0 <= ly < rows && lx + ly * width == i {
                            lemma_split(i as int, width as int, ly, lx);
                            assert(p == gp) by (nonlinear_arith)
                                requires
                                    p == bw * py + px,
                                    px == gx,
                                    py == gy,
                                    gp == gx + gy * bw,
                            ;
                        }
                    }
                }
            } else {
                proof {
                    assert forall|j: int| 0 <= j < self.data@.len() implies self.data@[j] == laid(
                        buf,
                        bw as int,
                        img@,
                        width as int,
                        rows as int,
                        x as int,
                        y as int,
                        flipped,
                        i + 1,
                        j,
                    ) by {
                        lemma_cell(j, bw as int, bh as int);
                        let p = j / 4;
                        let px = p % (bw as int);
                        let py = p / (bw as int);
                        let lx = px - x;
                        let ly = py - y;
                        if 0 <= lx < width && 0 <= ly < rows && lx + ly * width == i {
                            lemma_split(i as int, width as int, ly, lx);
                        }
                    }
                }
            }
            i += 1;
        }
    }

    /// Draws the image of an entity at `position` (in engine units, y upward,
    /// the origin at the centre of the buffer), centred on it, mirrored when
    /// `flipped`.
    pub fn draw_image(&mut self, img: &Image, position: Vec2, flipped: bool)
        requires
            old(self).wf(),
            old(self)@.1 <= u32::MAX,
            old(self)@.2 <= u32::MAX,
            position.in_world(),
            img@.1 > 0,
            img@.1 <= u32::MAX,
            img@.2 <= u32::MAX,
            img@.0.len() <= 0x1_0000_0000_0000,
        ensures
            final(self).wf(),
            final(self)@.1 == old(self)@.1,
            final(self)@.2 == old(self)@.2,
            final(self)@.0.len() == old(self)@.0.len(),
            forall|j: int|
                0 <= j < final(self)@.0.len() ==> final(self)@.0[j] == laid(
                    old(self)@.0,
                    old(self)@.1 as int,
                    img@.0,
                    img@.1 as int,
                    img@.0.len() as int / 4 / img@.1 as int,
                    image_origin(old(self)@.1 as int, img@.1 as int, position.x as int, false),
                    image_origin(old(self)@.2 as int, img@.2 as int, position.y as int, true),
                    flipped,
                    img@.1 * (img@.0.len() as int / 4 / img@.1 as int),
                    j,
                ),
    {
        let iw = img.width() as i64;
        let ih = img.height() as i64;
        let x = (self.width as i64) / 2 - iw / 2 + trunc_div_exec(position.x, UNITS_PER_PIXEL);
        let y = (self.height as i64) / 2 - ih / 2 - trunc_div_exec(position.y, UNITS_PER_PIXEL);
        self.lay(img.data(), img.width() as usize, x, y, flipped);
    }
}

} // verus!
