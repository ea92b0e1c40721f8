//! RGBA images.
use vstd::prelude::*;

verus! {

/// An RGBA colour.
#[derive(Clone, Copy, Debug, PartialEq, Eq, Structural)]
pub struct Color(pub u8, pub u8, pub u8, pub u8);

impl Color {
    /// Opaque red.
    pub fn red() -> (r: Color)
        ensures
            r == Color(255, 0, 0, 255),
    {
        Color(255, 0, 0, 255)
    }
}

/// Channel `k` (0 red, 1 green, 2 blue, 3 alpha) of `c`.
pub open spec fn channel(c: Color, k: int) -> u8 {
    if k == 0 {
        c.0
    } else if k == 1 {
        c.1
    } else if k == 2 {
        c.2
    } else {
        c.3
    }
}

/// A raster of `width * height` pixels, four bytes (RGBA) each, row by row.
#[derive(Debug)]
pub struct Image {
    data: Vec<u8>,
    width: usize,
    height: usize,
}

impl View for Image {
    /// The bytes, the width and the height.
    type V = (Seq<u8>, nat, nat);

    closed spec fn view(&self) -> (Seq<u8>, nat, nat) {
        (self.data@, self.width as nat, self.height as nat)
    }
}

impl Clone for Image {
    fn clone(&self) -> (r: Self)
        ensures
            r@ == self@,
    {
        let data = self.data.clone();
        assert(data@ =~= self.data@);
        Image { data, width: self.width, height: self.height }
    }
}

impl Image {
    /// An image over the given bytes; they are not checked against the size.
    pub fn from_raw(data: Vec<u8>, width: usize, height: usize) -> (r: Self)
        ensures
            r@ == (data@, width as nat, height as nat),
    {
        Image { data, width, height }
    }

    /// An image of the given size filled with one colour.
    pub fn rec(c: Color, width: usize, height: usize) -> (r: Self)
        requires
            width * height * 4 <= usize::MAX,
        ensures
            r@.1 == width,
            r@.2 == height,
            r@.0.len() == width * height * 4,
            forall|i: int| 0 <= i < r@.0.len() ==> r@.0[i] == channel(c, i % 4),
    {
        let image_size: usize = width * height * 4;
        let mut data: Vec<u8> = Vec::new();
        let mut i: usize = 0;
        while i < image_size
            invariant
                i <= image_size,
                data@.len() == i,
                forall|k: int| 0 <= k < i ==> data@[k] == channel(c, k % 4),
            decreases image_size - i,
        {
            let m = i % 4;
            let b = if m == 0 {
                c.0
            } else if m == 1 {
                c.1
            } else if m == 2 {
                c.2
            } else {
                c.3
            };
            data.push(b);
            i += 1;
        }
        Image { data, width, height }
    }

    pub fn data(&self) -> (r: &Vec<u8>)
        ensures
            r@ == self@.0,
    {
        &self.data
    }

    /// The width, truncated to 32 bits.
    pub fn width(&self) -> (r: u32)
        ensures
            r == self@.1 as u32,
    {
        self.width as u32
    }

    /// The height, truncated to 32 bits.
    pub fn height(&self) -> (r: u32)
        ensures
            r == self@.2 as u32,
    {
        self.height as u32
    }
}

/// Byte `i` of `data` after the pixels of colour `c` (alpha aside) are made
/// fully transparent.
pub open spec fn keyed_byte(data: Seq<u8>, c: Color, i: int) -> u8 {
    if i % 4 == 3 && data[i - 3] == c.0 && data[i - 2] == c.1 && data[i - 1] == c.2 {
        0
    } else {
        data[i]
    }
}

/// Byte `j` of frame `k` when a sheet `sheet_w` pixels wide is cut into frames of
/// `w` by `h` pixels, `cols` frames per row, frames numbered row by row.
pub open spec fn sheet_byte(data: Seq<u8>, sheet_w: int, w: int, h: int, cols: int, k: int, j: int) -> u8 {
    let p = j / 4;
    let gx = (k % cols) * w + p % w;
    let gy = (k / cols) * h + p / w;
    data[(gx + gy * sheet_w) * 4 + j % 4]
}

proof fn lemma_cell_bound(s: int, cells: int, size: int, r: int)
    requires
        0 <= s < cells,
        0 <= r < size,
    ensures
        0 <= s * size + r < cells * size,
{
    assert(s * size <= (cells - 1) * size) by (nonlinear_arith)
        requires
            0 <= s < cells,
            size >= 0,
    ;
    assert((cells - 1) * size + size == cells * size) by (nonlinear_arith);
    assert(s * size >= 0) by (nonlinear_arith)
        requires
            s >= 0,
            size >= 0,
    ;
}

impl Image {
    /// Makes transparent every pixel whose red, green and blue match `c`.
    pub fn apply_transparency(&mut self, c: Color)
        requires
            old(self)@.0.len() % 4 == 0,
        ensures
            final(self)@.1 == old(self)@.1,
            final(self)@.2 == old(self)@.2,
            final(self)@.0.len() == old(self)@.0.len(),
            forall|i: int|
                0 <= i < final(self)@.0.len() ==> final(self)@.0[i] == keyed_byte(old(self)@.0, c, i),
    {
        let ghost d0 = self.data@;
        let n = self.data.len();
        let mut i: usize = 0;
        while i < n
            invariant
                n == d0.len(),
                n % 4 == 0,
                i % 4 == 0,
                i <= n,
                self.data@.len() == n,
                self.width == old(self).width,
                self.height == old(self).height,
                d0 == old(self).data@,
                forall|k: int| 0 <= k < i ==> self.data@[k] == keyed_byte(d0, c, k),
                forall|k: int| i <= k < n ==> self.data@[k] == d0[k],
            decreases n - i,
        {
            if self.data[i] == c.0 && self.data[i + 1] == c.1 && self.data[i + 2] == c.2 {
                self.data.set(i + 3, 0);
            }
            i += 4;
        }
    }

    /// Cuts the image, a sheet of frames of `w` by `h` pixels, into those frames,
    /// row by row.
    pub fn split(&self, w: usize, h: usize) -> (r: Vec<Image>)
        requires
            w > 0,
            h > 0,
            self@.1 * self@.2 * 4 <= self@.0.len(),
            self@.1 * self@.2 == 0 || (self@.1 as int % w as int == 0 && self@.2 as int % h as int == 0),
        ensures
            r@.len() == (self@.1 as int / w as int) * (self@.2 as int / h as int),
            forall|k: int|
                #![trigger r@[k]]
                0 <= k < r@.len() ==> {
                    &&& r@[k]@.1 == w
                    &&& r@[k]@.2 == h
                    &&& r@[k]@.0.len() == w * h * 4
                    &&& forall|j: int|
                        0 <= j < w * h * 4 ==> r@[k]@.0[j] == sheet_byte(
                            self@.0,
                            self@.1 as int,
                            w as int,
                            h as int,
                            self@.1 as int / w as int,
                            k,
                            j,
                        )
                },
    {
        let sw = self.width;
        let sh = self.height;
        let dl = self.data.len();
        let cols = sw / w;
        let rows = sh / h;
        assert(cols * w <= sw && rows * h <= sh) by (nonlinear_arith)
            requires
                cols == sw / w,
                rows == sh / h,
                w > 0,
                h > 0,
        ;
        assert(rows * cols <= sw * sh) by (nonlinear_arith)
            requires
                cols * w <= sw,
                rows * h <= sh,
                w >= 1,
                h >= 1,
                cols >= 0,
                rows >= 0,
        ;
        assert(sw * sh <= sw * sh * 4) by (nonlinear_arith)
            requires
                sw >= 0,
                sh >= 0,
        ;
        let n = rows * cols;
        let mut res: Vec<Image> = Vec::new();
        if n == 0 {
            return res;
        }
        assert(sw % w == 0 && sh % h == 0) by (nonlinear_arith)
            requires
                rows * cols != 0,
                cols == sw / w,
                rows == sh / h,
                sw * sh == 0 || (sw % w == 0 && sh % h == 0),
                w > 0,
                h > 0,
        ;
        assert(cols * w == sw && rows * h == sh) by (nonlinear_arith)
            requires
                cols == sw / w,
                rows == sh / h,
                sw % w == 0,
                sh % h == 0,
                w > 0,
                h > 0,
        ;
        assert(w * h * 4 <= sw * sh * 4) by (nonlinear_arith)
            requires
                cols * w == sw,
                rows * h == sh,
                rows * cols != 0,
                w > 0,
                h > 0,
                rows >= 0,
                cols >= 0,
        ;
        assert(w * h <= w * h * 4) by (nonlinear_arith)
            requires
                w > 0,
                h > 0,
        ;
        let frame_len = w * h * 4;
        let mut k: usize = 0;
        while k < n
            invariant
                n == rows * cols,
                rows * cols <= sw * sh,
                cols * w == sw,
                rows * h == sh,
                frame_len == w * h * 4,
                frame_len <= sw * sh * 4,
                sw * sh * 4 <= self.data@.len(),
                self.data@.len() <= usize::MAX,
                sw == self@.1,
                sh == self@.2,
                cols == self@.1 as int / w as int,
                w > 0,
                h > 0,
                k <= n,
                res@.len() == k,
                forall|m: int|
                    #![trigger res@[m]]
                    0 <= m < k ==> {
                        &&& res@[m]@.1 == w
                        &&& res@[m]@.2 == h
                        &&& res@[m]@.0.len() == w * h * 4
                        &&& forall|j: int|
                            0 <= j < w * h * 4 ==> res@[m]@.0[j] == sheet_byte(
                                self@.0,
                                sw as int,
                                w as int,
                                h as int,
                                cols as int,
                                m,
                                j,
                            )
                    },
            decreases n - k,
        {
            assert(cols > 0 && rows > 0) by (nonlinear_arith)
                requires
                    k < rows * cols,
                    rows >= 0,
                    cols >= 0,
            ;
            let sx = k % cols;
            let sy = k / cols;
            assert(sy < rows) by (nonlinear_arith)
                requires
                    sy == k / cols,
                    k < rows * cols,
                    cols > 0,
            ;
            let mut bytes: Vec<u8> = Vec::new();
            let mut j: usize = 0;
            while j < frame_len
                invariant
                    frame_len == w * h * 4,
                    frame_len <= sw * sh * 4,
                    sw * sh * 4 <= self.data@.len(),
                    self.data@.len() <= usize::MAX,
                    cols * w == sw,
                    rows * h == sh,
                    sx < cols,
                    sy < rows,
                    sx == k % cols,
                    sy == k / cols,
                    w > 0,
                    h > 0,
                    j <= frame_len,
                    bytes@.len() == j,
                    forall|q: int|
                        0 <= q < j ==> bytes@[q] == sheet_byte(
                            self@.0,
                            sw as int,
                            w as int,
                            h as int,
                            cols as int,
                            k as int,
                            q,
                        ),
                decreases frame_len - j,
            {
                let p = j / 4;
                assert(p < w * h) by (nonlinear_arith)
                    requires
                        p == j / 4,
                        j < w * h * 4,
                ;
                assert(p / w < h) by (nonlinear_arith)
                    requires
                        p < w * h,
                        w > 0,
                ;
                proof {
                    lemma_cell_bound(sx as int, cols as int, w as int, (p % w) as int);
                    lemma_cell_bound(sy as int, rows as int, h as int, (p / w) as int);
                }
                let gx = sx * w + p % w;
                let gy = sy * h + p / w;
                proof {
                    lemma_cell_bound(gy as int, sh as int, sw as int, gx as int);
                    assert(sh * sw == sw * sh) by (nonlinear_arith);
                    assert(gy * sw >= 0) by (nonlinear_arith)
                        requires
                            gy >= 0,
                            sw >= 0,
                    ;
                }
                let idx = (gx + gy * sw) * 4 + j % 4;
                bytes.push(self.data[idx]);
                j += 1;
            }
            res.push(Image { data: bytes, width: w, height: h });
            k += 1;
        }
        res
    }
}

} // verus!
