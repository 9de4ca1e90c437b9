use crate::transcoder::{bit_set, row_pixel};
use vstd::arithmetic::div_mod::{lemma_fundamental_div_mod, lemma_fundamental_div_mod_converse};
use vstd::arithmetic::mul::lemma_mul_inequality;
use vstd::prelude::*;

verus! {

/// A fixed-size monochrome surface, one bit per pixel, packed row-major:
/// `height` rows of `width / 8` bytes, most significant bit leftmost. The
/// renderer clears it and redraws it in full on every tick; the hardware
/// flush that carries it to the display is the caller's business.
pub struct FrameBuffer {
    width: usize,
    height: usize,
    data: Vec<u8>,
}

/// The byte at flat index `i` after blitting `src` (with `wb` bytes per row
/// and `h` rows) over `dst0` (with `bpr` bytes per row) at byte column `x0b`,
/// row `y0`.
spec fn blit_byte(
    dst0: Seq<u8>,
    src: Seq<u8>,
    bpr: int,
    wb: int,
    x0b: int,
    y0: int,
    h: int,
    i: int,
) -> u8 {
    let yr: int = i / bpr;
    let cb: int = i % bpr;
    if y0 <= yr < y0 + h && x0b <= cb < x0b + wb {
        src[(yr - y0) * wb + (cb - x0b)]
    } else {
        dst0[i]
    }
}

/// The flat byte index of pixel (x, y) lies inside a `width` x `height`
/// row-major buffer.
proof fn lemma_pixel_index(width: int, height: int, x: int, y: int)
    requires
        width % 8 == 0,
        0 <= x < width,
        0 <= y < height,
    ensures
        0 <= y * (width / 8) + x / 8 < height * (width / 8),
        (y * (width / 8) + x / 8) / (width / 8) == y,
        (y * (width / 8) + x / 8) % (width / 8) == x / 8,
{
    let b: int = width / 8;
    assert(b * 8 == width);
    assert(0 <= x / 8 < b);
    lemma_mul_inequality(y + 1, height, b);
    assert((y + 1) * b == y * b + b) by (nonlinear_arith);
    assert(y * b >= 0) by (nonlinear_arith)
        requires
            y >= 0,
            b >= 0,
    ;
    lemma_fundamental_div_mod_converse(y * b + x / 8, b, y, x / 8);
}

impl FrameBuffer {
    /// The stored dimensions describe the byte buffer: the width packs into
    /// whole bytes and there is exactly one byte per 8 pixels of each row.
    pub closed spec fn wf(self) -> bool {
        &&& self.width % 8 == 0
        &&& self.data@.len() == self.height as int * (self.width as int / 8)
    }

    pub closed spec fn spec_width(self) -> int {
        self.width as int
    }

    pub closed spec fn spec_height(self) -> int {
        self.height as int
    }

    /// Pixel (x, y) of the surface.
    pub closed spec fn pixel(self, x: int, y: int) -> bool {
        row_pixel(self.data@, self.width as int, x, y)
    }

    /// Creates a surface with every pixel clear.
    pub fn new(width: usize, height: usize) -> (r: Self)
        requires
            width % 8 == 0,
            height as int * (width as int / 8) <= usize::MAX as int,
        ensures
            r.wf(),
            r.spec_width() == width,
            r.spec_height() == height,
            forall|x: int, y: int| 0 <= x < width && 0 <= y < height ==> !r.pixel(x, y),
    {
        let bpr: usize = width / 8;
        let total: usize = height * bpr;
        let mut data: Vec<u8> = Vec::new();
        let mut i: usize = 0;
        while i < total
            invariant
                i <= total,
                data@.len() == i,
                forall|j: int| 0 <= j < i ==> data@[j] == 0u8,
            decreases total - i,
        {
            data.push(0u8);
            i = i + 1;
        }
        let r = FrameBuffer { width, height, data };
        proof {
            assert forall|x: int, y: int| 0 <= x < width && 0 <= y < height implies !r.pixel(
                x,
                y,
            ) by {
                lemma_pixel_index(width as int, height as int, x, y);
                let m: u8 = (7 - x % 8) as u8;
                assert(!bit_set(0u8, m)) by (bit_vector);
            }
        }
        r
    }

    pub fn width(&self) -> (r: usize)
        ensures
            r == self.spec_width(),
    {
        self.width
    }

    pub fn height(&self) -> (r: usize)
        ensures
            r == self.spec_height(),
    {
        self.height
    }

    /// Reads pixel (x, y).
    pub fn get_pixel(&self, x: usize, y: usize) -> (r: bool)
        requires
            self.wf(),
            x < self.spec_width(),
            y < self.spec_height(),
        ensures
            r == self.pixel(x as int, y as int),
    {
        // a view as long as a real vector fits in a machine word
        let _len: usize = self.data.len();
        let bpr: usize = self.width / 8;
        proof {
            lemma_pixel_index(self.width as int, self.height as int, x as int, y as int);
        }
        let idx: usize = y * bpr + x / 8;
        let b: u8 = self.data[idx];
        let pos: u8 = (7 - (x % 8)) as u8;
        (b >> pos) & 1 == 1
    }

    /// Clears every pixel, keeping the dimensions.
    pub fn clear(&mut self)
        requires
            old(self).wf(),
        ensures
            final(self).wf(),
            final(self).spec_width() == old(self).spec_width(),
            final(self).spec_height() == old(self).spec_height(),
            forall|x: int, y: int|
                0 <= x < final(self).spec_width() && 0 <= y < final(self).spec_height()
                    ==> !final(self).pixel(x, y),
    {
        let n: usize = self.data.len();
        let mut data: Vec<u8> = Vec::new();
        let mut i: usize = 0;
        while i < n
            invariant
                i <= n,
                data@.len() == i,
                forall|j: int| 0 <= j < i ==> data@[j] == 0u8,
            decreases n - i,
        {
            data.push(0u8);
            i = i + 1;
        }
        self.data = data;
        proof {
            let s = *self;
            assert forall|x: int, y: int|
                0 <= x < s.spec_width() && 0 <= y < s.spec_height() implies !s.pixel(x, y) by {
                lemma_pixel_index(s.spec_width(), s.spec_height(), x, y);
                let m: u8 = (7 - x % 8) as u8;
                assert(!bit_set(0u8, m)) by (bit_vector);
            }
        }
    }

    /// Draws a row-major packed bitmap of `w` x `h` pixels at the byte-aligned
    /// position (x0, y0): inside the target rectangle the surface takes the
    /// bitmap's pixels, outside it nothing moves.
    pub fn blit(&mut self, src: &Vec<u8>, w: usize, h: usize, x0: usize, y0: usize)
        requires
            old(self).wf(),
            w % 8 == 0,
            x0 % 8 == 0,
            src@.len() == h as int * (w as int / 8),
            x0 + w <= old(self).spec_width(),
            y0 + h <= old(self).spec_height(),
        ensures
            final(self).wf(),
            final(self).spec_width() == old(self).spec_width(),
            final(self).spec_height() == old(self).spec_height(),
            forall|x: int, y: int|
                0 <= x < final(self).spec_width() && 0 <= y < final(self).spec_height()
                    ==> final(self).pixel(x, y) == (if x0 <= x < x0 + w && y0 <= y < y0 + h {
                    row_pixel(src@, w as int, x - x0, y - y0)
                } else {
                    old(self).pixel(x, y)
                }),
    {
        let ghost dst0 = self.data@;
        let n: usize = self.data.len();
        let slen: usize = src.len();
        let bpr: usize = self.width / 8;
        let wb: usize = w / 8;
        let x0b: usize = x0 / 8;
        proof {
            assert(bpr * 8 == self.width);
            assert(wb * 8 == w);
            assert(x0b * 8 == x0);
        }
        let mut r: usize = 0;
        while r < h
            invariant
                r <= h,
                self.width == old(self).width,
                self.height == old(self).height,
                self.wf(),
                old(self).wf(),
                self.data@.len() == dst0.len(),
                dst0 == old(self).data@,
                w % 8 == 0,
                x0 % 8 == 0,
                src@.len() == h as int * (w as int / 8),
                slen == src@.len(),
                x0 + w <= old(self).spec_width(),
                y0 + h <= old(self).spec_height(),
                bpr == self.width / 8,
                wb == w / 8,
                x0b == x0 / 8,
                n == self.data@.len(),
                forall|i: int|
                    0 <= i < n ==> self.data@[i] == (if y0 <= i / (bpr as int) < y0 + r && x0b
                        <= i % (bpr as int) < x0b + wb {
                        blit_byte(dst0, src@, bpr as int, wb as int, x0b as int, y0 as int, h as int, i)
                    } else {
                        dst0[i]
                    }),
            decreases h - r,
        {
            let mut cb: usize = 0;
            proof {
                lemma_mul_inequality(y0 as int + r + 1, self.height as int, bpr as int);
                assert((y0 + r + 1) * bpr == (y0 + r) * bpr + bpr) by (nonlinear_arith);
                assert((y0 + r) * bpr >= 0) by (nonlinear_arith)
                    requires
                        y0 + r >= 0,
                        bpr >= 0,
                ;
                lemma_mul_inequality(r as int + 1, h as int, wb as int);
                assert((r + 1) * wb == r * wb + wb) by (nonlinear_arith);
                assert(r * wb >= 0) by (nonlinear_arith)
                    requires
                        r >= 0,
                        wb >= 0,
                ;
            }
            while cb < wb
                invariant
                    cb <= wb,
                    r < h,
                    self.width == old(self).width,
                    self.height == old(self).height,
                    self.wf(),
                    old(self).wf(),
                    self.data@.len() == dst0.len(),
                    dst0 == old(self).data@,
                    w % 8 == 0,
                    x0 % 8 == 0,
                    src@.len() == h as int * (w as int / 8),
                    slen == src@.len(),
                    x0 + w <= old(self).spec_width(),
                    y0 + h <= old(self).spec_height(),
                    bpr == self.width / 8,
                    wb == w / 8,
                    x0b == x0 / 8,
                    n == self.data@.len(),
                    (y0 + r) * bpr + bpr <= n,
                    r * wb + wb <= src@.len(),
                    forall|i: int|
                        0 <= i < n ==> self.data@[i] == (if (y0 <= i / (bpr as int) < y0 + r && x0b
                            <= i % (bpr as int) < x0b + wb) || (i / (bpr as int) == y0 + r && x0b
                            <= i % (bpr as int) < x0b + cb) {
                            blit_byte(dst0, src@, bpr as int, wb as int, x0b as int, y0 as int, h as int, i)
                        } else {
                            dst0[i]
                        }),
                decreases wb - cb,
            {
                proof {
                    assert(x0b + wb <= bpr);
                }
                let didx: usize = (y0 + r) * bpr + x0b + cb;
                let sidx: usize = r * wb + cb;
                let v: u8 = src[sidx];
                proof {
                    lemma_fundamental_div_mod_converse(
                        didx as int,
                        bpr as int,
                        y0 + r as int,
                        x0b + cb as int,
                    );
                    assert(blit_byte(
                        dst0,
                        src@,
                        bpr as int,
                        wb as int,
                        x0b as int,
                        y0 as int,
                        h as int,
                        didx as int,
                    ) == v);
                }
                let ghost pre = self.data@;
                self.data.set(didx, v);
                proof {
                    assert(self.data@ == pre.update(didx as int, v));
                    assert(self.data@[didx as int] == blit_byte(
                        dst0,
                        src@,
                        bpr as int,
                        wb as int,
                        x0b as int,
                        y0 as int,
                        h as int,
                        didx as int,
                    ));
                    assert forall|i: int| 0 <= i < n && i != didx implies self.data@[i] == (if (y0
                        <= i / (bpr as int) < y0 + r && x0b <= i % (bpr as int) < x0b + wb) || (i / (
                    bpr as int) == y0 + r && x0b <= i % (bpr as int) < x0b + cb + 1) {
                        blit_byte(dst0, src@, bpr as int, wb as int, x0b as int, y0 as int, h as int, i)
                    } else {
                        dst0[i]
                    }) by {
                        assert(self.data@[i] == pre[i]);
                        assert(pre[i] == (if (y0 <= i / (bpr as int) < y0 + r && x0b <= i % (
                        bpr as int) < x0b + wb) || (i / (bpr as int) == y0 + r && x0b <= i % (
                        bpr as int) < x0b + cb) {
                            blit_byte(dst0, src@, bpr as int, wb as int, x0b as int, y0 as int, h as int, i)
                        } else {
                            dst0[i]
                        }));
                        if i / (bpr as int) == y0 + r && i % (bpr as int) == x0b + cb {
                            lemma_fundamental_div_mod(i, bpr as int);
                            assert(i == didx);
                        }
                    }
                }
                cb = cb + 1;
            }
            r = r + 1;
        }
        proof {
            let s = *self;
            let wi: int = s.width as int;
            assert forall|x: int, y: int| 0 <= x < wi && 0 <= y < s.spec_height() implies s.pixel(
                x,
                y,
            ) == (if x0 <= x < x0 + w && y0 <= y < y0 + h {
                row_pixel(src@, w as int, x - x0, y - y0)
            } else {
                old(self).pixel(x, y)
            }) by {
                lemma_pixel_index(wi, s.spec_height(), x, y);
                let bi: int = bpr as int;
                let i: int = y * bi + x / 8;
                if x0 <= x < x0 + w && y0 <= y < y0 + h {
                    assert(x0b <= x / 8 < x0b + wb);
                    assert((x - x0) / 8 == x / 8 - x0b && (x - x0) % 8 == x % 8) by {
                        lemma_fundamental_div_mod_converse(x - x0, 8, x / 8 - x0b, x % 8);
                    }
                    lemma_pixel_index(w as int, h as int, x - x0, y - y0);
                    assert(self.data@[i] == src@[(y - y0) * (wb as int) + (x / 8 - x0b)]);
                } else {
                    assert(!(y0 <= i / bi < y0 + h && x0b <= i % bi < x0b + wb)) by {
                        if y0 <= y < y0 + h && x0b <= x / 8 < x0b + wb {
                            assert(x0b * 8 <= x) by (nonlinear_arith)
                                requires
                                    x0b <= x / 8,
                                    x >= 0,
                                    8 * (x / 8) <= x,
                            ;
                            assert(x < (x0b + wb) * 8) by (nonlinear_arith)
                                requires
                                    x / 8 < x0b + wb,
                                    x >= 0,
                                    x < 8 * (x / 8) + 8,
                            ;
                        }
                    }
                    assert(self.data@[i] == dst0[i]);
                }
            }
        }
    }
}

} // verus!
