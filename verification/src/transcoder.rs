use vstd::arithmetic::div_mod::{lemma_fundamental_div_mod, lemma_fundamental_div_mod_converse};
use vstd::arithmetic::mul::lemma_mul_inequality;
use vstd::prelude::*;

verus! {

/// Whether bit `n` of byte `b` is set, for `n < 8`.
pub open spec fn bit_set(b: u8, n: u8) -> bool {
    (b >> n) & 1 == 1
}

/// Pixel (x, y) of a page-mode bitmap of width `width`. The buffer is
/// organized as `ceil(height / 8)` horizontal bands ("pages") of `width`
/// consecutive bytes; byte `b` of a page holds 8 vertically stacked pixels,
/// bit `n` being the pixel at row `8 * page + n`, column `b`.
pub open spec fn page_pixel(src: Seq<u8>, width: int, x: int, y: int) -> bool {
    bit_set(src[y / 8 * width + x], (y % 8) as u8)
}

/// Pixel (x, y) of a row-major bitmap of width `width` (a multiple of 8).
/// The buffer is organized as `height` rows of `width / 8` bytes; each byte
/// holds 8 horizontally adjacent pixels, bit `7 - k` being the pixel at
/// column `8 * byte_in_row + k`.
pub open spec fn row_pixel(dst: Seq<u8>, width: int, x: int, y: int) -> bool {
    bit_set(dst[y * (width / 8) + x / 8], (7 - x % 8) as u8)
}

/// Number of pages (8-pixel-tall bands) a page-mode bitmap of the given
/// height occupies.
pub open spec fn page_count(height: int) -> int {
    (height + 7) / 8
}

/// `out` is the row-major rendering of the page-mode bitmap `src` for a
/// `width` x `height` image: it has one byte per 8 horizontal pixels and
/// every pixel sits at its geometrically correct position.
pub open spec fn is_transcoding(src: Seq<u8>, out: Seq<u8>, width: int, height: int) -> bool {
    &&& out.len() == height * (width / 8)
    &&& forall|x: int, y: int|
        0 <= x < width && 0 <= y < height ==> row_pixel(out, width, x, y) == page_pixel(
            src,
            width,
            x,
            y,
        )
}

/// Why a transcoding request was rejected.
#[derive(Clone, Copy, PartialEq, Eq, Structural, Debug)]
pub enum TranscodeError {
    /// The width is not a multiple of 8, so rows do not pack into whole bytes.
    WidthNotMultipleOfEight,
    /// The source length does not equal `width * ceil(height / 8)`.
    SizeMismatch,
}

/// Setting one clear bit of a byte with `|` leaves every other bit as it was.
proof fn lemma_set_bit(acc: u8, bit: u8, pos: u8)
    by (bit_vector)
    requires
        pos < 8,
        bit == 0 || bit == 1,
        !bit_set(acc, pos),
    ensures
        bit_set(acc | (bit << pos), pos) == (bit == 1),
        forall|m: u8| m < 8 && m != pos ==> bit_set(acc | (bit << pos), m) == bit_set(acc, m),
{
}

/// Two bytes that agree on all 8 bits are equal.
proof fn lemma_byte_from_bits(a: u8, b: u8)
    by (bit_vector)
    requires
        bit_set(a, 0) == bit_set(b, 0),
        bit_set(a, 1) == bit_set(b, 1),
        bit_set(a, 2) == bit_set(b, 2),
        bit_set(a, 3) == bit_set(b, 3),
        bit_set(a, 4) == bit_set(b, 4),
        bit_set(a, 5) == bit_set(b, 5),
        bit_set(a, 6) == bit_set(b, 6),
        bit_set(a, 7) == bit_set(b, 7),
    ensures
        a == b,
{
}

/// Packs the destination byte for destination row `y`, byte-in-row `c`: bit
/// `m` of the result is source pixel `(c * 8 + 7 - m, y)` under page-mode
/// addressing.
fn gather_byte(input: &Vec<u8>, width: usize, y: usize, c: usize) -> (r: u8)
    requires
        width % 8 == 0,
        c < width / 8,
        y / 8 * width + width <= input@.len(),
    ensures
        forall|m: u8|
            m < 8 ==> #[trigger] bit_set(r, m) == page_pixel(
                input@,
                width as int,
                c * 8 + 7 - m,
                y as int,
            ),
{
    // a view as long as a real vector fits in a machine word
    let _len: usize = input.len();
    let page: usize = y / 8;
    let shift: usize = y % 8;
    assert(width / 8 * 8 == width);
    let base: usize = page * width + c * 8;
    let mut acc: u8 = 0;
    let mut k: usize = 0;
    assert(forall|m: u8| m < 8 ==> !(#[trigger] bit_set(0u8, m))) by (bit_vector);
    while k < 8
        invariant
            k <= 8,
            width % 8 == 0,
            c < width / 8,
            y / 8 * width + width <= input@.len(),
            input@.len() <= usize::MAX,
            base == y / 8 * width + c * 8,
            shift == y % 8,
            forall|m: u8|
                m < 8 && 7 - k < m ==> #[trigger] bit_set(acc, m) == page_pixel(
                    input@,
                    width as int,
                    c * 8 + 7 - m,
                    y as int,
                ),
            forall|m: u8| m < 8 && m <= 7 - k ==> !(#[trigger] bit_set(acc, m)),
        decreases 8 - k,
    {
        assert(width / 8 * 8 == width);
        assert(base + k < input@.len());
        let sb: u8 = input[base + k];
        let bit: u8 = (sb >> (shift as u8)) & 1;
        let pos: u8 = (7 - k) as u8;
        let newacc: u8 = acc | (bit << pos);
        proof {
            let shv: u8 = shift as u8;
            assert((sb >> shv) & 1 == 0 || (sb >> shv) & 1 == 1) by (bit_vector);
            lemma_set_bit(acc, bit, pos);
            assert((bit == 1) == bit_set(sb, shv));
            assert(page_pixel(input@, width as int, c * 8 + k, y as int) == bit_set(
                input@[y as int / 8 * width + c * 8 + k],
                (y as int % 8) as u8,
            ));
            assert(bit_set(newacc, pos) == page_pixel(
                input@,
                width as int,
                c * 8 + k,
                y as int,
            ));
            assert forall|m: u8| m < 8 && 7 - (k + 1) < m implies #[trigger] bit_set(newacc, m)
                == page_pixel(input@, width as int, c * 8 + 7 - m, y as int) by {
                if m == pos {
                    assert(c * 8 + 7 - m == c * 8 + k);
                } else {
                    assert(bit_set(newacc, m) == bit_set(acc, m));
                }
            }
            assert forall|m: u8| m < 8 && m <= 7 - (k + 1) implies !(#[trigger] bit_set(
                newacc,
                m,
            )) by {
                assert(m != pos);
                assert(bit_set(newacc, m) == bit_set(acc, m));
            }
        }
        acc = newacc;
        k = k + 1;
    }
    acc
}

/// Bit `m` of destination byte `i` of a row-major buffer with
/// `bpr = width / 8` bytes per row is source pixel
/// `((i % bpr) * 8 + 7 - m, i / bpr)` under page-mode addressing.
spec fn byte_ok(b: u8, src: Seq<u8>, width: int, i: int) -> bool {
    forall|m: u8|
        m < 8 ==> #[trigger] bit_set(b, m) == page_pixel(
            src,
            width,
            (i % (width / 8)) * 8 + 7 - m,
            i / (width / 8),
        )
}

/// Converts a page-mode monochrome bitmap into the row-major packed form:
/// every pixel of the `width` x `height` image keeps its geometric position.
///
/// Fails, and copies nothing, unless `width` is a multiple of 8 and the
/// source holds exactly `width * ceil(height / 8)` bytes.
pub fn transcode(input: &Vec<u8>, width: usize, height: usize) -> (r: Result<
    Vec<u8>,
    TranscodeError,
>)
    ensures
        width % 8 != 0 ==> r == Err::<Vec<u8>, TranscodeError>(
            TranscodeError::WidthNotMultipleOfEight,
        ),
        width % 8 == 0 && input@.len() != width * page_count(height as int) ==> r == Err::<
            Vec<u8>,
            TranscodeError,
        >(TranscodeError::SizeMismatch),
        width % 8 == 0 && input@.len() == width * page_count(height as int) ==> r is Ok
            && is_transcoding(input@, r->Ok_0@, width as int, height as int),
{
    if width % 8 != 0 {
        return Err(TranscodeError::WidthNotMultipleOfEight);
    }
    let ilen: usize = input.len();
    let pages: usize = height / 8 + (if height % 8 == 0 {
        0
    } else {
        1
    });
    assert(pages == page_count(height as int));
    let len_ok: bool = match width.checked_mul(pages) {
        Some(n) => ilen == n,
        None => false,
    };
    if !len_ok {
        return Err(TranscodeError::SizeMismatch);
    }
    let bpr: usize = width / 8;
    let mut out: Vec<u8> = Vec::new();
    let mut row: usize = 0;
    while row < height
        invariant
            row <= height,
            width % 8 == 0,
            bpr == width / 8,
            pages == page_count(height as int),
            input@.len() == width * pages,
            out@.len() == row * bpr,
            forall|i: int| 0 <= i < out@.len() ==> byte_ok(out@[i], input@, width as int, i),
        decreases height - row,
    {
        let mut c: usize = 0;
        proof {
            lemma_row_fits_in_pages(row as int, height as int, width as int, pages as int);
        }
        while c < bpr
            invariant
                c <= bpr,
                row < height,
                width % 8 == 0,
                bpr == width / 8,
                pages == page_count(height as int),
                input@.len() == width * pages,
                row as int / 8 * width + width <= input@.len(),
                out@.len() == row * bpr + c,
                forall|i: int| 0 <= i < out@.len() ==> byte_ok(out@[i], input@, width as int, i),
            decreases bpr - c,
        {
            let b: u8 = gather_byte(input, width, row, c);
            proof {
                let i: int = row * bpr + c;
                lemma_fundamental_div_mod_converse(i, bpr as int, row as int, c as int);
                assert(byte_ok(b, input@, width as int, i));
            }
            out.push(b);
            c = c + 1;
        }
        proof {
            assert((row + 1) * bpr == row * bpr + bpr) by (nonlinear_arith);
        }
        row = row + 1;
    }
    proof {
        assert forall|x: int, y: int| 0 <= x < width && 0 <= y < height implies row_pixel(
            out@,
            width as int,
            x,
            y,
        ) == page_pixel(input@, width as int, x, y) by {
            let w: int = width as int;
            let b: int = w / 8;
            let i: int = y * b + x / 8;
            assert(0 <= x / 8 < b);
            lemma_mul_inequality(y + 1, height as int, b);
            assert((y + 1) * b == y * b + b) by (nonlinear_arith);
            assert(0 <= i < out@.len());
            lemma_fundamental_div_mod_converse(i, b, y, x / 8);
            assert(byte_ok(out@[i], input@, w, i));
            let m: u8 = (7 - x % 8) as u8;
            assert(bit_set(out@[i], m) == page_pixel(input@, w, (x / 8) * 8 + 7 - m, y));
            assert((x / 8) * 8 + 7 - m == x);
        }
    }
    Ok(out)
}

/// The bytes of the page a destination row reads all lie inside a page-mode
/// source of `pages = ceil(height / 8)` pages.
proof fn lemma_row_fits_in_pages(row: int, height: int, width: int, pages: int)
    requires
        0 <= row < height,
        0 <= width,
        pages == page_count(height),
    ensures
        row / 8 * width + width <= width * pages,
{
    assert(row / 8 < pages);
    assert((row / 8 + 1) * width <= pages * width) by {
        lemma_mul_inequality(row / 8 + 1, pages, width);
    }
    assert((row / 8 + 1) * width == row / 8 * width + width) by (nonlinear_arith);
    assert(pages * width == width * pages) by (nonlinear_arith);
}

/// Transcoding is deterministic: any two row-major buffers that both stand in
/// the transcoding relation to the same source are byte-for-byte identical.
pub proof fn lemma_transcode_deterministic(
    src: Seq<u8>,
    a: Seq<u8>,
    b: Seq<u8>,
    width: int,
    height: int,
)
    requires
        width % 8 == 0,
        0 <= width,
        0 <= height,
        is_transcoding(src, a, width, height),
        is_transcoding(src, b, width, height),
    ensures
        a == b,
{
    let bpr: int = width / 8;
    if bpr == 0 || height == 0 {
        assert(a.len() == 0 && b.len() == 0) by {
            assert(height * bpr == 0) by (nonlinear_arith)
                requires
                    bpr == 0 || height == 0,
            ;
        }
        assert(a =~= b);
        return ;
    }
    assert forall|i: int| 0 <= i < a.len() implies a[i] == b[i] by {
        lemma_fundamental_div_mod(i, bpr);
        let y: int = i / bpr;
        let c: int = i % bpr;
        assert(bpr * 8 == width);
        assert(0 <= c < bpr);
        assert(y < height) by {
            if y >= height {
                lemma_mul_inequality(height, y, bpr);
                assert(y * bpr <= i);
            }
        }
        assert(0 <= y);
        assert forall|m: u8| m < 8 implies bit_set(a[i], m) == bit_set(b[i], m) by {
            let k: int = 7 - m;
            let x: int = c * 8 + k;
            assert(x < width) by {
                lemma_mul_inequality(c + 1, bpr, 8);
                assert((c + 1) * 8 == c * 8 + 8) by (nonlinear_arith);
            }
            assert(0 <= x);
            lemma_fundamental_div_mod_converse(x, 8, c, k);
            assert(i == y * bpr + x / 8);
            assert(row_pixel(a, width, x, y) == page_pixel(src, width, x, y));
            assert(row_pixel(b, width, x, y) == page_pixel(src, width, x, y));
            assert((7 - x % 8) as u8 == m);
        }
        lemma_byte_from_bits(a[i], b[i]);
    }
    assert(a =~= b);
}

/// Reads pixel (x, y) of a row-major packed bitmap.
pub fn row_pixel_at(buf: &Vec<u8>, width: usize, height: usize, x: usize, y: usize) -> (r: bool)
    requires
        width % 8 == 0,
        x < width,
        y < height,
        buf@.len() == height * (width / 8),
    ensures
        r == row_pixel(buf@, width as int, x as int, y as int),
{
    // a view as long as a real vector fits in a machine word
    let _len: usize = buf.len();
    let bpr: usize = width / 8;
    proof {
        lemma_mul_inequality(y as int + 1, height as int, bpr as int);
        assert((y as int + 1) * bpr == y as int * bpr + bpr) by (nonlinear_arith);
    }
    let idx: usize = y * bpr + x / 8;
    let b: u8 = buf[idx];
    let pos: u8 = (7 - (x % 8)) as u8;
    let r: bool = (b >> pos) & 1 == 1;
    r
}

/// Reads pixel (x, y) of a page-mode bitmap.
pub fn page_pixel_at(buf: &Vec<u8>, width: usize, height: usize, x: usize, y: usize) -> (r: bool)
    requires
        x < width,
        y < height,
        buf@.len() == width * page_count(height as int),
    ensures
        r == page_pixel(buf@, width as int, x as int, y as int),
{
    // a view as long as a real vector fits in a machine word
    let _len: usize = buf.len();
    proof {
        lemma_row_fits_in_pages(y as int, height as int, width as int, page_count(height as int));
    }
    let idx: usize = y / 8 * width + x;
    let b: u8 = buf[idx];
    let pos: u8 = (y % 8) as u8;
    let r: bool = (b >> pos) & 1 == 1;
    r
}

} // verus!
