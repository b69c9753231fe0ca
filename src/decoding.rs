//! Decoding jobs: what a rectangle of an update turns into, and how each
//! kind of job changes the framebuffer.
use vstd::prelude::*;
use crate::framebuffer::{byte_pos, lemma_pixel_in_range, Bgrx, FbSize, FbView, Framebuffer};
use crate::rfb::RectangleHeader;
use crate::cursor::{Cursor, CursorSize, CursorView, Hotspot};
use crate::zlib::ZlibStream;

verus! {

/// A rectangle of the framebuffer.
#[derive(Clone, Copy, Debug, PartialEq, Eq, Structural)]
pub struct Bounds {
    pub x: usize,
    pub y: usize,
    pub size: FbSize,
}

impl Bounds {
    pub fn new(x: usize, y: usize, size: FbSize) -> (r: Self)
        ensures
            r.x == x,
            r.y == y,
            r.size == size,
    {
        Bounds { x, y, size }
    }

    pub fn width(&self) -> (r: usize)
        ensures
            r == self.size.width,
    {
        self.size.width
    }

    pub fn height(&self) -> (r: usize)
        ensures
            r == self.size.height,
    {
        self.size.height
    }

    /// Whether the rectangle lies inside a framebuffer of the given size.
    pub open spec fn inside(self, size: FbSize) -> bool {
        self.x + self.size.width <= size.width && self.y + self.size.height <= size.height
    }
}

/// Tight pixel data: sent as is when short, else through a zlib stream.
pub enum TightData {
    UncompressedRgb(Vec<u8>),
    CompressedRgb { stream_no: usize, bytes: Vec<u8> },
}

/// How a rectangle's pixels are encoded.
pub enum EncodingMethod {
    RawBgra(Vec<u8>),
    CopyFilter(TightData),
    PaletteFilter(Vec<Bgrx>, TightData),
    Jpeg(Vec<u8>),
    Fill(Bgrx),
    CursorBgrx { pixels: Vec<u8>, bitmask: Vec<u8> },
}

/// A unit of decoding work.
pub enum DecodingJob {
    ResetZlib(usize),
    Rect { bounds: Bounds, method: EncodingMethod },
}

impl DecodingJob {
    pub fn rect_from_rfb(rect: &RectangleHeader, method: EncodingMethod) -> (r: Self)
        ensures
            r matches DecodingJob::Rect { bounds, method: m } && bounds == (Bounds {
                x: rect.x,
                y: rect.y,
                size: FbSize { width: rect.width, height: rect.height },
            }) && m == method,
    {
        DecodingJob::Rect { bounds: Bounds::new(rect.x, rect.y, FbSize::new(rect.width, rect.height)), method }
    }
}

/// The pixel at (x, y) with all four of its bytes.
pub open spec fn pixel_at(v: FbView, x: int, y: int) -> Bgrx {
    let p = byte_pos(v.size.width as int, x, y);
    Bgrx { b: v.bytes[p], g: v.bytes[p + 1], r: v.bytes[p + 2], x: v.bytes[p + 3] }
}

/// Whether byte `i` belongs to the `w` pixels from (x, y) on.
pub open spec fn in_row(width: int, x: int, w: int, y: int, i: int) -> bool {
    byte_pos(width, x, y) <= i < byte_pos(width, x + w, y)
}

/// Whether byte `i` belongs to one of the first `n` rows of `bounds`.
pub open spec fn in_rows(width: int, bounds: Bounds, n: int, i: int) -> bool {
    exists|j: int| 0 <= j < n && #[trigger] in_row(width, bounds.x as int, bounds.size.width as int, bounds.y + j, i)
}

/// Whether byte `i` belongs to one of the rows of `bounds`.
pub open spec fn in_rect(width: int, bounds: Bounds, i: int) -> bool {
    in_rows(width, bounds, bounds.size.height as int, i)
}

proof fn lemma_rows_apart(width: int, x: int, w: int, y0: int, y1: int)
    requires
        0 <= x,
        0 <= w,
        x + w <= width,
        y0 < y1,
    ensures
        byte_pos(width, x + w, y0) <= byte_pos(width, x, y1),
{
    assert(y0 * (4 * width) + 4 * (x + w) <= y1 * (4 * width) + 4 * x) by (nonlinear_arith)
        requires
            0 <= x,
            0 <= w,
            x + w <= width,
            y0 < y1,
    ;
}

/// Copies `pixels`, row after row, into the rectangle `bounds`; bytes
/// outside the rectangle keep their values.
pub fn blit(fb: &mut Framebuffer, bounds: &Bounds, pixels: &Vec<Bgrx>)
    requires
        old(fb)@.wf(),
        bounds.inside(old(fb)@.size),
        pixels@.len() == bounds.size.spec_pixels(),
    ensures
        final(fb)@.wf(),
        final(fb)@.size == old(fb)@.size,
        forall|i: int, j: int|
            0 <= i < bounds.size.width && 0 <= j < bounds.size.height ==> #[trigger] pixel_at(final(fb)@, bounds.x + i, bounds.y + j)
                == pixels@[j * bounds.size.width + i],
        forall|k: int|
            0 <= k < old(fb)@.bytes.len() && !in_rect(old(fb)@.size.width as int, *bounds, k) ==> #[trigger] final(fb)@.bytes[k]
                == old(fb)@.bytes[k],
{
    let w = bounds.size.width;
    let h = bounds.size.height;
    let fw = fb.size().width;
    let ghost start = fb@;
    let n = pixels.len();
    let mut j: usize = 0;
    let mut row_start: usize = 0;
    while j < h
        invariant
            n == pixels@.len(),
            fb@.wf(),
            fb@.size == start.size,
            fw == start.size.width,
            start.wf(),
            bounds.inside(start.size),
            pixels@.len() == w * h,
            w == bounds.size.width,
            h == bounds.size.height,
            j <= h,
            row_start == j * w,
            forall|i: int, jj: int|
                0 <= i < w && 0 <= jj < j ==> #[trigger] pixel_at(fb@, bounds.x + i, bounds.y + jj) == pixels@[jj * w + i],
            forall|k: int|
                0 <= k < start.bytes.len() && !in_rows(fw as int, *bounds, j as int, k) ==> #[trigger] fb@.bytes[k]
                    == start.bytes[k],
        decreases h - j,
    {
        proof {
            assert((j + 1) * w <= h * w) by (nonlinear_arith)
                requires
                    j < h,
            ;
            assert((j + 1) * w == j * w + w) by (nonlinear_arith);
        }
        let row = vstd::slice::slice_subrange(pixels.as_slice(), row_start, row_start + w);
        let ghost before = fb@;
        fb.set_line(bounds.x, w, bounds.y + j, row);
        proof {
            assert forall|i: int, jj: int| 0 <= i < w && 0 <= jj < j + 1 implies #[trigger] pixel_at(fb@, bounds.x + i, bounds.y + jj)
                == pixels@[jj * w + i] by {
                if jj < j {
                    lemma_pixel_in_range(start.size, bounds.x + i, bounds.y + jj);
                    lemma_rows_apart(fw as int, bounds.x as int, w as int, bounds.y + jj, bounds.y + j);
                    let p = byte_pos(fw as int, bounds.x + i, bounds.y + jj);
                    assert(p + 3 < byte_pos(fw as int, bounds.x as int, bounds.y + j)) by (nonlinear_arith)
                        requires
                            p == (bounds.y + jj) * (4 * fw) + 4 * (bounds.x + i),
                            byte_pos(fw as int, bounds.x + w, bounds.y + jj) == (bounds.y + jj) * (4 * fw) + 4 * (bounds.x + w),
                            byte_pos(fw as int, bounds.x + w, bounds.y + jj) <= byte_pos(fw as int, bounds.x as int, bounds.y + j),
                            i < w,
                    ;
                    assert(fb@.bytes[p] == before.bytes[p]);
                    assert(fb@.bytes[p + 1] == before.bytes[p + 1]);
                    assert(fb@.bytes[p + 2] == before.bytes[p + 2]);
                    assert(fb@.bytes[p + 3] == before.bytes[p + 3]);
                    assert(pixel_at(before, bounds.x + i, bounds.y + jj) == pixels@[jj * w + i]);
                } else {
                    assert(row@ == pixels@.subrange(j * w, j * w + w));
                    assert(row@[i] == pixels@[j * w + i]);
                    assert(pixel_at(fb@, bounds.x + i, bounds.y + j) == row@[i]);
                }
            }
            assert forall|k: int|
                0 <= k < start.bytes.len() && !in_rows(fw as int, *bounds, j + 1, k) implies #[trigger] fb@.bytes[k]
                == start.bytes[k] by {
                if in_rows(fw as int, *bounds, j as int, k) {
                    let jj = choose|jj: int| 0 <= jj < j && #[trigger] in_row(fw as int, bounds.x as int, w as int, bounds.y + jj, k);
                    assert(in_row(fw as int, bounds.x as int, w as int, bounds.y + jj, k));
                }
                assert(!in_row(fw as int, bounds.x as int, w as int, bounds.y + j, k));
            }
        }
        j = j + 1;
        row_start = row_start + w;
    }
}

/// Pixel `i` of raw BGRx bytes.
pub open spec fn raw_pixel(bytes: Seq<u8>, i: int) -> Bgrx {
    Bgrx { b: bytes[4 * i], g: bytes[4 * i + 1], r: bytes[4 * i + 2], x: 0 }
}

/// Pixel `i` of RGB bytes, three per pixel.
pub open spec fn rgb_pixel(data: Seq<u8>, i: int) -> Bgrx {
    Bgrx { r: data[3 * i], g: data[3 * i + 1], b: data[3 * i + 2], x: 0 }
}

/// Bytes per row of a one-bit-per-pixel image `w` pixels wide.
pub open spec fn bit_stride(w: int) -> int {
    (w + 7) / 8
}

/// The bit of pixel (x, y) in a one-bit-per-pixel image `w` pixels wide:
/// rows start on whole bytes, and the leftmost pixel of a byte is its most
/// significant bit.
pub open spec fn mono_bit(data: Seq<u8>, w: int, x: int, y: int) -> u8 {
    (data[y * bit_stride(w) + x / 8] >> ((7 - x % 8) as u8)) & 1
}

/// `n` pixels of one colour.
pub fn fill_pixels(color: Bgrx, n: usize) -> (r: Vec<Bgrx>)
    ensures
        r@ == Seq::new(n as nat, |i: int| color),
{
    let mut r: Vec<Bgrx> = Vec::new();
    let mut i: usize = 0;
    while i < n
        invariant
            i <= n,
            r@ == Seq::new(i as nat, |k: int| color),
        decreases n - i,
    {
        r.push(color);
        i = i + 1;
        assert(r@ =~= Seq::new(i as nat, |k: int| color));
    }
    r
}

/// `n` pixels from BGRx bytes, four per pixel.
pub fn raw_pixels(bytes: &[u8], n: usize) -> (r: Vec<Bgrx>)
    requires
        4 * n <= bytes@.len(),
    ensures
        r@ == Seq::new(n as nat, |i: int| raw_pixel(bytes@, i)),
{
    let mut r: Vec<Bgrx> = Vec::new();
    let total = bytes.len();
    let mut i: usize = 0;
    while i < n
        invariant
            i <= n,
            total == bytes@.len(),
            4 * n <= bytes@.len(),
            r@ == Seq::new(i as nat, |k: int| raw_pixel(bytes@, k)),
        decreases n - i,
    {
        r.push(Bgrx { b: bytes[4 * i], g: bytes[4 * i + 1], r: bytes[4 * i + 2], x: 0 });
        i = i + 1;
        assert(r@ =~= Seq::new(i as nat, |k: int| raw_pixel(bytes@, k)));
    }
    r
}

/// `n` pixels from RGB bytes, three per pixel.
pub fn rgb_pixels(data: &[u8], n: usize) -> (r: Vec<Bgrx>)
    requires
        3 * n <= data@.len(),
    ensures
        r@ == Seq::new(n as nat, |i: int| rgb_pixel(data@, i)),
{
    let mut r: Vec<Bgrx> = Vec::new();
    let total = data.len();
    let mut i: usize = 0;
    while i < n
        invariant
            i <= n,
            total == data@.len(),
            3 * n <= data@.len(),
            r@ == Seq::new(i as nat, |k: int| rgb_pixel(data@, k)),
        decreases n - i,
    {
        r.push(Bgrx { r: data[3 * i], g: data[3 * i + 1], b: data[3 * i + 2], x: 0 });
        i = i + 1;
        assert(r@ =~= Seq::new(i as nat, |k: int| rgb_pixel(data@, k)));
    }
    r
}

/// `n` pixels that index a palette, one byte each; nothing if an index lies
/// outside the palette.
pub fn palette_pixels(colors: &Vec<Bgrx>, data: &[u8], n: usize) -> (r: Option<Vec<Bgrx>>)
    requires
        n <= data@.len(),
    ensures
        r is Some <==> forall|i: int| 0 <= i < n ==> (#[trigger] data@[i] as int) < colors@.len(),
        r is Some ==> r->Some_0@ == Seq::new(n as nat, |i: int| colors@[data@[i] as int]),
{
    let mut r: Vec<Bgrx> = Vec::new();
    let mut i: usize = 0;
    while i < n
        invariant
            i <= n,
            n <= data@.len(),
            forall|k: int| 0 <= k < i ==> (#[trigger] data@[k] as int) < colors@.len(),
            r@ == Seq::new(i as nat, |k: int| colors@[data@[k] as int]),
        decreases n - i,
    {
        let index = data[i] as usize;
        if index >= colors.len() {
            return None;
        }
        r.push(colors[index]);
        i = i + 1;
        assert(r@ =~= Seq::new(i as nat, |k: int| colors@[data@[k] as int]));
    }
    Some(r)
}

/// The pixels of a `w` by `h` two-colour image, one bit per pixel (see
/// `mono_bit`), row after row.
pub fn mono_pixels(colors: &Vec<Bgrx>, data: &[u8], w: usize, h: usize) -> (r: Vec<Bgrx>)
    requires
        colors@.len() == 2,
        h * bit_stride(w as int) <= data@.len(),
    ensures
        r@.len() == w * h,
        forall|x: int, y: int|
            0 <= x < w && 0 <= y < h ==> #[trigger] r@[y * w + x] == colors@[mono_bit(data@, w as int, x, y) as int],
{
    let stride = w / 8 + if w % 8 == 0 { 0 } else { 1 };
    assert(stride == bit_stride(w as int));
    let mut r: Vec<Bgrx> = Vec::new();
    let total = data.len();
    let mut y: usize = 0;
    while y < h
        invariant
            total == data@.len(),
            colors@.len() == 2,
            h * bit_stride(w as int) <= data@.len(),
            stride == bit_stride(w as int),
            y <= h,
            r@.len() == y * w,
            forall|xx: int, yy: int|
                0 <= xx < w && 0 <= yy < y ==> #[trigger] r@[yy * w + xx] == colors@[mono_bit(data@, w as int, xx, yy) as int],
        decreases h - y,
    {
        proof {
            assert((y + 1) * stride <= h * stride) by (nonlinear_arith)
                requires
                    y < h,
                    0 <= stride,
            ;
            assert((y + 1) * stride == y * stride + stride) by (nonlinear_arith);
        }
        let row = y * stride;
        let mut x: usize = 0;
        while x < w
            invariant
                total == data@.len(),
                colors@.len() == 2,
                h * bit_stride(w as int) <= data@.len(),
                stride == bit_stride(w as int),
                y < h,
                row == y * stride,
                row + stride <= data@.len(),
                x <= w,
                r@.len() == y * w + x,
                forall|xx: int, yy: int|
                    0 <= xx < w && 0 <= yy < y ==> #[trigger] r@[yy * w + xx] == colors@[mono_bit(data@, w as int, xx, yy) as int],
                forall|xx: int| 0 <= xx < x ==> #[trigger] r@[y * w + xx] == colors@[mono_bit(data@, w as int, xx, y as int) as int],
            decreases w - x,
        {
            assert(x / 8 < stride);
            let byte = data[row + x / 8];
            let shift = (7 - x % 8) as u8;
            let bit = (byte >> shift) & 1;
            assert(bit == mono_bit(data@, w as int, x as int, y as int));
            assert(bit < 2) by (bit_vector)
                requires
                    bit == (byte >> shift) & 1,
            ;
            let ghost before = r@;
            r.push(colors[bit as usize]);
            proof {
                assert forall|xx: int, yy: int| 0 <= xx < w && 0 <= yy < y implies #[trigger] r@[yy * w + xx]
                    == colors@[mono_bit(data@, w as int, xx, yy) as int] by {
                    assert(yy * w + xx < y * w) by (nonlinear_arith)
                        requires
                            0 <= xx < w,
                            0 <= yy < y,
                    ;
                    assert(r@[yy * w + xx] == before[yy * w + xx]);
                }
            }
            x = x + 1;
        }
        proof {
            assert((y + 1) * w == y * w + w) by (nonlinear_arith);
            assert forall|xx: int, yy: int| 0 <= xx < w && 0 <= yy < y + 1 implies #[trigger] r@[yy * w + xx]
                == colors@[mono_bit(data@, w as int, xx, yy) as int] by {
                if yy == y {
                    assert(r@[y * w + xx] == colors@[mono_bit(data@, w as int, xx, y as int) as int]);
                }
            }
        }
        y = y + 1;
    }
    assert(h * w == w * h) by (nonlinear_arith);
    r
}

/// Byte `c` of the RGBA cursor pixel (x, y): the colour of BGRx `pixels`,
/// opaque where the mask bit is set and transparent elsewhere.
pub open spec fn cursor_byte(pixels: Seq<u8>, bitmask: Seq<u8>, w: int, x: int, y: int, c: int) -> u8 {
    let k = y * w + x;
    if c == 0 {
        pixels[4 * k + 2]
    } else if c == 1 {
        pixels[4 * k + 1]
    } else if c == 2 {
        pixels[4 * k]
    } else {
        (mono_bit(bitmask, w, x, y) * 255) as u8
    }
}

/// The RGBA image of a `w` by `h` cursor from its BGRx pixels and its
/// one-bit-per-pixel mask.
pub fn cursor_rgba(pixels: &[u8], bitmask: &[u8], w: usize, h: usize) -> (r: Vec<u8>)
    requires
        4 * (w * h) <= pixels@.len(),
        h * bit_stride(w as int) <= bitmask@.len(),
    ensures
        r@.len() == 4 * (w * h),
        forall|x: int, y: int, c: int|
            0 <= x < w && 0 <= y < h && 0 <= c < 4 ==> #[trigger] r@[4 * (y * w + x) + c] == cursor_byte(
                pixels@,
                bitmask@,
                w as int,
                x,
                y,
                c,
            ),
{
    let stride = w / 8 + if w % 8 == 0 { 0 } else { 1 };
    let mut r: Vec<u8> = Vec::new();
    let total = bitmask.len();
    let npix = pixels.len();
    let mut y: usize = 0;
    let mut k: usize = 0;
    while y < h
        invariant
            total == bitmask@.len(),
            npix == pixels@.len(),
            4 * (w * h) <= pixels@.len(),
            h * bit_stride(w as int) <= bitmask@.len(),
            stride == bit_stride(w as int),
            y <= h,
            k == y * w,
            r@.len() == 4 * k,
            forall|xx: int, yy: int, c: int|
                0 <= xx < w && 0 <= yy < y && 0 <= c < 4 ==> #[trigger] r@[4 * (yy * w + xx) + c] == cursor_byte(
                    pixels@,
                    bitmask@,
                    w as int,
                    xx,
                    yy,
                    c,
                ),
        decreases h - y,
    {
        proof {
            assert((y + 1) * stride <= h * stride) by (nonlinear_arith)
                requires
                    y < h,
                    0 <= stride,
            ;
            assert((y + 1) * stride == y * stride + stride) by (nonlinear_arith);
            assert((y + 1) * w <= h * w) by (nonlinear_arith)
                requires
                    y < h,
            ;
            assert((y + 1) * w == y * w + w) by (nonlinear_arith);
        }
        let row = y * stride;
        let mut x: usize = 0;
        while x < w
            invariant
                total == bitmask@.len(),
                npix == pixels@.len(),
                4 * (w * h) <= pixels@.len(),
                h * bit_stride(w as int) <= bitmask@.len(),
                stride == bit_stride(w as int),
                y < h,
                row == y * stride,
                row + stride <= bitmask@.len(),
                (y + 1) * w <= h * w,
                (y + 1) * w == y * w + w,
                x <= w,
                k == y * w + x,
                r@.len() == 4 * k,
                forall|xx: int, yy: int, c: int|
                    0 <= xx < w && 0 <= yy < y && 0 <= c < 4 ==> #[trigger] r@[4 * (yy * w + xx) + c] == cursor_byte(
                        pixels@,
                        bitmask@,
                        w as int,
                        xx,
                        yy,
                        c,
                    ),
                forall|xx: int, c: int|
                    0 <= xx < x && 0 <= c < 4 ==> #[trigger] r@[4 * (y * w + xx) + c] == cursor_byte(
                        pixels@,
                        bitmask@,
                        w as int,
                        xx,
                        y as int,
                        c,
                    ),
            decreases w - x,
        {
            assert(x / 8 < stride);
            let byte = bitmask[row + x / 8];
            let shift = (7 - x % 8) as u8;
            let bit = (byte >> shift) & 1;
            assert(bit < 2) by (bit_vector)
                requires
                    bit == (byte >> shift) & 1,
            ;
            assert(h * w == w * h) by (nonlinear_arith);
            assert(k < w * h);
            let p = 4 * k;
            let ghost before = r@;
            r.push(pixels[p + 2]);
            r.push(pixels[p + 1]);
            r.push(pixels[p]);
            r.push(bit * 255);
            proof {
                assert forall|xx: int, yy: int, c: int| 0 <= xx < w && 0 <= yy < y && 0 <= c < 4 implies #[trigger] r@[4 * (yy
                    * w + xx) + c] == cursor_byte(pixels@, bitmask@, w as int, xx, yy, c) by {
                    assert(yy * w + xx < y * w) by (nonlinear_arith)
                        requires
                            0 <= xx < w,
                            0 <= yy < y,
                    ;
                    assert(r@[4 * (yy * w + xx) + c] == before[4 * (yy * w + xx) + c]);
                }
                assert forall|xx: int, c: int| 0 <= xx < x + 1 && 0 <= c < 4 implies #[trigger] r@[4 * (y * w + xx) + c]
                    == cursor_byte(pixels@, bitmask@, w as int, xx, y as int, c) by {
                    if xx < x {
                        assert(r@[4 * (y * w + xx) + c] == before[4 * (y * w + xx) + c]);
                    }
                }
            }
            x = x + 1;
            k = k + 1;
        }
        proof {
            assert forall|xx: int, yy: int, c: int| 0 <= xx < w && 0 <= yy < y + 1 && 0 <= c < 4 implies #[trigger] r@[4 * (yy
                * w + xx) + c] == cursor_byte(pixels@, bitmask@, w as int, xx, yy, c) by {
                if yy == y {
                    assert(r@[4 * (y * w + xx) + c] == cursor_byte(pixels@, bitmask@, w as int, xx, y as int, c));
                }
            }
        }
        y = y + 1;
    }
    assert(h * w == w * h) by (nonlinear_arith);
    r
}

/// Why a rectangle could not be decoded.
#[derive(Clone, Copy, Debug, PartialEq, Eq, Structural)]
pub enum DecodeError {
    /// The rectangle reaches outside the framebuffer.
    OutOfBounds,
    /// The payload holds fewer bytes than the rectangle needs.
    ShortData,
    /// A palette index names no colour of the palette.
    PaletteIndex,
    /// The zlib stream refused the data.
    Zlib,
    /// JPEG tiles are decoded by the front-end's JPEG decoder, not here.
    Jpeg,
    /// A cursor image was handed to the framebuffer.
    NotATile,
}

/// Whether a tile method can paint `bounds` from its payload; `data` is the
/// inflated pixel data of a Tight filter.
pub open spec fn tile_check(bounds: Bounds, method: EncodingMethod, data: Seq<u8>) -> Result<(), DecodeError> {
    let w = bounds.size.width as int;
    let h = bounds.size.height as int;
    match method {
        EncodingMethod::Fill(_) => Ok(()),
        EncodingMethod::RawBgra(bytes) => if 4 * (w * h) <= bytes@.len() {
            Ok(())
        } else {
            Err(DecodeError::ShortData)
        },
        EncodingMethod::CopyFilter(_) => if 3 * (w * h) <= data.len() {
            Ok(())
        } else {
            Err(DecodeError::ShortData)
        },
        EncodingMethod::PaletteFilter(colors, _) => if colors@.len() == 2 {
            if h * bit_stride(w) <= data.len() {
                Ok(())
            } else {
                Err(DecodeError::ShortData)
            }
        } else if w * h > data.len() {
            Err(DecodeError::ShortData)
        } else if forall|i: int| 0 <= i < w * h ==> (#[trigger] data[i] as int) < colors@.len() {
            Ok(())
        } else {
            Err(DecodeError::PaletteIndex)
        },
        EncodingMethod::Jpeg(_) => Err(DecodeError::Jpeg),
        EncodingMethod::CursorBgrx { .. } => Err(DecodeError::NotATile),
    }
}

/// The colour that a tile method gives pixel (i, j) of its rectangle.
pub open spec fn tile_color(bounds: Bounds, method: EncodingMethod, data: Seq<u8>, i: int, j: int) -> Bgrx {
    let w = bounds.size.width as int;
    match method {
        EncodingMethod::Fill(c) => c,
        EncodingMethod::RawBgra(bytes) => raw_pixel(bytes@, j * w + i),
        EncodingMethod::CopyFilter(_) => rgb_pixel(data, j * w + i),
        EncodingMethod::PaletteFilter(colors, _) => if colors@.len() == 2 {
            colors@[mono_bit(data, w, i, j) as int]
        } else {
            colors@[data[j * w + i] as int]
        },
        _ => Bgrx { b: 0, g: 0, r: 0, x: 0 },
    }
}

/// `new` is `old` with the rectangle painted in the tile's colours.
pub open spec fn painted(old: FbView, new: FbView, bounds: Bounds, method: EncodingMethod, data: Seq<u8>) -> bool {
    &&& new.wf()
    &&& new.size == old.size
    &&& forall|i: int, j: int|
        0 <= i < bounds.size.width && 0 <= j < bounds.size.height ==> #[trigger] pixel_at(new, bounds.x + i, bounds.y + j)
            == tile_color(bounds, method, data, i, j)
    &&& forall|k: int|
        0 <= k < old.bytes.len() && !in_rect(old.size.width as int, bounds, k) ==> #[trigger] new.bytes[k] == old.bytes[k]
}

proof fn lemma_rect_fits(bounds: Bounds, size: FbSize)
    requires
        size.fits(),
        bounds.inside(size),
    ensures
        4 * (bounds.size.width * bounds.size.height) <= usize::MAX,
        bounds.size.height * bit_stride(bounds.size.width as int) <= bounds.size.width * bounds.size.height + bounds.size.height,
{
    let (w, h, fw, fh) = (bounds.size.width as int, bounds.size.height as int, size.width as int, size.height as int);
    assert(w * h <= fw * fh) by (nonlinear_arith)
        requires
            0 <= w <= fw,
            0 <= h <= fh,
    ;
    assert(h * ((w + 7) / 8) <= h * (w + 1)) by (nonlinear_arith)
        requires
            0 <= w,
            0 <= h,
    ;
    assert(h * (w + 1) == w * h + h) by (nonlinear_arith);
}

/// Whether `rows` rows of `stride` bytes fit in `len` bytes.
fn fits_rows(len: usize, rows: usize, stride: usize) -> (r: bool)
    ensures
        r <==> rows * stride <= len,
{
    if stride == 0 {
        return true;
    }
    let q = len / stride;
    proof {
        vstd::arithmetic::div_mod::lemma_fundamental_div_mod(len as int, stride as int);
        let m = len as int % stride as int;
        assert(0 <= m < stride);
        if rows <= q {
            assert(rows * stride <= q * stride) by (nonlinear_arith)
                requires
                    rows <= q,
                    0 <= stride,
            ;
            assert(q * stride == stride * q) by (nonlinear_arith);
        } else {
            assert(rows * stride >= (q + 1) * stride) by (nonlinear_arith)
                requires
                    rows >= q + 1,
                    0 <= stride,
            ;
            assert((q + 1) * stride == stride * q + stride) by (nonlinear_arith);
        }
    }
    rows <= q
}

/// Paints a tile rectangle (fill, raw, or a Tight filter whose pixel data
/// `data` is already inflated). On an error the framebuffer is unchanged.
pub fn paint(fb: &mut Framebuffer, bounds: &Bounds, method: &EncodingMethod, data: &[u8]) -> (r: Result<(), DecodeError>)
    requires
        old(fb)@.wf(),
    ensures
        r is Err ==> final(fb)@ == old(fb)@,
        !bounds.inside(old(fb)@.size) ==> r == Err::<(), DecodeError>(DecodeError::OutOfBounds),
        bounds.inside(old(fb)@.size) ==> r == tile_check(*bounds, *method, data@),
        r is Ok ==> painted(old(fb)@, final(fb)@, *bounds, *method, data@),
{
    let size = fb.size();
    if !(bounds.x <= size.width && bounds.size.width <= size.width - bounds.x && bounds.y <= size.height
        && bounds.size.height <= size.height - bounds.y) {
        return Err(DecodeError::OutOfBounds);
    }
    proof {
        lemma_rect_fits(*bounds, size);
    }
    let w = bounds.size.width;
    let h = bounds.size.height;
    let n = w * h;
    let pixels = match method {
        EncodingMethod::Fill(c) => fill_pixels(*c, n),
        EncodingMethod::RawBgra(bytes) => {
            if bytes.len() / 4 < n {
                return Err(DecodeError::ShortData);
            }
            raw_pixels(bytes.as_slice(), n)
        },
        EncodingMethod::CopyFilter(_) => {
            if data.len() / 3 < n {
                return Err(DecodeError::ShortData);
            }
            rgb_pixels(data, n)
        },
        EncodingMethod::PaletteFilter(colors, _) => {
            if colors.len() == 2 {
                let stride = w / 8 + if w % 8 == 0 { 0 } else { 1 };
                if !fits_rows(data.len(), h, stride) {
                    return Err(DecodeError::ShortData);
                }
                mono_pixels(colors, data, w, h)
            } else {
                if data.len() < n {
                    return Err(DecodeError::ShortData);
                }
                match palette_pixels(colors, data, n) {
                    Some(p) => p,
                    None => {
                        return Err(DecodeError::PaletteIndex);
                    },
                }
            }
        },
        EncodingMethod::Jpeg(_) => {
            return Err(DecodeError::Jpeg);
        },
        EncodingMethod::CursorBgrx { .. } => {
            return Err(DecodeError::NotATile);
        },
    };
    assert forall|i: int, j: int| 0 <= i < w && 0 <= j < h implies pixels@[j * w + i] == tile_color(
        *bounds,
        *method,
        data@,
        i,
        j,
    ) by {
        assert(j * w + i < w * h) by (nonlinear_arith)
            requires
                0 <= i < w,
                0 <= j < h,
        ;
    }
    blit(fb, bounds, &pixels);
    assert forall|i: int, j: int|
        0 <= i < bounds.size.width && 0 <= j < bounds.size.height implies #[trigger] pixel_at(fb@, bounds.x + i, bounds.y + j)
        == tile_color(*bounds, *method, data@, i, j) by {
        assert(pixels@[j * w + i] == tile_color(*bounds, *method, data@, i, j));
    }
    Ok(())
}

/// The pixel data of a Tight filter: as sent, or inflated by its stream.
fn uncompress(zlib: &mut ZlibStream, data: &TightData) -> (r: Option<Vec<u8>>)
    ensures
        data matches TightData::UncompressedRgb(bytes) ==> r matches Some(v) && v@ == bytes@,
{
    match data {
        TightData::UncompressedRgb(bytes) => Some(bytes.clone()),
        TightData::CompressedRgb { bytes, .. } => zlib.decode(bytes.as_slice()),
    }
}

/// Whether a cursor rectangle's payload holds its pixels and its mask.
pub open spec fn cursor_fits(bounds: Bounds, pixels: Seq<u8>, bitmask: Seq<u8>) -> bool {
    let (w, h) = (bounds.size.width as int, bounds.size.height as int);
    4 * (w * h) <= pixels.len() && h * bit_stride(w) <= bitmask.len()
}

/// The cursor that a cursor rectangle installs.
pub open spec fn cursor_installed(c: CursorView, bounds: Bounds, pixels: Seq<u8>, bitmask: Seq<u8>) -> bool {
    let (w, h) = (bounds.size.width as int, bounds.size.height as int);
    &&& c.changed
    &&& c.size == CursorSize(bounds.size.width, bounds.size.height)
    &&& c.hotspot == Hotspot(bounds.x, bounds.y)
    &&& c.rgba.len() == 4 * (w * h)
    &&& forall|x: int, y: int, k: int|
        0 <= x < w && 0 <= y < h && 0 <= k < 4 ==> #[trigger] c.rgba[4 * (y * w + x) + k] == cursor_byte(
            pixels,
            bitmask,
            w,
            x,
            y,
            k,
        )
}

/// What carrying out a rectangle job did to the framebuffer and the
/// cursor, given its result.
pub open spec fn decode_outcome(
    old_fb: FbView,
    new_fb: FbView,
    old_cursor: CursorView,
    new_cursor: CursorView,
    bounds: Bounds,
    method: EncodingMethod,
    r: Result<(), DecodeError>,
) -> bool {
    &&& new_fb.wf()
    &&& r is Err ==> new_fb == old_fb
    &&& match method {
        EncodingMethod::CursorBgrx { pixels, bitmask } => {
            &&& new_fb == old_fb
            &&& (r is Ok <==> cursor_fits(bounds, pixels@, bitmask@))
            &&& r is Ok ==> cursor_installed(new_cursor, bounds, pixels@, bitmask@)
            &&& r is Err ==> new_cursor == old_cursor
        },
        EncodingMethod::CopyFilter(TightData::CompressedRgb { .. }) | EncodingMethod::PaletteFilter(
            _,
            TightData::CompressedRgb { .. },
        ) => {
            &&& new_cursor == old_cursor
            &&& !bounds.inside(old_fb.size) ==> r == Err::<(), DecodeError>(DecodeError::OutOfBounds)
            &&& bounds.inside(old_fb.size) ==> r != Err::<(), DecodeError>(DecodeError::OutOfBounds)
            &&& r is Ok ==> exists|d: Seq<u8>| #[trigger]
                tile_check(bounds, method, d) is Ok && painted(old_fb, new_fb, bounds, method, d)
        },
        EncodingMethod::CopyFilter(TightData::UncompressedRgb(d)) | EncodingMethod::PaletteFilter(
            _,
            TightData::UncompressedRgb(d),
        ) => {
            &&& new_cursor == old_cursor
            &&& !bounds.inside(old_fb.size) ==> r == Err::<(), DecodeError>(DecodeError::OutOfBounds)
            &&& bounds.inside(old_fb.size) ==> r == tile_check(bounds, method, d@)
            &&& r is Ok ==> painted(old_fb, new_fb, bounds, method, d@)
        },
        _ => {
            &&& new_cursor == old_cursor
            &&& !bounds.inside(old_fb.size) ==> r == Err::<(), DecodeError>(DecodeError::OutOfBounds)
            &&& bounds.inside(old_fb.size) ==> r == tile_check(bounds, method, Seq::empty())
            &&& r is Ok ==> painted(old_fb, new_fb, bounds, method, Seq::empty())
        },
    }
}

/// Carries out one rectangle job: a cursor image goes to `cursor`, every
/// other method paints the framebuffer, a Tight filter after its data went
/// through `zlib` if it was compressed. On an error the framebuffer is
/// unchanged.
pub fn decode(fb: &mut Framebuffer, cursor: &mut Cursor, zlib: &mut ZlibStream, bounds: &Bounds, method: &EncodingMethod) -> (r:
    Result<(), DecodeError>)
    requires
        old(fb)@.wf(),
    ensures
        decode_outcome(old(fb)@, final(fb)@, old(cursor)@, final(cursor)@, *bounds, *method, r),
{
    match method {
        EncodingMethod::CursorBgrx { pixels, bitmask } => {
            let w = bounds.size.width;
            let h = bounds.size.height;
            let npix = pixels.len();
            let n = match w.checked_mul(h) {
                Some(n) => n,
                None => {
                    proof {
                        assert(w * h > usize::MAX);
                        assert(npix == pixels@.len());
                    }
                    return Err(DecodeError::ShortData);
                },
            };
            if pixels.len() / 4 < n {
                return Err(DecodeError::ShortData);
            }
            let stride = w / 8 + if w % 8 == 0 { 0 } else { 1 };
            if !fits_rows(bitmask.len(), h, stride) {
                return Err(DecodeError::ShortData);
            }
            let rgba = cursor_rgba(pixels.as_slice(), bitmask.as_slice(), w, h);
            cursor.change_data(rgba, CursorSize(w, h), Hotspot(bounds.x, bounds.y));
            Ok(())
        },
        EncodingMethod::CopyFilter(data) | EncodingMethod::PaletteFilter(_, data) => {
            let ghost is_raw = data is UncompressedRgb;
            let size = fb.size();
            if !(bounds.x <= size.width && bounds.size.width <= size.width - bounds.x && bounds.y <= size.height
                && bounds.size.height <= size.height - bounds.y) {
                return Err(DecodeError::OutOfBounds);
            }
            match uncompress(zlib, data) {
                Some(bytes) => {
                    let r = paint(fb, bounds, method, bytes.as_slice());
                    proof {
                        if r is Ok {
                            assert(tile_check(*bounds, *method, bytes@) is Ok);
                        }
                    }
                    r
                },
                None => Err(DecodeError::Zlib),
            }
        },
        _ => paint(fb, bounds, method, &[]),
    }
}

} // verus!
