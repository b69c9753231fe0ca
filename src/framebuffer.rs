//! The client's copy of the remote framebuffer: BGRx pixels, four bytes
//! each, row after row.
use vstd::prelude::*;
use crate::rfb::TPixel;

verus! {

/// How a holder of the framebuffer lock uses it.
#[derive(Clone, Copy, Debug, PartialEq, Eq, Structural)]
pub enum FbAccess {
    Decoding,
    Resizing,
    Reading,
}

impl FbAccess {
    /// The tag that the lock compares.
    pub fn tag(self) -> (r: u32)
        ensures
            r == fb_access_tag(self),
    {
        match self {
            FbAccess::Decoding => 0,
            FbAccess::Resizing => 1,
            FbAccess::Reading => 2,
        }
    }
}

pub open spec fn fb_access_tag(a: FbAccess) -> u32 {
    match a {
        FbAccess::Decoding => 0,
        FbAccess::Resizing => 1,
        FbAccess::Reading => 2,
    }
}

/// The pixel layout that the front-end wants a frame in.
#[derive(Clone, Copy, Debug, PartialEq, Eq, Structural)]
pub enum PixelFormat {
    NativeBgrx,
    Rgb,
}

impl PixelFormat {
    pub open spec fn spec_bytes_per_pixel(self) -> usize {
        match self {
            PixelFormat::NativeBgrx => 4,
            PixelFormat::Rgb => 3,
        }
    }

    pub fn bytes_per_pixel(&self) -> (r: usize)
        ensures
            r == self.spec_bytes_per_pixel(),
    {
        match self {
            PixelFormat::NativeBgrx => 4,
            PixelFormat::Rgb => 3,
        }
    }
}

/// Bytes per pixel in the framebuffer.
pub const BYTES_PER_PIXEL: usize = 4;

#[derive(Clone, Copy, Debug, PartialEq, Eq, Structural)]
pub struct FbSize {
    pub width: usize,
    pub height: usize,
}

impl FbSize {
    pub fn new(width: usize, height: usize) -> (r: Self)
        ensures
            r.width == width,
            r.height == height,
    {
        FbSize { width, height }
    }

    pub open spec fn spec_pixels(self) -> int {
        self.width * self.height
    }

    pub open spec fn spec_bytes(self) -> int {
        self.width * self.height * 4
    }

    /// Whether the size's byte count fits in memory addresses.
    pub open spec fn fits(self) -> bool {
        self.width * self.height * 4 <= usize::MAX
    }

    pub fn no_of_pixels(&self) -> (r: usize)
        requires
            self.spec_pixels() <= usize::MAX,
        ensures
            r == self.spec_pixels(),
    {
        self.width * self.height
    }

    pub fn no_of_bytes(&self) -> (r: usize)
        requires
            self.fits(),
        ensures
            r == self.spec_bytes(),
    {
        proof {
            lemma_size_fits(self.width as int, self.height as int);
        }
        self.width * self.height * BYTES_PER_PIXEL
    }

    pub fn stride(&self) -> (r: usize)
        requires
            4 * self.width <= usize::MAX,
        ensures
            r == 4 * self.width,
    {
        BYTES_PER_PIXEL * self.width
    }
}

proof fn lemma_size_fits(w: int, h: int)
    requires
        0 <= w,
        0 <= h,
        w * h * 4 <= usize::MAX,
    ensures
        w * h <= usize::MAX,
        4 * w <= usize::MAX || h == 0,
{
    assert(w * h <= w * h * 4) by (nonlinear_arith)
        requires
            0 <= w,
            0 <= h,
    ;
    if h > 0 {
        assert(4 * w <= w * h * 4) by (nonlinear_arith)
            requires
                0 <= w,
                1 <= h,
        ;
    }
}

/// One framebuffer pixel.
#[derive(Clone, Copy, Debug, PartialEq, Eq, Structural)]
pub struct Bgrx {
    pub b: u8,
    pub g: u8,
    pub r: u8,
    pub x: u8,
}

impl Bgrx {
    pub fn from_tpixel(tpixel: TPixel) -> (r: Self)
        ensures
            r.r == tpixel.r,
            r.g == tpixel.g,
            r.b == tpixel.b,
            r.x == 0,
    {
        Bgrx { r: tpixel.r, g: tpixel.g, b: tpixel.b, x: 0 }
    }
}

/// Where pixel (x, y) starts in a framebuffer `width` pixels wide.
pub open spec fn byte_pos(width: int, x: int, y: int) -> int {
    y * (4 * width) + 4 * x
}

/// What a framebuffer holds: its size and its bytes.
pub struct FbView {
    pub size: FbSize,
    pub bytes: Seq<u8>,
}

impl FbView {
    /// The red, green and blue of pixel (x, y).
    pub open spec fn rgb(self, x: int, y: int) -> (u8, u8, u8) {
        let p = byte_pos(self.size.width as int, x, y);
        (self.bytes[p + 2], self.bytes[p + 1], self.bytes[p])
    }

    pub open spec fn wf(self) -> bool {
        &&& self.size.fits()
        &&& self.bytes.len() == self.size.spec_bytes()
    }
}

/// The gray that fills bytes that a resize adds.
pub const RESIZE_GRAY: u8 = 0xe0;

pub struct Framebuffer {
    data: Vec<u8>,
    size: FbSize,
}

impl View for Framebuffer {
    type V = FbView;

    closed spec fn view(&self) -> FbView {
        FbView { size: self.size, bytes: self.data@ }
    }
}

impl Framebuffer {
    pub fn new() -> (r: Self)
        ensures
            r@.wf(),
            r@.size == (FbSize { width: 0, height: 0 }),
            r@.bytes.len() == 0,
    {
        Framebuffer { data: Vec::new(), size: FbSize::new(0, 0) }
    }

    pub fn data(&self) -> (r: &Vec<u8>)
        ensures
            r@ == self@.bytes,
    {
        &self.data
    }

    pub fn take_data(self) -> (r: Vec<u8>)
        ensures
            r@ == self@.bytes,
    {
        self.data
    }

    pub fn size(&self) -> (r: FbSize)
        ensures
            r == self@.size,
    {
        self.size
    }

    /// Changes the size. The bytes that remain keep their values, which do
    /// not keep their pixels' positions; added bytes are `RESIZE_GRAY`.
    pub fn resize(&mut self, new_size: FbSize)
        requires
            new_size.fits(),
        ensures
            final(self)@.wf(),
            final(self)@.size == new_size,
            forall|i: int|
                0 <= i < final(self)@.bytes.len() ==> #[trigger] final(self)@.bytes[i] == if i < old(self)@.bytes.len() {
                    old(self)@.bytes[i]
                } else {
                    RESIZE_GRAY
                },
    {
        self.size = new_size;
        let new_len = new_size.no_of_bytes();
        let ghost before = self.data@;
        if new_len <= self.data.len() {
            self.data.truncate(new_len);
        } else {
            let mut i: usize = self.data.len();
            while i < new_len
                invariant
                    self.size == new_size,
                    new_len == new_size.spec_bytes(),
                    before.len() <= i <= new_len,
                    self.data@.len() == i,
                    forall|j: int| 0 <= j < i ==> #[trigger] self.data@[j] == if j < before.len() {
                        before[j]
                    } else {
                        RESIZE_GRAY
                    },
                decreases new_len - i,
            {
                self.data.push(RESIZE_GRAY);
                i = i + 1;
            }
        }
    }

    /// Hands out the bytes and puts a fresh buffer of the same size behind
    /// the framebuffer; nothing of the old buffer is reused.
    pub fn replace_data(&mut self) -> (r: Vec<u8>)
        requires
            old(self)@.wf(),
        ensures
            r@ == old(self)@.bytes,
            final(self)@.wf(),
            final(self)@.size == old(self)@.size,
    {
        let len = self.size.no_of_bytes();
        let mut fresh = vec_filled(len, RESIZE_GRAY);
        core::mem::swap(&mut self.data, &mut fresh);
        fresh
    }

    /// Sets pixel (x, y) to the given colour; other bytes keep their values.
    pub fn set_pixel(&mut self, x: usize, y: usize, r: u8, g: u8, b: u8)
        requires
            old(self)@.wf(),
            x < old(self)@.size.width,
            y < old(self)@.size.height,
        ensures
            final(self)@.size == old(self)@.size,
            final(self)@.bytes == old(self)@.bytes.update(byte_pos(old(self)@.size.width as int, x as int, y as int), b)
                .update(byte_pos(old(self)@.size.width as int, x as int, y as int) + 1, g)
                .update(byte_pos(old(self)@.size.width as int, x as int, y as int) + 2, r),
    {
        proof {
            lemma_pixel_in_range(self.size, x as int, y as int);
        }
        let pos = y * (4 * self.size.width) + 4 * x;
        self.data.set(pos, b);
        self.data.set(pos + 1, g);
        self.data.set(pos + 2, r);
    }

    /// Copies `width` pixels of `line` to row `y` from column `x` on.
    pub fn set_line(&mut self, x: usize, width: usize, y: usize, line: &[Bgrx])
        requires
            old(self)@.wf(),
            x + width <= old(self)@.size.width,
            y < old(self)@.size.height,
            width <= line@.len(),
        ensures
            final(self)@.size == old(self)@.size,
            final(self)@.bytes.len() == old(self)@.bytes.len(),
            forall|k: int|
                #![trigger line@[k]]
                0 <= k < width ==> {
                    let p = byte_pos(old(self)@.size.width as int, x + k, y as int);
                    &&& final(self)@.bytes[p] == line@[k].b
                    &&& final(self)@.bytes[p + 1] == line@[k].g
                    &&& final(self)@.bytes[p + 2] == line@[k].r
                    &&& final(self)@.bytes[p + 3] == line@[k].x
                },
            forall|i: int|
                0 <= i < old(self)@.bytes.len() && !(byte_pos(old(self)@.size.width as int, x as int, y as int) <= i
                    < byte_pos(old(self)@.size.width as int, (x + width) as int, y as int)) ==> #[trigger] final(self)@.bytes[i]
                    == old(self)@.bytes[i],
    {
        if width == 0 {
            return;
        }
        proof {
            lemma_pixel_in_range(self.size, (x + width - 1) as int, y as int);
        }
        let start = y * (4 * self.size.width) + 4 * x;
        let mut k: usize = 0;
        while k < width
            invariant
                self.size == old(self).size,
                old(self)@.wf(),
                x + width <= self.size.width,
                y < self.size.height,
                width <= line@.len(),
                k <= width,
                start == byte_pos(self.size.width as int, x as int, y as int),
                start + 4 * width <= self.data@.len(),
                self.data@.len() == old(self)@.bytes.len(),
                forall|j: int|
                    #![trigger line@[j]]
                    0 <= j < k ==> {
                        let p = byte_pos(self.size.width as int, x + j, y as int);
                        &&& self.data@[p] == line@[j].b
                        &&& self.data@[p + 1] == line@[j].g
                        &&& self.data@[p + 2] == line@[j].r
                        &&& self.data@[p + 3] == line@[j].x
                    },
                forall|i: int|
                    0 <= i < self.data@.len() && !(start <= i < start + 4 * k) ==> #[trigger] self.data@[i]
                        == old(self)@.bytes[i],
            decreases width - k,
        {
            let p = start + 4 * k;
            let px = line[k];
            self.data.set(p, px.b);
            self.data.set(p + 1, px.g);
            self.data.set(p + 2, px.r);
            self.data.set(p + 3, px.x);
            proof {
                assert forall|j: int| #![trigger line@[j]] 0 <= j < k + 1 implies {
                    let q = byte_pos(self.size.width as int, x + j, y as int);
                    &&& self.data@[q] == line@[j].b
                    &&& self.data@[q + 1] == line@[j].g
                    &&& self.data@[q + 2] == line@[j].r
                    &&& self.data@[q + 3] == line@[j].x
                } by {
                    assert(byte_pos(self.size.width as int, x + j, y as int) == start + 4 * j);
                }
            }
            k = k + 1;
        }
        assert(start + 4 * width == byte_pos(self.size.width as int, (x + width) as int, y as int));
    }
}

/// A vector of `len` copies of `v`.
pub fn vec_filled(len: usize, v: u8) -> (r: Vec<u8>)
    ensures
        r@ == Seq::new(len as nat, |i: int| v),
{
    let mut r: Vec<u8> = Vec::new();
    let mut i: usize = 0;
    while i < len
        invariant
            i <= len,
            r@ == Seq::new(i as nat, |j: int| v),
        decreases len - i,
    {
        r.push(v);
        i = i + 1;
        assert(r@ =~= Seq::new(i as nat, |j: int| v));
    }
    r
}

/// A pixel inside the framebuffer has its four bytes inside the buffer.
pub proof fn lemma_pixel_in_range(size: FbSize, x: int, y: int)
    requires
        size.fits(),
        0 <= x < size.width,
        0 <= y < size.height,
    ensures
        0 <= byte_pos(size.width as int, x, y),
        byte_pos(size.width as int, x, y) + 4 <= size.spec_bytes(),
        byte_pos(size.width as int, x, y) == y * (4 * size.width) + 4 * x,
        4 * size.width <= usize::MAX,
{
    let w = size.width as int;
    let h = size.height as int;
    lemma_size_fits(w, h);
    assert(0 <= y * (4 * w)) by (nonlinear_arith)
        requires
            0 <= y,
            0 <= w,
    ;
    assert(y * (4 * w) + 4 * x + 4 <= w * h * 4) by (nonlinear_arith)
        requires
            0 <= x < w,
            0 <= y < h,
    ;
}

} // verus!
