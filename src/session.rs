//! The session's decisions: what it asks the server for, how it reads the
//! header of each rectangle, when it hands frames over without copying, and
//! what it answers to fences.
use vstd::prelude::*;
use crate::framebuffer::FbSize;
use crate::result::ParseError;
use crate::parsing::{Parser, Parsed};
use crate::decoding::{Bounds, DecodingJob, EncodingMethod, TightData};
use crate::framebuffer::Bgrx;
use crate::rfb::{
    compact_value, CompactLength, RectangleHeader, TPixel, ENCODING_DESKTOP_SIZE, FENCE_BLOCK_AFTER, FENCE_BLOCK_BEFORE,
    FENCE_REQUEST,
};
use crate::rfb::{
    ENCODING_CHROMA_SUBSAMPLING_1X, ENCODING_CHROMA_SUBSAMPLING_2X, ENCODING_CHROMA_SUBSAMPLING_4X,
    ENCODING_COMPRESSION_LEVEL_0, ENCODING_CONTINUOUS_UPDATES, ENCODING_CURSOR, ENCODING_EXTENDED_DESKTOP_SIZE,
    ENCODING_FENCE, ENCODING_LAST_RECT, ENCODING_RAW, ENCODING_TIGHT, ENCODING_WORST_JPEG_QUALITY,
};

verus! {

/// How the server should trade image quality against bandwidth.
#[derive(Clone, Copy, Debug, PartialEq, Eq, Structural)]
pub enum EncodingQuality {
    LossyHigh,
    LossyMedium,
    LossyMediumInterframeComparison,
    LossyLow,
    Lossless,
}

/// The pseudo-encodings that select a quality level.
pub open spec fn quality_encodings(q: EncodingQuality) -> Seq<i32> {
    match q {
        EncodingQuality::LossyHigh => seq![-417i32, -768i32, -255i32],
        EncodingQuality::LossyMedium => seq![-432i32, -766i32, -255i32],
        EncodingQuality::LossyMediumInterframeComparison => seq![-432i32, -766i32, -250i32],
        EncodingQuality::LossyLow => seq![-482i32, -767i32, -249i32],
        EncodingQuality::Lossless => seq![-250i32],
    }
}

/// The encodings the client always asks for, in order of preference.
pub open spec fn base_encodings() -> Seq<i32> {
    seq![7i32, 0i32, -239i32, -308i32, -224i32, -313i32, -312i32]
}

impl EncodingQuality {
    pub fn get_rfb_encodings(&self) -> (r: Vec<i32>)
        ensures
            r@ == quality_encodings(*self),
    {
        let r = match self {
            EncodingQuality::LossyHigh => vec![
                ENCODING_WORST_JPEG_QUALITY + 95,
                ENCODING_CHROMA_SUBSAMPLING_1X,
                ENCODING_COMPRESSION_LEVEL_0 + 1,
            ],
            EncodingQuality::LossyMedium => vec![
                ENCODING_WORST_JPEG_QUALITY + 80,
                ENCODING_CHROMA_SUBSAMPLING_2X,
                ENCODING_COMPRESSION_LEVEL_0 + 1,
            ],
            EncodingQuality::LossyMediumInterframeComparison => vec![
                ENCODING_WORST_JPEG_QUALITY + 80,
                ENCODING_CHROMA_SUBSAMPLING_2X,
                ENCODING_COMPRESSION_LEVEL_0 + 1 + 5,
            ],
            EncodingQuality::LossyLow => vec![
                ENCODING_WORST_JPEG_QUALITY + 30,
                ENCODING_CHROMA_SUBSAMPLING_4X,
                ENCODING_COMPRESSION_LEVEL_0 + 2 + 5,
            ],
            EncodingQuality::Lossless => vec![ENCODING_COMPRESSION_LEVEL_0 + 1 + 5],
        };
        assert(r@ =~= quality_encodings(*self));
        r
    }
}

/// Every encoding the client asks for: the base list, then the quality's
/// pseudo-encodings.
pub fn get_rfb_encodings(encoding_quality: EncodingQuality) -> (r: Vec<i32>)
    ensures
        r@ == base_encodings() + quality_encodings(encoding_quality),
{
    let mut encodings = vec![
        ENCODING_TIGHT,
        ENCODING_RAW,
        ENCODING_CURSOR,
        ENCODING_EXTENDED_DESKTOP_SIZE,
        ENCODING_LAST_RECT,
        ENCODING_CONTINUOUS_UPDATES,
        ENCODING_FENCE,
    ];
    let mut extra = encoding_quality.get_rfb_encodings();
    let ghost e = extra@;
    encodings.append(&mut extra);
    assert(encodings@ =~= base_encodings() + quality_encodings(encoding_quality));
    encodings
}

/// The sub-method that bits 7..4 of a Tight control byte select.
#[derive(Clone, Copy, Debug, PartialEq, Eq, Structural)]
pub enum TightMethod {
    Fill,
    Jpeg,
    /// Basic compression, with a filter id byte next.
    Basic,
    /// Basic compression with the copy filter and no filter id byte.
    BasicNoFilterId,
}

pub open spec fn spec_tight_method(control: u8) -> Result<TightMethod, ParseError> {
    if control / 16 == 9 {
        Ok(TightMethod::Jpeg)
    } else if control / 16 == 8 {
        Ok(TightMethod::Fill)
    } else if control / 64 == 1 {
        Ok(TightMethod::Basic)
    } else if control / 64 == 0 {
        Ok(TightMethod::BasicNoFilterId)
    } else {
        Err(ParseError::PredicateFailed("msb must be zero, bit 6 must be 0"))
    }
}

pub fn tight_method(control: u8) -> (r: Result<TightMethod, ParseError>)
    ensures
        r == spec_tight_method(control),
{
    if control / 16 == 9 {
        Ok(TightMethod::Jpeg)
    } else if control / 16 == 8 {
        Ok(TightMethod::Fill)
    } else if control / 64 == 1 {
        Ok(TightMethod::Basic)
    } else if control / 64 == 0 {
        Ok(TightMethod::BasicNoFilterId)
    } else {
        Err(ParseError::PredicateFailed("msb must be zero, bit 6 must be 0"))
    }
}

/// Whether bit `i` (0 to 3) of the control byte asks to reset zlib stream `i`.
pub open spec fn resets_stream(control: u8, i: int) -> bool {
    (control as int / pow2_spec(i)) % 2 == 1
}

pub open spec fn pow2_spec(i: int) -> int {
    if i == 0 {
        1
    } else if i == 1 {
        2
    } else if i == 2 {
        4
    } else {
        8
    }
}

/// The streams below `i` whose reset bit is set, lowest first.
pub open spec fn resets_below(control: u8, i: int) -> Seq<usize>
    decreases i,
{
    if i <= 0 {
        Seq::empty()
    } else if resets_stream(control, i - 1) {
        resets_below(control, i - 1).push((i - 1) as usize)
    } else {
        resets_below(control, i - 1)
    }
}

/// The zlib streams that a control byte resets, lowest first.
pub fn zlib_resets(control: u8) -> (r: Vec<usize>)
    ensures
        r@ == resets_below(control, 4),
        forall|k: int| 0 <= k < r@.len() ==> 0 <= #[trigger] r@[k] < 4 && resets_stream(control, r@[k] as int),
        forall|i: int| 0 <= i < 4 && resets_stream(control, i) ==> r@.contains(i as usize),
        forall|k: int, l: int| 0 <= k < l < r@.len() ==> r@[k] < r@[l],
{
    let mut r: Vec<usize> = Vec::new();
    let mut i: usize = 0;
    let mut bit: u8 = 1;
    while i < 4
        invariant
            i <= 4,
            bit as int == pow2_spec(i as int) || i == 4,
            r@ == resets_below(control, i as int),
            forall|k: int| 0 <= k < r@.len() ==> 0 <= #[trigger] r@[k] < i && resets_stream(control, r@[k] as int),
            forall|j: int| 0 <= j < i && resets_stream(control, j) ==> r@.contains(j as usize),
            forall|k: int, l: int| 0 <= k < l < r@.len() ==> r@[k] < r@[l],
        decreases 4 - i,
    {
        if (control / bit) % 2 == 1 {
            let ghost before = r@;
            r.push(i);
            proof {
                assert forall|j: int| 0 <= j < i && resets_stream(control, j) implies r@.contains(j as usize) by {
                    let k = choose|k: int| 0 <= k < before.len() && before[k] == j as usize;
                    assert(r@[k] == j as usize);
                }
                assert(r@[r@.len() - 1] == i);
            }
        }
        i = i + 1;
        if i < 4 {
            bit = bit * 2;
        }
    }
    r
}

/// The zlib stream that bits 5..4 of a control byte name.
pub fn zlib_stream_no(control: u8) -> (r: usize)
    ensures
        r == (control as int / 16) % 4,
        r < 4,
{
    ((control / 16) % 4) as usize
}

/// The Tight filter that a filter id byte names.
#[derive(Clone, Copy, Debug, PartialEq, Eq, Structural)]
pub enum TightFilter {
    Copy,
    Palette,
}

/// The filter of a filter id byte; the gradient filter (2) is not
/// supported and, like an unknown id, is a protocol error.
pub fn tight_filter(id: u8) -> (r: Result<TightFilter, ParseError>)
    ensures
        id == 0 ==> r == Ok::<TightFilter, ParseError>(TightFilter::Copy),
        id == 1 ==> r == Ok::<TightFilter, ParseError>(TightFilter::Palette),
        id == 2 ==> r == Err::<TightFilter, ParseError>(ParseError::PredicateFailed("gradient filter is not supported")),
        id > 2 ==> r == Err::<TightFilter, ParseError>(ParseError::InvalidDiscriminator(id as u64)),
{
    if id == 0 {
        Ok(TightFilter::Copy)
    } else if id == 1 {
        Ok(TightFilter::Palette)
    } else if id == 2 {
        Err(ParseError::PredicateFailed("gradient filter is not supported"))
    } else {
        Err(ParseError::InvalidDiscriminator(id as u64))
    }
}

/// Data shorter than this is sent without zlib.
pub const TIGHT_MIN_TO_COMPRESS: usize = 12;

/// The size of a Tight filter's pixel data before compression: three
/// bytes per pixel for the copy filter; for a palette, one bit per pixel
/// with rows padded to whole bytes when it has two colours, else a byte per
/// pixel. `None` when it does not fit in memory addresses.
pub fn uncompressed_size(filter: TightFilter, no_of_colors: usize, width: usize, height: usize) -> (r: Option<usize>)
    ensures
        ({
            let size = match filter {
                TightFilter::Copy => width * height * 3,
                TightFilter::Palette => if no_of_colors == 2 {
                    height * ((width + 7) / 8)
                } else {
                    height * width
                },
            };
            &&& r is Some <==> size <= usize::MAX
            &&& r is Some ==> r->Some_0 == size
        }),
{
    match filter {
        TightFilter::Copy => match width.checked_mul(height) {
            Some(n) => n.checked_mul(3),
            None => {
                proof {
                    assert(width * height * 3 >= width * height) by (nonlinear_arith)
                        requires
                            width * height >= 0,
                    ;
                }
                None
            },
        },
        TightFilter::Palette => if no_of_colors == 2 {
            let stride = width / 8 + if width % 8 == 0 { 0 } else { 1 };
            height.checked_mul(stride)
        } else {
            height.checked_mul(width)
        },
    }
}

/// The bytes from `pos` on, `n` of them, if there are that many.
pub open spec fn take(input: Seq<u8>, pos: int, n: int) -> Parsed<Seq<u8>> {
    if pos + n <= input.len() {
        Ok((input.subrange(pos, pos + n), pos + n))
    } else {
        Err((ParseError::IoError, pos))
    }
}

fn read_bytes(input: &[u8], pos: usize, n: usize) -> (r: Result<(Vec<u8>, usize), (ParseError, usize)>)
    requires
        pos <= input@.len(),
    ensures
        match r {
            Ok((b, m)) => take(input@, pos as int, n as int) == Parsed::Ok((b@, m as int)) && m <= input@.len(),
            Err((e, m)) => take(input@, pos as int, n as int) == Parsed::<Seq<u8>>::Err((e, m as int)),
        },
{
    if n <= input.len() - pos {
        Ok((crate::primitive::copy_bytes(input, pos, n), pos + n))
    } else {
        Err((ParseError::IoError, pos))
    }
}

/// Tight pixel data of `size` bytes before compression: sent as is when
/// short, else as a compact length and that many zlib bytes. The flag tells
/// whether it is compressed.
pub open spec fn spec_tight_data(input: Seq<u8>, pos: int, size: int) -> Parsed<(bool, Seq<u8>)> {
    if size < TIGHT_MIN_TO_COMPRESS {
        match take(input, pos, size) {
            Ok((b, m)) => Ok(((false, b), m)),
            Err(e) => Err(e),
        }
    } else {
        match compact_value(input, pos) {
            Ok((len, m)) => match take(input, m, len as int) {
                Ok((b, k)) => Ok(((true, b), k)),
                Err(e) => Err(e),
            },
            Err(e) => Err(e),
        }
    }
}

pub fn read_tight_data(input: &[u8], pos: usize, stream_no: usize, size: usize) -> (r: Result<(TightData, usize), (ParseError, usize)>)
    requires
        pos <= input@.len(),
    ensures
        match r {
            Ok((d, m)) => m <= input@.len() && match d {
                TightData::UncompressedRgb(b) => spec_tight_data(input@, pos as int, size as int) == Parsed::Ok(((false, b@), m as int)),
                TightData::CompressedRgb { stream_no: n, bytes } => n == stream_no && spec_tight_data(input@, pos as int, size as int)
                    == Parsed::Ok(((true, bytes@), m as int)),
            },
            Err((e, m)) => spec_tight_data(input@, pos as int, size as int) == Parsed::<(bool, Seq<u8>)>::Err((e, m as int)),
        },
{
    if size < TIGHT_MIN_TO_COMPRESS {
        match read_bytes(input, pos, size) {
            Ok((b, m)) => Ok((TightData::UncompressedRgb(b), m)),
            Err(e) => Err(e),
        }
    } else {
        match CompactLength.parse(input, pos) {
            Ok((len, m)) => match read_bytes(input, m, len) {
                Ok((b, k)) => Ok((TightData::CompressedRgb { stream_no, bytes: b }, k)),
                Err(e) => Err(e),
            },
            Err(e) => Err(e),
        }
    }
}

/// What a rectangle of an update asks of the session.
pub struct RectangleUpdate {
    /// Decoding jobs, in the order they must run.
    pub jobs: Vec<DecodingJob>,
    /// The framebuffer size the server switches to after this frame.
    pub new_size: Option<FbSize>,
    /// No rectangles follow in this update.
    pub last_rect: bool,
    /// The server takes `SetDesktopSize` requests.
    pub allow_set_desktop_size: bool,
    /// The server's screen layout: the number of screens and their records.
    pub screens: Option<(u8, Vec<u8>)>,
}

fn no_update() -> (r: RectangleUpdate)
    ensures
        r.jobs@.len() == 0,
        r.new_size is None,
        !r.last_rect,
        !r.allow_set_desktop_size,
        r.screens is None,
{
    RectangleUpdate { jobs: Vec::new(), new_size: None, last_rect: false, allow_set_desktop_size: false, screens: None }
}

fn header_bounds(h: &RectangleHeader) -> (r: Bounds)
    ensures
        r == header_spec_bounds(*h),
{
    Bounds::new(h.x, h.y, FbSize::new(h.width, h.height))
}

pub open spec fn header_spec_bounds(h: RectangleHeader) -> Bounds {
    Bounds { x: h.x, y: h.y, size: FbSize { width: h.width, height: h.height } }
}

proof fn lemma_mul_nonneg(a: int, b: int)
    requires
        0 <= a,
        0 <= b,
    ensures
        0 <= a * b,
{
    assert(0 <= a * b) by (nonlinear_arith)
        requires
            0 <= a,
            0 <= b,
    ;
}

proof fn lemma_four_times(w: int, h: int)
    requires
        0 <= w,
        0 <= h,
    ensures
        4 * w * h == (w * h) * 4,
        4 * w * h >= w * h,
{
    assert(4 * w * h == (w * h) * 4) by (nonlinear_arith);
    assert(w * h >= 0) by (nonlinear_arith)
        requires
            0 <= w,
            0 <= h,
    ;
}

/// Reads the payload of the rectangle `header` from `input` at `pos` and
/// says what it asks for. Every payload byte is read here, so the next
/// rectangle starts at the returned position.
pub fn read_rectangle(header: &RectangleHeader, input: &[u8], pos: usize) -> (r: Result<(RectangleUpdate, usize), (ParseError, usize)>)
    requires
        pos <= input@.len(),
    ensures
        r matches Ok((_, m)) ==> pos <= m <= input@.len(),
        header.encoding == ENCODING_RAW ==> match r {
            Ok((u, m)) => u.jobs@.len() == 1 && u.new_size is None && !u.last_rect && (u.jobs@[0] matches DecodingJob::Rect {
                bounds,
                method: EncodingMethod::RawBgra(b),
            } && bounds == header_spec_bounds(*header) && take(input@, pos as int, 4 * header.width * header.height)
                == Parsed::Ok((b@, m as int))),
            Err(_) => 4 * header.width * header.height > usize::MAX || take(
                input@,
                pos as int,
                4 * header.width * header.height,
            ) is Err,
        },
        header.encoding == ENCODING_TIGHT && pos < input@.len() && spec_tight_method(input@[pos as int]) is Ok
            && spec_tight_payload(
            spec_tight_method(input@[pos as int])->Ok_0,
            header.width as int,
            header.height as int,
            input@,
            pos + 1,
        ) is Ok ==> r is Ok,
        header.encoding == ENCODING_CURSOR && pos + 4 * header.width * header.height + header.height * ((header.width + 7)
            / 8) <= input@.len() ==> r is Ok,
        header.encoding == ENCODING_EXTENDED_DESKTOP_SIZE && pos < input@.len() && pos + 4 + 16 * input@[pos as int]
            <= input@.len() ==> r is Ok,
        header.encoding == ENCODING_TIGHT ==> (r matches Ok((u, m)) ==> {
            let control = input@[pos as int];
            &&& u.jobs@.len() == resets_below(control, 4).len() + 1
            &&& forall|k: int|
                0 <= k < resets_below(control, 4).len() ==> #[trigger] u.jobs@[k] == DecodingJob::ResetZlib(
                    resets_below(control, 4)[k],
                )
            &&& u.new_size is None
            &&& !u.last_rect
            &&& pos < input@.len()
            &&& spec_tight_method(control) is Ok
            &&& u.jobs@.len() >= 1
            &&& forall|k: int|
                0 <= k < u.jobs@.len() - 1 ==> (#[trigger] u.jobs@[k] matches DecodingJob::ResetZlib(n) && n < 4
                    && resets_stream(control, n as int))
            &&& forall|i: int|
                0 <= i < 4 && resets_stream(control, i) ==> exists|k: int|
                    0 <= k < u.jobs@.len() - 1 && #[trigger] u.jobs@[k] == DecodingJob::ResetZlib(i as usize)
            &&& (u.jobs@.last() matches DecodingJob::Rect { bounds, method } && bounds == header_spec_bounds(*header) && (
            spec_tight_payload(
                spec_tight_method(control)->Ok_0,
                header.width as int,
                header.height as int,
                input@,
                pos + 1,
            ) matches Ok((p, k)) && k == m && method_is(method, p, ((control as int / 16) % 4) as usize)))
        }),
        header.encoding == ENCODING_CURSOR ==> (r matches Ok((u, m)) ==> u.jobs@.len() == 1 && u.new_size is None
            && (u.jobs@[0] matches DecodingJob::Rect { bounds, method: EncodingMethod::CursorBgrx { pixels, bitmask } }
            && bounds == header_spec_bounds(*header) && pixels@ == input@.subrange(
            pos as int,
            pos + 4 * header.width * header.height,
        ) && bitmask@ == input@.subrange(pos + 4 * header.width * header.height, m as int) && bitmask@.len() == header.height * ((
        header.width + 7) / 8))),
        header.encoding == ENCODING_DESKTOP_SIZE ==> (r matches Ok((u, m)) && m == pos && u.jobs@.len() == 0
            && u.new_size == Some(FbSize { width: header.width, height: header.height }) && !u.last_rect),
        header.encoding == ENCODING_EXTENDED_DESKTOP_SIZE ==> (r matches Ok((u, m)) ==> u.jobs@.len() == 0
            && u.allow_set_desktop_size && !u.last_rect && (header.y == 0 ==> u.new_size == Some(
            FbSize { width: header.width, height: header.height },
        )) && (header.y != 0 ==> u.new_size is None && u.screens is None) && pos < input@.len() && m == pos + 4 + 16
            * input@[pos as int] && (header.y == 0 ==> (u.screens matches Some((c, records)) && c == input@[pos as int]
            && records@ == input@.subrange(pos + 4, m as int)))),
        header.encoding == ENCODING_LAST_RECT ==> (r matches Ok((u, m)) && m == pos && u.jobs@.len() == 0 && u.last_rect
            && u.new_size is None),
        !(header.encoding == ENCODING_RAW || header.encoding == ENCODING_TIGHT || header.encoding == ENCODING_CURSOR
            || header.encoding == ENCODING_DESKTOP_SIZE || header.encoding == ENCODING_EXTENDED_DESKTOP_SIZE
            || header.encoding == ENCODING_LAST_RECT) ==> r == Err::<(RectangleUpdate, usize), (ParseError, usize)>(
            (ParseError::InvalidDiscriminator(#[verifier::truncate] (header.encoding as u64)), pos),
        ),
{
    let w = header.width;
    let h = header.height;
    let mut u = no_update();
    if header.encoding == ENCODING_RAW {
        let n = match w.checked_mul(h) {
            Some(n) => n,
            None => {
                proof {
                    lemma_four_times(w as int, h as int);
                }
                return Err((ParseError::PredicateFailed("rectangle too large"), pos));
            },
        };
        let size = match n.checked_mul(4) {
            Some(size) => size,
            None => {
                proof {
                    lemma_four_times(w as int, h as int);
                }
                return Err((ParseError::PredicateFailed("rectangle too large"), pos));
            },
        };
        assert(size == 4 * header.width * header.height) by (nonlinear_arith)
            requires
                n == w * h,
                size == n * 4,
                w == header.width,
                h == header.height,
        ;
        let (b, m) = read_bytes(input, pos, size)?;
        u.jobs.push(DecodingJob::Rect { bounds: header_bounds(header), method: EncodingMethod::RawBgra(b) });
        Ok((u, m))
    } else if header.encoding == ENCODING_TIGHT {
        if pos >= input.len() {
            return Err((ParseError::IoError, pos));
        }
        let control = input[pos];
        let method = match tight_method(control) {
            Ok(m) => m,
            Err(e) => {
                return Err((e, pos));
            },
        };
        let resets = zlib_resets(control);
        let mut i: usize = 0;
        while i < resets.len()
            invariant
                i <= resets@.len(),
                u.jobs@.len() == i,
                u.new_size is None,
                !u.last_rect,
                forall|k: int| 0 <= k < resets@.len() ==> 0 <= #[trigger] resets@[k] < 4 && resets_stream(control, resets@[k] as int),
                forall|k: int|
                    0 <= k < u.jobs@.len() ==> (#[trigger] u.jobs@[k] matches DecodingJob::ResetZlib(n) && n < 4 && resets_stream(
                        control,
                        n as int,
                    )),
                forall|k: int| 0 <= k < i ==> #[trigger] u.jobs@[k] == DecodingJob::ResetZlib(resets@[k]),
            decreases resets@.len() - i,
        {
            u.jobs.push(DecodingJob::ResetZlib(resets[i]));
            i = i + 1;
        }
        proof {
            assert forall|j: int| 0 <= j < 4 && resets_stream(control, j) implies exists|k: int|
                0 <= k < u.jobs@.len() && #[trigger] u.jobs@[k] == DecodingJob::ResetZlib(j as usize) by {
                let k = choose|k: int| 0 <= k < resets@.len() && resets@[k] == j as usize;
                assert(u.jobs@[k] == DecodingJob::ResetZlib(resets@[k]));
            }
        }
        let ghost resets_done = u.jobs@;
        let stream_no = zlib_stream_no(control);
        let bounds = header_bounds(header);
        let (job_method, m) = read_tight_method(method, w, h, stream_no, input, pos + 1)?;
        u.jobs.push(DecodingJob::Rect { bounds, method: job_method });
        proof {
            assert forall|j: int| 0 <= j < 4 && resets_stream(control, j) implies exists|k: int|
                0 <= k < u.jobs@.len() - 1 && #[trigger] u.jobs@[k] == DecodingJob::ResetZlib(j as usize) by {
                let k = choose|k: int| 0 <= k < resets_done.len() && #[trigger] resets_done[k] == DecodingJob::ResetZlib(j as usize);
                assert(u.jobs@[k] == resets_done[k]);
            }
        }
        Ok((u, m))
    } else if header.encoding == ENCODING_CURSOR {
        let total = input.len();
        proof {
            lemma_mul_nonneg(h as int, (w as int + 7) / 8);
        }
        let n = match w.checked_mul(h) {
            Some(n) => n,
            None => {
                proof {
                    lemma_four_times(w as int, h as int);
                }
                return Err((ParseError::PredicateFailed("rectangle too large"), pos));
            },
        };
        let size = match n.checked_mul(4) {
            Some(size) => size,
            None => {
                proof {
                    lemma_four_times(w as int, h as int);
                }
                return Err((ParseError::PredicateFailed("rectangle too large"), pos));
            },
        };
        assert(size == 4 * header.width * header.height) by (nonlinear_arith)
            requires
                n == w * h,
                size == n * 4,
                w == header.width,
                h == header.height,
        ;
        let stride = w / 8 + if w % 8 == 0 { 0 } else { 1 };
        assert(stride == (w as int + 7) / 8);
        let mask_size = match h.checked_mul(stride) {
            Some(s) => s,
            None => {
                return Err((ParseError::PredicateFailed("rectangle too large"), pos));
            },
        };
        let (pixels, m) = read_bytes(input, pos, size)?;
        let (bitmask, k) = read_bytes(input, m, mask_size)?;
        u.jobs.push(DecodingJob::Rect { bounds: header_bounds(header), method: EncodingMethod::CursorBgrx { pixels, bitmask } });
        Ok((u, k))
    } else if header.encoding == ENCODING_DESKTOP_SIZE {
        u.new_size = Some(FbSize::new(w, h));
        Ok((u, pos))
    } else if header.encoding == ENCODING_EXTENDED_DESKTOP_SIZE {
        if pos >= input.len() {
            return Err((ParseError::IoError, pos));
        }
        let count = input[pos];
        let (_, m) = read_bytes(input, pos + 1, 3)?;
        let (records, k) = read_bytes(input, m, 16 * (count as usize))?;
        u.allow_set_desktop_size = true;
        if header.y == 0 {
            u.new_size = Some(FbSize::new(w, h));
            u.screens = Some((count, records));
        }
        Ok((u, k))
    } else if header.encoding == ENCODING_LAST_RECT {
        u.last_rect = true;
        Ok((u, pos))
    } else {
        Err((ParseError::InvalidDiscriminator(#[verifier::truncate] (header.encoding as u64)), pos))
    }
}

/// What follows a Tight control byte, as read from the wire. The flag of
/// filtered data tells whether it is compressed.
pub enum TightPayload {
    Fill(Bgrx),
    Jpeg(Seq<u8>),
    Copy(bool, Seq<u8>),
    Palette(Seq<Bgrx>, bool, Seq<u8>),
}

/// The colours of a palette, three bytes each.
pub open spec fn palette_colors(b: Seq<u8>, n: int) -> Seq<Bgrx> {
    Seq::new(n as nat, |k: int| Bgrx { r: b[3 * k], g: b[3 * k + 1], b: b[3 * k + 2], x: 0 })
}

pub open spec fn spec_copy_payload(w: int, h: int, input: Seq<u8>, pos: int) -> Parsed<TightPayload> {
    if w * h * 3 > usize::MAX {
        Err((ParseError::PredicateFailed("rectangle too large"), pos))
    } else {
        match spec_tight_data(input, pos, w * h * 3) {
            Ok(((c, b), m)) => Ok((TightPayload::Copy(c, b), m)),
            Err(e) => Err(e),
        }
    }
}

pub open spec fn spec_palette_payload(w: int, h: int, input: Seq<u8>, pos: int) -> Parsed<TightPayload> {
    if pos >= input.len() {
        Err((ParseError::IoError, pos))
    } else {
        let n = input[pos] + 1;
        match take(input, pos + 1, 3 * n) {
            Ok((b, m)) => {
                let size = if n == 2 {
                    h * ((w + 7) / 8)
                } else {
                    h * w
                };
                if size > usize::MAX {
                    Err((ParseError::PredicateFailed("rectangle too large"), m))
                } else {
                    match spec_tight_data(input, m, size) {
                        Ok(((c, d), k)) => Ok((TightPayload::Palette(palette_colors(b, n), c, d), k)),
                        Err(e) => Err(e),
                    }
                }
            },
            Err(e) => Err(e),
        }
    }
}

/// Reading the rest of a Tight rectangle of `w` by `h` pixels whose
/// control byte selected `method`, from `pos` on.
pub open spec fn spec_tight_payload(method: TightMethod, w: int, h: int, input: Seq<u8>, pos: int) -> Parsed<TightPayload> {
    match method {
        TightMethod::Fill => match take(input, pos, 3) {
            Ok((b, m)) => Ok((TightPayload::Fill(Bgrx { r: b[0], g: b[1], b: b[2], x: 0 }), m)),
            Err(e) => Err(e),
        },
        TightMethod::Jpeg => match compact_value(input, pos) {
            Ok((len, m)) => match take(input, m, len as int) {
                Ok((b, k)) => Ok((TightPayload::Jpeg(b), k)),
                Err(e) => Err(e),
            },
            Err(e) => Err(e),
        },
        TightMethod::Basic => if pos >= input.len() {
            Err((ParseError::IoError, pos))
        } else if input[pos] == 0 {
            spec_copy_payload(w, h, input, pos + 1)
        } else if input[pos] == 1 {
            spec_palette_payload(w, h, input, pos + 1)
        } else if input[pos] == 2 {
            Err((ParseError::PredicateFailed("gradient filter is not supported"), pos))
        } else {
            Err((ParseError::InvalidDiscriminator(input[pos] as u64), pos))
        },
        TightMethod::BasicNoFilterId => spec_copy_payload(w, h, input, pos),
    }
}

/// The wire view of filtered data.
pub open spec fn tight_data_view(d: TightData) -> (bool, Seq<u8>) {
    match d {
        TightData::UncompressedRgb(b) => (false, b@),
        TightData::CompressedRgb { bytes, .. } => (true, bytes@),
    }
}

/// Whether a job's method is what a payload asks for, with compressed data
/// on `stream_no`.
pub open spec fn method_is(e: EncodingMethod, p: TightPayload, stream_no: usize) -> bool {
    match p {
        TightPayload::Fill(c) => e == EncodingMethod::Fill(c),
        TightPayload::Jpeg(b) => e matches EncodingMethod::Jpeg(v) && v@ == b,
        TightPayload::Copy(c, b) => e matches EncodingMethod::CopyFilter(d) && tight_data_view(d) == (c, b) && (d matches TightData::CompressedRgb { stream_no: n, .. } ==> n == stream_no),
        TightPayload::Palette(colors, c, b) => e matches EncodingMethod::PaletteFilter(v, d) && v@ == colors && tight_data_view(d) == (c, b) && (d matches TightData::CompressedRgb { stream_no: n, .. } ==> n == stream_no),
    }
}

/// Reads what follows a Tight control byte for the given sub-method.
pub fn read_tight_method(method: TightMethod, w: usize, h: usize, stream_no: usize, input: &[u8], pos: usize) -> (r: Result<
    (EncodingMethod, usize),
    (ParseError, usize),
>)
    requires
        pos <= input@.len(),
    ensures
        match r {
            Ok((e, m)) => pos <= m <= input@.len() && (spec_tight_payload(method, w as int, h as int, input@, pos as int) matches Ok((p, k)) && k == m && method_is(e, p, stream_no)),
            Err((err, m)) => spec_tight_payload(method, w as int, h as int, input@, pos as int) == Parsed::<TightPayload>::Err((err, m as int)),
        },
{
    match method {
        TightMethod::Fill => {
            let (bytes, m) = read_bytes(input, pos, 3)?;
            let color = Bgrx::from_tpixel(TPixel { r: bytes[0], g: bytes[1], b: bytes[2] });
            Ok((EncodingMethod::Fill(color), m))
        },
        TightMethod::Jpeg => {
            let (len, m) = CompactLength.parse(input, pos)?;
            let (bytes, k) = read_bytes(input, m, len)?;
            Ok((EncodingMethod::Jpeg(bytes), k))
        },
        TightMethod::Basic => {
            if pos >= input.len() {
                return Err((ParseError::IoError, pos));
            }
            let filter = match tight_filter(input[pos]) {
                Ok(f) => f,
                Err(e) => {
                    return Err((e, pos));
                },
            };
            match filter {
                TightFilter::Copy => read_copy_filter(w, h, stream_no, input, pos + 1),
                TightFilter::Palette => read_palette_filter(w, h, stream_no, input, pos + 1),
            }
        },
        TightMethod::BasicNoFilterId => read_copy_filter(w, h, stream_no, input, pos),
    }
}

fn read_palette_filter(w: usize, h: usize, stream_no: usize, input: &[u8], pos: usize) -> (r: Result<(EncodingMethod, usize), (ParseError, usize)>)
    requires
        pos <= input@.len(),
    ensures
        match r {
            Ok((e, m)) => pos <= m <= input@.len() && (spec_palette_payload(w as int, h as int, input@, pos as int) matches Ok((p, k)) && k == m && method_is(e, p, stream_no)),
            Err((err, m)) => spec_palette_payload(w as int, h as int, input@, pos as int) == Parsed::<TightPayload>::Err((err, m as int)),
        },
{
    if pos >= input.len() {
        return Err((ParseError::IoError, pos));
    }
    let no_of_colors = input[pos] as usize + 1;
    let (bytes, m) = read_bytes(input, pos + 1, 3 * no_of_colors)?;
    let mut colors: Vec<Bgrx> = Vec::new();
    let bl = bytes.len();
    let mut i: usize = 0;
    while i < no_of_colors
        invariant
            bl == bytes@.len(),
            i <= no_of_colors,
            bytes@.len() == 3 * no_of_colors,
            colors@ == palette_colors(bytes@, i as int),
        decreases no_of_colors - i,
    {
        colors.push(Bgrx::from_tpixel(TPixel { r: bytes[3 * i], g: bytes[3 * i + 1], b: bytes[3 * i + 2] }));
        i = i + 1;
        assert(colors@ =~= palette_colors(bytes@, i as int));
    }
    let size = match uncompressed_size(TightFilter::Palette, no_of_colors, w, h) {
        Some(s) => s,
        None => {
            return Err((ParseError::PredicateFailed("rectangle too large"), m));
        },
    };
    let (data, k) = read_tight_data(input, m, stream_no, size)?;
    Ok((EncodingMethod::PaletteFilter(colors, data), k))
}

fn read_copy_filter(w: usize, h: usize, stream_no: usize, input: &[u8], pos: usize) -> (r: Result<(EncodingMethod, usize), (ParseError, usize)>)
    requires
        pos <= input@.len(),
    ensures
        match r {
            Ok((e, m)) => pos <= m <= input@.len() && (spec_copy_payload(w as int, h as int, input@, pos as int) matches Ok((p, k)) && k == m && method_is(e, p, stream_no)),
            Err((err, m)) => spec_copy_payload(w as int, h as int, input@, pos as int) == Parsed::<TightPayload>::Err((err, m as int)),
        },
{
    let size = match uncompressed_size(TightFilter::Copy, 0, w, h) {
        Some(s) => s,
        None => {
            return Err((ParseError::PredicateFailed("rectangle too large"), pos));
        },
    };
    let (data, m) = read_tight_data(input, pos, stream_no, size)?;
    Ok((EncodingMethod::CopyFilter(data), m))
}

/// Full-area frames in a row after which frames are handed over without a
/// copy, unless the session picks another number.
pub const ZERO_COPY_THRESHOLD: usize = 60;

/// Counts full-area frames to decide when to hand frames over without
/// copying them.
#[derive(Clone, Copy, Debug, PartialEq, Eq, Structural)]
pub struct FrameTracker {
    pub successive_full_updates: usize,
    pub zero_copy_mode: bool,
    /// Full-area frames in a row that turn zero-copy mode on.
    pub threshold: usize,
}

impl FrameTracker {
    pub fn new(threshold: usize) -> (r: Self)
        ensures
            r == Self::new_spec(threshold),
    {
        FrameTracker { successive_full_updates: 0, zero_copy_mode: false, threshold }
    }

    pub open spec fn new_spec(threshold: usize) -> FrameTracker {
        FrameTracker { successive_full_updates: 0, zero_copy_mode: false, threshold }
    }

    /// Takes the area that a frame updated; true when the session must ask
    /// for a full update because the frame did not cover the framebuffer.
    pub fn frame_done(&mut self, area: usize, fb_pixels: usize) -> (request_update: bool)
        ensures
            final(self).threshold == old(self).threshold,
            area == fb_pixels ==> {
                &&& !request_update
                &&& final(self).successive_full_updates == if old(self).successive_full_updates == usize::MAX {
                    usize::MAX as int
                } else {
                    old(self).successive_full_updates + 1
                }
                &&& final(self).zero_copy_mode == (old(self).zero_copy_mode || final(self).successive_full_updates
                    == old(self).threshold)
            },
            area != fb_pixels ==> request_update && *final(self) == FrameTracker::new_spec(old(self).threshold),
    {
        if area == fb_pixels {
            self.successive_full_updates = self.successive_full_updates.saturating_add(1);
            if self.successive_full_updates == self.threshold {
                self.zero_copy_mode = true;
            }
            false
        } else {
            self.successive_full_updates = 0;
            self.zero_copy_mode = false;
            true
        }
    }
}

/// The flags of the answer to a fence: none unless the server asked for
/// one; then only the block-before and block-after flags, without the
/// request flag.
pub fn fence_reply(flags: u32) -> (r: Option<u32>)
    ensures
        flags & FENCE_REQUEST == 0 ==> r is None,
        flags & FENCE_REQUEST != 0 ==> r == Some(flags & (FENCE_BLOCK_BEFORE | FENCE_BLOCK_AFTER)),
{
    if flags & FENCE_REQUEST != 0 {
        let mut f = flags;
        f = f & !FENCE_REQUEST;
        f = f & (FENCE_BLOCK_BEFORE | FENCE_BLOCK_AFTER);
        assert((flags & !0x80000000u32) & (1u32 | 2u32) == flags & (1u32 | 2u32)) by (bit_vector);
        Some(f)
    } else {
        None
    }
}

/// What the rectangles of one update added up to so far.
pub struct FrameProgress {
    /// The pixels they covered, counted with overlaps, at most `usize::MAX`.
    pub area: usize,
    /// The size the last resize rectangle asked for.
    pub new_size: Option<FbSize>,
}

impl FrameProgress {
    pub fn new() -> (r: Self)
        ensures
            r.area == 0,
            r.new_size is None,
    {
        FrameProgress { area: 0, new_size: None }
    }

    /// Records a rectangle; false when it was the last one of the update.
    pub fn note_rectangle(&mut self, header: &RectangleHeader, update: &RectangleUpdate) -> (more: bool)
        ensures
            final(self).area == if old(self).area + header.width * header.height > usize::MAX {
                usize::MAX as int
            } else {
                old(self).area + header.width * header.height
            },
            final(self).new_size == if update.new_size is Some {
                update.new_size
            } else {
                old(self).new_size
            },
            more == !update.last_rect,
    {
        let covered = header.width.checked_mul(header.height);
        self.area = match covered {
            Some(c) => self.area.saturating_add(c),
            None => {
                proof {
                    assert(header.width * header.height >= 0) by (nonlinear_arith)
                        requires
                            header.width >= 0,
                            header.height >= 0,
                    ;
                }
                usize::MAX
            },
        };
        if update.new_size.is_some() {
            self.new_size = update.new_size;
        }
        !update.last_rect
    }
}

/// The pixels of a framebuffer size, at most `usize::MAX`.
pub open spec fn saturated_pixels(size: FbSize) -> int {
    if size.width * size.height > usize::MAX {
        usize::MAX as int
    } else {
        size.width * size.height
    }
}

/// What the session does once it has read an update.
pub struct FrameDecision {
    /// Ask for a full update of this size, because the update did not
    /// cover the whole framebuffer.
    pub request_update: Option<FbSize>,
    /// Hand the next frame over without copying it.
    pub zero_copy: bool,
}

/// What the session remembers from frame to frame.
pub struct SessionState {
    pub tracker: FrameTracker,
    /// The size a resize rectangle asked for, applied once the frame that
    /// carried it is drawn.
    pub pending_size: Option<FbSize>,
}

impl SessionState {
    pub fn new(zero_copy_threshold: usize) -> (r: Self)
        ensures
            r.tracker == FrameTracker::new_spec(zero_copy_threshold),
            r.pending_size is None,
    {
        SessionState { tracker: FrameTracker::new(zero_copy_threshold), pending_size: None }
    }

    /// At the start of an update, after the previous frame was drawn: the
    /// resize to apply now, if one is pending.
    pub fn begin_frame(&mut self) -> (resize: Option<FbSize>)
        ensures
            resize == old(self).pending_size,
            final(self).pending_size is None,
            final(self).tracker == old(self).tracker,
    {
        let resize = self.pending_size;
        self.pending_size = None;
        resize
    }

    /// After all rectangles of an update were read, on a framebuffer of
    /// `fb_size`.
    pub fn end_frame(&mut self, progress: &FrameProgress, fb_size: FbSize) -> (r: FrameDecision)
        ensures
            final(self).pending_size == progress.new_size,
            final(self).tracker.threshold == old(self).tracker.threshold,
            (progress.area == saturated_pixels(fb_size)) ==> r.request_update is None && final(self).tracker.zero_copy_mode == (
            old(self).tracker.zero_copy_mode || final(self).tracker.successive_full_updates == old(self).tracker.threshold),
            (progress.area != saturated_pixels(fb_size)) ==> r.request_update == Some(fb_size)
                && !final(self).tracker.zero_copy_mode && final(self).tracker.successive_full_updates == 0,
            r.zero_copy == final(self).tracker.zero_copy_mode,
    {
        let pixels = match fb_size.width.checked_mul(fb_size.height) {
            Some(n) => n,
            None => usize::MAX,
        };
        let request = self.tracker.frame_done(progress.area, pixels);
        self.pending_size = progress.new_size;
        FrameDecision {
            request_update: if request {
                Some(fb_size)
            } else {
                None
            },
            zero_copy: self.tracker.zero_copy_mode,
        }
    }
}

} // verus!
