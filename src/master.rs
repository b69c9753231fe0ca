//! Runs decoding jobs against the framebuffer, each compressed Tight job on
//! the zlib stream that its control byte named.
use vstd::prelude::*;
use crate::cursor::Cursor;
use crate::decoding::{decode, decode_outcome, Bounds, DecodeError, DecodingJob, EncodingMethod, TightData};
use crate::framebuffer::{FbSize, Framebuffer, PixelFormat};
use crate::zlib::ZlibStream;

verus! {

/// The number of zlib streams of a Tight session.
pub const NO_OF_ZLIB_STREAMS: usize = 4;

/// Where a job runs: on any decoder, or on the one that owns a zlib stream.
#[derive(Clone, Copy, Debug, PartialEq, Eq, Structural)]
pub enum Route {
    General,
    Zlib(usize),
}

pub open spec fn spec_route(job: DecodingJob) -> Route {
    match job {
        DecodingJob::ResetZlib(n) => Route::Zlib(n),
        DecodingJob::Rect { method, .. } => match method {
            EncodingMethod::CopyFilter(TightData::CompressedRgb { stream_no, .. }) => Route::Zlib(stream_no),
            EncodingMethod::PaletteFilter(_, TightData::CompressedRgb { stream_no, .. }) => Route::Zlib(stream_no),
            _ => Route::General,
        },
    }
}

/// The decoder that a job must run on.
pub fn route(job: &DecodingJob) -> (r: Route)
    ensures
        r == spec_route(*job),
{
    match job {
        DecodingJob::ResetZlib(n) => Route::Zlib(*n),
        DecodingJob::Rect { method, .. } => match method {
            EncodingMethod::CopyFilter(TightData::CompressedRgb { stream_no, .. }) => Route::Zlib(*stream_no),
            EncodingMethod::PaletteFilter(_, TightData::CompressedRgb { stream_no, .. }) => Route::Zlib(*stream_no),
            _ => Route::General,
        },
    }
}

/// Whether every stream a job names exists.
pub open spec fn job_streams_valid(job: DecodingJob) -> bool {
    spec_route(job) matches Route::Zlib(n) ==> n < NO_OF_ZLIB_STREAMS
}

/// The framebuffer, the cursor and the decoders that jobs run on.
pub struct DecodingMaster {
    pub framebuffer: Framebuffer,
    pub cursor: Cursor,
    pub streams: [ZlibStream; 4],
    pub general: ZlibStream,
    pub errors: Vec<DecodeError>,
}

impl DecodingMaster {
    pub fn new(framebuffer: Framebuffer, cursor: Cursor) -> (r: Self)
        ensures
            r.framebuffer == framebuffer,
            r.cursor == cursor,
            r.errors@.len() == 0,
    {
        DecodingMaster {
            framebuffer,
            cursor,
            streams: [ZlibStream::new(), ZlibStream::new(), ZlibStream::new(), ZlibStream::new()],
            general: ZlibStream::new(),
            errors: Vec::new(),
        }
    }

    /// Runs a job. A zlib stream other than the one the job is routed to is
    /// left exactly as it was, so the jobs of one stream see only each
    /// other, in the order they were accepted. An error is recorded for
    /// `finish`.
    pub fn accept(&mut self, job: DecodingJob) -> (r: Result<(), DecodeError>)
        requires
            old(self).framebuffer@.wf(),
            job_streams_valid(job),
        ensures
            final(self).framebuffer@.wf(),
            forall|k: int|
                0 <= k < NO_OF_ZLIB_STREAMS && spec_route(job) != Route::Zlib(k as usize) ==> #[trigger] final(self).streams[k]
                    == old(self).streams[k],
            spec_route(job) != Route::General ==> final(self).general == old(self).general,
            final(self).errors@.len() == old(self).errors@.len() || final(self).errors@.len() == old(self).errors@.len() + 1,
            final(self).errors@.subrange(0, old(self).errors@.len() as int) == old(self).errors@,
            job matches DecodingJob::ResetZlib(_) ==> final(self).framebuffer == old(self).framebuffer
                && final(self).cursor == old(self).cursor,
            job matches DecodingJob::Rect { bounds, method } ==> decode_outcome(
                old(self).framebuffer@,
                final(self).framebuffer@,
                old(self).cursor@,
                final(self).cursor@,
                bounds,
                method,
                r,
            ),
            r is Ok ==> final(self).errors@ == old(self).errors@,
            r matches Err(e) ==> final(self).errors@ == old(self).errors@.push(e),
    {
        let ghost before = self.errors@;
        let r = route(&job);
        match job {
            DecodingJob::ResetZlib(n) => {
                let ok = self.reset_stream(n);
                if !ok {
                    self.errors.push(DecodeError::Zlib);
                    assert(self.errors@.subrange(0, before.len() as int) =~= before);
                    return Err(DecodeError::Zlib);
                }
                assert(self.errors@.subrange(0, before.len() as int) =~= before);
                Ok(())
            },
            DecodingJob::Rect { bounds, method } => {
                let result = match r {
                    Route::Zlib(n) => self.decode_on_stream(n, &bounds, &method),
                    Route::General => decode(&mut self.framebuffer, &mut self.cursor, &mut self.general, &bounds, &method),
                };
                if let Err(e) = result {
                    self.errors.push(e);
                }
                assert(self.errors@.subrange(0, before.len() as int) =~= before);
                result
            },
        }
    }

    fn reset_stream(&mut self, n: usize) -> (r: bool)
        requires
            n < NO_OF_ZLIB_STREAMS,
        ensures
            final(self).framebuffer == old(self).framebuffer,
            final(self).cursor == old(self).cursor,
            final(self).general == old(self).general,
            final(self).errors == old(self).errors,
            forall|k: int| 0 <= k < NO_OF_ZLIB_STREAMS && k != n ==> #[trigger] final(self).streams[k] == old(self).streams[k],
    {
        if n == 0 {
            self.streams[0].reset()
        } else if n == 1 {
            self.streams[1].reset()
        } else if n == 2 {
            self.streams[2].reset()
        } else {
            self.streams[3].reset()
        }
    }

    fn decode_on_stream(&mut self, n: usize, bounds: &Bounds, method: &EncodingMethod) -> (r: Result<(), DecodeError>)
        requires
            n < NO_OF_ZLIB_STREAMS,
            old(self).framebuffer@.wf(),
        ensures
            final(self).framebuffer@.wf(),
            final(self).general == old(self).general,
            final(self).errors == old(self).errors,
            forall|k: int| 0 <= k < NO_OF_ZLIB_STREAMS && k != n ==> #[trigger] final(self).streams[k] == old(self).streams[k],
            decode_outcome(
                old(self).framebuffer@,
                final(self).framebuffer@,
                old(self).cursor@,
                final(self).cursor@,
                *bounds,
                *method,
                r,
            ),
    {
        if n == 0 {
            decode(&mut self.framebuffer, &mut self.cursor, &mut self.streams[0], bounds, method)
        } else if n == 1 {
            decode(&mut self.framebuffer, &mut self.cursor, &mut self.streams[1], bounds, method)
        } else if n == 2 {
            decode(&mut self.framebuffer, &mut self.cursor, &mut self.streams[2], bounds, method)
        } else {
            decode(&mut self.framebuffer, &mut self.cursor, &mut self.streams[3], bounds, method)
        }
    }

    /// A copy of the framebuffer in the layout the front-end wants.
    pub fn convert_or_copy_fb(&self, dest_format: PixelFormat) -> (r: (Vec<u8>, FbSize))
        requires
            self.framebuffer@.wf(),
        ensures
            r.1 == self.framebuffer@.size,
            dest_format == PixelFormat::NativeBgrx ==> r.0@ == self.framebuffer@.bytes,
            dest_format == PixelFormat::Rgb ==> r.0@ == rgb_of(self.framebuffer@.bytes, r.1.spec_pixels()),
    {
        let size = self.framebuffer.size();
        let data = self.framebuffer.data();
        match dest_format {
            PixelFormat::NativeBgrx => (copy(data.as_slice()), size),
            PixelFormat::Rgb => {
                proof {
                    assert(size.width * size.height <= size.width * size.height * 4) by (nonlinear_arith)
                        requires
                            size.width * size.height >= 0,
                    ;
                }
                (bgrx_to_rgb(data.as_slice(), size.no_of_pixels()), size)
            },
        }
    }

    /// Hands out the framebuffer's bytes without copying them, and puts a
    /// fresh buffer of the same size in their place.
    pub fn take_frame(&mut self) -> (r: (Vec<u8>, FbSize))
        requires
            old(self).framebuffer@.wf(),
        ensures
            r.0@ == old(self).framebuffer@.bytes,
            r.1 == old(self).framebuffer@.size,
            final(self).framebuffer@.wf(),
            final(self).framebuffer@.size == old(self).framebuffer@.size,
            final(self).cursor == old(self).cursor,
    {
        let size = self.framebuffer.size();
        (self.framebuffer.replace_data(), size)
    }

    /// The errors of the jobs since the last call, in the order they came.
    pub fn finish(&mut self) -> (r: Result<(), Vec<DecodeError>>)
        ensures
            final(self).errors@.len() == 0,
            old(self).errors@.len() == 0 ==> r is Ok,
            old(self).errors@.len() > 0 ==> (r matches Err(v) && v@ == old(self).errors@),
    {
        let mut errors: Vec<DecodeError> = Vec::new();
        core::mem::swap(&mut errors, &mut self.errors);
        if errors.len() == 0 {
            Ok(())
        } else {
            Err(errors)
        }
    }
}

/// RGB bytes of the first `n` pixels of BGRx bytes.
pub open spec fn rgb_of(bgrx: Seq<u8>, n: int) -> Seq<u8> {
    Seq::new((3 * n) as nat, |i: int| bgrx[4 * (i / 3) + 2 - i % 3])
}

/// A copy of the bytes.
pub fn copy(src: &[u8]) -> (r: Vec<u8>)
    ensures
        r@ == src@,
{
    let mut r: Vec<u8> = Vec::new();
    let mut i: usize = 0;
    while i < src.len()
        invariant
            i <= src@.len(),
            r@ == src@.subrange(0, i as int),
        decreases src@.len() - i,
    {
        r.push(src[i]);
        i = i + 1;
        assert(r@ =~= src@.subrange(0, i as int));
    }
    assert(src@.subrange(0, src@.len() as int) =~= src@);
    r
}

/// Drops the padding byte of each of `pixels` BGRx pixels and reverses the
/// other three.
pub fn bgrx_to_rgb(src: &[u8], pixels: usize) -> (r: Vec<u8>)
    requires
        4 * pixels <= src@.len(),
    ensures
        r@ == rgb_of(src@, pixels as int),
{
    let mut r: Vec<u8> = Vec::new();
    let total = src.len();
    let mut k: usize = 0;
    while k < pixels
        invariant
            total == src@.len(),
            4 * pixels <= src@.len(),
            k <= pixels,
            r@ == rgb_of(src@, k as int),
        decreases pixels - k,
    {
        let s = 4 * k;
        r.push(src[s + 2]);
        r.push(src[s + 1]);
        r.push(src[s]);
        k = k + 1;
        assert(r@ =~= rgb_of(src@, k as int)) by {
            assert forall|i: int| 3 * (k - 1) <= i < 3 * k implies r@[i] == rgb_of(src@, k as int)[i] by {
                assert(i / 3 == k - 1);
            }
        }
    }
    r
}

/// Splits `pixels` pixels into `n` contiguous ranges, as (first pixel,
/// count): all but the last get `pixels / n`, the last also the remainder.
pub fn chunk_ranges(pixels: usize, n: usize) -> (r: Vec<(usize, usize)>)
    requires
        n > 0,
    ensures
        r@.len() == n,
        forall|i: int| 0 <= i < n ==> (#[trigger] r@[i]).0 == i * (pixels / n),
        forall|i: int| 0 <= i < n - 1 ==> (#[trigger] r@[i]).1 == pixels / n,
        r@[n - 1].1 == pixels / n + pixels % n,
        r@[n - 1].0 + r@[n - 1].1 == pixels,
{
    let each = pixels / n;
    let mut r: Vec<(usize, usize)> = Vec::new();
    let mut i: usize = 0;
    let mut start: usize = 0;
    proof {
        vstd::arithmetic::div_mod::lemma_fundamental_div_mod(pixels as int, n as int);
    }
    while i < n
        invariant
            n > 0,
            each == pixels / n,
            pixels == n * each + pixels % n,
            0 <= pixels % n,
            i <= n,
            start == i * each,
            start <= pixels,
            r@.len() == i,
            forall|k: int| 0 <= k < i ==> (#[trigger] r@[k]).0 == k * each,
            forall|k: int| 0 <= k < i && k < n - 1 ==> (#[trigger] r@[k]).1 == each,
            i == n ==> r@[n - 1].1 == each + pixels % n,
        decreases n - i,
    {
        proof {
            assert((i + 1) * each <= n * each) by (nonlinear_arith)
                requires
                    i < n,
                    0 <= each,
            ;
            assert((i + 1) * each == i * each + each) by (nonlinear_arith);
        }
        let count = if i == n - 1 {
            pixels - start
        } else {
            each
        };
        proof {
            if i == n - 1 {
                assert(n * each == (n - 1) * each + each) by (nonlinear_arith);
            }
        }
        r.push((start, count));
        start = start + each;
        i = i + 1;
    }
    assert((n - 1) * each + each == n * each) by (nonlinear_arith);
    r
}

} // verus!
