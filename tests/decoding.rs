use flashvnc::cursor::Cursor;
use flashvnc::decoding::{decode, paint, Bounds, DecodeError, DecodingJob, EncodingMethod, TightData};
use flashvnc::framebuffer::{Bgrx, FbSize, Framebuffer, PixelFormat};
use flashvnc::master::{bgrx_to_rgb, route, DecodingMaster, Route};
use flashvnc::zlib::ZlibStream;
use std::io::Write;

fn fb(width: usize, height: usize) -> Framebuffer {
    let mut fb = Framebuffer::new();
    fb.resize(FbSize::new(width, height));
    fb
}

fn pixel(fb: &Framebuffer, x: usize, y: usize) -> [u8; 4] {
    let p = y * 4 * fb.size().width + 4 * x;
    let d = fb.data();
    [d[p], d[p + 1], d[p + 2], d[p + 3]]
}

fn red() -> Bgrx {
    Bgrx { b: 0, g: 0, r: 0xff, x: 0 }
}

fn blue() -> Bgrx {
    Bgrx { b: 0xff, g: 0, r: 0, x: 0 }
}

fn compress(data: &[u8]) -> Vec<u8> {
    let mut e = flate2::write::ZlibEncoder::new(Vec::new(), flate2::Compression::default());
    e.write_all(data).unwrap();
    e.flush().unwrap();
    e.get_mut().clone()
}

#[test]
fn resize_fills_new_bytes_with_gray() {
    let fb = fb(2, 2);
    assert_eq!(fb.data().len(), 16);
    assert!(fb.data().iter().all(|&b| b == 0xe0));
}

#[test]
fn fill_paints_a_red_rectangle_in_bgrx() {
    let mut f = fb(20, 30);
    let bounds = Bounds::new(10, 20, FbSize::new(4, 3));
    paint(&mut f, &bounds, &EncodingMethod::Fill(red()), &[]).unwrap();
    for y in 20..23 {
        for x in 10..14 {
            let p = pixel(&f, x, y);
            assert_eq!(&p[..3], &[0x00, 0x00, 0xff]);
        }
    }
    assert_eq!(pixel(&f, 9, 20), [0xe0; 4]);
    assert_eq!(pixel(&f, 14, 22), [0xe0; 4]);
    assert_eq!(pixel(&f, 10, 23), [0xe0; 4]);
}

#[test]
fn monochrome_palette_reads_the_most_significant_bit_first() {
    let mut f = fb(3, 1);
    let bounds = Bounds::new(0, 0, FbSize::new(3, 1));
    let method = EncodingMethod::PaletteFilter(vec![red(), blue()], TightData::UncompressedRgb(vec![0b1010_0000]));
    paint(&mut f, &bounds, &method, &[0b1010_0000]).unwrap();
    assert_eq!(&pixel(&f, 0, 0)[..3], &[0xff, 0, 0]);
    assert_eq!(&pixel(&f, 1, 0)[..3], &[0, 0, 0xff]);
    assert_eq!(&pixel(&f, 2, 0)[..3], &[0xff, 0, 0]);
}

#[test]
fn monochrome_rows_start_on_whole_bytes() {
    let mut f = fb(9, 2);
    let bounds = Bounds::new(0, 0, FbSize::new(9, 2));
    let data = [0x00u8, 0x80, 0x80, 0x00];
    let method = EncodingMethod::PaletteFilter(vec![red(), blue()], TightData::UncompressedRgb(data.to_vec()));
    paint(&mut f, &bounds, &method, &data).unwrap();
    assert_eq!(&pixel(&f, 8, 0)[..3], &[0xff, 0, 0]);
    assert_eq!(&pixel(&f, 0, 1)[..3], &[0xff, 0, 0]);
    assert_eq!(&pixel(&f, 1, 1)[..3], &[0, 0, 0xff]);
}

#[test]
fn palette_with_more_colours_uses_a_byte_per_pixel() {
    let mut f = fb(2, 1);
    let green = Bgrx { b: 0, g: 0xff, r: 0, x: 0 };
    let bounds = Bounds::new(0, 0, FbSize::new(2, 1));
    let method = EncodingMethod::PaletteFilter(vec![red(), blue(), green], TightData::UncompressedRgb(vec![2, 0]));
    paint(&mut f, &bounds, &method, &[2, 0]).unwrap();
    assert_eq!(&pixel(&f, 0, 0)[..3], &[0, 0xff, 0]);
    assert_eq!(&pixel(&f, 1, 0)[..3], &[0, 0, 0xff]);
    assert_eq!(paint(&mut f, &bounds, &method, &[3, 0]), Err(DecodeError::PaletteIndex));
}

#[test]
fn copy_filter_reads_rgb_triples() {
    let mut f = fb(2, 1);
    let bounds = Bounds::new(0, 0, FbSize::new(2, 1));
    let method = EncodingMethod::CopyFilter(TightData::UncompressedRgb(vec![1, 2, 3, 4, 5, 6]));
    paint(&mut f, &bounds, &method, &[1, 2, 3, 4, 5, 6]).unwrap();
    assert_eq!(&pixel(&f, 0, 0)[..3], &[3, 2, 1]);
    assert_eq!(&pixel(&f, 1, 0)[..3], &[6, 5, 4]);
}

#[test]
fn raw_rectangles_copy_bgrx() {
    let mut f = fb(1, 1);
    let bounds = Bounds::new(0, 0, FbSize::new(1, 1));
    paint(&mut f, &bounds, &EncodingMethod::RawBgra(vec![9, 8, 7, 6]), &[]).unwrap();
    assert_eq!(&pixel(&f, 0, 0)[..3], &[9, 8, 7]);
    assert_eq!(paint(&mut f, &bounds, &EncodingMethod::RawBgra(vec![9, 8]), &[]), Err(DecodeError::ShortData));
}

#[test]
fn rectangles_outside_the_framebuffer_are_refused() {
    let mut f = fb(4, 4);
    let bounds = Bounds::new(3, 0, FbSize::new(2, 1));
    assert_eq!(paint(&mut f, &bounds, &EncodingMethod::Fill(red()), &[]), Err(DecodeError::OutOfBounds));
    assert!(f.data().iter().all(|&b| b == 0xe0));
}

#[test]
fn jpeg_and_cursor_are_not_tiles() {
    let mut f = fb(1, 1);
    let bounds = Bounds::new(0, 0, FbSize::new(1, 1));
    assert_eq!(paint(&mut f, &bounds, &EncodingMethod::Jpeg(vec![]), &[]), Err(DecodeError::Jpeg));
    let cursor = EncodingMethod::CursorBgrx { pixels: vec![0; 4], bitmask: vec![0] };
    assert_eq!(paint(&mut f, &bounds, &cursor, &[]), Err(DecodeError::NotATile));
}

#[test]
fn cursor_rectangles_become_rgba_with_mask_alpha() {
    let mut f = fb(1, 1);
    let mut cursor = Cursor::new();
    let mut zlib = ZlibStream::new();
    let bounds = Bounds::new(1, 2, FbSize::new(2, 1));
    let method = EncodingMethod::CursorBgrx { pixels: vec![1, 2, 3, 0, 4, 5, 6, 0], bitmask: vec![0x80] };
    decode(&mut f, &mut cursor, &mut zlib, &bounds, &method).unwrap();
    assert_eq!(cursor.rgba(), &vec![3, 2, 1, 255, 6, 5, 4, 0]);
    assert_eq!(cursor.hotspot().0, 1);
    assert_eq!(cursor.hotspot().1, 2);
    assert!(cursor.handle_changed());
    assert!(!cursor.handle_changed());
}

#[test]
fn compressed_copy_data_goes_through_its_zlib_stream() {
    let mut f = fb(4, 1);
    let mut cursor = Cursor::new();
    let mut zlib = ZlibStream::new();
    let raw: Vec<u8> = (1..=12).collect();
    let bounds = Bounds::new(0, 0, FbSize::new(4, 1));
    let method = EncodingMethod::CopyFilter(TightData::CompressedRgb { stream_no: 0, bytes: compress(&raw) });
    decode(&mut f, &mut cursor, &mut zlib, &bounds, &method).unwrap();
    assert_eq!(&pixel(&f, 0, 0)[..3], &[3, 2, 1]);
    assert_eq!(&pixel(&f, 3, 0)[..3], &[12, 11, 10]);
}

#[test]
fn a_reset_stream_accepts_a_fresh_zlib_stream() {
    let mut zlib = ZlibStream::new();
    let first = compress(&[1u8; 20]);
    assert_eq!(zlib.decode(&first).unwrap(), vec![1u8; 20]);
    assert!(zlib.reset());
    let second = compress(&[2u8; 20]);
    assert_eq!(zlib.decode(&second).unwrap(), vec![2u8; 20]);
}

#[test]
fn a_fresh_stream_header_without_reset_fails() {
    let mut zlib = ZlibStream::new();
    let first = compress(&[1u8; 20]);
    assert_eq!(zlib.decode(&first).unwrap(), vec![1u8; 20]);
    let second = compress(&[2u8; 20]);
    assert!(zlib.decode(&second).is_none());
}

#[test]
fn jobs_of_compressed_data_run_on_their_stream() {
    let job = DecodingJob::Rect {
        bounds: Bounds::new(0, 0, FbSize::new(1, 1)),
        method: EncodingMethod::CopyFilter(TightData::CompressedRgb { stream_no: 2, bytes: vec![] }),
    };
    assert_eq!(route(&job), Route::Zlib(2));
    assert_eq!(route(&DecodingJob::ResetZlib(3)), Route::Zlib(3));
    let fill = DecodingJob::Rect { bounds: Bounds::new(0, 0, FbSize::new(1, 1)), method: EncodingMethod::Fill(red()) };
    assert_eq!(route(&fill), Route::General);
}

#[test]
fn interleaved_streams_decode_as_if_alone() {
    let a: Vec<u8> = (0..12).collect();
    let b: Vec<u8> = (100..112).collect();
    let job = |stream_no: usize, x: usize, data: &[u8]| DecodingJob::Rect {
        bounds: Bounds::new(x, 0, FbSize::new(4, 1)),
        method: EncodingMethod::CopyFilter(TightData::CompressedRgb { stream_no, bytes: data.to_vec() }),
    };
    let mut e0 = flate2::write::ZlibEncoder::new(Vec::new(), flate2::Compression::default());
    let mut e1 = flate2::write::ZlibEncoder::new(Vec::new(), flate2::Compression::default());
    let mut chunks0 = Vec::new();
    let mut chunks1 = Vec::new();
    for data in [&a, &b] {
        e0.write_all(data).unwrap();
        e0.flush().unwrap();
        chunks0.push(std::mem::take(e0.get_mut()));
        e1.write_all(data).unwrap();
        e1.flush().unwrap();
        chunks1.push(std::mem::take(e1.get_mut()));
    }
    let mut m = DecodingMaster::new(fb(16, 1), Cursor::new());
    let _ = m.accept(job(0, 0, &chunks0[0]));
    let _ = m.accept(job(1, 4, &chunks1[0]));
    let _ = m.accept(job(1, 12, &chunks1[1]));
    let _ = m.accept(job(0, 8, &chunks0[1]));
    assert!(m.finish().is_ok());
    let (bytes, size) = m.convert_or_copy_fb(PixelFormat::Rgb);
    assert_eq!(size, FbSize::new(16, 1));
    assert_eq!(&bytes[0..12], &a[..]);
    assert_eq!(&bytes[12..24], &a[..]);
    assert_eq!(&bytes[24..36], &b[..]);
    assert_eq!(&bytes[36..48], &b[..]);
}

#[test]
fn zero_copy_hands_out_the_decoded_bytes() {
    let mut m = DecodingMaster::new(fb(2, 1), Cursor::new());
    let _ = m.accept(DecodingJob::Rect { bounds: Bounds::new(0, 0, FbSize::new(2, 1)), method: EncodingMethod::Fill(red()) });
    let (copy, _) = m.convert_or_copy_fb(PixelFormat::NativeBgrx);
    let (taken, size) = m.take_frame();
    assert_eq!(copy, taken);
    assert_eq!(size, FbSize::new(2, 1));
    assert_eq!(m.framebuffer.data().len(), 8);
}

#[test]
fn errors_of_a_frame_are_collected() {
    let mut m = DecodingMaster::new(fb(1, 1), Cursor::new());
    let _ = m.accept(DecodingJob::Rect { bounds: Bounds::new(5, 5, FbSize::new(1, 1)), method: EncodingMethod::Fill(red()) });
    let _ = m.accept(DecodingJob::Rect { bounds: Bounds::new(0, 0, FbSize::new(1, 1)), method: EncodingMethod::Jpeg(vec![]) });
    assert_eq!(m.finish().unwrap_err(), vec![DecodeError::OutOfBounds, DecodeError::Jpeg]);
    assert!(m.finish().is_ok());
}

#[test]
fn bgrx_becomes_rgb() {
    assert_eq!(bgrx_to_rgb(&[1, 2, 3, 4, 5, 6, 7, 8], 2), vec![3, 2, 1, 7, 6, 5]);
}
