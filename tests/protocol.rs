use flashvnc::bit_buffer::BitBuffer;
use flashvnc::cursor::{CursorSize, Hotspot};
use flashvnc::input::{compute_buttons_state, scroll_button, ButtonState};
use flashvnc::decoding::{DecodingJob, EncodingMethod, TightData};
use flashvnc::framebuffer::{Bgrx, FbAccess, FbSize, PixelFormat};
use flashvnc::parsing::Parser;
use flashvnc::result::{ParseError, WriteError};
use flashvnc::rfb::{
    is_security_type, RectangleHeader, TPixel, ENCODING_CURSOR, ENCODING_DESKTOP_SIZE, ENCODING_LAST_RECT, ENCODING_RAW,
    ENCODING_TIGHT,
};
use flashvnc::server::{parse_security_result, parse_security_types, parse_server_init, SecurityResult, SecurityTypes};
use flashvnc::session::{read_rectangle, read_tight_method, tight_method, uncompressed_size, TightFilter, TightMethod};
use flashvnc::thread_pool::{collect_results, job_result, Error};
use flashvnc::view::KeysymTextRange;

#[test]
fn raw_rectangles_take_four_bytes_per_pixel() {
    let h = RectangleHeader { x: 1, y: 2, width: 2, height: 1, encoding: ENCODING_RAW };
    let input = [1u8, 2, 3, 4, 5, 6, 7, 8, 99];
    let (u, end) = read_rectangle(&h, &input, 0).unwrap();
    assert_eq!(end, 8);
    match &u.jobs[0] {
        DecodingJob::Rect { method: EncodingMethod::RawBgra(b), .. } => assert_eq!(b, &input[..8].to_vec()),
        _ => panic!("not a raw job"),
    }
    assert_eq!(read_rectangle(&h, &input[..5], 0).err(), Some((ParseError::IoError, 0)));
}

#[test]
fn cursor_rectangles_read_pixels_then_mask() {
    let h = RectangleHeader { x: 0, y: 0, width: 9, height: 1, encoding: ENCODING_CURSOR };
    let mut input = vec![7u8; 36];
    input.extend_from_slice(&[0xff, 0x80]);
    let (u, end) = read_rectangle(&h, &input, 0).unwrap();
    assert_eq!(end, 38);
    match &u.jobs[0] {
        DecodingJob::Rect { method: EncodingMethod::CursorBgrx { pixels, bitmask }, .. } => {
            assert_eq!(pixels.len(), 36);
            assert_eq!(bitmask, &vec![0xff, 0x80]);
        },
        _ => panic!("not a cursor job"),
    }
}

#[test]
fn desktop_size_and_last_rect_read_nothing() {
    let h = RectangleHeader { x: 0, y: 0, width: 800, height: 600, encoding: ENCODING_DESKTOP_SIZE };
    let (u, end) = read_rectangle(&h, &[], 0).unwrap();
    assert_eq!(end, 0);
    assert_eq!(u.new_size, Some(FbSize::new(800, 600)));
    let h = RectangleHeader { x: 0, y: 0, width: 0, height: 0, encoding: ENCODING_LAST_RECT };
    let (u, _) = read_rectangle(&h, &[], 0).unwrap();
    assert!(u.last_rect);
    let h = RectangleHeader { x: 0, y: 0, width: 0, height: 0, encoding: 5 };
    assert_eq!(read_rectangle(&h, &[], 0).err(), Some((ParseError::InvalidDiscriminator(5), 0)));
}

#[test]
fn tight_jpeg_reads_a_compact_length_then_the_bytes() {
    let input = [0x03u8, 9, 8, 7, 6];
    let (m, end) = read_tight_method(TightMethod::Jpeg, 4, 4, 0, &input, 0).unwrap();
    assert_eq!(end, 4);
    match m {
        EncodingMethod::Jpeg(b) => assert_eq!(b, vec![9, 8, 7]),
        _ => panic!("not a jpeg"),
    }
}

#[test]
fn tight_copy_data_of_twelve_bytes_or_more_is_compressed() {
    let input = [0x02u8, 0xaa, 0xbb];
    let (m, end) = read_tight_method(TightMethod::BasicNoFilterId, 2, 2, 3, &input, 0).unwrap();
    assert_eq!(end, 3);
    match m {
        EncodingMethod::CopyFilter(TightData::CompressedRgb { stream_no, bytes }) => {
            assert_eq!(stream_no, 3);
            assert_eq!(bytes, vec![0xaa, 0xbb]);
        },
        _ => panic!("not compressed copy data"),
    }
    let input = [1u8, 2, 3];
    let (m, _) = read_tight_method(TightMethod::BasicNoFilterId, 1, 1, 3, &input, 0).unwrap();
    assert!(matches!(m, EncodingMethod::CopyFilter(TightData::UncompressedRgb(_))));
}

#[test]
fn tight_sub_methods_come_from_the_high_bits() {
    assert_eq!(tight_method(0x80), Ok(TightMethod::Fill));
    assert_eq!(tight_method(0x9f), Ok(TightMethod::Jpeg));
    assert_eq!(tight_method(0x40), Ok(TightMethod::Basic));
    assert_eq!(tight_method(0x3f), Ok(TightMethod::BasicNoFilterId));
    assert!(tight_method(0xa0).is_err());
    let h = RectangleHeader { x: 0, y: 0, width: 1, height: 1, encoding: ENCODING_TIGHT };
    assert!(read_rectangle(&h, &[0xc0], 0).is_err());
}

#[test]
fn uncompressed_sizes_follow_the_filter() {
    assert_eq!(uncompressed_size(TightFilter::Copy, 0, 4, 3), Some(36));
    assert_eq!(uncompressed_size(TightFilter::Palette, 2, 9, 2), Some(4));
    assert_eq!(uncompressed_size(TightFilter::Palette, 5, 9, 2), Some(18));
    assert_eq!(uncompressed_size(TightFilter::Copy, 0, usize::MAX, 2), None);
}

#[test]
fn security_handshake_messages() {
    match parse_security_types(&[2, 1, 16], 0).unwrap() {
        (SecurityTypes::Types(t), 3) => assert_eq!(t, vec![1, 16]),
        _ => panic!("not a list of types"),
    }
    match parse_security_types(&[0, 0, 0, 0, 2, b'n', b'o'], 0).unwrap() {
        (SecurityTypes::ErrorReason(s), 7) => assert_eq!(s, "no"),
        _ => panic!("not a reason"),
    }
    assert!(parse_security_types(&[1, 5], 0).is_err());
    assert!(matches!(parse_security_result(&[0, 0, 0, 0], 0), Ok((SecurityResult::Accepted, 4))));
    match parse_security_result(&[0, 0, 0, 1, 0, 0, 0, 3, b'b', b'a', b'd'], 0).unwrap() {
        (SecurityResult::Failed(s), 11) => assert_eq!(s, "bad"),
        _ => panic!("not a failure"),
    }
    assert!(is_security_type(1) && is_security_type(2) && is_security_type(16) && !is_security_type(3));
}

#[test]
fn server_init_gives_size_format_and_name() {
    let mut input = vec![0x03, 0x20, 0x02, 0x58];
    input.extend_from_slice(&[32, 24, 0, 1, 0, 255, 0, 255, 0, 255, 16, 8, 0, 0, 0, 0]);
    input.extend_from_slice(&[0, 0, 0, 4, b'd', b'e', b's', b'k']);
    let (init, end) = parse_server_init(&input, 0).unwrap();
    assert_eq!(end, input.len());
    assert_eq!((init.width, init.height), (800, 600));
    assert_eq!(init.pixel_format.red_shift, 16);
    assert_eq!(init.name, "desk");
}

#[test]
fn tpixels_become_bgrx() {
    let p = Bgrx::from_tpixel(TPixel { r: 1, g: 2, b: 3 });
    assert_eq!((p.b, p.g, p.r, p.x), (3, 2, 1, 0));
    let mut out = Vec::new();
    TPixel::parser().write(&mut out, &TPixel { r: 1, g: 2, b: 3 }).unwrap();
    assert_eq!(out, vec![1, 2, 3]);
}

#[test]
fn a_panicking_job_reports_a_panic_and_the_others_still_count() {
    let results = vec![job_result::<String>(Some(Ok(()))), job_result(None), job_result(Some(Err(String::from("x"))))];
    match collect_results(results) {
        Err(errors) => {
            assert_eq!(errors.len(), 2);
            assert!(matches!(errors[0], Error::Panic));
            assert!(matches!(&errors[1], Error::Value(s) if s == "x"));
        },
        Ok(()) => panic!("errors were lost"),
    }
    assert!(collect_results::<String>(vec![Ok(()), Ok(())]).is_ok());
}

#[test]
fn sizes_and_tags() {
    assert_eq!(FbSize::new(3, 2).no_of_pixels(), 6);
    assert_eq!(FbSize::new(3, 2).no_of_bytes(), 24);
    assert_eq!(FbSize::new(3, 2).stride(), 12);
    assert_eq!(CursorSize(3, 2).stride(), 12);
    assert_eq!(CursorSize(3, 2).no_of_bytes(), 24);
    assert_eq!(PixelFormat::Rgb.bytes_per_pixel(), 3);
    assert_eq!(PixelFormat::NativeBgrx.bytes_per_pixel(), 4);
    assert_eq!(FbAccess::Resizing.tag(), 1);
    let h = Hotspot(1, 2);
    assert_eq!((h.0, h.1), (1, 2));
    assert!(KeysymTextRange.contains(0x61));
    assert!(KeysymTextRange.contains(0xe9));
    assert!(!KeysymTextRange.contains(0x7f));
    assert!(!KeysymTextRange.contains(0xff0d));
}

#[test]
fn write_errors_tell_io_errors_apart() {
    assert!(WriteError::IoError.is_io_error());
    assert!(!WriteError::PredicateFailed("x").is_io_error());
    assert!(ParseError::IoError.is_eof());
    assert!(!ParseError::EncodingError.is_eof());
}

#[test]
fn frame_conversion_ranges_cover_every_pixel_once() {
    let ranges = flashvnc::master::chunk_ranges(10, 4);
    assert_eq!(ranges, vec![(0, 2), (2, 2), (4, 2), (6, 4)]);
    let ranges = flashvnc::master::chunk_ranges(3, 4);
    assert_eq!(ranges, vec![(0, 0), (0, 0), (0, 0), (0, 3)]);
}

#[test]
fn button_masks_follow_the_changed_button() {
    assert_eq!(compute_buttons_state(0b1, None), 0b1);
    assert_eq!(compute_buttons_state(0b1, Some((3, ButtonState::Down))), 0b101);
    assert_eq!(compute_buttons_state(0b101, Some((1, ButtonState::Up))), 0b100);
    assert_eq!(compute_buttons_state(0xff, None), 0x1f);
    assert_eq!(scroll_button(true), 5);
    assert_eq!(scroll_button(false), 4);
}

#[test]
fn the_input_buffer_hands_out_what_no_packet_took() {
    let mut input = flashvnc::io_input::IoInput::new();
    input.push(&[1, 2, 3]);
    input.consume(2);
    assert_eq!(input.rest(), &[3]);
    assert_eq!(input.offset(), 2);
    input.push(&[4]);
    assert_eq!(input.rest(), &[3, 4]);
}

#[test]
fn the_bit_buffer_reads_bit_k_after_k_calls() {
    let data = [0b1010_0000u8, 0b0000_0001];
    let mut bits = BitBuffer::new(&data);
    let read: Vec<u8> = (0..16).map(|_| bits.next()).collect();
    assert_eq!(read, vec![1, 0, 1, 0, 0, 0, 0, 0, 0, 0, 0, 0, 0, 0, 0, 1]);
}
