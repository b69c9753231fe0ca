use flashvnc::decoding::{DecodingJob, EncodingMethod, TightData};
use flashvnc::framebuffer::{FbAccess, FbSize};
use flashvnc::menu::{Menu, MenuAction, KEY_F1, KEY_F6, KEY_F8};
use flashvnc::mode_lock::ModeState;
use flashvnc::parsing::{io_parse, io_write};
use flashvnc::result::ParseError;
use flashvnc::rfb::{PixelFormat, RectangleHeader, SetEncodings, ENCODING_EXTENDED_DESKTOP_SIZE, ENCODING_TIGHT};
use flashvnc::server::{choose_security, parse_protocol_version, parse_server_message, ServerMessage};
use flashvnc::session::{
    fence_reply, get_rfb_encodings, read_rectangle, tight_filter, zlib_resets, EncodingQuality, FrameTracker, TightFilter, ZERO_COPY_THRESHOLD,
};
use flashvnc::write_end::{WriteEnd, WriteEvent};
use flashvnc::throttle::{MovingAverage, ThrottleController};

#[test]
fn pixel_format_round_trips() {
    let pf = PixelFormat {
        bits_per_pixel: 32,
        depth: 24,
        big_endian: false,
        true_color: true,
        red_max: 255,
        green_max: 255,
        blue_max: 255,
        red_shift: 16,
        green_shift: 8,
        blue_shift: 0,
    };
    let mut out = Vec::new();
    io_write(&PixelFormat::parser(), &mut out, &pf).unwrap();
    assert_eq!(out, vec![32, 24, 0, 1, 0, 255, 0, 255, 0, 255, 16, 8, 0, 0, 0, 0]);
    assert_eq!(io_parse(&PixelFormat::parser(), &out).unwrap(), (pf, 16));
}

#[test]
fn set_encodings_round_trips() {
    let msg = SetEncodings { encodings: vec![7, -239] };
    let mut out = Vec::new();
    io_write(&SetEncodings::parser(), &mut out, &msg).unwrap();
    assert_eq!(out, vec![0, 0, 2, 0, 0, 0, 7, 0xff, 0xff, 0xff, 0x11]);
    assert_eq!(io_parse(&SetEncodings::parser(), &out).unwrap().0, msg);
}

#[test]
fn rectangle_header_round_trips() {
    let h = RectangleHeader { x: 10, y: 20, width: 4, height: 3, encoding: 7 };
    let mut out = Vec::new();
    io_write(&RectangleHeader::parser(), &mut out, &h).unwrap();
    assert_eq!(out, vec![0, 10, 0, 20, 0, 4, 0, 3, 0, 0, 0, 7]);
    assert_eq!(io_parse(&RectangleHeader::parser(), &out).unwrap(), (h, 12));
}

#[test]
fn encodings_follow_the_quality() {
    assert_eq!(get_rfb_encodings(EncodingQuality::LossyHigh), vec![7, 0, -239, -308, -224, -313, -312, -417, -768, -255]);
    assert_eq!(get_rfb_encodings(EncodingQuality::Lossless), vec![7, 0, -239, -308, -224, -313, -312, -250]);
    assert_eq!(EncodingQuality::LossyLow.get_rfb_encodings(), vec![-482, -767, -249]);
    assert_eq!(EncodingQuality::LossyMediumInterframeComparison.get_rfb_encodings(), vec![-432, -766, -250]);
}

#[test]
fn version_other_than_3_8_is_refused() {
    assert_eq!(parse_protocol_version(b"RFB 003.008\n", 0), Ok(12));
    assert_eq!(
        parse_protocol_version(b"RFB 003.007\n", 0),
        Err((ParseError::PredicateFailed("should be RFB version 3.8"), 0))
    );
    assert_eq!(parse_protocol_version(b"RFB 003", 0), Err((ParseError::IoError, 0)));
}

#[test]
fn security_without_none_is_refused() {
    assert_eq!(choose_security(&vec![0x02, 0x10]), None);
    assert_eq!(choose_security(&vec![0x02, 0x01]), Some(1));
}

#[test]
fn tight_fill_rectangle_becomes_a_fill_job() {
    let h = RectangleHeader { x: 10, y: 20, width: 4, height: 3, encoding: ENCODING_TIGHT };
    let input = [0x80u8, 0xff, 0x00, 0x00];
    let (u, end) = read_rectangle(&h, &input, 0).unwrap();
    assert_eq!(end, 4);
    assert_eq!(u.jobs.len(), 1);
    match &u.jobs[0] {
        DecodingJob::Rect { bounds, method: EncodingMethod::Fill(c) } => {
            assert_eq!((bounds.x, bounds.y, bounds.size), (10, 20, FbSize::new(4, 3)));
            assert_eq!((c.r, c.g, c.b), (0xff, 0, 0));
        },
        _ => panic!("not a fill job"),
    }
}

#[test]
fn tight_palette_rectangle_reads_colours_and_short_data() {
    let h = RectangleHeader { x: 0, y: 0, width: 3, height: 1, encoding: ENCODING_TIGHT };
    let input = [0x40u8, 0x01, 0x01, 0xff, 0, 0, 0, 0, 0xff, 0b1010_0000];
    let (u, end) = read_rectangle(&h, &input, 0).unwrap();
    assert_eq!(end, input.len());
    match &u.jobs[0] {
        DecodingJob::Rect { method: EncodingMethod::PaletteFilter(colors, TightData::UncompressedRgb(d)), .. } => {
            assert_eq!(colors.len(), 2);
            assert_eq!((colors[1].r, colors[1].b), (0, 0xff));
            assert_eq!(d, &vec![0b1010_0000]);
        },
        _ => panic!("not a palette job"),
    }
}

#[test]
fn tight_control_resets_come_first() {
    assert_eq!(zlib_resets(0x0b), vec![0, 1, 3]);
    let h = RectangleHeader { x: 0, y: 0, width: 1, height: 1, encoding: ENCODING_TIGHT };
    let input = [0x85u8, 1, 2, 3];
    let (u, _) = read_rectangle(&h, &input, 0).unwrap();
    assert_eq!(u.jobs.len(), 3);
    assert!(matches!(u.jobs[0], DecodingJob::ResetZlib(0)));
    assert!(matches!(u.jobs[1], DecodingJob::ResetZlib(2)));
}

#[test]
fn gradient_filter_is_a_protocol_error() {
    assert_eq!(tight_filter(1), Ok(TightFilter::Palette));
    assert_eq!(tight_filter(2), Err(ParseError::PredicateFailed("gradient filter is not supported")));
    assert_eq!(tight_filter(7), Err(ParseError::InvalidDiscriminator(7)));
}

#[test]
fn extended_desktop_size_with_error_keeps_the_size_but_allows_set_desktop_size() {
    let h = RectangleHeader { x: 0, y: 1, width: 800, height: 600, encoding: ENCODING_EXTENDED_DESKTOP_SIZE };
    let input = [0u8, 0, 0, 0];
    let (u, _) = read_rectangle(&h, &input, 0).unwrap();
    assert!(u.new_size.is_none());
    assert!(u.allow_set_desktop_size);

    let mut end = WriteEnd::new();
    let mut out = Vec::new();
    end.handle(WriteEvent::Resized(FbSize::new(640, 480)), &mut out).unwrap();
    assert!(out.is_empty());
    end.handle(WriteEvent::AllowSetDesktopSize, &mut out).unwrap();
    end.handle(WriteEvent::Resized(FbSize::new(640, 480)), &mut out).unwrap();
    assert_eq!(out, vec![251, 0, 2, 128, 1, 224, 0, 0]);
}

#[test]
fn relative_motion_sends_whole_pixels_only() {
    let mut end = WriteEnd::new();
    let mut out = Vec::new();
    assert!(end.handle(WriteEvent::RelativePointer { state: 0, dx: 0, dy: 0 }, &mut out).unwrap().is_none());
    assert!(end.handle(WriteEvent::RelativePointer { state: 0, dx: 0, dy: 0 }, &mut out).unwrap().is_none());
    let datagram = end.handle(WriteEvent::RelativePointer { state: 0, dx: 1, dy: 1 }, &mut out).unwrap().unwrap();
    assert_eq!(datagram, vec![0, 0, 0, 1, 0, 1]);
    let press = end.handle(WriteEvent::RelativePointer { state: 1, dx: 0, dy: -1 }, &mut out).unwrap().unwrap();
    assert_eq!(press, vec![0, 1, 0, 0, 0xff, 0xff]);
    assert!(out.is_empty());
}

#[test]
fn key_and_pointer_events_are_written() {
    let mut end = WriteEnd::new();
    let mut out = Vec::new();
    end.handle(WriteEvent::Keyboard { key: 0x61, down: true }, &mut out).unwrap();
    assert_eq!(out, vec![4, 1, 0, 0, 0, 0, 0, 0x61]);
    out.clear();
    end.handle(WriteEvent::Pointer { state: 1, x: 300, y: 2 }, &mut out).unwrap();
    assert_eq!(out, vec![5, 1, 1, 44, 0, 2]);
    out.clear();
    end.handle(WriteEvent::UpdateRequest { incremental: false, size: FbSize::new(640, 480) }, &mut out).unwrap();
    assert_eq!(out, vec![3, 0, 0, 0, 0, 0, 2, 128, 1, 224]);
}

#[test]
fn fence_requests_are_answered_with_block_flags_only() {
    assert_eq!(fence_reply(0x8000_0007), Some(3));
    assert_eq!(fence_reply(0x0000_0003), None);
}

#[test]
fn sixty_full_frames_turn_zero_copy_on() {
    let mut t = FrameTracker::new(ZERO_COPY_THRESHOLD);
    for _ in 0..59 {
        assert!(!t.frame_done(100, 100));
    }
    assert!(!t.zero_copy_mode);
    t.frame_done(100, 100);
    assert!(t.zero_copy_mode);
    assert!(t.frame_done(50, 100));
    assert!(!t.zero_copy_mode);
}

#[test]
fn mode_lock_admits_only_the_same_mode() {
    let mut s = ModeState::new();
    assert!(s.try_acquire(FbAccess::Decoding));
    assert!(s.try_acquire(FbAccess::Decoding));
    assert!(!s.try_acquire(FbAccess::Resizing));
    assert!(!s.release());
    assert!(s.release());
    assert!(s.try_acquire(FbAccess::Resizing));
    assert!(!s.try_acquire(FbAccess::Reading));
}

#[test]
fn moving_average_divides_by_the_window() {
    let mut a = MovingAverage::new(2);
    a.add(10);
    assert_eq!(a.get(), 5);
    a.add(20);
    assert_eq!(a.get(), 15);
    a.add(40);
    assert_eq!(a.get(), 30);
}

#[test]
fn throttle_raises_the_sleep_once_the_average_passes_a_millisecond() {
    let mut t = ThrottleController::new(0);
    let five_ms = 5_000_000;
    for _ in 0..10 {
        t.register_leftover_frame_delay(five_ms, 0);
        assert_eq!(t.sleep_duration(), 0);
    }
    t.register_leftover_frame_delay(five_ms, 0);
    assert_eq!(t.sleep_duration(), 1_100_000);
    for _ in 0..50 {
        t.register_leftover_frame_delay(five_ms, 0);
        assert_eq!(t.sleep_duration(), 1_100_000);
    }
    t.register_leftover_frame_delay(five_ms, 0);
    assert!(t.sleep_duration() > 1_100_000);
}

#[test]
fn the_menu_intercepts_keys_after_f8() {
    let mut m = Menu::new();
    assert_eq!(m.intercept_key_press(0x61), (false, None));
    assert_eq!(m.intercept_key_press(KEY_F8), (true, None));
    assert!(m.visible());
    assert_eq!(m.intercept_key_press(KEY_F1), (true, Some(MenuAction::SetEncodingQuality(EncodingQuality::LossyHigh))));
    assert!(!m.visible());
    m.intercept_key_press(KEY_F8);
    assert_eq!(m.intercept_key_press(KEY_F6), (true, Some(MenuAction::StartRelativeMouseMode)));
    assert!(m.relative_mouse_mode());
}

#[test]
fn server_messages_are_told_apart_by_their_type() {
    match parse_server_message(&[0, 0, 0, 2], 0).unwrap() {
        (ServerMessage::FramebufferUpdate { no_of_rectangles }, 4) => assert_eq!(no_of_rectangles, 2),
        _ => panic!("not an update"),
    }
    match parse_server_message(&[248, 0, 0, 0, 0x80, 0, 0, 1, 2, 9, 9], 0).unwrap() {
        (ServerMessage::Fence { flags, payload }, 11) => {
            assert_eq!(flags, 0x8000_0001);
            assert_eq!(payload, vec![9, 9]);
        },
        _ => panic!("not a fence"),
    }
    assert!(matches!(parse_server_message(&[7], 0), Err((ParseError::InvalidDiscriminator(7), 0))));
}

#[test]
fn frame_progress_adds_areas_and_stops_at_the_last_rectangle() {
    use_frame_progress();
}

fn use_frame_progress() {
    let mut p = flashvnc::session::FrameProgress::new();
    let h = RectangleHeader { x: 0, y: 0, width: 4, height: 3, encoding: flashvnc::rfb::ENCODING_DESKTOP_SIZE };
    let (u, _) = read_rectangle(&h, &[], 0).unwrap();
    assert!(p.note_rectangle(&h, &u));
    assert_eq!(p.area, 12);
    assert_eq!(p.new_size, Some(FbSize::new(4, 3)));
    let last = RectangleHeader { x: 0, y: 0, width: 0, height: 0, encoding: flashvnc::rfb::ENCODING_LAST_RECT };
    let (u, _) = read_rectangle(&last, &[], 0).unwrap();
    assert!(!p.note_rectangle(&last, &u));
    assert_eq!(p.area, 12);
}

#[test]
fn throttle_decreases_are_floored_at_zero() {
    let mut t = ThrottleController::new(0);
    for _ in 0..11 {
        t.register_leftover_frame_delay(5_000_000, 0);
    }
    assert_eq!(t.sleep_duration(), 1_100_000);
    for _ in 0..50 {
        t.register_leftover_frame_delay(0, 0);
    }
    t.register_leftover_frame_delay(0, 600_000_000);
    assert_eq!(t.sleep_duration(), 100_000);
    t.register_leftover_frame_delay(0, 1_200_000_000);
    assert_eq!(t.sleep_duration(), 0);
}

#[test]
fn resizes_wait_for_the_next_frame() {
    let mut s = flashvnc::session::SessionState::new(2);
    assert_eq!(s.begin_frame(), None);
    let mut p = flashvnc::session::FrameProgress::new();
    let h = RectangleHeader { x: 0, y: 0, width: 4, height: 3, encoding: flashvnc::rfb::ENCODING_DESKTOP_SIZE };
    let (u, _) = read_rectangle(&h, &[], 0).unwrap();
    p.note_rectangle(&h, &u);
    let d = s.end_frame(&p, FbSize::new(4, 3));
    assert!(d.request_update.is_none());
    assert!(!d.zero_copy);
    assert_eq!(s.begin_frame(), Some(FbSize::new(4, 3)));
    assert_eq!(s.begin_frame(), None);
    let d = s.end_frame(&p, FbSize::new(4, 3));
    assert!(d.zero_copy);
    let d = s.end_frame(&flashvnc::session::FrameProgress::new(), FbSize::new(4, 3));
    assert_eq!(d.request_update, Some(FbSize::new(4, 3)));
    assert!(!d.zero_copy);
}

#[test]
fn cut_text_and_bell_messages_are_read() {
    match parse_server_message(&[3, 0, 0, 0, 0, 0, 0, 2, b'h', b'i', 2], 0).unwrap() {
        (ServerMessage::ServerCutText(s), 10) => assert_eq!(s, "hi"),
        _ => panic!("not cut text"),
    }
    assert!(matches!(parse_server_message(&[2], 0), Ok((ServerMessage::Bell, 1))));
    assert!(matches!(parse_server_message(&[150], 0), Ok((ServerMessage::EndOfContinuousUpdates, 1))));
    assert!(matches!(parse_server_message(&[0, 0, 0], 0), Err((ParseError::IoError, 2))));
}
