//! The boundary to the front-end: what the session tells it, and the
//! settings and errors of a connection.
use vstd::prelude::*;
use crate::cursor::{Cursor, CursorSize, Hotspot};
use crate::framebuffer::FbSize;

verus! {

/// Where to connect, and how the session runs.
pub struct ConnectionConfig {
    pub host: String,
    pub port: u16,
    pub benchmark: bool,
    pub throttle: bool,
}

/// A fatal error of the session, with the message for the user.
pub struct MainError(pub String);

/// What the session asks of the front-end.
pub enum ProtocolEvent {
    ChangeDisplaySize(FbSize),
    UpdateFramebuffer(Vec<u8>, FbSize),
    UpdateCursor(Vec<u8>, CursorSize, Hotspot),
    SetTitle(String),
}

/// The front-end's output side.
pub trait ViewOutput {
    /// Shows a frame and returns once it is drawn.
    fn update_framebuffer_sync(&self, fb_data: Vec<u8>, size: FbSize);

    fn handle_event(&self, event: ProtocolEvent);

    /// Shows a frame without waiting for it to be drawn.
    fn update_framebuffer(&self, fb_data: Vec<u8>, size: FbSize) {
        self.handle_event(ProtocolEvent::UpdateFramebuffer(fb_data, size));
    }

    /// Shows the cursor image.
    fn update_cursor(&self, cursor: &Cursor) {
        self.handle_event(ProtocolEvent::UpdateCursor(cursor.rgba().clone(), cursor.size(), cursor.hotspot()));
    }
}

/// A stopwatch that measures nothing, for runs without timing output.
pub struct NullStopwatch;

impl NullStopwatch {
    pub fn new() -> (r: Self) {
        NullStopwatch
    }

    pub fn take_measurement(&mut self, title: &str) {
    }
}

/// The keysyms of printable Latin-1 characters (0x20 to 0xff, without
/// DEL), which the front-end receives as text.
pub struct KeysymTextRange;

pub const ASCII_DEL: u32 = 127;

impl KeysymTextRange {
    pub fn contains(&self, keysym: u32) -> (r: bool)
        ensures
            r == (0x20 <= keysym < 0x100 && keysym != ASCII_DEL),
    {
        0x20 <= keysym && keysym < 0x100 && keysym != ASCII_DEL
    }
}

} // verus!
