//! What the client sends: the bytes of each client message, and the state
//! of the thread that writes them.
use vstd::prelude::*;
use crate::framebuffer::FbSize;
use crate::parsing::{Parser, Written};
use crate::primitive::{be32_bytes, U32Be};
use crate::result::WriteError;
use crate::rfb::{FramebufferUpdateRequest, KeyEvent, PointerEvent, SetEncodings};
use crate::session::{base_encodings, get_rfb_encodings, quality_encodings, EncodingQuality};

verus! {

/// Appends a byte.
fn put_u8(out: &mut Vec<u8>, b: u8)
    ensures
        final(out)@ == old(out)@ + seq![b],
{
    out.push(b);
    assert(final(out)@ =~= old(out)@ + seq![b]);
}

fn put_u16(out: &mut Vec<u8>, v: u16)
    ensures
        final(out)@ == old(out)@ + seq![(v >> 8u16) as u8, v as u8],
{
    out.push((v >> 8u16) as u8);
    out.push(v as u8);
    assert(final(out)@ =~= old(out)@ + seq![(v >> 8u16) as u8, v as u8]);
}

fn append_vec(out: &mut Vec<u8>, b: &Vec<u8>)
    ensures
        final(out)@ == old(out)@ + b@,
{
    let mut i: usize = 0;
    while i < b.len()
        invariant
            i <= b@.len(),
            out@ == old(out)@ + b@.subrange(0, i as int),
        decreases b@.len() - i,
    {
        out.push(b[i]);
        i = i + 1;
        assert(out@ =~= old(out)@ + b@.subrange(0, i as int));
    }
    assert(b@.subrange(0, b@.len() as int) =~= b@);
}

/// The bytes of a `KeyEvent` message.
pub open spec fn key_event_bytes(down: bool, key: u32) -> Seq<u8> {
    seq![4u8] + KeyEvent::spec_parser().spec_write(KeyEvent { down, key })->Ok_0
}

/// The bytes of a `PointerEvent` message.
pub open spec fn pointer_event_bytes(mask: u8, x: u16, y: u16) -> Seq<u8> {
    seq![5u8] + PointerEvent::spec_parser().spec_write(PointerEvent { mask, x, y })->Ok_0
}

/// The bytes of a `FramebufferUpdateRequest` (tag 3) or an
/// `EnableContinuousUpdates` (tag 150), which share their layout.
pub open spec fn area_message_bytes(tag: u8, flag: bool, x: usize, y: usize, size: FbSize) -> Written {
    match FramebufferUpdateRequest::spec_parser().spec_write(
        FramebufferUpdateRequest { incremental: flag, x, y, width: size.width, height: size.height },
    ) {
        Ok(b) => Ok(seq![tag] + b),
        Err(e) => Err(e),
    }
}

/// The bytes of a `SetEncodings` message for a quality level.
pub open spec fn set_encodings_bytes(q: EncodingQuality) -> Written {
    match SetEncodings::spec_parser().spec_write(base_encodings() + quality_encodings(q)) {
        Ok(b) => Ok(seq![2u8] + b),
        Err(e) => Err(e),
    }
}

/// The bytes of a `Fence` message; the payload length is sent as one byte.
pub open spec fn fence_bytes(flags: u32, payload: Seq<u8>) -> Seq<u8> {
    seq![248u8, 0u8, 0u8, 0u8] + be32_bytes(flags) + seq![payload.len() as u8] + payload
}

/// The bytes of a `SetDesktopSize` message with the given screen records.
pub open spec fn set_desktop_size_bytes(size: FbSize, count: u8, records: Seq<u8>) -> Seq<u8> {
    seq![251u8, 0u8, (size.width as u16 >> 8u16) as u8, size.width as u16 as u8, (size.height as u16 >> 8u16) as u8,
        size.height as u16 as u8, count, 0u8] + records
}

/// The datagram of a relative pointer motion for the companion mouse
/// server.
pub open spec fn mouse_datagram_bytes(state: u8, dx: i32, dy: i32) -> Seq<u8> {
    seq![0u8, state, ((dx as i16 as u16) >> 8u16) as u8, dx as i16 as u16 as u8, ((dy as i16 as u16) >> 8u16) as u8,
        dy as i16 as u16 as u8]
}

pub fn write_key_event(out: &mut Vec<u8>, down: bool, key: u32)
    ensures
        final(out)@ == old(out)@ + key_event_bytes(down, key),
{
    let ghost start = out@;
    put_u8(out, 4);
    let _ = KeyEvent::parser().write(out, &KeyEvent { down, key });
    assert(out@ =~= start + key_event_bytes(down, key));
}

pub fn write_pointer_event(out: &mut Vec<u8>, mask: u8, x: u16, y: u16)
    ensures
        final(out)@ == old(out)@ + pointer_event_bytes(mask, x, y),
{
    let ghost start = out@;
    put_u8(out, 5);
    let _ = PointerEvent::parser().write(out, &PointerEvent { mask, x, y });
    assert(out@ =~= start + pointer_event_bytes(mask, x, y));
}

pub fn write_area_message(out: &mut Vec<u8>, tag: u8, flag: bool, x: usize, y: usize, size: FbSize) -> (r: Result<(), WriteError>)
    ensures
        match area_message_bytes(tag, flag, x, y, size) {
            Ok(b) => r is Ok && final(out)@ == old(out)@ + b,
            Err(e) => r == Err::<(), WriteError>(e) && final(out)@ == old(out)@,
        },
{
    let mut body: Vec<u8> = Vec::new();
    let req = FramebufferUpdateRequest { incremental: flag, x, y, width: size.width, height: size.height };
    match FramebufferUpdateRequest::parser().write(&mut body, &req) {
        Ok(()) => {
            let ghost start = out@;
            let ghost b = body@;
            assert(b =~= Seq::<u8>::empty() + b);
            put_u8(out, tag);
            out.append(&mut body);
            assert(out@ =~= start + (seq![tag] + b));
            Ok(())
        },
        Err(e) => Err(e),
    }
}

pub fn write_set_encodings(out: &mut Vec<u8>, q: EncodingQuality) -> (r: Result<(), WriteError>)
    ensures
        match set_encodings_bytes(q) {
            Ok(b) => r is Ok && final(out)@ == old(out)@ + b,
            Err(e) => r == Err::<(), WriteError>(e) && final(out)@ == old(out)@,
        },
{
    let mut body: Vec<u8> = Vec::new();
    let msg = SetEncodings { encodings: get_rfb_encodings(q) };
    assert(msg.deep_view() =~= base_encodings() + quality_encodings(q));
    match SetEncodings::parser().write(&mut body, &msg) {
        Ok(()) => {
            let ghost start = out@;
            let ghost b = body@;
            assert(b =~= Seq::<u8>::empty() + b);
            put_u8(out, 2);
            out.append(&mut body);
            assert(out@ =~= start + (seq![2u8] + b));
            Ok(())
        },
        Err(e) => Err(e),
    }
}

pub fn write_fence(out: &mut Vec<u8>, flags: u32, payload: &Vec<u8>)
    ensures
        final(out)@ == old(out)@ + fence_bytes(flags, payload@),
{
    let ghost start = out@;
    put_u8(out, 248);
    put_u8(out, 0);
    put_u8(out, 0);
    put_u8(out, 0);
    let _ = U32Be.write(out, &flags);
    put_u8(out, payload.len() as u8);
    append_vec(out, payload);
    assert(out@ =~= start + fence_bytes(flags, payload@));
}

pub fn write_set_desktop_size(out: &mut Vec<u8>, size: FbSize, count: u8, records: &Vec<u8>)
    ensures
        final(out)@ == old(out)@ + set_desktop_size_bytes(size, count, records@),
{
    let ghost start = out@;
    put_u8(out, 251);
    put_u8(out, 0);
    put_u16(out, size.width as u16);
    put_u16(out, size.height as u16);
    put_u8(out, count);
    put_u8(out, 0);
    append_vec(out, records);
    assert(out@ =~= start + set_desktop_size_bytes(size, count, records@));
}

pub fn mouse_datagram(state: u8, dx: i32, dy: i32) -> (r: Vec<u8>)
    ensures
        r@ == mouse_datagram_bytes(state, dx, dy),
{
    let mut r: Vec<u8> = Vec::new();
    put_u8(&mut r, 0);
    put_u8(&mut r, state);
    put_u16(&mut r, dx as i16 as u16);
    put_u16(&mut r, dy as i16 as u16);
    assert(r@ =~= mouse_datagram_bytes(state, dx, dy));
    r
}

/// What the write end is asked to send.
#[allow(inconsistent_fields)]
pub enum WriteEvent {
    Pointer { state: u8, x: i32, y: i32 },
    /// Relative motion whose whole pixels were already taken out.
    RelativePointer { state: u8, dx: i32, dy: i32 },
    Keyboard { key: u32, down: bool },
    Resized(FbSize),
    SetEncodingQuality(EncodingQuality),
    SetScreenLayout(u8, Vec<u8>),
    AllowSetDesktopSize,
    UpdateRequest { incremental: bool, size: FbSize },
    EnableContinuousUpdates { on: bool, x: usize, y: usize, size: FbSize },
    Fence { flags: u32, payload: Vec<u8> },
    Heartbeat,
}

/// What the write end remembers between events.
pub struct WriteEnd {
    pub previous_mouse_state: u8,
    pub screen_layout: (u8, Vec<u8>),
    pub set_desktop_size_allowed: bool,
}

impl WriteEnd {
    pub fn new() -> (r: Self)
        ensures
            r.previous_mouse_state == 0,
            r.screen_layout.0 == 0,
            r.screen_layout.1@.len() == 0,
            !r.set_desktop_size_allowed,
    {
        WriteEnd { previous_mouse_state: 0, screen_layout: (0, Vec::new()), set_desktop_size_allowed: false }
    }

    /// Turns an event into the bytes for the server, appended to `out`, and
    /// maybe a datagram for the mouse server. Pointer positions are sent in
    /// 16 bits, cut as `as u16` cuts.
    pub fn handle(&mut self, event: WriteEvent, out: &mut Vec<u8>) -> (r: Result<Option<Vec<u8>>, WriteError>)
        ensures
            match event {
                WriteEvent::Pointer { state, x, y } => r == Ok::<Option<Vec<u8>>, WriteError>(None) && final(out)@ == old(out)@
                    + pointer_event_bytes(state, x as u16, y as u16),
                WriteEvent::RelativePointer { state, dx, dy } => {
                    &&& final(out)@ == old(out)@
                    &&& final(self).previous_mouse_state == state
                    &&& (dx != 0 || dy != 0 || state != old(self).previous_mouse_state) ==> (r matches Ok(Some(d))
                        && d@ == mouse_datagram_bytes(state, dx, dy))
                    &&& !(dx != 0 || dy != 0 || state != old(self).previous_mouse_state) ==> r == Ok::<
                        Option<Vec<u8>>,
                        WriteError,
                    >(None)
                },
                WriteEvent::Keyboard { key, down } => r == Ok::<Option<Vec<u8>>, WriteError>(None) && final(out)@
                    == old(out)@ + key_event_bytes(down, key),
                WriteEvent::Resized(size) => r == Ok::<Option<Vec<u8>>, WriteError>(None) && (old(
                    self,
                ).set_desktop_size_allowed ==> final(out)@ == old(out)@ + set_desktop_size_bytes(
                    size,
                    old(self).screen_layout.0,
                    old(self).screen_layout.1@,
                )) && (!old(self).set_desktop_size_allowed ==> final(out)@ == old(out)@),
                WriteEvent::SetEncodingQuality(q) => match set_encodings_bytes(q) {
                    Ok(b) => r == Ok::<Option<Vec<u8>>, WriteError>(None) && final(out)@ == old(out)@ + b,
                    Err(e) => r == Err::<Option<Vec<u8>>, WriteError>(e),
                },
                WriteEvent::SetScreenLayout(count, records) => final(out)@ == old(out)@ && final(self).screen_layout.0
                    == count && final(self).screen_layout.1@ == records@,
                WriteEvent::AllowSetDesktopSize => final(out)@ == old(out)@ && final(self).set_desktop_size_allowed,
                WriteEvent::UpdateRequest { incremental, size } => match area_message_bytes(3, incremental, 0, 0, size) {
                    Ok(b) => r == Ok::<Option<Vec<u8>>, WriteError>(None) && final(out)@ == old(out)@ + b,
                    Err(e) => r == Err::<Option<Vec<u8>>, WriteError>(e),
                },
                WriteEvent::EnableContinuousUpdates { on, x, y, size } => match area_message_bytes(150, on, x, y, size) {
                    Ok(b) => r == Ok::<Option<Vec<u8>>, WriteError>(None) && final(out)@ == old(out)@ + b,
                    Err(e) => r == Err::<Option<Vec<u8>>, WriteError>(e),
                },
                WriteEvent::Fence { flags, payload } => r == Ok::<Option<Vec<u8>>, WriteError>(None) && final(out)@ == old(
                    out,
                )@ + fence_bytes(flags, payload@),
                WriteEvent::Heartbeat => r == Ok::<Option<Vec<u8>>, WriteError>(None) && final(out)@ == old(out)@,
            },
    {
        match event {
            WriteEvent::Pointer { state, x, y } => {
                write_pointer_event(out, state, x as u16, y as u16);
                Ok(None)
            },
            WriteEvent::RelativePointer { state, dx, dy } => {
                let state_changed = self.previous_mouse_state != state;
                self.previous_mouse_state = state;
                if dx != 0 || dy != 0 || state_changed {
                    Ok(Some(mouse_datagram(state, dx, dy)))
                } else {
                    Ok(None)
                }
            },
            WriteEvent::Keyboard { key, down } => {
                write_key_event(out, down, key);
                Ok(None)
            },
            WriteEvent::Resized(size) => {
                if self.set_desktop_size_allowed {
                    write_set_desktop_size(out, size, self.screen_layout.0, &self.screen_layout.1);
                }
                Ok(None)
            },
            WriteEvent::SetEncodingQuality(q) => {
                write_set_encodings(out, q)?;
                Ok(None)
            },
            WriteEvent::SetScreenLayout(count, records) => {
                self.screen_layout = (count, records);
                Ok(None)
            },
            WriteEvent::AllowSetDesktopSize => {
                self.set_desktop_size_allowed = true;
                Ok(None)
            },
            WriteEvent::UpdateRequest { incremental, size } => {
                write_area_message(out, 3, incremental, 0, 0, size)?;
                Ok(None)
            },
            WriteEvent::EnableContinuousUpdates { on, x, y, size } => {
                write_area_message(out, 150, on, x, y, size)?;
                Ok(None)
            },
            WriteEvent::Fence { flags, payload } => {
                write_fence(out, flags, &payload);
                Ok(None)
            },
            WriteEvent::Heartbeat => Ok(None),
        }
    }
}

} // verus!
