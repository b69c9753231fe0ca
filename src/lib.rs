//! A remote framebuffer (RFB/VNC) client core: the wire codec, the
//! framebuffer and its decoders, and the session's decision logic.
//!
//! - `parsing`, `primitive`, `rfb`, `server`: fields and messages, each
//!   readable and writable, with the round-trip law proved once per
//!   combinator.
//! - `framebuffer`, `decoding`, `zlib`, `master`: the framebuffer and the
//!   jobs that paint it, each compressed job on its own zlib stream.
//! - `session`, `write_end`, `menu`, `throttle`, `mode_lock`: what the session
//!   reads, sends, and decides.
//! - `cursor`, `bit_buffer`, `thread_pool`, `view`, `result`: supporting types.

pub mod result;
pub mod parsing;
pub mod primitive;
pub mod rfb;
pub mod server;
pub mod framebuffer;
pub mod cursor;
pub mod bit_buffer;
pub mod zlib;
pub mod decoding;
pub mod master;
pub mod mode_lock;
pub mod throttle;
pub mod session;
pub mod write_end;
pub mod menu;
pub mod thread_pool;
pub mod view;
pub mod input;
pub mod io_input;
