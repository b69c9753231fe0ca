//! The RFB 3.8 messages that this client reads and writes.
use vstd::prelude::*;
use crate::parsing::{Conversion, Parser, Parsed, Predicate, Written};
use crate::primitive::{i32_be, ignored, length, prefix_len_array, u16_be, u8_bool, u8p, conv, Conv, Dep, Ignored, I32Be, write_items, Sequence, ToBool, ToLength, U16Be, U32Be, U8, Array, u32_be};
use crate::result::{ParseError, WriteError};
use std::marker::PhantomData;

verus! {

pub const PROTOCOL_VERSION_LEN: usize = 12;

pub const SEC_TYPE_NONE: u8 = 1;

pub const SEC_TYPE_VNC: u8 = 2;

pub const SEC_TYPE_TIGHT: u8 = 16;

pub const SEC_RESULT_OK: u32 = 0;

pub const SEC_RESULT_FAILED: u32 = 1;

pub const ENCODING_RAW: i32 = 0;

pub const ENCODING_TIGHT: i32 = 7;

pub const ENCODING_WORST_JPEG_QUALITY: i32 = -512;

pub const ENCODING_BEST_JPEG_QUALITY: i32 = -412;

pub const ENCODING_COMPRESSION_LEVEL_0: i32 = -256;

pub const ENCODING_CHROMA_SUBSAMPLING_1X: i32 = -768;

pub const ENCODING_CHROMA_SUBSAMPLING_2X: i32 = -766;

pub const ENCODING_CHROMA_SUBSAMPLING_4X: i32 = -767;

pub const ENCODING_DESKTOP_SIZE: i32 = -223;

pub const ENCODING_CURSOR: i32 = -239;

pub const ENCODING_EXTENDED_DESKTOP_SIZE: i32 = -308;

pub const ENCODING_LAST_RECT: i32 = -224;

pub const ENCODING_CONTINUOUS_UPDATES: i32 = -313;

pub const ENCODING_FENCE: i32 = -312;

pub const EXTENDED_DESKTOP_NO_ERROR: usize = 0;

pub const FENCE_BLOCK_BEFORE: u32 = 1;

pub const FENCE_BLOCK_AFTER: u32 = 2;

pub const FENCE_SYNC_NEXT: u32 = 4;

pub const FENCE_REQUEST: u32 = 0x80000000;

/// The largest number that a compact length can carry.
pub const COMPACT_LENGTH_MAX: usize = 4194303;

pub open spec fn spec_is_security_type(n: u8) -> bool {
    n == SEC_TYPE_NONE || n == SEC_TYPE_VNC || n == SEC_TYPE_TIGHT
}

pub fn is_security_type(n: u8) -> (r: bool)
    ensures
        r == spec_is_security_type(n),
{
    n == SEC_TYPE_NONE || n == SEC_TYPE_VNC || n == SEC_TYPE_TIGHT
}

/// Holds of the security types that this client knows.
pub struct SecurityType;

impl Predicate<u8> for SecurityType {
    open spec fn holds(&self, v: u8) -> bool {
        spec_is_security_type(v)
    }

    fn test(&self, v: &u8) -> (r: bool) {
        is_security_type(*v)
    }
}

/// The value of a compact length, from its first one to three bytes: seven
/// bits from each of the first two bytes, least significant first, and all
/// eight of the third.
pub open spec fn compact_value(input: Seq<u8>, pos: int) -> Parsed<usize> {
    if pos + 1 > input.len() {
        Err((ParseError::IoError, pos))
    } else if input[pos] < 128 {
        Ok((input[pos] as usize, pos + 1))
    } else if pos + 2 > input.len() {
        Err((ParseError::IoError, pos + 1))
    } else if input[pos + 1] < 128 {
        Ok(((input[pos] % 128 + input[pos + 1] * 128) as usize, pos + 2))
    } else if pos + 3 > input.len() {
        Err((ParseError::IoError, pos + 2))
    } else {
        Ok(((input[pos] % 128 + (input[pos + 1] % 128) * 128 + input[pos + 2] * 16384) as usize, pos + 3))
    }
}

/// The bytes of a compact length.
pub open spec fn compact_bytes(v: usize) -> Written {
    if v > COMPACT_LENGTH_MAX {
        Err(WriteError::PredicateFailed("number too large"))
    } else if v > 16383 {
        Ok(seq![(v % 128 + 128) as u8, ((v / 128) % 128 + 128) as u8, (v / 16384) as u8])
    } else if v > 127 {
        Ok(seq![(v % 128 + 128) as u8, (v / 128) as u8])
    } else {
        Ok(seq![v as u8])
    }
}

/// A length of one to three bytes (see `compact_value`).
pub struct CompactLength;

impl Parser for CompactLength {
    type T = usize;

    open spec fn spec_parse(&self, input: Seq<u8>, pos: int) -> Parsed<usize> {
        compact_value(input, pos)
    }

    open spec fn spec_write(&self, v: usize) -> Written {
        compact_bytes(v)
    }

    open spec fn valid(&self, v: usize) -> bool {
        v <= COMPACT_LENGTH_MAX
    }

    fn parse(&self, input: &[u8], pos: usize) -> (r: Result<(usize, usize), (ParseError, usize)>) {
        let rest = input.len() - pos;
        if rest < 1 {
            return Err((ParseError::IoError, pos));
        }
        let b0 = input[pos];
        if b0 < 128 {
            return Ok((b0 as usize, pos + 1));
        }
        if rest < 2 {
            return Err((ParseError::IoError, pos + 1));
        }
        let b1 = input[pos + 1];
        if b1 < 128 {
            return Ok(((b0 % 128) as usize + (b1 as usize) * 128, pos + 2));
        }
        if rest < 3 {
            return Err((ParseError::IoError, pos + 2));
        }
        let b2 = input[pos + 2];
        Ok(((b0 % 128) as usize + ((b1 % 128) as usize) * 128 + (b2 as usize) * 16384, pos + 3))
    }

    fn write(&self, out: &mut Vec<u8>, v: &usize) -> (r: Result<(), WriteError>) {
        let v = *v;
        if v > COMPACT_LENGTH_MAX {
            Err(WriteError::PredicateFailed("number too large"))
        } else if v > 16383 {
            out.push((v % 128 + 128) as u8);
            out.push(((v / 128) % 128 + 128) as u8);
            out.push((v / 16384) as u8);
            assert(final(out)@ =~= old(out)@ + compact_bytes(v)->Ok_0);
            Ok(())
        } else if v > 127 {
            out.push((v % 128 + 128) as u8);
            out.push((v / 128) as u8);
            assert(final(out)@ =~= old(out)@ + compact_bytes(v)->Ok_0);
            Ok(())
        } else {
            out.push(v as u8);
            assert(final(out)@ =~= old(out)@ + compact_bytes(v)->Ok_0);
            Ok(())
        }
    }

    proof fn lemma_round_trip(&self, v: usize, input: Seq<u8>, pos: int) {
        let b = compact_bytes(v)->Ok_0;
        let s = input.subrange(pos, pos + b.len());
        assert forall|i: int| 0 <= i < b.len() implies input[pos + i] == b[i] by {
            assert(s[i] == input[pos + i]);
        }
        let x = v as int;
        if v > 16383 {
            let (a, b, c) = (input[pos] as int, input[pos + 1] as int, input[pos + 2] as int);
            assert(a == x % 128 + 128 && b == (x / 128) % 128 + 128 && c == x / 16384);
            assert(a % 128 == x % 128);
            assert(b % 128 == (x / 128) % 128);
            assert(x == (x % 128) + ((x / 128) % 128) * 128 + (x / 16384) * 16384) by (nonlinear_arith);
            assert(input[pos] >= 128);
            assert(input[pos + 1] >= 128);
            assert(pos + 3 <= input.len());
            assert(a % 128 + (b % 128) * 128 + c * 16384 == x);
            assert(compact_value(input, pos) == Parsed::Ok((v, pos + 3)));
        } else if v > 127 {
            let (a, b) = (input[pos] as int, input[pos + 1] as int);
            assert(a == x % 128 + 128 && b == x / 128);
            assert(a % 128 == x % 128);
            assert(x == (x % 128) + (x / 128) * 128) by (nonlinear_arith);
            assert(input[pos + 1] < 128);
            assert(compact_value(input, pos) == Parsed::Ok((v, pos + 2)));
        } else {
            assert(s[0] == input[pos]);
            assert(compact_value(input, pos) == Parsed::Ok((v, pos + 1)));
        }
    }
}

pub fn compact_length() -> (r: CompactLength) {
    CompactLength
}

/// Every length up to `COMPACT_LENGTH_MAX` is written and read back
/// unchanged; every larger one is refused on writing as "number too large".
pub proof fn lemma_compact_length_bounds(v: usize, rest: Seq<u8>)
    ensures
        v <= COMPACT_LENGTH_MAX ==> compact_bytes(v) is Ok && compact_value(compact_bytes(v)->Ok_0 + rest, 0)
            == Parsed::Ok((v, compact_bytes(v)->Ok_0.len() as int)),
        v > COMPACT_LENGTH_MAX ==> compact_bytes(v) == Written::Err(WriteError::PredicateFailed("number too large")),
{
    if v <= COMPACT_LENGTH_MAX {
        let b = compact_bytes(v)->Ok_0;
        let input = b + rest;
        assert(input.subrange(0, b.len() as int) =~= b);
        CompactLength.lemma_round_trip(v, input, 0);
    }
}

/// The pixel layout of a framebuffer as the server sends it.
#[derive(Clone, Copy, Debug, PartialEq, Eq)]
pub struct PixelFormat {
    pub bits_per_pixel: u8,
    pub depth: u8,
    pub big_endian: bool,
    pub true_color: bool,
    pub red_max: u16,
    pub green_max: u16,
    pub blue_max: u16,
    pub red_shift: u8,
    pub green_shift: u8,
    pub blue_shift: u8,
}

impl DeepView for PixelFormat {
    type V = PixelFormat;

    open spec fn deep_view(&self) -> PixelFormat {
        *self
    }
}

/// Builds a `PixelFormat` from its fields in wire order.
pub struct PixelFormatFields;

impl Conversion<(u8, (u8, (bool, (bool, (u16, (u16, (u16, (u8, (u8, (u8, ())))))))))), PixelFormat> for PixelFormatFields {
    open spec fn spec_to(&self, t: (u8, (u8, (bool, (bool, (u16, (u16, (u16, (u8, (u8, (u8, ()))))))))))) -> PixelFormat {
        PixelFormat { bits_per_pixel: t.0, depth: t.1.0, big_endian: t.1.1.0, true_color: t.1.1.1.0, red_max: t.1.1.1.1.0, green_max: t.1.1.1.1.1.0, blue_max: t.1.1.1.1.1.1.0, red_shift: t.1.1.1.1.1.1.1.0, green_shift: t.1.1.1.1.1.1.1.1.0, blue_shift: t.1.1.1.1.1.1.1.1.1.0 }
    }

    open spec fn spec_back(&self, b: PixelFormat) -> Result<(u8, (u8, (bool, (bool, (u16, (u16, (u16, (u8, (u8, (u8, ())))))))))), WriteError> {
        Ok((b.bits_per_pixel, (b.depth, (b.big_endian, (b.true_color, (b.red_max, (b.green_max, (b.blue_max, (b.red_shift, (b.green_shift, (b.blue_shift, ())))))))))))
    }

    open spec fn valid(&self, b: PixelFormat) -> bool {
        true
    }

    fn to(&self, t: (u8, (u8, (bool, (bool, (u16, (u16, (u16, (u8, (u8, (u8, ()))))))))))) -> (r: PixelFormat) {
        PixelFormat { bits_per_pixel: t.0, depth: t.1.0, big_endian: t.1.1.0, true_color: t.1.1.1.0, red_max: t.1.1.1.1.0, green_max: t.1.1.1.1.1.0, blue_max: t.1.1.1.1.1.1.0, red_shift: t.1.1.1.1.1.1.1.0, green_shift: t.1.1.1.1.1.1.1.1.0, blue_shift: t.1.1.1.1.1.1.1.1.1.0 }
    }

    fn back(&self, b: &PixelFormat) -> (r: Result<(u8, (u8, (bool, (bool, (u16, (u16, (u16, (u8, (u8, (u8, ())))))))))), WriteError>) {
        Ok((b.bits_per_pixel, (b.depth, (b.big_endian, (b.true_color, (b.red_max, (b.green_max, (b.blue_max, (b.red_shift, (b.green_shift, (b.blue_shift, ())))))))))))
    }

    proof fn lemma_inverse(&self, b: PixelFormat) {
    }
}

pub type PixelFormatParser = Conv<Sequence<U8, Sequence<U8, Sequence<Conv<U8, ToBool, bool>, Sequence<Conv<U8, ToBool, bool>, Sequence<U16Be, Sequence<U16Be, Sequence<U16Be, Sequence<U8, Sequence<U8, Sequence<U8, Ignored>>>>>>>>>>, PixelFormatFields, PixelFormat>;

impl PixelFormat {
    pub open spec fn spec_parser() -> PixelFormatParser {
        Conv { p: Sequence { p1: U8, p2: Sequence { p1: U8, p2: Sequence { p1: Conv { p: U8, c: ToBool, u: PhantomData }, p2: Sequence { p1: Conv { p: U8, c: ToBool, u: PhantomData }, p2: Sequence { p1: U16Be, p2: Sequence { p1: U16Be, p2: Sequence { p1: U16Be, p2: Sequence { p1: U8, p2: Sequence { p1: U8, p2: Sequence { p1: U8, p2: Ignored { len: 3 } } } } } } } } } } }, c: PixelFormatFields, u: PhantomData }
    }

    pub fn parser() -> (r: PixelFormatParser)
        ensures
            r == Self::spec_parser(),
    {
        conv(crate::primitive::seq(u8p(), crate::primitive::seq(u8p(), crate::primitive::seq(u8_bool(), crate::primitive::seq(u8_bool(), crate::primitive::seq(u16_be(), crate::primitive::seq(u16_be(), crate::primitive::seq(u16_be(), crate::primitive::seq(u8p(), crate::primitive::seq(u8p(), crate::primitive::seq(u8p(), ignored(3))))))))))), PixelFormatFields)
    }
}

/// A three-byte RGB pixel inside a Tight payload.
#[derive(Clone, Copy, Debug, PartialEq, Eq)]
pub struct TPixel {
    pub r: u8,
    pub g: u8,
    pub b: u8,
}

impl DeepView for TPixel {
    type V = TPixel;

    open spec fn deep_view(&self) -> TPixel {
        *self
    }
}

/// Builds a `TPixel` from its fields in wire order.
pub struct TPixelFields;

impl Conversion<(u8, (u8, (u8, ()))), TPixel> for TPixelFields {
    open spec fn spec_to(&self, t: (u8, (u8, (u8, ())))) -> TPixel {
        TPixel { r: t.0, g: t.1.0, b: t.1.1.0 }
    }

    open spec fn spec_back(&self, b: TPixel) -> Result<(u8, (u8, (u8, ()))), WriteError> {
        Ok((b.r, (b.g, (b.b, ()))))
    }

    open spec fn valid(&self, b: TPixel) -> bool {
        true
    }

    fn to(&self, t: (u8, (u8, (u8, ())))) -> (r: TPixel) {
        TPixel { r: t.0, g: t.1.0, b: t.1.1.0 }
    }

    fn back(&self, b: &TPixel) -> (r: Result<(u8, (u8, (u8, ()))), WriteError>) {
        Ok((b.r, (b.g, (b.b, ()))))
    }

    proof fn lemma_inverse(&self, b: TPixel) {
    }
}

pub type TPixelParser = Conv<Sequence<U8, Sequence<U8, Sequence<U8, Ignored>>>, TPixelFields, TPixel>;

impl TPixel {
    pub open spec fn spec_parser() -> TPixelParser {
        Conv { p: Sequence { p1: U8, p2: Sequence { p1: U8, p2: Sequence { p1: U8, p2: Ignored { len: 0 } } } }, c: TPixelFields, u: PhantomData }
    }

    pub fn parser() -> (r: TPixelParser)
        ensures
            r == Self::spec_parser(),
    {
        conv(crate::primitive::seq(u8p(), crate::primitive::seq(u8p(), crate::primitive::seq(u8p(), ignored(0)))), TPixelFields)
    }
}

/// The position, size and encoding that precede each rectangle of an update.
#[derive(Clone, Copy, Debug, PartialEq, Eq)]
pub struct RectangleHeader {
    pub x: usize,
    pub y: usize,
    pub width: usize,
    pub height: usize,
    pub encoding: i32,
}

impl DeepView for RectangleHeader {
    type V = RectangleHeader;

    open spec fn deep_view(&self) -> RectangleHeader {
        *self
    }
}

/// Builds a `RectangleHeader` from its fields in wire order.
pub struct RectangleHeaderFields;

impl Conversion<(usize, (usize, (usize, (usize, i32)))), RectangleHeader> for RectangleHeaderFields {
    open spec fn spec_to(&self, t: (usize, (usize, (usize, (usize, i32))))) -> RectangleHeader {
        RectangleHeader { x: t.0, y: t.1.0, width: t.1.1.0, height: t.1.1.1.0, encoding: t.1.1.1.1 }
    }

    open spec fn spec_back(&self, b: RectangleHeader) -> Result<(usize, (usize, (usize, (usize, i32)))), WriteError> {
        Ok((b.x, (b.y, (b.width, (b.height, b.encoding)))))
    }

    open spec fn valid(&self, b: RectangleHeader) -> bool {
        true
    }

    fn to(&self, t: (usize, (usize, (usize, (usize, i32))))) -> (r: RectangleHeader) {
        RectangleHeader { x: t.0, y: t.1.0, width: t.1.1.0, height: t.1.1.1.0, encoding: t.1.1.1.1 }
    }

    fn back(&self, b: &RectangleHeader) -> (r: Result<(usize, (usize, (usize, (usize, i32)))), WriteError>) {
        Ok((b.x, (b.y, (b.width, (b.height, b.encoding)))))
    }

    proof fn lemma_inverse(&self, b: RectangleHeader) {
    }
}

pub type RectangleHeaderParser = Conv<Sequence<Conv<U16Be, ToLength<u16>, usize>, Sequence<Conv<U16Be, ToLength<u16>, usize>, Sequence<Conv<U16Be, ToLength<u16>, usize>, Sequence<Conv<U16Be, ToLength<u16>, usize>, I32Be>>>>, RectangleHeaderFields, RectangleHeader>;

impl RectangleHeader {
    pub open spec fn spec_parser() -> RectangleHeaderParser {
        Conv { p: Sequence { p1: Conv { p: U16Be, c: ToLength { l: PhantomData }, u: PhantomData }, p2: Sequence { p1: Conv { p: U16Be, c: ToLength { l: PhantomData }, u: PhantomData }, p2: Sequence { p1: Conv { p: U16Be, c: ToLength { l: PhantomData }, u: PhantomData }, p2: Sequence { p1: Conv { p: U16Be, c: ToLength { l: PhantomData }, u: PhantomData }, p2: I32Be } } } }, c: RectangleHeaderFields, u: PhantomData }
    }

    pub fn parser() -> (r: RectangleHeaderParser)
        ensures
            r == Self::spec_parser(),
    {
        conv(crate::primitive::seq(length(u16_be()), crate::primitive::seq(length(u16_be()), crate::primitive::seq(length(u16_be()), crate::primitive::seq(length(u16_be()), i32_be())))), RectangleHeaderFields)
    }
}

/// A request for the contents of an area of the framebuffer.
#[derive(Clone, Copy, Debug, PartialEq, Eq)]
pub struct FramebufferUpdateRequest {
    pub incremental: bool,
    pub x: usize,
    pub y: usize,
    pub width: usize,
    pub height: usize,
}

impl DeepView for FramebufferUpdateRequest {
    type V = FramebufferUpdateRequest;

    open spec fn deep_view(&self) -> FramebufferUpdateRequest {
        *self
    }
}

/// Builds a `FramebufferUpdateRequest` from its fields in wire order.
pub struct FramebufferUpdateRequestFields;

impl Conversion<(bool, (usize, (usize, (usize, usize)))), FramebufferUpdateRequest> for FramebufferUpdateRequestFields {
    open spec fn spec_to(&self, t: (bool, (usize, (usize, (usize, usize))))) -> FramebufferUpdateRequest {
        FramebufferUpdateRequest { incremental: t.0, x: t.1.0, y: t.1.1.0, width: t.1.1.1.0, height: t.1.1.1.1 }
    }

    open spec fn spec_back(&self, b: FramebufferUpdateRequest) -> Result<(bool, (usize, (usize, (usize, usize)))), WriteError> {
        Ok((b.incremental, (b.x, (b.y, (b.width, b.height)))))
    }

    open spec fn valid(&self, b: FramebufferUpdateRequest) -> bool {
        true
    }

    fn to(&self, t: (bool, (usize, (usize, (usize, usize))))) -> (r: FramebufferUpdateRequest) {
        FramebufferUpdateRequest { incremental: t.0, x: t.1.0, y: t.1.1.0, width: t.1.1.1.0, height: t.1.1.1.1 }
    }

    fn back(&self, b: &FramebufferUpdateRequest) -> (r: Result<(bool, (usize, (usize, (usize, usize)))), WriteError>) {
        Ok((b.incremental, (b.x, (b.y, (b.width, b.height)))))
    }

    proof fn lemma_inverse(&self, b: FramebufferUpdateRequest) {
    }
}

pub type FramebufferUpdateRequestParser = Conv<Sequence<Conv<U8, ToBool, bool>, Sequence<Conv<U16Be, ToLength<u16>, usize>, Sequence<Conv<U16Be, ToLength<u16>, usize>, Sequence<Conv<U16Be, ToLength<u16>, usize>, Conv<U16Be, ToLength<u16>, usize>>>>>, FramebufferUpdateRequestFields, FramebufferUpdateRequest>;

impl FramebufferUpdateRequest {
    pub open spec fn spec_parser() -> FramebufferUpdateRequestParser {
        Conv { p: Sequence { p1: Conv { p: U8, c: ToBool, u: PhantomData }, p2: Sequence { p1: Conv { p: U16Be, c: ToLength { l: PhantomData }, u: PhantomData }, p2: Sequence { p1: Conv { p: U16Be, c: ToLength { l: PhantomData }, u: PhantomData }, p2: Sequence { p1: Conv { p: U16Be, c: ToLength { l: PhantomData }, u: PhantomData }, p2: Conv { p: U16Be, c: ToLength { l: PhantomData }, u: PhantomData } } } } }, c: FramebufferUpdateRequestFields, u: PhantomData }
    }

    pub fn parser() -> (r: FramebufferUpdateRequestParser)
        ensures
            r == Self::spec_parser(),
    {
        conv(crate::primitive::seq(u8_bool(), crate::primitive::seq(length(u16_be()), crate::primitive::seq(length(u16_be()), crate::primitive::seq(length(u16_be()), length(u16_be()))))), FramebufferUpdateRequestFields)
    }
}

/// A key press or release.
#[derive(Clone, Copy, Debug, PartialEq, Eq)]
pub struct KeyEvent {
    pub down: bool,
    pub key: u32,
}

impl DeepView for KeyEvent {
    type V = KeyEvent;

    open spec fn deep_view(&self) -> KeyEvent {
        *self
    }
}

/// Builds a `KeyEvent` from its fields in wire order.
pub struct KeyEventFields;

impl Conversion<(bool, ((), u32)), KeyEvent> for KeyEventFields {
    open spec fn spec_to(&self, t: (bool, ((), u32))) -> KeyEvent {
        KeyEvent { down: t.0, key: t.1.1 }
    }

    open spec fn spec_back(&self, b: KeyEvent) -> Result<(bool, ((), u32)), WriteError> {
        Ok((b.down, ((), b.key)))
    }

    open spec fn valid(&self, b: KeyEvent) -> bool {
        true
    }

    fn to(&self, t: (bool, ((), u32))) -> (r: KeyEvent) {
        KeyEvent { down: t.0, key: t.1.1 }
    }

    fn back(&self, b: &KeyEvent) -> (r: Result<(bool, ((), u32)), WriteError>) {
        Ok((b.down, ((), b.key)))
    }

    proof fn lemma_inverse(&self, b: KeyEvent) {
    }
}

pub type KeyEventParser = Conv<Sequence<Conv<U8, ToBool, bool>, Sequence<Ignored, U32Be>>, KeyEventFields, KeyEvent>;

impl KeyEvent {
    pub open spec fn spec_parser() -> KeyEventParser {
        Conv { p: Sequence { p1: Conv { p: U8, c: ToBool, u: PhantomData }, p2: Sequence { p1: Ignored { len: 2 }, p2: U32Be } }, c: KeyEventFields, u: PhantomData }
    }

    pub fn parser() -> (r: KeyEventParser)
        ensures
            r == Self::spec_parser(),
    {
        conv(crate::primitive::seq(u8_bool(), crate::primitive::seq(ignored(2), u32_be())), KeyEventFields)
    }
}

/// The pointer's button state and position.
#[derive(Clone, Copy, Debug, PartialEq, Eq)]
pub struct PointerEvent {
    pub mask: u8,
    pub x: u16,
    pub y: u16,
}

impl DeepView for PointerEvent {
    type V = PointerEvent;

    open spec fn deep_view(&self) -> PointerEvent {
        *self
    }
}

/// Builds a `PointerEvent` from its fields in wire order.
pub struct PointerEventFields;

impl Conversion<(u8, (u16, u16)), PointerEvent> for PointerEventFields {
    open spec fn spec_to(&self, t: (u8, (u16, u16))) -> PointerEvent {
        PointerEvent { mask: t.0, x: t.1.0, y: t.1.1 }
    }

    open spec fn spec_back(&self, b: PointerEvent) -> Result<(u8, (u16, u16)), WriteError> {
        Ok((b.mask, (b.x, b.y)))
    }

    open spec fn valid(&self, b: PointerEvent) -> bool {
        true
    }

    fn to(&self, t: (u8, (u16, u16))) -> (r: PointerEvent) {
        PointerEvent { mask: t.0, x: t.1.0, y: t.1.1 }
    }

    fn back(&self, b: &PointerEvent) -> (r: Result<(u8, (u16, u16)), WriteError>) {
        Ok((b.mask, (b.x, b.y)))
    }

    proof fn lemma_inverse(&self, b: PointerEvent) {
    }
}

pub type PointerEventParser = Conv<Sequence<U8, Sequence<U16Be, U16Be>>, PointerEventFields, PointerEvent>;

impl PointerEvent {
    pub open spec fn spec_parser() -> PointerEventParser {
        Conv { p: Sequence { p1: U8, p2: Sequence { p1: U16Be, p2: U16Be } }, c: PointerEventFields, u: PhantomData }
    }

    pub fn parser() -> (r: PointerEventParser)
        ensures
            r == Self::spec_parser(),
    {
        conv(crate::primitive::seq(u8p(), crate::primitive::seq(u16_be(), u16_be())), PointerEventFields)
    }
}

/// The start of a framebuffer update: the number of rectangles that follow.
#[derive(Clone, Copy, Debug, PartialEq, Eq)]
pub struct FramebufferUpdate {
    pub no_of_rectangles: u16,
}

impl DeepView for FramebufferUpdate {
    type V = FramebufferUpdate;

    open spec fn deep_view(&self) -> FramebufferUpdate {
        *self
    }
}

/// Builds a `FramebufferUpdate` from its fields in wire order.
pub struct FramebufferUpdateFields;

impl Conversion<((), u16), FramebufferUpdate> for FramebufferUpdateFields {
    open spec fn spec_to(&self, t: ((), u16)) -> FramebufferUpdate {
        FramebufferUpdate { no_of_rectangles: t.1 }
    }

    open spec fn spec_back(&self, b: FramebufferUpdate) -> Result<((), u16), WriteError> {
        Ok(((), b.no_of_rectangles))
    }

    open spec fn valid(&self, b: FramebufferUpdate) -> bool {
        true
    }

    fn to(&self, t: ((), u16)) -> (r: FramebufferUpdate) {
        FramebufferUpdate { no_of_rectangles: t.1 }
    }

    fn back(&self, b: &FramebufferUpdate) -> (r: Result<((), u16), WriteError>) {
        Ok(((), b.no_of_rectangles))
    }

    proof fn lemma_inverse(&self, b: FramebufferUpdate) {
    }
}

pub type FramebufferUpdateParser = Conv<Sequence<Ignored, U16Be>, FramebufferUpdateFields, FramebufferUpdate>;

impl FramebufferUpdate {
    pub open spec fn spec_parser() -> FramebufferUpdateParser {
        Conv { p: Sequence { p1: Ignored { len: 1 }, p2: U16Be }, c: FramebufferUpdateFields, u: PhantomData }
    }

    pub fn parser() -> (r: FramebufferUpdateParser)
        ensures
            r == Self::spec_parser(),
    {
        conv(crate::primitive::seq(ignored(1), u16_be()), FramebufferUpdateFields)
    }
}

/// The security type that the client picks.
#[derive(Clone, Copy, Debug, PartialEq, Eq)]
pub struct SecurityResponse {
    pub sec_type: u8,
}

impl DeepView for SecurityResponse {
    type V = SecurityResponse;

    open spec fn deep_view(&self) -> SecurityResponse {
        *self
    }
}

/// Builds a `SecurityResponse` from its fields in wire order.
pub struct SecurityResponseFields;

impl Conversion<u8, SecurityResponse> for SecurityResponseFields {
    open spec fn spec_to(&self, t: u8) -> SecurityResponse {
        SecurityResponse { sec_type: t }
    }

    open spec fn spec_back(&self, b: SecurityResponse) -> Result<u8, WriteError> {
        Ok(b.sec_type)
    }

    open spec fn valid(&self, b: SecurityResponse) -> bool {
        true
    }

    fn to(&self, t: u8) -> (r: SecurityResponse) {
        SecurityResponse { sec_type: t }
    }

    fn back(&self, b: &SecurityResponse) -> (r: Result<u8, WriteError>) {
        Ok(b.sec_type)
    }

    proof fn lemma_inverse(&self, b: SecurityResponse) {
    }
}

pub type SecurityResponseParser = Conv<U8, SecurityResponseFields, SecurityResponse>;

impl SecurityResponse {
    pub open spec fn spec_parser() -> SecurityResponseParser {
        Conv { p: U8, c: SecurityResponseFields, u: PhantomData }
    }

    pub fn parser() -> (r: SecurityResponseParser)
        ensures
            r == Self::spec_parser(),
    {
        conv(u8p(), SecurityResponseFields)
    }
}

/// The encodings that the client accepts, in order of preference.
#[derive(Debug, PartialEq, Eq)]
pub struct SetEncodings {
    pub encodings: Vec<i32>,
}

impl DeepView for SetEncodings {
    type V = Seq<i32>;

    open spec fn deep_view(&self) -> Seq<i32> {
        self.encodings.deep_view()
    }
}

/// Builds a `SetEncodings` from its fields in wire order.
pub struct SetEncodingsFields;

impl Conversion<((), Vec<i32>), SetEncodings> for SetEncodingsFields {
    open spec fn spec_to(&self, t: ((), Seq<i32>)) -> Seq<i32> {
        t.1
    }

    open spec fn spec_back(&self, b: Seq<i32>) -> Result<((), Seq<i32>), WriteError> {
        Ok(((), b))
    }

    open spec fn valid(&self, b: Seq<i32>) -> bool {
        true
    }

    fn to(&self, t: ((), Vec<i32>)) -> (r: SetEncodings) {
        SetEncodings { encodings: t.1 }
    }

    fn back(&self, b: &SetEncodings) -> (r: Result<((), Vec<i32>), WriteError>) {
        let copy = b.encodings.clone();
        assert(copy.deep_view() =~= b.encodings.deep_view());
        Ok(((), copy))
    }

    proof fn lemma_inverse(&self, b: Seq<i32>) {
    }
}

pub type SetEncodingsParser = Conv<
    Sequence<Ignored, Dep<Conv<U16Be, ToLength<u16>, usize>, Array<I32Be>>>,
    SetEncodingsFields,
    SetEncodings,
>;

impl SetEncodings {
    pub open spec fn spec_parser() -> SetEncodingsParser {
        Conv {
            p: Sequence {
                p1: Ignored { len: 1 },
                p2: Dep {
                    p1: Conv { p: U16Be, c: ToLength { l: PhantomData }, u: PhantomData },
                    p2: Array { p: I32Be },
                },
            },
            c: SetEncodingsFields,
            u: PhantomData,
        }
    }

    pub fn parser() -> (r: SetEncodingsParser)
        ensures
            r == Self::spec_parser(),
    {
        conv(crate::primitive::seq(ignored(1), prefix_len_array(u16_be(), i32_be())), SetEncodingsFields)
    }
}

/// A pixel format is written as sixteen bytes and read back unchanged.
pub proof fn lemma_pixel_format_round_trip(v: PixelFormat, rest: Seq<u8>)
    ensures
        PixelFormat::spec_parser().spec_write(v) is Ok,
        PixelFormat::spec_parser().spec_write(v)->Ok_0.len() == 16,
        PixelFormat::spec_parser().spec_write(v)->Ok_0.subrange(13, 16) == seq![0u8, 0u8, 0u8],
        PixelFormat::spec_parser().spec_parse(PixelFormat::spec_parser().spec_write(v)->Ok_0 + rest, 0)
            == Parsed::Ok((v, 16)),
{
    let p = PixelFormat::spec_parser();
    crate::parsing::lemma_write_then_parse(p, v, rest);
    let w = p.spec_write(v)->Ok_0;
    assert(w[13] == 0 && w[14] == 0 && w[15] == 0);
    assert(w.subrange(13, 16) =~= seq![0u8, 0u8, 0u8]);
}

/// A rectangle header whose position and size fit in 16 bits is written as
/// twelve bytes and read back unchanged.
pub proof fn lemma_rectangle_header_round_trip(v: RectangleHeader, rest: Seq<u8>)
    requires
        v.x <= u16::MAX,
        v.y <= u16::MAX,
        v.width <= u16::MAX,
        v.height <= u16::MAX,
    ensures
        RectangleHeader::spec_parser().spec_write(v) is Ok,
        RectangleHeader::spec_parser().spec_write(v)->Ok_0.len() == 12,
        RectangleHeader::spec_parser().spec_parse(RectangleHeader::spec_parser().spec_write(v)->Ok_0 + rest, 0)
            == Parsed::Ok((v, 12)),
{
    let p = RectangleHeader::spec_parser();
    crate::parsing::lemma_write_then_parse(p, v, rest);
}

/// A list of up to 65535 encodings is written as three bytes and four per
/// encoding, and read back unchanged.
pub proof fn lemma_set_encodings_round_trip(v: Seq<i32>, rest: Seq<u8>)
    requires
        v.len() <= u16::MAX,
    ensures
        SetEncodings::spec_parser().spec_write(v) is Ok,
        SetEncodings::spec_parser().spec_write(v)->Ok_0.len() == 3 + 4 * v.len(),
        SetEncodings::spec_parser().spec_parse(SetEncodings::spec_parser().spec_write(v)->Ok_0 + rest, 0)
            == Parsed::Ok((v, 3 + 4 * v.len() as int)),
{
    let p = SetEncodings::spec_parser();
    lemma_write_i32_items(v);
    crate::parsing::lemma_write_then_parse(p, v, rest);
}

proof fn lemma_write_i32_items(v: Seq<i32>)
    ensures
        write_items(I32Be, v) is Ok,
        write_items(I32Be, v)->Ok_0.len() == 4 * v.len(),
    decreases v.len(),
{
    if v.len() > 0 {
        lemma_write_i32_items(v.drop_last());
    }
}

} // verus!
