//! The messages a server sends: the handshake, and the messages of a
//! running session.
use vstd::prelude::*;
use crate::parsing::{ParameterizedParser, Parser, Parsed};
use crate::primitive::{
    array, dep, length, non_zero, pred, prefix_len_array, u32_be, u8p, utf8, utf8_decoded, Array, Conv, Dep, NonZero, Pred,
    ToLength, Utf8, U32Be, U8, U16Be,
};
use crate::result::ParseError;
use crate::rfb::{PixelFormat, SecurityType, SEC_TYPE_NONE};
use std::marker::PhantomData;

verus! {

/// "RFB 003.008\n", the only protocol version this client speaks.
pub open spec fn version_bytes() -> Seq<u8> {
    seq![0x52u8, 0x46u8, 0x42u8, 0x20u8, 0x30u8, 0x30u8, 0x33u8, 0x2eu8, 0x30u8, 0x30u8, 0x38u8, 0x0au8]
}

/// Checks the server's protocol version line, twelve bytes at `pos`.
pub fn parse_protocol_version(input: &[u8], pos: usize) -> (r: Result<usize, (ParseError, usize)>)
    requires
        pos <= input@.len(),
    ensures
        pos + 12 > input@.len() ==> r == Err::<usize, (ParseError, usize)>((ParseError::IoError, pos)),
        pos + 12 <= input@.len() ==> {
            let b = input@.subrange(pos as int, pos + 12);
            &&& utf8_decoded(b) is None ==> r == Err::<usize, (ParseError, usize)>((ParseError::EncodingError, pos))
            &&& utf8_decoded(b) is Some && b == version_bytes() ==> r == Ok::<usize, (ParseError, usize)>((pos + 12) as usize)
            &&& utf8_decoded(b) is Some && b != version_bytes() ==> r == Err::<usize, (ParseError, usize)>(
                (ParseError::PredicateFailed("should be RFB version 3.8"), pos),
            )
            &&& (forall|k: int| 0 <= k < 12 ==> #[trigger] b[k] < 128) ==> utf8_decoded(b) is Some
        },
{
    if 12 > input.len() - pos {
        return Err((ParseError::IoError, pos));
    }
    let bytes = crate::primitive::copy_bytes(input, pos, 12);
    match crate::primitive::decode_utf8(bytes) {
        None => {
            return Err((ParseError::EncodingError, pos));
        },
        Some(_) => {},
    }
    let expected: [u8; 12] = [0x52, 0x46, 0x42, 0x20, 0x30, 0x30, 0x33, 0x2e, 0x30, 0x30, 0x38, 0x0a];
    let total = input.len();
    let mut i: usize = 0;
    while i < 12
        invariant
            total == input@.len(),
            utf8_decoded(input@.subrange(pos as int, pos + 12)) is Some,
            i <= 12,
            pos + 12 <= input@.len(),
            expected@ == version_bytes(),
            forall|k: int| 0 <= k < i ==> input@[pos + k] == version_bytes()[k],
        decreases 12 - i,
    {
        if input[pos + i] != expected[i] {
            proof {
                assert(input@.subrange(pos as int, pos + 12)[i as int] != version_bytes()[i as int]);
                assert(input@.subrange(pos as int, pos + 12) != version_bytes());
            }
            return Err((ParseError::PredicateFailed("should be RFB version 3.8"), pos));
        }
        i = i + 1;
    }
    assert(input@.subrange(pos as int, pos + 12) =~= version_bytes());
    Ok(pos + 12)
}

/// The security types a server offers, or why it refuses the connection.
pub enum SecurityTypes {
    Types(Vec<u8>),
    ErrorReason(String),
}

/// What a `SecurityTypes` message holds.
pub enum SecurityTypesView {
    Types(Seq<u8>),
    ErrorReason(Seq<char>),
}

pub open spec fn security_types_view(t: SecurityTypes) -> SecurityTypesView {
    match t {
        SecurityTypes::Types(v) => SecurityTypesView::Types(v@),
        SecurityTypes::ErrorReason(s) => SecurityTypesView::ErrorReason(s@),
    }
}

pub type SecurityTypesParser = Dep<Conv<Pred<U8, NonZero>, ToLength<u8>, usize>, Array<Pred<U8, SecurityType>>>;

pub type ErrorReasonParser = Dep<Conv<U32Be, ToLength<u32>, usize>, Utf8>;

/// A text preceded by its length in bytes as a 32-bit number.
pub open spec fn reason_parser() -> ErrorReasonParser {
    Dep { p1: Conv { p: U32Be, c: ToLength { l: PhantomData }, u: PhantomData }, p2: Utf8 { len: None } }
}

fn new_reason_parser() -> (r: ErrorReasonParser)
    ensures
        r == reason_parser(),
{
    dep(length(u32_be()), utf8())
}

/// The length of the text whose 32-bit length is at `p`.
pub open spec fn reason_len(input: Seq<u8>, p: int) -> int {
    crate::primitive::be32(input[p], input[p + 1], input[p + 2], input[p + 3]) as int
}

/// Whether a whole text with its 32-bit length is at `p`, in valid UTF-8.
pub open spec fn complete_reason(input: Seq<u8>, p: int) -> bool {
    &&& 0 <= p
    &&& p + 4 <= input.len()
    &&& p + 4 + reason_len(input, p) <= input.len()
    &&& utf8_decoded(input.subrange(p + 4, p + 4 + reason_len(input, p))) is Some
}

/// The text of a complete reason.
pub open spec fn reason_text(input: Seq<u8>, p: int) -> Seq<char> {
    utf8_decoded(input.subrange(p + 4, p + 4 + reason_len(input, p)))->Some_0
}

proof fn lemma_complete_reason(input: Seq<u8>, p: int)
    requires
        complete_reason(input, p),
    ensures
        reason_parser().spec_parse(input, p) == Parsed::Ok((reason_text(input, p), p + 4 + reason_len(input, p))),
{
}

pub open spec fn security_types_parser() -> SecurityTypesParser {
    Dep {
        p1: Conv { p: Pred { p: U8, f: NonZero, description: "should be non-zero" }, c: ToLength { l: PhantomData }, u: PhantomData },
        p2: Array { p: Pred { p: U8, f: SecurityType, description: "should be security type" } },
    }
}

/// Reading a `SecurityTypes` message: a zero count and the server's
/// reason, or a non-zero count and that many known security types.
pub open spec fn spec_security_types(input: Seq<u8>, pos: int) -> Parsed<SecurityTypesView> {
    if pos >= input.len() {
        Err((ParseError::IoError, pos))
    } else if input[pos] == 0 {
        match reason_parser().spec_parse(input, pos + 1) {
            Ok((s, m)) => Ok((SecurityTypesView::ErrorReason(s), m)),
            Err(e) => Err(e),
        }
    } else {
        match security_types_parser().spec_parse(input, pos) {
            Ok((t, m)) => Ok((SecurityTypesView::Types(t), m)),
            Err(e) => Err(e),
        }
    }
}

/// A non-empty list of known security types, or a zero count and the
/// server's reason.
pub fn parse_security_types(input: &[u8], pos: usize) -> (r: Result<(SecurityTypes, usize), (ParseError, usize)>)
    requires
        pos <= input@.len(),
    ensures
        match r {
            Ok((t, m)) => spec_security_types(input@, pos as int) == Parsed::Ok((security_types_view(t), m as int)) && pos
                <= m <= input@.len(),
            Err((e, m)) => spec_security_types(input@, pos as int) == Parsed::<SecurityTypesView>::Err((e, m as int)),
        },
        pos < input@.len() && input@[pos as int] != 0 && pos + 1 + input@[pos as int] <= input@.len() && (forall|k: int|
            pos + 1 <= k < pos + 1 + input@[pos as int] ==> crate::rfb::spec_is_security_type(#[trigger] input@[k])) ==> (
        r matches Ok((SecurityTypes::Types(t), m)) && m == pos + 1 + input@[pos as int]),
        pos < input@.len() && input@[pos as int] == 0 && complete_reason(input@, pos + 1) ==> (r matches Ok(
            (SecurityTypes::ErrorReason(s), m),
        ) && s@ == reason_text(input@, pos + 1) && m == pos + 5 + reason_len(input@, pos + 1)),
        r matches Ok((SecurityTypes::Types(t), m)) ==> {
            &&& t@.len() == input@[pos as int]
            &&& t@.len() > 0
            &&& m == pos + 1 + t@.len()
            &&& t@ == input@.subrange(pos + 1, m as int)
            &&& forall|k: int| 0 <= k < t@.len() ==> crate::rfb::spec_is_security_type(#[trigger] t@[k])
        },
{
    if pos >= input.len() {
        return Err((ParseError::IoError, pos));
    }
    if input[pos] == 0 {
        proof {
            if complete_reason(input@, pos + 1) {
                lemma_complete_reason(input@, pos + 1);
            }
        }
        let (s, m) = new_reason_parser().parse(input, pos + 1)?;
        return Ok((SecurityTypes::ErrorReason(s), m));
    }
    let types: SecurityTypesParser = prefix_len_array(
        non_zero(u8p()),
        pred(u8p(), SecurityType, "should be security type"),
    );
    assert(types == security_types_parser());
    proof {
        let n = input@[pos as int];
        if pos + 1 + n <= input@.len() && (forall|k: int|
            pos + 1 <= k < pos + 1 + n ==> crate::rfb::spec_is_security_type(#[trigger] input@[k])) {
            lemma_security_items_ok(input@, pos + 1, n as nat);
        }
    }
    let (t, m) = types.parse(input, pos)?;
    proof {
        let n = input@[pos as int];
        lemma_security_items(input@, pos + 1, n as nat);
        assert(t.deep_view() =~= t@);
    }
    Ok((SecurityTypes::Types(t), m))
}

/// Present known security types are read.
proof fn lemma_security_items_ok(input: Seq<u8>, pos: int, n: nat)
    requires
        0 <= pos,
        pos + n <= input.len(),
        forall|k: int| pos <= k < pos + n ==> crate::rfb::spec_is_security_type(#[trigger] input[k]),
    ensures
        crate::primitive::parse_items(Pred { p: U8, f: SecurityType, description: "should be security type" }, input, pos, n) is Ok,
        crate::primitive::parse_items(Pred { p: U8, f: SecurityType, description: "should be security type" }, input, pos, n)->Ok_0.1
            == pos + n,
    decreases n,
{
    if n > 0 {
        lemma_security_items_ok(input, pos, (n - 1) as nat);
        assert(crate::rfb::spec_is_security_type(input[pos + n - 1]));
    }
}

/// Reading `n` security types gives the next `n` bytes, each a known type.
proof fn lemma_security_items(input: Seq<u8>, pos: int, n: nat)
    requires
        0 <= pos <= input.len(),
        crate::primitive::parse_items(Pred { p: U8, f: SecurityType, description: "should be security type" }, input, pos, n) is Ok,
    ensures
        ({
            let (v, m) = crate::primitive::parse_items(
                Pred { p: U8, f: SecurityType, description: "should be security type" },
                input,
                pos,
                n,
            )->Ok_0;
            &&& m == pos + n
            &&& pos + n <= input.len()
            &&& v == input.subrange(pos, pos + n)
            &&& forall|k: int| 0 <= k < v.len() ==> crate::rfb::spec_is_security_type(#[trigger] v[k])
        }),
    decreases n,
{
    if n > 0 {
        lemma_security_items(input, pos, (n - 1) as nat);
        let (v, m) = crate::primitive::parse_items(
            Pred { p: U8, f: SecurityType, description: "should be security type" },
            input,
            pos,
            (n - 1) as nat,
        )->Ok_0;
        assert(m + 1 <= input.len());
        assert(input.subrange(pos, pos + n) =~= v.push(input[m]));
    } else {
        assert(input.subrange(pos, pos) =~= Seq::<u8>::empty());
    }
}

/// Picks the security type: "None" if the server offers it.
pub fn choose_security(types: &Vec<u8>) -> (r: Option<u8>)
    ensures
        types@.contains(SEC_TYPE_NONE) ==> r == Some(SEC_TYPE_NONE),
        !types@.contains(SEC_TYPE_NONE) ==> r is None,
{
    let mut i: usize = 0;
    while i < types.len()
        invariant
            i <= types@.len(),
            forall|k: int| 0 <= k < i ==> types@[k] != SEC_TYPE_NONE,
        decreases types@.len() - i,
    {
        if types[i] == SEC_TYPE_NONE {
            return Some(SEC_TYPE_NONE);
        }
        i = i + 1;
    }
    None
}

/// The server's verdict on the security handshake.
pub enum SecurityResult {
    Accepted,
    Failed(String),
}

pub enum SecurityResultView {
    Accepted,
    Failed(Seq<char>),
}

pub open spec fn security_result_view(r: SecurityResult) -> SecurityResultView {
    match r {
        SecurityResult::Accepted => SecurityResultView::Accepted,
        SecurityResult::Failed(s) => SecurityResultView::Failed(s@),
    }
}

/// Reading a `SecurityResult`: a zero word for success, or one and the
/// server's reason; any other word is refused.
pub open spec fn spec_security_result(input: Seq<u8>, pos: int) -> Parsed<SecurityResultView> {
    match U32Be.spec_parse(input, pos) {
        Ok((code, m)) => if code == 0 {
            Ok((SecurityResultView::Accepted, m))
        } else if code == 1 {
            match reason_parser().spec_parse(input, m) {
                Ok((s, k)) => Ok((SecurityResultView::Failed(s), k)),
                Err(e) => Err(e),
            }
        } else {
            Err((ParseError::PredicateFailed("should be a constant number"), pos))
        },
        Err(e) => Err(e),
    }
}

pub fn parse_security_result(input: &[u8], pos: usize) -> (r: Result<(SecurityResult, usize), (ParseError, usize)>)
    requires
        pos <= input@.len(),
    ensures
        match r {
            Ok((v, m)) => spec_security_result(input@, pos as int) == Parsed::Ok((security_result_view(v), m as int)) && pos
                <= m <= input@.len(),
            Err((e, m)) => spec_security_result(input@, pos as int) == Parsed::<SecurityResultView>::Err((e, m as int)),
        },
        U32Be.spec_parse(input@, pos as int) == Parsed::Ok((0u32, pos + 4)) ==> (r matches Ok((SecurityResult::Accepted, m))
            && m == pos + 4),
        U32Be.spec_parse(input@, pos as int) == Parsed::Ok((1u32, pos + 4)) && complete_reason(input@, pos + 4) ==> (r matches Ok(
            (SecurityResult::Failed(s), m),
        ) && s@ == reason_text(input@, pos + 4) && m == pos + 8 + reason_len(input@, pos + 4)),
        (U32Be.spec_parse(input@, pos as int) matches Ok((c, _)) && c != 0 && c != 1) ==> r == Err::<
            (SecurityResult, usize),
            (ParseError, usize),
        >((ParseError::PredicateFailed("should be a constant number"), pos)),
{
    proof {
        if pos + 8 <= input@.len() && complete_reason(input@, pos + 4) {
            lemma_complete_reason(input@, pos + 4);
        }
    }
    let (code, m) = U32Be.parse(input, pos)?;
    if code == 0 {
        Ok((SecurityResult::Accepted, m))
    } else if code == 1 {
        let (s, k) = new_reason_parser().parse(input, m)?;
        Ok((SecurityResult::Failed(s), k))
    } else {
        Err((ParseError::PredicateFailed("should be a constant number"), pos))
    }
}

/// The framebuffer's size and format and the desktop's name.
pub struct ServerInit {
    pub width: usize,
    pub height: usize,
    pub pixel_format: PixelFormat,
    pub name: String,
}

pub struct ServerInitView {
    pub width: usize,
    pub height: usize,
    pub pixel_format: PixelFormat,
    pub name: Seq<char>,
}

pub open spec fn server_init_view(s: ServerInit) -> ServerInitView {
    ServerInitView { width: s.width, height: s.height, pixel_format: s.pixel_format, name: s.name@ }
}

pub open spec fn u16_length() -> Conv<U16Be, ToLength<u16>, usize> {
    Conv { p: U16Be, c: ToLength { l: PhantomData }, u: PhantomData }
}

/// Reading a `ServerInit`: width and height in 16 bits each, the pixel
/// format, and the name as a text with a 32-bit length.
pub open spec fn spec_server_init(input: Seq<u8>, pos: int) -> Parsed<ServerInitView> {
    match u16_length().spec_parse(input, pos) {
        Ok((width, m1)) => match u16_length().spec_parse(input, m1) {
            Ok((height, m2)) => match PixelFormat::spec_parser().spec_parse(input, m2) {
                Ok((pixel_format, m3)) => match reason_parser().spec_parse(input, m3) {
                    Ok((name, m4)) => Ok((ServerInitView { width, height, pixel_format, name }, m4)),
                    Err(e) => Err(e),
                },
                Err(e) => Err(e),
            },
            Err(e) => Err(e),
        },
        Err(e) => Err(e),
    }
}

pub fn parse_server_init(input: &[u8], pos: usize) -> (r: Result<(ServerInit, usize), (ParseError, usize)>)
    requires
        pos <= input@.len(),
    ensures
        match r {
            Ok((v, m)) => spec_server_init(input@, pos as int) == Parsed::Ok((server_init_view(v), m as int)) && pos <= m
                <= input@.len(),
            Err((e, m)) => spec_server_init(input@, pos as int) == Parsed::<ServerInitView>::Err((e, m as int)),
        },
        ({
            let l = crate::primitive::be32(input@[pos + 20], input@[pos + 21], input@[pos + 22], input@[pos + 23]) as int;
            pos + 24 <= input@.len() && pos + 24 + l <= input@.len() && utf8_decoded(input@.subrange(pos + 24, pos + 24 + l))
                is Some ==> (r matches Ok((v, m)) && m == pos + 24 + l && v.name@ == utf8_decoded(
                input@.subrange(pos + 24, pos + 24 + l),
            )->Some_0 && v.width == crate::primitive::be16(input@[pos as int], input@[pos + 1]) && v.height
                == crate::primitive::be16(input@[pos + 2], input@[pos + 3]))
        }),
{
    let (width, m1) = length(U16Be).parse(input, pos)?;
    let (height, m2) = length(U16Be).parse(input, m1)?;
    let (pixel_format, m3) = PixelFormat::parser().parse(input, m2)?;
    let (name, m4) = new_reason_parser().parse(input, m3)?;
    Ok((ServerInit { width, height, pixel_format, name }, m4))
}

/// A message of a running session.
pub enum ServerMessage {
    FramebufferUpdate { no_of_rectangles: u16 },
    Bell,
    ServerCutText(String),
    EndOfContinuousUpdates,
    Fence { flags: u32, payload: Vec<u8> },
}

pub enum ServerMessageView {
    FramebufferUpdate(u16),
    Bell,
    ServerCutText(Seq<char>),
    EndOfContinuousUpdates,
    Fence(u32, Seq<u8>),
}

pub open spec fn server_message_view(m: ServerMessage) -> ServerMessageView {
    match m {
        ServerMessage::FramebufferUpdate { no_of_rectangles } => ServerMessageView::FramebufferUpdate(no_of_rectangles),
        ServerMessage::Bell => ServerMessageView::Bell,
        ServerMessage::ServerCutText(s) => ServerMessageView::ServerCutText(s@),
        ServerMessage::EndOfContinuousUpdates => ServerMessageView::EndOfContinuousUpdates,
        ServerMessage::Fence { flags, payload } => ServerMessageView::Fence(flags, payload@),
    }
}

/// Reading one message of a running session: a type byte, then its body.
pub open spec fn spec_server_message(input: Seq<u8>, pos: int) -> Parsed<ServerMessageView> {
    if pos >= input.len() {
        Err((ParseError::IoError, pos))
    } else {
        let tag = input[pos];
        let p = pos + 1;
        if tag == 0 {
            if p + 1 > input.len() {
                Err((ParseError::IoError, p))
            } else if p + 3 > input.len() {
                Err((ParseError::IoError, p + 1))
            } else {
                Ok((ServerMessageView::FramebufferUpdate(crate::primitive::be16(input[p + 1], input[p + 2])), p + 3))
            }
        } else if tag == 2 {
            Ok((ServerMessageView::Bell, p))
        } else if tag == 3 {
            if p + 3 > input.len() {
                Err((ParseError::IoError, p))
            } else {
                match reason_parser().spec_parse(input, p + 3) {
                    Ok((s, k)) => Ok((ServerMessageView::ServerCutText(s), k)),
                    Err(e) => Err(e),
                }
            }
        } else if tag == 150 {
            Ok((ServerMessageView::EndOfContinuousUpdates, p))
        } else if tag == 248 {
            if p + 3 > input.len() {
                Err((ParseError::IoError, p))
            } else if p + 7 > input.len() {
                Err((ParseError::IoError, p + 3))
            } else if p + 8 > input.len() {
                Err((ParseError::IoError, p + 7))
            } else if p + 8 + input[p + 7] > input.len() {
                Err((ParseError::IoError, p + 8))
            } else {
                Ok((
                    ServerMessageView::Fence(
                        crate::primitive::be32(input[p + 3], input[p + 4], input[p + 5], input[p + 6]),
                        input.subrange(p + 8, p + 8 + input[p + 7]),
                    ),
                    p + 8 + input[p + 7],
                ))
            }
        } else {
            Err((ParseError::InvalidDiscriminator(tag as u64), pos))
        }
    }
}

/// Reads one message: a type byte, then its body.
pub fn parse_server_message(input: &[u8], pos: usize) -> (r: Result<(ServerMessage, usize), (ParseError, usize)>)
    requires
        pos <= input@.len(),
    ensures
        match r {
            Ok((v, m)) => spec_server_message(input@, pos as int) == Parsed::Ok((server_message_view(v), m as int)) && pos
                < m <= input@.len(),
            Err((e, m)) => spec_server_message(input@, pos as int) == Parsed::<ServerMessageView>::Err((e, m as int)),
        },
        pos + 4 <= input@.len() && input@[pos as int] == 0 ==> (r matches Ok(
            (ServerMessage::FramebufferUpdate { no_of_rectangles }, m),
        ) && m == pos + 4 && no_of_rectangles == crate::primitive::be16(input@[pos + 2], input@[pos + 3])),
        pos < input@.len() && input@[pos as int] == 2 ==> (r matches Ok((ServerMessage::Bell, m)) && m == pos + 1),
        pos < input@.len() && input@[pos as int] == 150 ==> (r matches Ok((ServerMessage::EndOfContinuousUpdates, m)) && m
            == pos + 1),
        pos + 9 <= input@.len() && input@[pos as int] == 248 && pos + 9 + input@[pos + 8] <= input@.len() ==> (r matches Ok(
            (ServerMessage::Fence { flags, payload }, m),
        ) && m == pos + 9 + input@[pos + 8] && flags == crate::primitive::be32(
            input@[pos + 4],
            input@[pos + 5],
            input@[pos + 6],
            input@[pos + 7],
        ) && payload@ == input@.subrange(pos + 9, m as int)),
        pos < input@.len() && input@[pos as int] == 3 && complete_reason(input@, pos + 4) ==> (r matches Ok(
            (ServerMessage::ServerCutText(s), m),
        ) && s@ == reason_text(input@, pos + 4) && m == pos + 8 + reason_len(input@, pos + 4)),
        pos < input@.len() && !(input@[pos as int] == 0 || input@[pos as int] == 2 || input@[pos as int] == 3 || input@[pos as int]
            == 150 || input@[pos as int] == 248) ==> r == Err::<(ServerMessage, usize), (ParseError, usize)>(
            (ParseError::InvalidDiscriminator(input@[pos as int] as u64), pos),
        ),
{
    proof {
        if pos + 8 <= input@.len() && complete_reason(input@, pos + 4) {
            lemma_complete_reason(input@, pos + 4);
        }
    }
    if pos >= input.len() {
        return Err((ParseError::IoError, pos));
    }
    let tag = input[pos];
    let p = pos + 1;
    if tag == 0 {
        let (_, m) = crate::primitive::Ignored { len: 1 }.parse(input, p)?;
        let (n, k) = U16Be.parse(input, m)?;
        Ok((ServerMessage::FramebufferUpdate { no_of_rectangles: n }, k))
    } else if tag == 2 {
        Ok((ServerMessage::Bell, p))
    } else if tag == 3 {
        let (_, m) = crate::primitive::Ignored { len: 3 }.parse(input, p)?;
        let (s, k) = new_reason_parser().parse(input, m)?;
        Ok((ServerMessage::ServerCutText(s), k))
    } else if tag == 150 {
        Ok((ServerMessage::EndOfContinuousUpdates, p))
    } else if tag == 248 {
        let (_, m) = crate::primitive::Ignored { len: 3 }.parse(input, p)?;
        let (flags, k) = U32Be.parse(input, m)?;
        if k >= input.len() {
            return Err((ParseError::IoError, k));
        }
        let len = input[k] as usize;
        if len > input.len() - (k + 1) {
            return Err((ParseError::IoError, k + 1));
        }
        let payload = crate::primitive::copy_bytes(input, k + 1, len);
        Ok((ServerMessage::Fence { flags, payload }, k + 1 + len))
    } else {
        Err((ParseError::InvalidDiscriminator(tag as u64), pos))
    }
}

} // verus!
