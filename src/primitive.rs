//! Primitive fields and the combinators that build packets out of them.
use vstd::prelude::*;
use crate::parsing::{Conversion, Length, Number, ParameterizedParser, Parser, Parsed, Predicate, Written};
use std::marker::PhantomData;
use crate::result::{ParseError, WriteError};

verus! {

/// A single byte.
pub struct U8;

impl Parser for U8 {
    type T = u8;

    open spec fn spec_parse(&self, input: Seq<u8>, pos: int) -> Parsed<u8> {
        if pos + 1 <= input.len() {
            Ok((input[pos as int], pos + 1))
        } else {
            Err((ParseError::IoError, pos))
        }
    }

    open spec fn spec_write(&self, v: u8) -> Written {
        Ok(seq![v])
    }

    open spec fn valid(&self, v: u8) -> bool {
        true
    }

    fn parse(&self, input: &[u8], pos: usize) -> (r: Result<(u8, usize), (ParseError, usize)>) {
        if pos < input.len() {
            Ok((input[pos], pos + 1))
        } else {
            Err((ParseError::IoError, pos))
        }
    }

    fn write(&self, out: &mut Vec<u8>, v: &u8) -> (r: Result<(), WriteError>) {
        out.push(*v);
        Ok(())
    }

    proof fn lemma_round_trip(&self, v: u8, input: Seq<u8>, pos: int) {
        assert(input.subrange(pos, pos + 1)[0] == input[pos as int]);
    }
}

pub fn u8p() -> (r: U8) {
    U8
}

/// A run of `len` bytes whose contents do not matter; written as zeroes.
pub struct Ignored {
    pub len: usize,
}

impl Parser for Ignored {
    type T = ();

    open spec fn spec_parse(&self, input: Seq<u8>, pos: int) -> Parsed<()> {
        if pos + self.len <= input.len() {
            Ok(((), pos + self.len))
        } else {
            Err((ParseError::IoError, pos))
        }
    }

    open spec fn spec_write(&self, v: ()) -> Written {
        Ok(Seq::new(self.len as nat, |i: int| 0u8))
    }

    open spec fn valid(&self, v: ()) -> bool {
        true
    }

    fn parse(&self, input: &[u8], pos: usize) -> (r: Result<((), usize), (ParseError, usize)>) {
        if self.len <= input.len() - pos {
            Ok(((), pos + self.len))
        } else {
            Err((ParseError::IoError, pos))
        }
    }

    fn write(&self, out: &mut Vec<u8>, v: &()) -> (r: Result<(), WriteError>) {
        let ghost start = out@;
        let mut i: usize = 0;
        while i < self.len
            invariant
                i <= self.len,
                out@ == start + Seq::new(i as nat, |j: int| 0u8),
            decreases self.len - i,
        {
            out.push(0u8);
            i = i + 1;
            assert(out@ =~= start + Seq::new(i as nat, |j: int| 0u8));
        }
        Ok(())
    }

    proof fn lemma_round_trip(&self, v: (), input: Seq<u8>, pos: int) {
    }
}

pub fn ignored(len: usize) -> (r: Ignored)
    ensures
        r.len == len,
{
    Ignored { len }
}

/// A field that takes no bytes at all.
pub fn nothing() -> (r: Ignored)
    ensures
        r.len == 0,
{
    ignored(0)
}

/// Big-endian value of two bytes.
pub open spec fn be16(b0: u8, b1: u8) -> u16 {
    ((b0 as u16) << 8u16) | (b1 as u16)
}

/// Big-endian value of four bytes.
pub open spec fn be32(b0: u8, b1: u8, b2: u8, b3: u8) -> u32 {
    ((b0 as u32) << 24u32) | ((b1 as u32) << 16u32) | ((b2 as u32) << 8u32) | (b3 as u32)
}

/// The four bytes of `v`, most significant first.
pub open spec fn be32_bytes(v: u32) -> Seq<u8> {
    seq![(v >> 24u32) as u8, (v >> 16u32) as u8, (v >> 8u32) as u8, v as u8]
}

proof fn lemma_be16(v: u16)
    ensures
        be16((v >> 8u16) as u8, v as u8) == v,
{
    assert((((((v >> 8u16) as u8) as u16) << 8u16) | ((v as u8) as u16)) == v) by (bit_vector);
}

proof fn lemma_be32(v: u32)
    ensures
        be32((v >> 24u32) as u8, (v >> 16u32) as u8, (v >> 8u32) as u8, v as u8) == v,
{
    assert((((((v >> 24u32) as u8) as u32) << 24u32) | ((((v >> 16u32) as u8) as u32) << 16u32)
        | ((((v >> 8u32) as u8) as u32) << 8u32) | ((v as u8) as u32)) == v) by (bit_vector);
}

fn read_be32(input: &[u8], pos: usize) -> (r: u32)
    requires
        pos + 4 <= input@.len(),
    ensures
        r == be32(input@[pos as int], input@[pos + 1], input@[pos + 2], input@[pos + 3]),
{
    ((input[pos] as u32) << 24u32) | ((input[pos + 1] as u32) << 16u32) | ((input[pos + 2] as u32) << 8u32)
        | (input[pos + 3] as u32)
}

fn write_be32(out: &mut Vec<u8>, v: u32)
    ensures
        final(out)@ == old(out)@ + be32_bytes(v),
{
    out.push((v >> 24u32) as u8);
    out.push((v >> 16u32) as u8);
    out.push((v >> 8u32) as u8);
    out.push(v as u8);
    assert(final(out)@ =~= old(out)@ + be32_bytes(v));
}

/// A big-endian 16-bit unsigned integer.
pub struct U16Be;

impl Parser for U16Be {
    type T = u16;

    open spec fn spec_parse(&self, input: Seq<u8>, pos: int) -> Parsed<u16> {
        if pos + 2 <= input.len() {
            Ok((be16(input[pos], input[pos + 1]), pos + 2))
        } else {
            Err((ParseError::IoError, pos))
        }
    }

    open spec fn spec_write(&self, v: u16) -> Written {
        Ok(seq![(v >> 8u16) as u8, v as u8])
    }

    open spec fn valid(&self, v: u16) -> bool {
        true
    }

    fn parse(&self, input: &[u8], pos: usize) -> (r: Result<(u16, usize), (ParseError, usize)>) {
        if 2 <= input.len() - pos {
            Ok((((input[pos] as u16) << 8u16) | (input[pos + 1] as u16), pos + 2))
        } else {
            Err((ParseError::IoError, pos))
        }
    }

    fn write(&self, out: &mut Vec<u8>, v: &u16) -> (r: Result<(), WriteError>) {
        out.push((*v >> 8u16) as u8);
        out.push(*v as u8);
        assert(final(out)@ =~= old(out)@ + seq![(*v >> 8u16) as u8, *v as u8]);
        Ok(())
    }

    proof fn lemma_round_trip(&self, v: u16, input: Seq<u8>, pos: int) {
        let b = self.spec_write(v)->Ok_0;
        assert(input[pos] == input.subrange(pos, pos + 2)[0]);
        assert(input[pos + 1] == input.subrange(pos, pos + 2)[1]);
        lemma_be16(v);
    }
}

pub fn u16_be() -> (r: U16Be) {
    U16Be
}

/// A big-endian 32-bit unsigned integer.
pub struct U32Be;

impl Parser for U32Be {
    type T = u32;

    open spec fn spec_parse(&self, input: Seq<u8>, pos: int) -> Parsed<u32> {
        if pos + 4 <= input.len() {
            Ok((be32(input[pos], input[pos + 1], input[pos + 2], input[pos + 3]), pos + 4))
        } else {
            Err((ParseError::IoError, pos))
        }
    }

    open spec fn spec_write(&self, v: u32) -> Written {
        Ok(be32_bytes(v))
    }

    open spec fn valid(&self, v: u32) -> bool {
        true
    }

    fn parse(&self, input: &[u8], pos: usize) -> (r: Result<(u32, usize), (ParseError, usize)>) {
        if 4 <= input.len() - pos {
            Ok((read_be32(input, pos), pos + 4))
        } else {
            Err((ParseError::IoError, pos))
        }
    }

    fn write(&self, out: &mut Vec<u8>, v: &u32) -> (r: Result<(), WriteError>) {
        write_be32(out, *v);
        Ok(())
    }

    proof fn lemma_round_trip(&self, v: u32, input: Seq<u8>, pos: int) {
        let s = input.subrange(pos, pos + 4);
        assert(input[pos] == s[0] && input[pos + 1] == s[1] && input[pos + 2] == s[2] && input[pos + 3] == s[3]);
        lemma_be32(v);
    }
}

pub fn u32_be() -> (r: U32Be) {
    U32Be
}

/// A big-endian 32-bit two's complement integer.
pub struct I32Be;

impl Parser for I32Be {
    type T = i32;

    open spec fn spec_parse(&self, input: Seq<u8>, pos: int) -> Parsed<i32> {
        if pos + 4 <= input.len() {
            Ok((be32(input[pos], input[pos + 1], input[pos + 2], input[pos + 3]) as i32, pos + 4))
        } else {
            Err((ParseError::IoError, pos))
        }
    }

    open spec fn spec_write(&self, v: i32) -> Written {
        Ok(be32_bytes(v as u32))
    }

    open spec fn valid(&self, v: i32) -> bool {
        true
    }

    fn parse(&self, input: &[u8], pos: usize) -> (r: Result<(i32, usize), (ParseError, usize)>) {
        if 4 <= input.len() - pos {
            Ok((read_be32(input, pos) as i32, pos + 4))
        } else {
            Err((ParseError::IoError, pos))
        }
    }

    fn write(&self, out: &mut Vec<u8>, v: &i32) -> (r: Result<(), WriteError>) {
        write_be32(out, *v as u32);
        Ok(())
    }

    proof fn lemma_round_trip(&self, v: i32, input: Seq<u8>, pos: int) {
        let s = input.subrange(pos, pos + 4);
        assert(input[pos] == s[0] && input[pos + 1] == s[1] && input[pos + 2] == s[2] && input[pos + 3] == s[3]);
        lemma_be32(v as u32);
        assert(((v as u32) as i32) == v) by (bit_vector);
    }
}

pub fn i32_be() -> (r: I32Be) {
    I32Be
}

/// Takes back what was appended after the first `len` bytes.
fn undo(out: &mut Vec<u8>, len: usize)
    requires
        len <= old(out)@.len(),
    ensures
        final(out)@ == old(out)@.subrange(0, len as int),
{
    out.truncate(len);
}

/// Two fields one after the other.
pub struct Sequence<First, Second> {
    pub p1: First,
    pub p2: Second,
}

impl<First: Parser, Second: Parser> Parser for Sequence<First, Second> {
    type T = (First::T, Second::T);

    open spec fn spec_parse(&self, input: Seq<u8>, pos: int) -> Parsed<(<First::T as DeepView>::V, <Second::T as DeepView>::V)> {
        match self.p1.spec_parse(input, pos) {
            Ok((v1, n1)) => match self.p2.spec_parse(input, n1) {
                Ok((v2, n2)) => Ok(((v1, v2), n2)),
                Err(e) => Err(e),
            },
            Err(e) => Err(e),
        }
    }

    open spec fn spec_write(&self, v: (<First::T as DeepView>::V, <Second::T as DeepView>::V)) -> Written {
        match self.p1.spec_write(v.0) {
            Ok(b1) => match self.p2.spec_write(v.1) {
                Ok(b2) => Ok(b1 + b2),
                Err(e) => Err(e),
            },
            Err(e) => Err(e),
        }
    }

    open spec fn valid(&self, v: (<First::T as DeepView>::V, <Second::T as DeepView>::V)) -> bool {
        self.p1.valid(v.0) && self.p2.valid(v.1)
    }

    fn parse(&self, input: &[u8], pos: usize) -> (r: Result<((First::T, Second::T), usize), (ParseError, usize)>) {
        match self.p1.parse(input, pos) {
            Ok((v1, n1)) => match self.p2.parse(input, n1) {
                Ok((v2, n2)) => Ok(((v1, v2), n2)),
                Err(e) => Err(e),
            },
            Err(e) => Err(e),
        }
    }

    fn write(&self, out: &mut Vec<u8>, v: &(First::T, Second::T)) -> (r: Result<(), WriteError>) {
        let start = out.len();
        match self.p1.write(out, &v.0) {
            Ok(()) => {},
            Err(e) => {
                return Err(e);
            },
        }
        match self.p2.write(out, &v.1) {
            Ok(()) => {},
            Err(e) => {
                undo(out, start);
                return Err(e);
            },
        }
        Ok(())
    }

    proof fn lemma_round_trip(&self, v: (<First::T as DeepView>::V, <Second::T as DeepView>::V), input: Seq<u8>, pos: int) {
        let b1 = self.p1.spec_write(v.0)->Ok_0;
        let b2 = self.p2.spec_write(v.1)->Ok_0;
        let whole = input.subrange(pos, pos + b1.len() + b2.len());
        assert(input.subrange(pos, pos + b1.len()) =~= whole.subrange(0, b1.len() as int));
        assert(input.subrange(pos + b1.len(), pos + b1.len() + b2.len()) =~= whole.subrange(b1.len() as int, whole.len() as int));
        assert((b1 + b2).subrange(0, b1.len() as int) =~= b1);
        assert((b1 + b2).subrange(b1.len() as int, (b1 + b2).len() as int) =~= b2);
        self.p1.lemma_round_trip(v.0, input, pos);
        self.p2.lemma_round_trip(v.1, input, pos + b1.len());
    }
}

pub fn seq<First: Parser, Second: Parser>(p1: First, p2: Second) -> (r: Sequence<First, Second>)
    ensures
        r.p1 == p1,
        r.p2 == p2,
{
    Sequence { p1, p2 }
}

/// A field whose wire value is converted to and from the stored value.
pub struct Conv<P, C, U> {
    pub p: P,
    pub c: C,
    pub u: PhantomData<U>,
}

impl<P: Parser, U: DeepView, C: Conversion<P::T, U>> Parser for Conv<P, C, U> {
    type T = U;

    open spec fn spec_parse(&self, input: Seq<u8>, pos: int) -> Parsed<U::V> {
        match self.p.spec_parse(input, pos) {
            Ok((v, n)) => Ok((self.c.spec_to(v), n)),
            Err(e) => Err(e),
        }
    }

    open spec fn spec_write(&self, v: U::V) -> Written {
        match self.c.spec_back(v) {
            Ok(a) => self.p.spec_write(a),
            Err(e) => Err(e),
        }
    }

    open spec fn valid(&self, v: U::V) -> bool {
        self.c.valid(v) && (self.c.spec_back(v) is Ok ==> self.p.valid(self.c.spec_back(v)->Ok_0))
    }

    fn parse(&self, input: &[u8], pos: usize) -> (r: Result<(U, usize), (ParseError, usize)>) {
        match self.p.parse(input, pos) {
            Ok((v, n)) => Ok((self.c.to(v), n)),
            Err(e) => Err(e),
        }
    }

    fn write(&self, out: &mut Vec<u8>, v: &U) -> (r: Result<(), WriteError>) {
        match self.c.back(v) {
            Ok(a) => self.p.write(out, &a),
            Err(e) => Err(e),
        }
    }

    proof fn lemma_round_trip(&self, v: U::V, input: Seq<u8>, pos: int) {
        self.c.lemma_inverse(v);
        self.p.lemma_round_trip(self.c.spec_back(v)->Ok_0, input, pos);
    }
}

pub fn conv<P: Parser, U: DeepView, C: Conversion<P::T, U>>(p: P, c: C) -> (r: Conv<P, C, U>)
    ensures
        r == (Conv { p, c, u: PhantomData::<U> }),
{
    Conv { p, c, u: PhantomData }
}

/// Reads a byte as a two's complement number.
pub struct ToI8;

impl Conversion<u8, i8> for ToI8 {
    open spec fn spec_to(&self, a: u8) -> i8 {
        a as i8
    }

    open spec fn spec_back(&self, b: i8) -> Result<u8, WriteError> {
        Ok(b as u8)
    }

    open spec fn valid(&self, b: i8) -> bool {
        true
    }

    fn to(&self, a: u8) -> (r: i8) {
        a as i8
    }

    fn back(&self, b: &i8) -> (r: Result<u8, WriteError>) {
        Ok(*b as u8)
    }

    proof fn lemma_inverse(&self, b: i8) {
        assert(((b as u8) as i8) == b) by (bit_vector);
    }
}

pub fn i8p() -> (r: Conv<U8, ToI8, i8>)
    ensures
        r == (Conv { p: U8, c: ToI8, u: PhantomData::<i8> }),
{
    conv(u8p(), ToI8)
}

/// Reads a byte as a flag: any non-zero byte is true; true is written as 1.
pub struct ToBool;

impl Conversion<u8, bool> for ToBool {
    open spec fn spec_to(&self, a: u8) -> bool {
        a > 0
    }

    open spec fn spec_back(&self, b: bool) -> Result<u8, WriteError> {
        Ok(if b { 1u8 } else { 0u8 })
    }

    open spec fn valid(&self, b: bool) -> bool {
        true
    }

    fn to(&self, a: u8) -> (r: bool) {
        a > 0
    }

    fn back(&self, b: &bool) -> (r: Result<u8, WriteError>) {
        Ok(if *b { 1 } else { 0 })
    }

    proof fn lemma_inverse(&self, b: bool) {
    }
}

pub fn u8_bool() -> (r: Conv<U8, ToBool, bool>)
    ensures
        r == (Conv { p: U8, c: ToBool, u: PhantomData::<bool> }),
{
    conv(u8p(), ToBool)
}

/// Reads a number as a length; a length is written back in the number's width.
pub struct ToLength<L> {
    pub l: PhantomData<L>,
}

impl<L: Length> Conversion<L, usize> for ToLength<L> {
    open spec fn spec_to(&self, a: L::V) -> usize {
        L::spec_to_usize(a)
    }

    open spec fn spec_back(&self, b: usize) -> Result<L::V, WriteError> {
        Ok(L::spec_from_usize(b))
    }

    open spec fn valid(&self, b: usize) -> bool {
        L::fits(b)
    }

    fn to(&self, a: L) -> (r: usize) {
        a.to_usize()
    }

    fn back(&self, b: &usize) -> (r: Result<L, WriteError>) {
        Ok(L::from_usize(*b))
    }

    proof fn lemma_inverse(&self, b: usize) {
        L::lemma_fits(b);
    }
}

pub fn length<P: Parser, L: Length>(p: P) -> (r: Conv<P, ToLength<L>, usize>)
    where
        P: Parser<T = L>,
    ensures
        r == (Conv { p, c: ToLength { l: PhantomData::<L> }, u: PhantomData::<usize> }),
{
    conv(p, ToLength { l: PhantomData })
}

/// A field whose value must pass a test; on failure the error is reported
/// at the field's first byte.
pub struct Pred<P, F> {
    pub p: P,
    pub f: F,
    pub description: &'static str,
}

impl<P: Parser, F: Predicate<P::T>> Parser for Pred<P, F> {
    type T = P::T;

    open spec fn spec_parse(&self, input: Seq<u8>, pos: int) -> Parsed<<P::T as DeepView>::V> {
        match self.p.spec_parse(input, pos) {
            Ok((v, n)) => if self.f.holds(v) {
                Ok((v, n))
            } else {
                Err((ParseError::PredicateFailed(self.description), pos))
            },
            Err(e) => Err(e),
        }
    }

    open spec fn spec_write(&self, v: <P::T as DeepView>::V) -> Written {
        self.p.spec_write(v)
    }

    open spec fn valid(&self, v: <P::T as DeepView>::V) -> bool {
        self.p.valid(v) && self.f.holds(v)
    }

    fn parse(&self, input: &[u8], pos: usize) -> (r: Result<(P::T, usize), (ParseError, usize)>) {
        match self.p.parse(input, pos) {
            Ok((v, n)) => if self.f.test(&v) {
                Ok((v, n))
            } else {
                Err((ParseError::PredicateFailed(self.description), pos))
            },
            Err(e) => Err(e),
        }
    }

    fn write(&self, out: &mut Vec<u8>, v: &P::T) -> (r: Result<(), WriteError>) {
        self.p.write(out, v)
    }

    proof fn lemma_round_trip(&self, v: <P::T as DeepView>::V, input: Seq<u8>, pos: int) {
        self.p.lemma_round_trip(v, input, pos);
    }
}

pub fn pred<P: Parser, F: Predicate<P::T>>(p: P, f: F, description: &'static str) -> (r: Pred<P, F>)
    ensures
        r == (Pred { p, f, description }),
{
    Pred { p, f, description }
}

/// Holds of the numbers equal to a constant.
pub struct Equals<N> {
    pub constant: N,
}

impl<N: Number> Predicate<N> for Equals<N> {
    open spec fn holds(&self, v: N::V) -> bool {
        N::spec_value(v) == N::spec_value(self.constant.deep_view())
    }

    fn test(&self, v: &N) -> (r: bool) {
        v.value() == self.constant.value()
    }
}

/// Holds of the numbers other than zero.
pub struct NonZero;

impl<N: Number> Predicate<N> for NonZero {
    open spec fn holds(&self, v: N::V) -> bool {
        N::spec_value(v) > 0
    }

    fn test(&self, v: &N) -> (r: bool) {
        v.value() > 0
    }
}

pub fn is_constant<P: Parser, N: Number>(p: P, constant: N) -> (r: Pred<P, Equals<N>>)
    where
        P: Parser<T = N>,
    ensures
        r.p == p,
        r.f.constant == constant,
{
    pred(p, Equals { constant }, "should be a constant number")
}

pub fn non_zero<P: Parser, N: Number>(p: P) -> (r: Pred<P, NonZero>)
    where
        P: Parser<T = N>,
    ensures
        r == (Pred { p, f: NonZero, description: "should be non-zero" }),
{
    pred(p, NonZero, "should be non-zero")
}

/// Drops a constant first element on reading and puts it back on writing.
pub struct DropConstant<N, V> {
    pub constant: N,
    pub v: PhantomData<V>,
}

impl<N: Number, V: DeepView + Copy> Conversion<(N, V), V> for DropConstant<N, V> {
    open spec fn spec_to(&self, a: (N::V, V::V)) -> V::V {
        a.1
    }

    open spec fn spec_back(&self, b: V::V) -> Result<(N::V, V::V), WriteError> {
        Ok((self.constant.deep_view(), b))
    }

    open spec fn valid(&self, b: V::V) -> bool {
        true
    }

    fn to(&self, a: (N, V)) -> (r: V) {
        a.1
    }

    fn back(&self, b: &V) -> (r: Result<(N, V), WriteError>) {
        Ok((self.constant, *b))
    }

    proof fn lemma_inverse(&self, b: V::V) {
    }
}

pub fn const_prefix<PP: Parser, N: Number, P: Parser>(prefix: PP, constant: N, suffix: P) -> (r: Conv<
    Sequence<Pred<PP, Equals<N>>, P>,
    DropConstant<N, P::T>,
    P::T,
>)
    where
        PP: Parser<T = N>,
        P::T: Copy,
    ensures
        r.p.p1.p == prefix,
        r.p.p1.f.constant == constant,
        r.p.p2 == suffix,
        r.c.constant == constant,
{
    conv(seq(is_constant(prefix, constant), suffix), DropConstant { constant, v: PhantomData })
}

/// A constant that must be present on the wire and carries no value.
pub fn literal<P: Parser, N: Number>(p: P, constant: N) -> (r: Conv<
    Sequence<Pred<P, Equals<N>>, Ignored>,
    DropConstant<N, ()>,
    (),
>)
    where
        P: Parser<T = N>,
    ensures
        r.p.p1.p == p,
        r.p.p1.f.constant == constant,
        r.p.p2.len == 0,
        r.c.constant == constant,
{
    const_prefix(p, constant, nothing())
}

/// The first of two alternatives that succeeds, for parsing and for writing.
pub struct Opt<First, Second> {
    pub p1: First,
    pub p2: Second,
}

impl<T: DeepView, First: Parser<T = T>, Second: Parser<T = T>> Parser for Opt<First, Second> {
    type T = T;

    open spec fn spec_parse(&self, input: Seq<u8>, pos: int) -> Parsed<T::V> {
        match self.p1.spec_parse(input, pos) {
            Ok(x) => Ok(x),
            Err(_) => self.p2.spec_parse(input, pos),
        }
    }

    open spec fn spec_write(&self, v: T::V) -> Written {
        match self.p1.spec_write(v) {
            Ok(b) => Ok(b),
            Err(_) => self.p2.spec_write(v),
        }
    }

    open spec fn valid(&self, v: T::V) -> bool {
        self.p1.spec_write(v) is Ok && self.p1.valid(v)
    }

    fn parse(&self, input: &[u8], pos: usize) -> (r: Result<(T, usize), (ParseError, usize)>) {
        match self.p1.parse(input, pos) {
            Ok(x) => Ok(x),
            Err(_) => self.p2.parse(input, pos),
        }
    }

    fn write(&self, out: &mut Vec<u8>, v: &T) -> (r: Result<(), WriteError>) {
        let mut first: Vec<u8> = Vec::new();
        match self.p1.write(&mut first, v) {
            Ok(()) => {
                assert(first@ =~= Seq::<u8>::empty() + first@);
                out.append(&mut first);
                Ok(())
            },
            Err(_) => self.p2.write(out, v),
        }
    }

    proof fn lemma_round_trip(&self, v: T::V, input: Seq<u8>, pos: int) {
        self.p1.lemma_round_trip(v, input, pos);
    }
}

pub fn opt<T: DeepView, First: Parser<T = T>, Second: Parser<T = T>>(p1: First, p2: Second) -> (r: Opt<First, Second>)
    ensures
        r.p1 == p1,
        r.p2 == p2,
{
    Opt { p1, p2 }
}

/// Looks ahead: parses a value without consuming it, and writes nothing.
pub struct ZeroLen<P> {
    pub p: P,
}

impl<P: Parser> Parser for ZeroLen<P> {
    type T = P::T;

    open spec fn spec_parse(&self, input: Seq<u8>, pos: int) -> Parsed<<P::T as DeepView>::V> {
        match self.p.spec_parse(input, pos) {
            Ok((v, _)) => Ok((v, pos)),
            Err(e) => Err(e),
        }
    }

    open spec fn spec_write(&self, v: <P::T as DeepView>::V) -> Written {
        Ok(Seq::empty())
    }

    /// Nothing is written, so nothing can be read back.
    open spec fn valid(&self, v: <P::T as DeepView>::V) -> bool {
        false
    }

    fn parse(&self, input: &[u8], pos: usize) -> (r: Result<(P::T, usize), (ParseError, usize)>) {
        match self.p.parse(input, pos) {
            Ok((v, _)) => Ok((v, pos)),
            Err(e) => Err(e),
        }
    }

    fn write(&self, out: &mut Vec<u8>, v: &P::T) -> (r: Result<(), WriteError>) {
        assert(out@ =~= out@ + Seq::<u8>::empty());
        Ok(())
    }

    proof fn lemma_round_trip(&self, v: <P::T as DeepView>::V, input: Seq<u8>, pos: int) {
    }
}

pub fn zero_len<P: Parser>(p: P) -> (r: ZeroLen<P>)
    ensures
        r.p == p,
{
    ZeroLen { p }
}

/// Parsing `n` items one after the other.
pub open spec fn parse_items<P: Parser>(p: P, input: Seq<u8>, pos: int, n: nat) -> Parsed<Seq<<P::T as DeepView>::V>>
    decreases n,
{
    if n == 0 {
        Ok((Seq::empty(), pos))
    } else {
        match parse_items(p, input, pos, (n - 1) as nat) {
            Ok((vs, m)) => match p.spec_parse(input, m) {
                Ok((v, k)) => Ok((vs.push(v), k)),
                Err(e) => Err(e),
            },
            Err(e) => Err(e),
        }
    }
}

/// Writing items one after the other.
pub open spec fn write_items<P: Parser>(p: P, vs: Seq<<P::T as DeepView>::V>) -> Written
    decreases vs.len(),
{
    if vs.len() == 0 {
        Ok(Seq::empty())
    } else {
        match write_items(p, vs.drop_last()) {
            Ok(b) => match p.spec_write(vs.last()) {
                Ok(c) => Ok(b + c),
                Err(e) => Err(e),
            },
            Err(e) => Err(e),
        }
    }
}

proof fn lemma_items_round_trip<P: Parser>(p: P, vs: Seq<<P::T as DeepView>::V>, input: Seq<u8>, pos: int)
    requires
        0 <= pos,
        forall|i: int| 0 <= i < vs.len() ==> p.valid(#[trigger] vs[i]),
        write_items(p, vs) is Ok,
        pos + write_items(p, vs)->Ok_0.len() <= input.len(),
        input.subrange(pos, pos + write_items(p, vs)->Ok_0.len()) == write_items(p, vs)->Ok_0,
    ensures
        parse_items(p, input, pos, vs.len()) == Parsed::Ok((vs, pos + write_items(p, vs)->Ok_0.len())),
    decreases vs.len(),
{
    if vs.len() > 0 {
        let init = vs.drop_last();
        let b = write_items(p, init)->Ok_0;
        let c = p.spec_write(vs.last())->Ok_0;
        let whole = input.subrange(pos, pos + b.len() + c.len());
        assert(input.subrange(pos, pos + b.len()) =~= whole.subrange(0, b.len() as int));
        assert(input.subrange(pos + b.len(), pos + b.len() + c.len()) =~= whole.subrange(b.len() as int, whole.len() as int));
        assert((b + c).subrange(0, b.len() as int) =~= b);
        assert((b + c).subrange(b.len() as int, (b + c).len() as int) =~= c);
        assert forall|i: int| 0 <= i < init.len() implies p.valid(#[trigger] init[i]) by {
            assert(init[i] == vs[i]);
        }
        lemma_items_round_trip(p, init, input, pos);
        assert(p.valid(vs[vs.len() - 1]));
        p.lemma_round_trip(vs.last(), input, pos + b.len());
        assert(init.push(vs.last()) =~= vs);
    } else {
        assert(vs =~= Seq::<<P::T as DeepView>::V>::empty());
    }
}

/// Once parsing some items fails, parsing more fails the same way.
proof fn lemma_parse_items_err<P: Parser>(p: P, input: Seq<u8>, pos: int, k: nat, n: nat)
    requires
        k <= n,
        parse_items(p, input, pos, k) is Err,
    ensures
        parse_items(p, input, pos, n) == parse_items(p, input, pos, k),
    decreases n - k,
{
    if k < n {
        lemma_parse_items_err(p, input, pos, k, (n - 1) as nat);
    }
}

/// A given number of items of one kind.
pub struct Array<P> {
    pub p: P,
}

impl<P: Parser> ParameterizedParser for Array<P> {
    type T = Vec<P::T>;

    open spec fn spec_parse_with(&self, input: Seq<u8>, pos: int, n: usize) -> Parsed<Seq<<P::T as DeepView>::V>> {
        parse_items(self.p, input, pos, n as nat)
    }

    open spec fn spec_write_body(&self, v: Seq<<P::T as DeepView>::V>) -> Written {
        write_items(self.p, v)
    }

    open spec fn spec_params(&self, v: Seq<<P::T as DeepView>::V>) -> usize {
        v.len() as usize
    }

    open spec fn valid_body(&self, v: Seq<<P::T as DeepView>::V>) -> bool {
        v.len() <= usize::MAX && forall|i: int| 0 <= i < v.len() ==> self.p.valid(#[trigger] v[i])
    }

    fn parse_with_params(&self, input: &[u8], pos: usize, n: usize) -> (r: Result<(Vec<P::T>, usize), (ParseError, usize)>) {
        let mut ret: Vec<P::T> = Vec::new();
        let mut cur: usize = pos;
        let mut i: usize = 0;
        assert(ret.deep_view() =~= Seq::<<P::T as DeepView>::V>::empty());
        while i < n
            invariant
                i <= n,
                pos <= cur <= input@.len(),
                parse_items(self.p, input@, pos as int, i as nat) == Parsed::Ok((ret.deep_view(), cur as int)),
            decreases n - i,
        {
            match self.p.parse(input, cur) {
                Ok((v, next)) => {
                    let ghost before = ret.deep_view();
                    ret.push(v);
                    assert(ret.deep_view() =~= before.push(v.deep_view()));
                    cur = next;
                },
                Err(e) => {
                    proof {
                        lemma_parse_items_err(self.p, input@, pos as int, (i + 1) as nat, n as nat);
                    }
                    return Err(e);
                },
            }
            i = i + 1;
        }
        Ok((ret, cur))
    }

    fn write_body(&self, out: &mut Vec<u8>, v: &Vec<P::T>) -> (r: Result<(), WriteError>) {
        let ghost start = out@;
        let start_len = out.len();
        let mut i: usize = 0;
        while i < v.len()
            invariant
                start_len == start.len(),
                start == old(out)@,
                i <= v@.len(),
                write_items(self.p, v.deep_view().subrange(0, i as int)) is Ok,
                out@ == start + write_items(self.p, v.deep_view().subrange(0, i as int))->Ok_0,
            decreases v@.len() - i,
        {
            let ghost prefix = v.deep_view().subrange(0, i as int);
            let ghost next = v.deep_view().subrange(0, i + 1);
            assert(next.drop_last() =~= prefix);
            match self.p.write(out, &v[i]) {
                Ok(()) => {},
                Err(e) => {
                    proof {
                        lemma_items_err_prefix(self.p, v.deep_view(), i + 1);
                    }
                    undo(out, start_len);
                    return Err(e);
                },
            }
            i = i + 1;
        }
        assert(v.deep_view().subrange(0, v@.len() as int) =~= v.deep_view());
        Ok(())
    }

    fn extract_params(&self, v: &Vec<P::T>) -> (r: usize) {
        v.len()
    }

    proof fn lemma_round_trip_with(&self, v: Seq<<P::T as DeepView>::V>, input: Seq<u8>, pos: int) {
        lemma_items_round_trip(self.p, v, input, pos);
    }
}

/// An error in writing a prefix of the items is the error of writing them all.
proof fn lemma_items_err_prefix<P: Parser>(p: P, vs: Seq<<P::T as DeepView>::V>, k: int)
    requires
        0 <= k <= vs.len(),
        write_items(p, vs.subrange(0, k)) is Err,
    ensures
        write_items(p, vs) == write_items(p, vs.subrange(0, k)),
    decreases vs.len() - k,
{
    if k < vs.len() {
        let next = vs.subrange(0, k + 1);
        assert(next.drop_last() =~= vs.subrange(0, k));
        lemma_items_err_prefix(p, vs, k + 1);
    } else {
        assert(vs.subrange(0, k) =~= vs);
    }
}

pub fn array<P: Parser>(p: P) -> (r: Array<P>)
    ensures
        r.p == p,
{
    Array { p }
}

/// A body whose extent is read first, by another field.
pub struct Dep<First, Second> {
    pub p1: First,
    pub p2: Second,
}

impl<First: Parser<T = usize>, Second: ParameterizedParser> Parser for Dep<First, Second> {
    type T = Second::T;

    open spec fn spec_parse(&self, input: Seq<u8>, pos: int) -> Parsed<<Second::T as DeepView>::V> {
        match self.p1.spec_parse(input, pos) {
            Ok((n, m)) => self.p2.spec_parse_with(input, m, n),
            Err(e) => Err(e),
        }
    }

    open spec fn spec_write(&self, v: <Second::T as DeepView>::V) -> Written {
        match self.p1.spec_write(self.p2.spec_params(v)) {
            Ok(b1) => match self.p2.spec_write_body(v) {
                Ok(b2) => Ok(b1 + b2),
                Err(e) => Err(e),
            },
            Err(e) => Err(e),
        }
    }

    open spec fn valid(&self, v: <Second::T as DeepView>::V) -> bool {
        self.p1.valid(self.p2.spec_params(v)) && self.p2.valid_body(v)
    }

    fn parse(&self, input: &[u8], pos: usize) -> (r: Result<(Second::T, usize), (ParseError, usize)>) {
        match self.p1.parse(input, pos) {
            Ok((n, m)) => self.p2.parse_with_params(input, m, n),
            Err(e) => Err(e),
        }
    }

    fn write(&self, out: &mut Vec<u8>, v: &Second::T) -> (r: Result<(), WriteError>) {
        let n = self.p2.extract_params(v);
        let start = out.len();
        match self.p1.write(out, &n) {
            Ok(()) => {},
            Err(e) => {
                return Err(e);
            },
        }
        match self.p2.write_body(out, v) {
            Ok(()) => {},
            Err(e) => {
                undo(out, start);
                return Err(e);
            },
        }
        Ok(())
    }

    proof fn lemma_round_trip(&self, v: <Second::T as DeepView>::V, input: Seq<u8>, pos: int) {
        let n = self.p2.spec_params(v);
        let b1 = self.p1.spec_write(n)->Ok_0;
        let b2 = self.p2.spec_write_body(v)->Ok_0;
        let whole = input.subrange(pos, pos + b1.len() + b2.len());
        assert(input.subrange(pos, pos + b1.len()) =~= whole.subrange(0, b1.len() as int));
        assert(input.subrange(pos + b1.len(), pos + b1.len() + b2.len()) =~= whole.subrange(b1.len() as int, whole.len() as int));
        assert((b1 + b2).subrange(0, b1.len() as int) =~= b1);
        assert((b1 + b2).subrange(b1.len() as int, (b1 + b2).len() as int) =~= b2);
        self.p1.lemma_round_trip(n, input, pos);
        self.p2.lemma_round_trip_with(v, input, pos + b1.len());
    }
}

pub fn dep<First: Parser<T = usize>, Second: ParameterizedParser>(p1: First, p2: Second) -> (r: Dep<First, Second>)
    ensures
        r.p1 == p1,
        r.p2 == p2,
{
    Dep { p1, p2 }
}

/// An array preceded by its number of items, in the number type of `length_parser`.
pub fn prefix_len_array<LP: Parser, L: Length, IP: Parser>(length_parser: LP, item_parser: IP) -> (r: Dep<
    Conv<LP, ToLength<L>, usize>,
    Array<IP>,
>)
    where
        LP: Parser<T = L>,
    ensures
        r == (Dep {
            p1: Conv { p: length_parser, c: ToLength { l: PhantomData::<L> }, u: PhantomData::<usize> },
            p2: Array { p: item_parser },
        }),
{
    dep(length(length_parser), array(item_parser))
}

/// A tagged union whose variants share one body: a discriminator, which
/// must be one of `tags`, then the body.
pub struct Tagged<D, N, P> {
    pub disc: D,
    pub tags: Vec<N>,
    pub p: P,
}

impl<D: Parser<T = N>, N: Number, P: Parser> Tagged<D, N, P> {
    /// Whether a discriminator names a variant.
    pub open spec fn known(&self, d: N::V) -> bool {
        exists|i: int| 0 <= i < self.tags@.len() && N::spec_value(#[trigger] self.tags@[i].deep_view()) == N::spec_value(d)
    }

    fn is_known(&self, d: &N) -> (r: bool)
        ensures
            r == self.known(d.deep_view()),
    {
        let mut i: usize = 0;
        while i < self.tags.len()
            invariant
                i <= self.tags@.len(),
                forall|k: int| 0 <= k < i ==> N::spec_value(#[trigger] self.tags@[k].deep_view()) != N::spec_value(d.deep_view()),
            decreases self.tags@.len() - i,
        {
            if self.tags[i].value() == d.value() {
                return true;
            }
            i = i + 1;
        }
        false
    }
}

impl<D: Parser<T = N>, N: Number, P: Parser> Parser for Tagged<D, N, P> {
    type T = (N, P::T);

    open spec fn spec_parse(&self, input: Seq<u8>, pos: int) -> Parsed<(N::V, <P::T as DeepView>::V)> {
        match self.disc.spec_parse(input, pos) {
            Ok((d, m)) => if self.known(d) {
                match self.p.spec_parse(input, m) {
                    Ok((v, k)) => Ok(((d, v), k)),
                    Err(e) => Err(e),
                }
            } else {
                Err((ParseError::InvalidDiscriminator(N::spec_value(d) as u64), pos))
            },
            Err(e) => Err(e),
        }
    }

    open spec fn spec_write(&self, v: (N::V, <P::T as DeepView>::V)) -> Written {
        match self.disc.spec_write(v.0) {
            Ok(b1) => match self.p.spec_write(v.1) {
                Ok(b2) => Ok(b1 + b2),
                Err(e) => Err(e),
            },
            Err(e) => Err(e),
        }
    }

    open spec fn valid(&self, v: (N::V, <P::T as DeepView>::V)) -> bool {
        self.disc.valid(v.0) && self.known(v.0) && self.p.valid(v.1)
    }

    fn parse(&self, input: &[u8], pos: usize) -> (r: Result<((N, P::T), usize), (ParseError, usize)>) {
        let (d, m) = self.disc.parse(input, pos)?;
        if self.is_known(&d) {
            let (v, k) = self.p.parse(input, m)?;
            Ok(((d, v), k))
        } else {
            Err((ParseError::InvalidDiscriminator(d.value()), pos))
        }
    }

    fn write(&self, out: &mut Vec<u8>, v: &(N, P::T)) -> (r: Result<(), WriteError>) {
        let start = out.len();
        self.disc.write(out, &v.0)?;
        match self.p.write(out, &v.1) {
            Ok(()) => Ok(()),
            Err(e) => {
                undo(out, start);
                Err(e)
            },
        }
    }

    proof fn lemma_round_trip(&self, v: (N::V, <P::T as DeepView>::V), input: Seq<u8>, pos: int) {
        let b1 = self.disc.spec_write(v.0)->Ok_0;
        let b2 = self.p.spec_write(v.1)->Ok_0;
        let whole = input.subrange(pos, pos + b1.len() + b2.len());
        assert(input.subrange(pos, pos + b1.len()) =~= whole.subrange(0, b1.len() as int));
        assert(input.subrange(pos + b1.len(), pos + b1.len() + b2.len()) =~= whole.subrange(b1.len() as int, whole.len() as int));
        assert((b1 + b2).subrange(0, b1.len() as int) =~= b1);
        assert((b1 + b2).subrange(b1.len() as int, (b1 + b2).len() as int) =~= b2);
        self.disc.lemma_round_trip(v.0, input, pos);
        self.p.lemma_round_trip(v.1, input, pos + b1.len());
    }
}

pub fn tagged<D: Parser<T = N>, N: Number, P: Parser>(disc: D, tags: Vec<N>, p: P) -> (r: Tagged<D, N, P>)
    ensures
        r.disc == disc,
        r.tags == tags,
        r.p == p,
{
    Tagged { disc, tags, p }
}

/// What `String::from_utf8` makes of some bytes: the text, if they are
/// valid UTF-8.
pub uninterp spec fn utf8_decoded(b: Seq<u8>) -> Option<Seq<char>>;

/// The UTF-8 bytes of a text.
pub uninterp spec fn utf8_encoded(s: Seq<char>) -> Seq<u8>;

/// Relies on `String::from_utf8`: the text that the bytes encode, or
/// nothing when they are not valid UTF-8. Bytes below 0x80 are ASCII, which
/// is valid UTF-8 and stands for the characters of the same codes.
#[verifier::external_body]
pub(crate) fn decode_utf8(b: Vec<u8>) -> (r: Option<String>)
    ensures
        r.deep_view() == utf8_decoded(b@),
        (forall|i: int| 0 <= i < b@.len() ==> #[trigger] b@[i] < 128) ==> r.deep_view() == Some(
            Seq::new(b@.len(), |i: int| b@[i] as char),
        ),
{
    String::from_utf8(b).ok()
}

/// Relies on `String::into_bytes`: the UTF-8 bytes of the text.
#[verifier::external_body]
fn encode_utf8(s: String) -> (r: Vec<u8>)
    ensures
        r@ == utf8_encoded(s@),
{
    s.into_bytes()
}

pub(crate) fn copy_bytes(input: &[u8], pos: usize, len: usize) -> (r: Vec<u8>)
    requires
        pos + len <= input@.len(),
    ensures
        r@ == input@.subrange(pos as int, pos + len),
{
    let mut r: Vec<u8> = Vec::new();
    let total = input.len();
    let mut i: usize = 0;
    while i < len
        invariant
            i <= len,
            pos + len <= input@.len(),
            total == input@.len(),
            r@ == input@.subrange(pos as int, pos + i),
        decreases len - i,
    {
        r.push(input[pos + i]);
        i = i + 1;
        assert(r@ =~= input@.subrange(pos as int, pos + i));
    }
    r
}

fn append_bytes(out: &mut Vec<u8>, b: &Vec<u8>)
    ensures
        final(out)@ == old(out)@ + b@,
{
    let mut i: usize = 0;
    while i < b.len()
        invariant
            i <= b@.len(),
            out@ == old(out)@ + b@.subrange(0, i as int),
        decreases b@.len() - i,
    {
        out.push(b[i]);
        i = i + 1;
        assert(out@ =~= old(out)@ + b@.subrange(0, i as int));
    }
    assert(b@.subrange(0, b@.len() as int) =~= b@);
}

/// A UTF-8 text of a given number of bytes.
pub struct Utf8 {
    pub len: Option<usize>,
}

impl ParameterizedParser for Utf8 {
    type T = String;

    open spec fn spec_parse_with(&self, input: Seq<u8>, pos: int, n: usize) -> Parsed<Seq<char>> {
        if pos + n <= input.len() {
            match utf8_decoded(input.subrange(pos, pos + n)) {
                Some(s) => Ok((s, pos + n)),
                None => Err((ParseError::EncodingError, pos)),
            }
        } else {
            Err((ParseError::IoError, pos))
        }
    }

    open spec fn spec_write_body(&self, v: Seq<char>) -> Written {
        Ok(utf8_encoded(v))
    }

    open spec fn spec_params(&self, v: Seq<char>) -> usize {
        utf8_encoded(v).len() as usize
    }

    open spec fn valid_body(&self, v: Seq<char>) -> bool {
        utf8_encoded(v).len() <= usize::MAX && utf8_decoded(utf8_encoded(v)) == Some(v)
    }

    fn parse_with_params(&self, input: &[u8], pos: usize, n: usize) -> (r: Result<(String, usize), (ParseError, usize)>) {
        if n <= input.len() - pos {
            let bytes = copy_bytes(input, pos, n);
            match decode_utf8(bytes) {
                Some(s) => Ok((s, pos + n)),
                None => Err((ParseError::EncodingError, pos)),
            }
        } else {
            Err((ParseError::IoError, pos))
        }
    }

    fn write_body(&self, out: &mut Vec<u8>, v: &String) -> (r: Result<(), WriteError>) {
        let bytes = encode_utf8(v.clone());
        append_bytes(out, &bytes);
        Ok(())
    }

    fn extract_params(&self, v: &String) -> (r: usize) {
        let bytes = encode_utf8(v.clone());
        bytes.len()
    }

    proof fn lemma_round_trip_with(&self, v: Seq<char>, input: Seq<u8>, pos: int) {
    }
}

} // verus!

verus! {

impl Parser for Utf8 {
    type T = String;

    open spec fn spec_parse(&self, input: Seq<u8>, pos: int) -> Parsed<Seq<char>> {
        match self.len {
            Some(n) => self.spec_parse_with(input, pos, n),
            None => Err((ParseError::PredicateFailed("string length unknown"), pos)),
        }
    }

    open spec fn spec_write(&self, v: Seq<char>) -> Written {
        self.spec_write_body(v)
    }

    open spec fn valid(&self, v: Seq<char>) -> bool {
        self.valid_body(v) && self.len == Some(self.spec_params(v))
    }

    fn parse(&self, input: &[u8], pos: usize) -> (r: Result<(String, usize), (ParseError, usize)>) {
        match self.len {
            Some(n) => self.parse_with_params(input, pos, n),
            None => Err((ParseError::PredicateFailed("string length unknown"), pos)),
        }
    }

    fn write(&self, out: &mut Vec<u8>, v: &String) -> (r: Result<(), WriteError>) {
        self.write_body(out, v)
    }

    proof fn lemma_round_trip(&self, v: Seq<char>, input: Seq<u8>, pos: int) {
        self.lemma_round_trip_with(v, input, pos);
    }
}

/// A text of exactly `len` bytes.
pub fn utf8_with_len(len: usize) -> (r: Utf8)
    ensures
        r.len == Some(len),
{
    Utf8 { len: Some(len) }
}

/// A text whose length comes from a preceding field (see `dep`).
pub fn utf8() -> (r: Utf8)
    ensures
        r.len is None,
{
    Utf8 { len: None }
}

} // verus!
