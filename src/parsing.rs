//! The parser abstraction: a description of a wire field that can both read
//! a value out of bytes and write a value back as bytes.
use vstd::prelude::*;
use crate::result::{ParseError, WriteError};

verus! {

/// What parsing at a position yields: the value and the position after it,
/// or the error and the position it is reported at.
pub type Parsed<V> = Result<(V, int), (ParseError, int)>;

/// What writing a value yields: the bytes, or why it cannot be written.
pub type Written = Result<Seq<u8>, WriteError>;

/// A wire field. Values are described by their deep view.
pub trait Parser {
    type T: DeepView;

    /// Parsing `input` from position `pos`.
    spec fn spec_parse(&self, input: Seq<u8>, pos: int) -> Parsed<<Self::T as DeepView>::V>;

    /// The bytes that `v` is written as.
    spec fn spec_write(&self, v: <Self::T as DeepView>::V) -> Written;

    /// The values that survive a write followed by a parse.
    spec fn valid(&self, v: <Self::T as DeepView>::V) -> bool;

    fn parse(&self, input: &[u8], pos: usize) -> (r: Result<(Self::T, usize), (ParseError, usize)>)
        requires
            pos <= input@.len(),
        ensures
            match r {
                Ok((v, n)) => self.spec_parse(input@, pos as int) == Parsed::Ok((v.deep_view(), n as int))
                    && pos <= n <= input@.len(),
                Err((e, n)) => self.spec_parse(input@, pos as int) == Parsed::<<Self::T as DeepView>::V>::Err((e, n as int)),
            },
    ;

    fn write(&self, out: &mut Vec<u8>, v: &Self::T) -> (r: Result<(), WriteError>)
        ensures
            match self.spec_write(v.deep_view()) {
                Ok(b) => r is Ok && final(out)@ == old(out)@ + b,
                Err(e) => r == Err::<(), WriteError>(e) && final(out)@ == old(out)@,
            },
    ;

    /// A valid value that is written and then parsed comes back unchanged,
    /// whatever follows it in the input.
    proof fn lemma_round_trip(&self, v: <Self::T as DeepView>::V, input: Seq<u8>, pos: int)
        requires
            0 <= pos,
            self.valid(v),
            self.spec_write(v) is Ok,
            pos + self.spec_write(v)->Ok_0.len() <= input.len(),
            input.subrange(pos, pos + self.spec_write(v)->Ok_0.len()) == self.spec_write(v)->Ok_0,
        ensures
            self.spec_parse(input, pos) == Parsed::Ok((v, pos + self.spec_write(v)->Ok_0.len())),
    ;
}

} // verus!

verus! {

/// A two-way conversion between a field's wire value `A` and the value `B`
/// that a packet stores.
pub trait Conversion<A: DeepView, B: DeepView> {
    spec fn spec_to(&self, a: A::V) -> B::V;

    spec fn spec_back(&self, b: B::V) -> Result<A::V, WriteError>;

    /// The stored values that convert back and forth unchanged.
    spec fn valid(&self, b: B::V) -> bool;

    fn to(&self, a: A) -> (r: B)
        ensures
            r.deep_view() == self.spec_to(a.deep_view()),
    ;

    fn back(&self, b: &B) -> (r: Result<A, WriteError>)
        ensures
            match r {
                Ok(a) => self.spec_back(b.deep_view()) == Ok::<A::V, WriteError>(a.deep_view()),
                Err(e) => self.spec_back(b.deep_view()) == Err::<A::V, WriteError>(e),
            },
    ;

    proof fn lemma_inverse(&self, b: B::V)
        requires
            self.valid(b),
            self.spec_back(b) is Ok,
        ensures
            self.spec_to(self.spec_back(b)->Ok_0) == b,
    ;
}

/// A test that a freshly parsed value must pass.
pub trait Predicate<T: DeepView> {
    spec fn holds(&self, v: T::V) -> bool;

    fn test(&self, v: &T) -> (r: bool)
        ensures
            r == self.holds(v.deep_view()),
    ;
}

/// An unsigned number that can be compared with a constant.
pub trait Number: DeepView + Copy {
    spec fn spec_value(v: Self::V) -> int;

    fn value(&self) -> (r: u64)
        ensures
            r as int == Self::spec_value(self.deep_view()),
    ;
}

impl Number for u8 {
    open spec fn spec_value(v: u8) -> int {
        v as int
    }

    fn value(&self) -> (r: u64) {
        *self as u64
    }
}

impl Number for u16 {
    open spec fn spec_value(v: u16) -> int {
        v as int
    }

    fn value(&self) -> (r: u64) {
        *self as u64
    }
}

impl Number for u32 {
    open spec fn spec_value(v: u32) -> int {
        v as int
    }

    fn value(&self) -> (r: u64) {
        *self as u64
    }
}

/// An unsigned number that carries a length on the wire.
pub trait Length: DeepView + Copy {
    spec fn spec_to_usize(v: Self::V) -> usize;

    spec fn spec_from_usize(l: usize) -> Self::V;

    /// The lengths that this number can carry.
    spec fn fits(l: usize) -> bool;

    fn from_usize(l: usize) -> (r: Self)
        ensures
            r.deep_view() == Self::spec_from_usize(l),
    ;

    fn to_usize(self) -> (r: usize)
        ensures
            r == Self::spec_to_usize(self.deep_view()),
    ;

    proof fn lemma_fits(l: usize)
        requires
            Self::fits(l),
        ensures
            Self::spec_to_usize(Self::spec_from_usize(l)) == l,
    ;
}

impl Length for u8 {
    open spec fn spec_to_usize(v: u8) -> usize {
        v as usize
    }

    open spec fn spec_from_usize(l: usize) -> u8 {
        l as u8
    }

    open spec fn fits(l: usize) -> bool {
        l <= u8::MAX
    }

    fn from_usize(l: usize) -> (r: u8) {
        l as u8
    }

    fn to_usize(self) -> (r: usize) {
        self as usize
    }

    proof fn lemma_fits(l: usize) {
    }
}

impl Length for u16 {
    open spec fn spec_to_usize(v: u16) -> usize {
        v as usize
    }

    open spec fn spec_from_usize(l: usize) -> u16 {
        l as u16
    }

    open spec fn fits(l: usize) -> bool {
        l <= u16::MAX
    }

    fn from_usize(l: usize) -> (r: u16) {
        l as u16
    }

    fn to_usize(self) -> (r: usize) {
        self as usize
    }

    proof fn lemma_fits(l: usize) {
    }
}

impl Length for u32 {
    open spec fn spec_to_usize(v: u32) -> usize {
        v as usize
    }

    open spec fn spec_from_usize(l: usize) -> u32 {
        l as u32
    }

    open spec fn fits(l: usize) -> bool {
        l <= u32::MAX
    }

    fn from_usize(l: usize) -> (r: u32) {
        l as u32
    }

    fn to_usize(self) -> (r: usize) {
        self as usize
    }

    proof fn lemma_fits(l: usize) {
    }
}

} // verus!

verus! {

/// A field whose extent is given from outside, by a count that precedes it.
pub trait ParameterizedParser {
    type T: DeepView;

    spec fn spec_parse_with(&self, input: Seq<u8>, pos: int, n: usize) -> Parsed<<Self::T as DeepView>::V>;

    spec fn spec_write_body(&self, v: <Self::T as DeepView>::V) -> Written;

    /// The count that describes `v`.
    spec fn spec_params(&self, v: <Self::T as DeepView>::V) -> usize;

    spec fn valid_body(&self, v: <Self::T as DeepView>::V) -> bool;

    fn parse_with_params(&self, input: &[u8], pos: usize, n: usize) -> (r: Result<(Self::T, usize), (ParseError, usize)>)
        requires
            pos <= input@.len(),
        ensures
            match r {
                Ok((v, m)) => self.spec_parse_with(input@, pos as int, n) == Parsed::Ok((v.deep_view(), m as int))
                    && pos <= m <= input@.len(),
                Err((e, m)) => self.spec_parse_with(input@, pos as int, n) == Parsed::<<Self::T as DeepView>::V>::Err((e, m as int)),
            },
    ;

    fn write_body(&self, out: &mut Vec<u8>, v: &Self::T) -> (r: Result<(), WriteError>)
        ensures
            match self.spec_write_body(v.deep_view()) {
                Ok(b) => r is Ok && final(out)@ == old(out)@ + b,
                Err(e) => r == Err::<(), WriteError>(e) && final(out)@ == old(out)@,
            },
    ;

    fn extract_params(&self, v: &Self::T) -> (r: usize)
        ensures
            r == self.spec_params(v.deep_view()),
    ;

    proof fn lemma_round_trip_with(&self, v: <Self::T as DeepView>::V, input: Seq<u8>, pos: int)
        requires
            0 <= pos,
            self.valid_body(v),
            self.spec_write_body(v) is Ok,
            pos + self.spec_write_body(v)->Ok_0.len() <= input.len(),
            input.subrange(pos, pos + self.spec_write_body(v)->Ok_0.len()) == self.spec_write_body(v)->Ok_0,
        ensures
            self.spec_parse_with(input, pos, self.spec_params(v)) == Parsed::Ok(
                (v, pos + self.spec_write_body(v)->Ok_0.len()),
            ),
    ;
}

} // verus!

verus! {

/// Writing a valid value and parsing the bytes back, whatever follows them,
/// gives the value again and stops right after its bytes.
pub proof fn lemma_write_then_parse<P: Parser>(p: P, v: <P::T as DeepView>::V, rest: Seq<u8>)
    requires
        p.valid(v),
        p.spec_write(v) is Ok,
    ensures
        p.spec_parse(p.spec_write(v)->Ok_0 + rest, 0) == Parsed::Ok((v, p.spec_write(v)->Ok_0.len() as int)),
{
    let b = p.spec_write(v)->Ok_0;
    assert((b + rest).subrange(0, b.len() as int) =~= b);
    p.lemma_round_trip(v, b + rest, 0);
}

/// Parses one value from the start of `input`; on failure, the error and
/// the position it arose at.
pub fn io_parse<P: Parser>(parser: &P, input: &[u8]) -> (r: Result<(P::T, usize), (ParseError, usize)>)
    ensures
        match r {
            Ok((v, n)) => parser.spec_parse(input@, 0) == Parsed::Ok((v.deep_view(), n as int)) && n <= input@.len(),
            Err((e, n)) => parser.spec_parse(input@, 0) == Parsed::<<P::T as DeepView>::V>::Err((e, n as int)),
        },
{
    parser.parse(input, 0)
}

/// Appends the bytes of `value` to `output`.
pub fn io_write<P: Parser>(parser: &P, output: &mut Vec<u8>, value: &P::T) -> (r: Result<(), WriteError>)
    ensures
        match parser.spec_write(value.deep_view()) {
            Ok(b) => r is Ok && final(output)@ == old(output)@ + b,
            Err(e) => r == Err::<(), WriteError>(e) && final(output)@ == old(output)@,
        },
{
    parser.write(output, value)
}

} // verus!
