//! Writing and reading operands as bytes, little end first.

use vstd::prelude::*;
use vstd::bytes::*;
use vstd::slice::*;
use crate::runtime::value::Number;

verus! {

/// Something that bytes are written to.
pub trait Write {
    /// All the bytes written so far.
    spec fn written(&self) -> Seq<u8>;

    /// Writes `buf` after what was written before.
    fn write(&mut self, buf: &[u8])
        ensures
            final(self).written() == old(self).written() + buf@,
    ;
}

/// Something that has an encoding.
pub trait Encode {
    /// The bytes that encode the value.
    spec fn encoding(&self) -> Seq<u8>;

    /// Writes the encoding of the value.
    fn encode<Writer: Write>(&self, writer: &mut Writer)
        ensures
            final(writer).written() == old(writer).written() + self.encoding(),
    ;
}

/// Why bytes could not be read as a value.
#[derive(Debug, Clone, Copy, PartialEq, Eq, Structural)]
pub enum DecoderErrorDetail {
    /// A truth value that is neither 0 nor 1.
    InvalidBool(u8),
    /// Fewer bytes than the value takes.
    NoEnoughData { expected: usize, rem: usize },
    /// A byte that is the code of no operation.
    InvalidOperation(u8),
}

/// An error of the decoder with the place where it arose.
#[derive(Debug, Clone, Copy, PartialEq, Eq, Structural)]
pub struct DecoderError {
    pub pos: usize,
    pub error: DecoderErrorDetail,
}

impl DecoderError {
    pub fn from_detail(pos: usize, detail: DecoderErrorDetail) -> (r: Self)
        ensures
            r == (DecoderError { pos, error: detail }),
    {
        DecoderError { pos, error: detail }
    }
}

/// Something that can be read from bytes.
pub trait Decode: Sized {
    /// The value that the start of `buf` encodes, with the number of bytes
    /// that it takes.
    spec fn decoding(buf: Seq<u8>) -> Result<(Self, usize), DecoderErrorDetail>;

    /// Reads a value from the start of `buf`.
    fn decode(buf: &[u8]) -> (r: Result<(Self, usize), DecoderErrorDetail>)
        ensures
            r == Self::decoding(buf@),
    ;
}

/// The first `n` bytes of `buf`, if it has as many.
pub open spec fn bytes_taken(buf: Seq<u8>, n: usize) -> Result<Seq<u8>, DecoderErrorDetail> {
    if buf.len() < n {
        Err(DecoderErrorDetail::NoEnoughData { expected: n, rem: buf.len() as usize })
    } else {
        Ok(buf.take(n as int))
    }
}

/// The first `n` bytes of `buf`, if it has as many.
pub fn get_bytes(buf: &[u8], n: usize) -> (r: Result<&[u8], DecoderErrorDetail>)
    ensures
        match r {
            Ok(bytes) => bytes_taken(buf@, n) == Ok::<Seq<u8>, DecoderErrorDetail>(bytes@),
            Err(e) => bytes_taken(buf@, n) == Err::<Seq<u8>, DecoderErrorDetail>(e),
        },
{
    if buf.len() < n {
        Err(DecoderErrorDetail::NoEnoughData { expected: n, rem: buf.len() })
    } else {
        Ok(slice_subrange(buf, 0, n))
    }
}

impl Encode for bool {
    open spec fn encoding(&self) -> Seq<u8> {
        seq![if *self { 1u8 } else { 0u8 }]
    }

    fn encode<Writer: Write>(&self, writer: &mut Writer) {
        let mut bytes: Vec<u8> = Vec::new();
        bytes.push(if *self { 1 } else { 0 });
        assert(bytes@ =~= self.encoding());
        writer.write(bytes.as_slice());
    }
}

impl Decode for bool {
    open spec fn decoding(buf: Seq<u8>) -> Result<(bool, usize), DecoderErrorDetail> {
        match bytes_taken(buf, 1) {
            Err(e) => Err(e),
            Ok(bytes) => if bytes[0] == 0 {
                Ok((false, 1))
            } else if bytes[0] == 1 {
                Ok((true, 1))
            } else {
                Err(DecoderErrorDetail::InvalidBool(bytes[0]))
            },
        }
    }

    fn decode(buf: &[u8]) -> (r: Result<(bool, usize), DecoderErrorDetail>) {
        match get_bytes(buf, 1) {
            Err(e) => Err(e),
            Ok(bytes) => {
                let b = bytes[0];
                if b == 0 {
                    Ok((false, 1))
                } else if b == 1 {
                    Ok((true, 1))
                } else {
                    Err(DecoderErrorDetail::InvalidBool(b))
                }
            },
        }
    }
}

impl Encode for u32 {
    open spec fn encoding(&self) -> Seq<u8> {
        spec_u32_to_le_bytes(*self)
    }

    fn encode<Writer: Write>(&self, writer: &mut Writer) {
        let bytes = u32_to_le_bytes(*self);
        writer.write(bytes.as_slice());
    }
}

impl Decode for u32 {
    open spec fn decoding(buf: Seq<u8>) -> Result<(u32, usize), DecoderErrorDetail> {
        match bytes_taken(buf, 4) {
            Err(e) => Err(e),
            Ok(bytes) => Ok((spec_u32_from_le_bytes(bytes), 4)),
        }
    }

    fn decode(buf: &[u8]) -> (r: Result<(u32, usize), DecoderErrorDetail>) {
        match get_bytes(buf, 4) {
            Err(e) => Err(e),
            Ok(bytes) => Ok((u32_from_le_bytes(bytes), 4)),
        }
    }
}

impl Encode for Number {
    open spec fn encoding(&self) -> Seq<u8> {
        spec_u64_to_le_bytes(self.bits)
    }

    fn encode<Writer: Write>(&self, writer: &mut Writer) {
        let bytes = u64_to_le_bytes(self.bits);
        writer.write(bytes.as_slice());
    }
}

impl Decode for Number {
    open spec fn decoding(buf: Seq<u8>) -> Result<(Number, usize), DecoderErrorDetail> {
        match bytes_taken(buf, 8) {
            Err(e) => Err(e),
            Ok(bytes) => Ok((Number { bits: spec_u64_from_le_bytes(bytes) }, 8)),
        }
    }

    fn decode(buf: &[u8]) -> (r: Result<(Number, usize), DecoderErrorDetail>) {
        match get_bytes(buf, 8) {
            Err(e) => Err(e),
            Ok(bytes) => Ok((Number { bits: u64_from_le_bytes(bytes) }, 8)),
        }
    }
}

/// A truth value is read back from its encoding, whatever follows it.
pub proof fn lemma_bool_round_trip(b: bool, rest: Seq<u8>)
    ensures
        <bool as Decode>::decoding(b.encoding() + rest) == Ok::<
            (bool, usize),
            DecoderErrorDetail,
        >((b, 1)),
{
}

/// A 32-bit number is read back from its encoding, whatever follows it.
pub proof fn lemma_u32_round_trip(x: u32, rest: Seq<u8>)
    ensures
        x.encoding().len() == 4,
        <u32 as Decode>::decoding(x.encoding() + rest) == Ok::<(u32, usize), DecoderErrorDetail>(
            (x, 4),
        ),
{
    lemma_auto_spec_u32_to_from_le_bytes();
    assert((x.encoding() + rest).take(4) =~= x.encoding());
}

/// A number is read back from its encoding, whatever follows it.
pub proof fn lemma_number_round_trip(x: Number, rest: Seq<u8>)
    ensures
        x.encoding().len() == 8,
        <Number as Decode>::decoding(x.encoding() + rest) == Ok::<
            (Number, usize),
            DecoderErrorDetail,
        >((x, 8)),
{
    lemma_auto_spec_u64_to_from_le_bytes();
    assert((x.encoding() + rest).take(8) =~= x.encoding());
}

} // verus!
