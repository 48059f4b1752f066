//! The operations, and their encoding: one byte that tells the operation,
//! then its operands.

use vstd::prelude::*;
use crate::ast::expr::{BinaryOp, UnaryOp};
use crate::bytecode::codec::{
    lemma_bool_round_trip, lemma_number_round_trip, lemma_u32_round_trip, Decode, DecoderError,
    DecoderErrorDetail, Encode, Write,
};
use crate::bytecode::string::StringSymbol;
use crate::runtime::value::Number;

verus! {

#[derive(Debug, Clone, Copy, PartialEq, Eq, Structural)]
pub enum Operation {
    LoadNumber(Number),
    LoadString(StringSymbol),
    LoadBool(bool),
    LoadNil,
    Negative,
    Not,
    Plus,
    Minus,
    Multiply,
    Divide,
    And,
    Or,
    Greater,
    GreaterEqual,
    Less,
    LessEqual,
    Equal,
    NotEqual,
}

impl Operation {
    /// The byte that tells the operation: its place in the enumeration.
    pub open spec fn code(self) -> u8 {
        match self {
            Operation::LoadNumber(_) => 0,
            Operation::LoadString(_) => 1,
            Operation::LoadBool(_) => 2,
            Operation::LoadNil => 3,
            Operation::Negative => 4,
            Operation::Not => 5,
            Operation::Plus => 6,
            Operation::Minus => 7,
            Operation::Multiply => 8,
            Operation::Divide => 9,
            Operation::And => 10,
            Operation::Or => 11,
            Operation::Greater => 12,
            Operation::GreaterEqual => 13,
            Operation::Less => 14,
            Operation::LessEqual => 15,
            Operation::Equal => 16,
            Operation::NotEqual => 17,
        }
    }

    /// The operation without operands that `code` tells, if it tells one.
    pub open spec fn plain(code: u8) -> Option<Operation> {
        if code == 3 {
            Some(Operation::LoadNil)
        } else if code == 4 {
            Some(Operation::Negative)
        } else if code == 5 {
            Some(Operation::Not)
        } else if code == 6 {
            Some(Operation::Plus)
        } else if code == 7 {
            Some(Operation::Minus)
        } else if code == 8 {
            Some(Operation::Multiply)
        } else if code == 9 {
            Some(Operation::Divide)
        } else if code == 10 {
            Some(Operation::And)
        } else if code == 11 {
            Some(Operation::Or)
        } else if code == 12 {
            Some(Operation::Greater)
        } else if code == 13 {
            Some(Operation::GreaterEqual)
        } else if code == 14 {
            Some(Operation::Less)
        } else if code == 15 {
            Some(Operation::LessEqual)
        } else if code == 16 {
            Some(Operation::Equal)
        } else if code == 17 {
            Some(Operation::NotEqual)
        } else {
            None
        }
    }

    /// The operation that a binary operator compiles to.
    pub open spec fn of_binary(op: BinaryOp) -> Operation {
        match op {
            BinaryOp::And => Operation::And,
            BinaryOp::Divide => Operation::Divide,
            BinaryOp::Equal => Operation::Equal,
            BinaryOp::Greater => Operation::Greater,
            BinaryOp::GreaterEqual => Operation::GreaterEqual,
            BinaryOp::Less => Operation::Less,
            BinaryOp::LessEqual => Operation::LessEqual,
            BinaryOp::Minus => Operation::Minus,
            BinaryOp::Multiply => Operation::Multiply,
            BinaryOp::NotEqual => Operation::NotEqual,
            BinaryOp::Or => Operation::Or,
            BinaryOp::Plus => Operation::Plus,
        }
    }

    /// The operation that a binary operator compiles to.
    pub fn from_binary(op: BinaryOp) -> (r: Operation)
        ensures
            r == Self::of_binary(op),
    {
        match op {
            BinaryOp::And => Operation::And,
            BinaryOp::Divide => Operation::Divide,
            BinaryOp::Equal => Operation::Equal,
            BinaryOp::Greater => Operation::Greater,
            BinaryOp::GreaterEqual => Operation::GreaterEqual,
            BinaryOp::Less => Operation::Less,
            BinaryOp::LessEqual => Operation::LessEqual,
            BinaryOp::Minus => Operation::Minus,
            BinaryOp::Multiply => Operation::Multiply,
            BinaryOp::NotEqual => Operation::NotEqual,
            BinaryOp::Or => Operation::Or,
            BinaryOp::Plus => Operation::Plus,
        }
    }

    /// The operation that a prefix operator compiles to.
    pub open spec fn of_unary(op: UnaryOp) -> Operation {
        match op {
            UnaryOp::Negative => Operation::Negative,
            UnaryOp::Not => Operation::Not,
        }
    }

    /// The operation that a prefix operator compiles to.
    pub fn from_unary(op: UnaryOp) -> (r: Operation)
        ensures
            r == Self::of_unary(op),
    {
        match op {
            UnaryOp::Negative => Operation::Negative,
            UnaryOp::Not => Operation::Not,
        }
    }

    /// The operation without operands that `code` tells.
    fn plain_of(code: u8) -> (r: Option<Operation>)
        ensures
            r == Self::plain(code),
    {
        if code == 3 {
            Some(Operation::LoadNil)
        } else if code == 4 {
            Some(Operation::Negative)
        } else if code == 5 {
            Some(Operation::Not)
        } else if code == 6 {
            Some(Operation::Plus)
        } else if code == 7 {
            Some(Operation::Minus)
        } else if code == 8 {
            Some(Operation::Multiply)
        } else if code == 9 {
            Some(Operation::Divide)
        } else if code == 10 {
            Some(Operation::And)
        } else if code == 11 {
            Some(Operation::Or)
        } else if code == 12 {
            Some(Operation::Greater)
        } else if code == 13 {
            Some(Operation::GreaterEqual)
        } else if code == 14 {
            Some(Operation::Less)
        } else if code == 15 {
            Some(Operation::LessEqual)
        } else if code == 16 {
            Some(Operation::Equal)
        } else if code == 17 {
            Some(Operation::NotEqual)
        } else {
            None
        }
    }
}

impl Encode for Operation {
    open spec fn encoding(&self) -> Seq<u8> {
        match self {
            Operation::LoadNumber(n) => seq![self.code()] + n.encoding(),
            Operation::LoadString(s) => seq![self.code()] + s.encoding(),
            Operation::LoadBool(b) => seq![self.code()] + b.encoding(),
            _ => seq![self.code()],
        }
    }

    fn encode<Writer: Write>(&self, writer: &mut Writer) {
        let ghost before = writer.written();
        let mut head: Vec<u8> = Vec::new();
        match self {
            Operation::LoadNumber(n) => {
                head.push(0);
                assert(head@ =~= seq![self.code()]);
                writer.write(head.as_slice());
                n.encode(writer);
                assert(before + seq![self.code()] + n.encoding() =~= before + (seq![self.code()]
                    + n.encoding()));
            },
            Operation::LoadString(s) => {
                head.push(1);
                assert(head@ =~= seq![self.code()]);
                writer.write(head.as_slice());
                s.encode(writer);
                assert(before + seq![self.code()] + s.encoding() =~= before + (seq![self.code()]
                    + s.encoding()));
            },
            Operation::LoadBool(b) => {
                head.push(2);
                assert(head@ =~= seq![self.code()]);
                writer.write(head.as_slice());
                b.encode(writer);
                assert(before + seq![self.code()] + b.encoding() =~= before + (seq![self.code()]
                    + b.encoding()));
            },
            Operation::LoadNil => {
                head.push(3);
                assert(head@ =~= seq![self.code()]);
                writer.write(head.as_slice());
            },
            Operation::Negative => {
                head.push(4);
                assert(head@ =~= seq![self.code()]);
                writer.write(head.as_slice());
            },
            Operation::Not => {
                head.push(5);
                assert(head@ =~= seq![self.code()]);
                writer.write(head.as_slice());
            },
            Operation::Plus => {
                head.push(6);
                assert(head@ =~= seq![self.code()]);
                writer.write(head.as_slice());
            },
            Operation::Minus => {
                head.push(7);
                assert(head@ =~= seq![self.code()]);
                writer.write(head.as_slice());
            },
            Operation::Multiply => {
                head.push(8);
                assert(head@ =~= seq![self.code()]);
                writer.write(head.as_slice());
            },
            Operation::Divide => {
                head.push(9);
                assert(head@ =~= seq![self.code()]);
                writer.write(head.as_slice());
            },
            Operation::And => {
                head.push(10);
                assert(head@ =~= seq![self.code()]);
                writer.write(head.as_slice());
            },
            Operation::Or => {
                head.push(11);
                assert(head@ =~= seq![self.code()]);
                writer.write(head.as_slice());
            },
            Operation::Greater => {
                head.push(12);
                assert(head@ =~= seq![self.code()]);
                writer.write(head.as_slice());
            },
            Operation::GreaterEqual => {
                head.push(13);
                assert(head@ =~= seq![self.code()]);
                writer.write(head.as_slice());
            },
            Operation::Less => {
                head.push(14);
                assert(head@ =~= seq![self.code()]);
                writer.write(head.as_slice());
            },
            Operation::LessEqual => {
                head.push(15);
                assert(head@ =~= seq![self.code()]);
                writer.write(head.as_slice());
            },
            Operation::Equal => {
                head.push(16);
                assert(head@ =~= seq![self.code()]);
                writer.write(head.as_slice());
            },
            Operation::NotEqual => {
                head.push(17);
                assert(head@ =~= seq![self.code()]);
                writer.write(head.as_slice());
            },
        }
    }
}

/// What follows the code of an operation, shifted by the byte of the code.
pub open spec fn after_code<T>(
    r: Result<(T, usize), DecoderErrorDetail>,
    make: spec_fn(T) -> Operation,
) -> Result<(Operation, usize), DecoderErrorDetail> {
    match r {
        Ok((v, size)) => Ok((make(v), (size + 1) as usize)),
        Err(e) => Err(e),
    }
}

impl Decode for Operation {
    open spec fn decoding(buf: Seq<u8>) -> Result<(Operation, usize), DecoderErrorDetail> {
        if buf.len() < 1 {
            Err(DecoderErrorDetail::NoEnoughData { expected: 1, rem: 0 })
        } else {
            let rest = buf.skip(1);
            if buf[0] == 0 {
                after_code(<Number as Decode>::decoding(rest), |n: Number| Operation::LoadNumber(n))
            } else if buf[0] == 1 {
                after_code(
                    <StringSymbol as Decode>::decoding(rest),
                    |s: StringSymbol| Operation::LoadString(s),
                )
            } else if buf[0] == 2 {
                after_code(<bool as Decode>::decoding(rest), |b: bool| Operation::LoadBool(b))
            } else {
                match Operation::plain(buf[0]) {
                    Some(op) => Ok((op, 1)),
                    None => Err(DecoderErrorDetail::InvalidOperation(buf[0])),
                }
            }
        }
    }

    fn decode(buf: &[u8]) -> (r: Result<(Operation, usize), DecoderErrorDetail>) {
        if buf.len() < 1 {
            return Err(DecoderErrorDetail::NoEnoughData { expected: 1, rem: 0 });
        }
        let code = buf[0];
        let rest = vstd::slice::slice_subrange(buf, 1, buf.len());
        assert(rest@ =~= buf@.skip(1));
        if code == 0 {
            match <Number as Decode>::decode(rest) {
                Ok((n, size)) => Ok((Operation::LoadNumber(n), size + 1)),
                Err(e) => Err(e),
            }
        } else if code == 1 {
            match <StringSymbol as Decode>::decode(rest) {
                Ok((s, size)) => Ok((Operation::LoadString(s), size + 1)),
                Err(e) => Err(e),
            }
        } else if code == 2 {
            match <bool as Decode>::decode(rest) {
                Ok((b, size)) => Ok((Operation::LoadBool(b), size + 1)),
                Err(e) => Err(e),
            }
        } else {
            match Operation::plain_of(code) {
                Some(op) => Ok((op, 1)),
                None => Err(DecoderErrorDetail::InvalidOperation(code)),
            }
        }
    }
}

/// The encodings of the first `n` operations, one after the other.
pub open spec fn encoding_of(ops: Seq<Operation>, n: nat) -> Seq<u8>
    decreases n,
{
    if n == 0 || n > ops.len() {
        Seq::empty()
    } else {
        encoding_of(ops, (n - 1) as nat) + ops[n - 1].encoding()
    }
}

/// Writes the encodings of the operations, one after the other.
pub fn encode_all<Writer: Write>(ops: &[Operation], writer: &mut Writer)
    ensures
        final(writer).written() == old(writer).written() + encoding_of(ops@, ops@.len()),
{
    let ghost before = writer.written();
    let mut i: usize = 0;
    assert(before + encoding_of(ops@, 0) =~= before);
    while i < ops.len()
        invariant
            i <= ops@.len(),
            writer.written() == before + encoding_of(ops@, i as nat),
        decreases ops@.len() - i,
    {
        ops[i].encode(writer);
        assert(before + encoding_of(ops@, i as nat) + ops@[i as int].encoding() =~= before
            + encoding_of(ops@, (i + 1) as nat));
        i += 1;
    }
}

/// The operations that `buf` encodes from byte `pos` on, after `acc`; or
/// the first error, with the place of the operation that it arose in.
pub open spec fn decoding_from(buf: Seq<u8>, pos: int, acc: Seq<Operation>) -> Result<
    Seq<Operation>,
    DecoderError,
>
    decreases buf.len() - pos,
{
    if !(0 <= pos < buf.len()) {
        Ok(acc)
    } else {
        match <Operation as Decode>::decoding(buf.skip(pos)) {
            Ok((op, size)) => if size == 0 {
                Ok(acc)
            } else {
                decoding_from(buf, pos + size, acc.push(op))
            },
            Err(error) => Err(DecoderError { pos: pos as usize, error }),
        }
    }
}

/// Reads all the operations that `buf` encodes.
#[verifier::loop_isolation(false)]
pub fn decode_all(buf: &[u8]) -> (r: Result<Vec<Operation>, DecoderError>)
    ensures
        match r {
            Ok(ops) => decoding_from(buf@, 0, Seq::empty()) == Ok::<Seq<Operation>, DecoderError>(
                ops@,
            ),
            Err(e) => decoding_from(buf@, 0, Seq::empty()) == Err::<Seq<Operation>, DecoderError>(
                e,
            ),
        },
{
    let mut ops: Vec<Operation> = Vec::new();
    let mut pos: usize = 0;
    while pos < buf.len()
        invariant
            pos <= buf@.len(),
            decoding_from(buf@, 0, Seq::empty()) == decoding_from(buf@, pos as int, ops@),
        decreases buf@.len() - pos,
    {
        let rest = vstd::slice::slice_subrange(buf, pos, buf.len());
        assert(rest@ =~= buf@.skip(pos as int));
        match <Operation as Decode>::decode(rest) {
            Ok((op, size)) => {
                proof {
                    lemma_decoding_size(rest@);
                }
                ops.push(op);
                pos = pos + size;
            },
            Err(error) => {
                return Err(DecoderError::from_detail(pos, error));
            },
        }
    }
    Ok(ops)
}

/// An operation takes at least one byte and no more than there are.
pub proof fn lemma_decoding_size(buf: Seq<u8>)
    ensures
        <Operation as Decode>::decoding(buf) matches Ok((_, size)) ==> 1 <= size <= buf.len(),
{
}

/// An operation is read back from its encoding, whatever follows it.
pub proof fn lemma_operation_round_trip(op: Operation, rest: Seq<u8>)
    ensures
        <Operation as Decode>::decoding(op.encoding() + rest) == Ok::<
            (Operation, usize),
            DecoderErrorDetail,
        >((op, op.encoding().len() as usize)),
        1 <= op.encoding().len() <= 9,
{
    let buf = op.encoding() + rest;
    match op {
        Operation::LoadNumber(n) => {
            lemma_number_round_trip(n, rest);
            assert(buf.skip(1) =~= n.encoding() + rest);
        },
        Operation::LoadString(s) => {
            lemma_u32_round_trip(s.0, rest);
            assert(buf.skip(1) =~= s.encoding() + rest);
        },
        Operation::LoadBool(b) => {
            lemma_bool_round_trip(b, rest);
            assert(buf.skip(1) =~= b.encoding() + rest);
        },
        _ => {},
    }
}

/// Operations are read back from their encodings: decoding what
/// [`encode_all`] wrote gives the operations that were encoded.
pub proof fn lemma_round_trip(ops: Seq<Operation>)
    ensures
        decoding_from(encoding_of(ops, ops.len()), 0, Seq::empty()) == Ok::<
            Seq<Operation>,
            DecoderError,
        >(ops),
{
    lemma_round_trip_from(ops, 0, Seq::empty());
    assert(ops.skip(0) =~= ops);
    assert(Seq::<Operation>::empty() + ops =~= ops);
}

/// The encoding of the operations from the `k`th on.
pub open spec fn tail_encoding(ops: Seq<Operation>, k: nat) -> Seq<u8>
    decreases ops.len() - k,
{
    if k >= ops.len() {
        Seq::empty()
    } else {
        ops[k as int].encoding() + tail_encoding(ops, k + 1)
    }
}

/// The first `n` encodings followed by the others are all the encodings.
pub proof fn lemma_encoding_split(ops: Seq<Operation>, n: nat)
    requires
        n <= ops.len(),
    ensures
        encoding_of(ops, n) + tail_encoding(ops, n) == encoding_of(ops, ops.len()),
    decreases ops.len() - n,
{
    if n < ops.len() {
        lemma_encoding_split(ops, n + 1);
        assert(encoding_of(ops, n) + ops[n as int].encoding() + tail_encoding(ops, n + 1)
            =~= encoding_of(ops, n) + (ops[n as int].encoding() + tail_encoding(ops, n + 1)));
    } else {
        assert(encoding_of(ops, n) + tail_encoding(ops, n) =~= encoding_of(ops, ops.len()));
    }
}

/// Decoding from the place where the `k`th operation starts gives the
/// operations from the `k`th on.
pub proof fn lemma_round_trip_from(ops: Seq<Operation>, k: nat, acc: Seq<Operation>)
    requires
        k <= ops.len(),
    ensures
        decoding_from(
            encoding_of(ops, ops.len()),
            encoding_of(ops, k).len() as int,
            acc,
        ) == Ok::<Seq<Operation>, DecoderError>(acc + ops.skip(k as int)),
    decreases ops.len() - k,
{
    let buf = encoding_of(ops, ops.len());
    let pos = encoding_of(ops, k).len() as int;
    lemma_encoding_split(ops, k);
    if k == ops.len() {
        assert(acc + ops.skip(k as int) =~= acc);
    } else {
        let op = ops[k as int];
        let rest = tail_encoding(ops, k + 1);
        assert(buf.skip(pos) =~= op.encoding() + rest);
        lemma_operation_round_trip(op, rest);
        lemma_round_trip_from(ops, k + 1, acc.push(op));
        assert(acc.push(op) + ops.skip(k as int + 1) =~= acc + ops.skip(k as int));
    }
}

} // verus!
