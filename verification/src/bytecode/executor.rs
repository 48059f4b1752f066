//! Running encoded operations: each operation is read and handed to an
//! executor, which says what the operation does.

use vstd::prelude::*;
use vstd::slice::*;
use crate::bytecode::codec::{Decode, DecoderError};
use crate::bytecode::operation::{decoding_from, lemma_decoding_size, Operation};
use crate::bytecode::string::StringSymbol;
use crate::runtime::error::RuntimeError;
use crate::runtime::value::Number;

verus! {

/// Why a run of operations ended early.
#[derive(Debug, PartialEq, Eq)]
pub enum ExecutorError {
    /// The executor failed on an operation.
    RuntimeError(RuntimeError),
    /// The bytes could not be read as operations.
    DecoderError(DecoderError),
}

/// What does the operations: one method for each.
///
/// An executor says of itself, in `step`, what it may make of an operation.
/// Each method does the step of its operation. An executor that says
/// nothing of itself may make anything of an operation.
pub trait OperationExecutor: Sized {
    /// Whether the executor that is in the state `pre` may do `op` so that
    /// it is in the state `post` afterwards and gives `r`.
    open spec fn step(pre: Self, op: Operation, post: Self, r: Result<(), RuntimeError>) -> bool {
        true
    }

    fn load_number(&mut self, arg0: Number) -> (r: Result<(), RuntimeError>)
        ensures
            Self::step(*old(self), Operation::LoadNumber(arg0), *final(self), r),
    ;

    fn load_string(&mut self, arg0: StringSymbol) -> (r: Result<(), RuntimeError>)
        ensures
            Self::step(*old(self), Operation::LoadString(arg0), *final(self), r),
    ;

    fn load_bool(&mut self, arg0: bool) -> (r: Result<(), RuntimeError>)
        ensures
            Self::step(*old(self), Operation::LoadBool(arg0), *final(self), r),
    ;

    fn load_nil(&mut self) -> (r: Result<(), RuntimeError>)
        ensures
            Self::step(*old(self), Operation::LoadNil, *final(self), r),
    ;

    fn negative(&mut self) -> (r: Result<(), RuntimeError>)
        ensures
            Self::step(*old(self), Operation::Negative, *final(self), r),
    ;

    fn not(&mut self) -> (r: Result<(), RuntimeError>)
        ensures
            Self::step(*old(self), Operation::Not, *final(self), r),
    ;

    fn plus(&mut self) -> (r: Result<(), RuntimeError>)
        ensures
            Self::step(*old(self), Operation::Plus, *final(self), r),
    ;

    fn minus(&mut self) -> (r: Result<(), RuntimeError>)
        ensures
            Self::step(*old(self), Operation::Minus, *final(self), r),
    ;

    fn multiply(&mut self) -> (r: Result<(), RuntimeError>)
        ensures
            Self::step(*old(self), Operation::Multiply, *final(self), r),
    ;

    fn divide(&mut self) -> (r: Result<(), RuntimeError>)
        ensures
            Self::step(*old(self), Operation::Divide, *final(self), r),
    ;

    fn and(&mut self) -> (r: Result<(), RuntimeError>)
        ensures
            Self::step(*old(self), Operation::And, *final(self), r),
    ;

    fn or(&mut self) -> (r: Result<(), RuntimeError>)
        ensures
            Self::step(*old(self), Operation::Or, *final(self), r),
    ;

    fn greater(&mut self) -> (r: Result<(), RuntimeError>)
        ensures
            Self::step(*old(self), Operation::Greater, *final(self), r),
    ;

    fn greater_equal(&mut self) -> (r: Result<(), RuntimeError>)
        ensures
            Self::step(*old(self), Operation::GreaterEqual, *final(self), r),
    ;

    fn less(&mut self) -> (r: Result<(), RuntimeError>)
        ensures
            Self::step(*old(self), Operation::Less, *final(self), r),
    ;

    fn less_equal(&mut self) -> (r: Result<(), RuntimeError>)
        ensures
            Self::step(*old(self), Operation::LessEqual, *final(self), r),
    ;

    fn equal(&mut self) -> (r: Result<(), RuntimeError>)
        ensures
            Self::step(*old(self), Operation::Equal, *final(self), r),
    ;

    fn not_equal(&mut self) -> (r: Result<(), RuntimeError>)
        ensures
            Self::step(*old(self), Operation::NotEqual, *final(self), r),
    ;
}

/// The executor went from the state `pre` to the state `post` by doing the
/// first `n` of `ops` in order, each with success.
pub open spec fn did<E: OperationExecutor>(pre: E, ops: Seq<Operation>, n: nat, post: E) -> bool
    decreases n,
{
    if n == 0 {
        post == pre
    } else {
        n <= ops.len() && exists|mid: E|
            did(pre, ops, (n - 1) as nat, mid) && #[trigger] E::step(
                mid,
                ops[n - 1],
                post,
                Ok(()),
            )
    }
}

/// The executor went from the state `pre` to the state `post` by doing some
/// of the first of `ops` in order with success and then failing with `e` on
/// the next.
pub open spec fn failed_in<E: OperationExecutor>(
    pre: E,
    ops: Seq<Operation>,
    post: E,
    e: RuntimeError,
) -> bool {
    exists|k: int, mid: E|
        0 <= k < ops.len() && did(pre, ops, k as nat, mid) && #[trigger] E::step(
            mid,
            ops[k],
            post,
            Err(e),
        )
}

/// What was done of the first operations was done of them alone.
pub proof fn lemma_did_same<E: OperationExecutor>(
    pre: E,
    a: Seq<Operation>,
    b: Seq<Operation>,
    n: nat,
    post: E,
)
    requires
        n <= a.len(),
        n <= b.len(),
        forall|i: int| 0 <= i < n ==> a[i] == b[i],
        did(pre, a, n, post),
    ensures
        did(pre, b, n, post),
    decreases n,
{
    if n > 0 {
        let mid = choose|mid: E|
            did(pre, a, (n - 1) as nat, mid) && #[trigger] E::step(mid, a[n - 1], post, Ok(()));
        lemma_did_same(pre, a, b, (n - 1) as nat, mid);
        assert(did(pre, b, (n - 1) as nat, mid) && E::step(mid, b[n - 1], post, Ok(())));
    }
}

/// Hands one operation to the executor: the executor does the step of
/// `op`, and what it gives is the result.
fn dispatch<E: OperationExecutor>(executor: &mut E, op: Operation) -> (r: Result<
    (),
    RuntimeError,
>)
    ensures
        E::step(*old(executor), op, *final(executor), r),
{
    match op {
        Operation::LoadNumber(n) => executor.load_number(n),
        Operation::LoadString(s) => executor.load_string(s),
        Operation::LoadBool(b) => executor.load_bool(b),
        Operation::LoadNil => executor.load_nil(),
        Operation::Negative => executor.negative(),
        Operation::Not => executor.not(),
        Operation::Plus => executor.plus(),
        Operation::Minus => executor.minus(),
        Operation::Multiply => executor.multiply(),
        Operation::Divide => executor.divide(),
        Operation::And => executor.and(),
        Operation::Or => executor.or(),
        Operation::Greater => executor.greater(),
        Operation::GreaterEqual => executor.greater_equal(),
        Operation::Less => executor.less(),
        Operation::LessEqual => executor.less_equal(),
        Operation::Equal => executor.equal(),
        Operation::NotEqual => executor.not_equal(),
    }
}

/// The operations of `buf` as far as they can be read: those before the
/// first error.
pub open spec fn readable(buf: Seq<u8>, pos: int, acc: Seq<Operation>) -> Seq<Operation>
    decreases buf.len() - pos,
{
    if !(0 <= pos < buf.len()) {
        acc
    } else {
        match <Operation as Decode>::decoding(buf.skip(pos)) {
            Ok((op, size)) => if size == 0 {
                acc
            } else {
                readable(buf, pos + size, acc.push(op))
            },
            Err(_) => acc,
        }
    }
}

/// Reads the operations of `buf` one by one and hands each to the executor,
/// up to the first that cannot be read or that the executor fails on.
///
/// If the run ends well, all of `buf` was read as operations, and the
/// executor has done them all in order. If it ends with an error of the
/// decoder, that is the first error in `buf`, and the executor has done the
/// operations before it. If the executor fails, it has done the operations
/// before the one that it failed on, and none after it.
#[verifier::loop_isolation(false)]
pub fn execute_operation<E: OperationExecutor>(executor: &mut E, buf: &[u8]) -> (r: Result<
    (),
    ExecutorError,
>)
    ensures
        match r {
            Ok(_) => decoding_from(buf@, 0, Seq::empty()) matches Ok(ops) && did(
                *old(executor),
                ops,
                ops.len(),
                *final(executor),
            ),
            Err(ExecutorError::DecoderError(e)) => decoding_from(buf@, 0, Seq::empty()) == Err::<
                Seq<Operation>,
                DecoderError,
            >(e) && did(
                *old(executor),
                readable(buf@, 0, Seq::empty()),
                readable(buf@, 0, Seq::empty()).len(),
                *final(executor),
            ),
            Err(ExecutorError::RuntimeError(e)) => failed_in(
                *old(executor),
                readable(buf@, 0, Seq::empty()),
                *final(executor),
                e,
            ),
        },
{
    let mut next_code_index: usize = 0;
    let ghost mut done: Seq<Operation> = Seq::empty();
    let ghost start = *executor;
    while next_code_index < buf.len()
        invariant
            next_code_index <= buf@.len(),
            decoding_from(buf@, 0, Seq::empty()) == decoding_from(
                buf@,
                next_code_index as int,
                done,
            ),
            readable(buf@, 0, Seq::empty()) == readable(buf@, next_code_index as int, done),
            did(start, done, done.len(), *executor),
        decreases buf@.len() - next_code_index,
    {
        let rest = slice_subrange(buf, next_code_index, buf.len());
        assert(rest@ =~= buf@.skip(next_code_index as int));
        match <Operation as Decode>::decode(rest) {
            Ok((op, size)) => {
                let ghost before = done;
                let ghost mid = *executor;
                proof {
                    lemma_decoding_size(rest@);
                    lemma_readable_grows(buf@, next_code_index + size, done.push(op));
                    done = done.push(op);
                }
                next_code_index = next_code_index + size;
                let ghost all = readable(buf@, 0, Seq::empty());
                let outcome = dispatch(executor, op);
                match outcome {
                    Ok(unit) => {
                        proof {
                            assert(unit == ());
                            lemma_did_same(start, before, done, before.len(), mid);
                            assert(E::step(mid, done[done.len() - 1], *executor, Ok(())));
                        }
                    },
                    Err(e) => {
                        proof {
                            assert forall|i: int| 0 <= i < before.len() implies before[i]
                                == all[i] by {
                                assert(done[i] == before[i]);
                            }
                            lemma_did_same(start, before, all, before.len(), mid);
                            assert(all[before.len() as int] == done[before.len() as int]);
                            assert(E::step(mid, all[before.len() as int], *executor, Err(e)));
                        }
                        return Err(ExecutorError::RuntimeError(e));
                    },
                }
            },
            Err(error) => {
                return Err(
                    ExecutorError::DecoderError(DecoderError::from_detail(next_code_index, error)),
                );
            },
        }
    }
    Ok(())
}

/// What can be read starts with what was read before.
pub proof fn lemma_readable_grows(buf: Seq<u8>, pos: int, acc: Seq<Operation>)
    ensures
        readable(buf, pos, acc).len() >= acc.len(),
        forall|i: int| 0 <= i < acc.len() ==> readable(buf, pos, acc)[i] == acc[i],
    decreases buf.len() - pos,
{
    if 0 <= pos < buf.len() {
        match <Operation as Decode>::decoding(buf.skip(pos)) {
            Ok((op, size)) => {
                if size != 0 {
                    lemma_readable_grows(buf, pos + size, acc.push(op));
                    assert forall|i: int| 0 <= i < acc.len() implies readable(buf, pos, acc)[i]
                        == acc[i] by {
                        assert(acc.push(op)[i] == acc[i]);
                    }
                }
            },
            Err(_) => {},
        }
    }
}

} // verus!
