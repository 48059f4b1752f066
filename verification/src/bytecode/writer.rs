//! A writer that gathers the bytes in memory.

use vstd::prelude::*;
use crate::bytecode::codec::Write;

verus! {

pub struct OpWriter {
    buf: Vec<u8>,
}

impl View for OpWriter {
    type V = Seq<u8>;

    closed spec fn view(&self) -> Seq<u8> {
        self.buf@
    }
}

impl OpWriter {
    /// A writer that holds no bytes.
    pub fn new() -> (r: Self)
        ensures
            r@ == Seq::<u8>::empty(),
    {
        OpWriter { buf: Vec::new() }
    }

    /// Takes out the bytes written since the writer was made or last
    /// flushed.
    pub fn flush(&mut self) -> (r: Vec<u8>)
        ensures
            r@ == old(self)@,
            final(self)@ == Seq::<u8>::empty(),
    {
        let mut out: Vec<u8> = Vec::new();
        core::mem::swap(&mut out, &mut self.buf);
        out
    }
}

impl Write for OpWriter {
    open spec fn written(&self) -> Seq<u8> {
        self@
    }

    fn write(&mut self, buf: &[u8]) {
        self.buf.extend_from_slice(buf);
    }
}

} // verus!
