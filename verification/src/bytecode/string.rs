//! Interned strings: every distinct string has one symbol, the place at
//! which it was first interned.

use vstd::prelude::*;
use crate::bytecode::codec::{Decode, DecoderErrorDetail, Encode, Write};

verus! {

/// The symbol of an interned string.
#[derive(Debug, Clone, Copy, PartialEq, Eq, Structural)]
pub struct StringSymbol(pub u32);

impl StringSymbol {
    /// The number of the symbol.
    pub fn index(self) -> (r: u32)
        ensures
            r == self.0,
    {
        self.0
    }
}

impl Encode for StringSymbol {
    open spec fn encoding(&self) -> Seq<u8> {
        self.0.encoding()
    }

    fn encode<Writer: Write>(&self, writer: &mut Writer) {
        self.0.encode(writer);
    }
}

impl Decode for StringSymbol {
    open spec fn decoding(buf: Seq<u8>) -> Result<(StringSymbol, usize), DecoderErrorDetail> {
        match <u32 as Decode>::decoding(buf) {
            Ok((v, size)) => Ok((StringSymbol(v), size)),
            Err(e) => Err(e),
        }
    }

    fn decode(buf: &[u8]) -> (r: Result<(StringSymbol, usize), DecoderErrorDetail>) {
        match <u32 as Decode>::decode(buf) {
            Ok((v, size)) => Ok((StringSymbol(v), size)),
            Err(e) => Err(e),
        }
    }
}

/// `indexmap::IndexSet`, a set that keeps its values in the order in which
/// they were inserted.
#[verifier::external_type_specification]
#[verifier::external_body]
#[verifier::reject_recursive_types(T)]
#[verifier::reject_recursive_types(S)]
pub struct ExIndexSet<T, S>(indexmap::IndexSet<T, S>);

/// The strings that a set holds, in the order in which they were inserted.
pub uninterp spec fn interned(set: indexmap::IndexSet<Box<str>>) -> Seq<Seq<char>>;

/// `IndexSet::new` makes a set that holds nothing.
#[verifier::external_body]
fn set_new() -> (r: indexmap::IndexSet<Box<str>>)
    ensures
        interned(r) == Seq::<Seq<char>>::empty(),
        interned(r).no_duplicates(),
{
    indexmap::IndexSet::new()
}

/// `IndexSet::get_index_of` gives the place of a value that the set holds,
/// and `None` for a value that it does not hold.
#[verifier::external_body]
fn set_index_of(set: &indexmap::IndexSet<Box<str>>, s: &str) -> (r: Option<usize>)
    ensures
        match r {
            Some(i) => i < interned(*set).len() && interned(*set)[i as int] == s@,
            None => !interned(*set).contains(s@),
        },
{
    set.get_index_of(s)
}

/// `IndexSet::insert_full` leaves a set that holds the value as it is and
/// gives the place of the value and `false`; to a set that does not hold
/// the value it adds the value at the end and gives its place and `true`.
/// Being a set, it holds no value twice.
#[verifier::external_body]
fn set_insert_full(set: &mut indexmap::IndexSet<Box<str>>, s: &str) -> (r: (usize, bool))
    ensures
        r.1 == !interned(*old(set)).contains(s@),
        r.1 ==> interned(*final(set)) == interned(*old(set)).push(s@) && r.0 == interned(
            *old(set),
        ).len(),
        !r.1 ==> interned(*final(set)) == interned(*old(set)) && r.0 < interned(*old(set)).len()
            && interned(*old(set))[r.0 as int] == s@,
        interned(*final(set)).no_duplicates(),
{
    set.insert_full(s.to_string().into_boxed_str())
}

/// The symbol for the string at place `index`: its low 32 bits.
pub open spec fn symbol_at(index: int) -> StringSymbol {
    StringSymbol((index % 0x1_0000_0000int) as u32)
}

/// The interned strings.
pub struct StringIntern {
    strings: indexmap::IndexSet<Box<str>>,
}

impl View for StringIntern {
    type V = Seq<Seq<char>>;

    closed spec fn view(&self) -> Seq<Seq<char>> {
        interned(self.strings)
    }
}

impl StringIntern {
    /// No string is interned twice.
    pub closed spec fn wf(&self) -> bool {
        interned(self.strings).no_duplicates()
    }

    /// No strings.
    pub fn new() -> (r: Self)
        ensures
            r@ == Seq::<Seq<char>>::empty(),
            r.wf(),
    {
        StringIntern { strings: set_new() }
    }

    /// The symbol of `s`. A string that was interned before keeps its
    /// symbol and nothing changes; a new string is added after the others.
    pub fn intern(&mut self, s: &str) -> (r: StringSymbol)
        requires
            old(self).wf(),
        ensures
            final(self).wf(),
            final(self)@.no_duplicates(),
            final(self)@ == if old(self)@.contains(s@) {
                old(self)@
            } else {
                old(self)@.push(s@)
            },
            exists|i: int|
                0 <= i < final(self)@.len() && final(self)@[i] == s@ && r == symbol_at(i) && (
                !old(self)@.contains(s@) ==> i == old(self)@.len()),
    {
        let index = match set_index_of(&self.strings, s) {
            Some(idx) => {
                assert(self@.contains(s@));
                idx
            },
            None => set_insert_full(&mut self.strings, s).0,
        };
        assert(0 <= index < self@.len() && self@[index as int] == s@);
        let wide = index as u64;
        let symbol = StringSymbol((wide % 0x1_0000_0000u64) as u32);
        assert(symbol == symbol_at(index as int));
        assert(!old(self)@.contains(s@) ==> index == old(self)@.len());
        symbol
    }
}

} // verus!
