//! Small helpers on characters and strings that the scanner and the printers
//! share.

use vstd::prelude::*;
use vstd::string::*;

verus! {

/// `String::push` appends one character at the end of the string.
pub assume_specification[ std::string::String::push ](s: &mut std::string::String, ch: char)
    ensures
        final(s)@ == old(s)@.push(ch),
;

/// Whether the characters of `text` spell exactly `word`.
pub fn same_text(text: &[char], word: &str) -> (r: bool)
    ensures
        r == (text@ == word@),
{
    let n = word.unicode_len();
    if text.len() != n {
        return false;
    }
    let mut i: usize = 0;
    while i < n
        invariant
            n == word@.len(),
            n == text@.len(),
            i <= n,
            forall|j: int| 0 <= j < i ==> text@[j] == word@[j],
        decreases n - i,
    {
        if text[i] != word.get_char(i) {
            return false;
        }
        i += 1;
    }
    assert(text@ =~= word@);
    true
}

/// Whether `s` is exactly `word`.
pub fn is_text(s: &String, word: &str) -> (r: bool)
    ensures
        r == (s@ == word@),
{
    let w = String::from_str(word);
    *s == w
}

/// The string that holds the characters of `text`, in order.
pub fn string_of(text: &[char]) -> (r: String)
    ensures
        r@ == text@,
{
    let mut r = String::new();
    let mut i: usize = 0;
    while i < text.len()
        invariant
            i <= text@.len(),
            r@ == text@.take(i as int),
        decreases text@.len() - i,
    {
        r.push(text[i]);
        assert(text@.take(i as int).push(text@[i as int]) =~= text@.take(i as int + 1));
        i += 1;
    }
    assert(text@.take(text@.len() as int) =~= text@);
    r
}

/// The characters of `s`, in order.
pub fn chars_of(s: &str) -> (r: Vec<char>)
    ensures
        r@ == s@,
{
    broadcast use group_string_axioms;

    let mut r: Vec<char> = Vec::new();
    for c in it: s.chars()
        invariant
            r@ == it.history(),
            it.seq() == s@,
    {
        r.push(c);
    }
    assert(r@ =~= s@);
    r
}

} // verus!
