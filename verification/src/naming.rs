//! Names in snake case.

use vstd::prelude::*;
use crate::text::chars_of;

verus! {

pub open spec fn is_upper(c: char) -> bool {
    'A' <= c && c <= 'Z'
}

/// The lower-case letter of an upper-case ASCII letter; any other character
/// as it is.
pub open spec fn lower(c: char) -> char {
    if is_upper(c) {
        ((c as u32) + 32) as char
    } else {
        c
    }
}

/// The snake-case form of the first `n` characters of a camel-case name:
/// every upper-case ASCII letter becomes its lower-case letter, after an
/// underscore unless it is the first character.
pub open spec fn snake(s: Seq<char>, n: nat) -> Seq<char>
    decreases n,
{
    if n == 0 || n > s.len() {
        Seq::empty()
    } else if n == 1 {
        seq![lower(s[0])]
    } else if is_upper(s[n - 1]) {
        snake(s, (n - 1) as nat).push('_').push(lower(s[n - 1]))
    } else {
        snake(s, (n - 1) as nat).push(s[n - 1])
    }
}

/// The lower-case letter of an upper-case ASCII letter; any other character
/// as it is.
pub fn to_lower(c: char) -> (r: char)
    ensures
        r == lower(c),
{
    if 'A' <= c && c <= 'Z' {
        let code = (c as u8) + 32;
        code as char
    } else {
        c
    }
}

/// The snake-case form of a camel-case name.
pub fn camel_to_snake(input: &str) -> (r: String)
    ensures
        r@ == snake(input@, input@.len()),
{
    let chars = chars_of(input);
    let mut result = String::new();
    let mut i: usize = 0;
    while i < chars.len()
        invariant
            i <= chars@.len(),
            chars@ == input@,
            result@ == snake(chars@, i as nat),
        decreases chars@.len() - i,
    {
        let c = chars[i];
        if i > 0 && 'A' <= c && c <= 'Z' {
            result.push('_');
        }
        result.push(to_lower(c));
        i += 1;
    }
    result
}

} // verus!
