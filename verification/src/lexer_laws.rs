//! What holds of scanning, proved of [`crate::lexer`].

use vstd::prelude::*;
use crate::lexer::{at, lemma_scan_bounds, lemma_scan_string_bounds, lemma_skip_trivia_bounds, lex_token, scan, scan_string, skip_trivia, span_between, spec_is_digit, spec_next_token, unescape, CharClass, Trivia};
use crate::token::SpecToken;

verus! {

/// A run of characters of one class, scanned within a part of the source,
/// ends where it ends in the whole source or where the part ends.
pub proof fn lemma_scan_within(s: Seq<char>, a: int, b: int, i: int, class: CharClass)
    requires
        0 <= a <= i <= b <= s.len(),
    ensures
        scan(s.subrange(a, b), i - a, class) == if scan(s, i, class) <= b {
            scan(s, i, class) - a
        } else {
            b - a
        },
    decreases b - i,
{
    let sub = s.subrange(a, b);
    lemma_scan_bounds(s, i, class);
    if i < b {
        assert(sub[i - a] == s[i]);
        if class.holds(s[i]) {
            lemma_scan_within(s, a, b, i + 1, class);
            lemma_scan_bounds(s, i + 1, class);
        }
    }
}

/// The body of a string literal, scanned within the part of the source that
/// ends where the literal ends, gives the same literal.
pub proof fn lemma_scan_string_within(s: Seq<char>, a: int, i: int, acc: Seq<char>)
    requires
        0 <= a <= i <= s.len(),
        scan_string(s, i, acc).0 is Literal,
    ensures
        scan_string(s.subrange(a, scan_string(s, i, acc).1), i - a, acc) == (
            scan_string(s, i, acc).0,
            scan_string(s, i, acc).1 - a,
        ),
    decreases s.len() - i,
{
    let j = scan_string(s, i, acc).1;
    lemma_scan_string_bounds(s, i, acc);
    let sub = s.subrange(a, j);
    if i < s.len() {
        if s[i] == '"' {
            assert(sub[i - a] == s[i]);
        } else if s[i] == '\\' {
            if i + 1 < s.len() {
                match unescape(s[i + 1]) {
                    Some(c) => {
                        lemma_scan_string_bounds(s, i + 2, acc.push(c));
                        lemma_scan_string_within(s, a, i + 2, acc.push(c));
                        assert(sub[i - a] == s[i]);
                        assert(sub[i - a + 1] == s[i + 1]);
                    },
                    None => {},
                }
            }
        } else {
            lemma_scan_string_bounds(s, i + 1, acc.push(s[i]));
            lemma_scan_string_within(s, a, i + 1, acc.push(s[i]));
            assert(sub[i - a] == s[i]);
        }
    }
}

/// A literal scans the same from its own text: if the token at index `a` of
/// the source is a number or a string that ends before index `j`, then the
/// characters `s[a..j]`, scanned alone, give that literal and nothing more.
pub proof fn lemma_literal_from_own_text(s: Seq<char>, a: int)
    requires
        0 <= a < s.len(),
        lex_token(s, a).0 is Literal,
    ensures
        ({
            let (token_type, j) = lex_token(s, a);
            let text = s.subrange(a, j);
            &&& a < j <= s.len()
            &&& lex_token(text, 0) == (token_type, j - a)
            &&& spec_next_token(text, 0) == (
                SpecToken { token_type, span: span_between(text, 0, j - a) },
                j - a,
            )
            &&& spec_next_token(text, j - a).0.token_type is Eof
        }),
{
    let (token_type, j) = lex_token(s, a);
    let c = s[a];
    let text = s.subrange(a, j);
    if c == '"' {
        lemma_scan_string_bounds(s, a + 1, Seq::empty());
        lemma_scan_string_within(s, a, a + 1, Seq::empty());
        assert(text[0] == c);
    } else {
        assert(spec_is_digit(c));
        let whole = scan(s, a + 1, CharClass::Digit);
        lemma_scan_bounds(s, a + 1, CharClass::Digit);
        lemma_scan_bounds(s, whole + 1, CharClass::Digit);
        assert(text[0] == c);
        lemma_scan_within(s, a, j, a + 1, CharClass::Digit);
        if at(s, whole, '.') && 0 <= whole + 1 < s.len() && spec_is_digit(s[whole + 1]) {
            assert(scan(s, whole + 1, CharClass::Digit) == scan(s, whole + 2, CharClass::Digit));
            lemma_scan_bounds(s, whole + 2, CharClass::Digit);
            assert(text[whole - a] == s[whole]);
            assert(text[whole + 1 - a] == s[whole + 1]);
            lemma_scan_within(s, a, j, whole + 1, CharClass::Digit);
        }
        assert(text.subrange(0, j - a) =~= s.subrange(a, j));
    }
    assert(skip_trivia(text, 0) == Trivia::Token(0));
    assert(skip_trivia(text, j - a) == Trivia::Token(j - a));
}

/// Every literal token that the scanner yields scans the same from the
/// characters that its span covers: scanning resumes at index `i`, the
/// literal is found from index `a` to index `j`, its span is that of
/// `s[a..j]` in bytes, and `s[a..j]` scanned alone is the same literal.
pub proof fn lemma_literal_round_trip(s: Seq<char>, i: int)
    requires
        0 <= i <= s.len(),
        spec_next_token(s, i).0.token_type is Literal,
    ensures
        ({
            let (token, j) = spec_next_token(s, i);
            let a = skip_trivia(s, i)->Token_0;
            &&& skip_trivia(s, i) is Token
            &&& i <= a < j <= s.len()
            &&& token.span == span_between(s, a, j)
            &&& spec_next_token(s.subrange(a, j), 0).0.token_type == token.token_type
            &&& spec_next_token(s.subrange(a, j), 0).1 == j - a
        }),
{
    lemma_skip_trivia_bounds(s, i);
    let a = skip_trivia(s, i)->Token_0;
    lemma_literal_from_own_text(s, a);
}

} // verus!
