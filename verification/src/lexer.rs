//! The scanner: from source text to tokens with byte-offset spans.
//!
//! The source is read as its sequence of characters. What the scanner yields
//! is defined by [`spec_next_token`], a function of the characters and of the
//! index of the character at which scanning resumes; [`Lexer::next_token`] is
//! proved to compute it.

use vstd::prelude::*;
use vstd::slice::*;
use vstd::string::*;
use vstd::utf8::*;
use crate::span::Span;
use crate::text::{chars_of, string_of};
use crate::token::{
    tokens_view, Keyword, Literal, SpecLiteral, SpecToken, SpecTokenType, Token, TokenType,
};

verus! {

pub open spec fn spec_is_whitespace(c: char) -> bool {
    c == '\t' || c == '\n' || c == '\r' || c == ' '
}

pub open spec fn spec_is_ident_start(c: char) -> bool {
    c == '_' || ('a' <= c && c <= 'z') || ('A' <= c && c <= 'Z')
}

pub open spec fn spec_is_ident_continue(c: char) -> bool {
    spec_is_ident_start(c) || spec_is_digit(c)
}

pub open spec fn spec_is_digit(c: char) -> bool {
    '0' <= c && c <= '9'
}

/// Tab, line feed, carriage return or space.
#[verifier::when_used_as_spec(spec_is_whitespace)]
pub fn is_whitespace(c: char) -> (r: bool)
    ensures
        r == spec_is_whitespace(c),
{
    c == '\t' || c == '\n' || c == '\r' || c == ' '
}

/// An ASCII letter or an underscore.
#[verifier::when_used_as_spec(spec_is_ident_start)]
pub fn is_ident_start(c: char) -> (r: bool)
    ensures
        r == spec_is_ident_start(c),
{
    c == '_' || ('a' <= c && c <= 'z') || ('A' <= c && c <= 'Z')
}

/// An ASCII letter, an ASCII digit or an underscore.
#[verifier::when_used_as_spec(spec_is_ident_continue)]
pub fn is_ident_continue(c: char) -> (r: bool)
    ensures
        r == spec_is_ident_continue(c),
{
    is_ident_start(c) || is_digit(c)
}

/// An ASCII digit.
#[verifier::when_used_as_spec(spec_is_digit)]
pub fn is_digit(c: char) -> (r: bool)
    ensures
        r == spec_is_digit(c),
{
    '0' <= c && c <= '9'
}

/// The runs of characters that the scanner skips over in one go.
#[derive(Debug, Clone, Copy, PartialEq, Eq, Structural)]
pub enum CharClass {
    /// The digits of a number.
    Digit,
    /// The characters of an identifier after its first.
    IdentContinue,
    /// The characters of a line comment: all but line feed and carriage
    /// return.
    LineBody,
}

impl CharClass {
    pub open spec fn holds(self, c: char) -> bool {
        match self {
            CharClass::Digit => spec_is_digit(c),
            CharClass::IdentContinue => spec_is_ident_continue(c),
            CharClass::LineBody => c != '\n' && c != '\r',
        }
    }

    /// Whether `c` belongs to the class.
    pub fn test(self, c: char) -> (r: bool)
        ensures
            r == self.holds(c),
    {
        match self {
            CharClass::Digit => is_digit(c),
            CharClass::IdentContinue => is_ident_continue(c),
            CharClass::LineBody => c != '\n' && c != '\r',
        }
    }
}

/// The number of bytes that the first `i` characters of `s` take in UTF-8.
pub open spec fn byte_offset(s: Seq<char>, i: int) -> nat {
    encode_utf8(s.take(i)).len()
}

/// The span of the characters `s[a..b]`, in bytes.
pub open spec fn span_between(s: Seq<char>, a: int, b: int) -> Span {
    Span { start: byte_offset(s, a) as u32, end: byte_offset(s, b) as u32 }
}

/// Whether `s` has the character `c` at index `i`.
pub open spec fn at(s: Seq<char>, i: int, c: char) -> bool {
    0 <= i < s.len() && s[i] == c
}

/// The index of the first character at or after `i` that is not in `class`,
/// or the length of `s` if there is none.
pub open spec fn scan(s: Seq<char>, i: int, class: CharClass) -> int
    decreases s.len() - i,
{
    if 0 <= i < s.len() && class.holds(s[i]) {
        scan(s, i + 1, class)
    } else {
        i
    }
}

/// The index just after the `*/` that closes a block comment, when scanning
/// its body from index `i` at nesting depth `depth`; `None` if the source
/// ends first. A `/*` inside the body opens a nested comment.
pub open spec fn comment_end(s: Seq<char>, i: int, depth: nat) -> Option<int>
    decreases s.len() - i,
{
    if !(0 <= i < s.len()) {
        None
    } else if s[i] == '/' && at(s, i + 1, '*') {
        comment_end(s, i + 2, depth + 1)
    } else if s[i] == '*' && at(s, i + 1, '/') {
        if depth <= 1 {
            Some(i + 2)
        } else {
            comment_end(s, i + 2, (depth - 1) as nat)
        }
    } else {
        comment_end(s, i + 1, depth)
    }
}

/// Where skipping white space and comments ends.
pub enum Trivia {
    /// The next token, or the end of the source, is at this index.
    Token(int),
    /// The block comment that opens at this index is never closed.
    OpenComment(int),
}

/// Skips white space, line comments and block comments from index `i`.
pub open spec fn skip_trivia(s: Seq<char>, i: int) -> Trivia
    decreases s.len() - i,
{
    if !(0 <= i < s.len()) {
        Trivia::Token(i)
    } else if s[i] == '/' && at(s, i + 1, '/') {
        proof {
            lemma_scan_bounds(s, i + 2, CharClass::LineBody);
        }
        skip_trivia(s, scan(s, i + 2, CharClass::LineBody))
    } else if s[i] == '/' && at(s, i + 1, '*') {
        proof {
            lemma_comment_end_bounds(s, i + 2, 1);
        }
        match comment_end(s, i + 2, 1) {
            Some(j) => skip_trivia(s, j),
            None => Trivia::OpenComment(i),
        }
    } else if spec_is_whitespace(s[i]) {
        skip_trivia(s, i + 1)
    } else {
        Trivia::Token(i)
    }
}

/// The character that an escape sequence `\e` stands for, if it is one of
/// the five that the language has.
pub open spec fn unescape(e: char) -> Option<char> {
    if e == '\\' {
        Some('\\')
    } else if e == 'n' {
        Some('\n')
    } else if e == 'r' {
        Some('\r')
    } else if e == 't' {
        Some('\t')
    } else if e == '"' {
        Some('"')
    } else {
        None
    }
}

/// Scans the body of a string literal from index `i`, with `acc` the
/// contents read so far. The closing quote ends the literal. A backslash
/// followed by a character that is no escape ends the token there, as
/// `Unknown` of that character. If the source ends first, the token is
/// `UnterminatedString`.
pub open spec fn scan_string(s: Seq<char>, i: int, acc: Seq<char>) -> (SpecTokenType, int)
    decreases s.len() - i,
{
    if !(0 <= i < s.len()) {
        (SpecTokenType::UnterminatedString, i)
    } else if s[i] == '"' {
        (SpecTokenType::Literal(SpecLiteral::String(acc)), i + 1)
    } else if s[i] == '\\' {
        if i + 1 < s.len() {
            match unescape(s[i + 1]) {
                Some(c) => scan_string(s, i + 2, acc.push(c)),
                None => (SpecTokenType::Unknown(s[i + 1]), i + 2),
            }
        } else {
            (SpecTokenType::UnterminatedString, i + 1)
        }
    } else {
        scan_string(s, i + 1, acc.push(s[i]))
    }
}

/// The index just after the number whose first digit is at `start`:
/// `digits ( '.' digits )?`.
pub open spec fn number_end(s: Seq<char>, start: int) -> int {
    let whole = scan(s, start + 1, CharClass::Digit);
    if at(s, whole, '.') && 0 <= whole + 1 < s.len() && spec_is_digit(s[whole + 1]) {
        scan(s, whole + 1, CharClass::Digit)
    } else {
        whole
    }
}

/// The keyword or identifier that `word` spells.
pub open spec fn word_token(word: Seq<char>) -> SpecTokenType {
    match Keyword::spec_lookup(word) {
        Some(kw) => SpecTokenType::Keyword(kw),
        None => SpecTokenType::Identifier(word),
    }
}

/// A punctuator of one character, or of two when `=` follows.
pub open spec fn one_or_two(
    s: Seq<char>,
    i: int,
    one: SpecTokenType,
    two: SpecTokenType,
) -> (SpecTokenType, int) {
    if at(s, i + 1, '=') {
        (two, i + 2)
    } else {
        (one, i + 1)
    }
}

/// The token that starts at index `i`, which holds neither white space nor
/// the start of a comment, and the index just after it.
pub open spec fn lex_token(s: Seq<char>, i: int) -> (SpecTokenType, int)
    recommends
        0 <= i < s.len(),
{
    let c = s[i];
    if c == '!' {
        one_or_two(s, i, SpecTokenType::Bang, SpecTokenType::BangEqual)
    } else if c == '=' {
        one_or_two(s, i, SpecTokenType::Equal, SpecTokenType::EqualEqual)
    } else if c == '>' {
        one_or_two(s, i, SpecTokenType::Greater, SpecTokenType::GreaterEqual)
    } else if c == '<' {
        one_or_two(s, i, SpecTokenType::Less, SpecTokenType::LessEqual)
    } else if c == ',' {
        (SpecTokenType::Comma, i + 1)
    } else if c == '.' {
        (SpecTokenType::Dot, i + 1)
    } else if c == '{' {
        (SpecTokenType::LeftBrace, i + 1)
    } else if c == '}' {
        (SpecTokenType::RightBrace, i + 1)
    } else if c == '(' {
        (SpecTokenType::LeftParen, i + 1)
    } else if c == ')' {
        (SpecTokenType::RightParen, i + 1)
    } else if c == '+' {
        (SpecTokenType::Plus, i + 1)
    } else if c == '-' {
        (SpecTokenType::Minus, i + 1)
    } else if c == '*' {
        (SpecTokenType::Star, i + 1)
    } else if c == ';' {
        (SpecTokenType::Semicolon, i + 1)
    } else if c == '/' {
        (SpecTokenType::Slash, i + 1)
    } else if c == '?' {
        (SpecTokenType::Question, i + 1)
    } else if c == ':' {
        (SpecTokenType::Colon, i + 1)
    } else if c == '"' {
        scan_string(s, i + 1, Seq::empty())
    } else if spec_is_digit(c) {
        let end = number_end(s, i);
        (SpecTokenType::Literal(SpecLiteral::Number(s.subrange(i, end))), end)
    } else if spec_is_ident_start(c) {
        let end = scan(s, i + 1, CharClass::IdentContinue);
        (word_token(s.subrange(i, end)), end)
    } else {
        (SpecTokenType::Unknown(c), i + 1)
    }
}

/// The next token of `s` when scanning resumes at index `i`, and the index at
/// which scanning resumes after it. At the end of the source the token is
/// `Eof`, with an empty span, and the index stays.
pub open spec fn spec_next_token(s: Seq<char>, i: int) -> (SpecToken, int) {
    match skip_trivia(s, i) {
        Trivia::OpenComment(start) => (
            SpecToken {
                token_type: SpecTokenType::UnterminatedComment,
                span: span_between(s, start, s.len() as int),
            },
            s.len() as int,
        ),
        Trivia::Token(j) => if j >= s.len() {
            (SpecToken { token_type: SpecTokenType::Eof, span: span_between(s, j, j) }, j)
        } else {
            let (token_type, end) = lex_token(s, j);
            (SpecToken { token_type, span: span_between(s, j, end) }, end)
        },
    }
}

/// All the tokens of `s` from index `i` on, the closing `Eof` included.
pub open spec fn token_stream(s: Seq<char>, i: int) -> Seq<SpecToken>
    decreases s.len() - i,
{
    let (token, next) = spec_next_token(s, i);
    if token.token_type is Eof || !(0 <= i) {
        seq![token]
    } else {
        proof {
            lemma_next_token_advances(s, i);
        }
        seq![token] + token_stream(s, next)
    }
}

pub proof fn lemma_scan_bounds(s: Seq<char>, i: int, class: CharClass)
    requires
        0 <= i,
    ensures
        i <= scan(s, i, class),
        i <= s.len() ==> scan(s, i, class) <= s.len(),
        forall|k: int| i <= k < scan(s, i, class) ==> class.holds(#[trigger] s[k]),
        scan(s, i, class) < s.len() ==> !class.holds(s[scan(s, i, class)]),
    decreases s.len() - i,
{
    if i < s.len() && class.holds(s[i]) {
        lemma_scan_bounds(s, i + 1, class);
    }
}

pub proof fn lemma_comment_end_bounds(s: Seq<char>, i: int, depth: nat)
    requires
        0 <= i,
    ensures
        comment_end(s, i, depth) matches Some(j) ==> i + 2 <= j <= s.len(),
    decreases s.len() - i,
{
    if i < s.len() {
        if s[i] == '/' && at(s, i + 1, '*') {
            lemma_comment_end_bounds(s, i + 2, depth + 1);
        } else if s[i] == '*' && at(s, i + 1, '/') {
            if depth > 1 {
                lemma_comment_end_bounds(s, i + 2, (depth - 1) as nat);
            }
        } else {
            lemma_comment_end_bounds(s, i + 1, depth);
        }
    }
}

pub proof fn lemma_skip_trivia_bounds(s: Seq<char>, i: int)
    requires
        0 <= i <= s.len(),
    ensures
        match skip_trivia(s, i) {
            Trivia::Token(j) => i <= j <= s.len(),
            Trivia::OpenComment(k) => i <= k < s.len(),
        },
    decreases s.len() - i,
{
    if i < s.len() {
        if s[i] == '/' && at(s, i + 1, '/') {
            lemma_scan_bounds(s, i + 2, CharClass::LineBody);
            lemma_skip_trivia_bounds(s, scan(s, i + 2, CharClass::LineBody));
        } else if s[i] == '/' && at(s, i + 1, '*') {
            lemma_comment_end_bounds(s, i + 2, 1);
            match comment_end(s, i + 2, 1) {
                Some(j) => lemma_skip_trivia_bounds(s, j),
                None => {},
            }
        } else if spec_is_whitespace(s[i]) {
            lemma_skip_trivia_bounds(s, i + 1);
        }
    }
}

pub proof fn lemma_scan_string_bounds(s: Seq<char>, i: int, acc: Seq<char>)
    requires
        0 <= i <= s.len(),
    ensures
        i <= scan_string(s, i, acc).1 <= s.len(),
    decreases s.len() - i,
{
    if i < s.len() && s[i] != '"' {
        if s[i] == '\\' {
            if i + 1 < s.len() {
                match unescape(s[i + 1]) {
                    Some(c) => lemma_scan_string_bounds(s, i + 2, acc.push(c)),
                    None => {},
                }
            }
        } else {
            lemma_scan_string_bounds(s, i + 1, acc.push(s[i]));
        }
    }
}

pub proof fn lemma_lex_token_bounds(s: Seq<char>, i: int)
    requires
        0 <= i < s.len(),
    ensures
        i < lex_token(s, i).1 <= s.len(),
{
    lemma_scan_string_bounds(s, i + 1, Seq::empty());
    lemma_scan_bounds(s, i + 1, CharClass::Digit);
    lemma_scan_bounds(s, scan(s, i + 1, CharClass::Digit) + 1, CharClass::Digit);
    lemma_scan_bounds(s, i + 1, CharClass::IdentContinue);
}

/// Every token but `Eof` takes at least one character, and no token reaches
/// past the end of the source.
pub proof fn lemma_next_token_advances(s: Seq<char>, i: int)
    requires
        0 <= i,
    ensures
        !(spec_next_token(s, i).0.token_type is Eof) ==> i < spec_next_token(s, i).1 <= s.len(),
        i <= s.len() ==> i <= spec_next_token(s, i).1 <= s.len(),
{
    if i <= s.len() {
        lemma_skip_trivia_bounds(s, i);
        match skip_trivia(s, i) {
            Trivia::Token(j) => {
                if j < s.len() {
                    lemma_lex_token_bounds(s, j);
                }
            },
            Trivia::OpenComment(k) => {},
        }
    }
}

/// The encoding of a concatenation is the concatenation of the encodings.
pub proof fn lemma_encode_concat(a: Seq<char>, b: Seq<char>)
    ensures
        encode_utf8(a + b) =~= encode_utf8(a) + encode_utf8(b),
    decreases a.len(),
{
    if a.len() == 0 {
        assert(a + b =~= b);
    } else {
        assert((a + b).drop_first() =~= a.drop_first() + b);
        lemma_encode_concat(a.drop_first(), b);
    }
}

/// The number of bytes of `c` in UTF-8.
pub open spec fn spec_utf8_width(c: char) -> nat {
    encode_scalar(c as u32).len()
}

/// Byte offsets grow by the width of each character, and none is past the
/// length of the whole encoding.
pub proof fn lemma_offset_step(s: Seq<char>, i: int)
    requires
        0 <= i < s.len(),
    ensures
        byte_offset(s, i + 1) == byte_offset(s, i) + spec_utf8_width(s[i]),
        1 <= spec_utf8_width(s[i]) <= 4,
{
    assert(s.take(i + 1) =~= s.take(i) + seq![s[i]]);
    lemma_encode_concat(s.take(i), seq![s[i]]);
    assert(seq![s[i]].drop_first() =~= Seq::<char>::empty());
    assert(encode_utf8(seq![s[i]]) =~= encode_scalar(s[i] as u32)) by {
        reveal_with_fuel(encode_utf8, 2);
    }
}

pub proof fn lemma_offset_monotonic(s: Seq<char>, i: int, j: int)
    requires
        0 <= i <= j <= s.len(),
    ensures
        byte_offset(s, i) <= byte_offset(s, j),
        byte_offset(s, s.len() as int) == encode_utf8(s).len(),
    decreases j - i,
{
    assert(s.take(s.len() as int) =~= s);
    if i < j {
        lemma_offset_step(s, i);
        lemma_offset_monotonic(s, i + 1, j);
    }
}

/// The number of bytes of `c` in UTF-8.
pub fn utf8_width(c: char) -> (w: usize)
    ensures
        w == spec_utf8_width(c),
        1 <= w <= 4,
{
    broadcast use char_is_scalar;

    let v = c as u32;
    if v < 0x80 {
        1
    } else if v < 0x800 {
        2
    } else if v < 0x10000 {
        3
    } else {
        4
    }
}

/// The scanner. It holds the characters of the source, the index of the next
/// character and the byte offset of that character.
pub struct Lexer {
    chars: Vec<char>,
    pos: usize,
    offset: usize,
    start: usize,
    byte_pos: usize,
}

impl Lexer {
    /// The characters of the source.
    pub closed spec fn source(&self) -> Seq<char> {
        self.chars@
    }

    /// The index of the character at which scanning resumes.
    pub closed spec fn cursor(&self) -> int {
        self.pos as int
    }

    /// The index of the character at which the current token began.
    pub closed spec fn token_start(&self) -> int {
        self.start as int
    }

    /// The cursor lies within the source, the byte offsets that the scanner
    /// keeps are those of its two indices, and every byte offset fits a span.
    pub closed spec fn wf(&self) -> bool {
        &&& self.pos <= self.chars@.len()
        &&& self.start <= self.pos
        &&& self.offset == byte_offset(self.chars@, self.pos as int)
        &&& self.byte_pos == byte_offset(self.chars@, self.start as int)
        &&& encode_utf8(self.chars@).len() <= u32::MAX
    }

    /// A scanner at the start of `src`.
    pub fn new(src: &str) -> (r: Self)
        requires
            src.spec_bytes().len() <= u32::MAX,
        ensures
            r.wf(),
            r.source() == src@,
            r.cursor() == 0,
    {
        let chars = chars_of(src);
        proof {
            assert(chars@.take(0) =~= Seq::<char>::empty());
        }
        Lexer { chars, pos: 0, offset: 0, start: 0, byte_pos: 0 }
    }

    /// The next token, and the cursor moved past it.
    pub fn next_token(&mut self) -> (r: Token)
        requires
            old(self).wf(),
        ensures
            final(self).wf(),
            final(self).source() == old(self).source(),
            (r@, final(self).cursor()) == spec_next_token(old(self).source(), old(self).cursor()),
    {
        if let Some(token) = self.skip() {
            return token;
        }
        self.update_byte_pos();
        let start = self.byte_pos as u32;
        let ghost s = self.chars@;
        let ghost i = self.pos as int;

        let first_char = match self.bump() {
            Some(c) => c,
            None => {
                return self.yield_token(TokenType::Eof, start);
            },
        };

        let token_type = if first_char == '!' {
            if self.test_and_bump('=') {
                TokenType::BangEqual
            } else {
                TokenType::Bang
            }
        } else if first_char == '=' {
            if self.test_and_bump('=') {
                TokenType::EqualEqual
            } else {
                TokenType::Equal
            }
        } else if first_char == '>' {
            if self.test_and_bump('=') {
                TokenType::GreaterEqual
            } else {
                TokenType::Greater
            }
        } else if first_char == '<' {
            if self.test_and_bump('=') {
                TokenType::LessEqual
            } else {
                TokenType::Less
            }
        } else if first_char == ',' {
            TokenType::Comma
        } else if first_char == '.' {
            TokenType::Dot
        } else if first_char == '{' {
            TokenType::LeftBrace
        } else if first_char == '}' {
            TokenType::RightBrace
        } else if first_char == '(' {
            TokenType::LeftParen
        } else if first_char == ')' {
            TokenType::RightParen
        } else if first_char == '+' {
            TokenType::Plus
        } else if first_char == '-' {
            TokenType::Minus
        } else if first_char == '*' {
            TokenType::Star
        } else if first_char == ';' {
            TokenType::Semicolon
        } else if first_char == '/' {
            TokenType::Slash
        } else if first_char == '?' {
            TokenType::Question
        } else if first_char == ':' {
            TokenType::Colon
        } else if first_char == '"' {
            self.string()
        } else if is_digit(first_char) {
            TokenType::Literal(Literal::Number(self.number()))
        } else if is_ident_start(first_char) {
            self.identifier()
        } else {
            TokenType::Unknown(first_char)
        };

        self.yield_token(token_type, start)
    }

    /// The token of kind `token_type` that began at byte `start` and ends at
    /// the cursor.
    fn yield_token(&self, token_type: TokenType, start: u32) -> (r: Token)
        requires
            self.wf(),
        ensures
            r.token_type == token_type,
            r.span == (Span { start, end: byte_offset(self.source(), self.cursor()) as u32 }),
    {
        proof {
            lemma_offset_monotonic(self.chars@, self.pos as int, self.chars@.len() as int);
        }
        Token { token_type, span: Span { start, end: self.get_current_pos() as u32 } }
    }

    /// The character at the cursor; NUL at the end of the source.
    fn peek(&self) -> (c: char)
        requires
            self.wf(),
        ensures
            c == (if self.cursor() < self.source().len() {
                self.source()[self.cursor()]
            } else {
                '\0'
            }),
    {
        if self.pos < self.chars.len() {
            self.chars[self.pos]
        } else {
            '\0'
        }
    }

    /// The character after the one at the cursor; NUL past the end of the
    /// source.
    fn peek_next(&self) -> (c: char)
        requires
            self.wf(),
        ensures
            c == (if self.cursor() + 1 < self.source().len() {
                self.source()[self.cursor() + 1]
            } else {
                '\0'
            }),
    {
        if self.pos < self.chars.len() && self.pos + 1 < self.chars.len() {
            self.chars[self.pos + 1]
        } else {
            '\0'
        }
    }

    /// The byte offset of the cursor.
    fn get_current_pos(&self) -> (r: usize)
        requires
            self.wf(),
        ensures
            r == byte_offset(self.source(), self.cursor()),
    {
        self.offset
    }

    /// Marks the cursor as the start of the token to come.
    fn update_byte_pos(&mut self)
        requires
            old(self).wf(),
        ensures
            final(self).wf(),
            final(self).source() == old(self).source(),
            final(self).cursor() == old(self).cursor(),
            final(self).token_start() == old(self).cursor(),
    {
        self.byte_pos = self.get_current_pos();
        self.start = self.pos;
    }

    /// Takes the character at the cursor, if there is one.
    fn bump(&mut self) -> (r: Option<char>)
        requires
            old(self).wf(),
        ensures
            final(self).wf(),
            final(self).source() == old(self).source(),
            final(self).token_start() == old(self).token_start(),
            old(self).cursor() < old(self).source().len() ==> r == Some(
                old(self).source()[old(self).cursor()],
            ) && final(self).cursor() == old(self).cursor() + 1,
            old(self).cursor() >= old(self).source().len() ==> r is None && final(self).cursor()
                == old(self).cursor(),
    {
        if self.pos < self.chars.len() {
            let c = self.chars[self.pos];
            proof {
                lemma_offset_step(self.chars@, self.pos as int);
                lemma_offset_monotonic(self.chars@, self.pos + 1, self.chars@.len() as int);
            }
            self.offset = self.offset + utf8_width(c);
            self.pos = self.pos + 1;
            Some(c)
        } else {
            None
        }
    }

    /// Takes the character at the cursor if it is `c`.
    fn test_and_bump(&mut self, c: char) -> (r: bool)
        requires
            old(self).wf(),
        ensures
            final(self).wf(),
            final(self).source() == old(self).source(),
            final(self).token_start() == old(self).token_start(),
            r == at(old(self).source(), old(self).cursor(), c),
            final(self).cursor() == old(self).cursor() + if r { 1int } else { 0 },
    {
        if !self.is_eof() && self.peek() == c {
            self.bump();
            true
        } else {
            false
        }
    }

    /// Skips white space and comments. Returns the `UnterminatedComment`
    /// token if a block comment runs to the end of the source.
    #[verifier::loop_isolation(false)]
    fn skip(&mut self) -> (r: Option<Token>)
        requires
            old(self).wf(),
        ensures
            final(self).wf(),
            final(self).source() == old(self).source(),
            match skip_trivia(old(self).source(), old(self).cursor()) {
                Trivia::Token(j) => r is None && final(self).cursor() == j,
                Trivia::OpenComment(k) => r is Some && r->0@ == (SpecToken {
                    token_type: SpecTokenType::UnterminatedComment,
                    span: span_between(old(self).source(), k, old(self).source().len() as int),
                }) && final(self).cursor() == old(self).source().len(),
            },
    {
        let ghost s = self.chars@;
        let ghost i0 = self.pos as int;
        loop
            invariant
                self.wf(),
                self.chars@ == s,
                skip_trivia(s, i0) == skip_trivia(s, self.pos as int),
            decreases s.len() - self.pos,
        {
            let ghost i = self.pos as int;
            let c = self.peek();
            if self.is_eof() {
                return None;
            } else if c == '/' {
                if self.peek_next() == '/' {
                    proof {
                        lemma_scan_bounds(s, i + 2, CharClass::LineBody);
                        assert(scan(s, i, CharClass::LineBody) == scan(
                            s,
                            i + 1,
                            CharClass::LineBody,
                        ));
                        assert(scan(s, i + 1, CharClass::LineBody) == scan(
                            s,
                            i + 2,
                            CharClass::LineBody,
                        ));
                    }
                    self.skip_white(CharClass::LineBody);
                } else if self.peek_next() == '*' {
                    proof {
                        lemma_comment_end_bounds(s, i + 2, 1);
                    }
                    let comments = self.skip_multiline_comment();
                    if comments.is_some() {
                        return comments;
                    }
                } else {
                    return None;
                }
            } else if is_whitespace(c) {
                self.bump();
            } else {
                return None;
            }
        }
    }

    /// Skips the block comment that opens at the cursor, nested comments
    /// included. Returns the `UnterminatedComment` token if it is not closed.
    #[verifier::loop_isolation(false)]
    fn skip_multiline_comment(&mut self) -> (r: Option<Token>)
        requires
            old(self).wf(),
            at(old(self).source(), old(self).cursor(), '/'),
            at(old(self).source(), old(self).cursor() + 1, '*'),
        ensures
            final(self).wf(),
            final(self).source() == old(self).source(),
            match comment_end(old(self).source(), old(self).cursor() + 2, 1) {
                Some(j) => r is None && final(self).cursor() == j,
                None => r is Some && r->0@ == (SpecToken {
                    token_type: SpecTokenType::UnterminatedComment,
                    span: span_between(
                        old(self).source(),
                        old(self).cursor(),
                        old(self).source().len() as int,
                    ),
                }) && final(self).cursor() == old(self).source().len(),
            },
    {
        let ghost s = self.chars@;
        let ghost i0 = self.pos as int;
        let mut level: usize = 1;
        proof {
            lemma_offset_monotonic(s, i0, s.len() as int);
        }
        let start = self.offset as u32;

        self.bump();
        self.bump();

        loop
            invariant
                self.wf(),
                self.chars@ == s,
                1 <= level <= self.pos,
                i0 + 2 <= self.pos,
                comment_end(s, i0 + 2, 1) == comment_end(s, self.pos as int, level as nat),
                start == byte_offset(s, i0),
            decreases s.len() - self.pos,
        {
            match self.bump() {
                None => {
                    return Some(self.yield_token(TokenType::UnterminatedComment, start));
                },
                Some(c) => {
                    if c == '/' && self.peek() == '*' {
                        level = level + 1;
                        self.bump();
                    } else if c == '*' && self.peek() == '/' {
                        level = level - 1;
                        self.bump();
                        if level == 0 {
                            return None;
                        }
                    }
                },
            }
        }
    }

    /// Whether the cursor is at the end of the source.
    fn is_eof(&self) -> (r: bool)
        requires
            self.wf(),
        ensures
            r == (self.cursor() >= self.source().len()),
    {
        self.pos >= self.chars.len()
    }

    /// Moves the cursor past the run of characters of `class` that starts at
    /// it.
    #[verifier::loop_isolation(false)]
    fn skip_white(&mut self, class: CharClass)
        requires
            old(self).wf(),
        ensures
            final(self).wf(),
            final(self).source() == old(self).source(),
            final(self).token_start() == old(self).token_start(),
            final(self).cursor() == scan(old(self).source(), old(self).cursor(), class),
    {
        let ghost s = self.chars@;
        let ghost i0 = self.pos as int;
        while !self.is_eof() && class.test(self.peek())
            invariant
                self.wf(),
                self.chars@ == s,
                self.start == old(self).start,
                scan(s, i0, class) == scan(s, self.pos as int, class),
            decreases s.len() - self.pos,
        {
            self.bump();
        }
    }

    /// Scans the body of a string literal; the cursor is just after the
    /// opening quote.
    #[verifier::loop_isolation(false)]
    fn string(&mut self) -> (r: TokenType)
        requires
            old(self).wf(),
        ensures
            final(self).wf(),
            final(self).source() == old(self).source(),
            (r@, final(self).cursor()) == scan_string(
                old(self).source(),
                old(self).cursor(),
                Seq::empty(),
            ),
    {
        let ghost s = self.chars@;
        let ghost i0 = self.pos as int;
        let mut result = String::new();
        loop
            invariant
                self.wf(),
                self.chars@ == s,
                scan_string(s, i0, Seq::empty()) == scan_string(s, self.pos as int, result@),
            decreases s.len() - self.pos,
        {
            match self.bump() {
                None => {
                    return TokenType::UnterminatedString;
                },
                Some(c) => {
                    if c == '"' {
                        return TokenType::Literal(Literal::String(result));
                    } else if c == '\\' {
                        match self.bump() {
                            None => {
                                return TokenType::UnterminatedString;
                            },
                            Some(e) => {
                                if e == '\\' {
                                    result.push('\\');
                                } else if e == 'n' {
                                    result.push('\n');
                                } else if e == 'r' {
                                    result.push('\r');
                                } else if e == 't' {
                                    result.push('\t');
                                } else if e == '"' {
                                    result.push('"');
                                } else {
                                    return TokenType::Unknown(e);
                                }
                            },
                        }
                    } else {
                        result.push(c);
                    }
                },
            }
        }
    }

    /// The characters of the source from the start of the current token to
    /// the cursor.
    fn lexeme(&self) -> (r: &[char])
        requires
            self.wf(),
        ensures
            r@ == self.source().subrange(self.token_start(), self.cursor()),
    {
        slice_subrange(self.chars.as_slice(), self.start, self.pos)
    }

    /// Scans the rest of an identifier or keyword; the cursor is just after
    /// its first character.
    fn identifier(&mut self) -> (r: TokenType)
        requires
            old(self).wf(),
            old(self).cursor() == old(self).token_start() + 1,
        ensures
            final(self).wf(),
            final(self).source() == old(self).source(),
            final(self).cursor() == scan(
                old(self).source(),
                old(self).cursor(),
                CharClass::IdentContinue,
            ),
            r@ == word_token(
                old(self).source().subrange(old(self).token_start(), final(self).cursor()),
            ),
    {
        self.skip_white(CharClass::IdentContinue);
        let ident = self.lexeme();
        match Keyword::lookup(ident) {
            Some(kw) => TokenType::Keyword(kw),
            None => TokenType::Identifier(string_of(ident)),
        }
    }

    /// Scans the rest of a number and returns its spelling; the cursor is
    /// just after its first digit.
    fn number(&mut self) -> (r: String)
        requires
            old(self).wf(),
            old(self).cursor() == old(self).token_start() + 1,
        ensures
            final(self).wf(),
            final(self).source() == old(self).source(),
            final(self).cursor() == number_end(old(self).source(), old(self).token_start()),
            r@ == old(self).source().subrange(old(self).token_start(), final(self).cursor()),
    {
        self.skip_white(CharClass::Digit);
        if self.peek() == '.' && is_digit(self.peek_next()) {
            self.bump();
            self.skip_white(CharClass::Digit);
        }
        string_of(self.lexeme())
    }

    /// All the tokens from the cursor on, the closing `Eof` included.
    #[verifier::loop_isolation(false)]
    pub fn tokens(&mut self) -> (r: Vec<Token>)
        requires
            old(self).wf(),
        ensures
            final(self).wf(),
            final(self).source() == old(self).source(),
            r@.len() >= 1,
            tokens_view(r@) == token_stream(old(self).source(), old(self).cursor()),
    {
        let ghost s = self.chars@;
        let ghost i0 = self.pos as int;
        let mut out: Vec<Token> = Vec::new();
        loop
            invariant
                self.wf(),
                self.chars@ == s,
                token_stream(s, i0) == out@.map_values(|t: Token| t@) + token_stream(
                    s,
                    self.pos as int,
                ),
            decreases s.len() - self.pos,
        {
            let ghost i = self.pos as int;
            let ghost before = out@.map_values(|t: Token| t@);
            proof {
                lemma_next_token_advances(s, i);
            }
            let token = self.next_token();
            let done = match token.token_type {
                TokenType::Eof => true,
                _ => false,
            };
            out.push(token);
            proof {
                assert(out@.map_values(|t: Token| t@) =~= before.push(token@));
                if !done {
                    assert(token_stream(s, i) =~= seq![token@] + token_stream(s, self.pos as int));
                    assert(before + (seq![token@] + token_stream(s, self.pos as int))
                        =~= before.push(token@) + token_stream(s, self.pos as int));
                } else {
                    assert(token_stream(s, i) =~= seq![token@]);
                    assert(before + seq![token@] =~= before.push(token@));
                }
            }
            if done {
                return out;
            }
        }
    }
}

} // verus!
