use lox::lexer::{is_digit, is_ident_continue, is_ident_start, is_whitespace, Lexer};
use lox::span::Span;
use lox::token::{Keyword, Literal, Token, TokenType};

fn kinds(src: &str) -> Vec<TokenType> {
    let mut lexer = Lexer::new(src);
    lexer.tokens().into_iter().map(|t| t.token_type).collect()
}

fn number(text: &str) -> TokenType {
    TokenType::Literal(Literal::Number(text.to_string()))
}

fn string(text: &str) -> TokenType {
    TokenType::Literal(Literal::String(text.to_string()))
}

fn ident(text: &str) -> TokenType {
    TokenType::Identifier(text.to_string())
}

#[test]
fn punctuators_and_keywords() {
    assert_eq!(
        kinds("var x = 1.5; // c\n"),
        vec![
            TokenType::Keyword(Keyword::Var),
            ident("x"),
            TokenType::Equal,
            number("1.5"),
            TokenType::Semicolon,
            TokenType::Eof,
        ]
    );
}

#[test]
fn every_punctuator() {
    assert_eq!(
        kinds("! != , . = == > >= < <= { } ( ) + - * ; / ? :"),
        vec![
            TokenType::Bang,
            TokenType::BangEqual,
            TokenType::Comma,
            TokenType::Dot,
            TokenType::Equal,
            TokenType::EqualEqual,
            TokenType::Greater,
            TokenType::GreaterEqual,
            TokenType::Less,
            TokenType::LessEqual,
            TokenType::LeftBrace,
            TokenType::RightBrace,
            TokenType::LeftParen,
            TokenType::RightParen,
            TokenType::Plus,
            TokenType::Minus,
            TokenType::Star,
            TokenType::Semicolon,
            TokenType::Slash,
            TokenType::Question,
            TokenType::Colon,
            TokenType::Eof,
        ]
    );
}

#[test]
fn every_keyword() {
    let words = [
        ("and", Keyword::And),
        ("class", Keyword::Class),
        ("else", Keyword::Else),
        ("false", Keyword::False),
        ("for", Keyword::For),
        ("fun", Keyword::Fun),
        ("if", Keyword::If),
        ("nil", Keyword::Nil),
        ("or", Keyword::Or),
        ("print", Keyword::Print),
        ("return", Keyword::Return),
        ("super", Keyword::Super),
        ("this", Keyword::This),
        ("true", Keyword::True),
        ("var", Keyword::Var),
        ("while", Keyword::While),
    ];
    for (word, keyword) in words {
        assert_eq!(kinds(word), vec![TokenType::Keyword(keyword), TokenType::Eof]);
        assert_eq!(keyword.as_str(), word);
        let chars: Vec<char> = word.chars().collect();
        assert_eq!(Keyword::lookup(&chars), Some(keyword));
    }
    assert_eq!(kinds("classy _if"), vec![ident("classy"), ident("_if"), TokenType::Eof]);
}

#[test]
fn spans_are_byte_offsets() {
    let mut lexer = Lexer::new("\"é\" x");
    let s = lexer.next_token();
    assert_eq!(s.token_type, string("é"));
    assert_eq!(s.span, Span { start: 0, end: 4 });
    let x = lexer.next_token();
    assert_eq!(x.token_type, ident("x"));
    assert_eq!(x.span, Span { start: 5, end: 6 });
    let end = lexer.next_token();
    assert_eq!(end, Token { token_type: TokenType::Eof, span: Span { start: 6, end: 6 } });
    let again = lexer.next_token();
    assert_eq!(again, Token { token_type: TokenType::Eof, span: Span { start: 6, end: 6 } });
}

#[test]
fn numbers() {
    assert_eq!(kinds("12"), vec![number("12"), TokenType::Eof]);
    assert_eq!(kinds("12.50"), vec![number("12.50"), TokenType::Eof]);
    assert_eq!(kinds("12."), vec![number("12"), TokenType::Dot, TokenType::Eof]);
    assert_eq!(kinds("1.x"), vec![number("1"), TokenType::Dot, ident("x"), TokenType::Eof]);
    assert_eq!(kinds(".5"), vec![TokenType::Dot, number("5"), TokenType::Eof]);
}

#[test]
fn string_escapes() {
    assert_eq!(kinds(r#""a\\b\n\r\t\"c""#), vec![string("a\\b\n\r\t\"c"), TokenType::Eof]);
    assert_eq!(kinds("\"\""), vec![string(""), TokenType::Eof]);
}

#[test]
fn unterminated_string() {
    assert_eq!(kinds("\"abc"), vec![TokenType::UnterminatedString, TokenType::Eof]);
    assert_eq!(kinds("\"abc\\"), vec![TokenType::UnterminatedString, TokenType::Eof]);
}

#[test]
fn escape_that_is_none() {
    assert_eq!(
        kinds("\"a\\qb\" 1"),
        vec![TokenType::Unknown('q'), ident("b"), TokenType::UnterminatedString, TokenType::Eof]
    );
}

#[test]
fn comments_are_skipped() {
    assert_eq!(kinds("1 // two\n3"), vec![number("1"), number("3"), TokenType::Eof]);
    assert_eq!(kinds("1 /* two */ 3"), vec![number("1"), number("3"), TokenType::Eof]);
    assert_eq!(
        kinds("1 /* a /* b */ c */ 3"),
        vec![number("1"), number("3"), TokenType::Eof]
    );
    assert_eq!(kinds("1 / 2"), vec![number("1"), TokenType::Slash, number("2"), TokenType::Eof]);
}

#[test]
fn unterminated_comment() {
    let mut lexer = Lexer::new("1 /* a /* b */ c");
    assert_eq!(lexer.next_token().token_type, number("1"));
    let open = lexer.next_token();
    assert_eq!(open.token_type, TokenType::UnterminatedComment);
    assert_eq!(open.span, Span { start: 2, end: 16 });
    assert_eq!(lexer.next_token().token_type, TokenType::Eof);
}

#[test]
fn unknown_characters() {
    assert_eq!(
        kinds("@ é"),
        vec![TokenType::Unknown('@'), TokenType::Unknown('é'), TokenType::Eof]
    );
}

#[test]
fn empty_source() {
    let mut lexer = Lexer::new("");
    assert_eq!(
        lexer.next_token(),
        Token { token_type: TokenType::Eof, span: Span { start: 0, end: 0 } }
    );
    assert_eq!(kinds(" \t\r\n"), vec![TokenType::Eof]);
}

#[test]
fn character_classes() {
    assert!(is_whitespace(' ') && is_whitespace('\t') && is_whitespace('\n') && is_whitespace('\r'));
    assert!(!is_whitespace('a'));
    assert!(is_ident_start('_') && is_ident_start('a') && is_ident_start('Z'));
    assert!(!is_ident_start('1'));
    assert!(is_ident_continue('1') && is_ident_continue('_'));
    assert!(!is_ident_continue('-'));
    assert!(is_digit('0') && is_digit('9') && !is_digit('a'));
}

#[test]
fn literal_scans_the_same_from_its_span() {
    let src = "var s = \"a\\nb\" + 12.75;";
    let mut lexer = Lexer::new(src);
    for token in lexer.tokens() {
        if let TokenType::Literal(_) = token.token_type {
            let text = &src[token.span.start as usize..token.span.end as usize];
            let mut again = Lexer::new(text);
            assert_eq!(again.next_token().token_type, token.token_type);
            assert_eq!(again.next_token().token_type, TokenType::Eof);
        }
    }
}

#[test]
fn token_text() {
    assert_eq!(TokenType::BangEqual.to_text(), "!=");
    assert_eq!(TokenType::Eof.to_text(), "end of input");
    assert_eq!(ident("abc").to_text(), "abc");
    assert_eq!(number("1.5").to_text(), "1.5");
    assert_eq!(string("hi").to_text(), "hi");
    assert_eq!(TokenType::Keyword(Keyword::While).to_text(), "while");
    assert_eq!(TokenType::Unknown('#').to_text(), "#");
    assert_eq!(TokenType::UnterminatedComment.to_text(), "unterminated comment");
    assert_eq!(TokenType::LeftBrace.to_text(), "{");
}

#[test]
fn span_arithmetic() {
    let a = Span { start: 1, end: 4 };
    let b = Span { start: 6, end: 9 };
    assert_eq!(a.extends_with(&b), Span { start: 1, end: 9 });
    assert_eq!(a.extends_with_pos(7), Span { start: 1, end: 7 });
    assert_eq!(Span::dummy(), Span { start: 0, end: 0 });
}
