//! The token taxonomy: punctuators, the closed keyword set, identifiers,
//! literals, end of input and the error markers of the scanner.

use vstd::prelude::*;
use vstd::string::*;
use crate::span::Span;
use crate::text::same_text;

verus! {

/// The reserved words of the language.
#[derive(Debug, Clone, Copy, PartialEq, Eq, Structural)]
pub enum Keyword {
    And,
    Class,
    Else,
    False,
    For,
    Fun,
    If,
    Nil,
    Or,
    Print,
    Return,
    Super,
    This,
    True,
    Var,
    While,
}

impl Keyword {
    /// The spelling of the keyword.
    pub open spec fn word(self) -> Seq<char> {
        match self {
            Keyword::And => "and"@,
            Keyword::Class => "class"@,
            Keyword::Else => "else"@,
            Keyword::False => "false"@,
            Keyword::For => "for"@,
            Keyword::Fun => "fun"@,
            Keyword::If => "if"@,
            Keyword::Nil => "nil"@,
            Keyword::Or => "or"@,
            Keyword::Print => "print"@,
            Keyword::Return => "return"@,
            Keyword::Super => "super"@,
            Keyword::This => "this"@,
            Keyword::True => "true"@,
            Keyword::Var => "var"@,
            Keyword::While => "while"@,
        }
    }

    /// The keyword that `word` spells, if it spells one.
    pub open spec fn spec_lookup(word: Seq<char>) -> Option<Keyword> {
        if word == "and"@ {
            Some(Keyword::And)
        } else if word == "class"@ {
            Some(Keyword::Class)
        } else if word == "else"@ {
            Some(Keyword::Else)
        } else if word == "false"@ {
            Some(Keyword::False)
        } else if word == "for"@ {
            Some(Keyword::For)
        } else if word == "fun"@ {
            Some(Keyword::Fun)
        } else if word == "if"@ {
            Some(Keyword::If)
        } else if word == "nil"@ {
            Some(Keyword::Nil)
        } else if word == "or"@ {
            Some(Keyword::Or)
        } else if word == "print"@ {
            Some(Keyword::Print)
        } else if word == "return"@ {
            Some(Keyword::Return)
        } else if word == "super"@ {
            Some(Keyword::Super)
        } else if word == "this"@ {
            Some(Keyword::This)
        } else if word == "true"@ {
            Some(Keyword::True)
        } else if word == "var"@ {
            Some(Keyword::Var)
        } else if word == "while"@ {
            Some(Keyword::While)
        } else {
            None
        }
    }

    /// The spelling of the keyword.
    pub fn as_str(self) -> (r: &'static str)
        ensures
            r@ == self.word(),
    {
        match self {
            Keyword::And => "and",
            Keyword::Class => "class",
            Keyword::Else => "else",
            Keyword::False => "false",
            Keyword::For => "for",
            Keyword::Fun => "fun",
            Keyword::If => "if",
            Keyword::Nil => "nil",
            Keyword::Or => "or",
            Keyword::Print => "print",
            Keyword::Return => "return",
            Keyword::Super => "super",
            Keyword::This => "this",
            Keyword::True => "true",
            Keyword::Var => "var",
            Keyword::While => "while",
        }
    }

    /// Looks `word` up in the keyword table.
    pub fn lookup(word: &[char]) -> (r: Option<Keyword>)
        ensures
            r == Self::spec_lookup(word@),
    {
        if same_text(word, "and") {
            Some(Keyword::And)
        } else if same_text(word, "class") {
            Some(Keyword::Class)
        } else if same_text(word, "else") {
            Some(Keyword::Else)
        } else if same_text(word, "false") {
            Some(Keyword::False)
        } else if same_text(word, "for") {
            Some(Keyword::For)
        } else if same_text(word, "fun") {
            Some(Keyword::Fun)
        } else if same_text(word, "if") {
            Some(Keyword::If)
        } else if same_text(word, "nil") {
            Some(Keyword::Nil)
        } else if same_text(word, "or") {
            Some(Keyword::Or)
        } else if same_text(word, "print") {
            Some(Keyword::Print)
        } else if same_text(word, "return") {
            Some(Keyword::Return)
        } else if same_text(word, "super") {
            Some(Keyword::Super)
        } else if same_text(word, "this") {
            Some(Keyword::This)
        } else if same_text(word, "true") {
            Some(Keyword::True)
        } else if same_text(word, "var") {
            Some(Keyword::Var)
        } else if same_text(word, "while") {
            Some(Keyword::While)
        } else {
            None
        }
    }
}

/// Every keyword is found under its own spelling, and only there.
pub proof fn lemma_lookup_word(k: Keyword)
    ensures
        Keyword::spec_lookup(k.word()) == Some(k),
{
    reveal_strlit("and");
    reveal_strlit("class");
    reveal_strlit("else");
    reveal_strlit("false");
    reveal_strlit("for");
    reveal_strlit("fun");
    reveal_strlit("if");
    reveal_strlit("nil");
    reveal_strlit("or");
    reveal_strlit("print");
    reveal_strlit("return");
    reveal_strlit("super");
    reveal_strlit("this");
    reveal_strlit("true");
    reveal_strlit("var");
    reveal_strlit("while");
    assert("if"@[0] == 'i' && "or"@[0] == 'o');
    assert("and"@[0] == 'a' && "nil"@[0] == 'n' && "var"@[0] == 'v');
    assert("for"@[0] == 'f' && "fun"@[0] == 'f' && "for"@[1] == 'o' && "fun"@[1] == 'u');
    assert("else"@[0] == 'e' && "this"@[1] == 'h' && "true"@[1] == 'r');
    assert("this"@[0] == 't' && "true"@[0] == 't');
    assert("class"@[0] == 'c' && "false"@[0] == 'f' && "print"@[0] == 'p');
    assert("super"@[0] == 's' && "while"@[0] == 'w');
}

/// The payload of a literal token. A number keeps its spelling,
/// `digits ( '.' digits )?`; a string keeps its contents with the escapes
/// already replaced.
#[derive(Debug, PartialEq, Eq)]
pub enum Literal {
    String(String),
    Number(String),
}

/// The mathematical value of a [`Literal`].
pub enum SpecLiteral {
    String(Seq<char>),
    Number(Seq<char>),
}

impl View for Literal {
    type V = SpecLiteral;

    open spec fn view(&self) -> SpecLiteral {
        match self {
            Literal::String(s) => SpecLiteral::String(s@),
            Literal::Number(s) => SpecLiteral::Number(s@),
        }
    }
}

impl Clone for Literal {
    fn clone(&self) -> (r: Self)
        ensures
            r == *self,
    {
        match self {
            Literal::String(s) => Literal::String(s.clone()),
            Literal::Number(s) => Literal::Number(s.clone()),
        }
    }
}

/// What a token is.
#[derive(Debug, PartialEq, Eq)]
pub enum TokenType {
    Bang,
    BangEqual,
    Colon,
    Comma,
    Dot,
    Eof,
    Equal,
    EqualEqual,
    Greater,
    GreaterEqual,
    Identifier(String),
    Keyword(Keyword),
    LeftBrace,
    LeftParen,
    Less,
    LessEqual,
    Literal(Literal),
    Minus,
    Plus,
    Question,
    RightBrace,
    RightParen,
    Semicolon,
    Slash,
    Star,
    Unknown(char),
    UnterminatedComment,
    UnterminatedString,
}

/// The mathematical value of a [`TokenType`].
pub enum SpecTokenType {
    Bang,
    BangEqual,
    Colon,
    Comma,
    Dot,
    Eof,
    Equal,
    EqualEqual,
    Greater,
    GreaterEqual,
    Identifier(Seq<char>),
    Keyword(Keyword),
    LeftBrace,
    LeftParen,
    Less,
    LessEqual,
    Literal(SpecLiteral),
    Minus,
    Plus,
    Question,
    RightBrace,
    RightParen,
    Semicolon,
    Slash,
    Star,
    Unknown(char),
    UnterminatedComment,
    UnterminatedString,
}

impl SpecTokenType {
    /// How the token is shown in a diagnostic.
    pub open spec fn text(self) -> Seq<char> {
        match self {
            SpecTokenType::Bang => "!"@,
            SpecTokenType::BangEqual => "!="@,
            SpecTokenType::Colon => ":"@,
            SpecTokenType::Comma => ","@,
            SpecTokenType::Dot => "."@,
            SpecTokenType::Eof => "end of input"@,
            SpecTokenType::Equal => "="@,
            SpecTokenType::EqualEqual => "=="@,
            SpecTokenType::Greater => ">"@,
            SpecTokenType::GreaterEqual => ">="@,
            SpecTokenType::Identifier(name) => name,
            SpecTokenType::Keyword(kw) => kw.word(),
            SpecTokenType::LeftBrace => "{"@,
            SpecTokenType::LeftParen => "("@,
            SpecTokenType::Less => "<"@,
            SpecTokenType::LessEqual => "<="@,
            SpecTokenType::Literal(SpecLiteral::String(s)) => s,
            SpecTokenType::Literal(SpecLiteral::Number(n)) => n,
            SpecTokenType::Minus => "-"@,
            SpecTokenType::Plus => "+"@,
            SpecTokenType::Question => "?"@,
            SpecTokenType::RightBrace => "}"@,
            SpecTokenType::RightParen => ")"@,
            SpecTokenType::Semicolon => ";"@,
            SpecTokenType::Slash => "/"@,
            SpecTokenType::Star => "*"@,
            SpecTokenType::Unknown(c) => seq![c],
            SpecTokenType::UnterminatedComment => "unterminated comment"@,
            SpecTokenType::UnterminatedString => "unterminated string"@,
        }
    }
}

impl View for TokenType {
    type V = SpecTokenType;

    open spec fn view(&self) -> SpecTokenType {
        match self {
            TokenType::Bang => SpecTokenType::Bang,
            TokenType::BangEqual => SpecTokenType::BangEqual,
            TokenType::Colon => SpecTokenType::Colon,
            TokenType::Comma => SpecTokenType::Comma,
            TokenType::Dot => SpecTokenType::Dot,
            TokenType::Eof => SpecTokenType::Eof,
            TokenType::Equal => SpecTokenType::Equal,
            TokenType::EqualEqual => SpecTokenType::EqualEqual,
            TokenType::Greater => SpecTokenType::Greater,
            TokenType::GreaterEqual => SpecTokenType::GreaterEqual,
            TokenType::Identifier(name) => SpecTokenType::Identifier(name@),
            TokenType::Keyword(kw) => SpecTokenType::Keyword(*kw),
            TokenType::LeftBrace => SpecTokenType::LeftBrace,
            TokenType::LeftParen => SpecTokenType::LeftParen,
            TokenType::Less => SpecTokenType::Less,
            TokenType::LessEqual => SpecTokenType::LessEqual,
            TokenType::Literal(lit) => SpecTokenType::Literal(lit@),
            TokenType::Minus => SpecTokenType::Minus,
            TokenType::Plus => SpecTokenType::Plus,
            TokenType::Question => SpecTokenType::Question,
            TokenType::RightBrace => SpecTokenType::RightBrace,
            TokenType::RightParen => SpecTokenType::RightParen,
            TokenType::Semicolon => SpecTokenType::Semicolon,
            TokenType::Slash => SpecTokenType::Slash,
            TokenType::Star => SpecTokenType::Star,
            TokenType::Unknown(c) => SpecTokenType::Unknown(*c),
            TokenType::UnterminatedComment => SpecTokenType::UnterminatedComment,
            TokenType::UnterminatedString => SpecTokenType::UnterminatedString,
        }
    }
}

impl Clone for TokenType {
    fn clone(&self) -> (r: Self)
        ensures
            r == *self,
    {
        match self {
            TokenType::Bang => TokenType::Bang,
            TokenType::BangEqual => TokenType::BangEqual,
            TokenType::Colon => TokenType::Colon,
            TokenType::Comma => TokenType::Comma,
            TokenType::Dot => TokenType::Dot,
            TokenType::Eof => TokenType::Eof,
            TokenType::Equal => TokenType::Equal,
            TokenType::EqualEqual => TokenType::EqualEqual,
            TokenType::Greater => TokenType::Greater,
            TokenType::GreaterEqual => TokenType::GreaterEqual,
            TokenType::Identifier(name) => TokenType::Identifier(name.clone()),
            TokenType::Keyword(kw) => TokenType::Keyword(*kw),
            TokenType::LeftBrace => TokenType::LeftBrace,
            TokenType::LeftParen => TokenType::LeftParen,
            TokenType::Less => TokenType::Less,
            TokenType::LessEqual => TokenType::LessEqual,
            TokenType::Literal(lit) => TokenType::Literal(lit.clone()),
            TokenType::Minus => TokenType::Minus,
            TokenType::Plus => TokenType::Plus,
            TokenType::Question => TokenType::Question,
            TokenType::RightBrace => TokenType::RightBrace,
            TokenType::RightParen => TokenType::RightParen,
            TokenType::Semicolon => TokenType::Semicolon,
            TokenType::Slash => TokenType::Slash,
            TokenType::Star => TokenType::Star,
            TokenType::Unknown(c) => TokenType::Unknown(*c),
            TokenType::UnterminatedComment => TokenType::UnterminatedComment,
            TokenType::UnterminatedString => TokenType::UnterminatedString,
        }
    }
}

impl TokenType {
    /// How the token is shown in a diagnostic: a punctuator or keyword by its
    /// spelling, an identifier by its name, a literal by its payload.
    pub fn to_text(&self) -> (r: String)
        ensures
            r@ == self@.text(),
    {
        match self {
            TokenType::Bang => String::from_str("!"),
            TokenType::BangEqual => String::from_str("!="),
            TokenType::Colon => String::from_str(":"),
            TokenType::Comma => String::from_str(","),
            TokenType::Dot => String::from_str("."),
            TokenType::Eof => String::from_str("end of input"),
            TokenType::Equal => String::from_str("="),
            TokenType::EqualEqual => String::from_str("=="),
            TokenType::Greater => String::from_str(">"),
            TokenType::GreaterEqual => String::from_str(">="),
            TokenType::Identifier(name) => name.clone(),
            TokenType::Keyword(kw) => String::from_str(kw.as_str()),
            TokenType::LeftBrace => String::from_str("{"),
            TokenType::LeftParen => String::from_str("("),
            TokenType::Less => String::from_str("<"),
            TokenType::LessEqual => String::from_str("<="),
            TokenType::Literal(Literal::String(s)) => s.clone(),
            TokenType::Literal(Literal::Number(n)) => n.clone(),
            TokenType::Minus => String::from_str("-"),
            TokenType::Plus => String::from_str("+"),
            TokenType::Question => String::from_str("?"),
            TokenType::RightBrace => String::from_str("}"),
            TokenType::RightParen => String::from_str(")"),
            TokenType::Semicolon => String::from_str(";"),
            TokenType::Slash => String::from_str("/"),
            TokenType::Star => String::from_str("*"),
            TokenType::Unknown(c) => {
                let mut s = String::new();
                s.push(*c);
                assert(s@ =~= seq![*c]);
                s
            }
            TokenType::UnterminatedComment => String::from_str("unterminated comment"),
            TokenType::UnterminatedString => String::from_str("unterminated string"),
        }
    }
}

/// A token with the bytes of the source that it covers.
#[derive(Debug, PartialEq, Eq)]
pub struct Token {
    pub token_type: TokenType,
    pub span: Span,
}

/// The mathematical value of a [`Token`].
pub struct SpecToken {
    pub token_type: SpecTokenType,
    pub span: Span,
}

impl View for Token {
    type V = SpecToken;

    open spec fn view(&self) -> SpecToken {
        SpecToken { token_type: self.token_type@, span: self.span }
    }
}

impl Clone for Token {
    fn clone(&self) -> (r: Self)
        ensures
            r == *self,
    {
        Token { token_type: self.token_type.clone(), span: self.span }
    }
}

/// The value of each token of `tokens`, in order.
pub open spec fn tokens_view(tokens: Seq<Token>) -> Seq<SpecToken> {
    tokens.map_values(|t: Token| t@)
}

} // verus!
