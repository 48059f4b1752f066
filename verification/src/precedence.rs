//! Operator precedence and fixity for the Pratt parser.

use vstd::prelude::*;
use crate::token::{Keyword, SpecTokenType, TokenType};

verus! {

/// What a token can stand for after an operand. `Lowest` is the floor of a
/// whole expression, `Prefix` that of the operand of a prefix operator;
/// neither is written by a token.
#[derive(Debug, Clone, Copy, PartialEq, Eq, Structural)]
pub enum Operator {
    And,
    Assign,
    Divide,
    Dot,
    Equal,
    FnCall,
    Greater,
    GreaterEqual,
    Less,
    LessEqual,
    Minus,
    Multiply,
    NotEqual,
    Lowest,
    Or,
    Plus,
    Prefix,
    Ternary,
}

#[derive(Debug, Clone, Copy, PartialEq, Eq, Structural)]
pub enum Fixity {
    Left,
    Right,
}

impl Operator {
    pub open spec fn spec_fixity(self) -> Fixity {
        match self {
            Operator::Ternary | Operator::Assign => Fixity::Right,
            _ => Fixity::Left,
        }
    }

    pub open spec fn spec_precedence(self) -> u8 {
        match self {
            Operator::FnCall | Operator::Dot => 15,
            Operator::Prefix => 14,
            Operator::Multiply | Operator::Divide => 13,
            Operator::Minus | Operator::Plus => 12,
            Operator::Greater
            | Operator::GreaterEqual
            | Operator::Less
            | Operator::LessEqual
            | Operator::NotEqual
            | Operator::Equal => 11,
            Operator::And => 10,
            Operator::Or => 9,
            Operator::Ternary => 4,
            Operator::Assign => 2,
            Operator::Lowest => 0,
        }
    }

    /// Whether `self`, met after an operand that was parsed above the floor
    /// `left_op`, takes that operand: its precedence is higher, or it is the
    /// same and `self` associates to the right.
    pub open spec fn spec_is_precedent_than(self, left_op: Operator) -> bool {
        self.spec_precedence() > left_op.spec_precedence() || (self.spec_precedence()
            == left_op.spec_precedence() && self.spec_fixity() == Fixity::Right)
    }

    /// The operator that a token writes after an operand, if it writes one.
    pub open spec fn of_token(token_type: SpecTokenType) -> Option<Operator> {
        match token_type {
            SpecTokenType::Equal => Some(Operator::Assign),
            SpecTokenType::Dot => Some(Operator::Dot),
            SpecTokenType::BangEqual => Some(Operator::NotEqual),
            SpecTokenType::EqualEqual => Some(Operator::Equal),
            SpecTokenType::Greater => Some(Operator::Greater),
            SpecTokenType::GreaterEqual => Some(Operator::GreaterEqual),
            SpecTokenType::Less => Some(Operator::Less),
            SpecTokenType::LessEqual => Some(Operator::LessEqual),
            SpecTokenType::Minus => Some(Operator::Minus),
            SpecTokenType::Plus => Some(Operator::Plus),
            SpecTokenType::Slash => Some(Operator::Divide),
            SpecTokenType::Star => Some(Operator::Multiply),
            SpecTokenType::Keyword(Keyword::And) => Some(Operator::And),
            SpecTokenType::Keyword(Keyword::Or) => Some(Operator::Or),
            SpecTokenType::Question => Some(Operator::Ternary),
            SpecTokenType::LeftParen => Some(Operator::FnCall),
            _ => None,
        }
    }

    #[verifier::when_used_as_spec(spec_fixity)]
    pub fn fixity(self) -> (r: Fixity)
        ensures
            r == self.spec_fixity(),
    {
        match self {
            Operator::Ternary | Operator::Assign => Fixity::Right,
            _ => Fixity::Left,
        }
    }

    #[verifier::when_used_as_spec(spec_precedence)]
    pub fn precedence(self) -> (r: u8)
        ensures
            r == self.spec_precedence(),
    {
        match self {
            Operator::FnCall | Operator::Dot => 15,
            Operator::Prefix => 14,
            Operator::Multiply | Operator::Divide => 13,
            Operator::Minus | Operator::Plus => 12,
            Operator::Greater
            | Operator::GreaterEqual
            | Operator::Less
            | Operator::LessEqual
            | Operator::NotEqual
            | Operator::Equal => 11,
            Operator::And => 10,
            Operator::Or => 9,
            Operator::Ternary => 4,
            Operator::Assign => 2,
            Operator::Lowest => 0,
        }
    }

    #[verifier::when_used_as_spec(spec_is_precedent_than)]
    pub fn is_precedent_than(self, left_op: Operator) -> (r: bool)
        ensures
            r == self.spec_is_precedent_than(left_op),
    {
        let mine = self.precedence();
        let theirs = left_op.precedence();
        if mine < theirs {
            false
        } else if mine == theirs {
            self.fixity() == Fixity::Right
        } else {
            true
        }
    }

    /// The operator that a token writes after an operand, if it writes one.
    pub fn from_token(token_type: &TokenType) -> (r: Option<Self>)
        ensures
            r == Self::of_token(token_type@),
    {
        match token_type {
            TokenType::Equal => Some(Operator::Assign),
            TokenType::Dot => Some(Operator::Dot),
            TokenType::BangEqual => Some(Operator::NotEqual),
            TokenType::EqualEqual => Some(Operator::Equal),
            TokenType::Greater => Some(Operator::Greater),
            TokenType::GreaterEqual => Some(Operator::GreaterEqual),
            TokenType::Less => Some(Operator::Less),
            TokenType::LessEqual => Some(Operator::LessEqual),
            TokenType::Minus => Some(Operator::Minus),
            TokenType::Plus => Some(Operator::Plus),
            TokenType::Slash => Some(Operator::Divide),
            TokenType::Star => Some(Operator::Multiply),
            TokenType::Keyword(Keyword::And) => Some(Operator::And),
            TokenType::Keyword(Keyword::Or) => Some(Operator::Or),
            TokenType::Question => Some(Operator::Ternary),
            TokenType::LeftParen => Some(Operator::FnCall),
            _ => None,
        }
    }
}

} // verus!
