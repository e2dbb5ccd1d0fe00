//! Tokens, and the binding powers of the symbols among them.

use crate::ast::{Float, Identifier, Integer};
use vstd::prelude::*;

verus! {

/// Punctuation and operators.
#[derive(Debug, Copy, Clone, Eq, PartialEq, Structural)]
pub enum Symbol {
    Colon,
    Semicolon,
    Comma,
    Dot,
    ParenLeft,
    ParenRight,
    CurlyLeft,
    CurlyRight,
    SquareLeft,
    SquareRight,
    Add,
    Sub,
    Mul,
    Div,
    Mod,
    EqEq,
    Eq,
    NoEq,
    No,
    LtEq,
    Lt,
    GtEq,
    Gt,
    And,
    Or,
}

impl Symbol {
    /// How tightly the symbol binds its operand when it stands before one.
    pub open spec fn prefix_power(self) -> Option<u8> {
        match self {
            Symbol::Add | Symbol::Sub | Symbol::No => Some(9u8),
            _ => None,
        }
    }

    /// How tightly the symbol binds the expression it follows.
    pub open spec fn postfix_power(self) -> Option<u8> {
        match self {
            Symbol::SquareLeft | Symbol::ParenLeft => Some(10u8),
            _ => None,
        }
    }

    /// How tightly the symbol binds to its left and to its right when it
    /// stands between two operands.
    pub open spec fn infix_power(self) -> Option<(u8, u8)> {
        match self {
            Symbol::And | Symbol::Or => Some((1u8, 2u8)),
            Symbol::EqEq | Symbol::NoEq | Symbol::Lt | Symbol::LtEq | Symbol::Gt | Symbol::GtEq => {
                Some((3u8, 4u8))
            },
            Symbol::Add | Symbol::Sub => Some((5u8, 6u8)),
            Symbol::Mul | Symbol::Div | Symbol::Mod => Some((7u8, 8u8)),
            Symbol::Dot => Some((11u8, 12u8)),
            _ => None,
        }
    }

    /// The left binding power of an infix symbol.
    pub open spec fn left_power(self) -> u8 {
        match self.infix_power() {
            Some((left, _)) => left,
            None => 0,
        }
    }

    /// The right binding power of an infix symbol.
    pub open spec fn right_power(self) -> u8 {
        match self.infix_power() {
            Some((_, right)) => right,
            None => 0,
        }
    }

    pub fn prefix_bp(self) -> (r: Option<((), u8)>)
        ensures
            r == match self.prefix_power() {
                Some(power) => Some(((), power)),
                None => None,
            },
    {
        match self {
            Symbol::Add | Symbol::Sub | Symbol::No => Some(((), 9)),
            _ => None,
        }
    }

    pub fn postfix_bp(self) -> (r: Option<(u8, ())>)
        ensures
            r == match self.postfix_power() {
                Some(power) => Some((power, ())),
                None => None,
            },
    {
        match self {
            Symbol::SquareLeft | Symbol::ParenLeft => Some((10, ())),
            _ => None,
        }
    }

    pub fn infix_bp(self) -> (r: Option<(u8, u8)>)
        ensures
            r == self.infix_power(),
    {
        match self {
            Symbol::And | Symbol::Or => Some((1, 2)),
            Symbol::EqEq | Symbol::NoEq | Symbol::Lt | Symbol::LtEq | Symbol::Gt | Symbol::GtEq => {
                Some((3, 4))
            },
            Symbol::Add | Symbol::Sub => Some((5, 6)),
            Symbol::Mul | Symbol::Div | Symbol::Mod => Some((7, 8)),
            Symbol::Dot => Some((11, 12)),
            _ => None,
        }
    }
}

/// One lexical unit of a source text.
#[derive(Debug, PartialEq)]
pub enum Token {
    Identifier(Identifier),
    Integer(Integer),
    Float(Float),
    String(String),
    Symbol(Symbol),
    True,
    False,
    Null,
    Fn,
    Return,
    Let,
    If,
    Else,
    Loop,
    Break,
    Continue,
    For,
    In,
    While,
    Eof,
}

pub enum TokenView {
    Identifier(Seq<char>),
    Integer(int),
    Float(Seq<char>),
    String(Seq<char>),
    Symbol(Symbol),
    True,
    False,
    Null,
    Fn,
    Return,
    Let,
    If,
    Else,
    Loop,
    Break,
    Continue,
    For,
    In,
    While,
    Eof,
}

impl View for Token {
    type V = TokenView;

    open spec fn view(&self) -> TokenView {
        match *self {
            Token::Identifier(name) => TokenView::Identifier(name@),
            Token::Integer(n) => TokenView::Integer(n as int),
            Token::Float(f) => TokenView::Float(f@),
            Token::String(s) => TokenView::String(s@),
            Token::Symbol(s) => TokenView::Symbol(s),
            Token::True => TokenView::True,
            Token::False => TokenView::False,
            Token::Null => TokenView::Null,
            Token::Fn => TokenView::Fn,
            Token::Return => TokenView::Return,
            Token::Let => TokenView::Let,
            Token::If => TokenView::If,
            Token::Else => TokenView::Else,
            Token::Loop => TokenView::Loop,
            Token::Break => TokenView::Break,
            Token::Continue => TokenView::Continue,
            Token::For => TokenView::For,
            Token::In => TokenView::In,
            Token::While => TokenView::While,
            Token::Eof => TokenView::Eof,
        }
    }
}

impl Clone for Token {
    fn clone(&self) -> (r: Self)
        ensures
            r@ == self@,
    {
        match self {
            Token::Identifier(name) => Token::Identifier(name.clone()),
            Token::Integer(n) => Token::Integer(*n),
            Token::Float(f) => Token::Float(f.clone()),
            Token::String(s) => Token::String(s.clone()),
            Token::Symbol(s) => Token::Symbol(*s),
            Token::True => Token::True,
            Token::False => Token::False,
            Token::Null => Token::Null,
            Token::Fn => Token::Fn,
            Token::Return => Token::Return,
            Token::Let => Token::Let,
            Token::If => Token::If,
            Token::Else => Token::Else,
            Token::Loop => Token::Loop,
            Token::Break => Token::Break,
            Token::Continue => Token::Continue,
            Token::For => Token::For,
            Token::In => Token::In,
            Token::While => Token::While,
            Token::Eof => Token::Eof,
        }
    }
}

} // verus!
