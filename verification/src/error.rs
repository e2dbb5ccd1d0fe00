//! What the lexer and the parser report when a source text is malformed.

use crate::token::{Token, TokenView};
use vstd::prelude::*;

verus! {

pub type LineNumber = usize;

#[derive(Debug, PartialEq)]
pub struct ParseError {
    pub source_file: Option<String>,
    pub line_number: LineNumber,
    pub kind: ParseErrorKind,
}

#[derive(Debug, PartialEq)]
pub enum ParseErrorKind {
    UnexpectedCharacter(char),
    NonAsciiByte(u8),
    UnexpectedToken { expected: &'static str, found: Token },
    InvalidIntegerLiteral { message: String },
    ExpressionNotAssignable,
    UnterminatedBlock,
}

pub enum ParseErrorKindView {
    UnexpectedCharacter(char),
    NonAsciiByte(u8),
    UnexpectedToken { expected: Seq<char>, found: TokenView },
    InvalidIntegerLiteral { message: Seq<char> },
    ExpressionNotAssignable,
    UnterminatedBlock,
}

pub struct ParseErrorView {
    pub source_file: Option<Seq<char>>,
    pub line_number: nat,
    pub kind: ParseErrorKindView,
}

impl View for ParseErrorKind {
    type V = ParseErrorKindView;

    open spec fn view(&self) -> ParseErrorKindView {
        match *self {
            ParseErrorKind::UnexpectedCharacter(c) => ParseErrorKindView::UnexpectedCharacter(c),
            ParseErrorKind::NonAsciiByte(b) => ParseErrorKindView::NonAsciiByte(b),
            ParseErrorKind::UnexpectedToken { expected, found } => {
                ParseErrorKindView::UnexpectedToken { expected: expected@, found: found@ }
            },
            ParseErrorKind::InvalidIntegerLiteral { message } => {
                ParseErrorKindView::InvalidIntegerLiteral { message: message@ }
            },
            ParseErrorKind::ExpressionNotAssignable => ParseErrorKindView::ExpressionNotAssignable,
            ParseErrorKind::UnterminatedBlock => ParseErrorKindView::UnterminatedBlock,
        }
    }
}

impl View for ParseError {
    type V = ParseErrorView;

    open spec fn view(&self) -> ParseErrorView {
        ParseErrorView {
            source_file: match self.source_file {
                Some(name) => Some(name@),
                None => None,
            },
            line_number: self.line_number as nat,
            kind: self.kind@,
        }
    }
}

/// What a lexical or syntactic error looks like when it is found on `line`
/// of a text that has no name.
pub open spec fn error_at(line: nat, kind: ParseErrorKindView) -> ParseErrorView {
    ParseErrorView { source_file: None, line_number: line, kind }
}

/// The error for a token that stands where something else was expected.
pub open spec fn unexpected(line: nat, expected: Seq<char>, found: TokenView) -> ParseErrorView {
    error_at(line, ParseErrorKindView::UnexpectedToken { expected, found })
}

} // verus!
